use vstd::prelude::*;
use vstd::string::StringExecFns;

verus! {

/// Resolution of a timestamp column.
#[derive(Clone, Copy, Debug, PartialEq, Eq, Structural)]
pub enum TimeUnit {
    Second,
    Millisecond,
    Microsecond,
    Nanosecond,
}

/// Data type of a table column.
#[derive(Clone, Copy, Debug, PartialEq, Eq, Structural)]
pub enum ConcreteDataType {
    Boolean,
    Int8,
    Int16,
    Int32,
    Int64,
    UInt8,
    UInt16,
    UInt32,
    UInt64,
    Float32,
    Float64,
    String,
    Binary,
    Date,
    Timestamp(TimeUnit),
}

/// A literal in a SQL statement.
#[derive(Debug)]
pub enum SqlValue {
    Number(String),
    SingleQuotedString(String),
}

/// Default of a column: a literal, or a function call written as SQL text.
#[derive(Debug)]
pub enum ColumnDefaultConstraint {
    Value(SqlValue),
    Function(String),
}

/// One column of a table schema.
#[derive(Debug)]
pub struct ColumnSchema {
    pub name: String,
    pub data_type: ConcreteDataType,
    pub is_nullable: bool,
    pub default_constraint: Option<ColumnDefaultConstraint>,
    pub comment: Option<String>,
    pub is_time_index: bool,
}

/// Options a table was created with.
#[derive(Debug)]
pub struct TableOptions {
    /// Time to live of the data, in seconds.
    pub ttl: Option<u64>,
    pub compaction_time_window: Option<i64>,
    /// Further options, in the order they were given.
    pub extra_options: Vec<(String, String)>,
}

#[derive(Debug)]
pub struct TableMeta {
    pub schema: Vec<ColumnSchema>,
    /// Positions in `schema` of the primary key columns, in key order.
    pub primary_key_indices: Vec<usize>,
    pub engine: String,
    pub region_numbers: Vec<u32>,
    pub options: TableOptions,
}

#[derive(Debug)]
pub struct TableInfo {
    pub table_id: u32,
    pub name: String,
    pub catalog_name: String,
    pub schema_name: String,
    pub meta: TableMeta,
}

/// A `name = value` option of a statement.
#[derive(Debug)]
pub struct SqlOption {
    pub name: String,
    pub value: SqlValue,
}

#[derive(Debug)]
pub enum ColumnOption {
    Null,
    NotNull,
    Default(ColumnDefaultConstraint),
    Comment(String),
}

#[derive(Debug)]
pub struct ColumnOptionDef {
    pub name: Option<String>,
    pub option: ColumnOption,
}

#[derive(Debug)]
pub struct ColumnDef {
    pub name: String,
    pub data_type: ConcreteDataType,
    pub options: Vec<ColumnOptionDef>,
}

#[derive(Debug)]
pub enum TableConstraint {
    /// The column that orders the table in time.
    TimeIndex(String),
    PrimaryKey(Vec<String>),
}

/// A `CREATE TABLE` statement.
#[derive(Debug)]
pub struct CreateTable {
    pub if_not_exists: bool,
    pub table_id: u32,
    pub name: String,
    pub columns: Vec<ColumnDef>,
    pub engine: String,
    pub constraints: Vec<TableConstraint>,
    pub options: Vec<SqlOption>,
}

/// What `humantime::format_duration` writes for a duration of `secs`
/// seconds.
pub uninterp spec fn humanized_seconds(secs: u64) -> Seq<char>;

/// Relies on humantime::format_duration: its text depends on the duration
/// alone, and the zero duration reads "0s".
#[verifier::external_body]
fn format_ttl(secs: u64) -> (r: String)
    ensures
        r@ == humanized_seconds(secs),
        secs == 0 ==> r@ == seq!['0', 's'],
{
    humantime::format_duration(std::time::Duration::from_secs(secs)).to_string()
}

pub open spec fn digit_char(d: nat) -> char {
    if d == 0 {
        '0'
    } else if d == 1 {
        '1'
    } else if d == 2 {
        '2'
    } else if d == 3 {
        '3'
    } else if d == 4 {
        '4'
    } else if d == 5 {
        '5'
    } else if d == 6 {
        '6'
    } else if d == 7 {
        '7'
    } else if d == 8 {
        '8'
    } else {
        '9'
    }
}

/// Decimal digits of `n`, without leading zeros.
pub open spec fn decimal(n: nat) -> Seq<char>
    decreases n,
{
    if n < 10 {
        seq![digit_char(n)]
    } else {
        decimal(n / 10).push(digit_char(n % 10))
    }
}

/// Decimal text of a signed integer.
pub open spec fn signed_decimal(n: int) -> Seq<char> {
    if n < 0 {
        seq!['-'] + decimal((-n) as nat)
    } else {
        decimal(n as nat)
    }
}

fn digit_str(d: u64) -> (r: &'static str)
    requires
        d < 10,
    ensures
        r@ == seq![digit_char(d as nat)],
{
    proof {
        reveal_strlit("0");
        reveal_strlit("1");
        reveal_strlit("2");
        reveal_strlit("3");
        reveal_strlit("4");
        reveal_strlit("5");
        reveal_strlit("6");
        reveal_strlit("7");
        reveal_strlit("8");
        reveal_strlit("9");
    }
    if d == 0 {
        "0"
    } else if d == 1 {
        "1"
    } else if d == 2 {
        "2"
    } else if d == 3 {
        "3"
    } else if d == 4 {
        "4"
    } else if d == 5 {
        "5"
    } else if d == 6 {
        "6"
    } else if d == 7 {
        "7"
    } else if d == 8 {
        "8"
    } else {
        "9"
    }
}

/// Decimal text of `n`.
pub fn decimal_string(n: u64) -> (r: String)
    ensures
        r@ == decimal(n as nat),
    decreases n,
{
    if n < 10 {
        digit_str(n).to_owned()
    } else {
        let head = decimal_string(n / 10);
        head.concat(digit_str(n % 10))
    }
}

/// Decimal text of a signed `n`, with a leading minus when negative.
pub fn signed_decimal_string(n: i64) -> (r: String)
    ensures
        r@ == signed_decimal(n as int),
{
    if n < 0 {
        proof {
            reveal_strlit("-");
        }
        let m: u64 = (-(n as i128)) as u64;
        let r = "-".to_owned().concat(decimal_string(m).as_str());
        r
    } else {
        decimal_string(n as u64)
    }
}

#[inline]
fn number_value(n: u64) -> (r: SqlValue)
    ensures
        r matches SqlValue::Number(s) && s@ == decimal(n as nat),
{
    SqlValue::Number(decimal_string(n))
}

#[inline]
fn string_value(s: String) -> (r: SqlValue)
    ensures
        r matches SqlValue::SingleQuotedString(t) && t@ == s@,
{
    SqlValue::SingleQuotedString(s)
}

#[inline]
fn sql_option(name: &str, value: SqlValue) -> (r: SqlOption)
    ensures
        r.name@ == name@,
        r.value == value,
{
    SqlOption { name: name.to_owned(), value }
}

#[inline]
fn column_option_def(option: ColumnOption) -> (r: ColumnOptionDef)
    ensures
        r.name is None,
        r.option == option,
{
    ColumnOptionDef { name: None, option }
}

/// Option name of the region count.
pub const REGIONS_KEY: &'static str = "regions";

/// Option name of the time to live.
pub const TTL_KEY: &'static str = "ttl";

/// Option name of the compaction time window.
pub const COMPACTION_TIME_WINDOW_KEY: &'static str = "compaction_time_window";

pub enum SqlValueView {
    Number(Seq<char>),
    Quoted(Seq<char>),
}

impl View for SqlValue {
    type V = SqlValueView;

    open spec fn view(&self) -> SqlValueView {
        match self {
            SqlValue::Number(s) => SqlValueView::Number(s@),
            SqlValue::SingleQuotedString(s) => SqlValueView::Quoted(s@),
        }
    }
}

pub enum DefaultView {
    Value(SqlValueView),
    Function(Seq<char>),
}

impl View for ColumnDefaultConstraint {
    type V = DefaultView;

    open spec fn view(&self) -> DefaultView {
        match self {
            ColumnDefaultConstraint::Value(v) => DefaultView::Value(v@),
            ColumnDefaultConstraint::Function(f) => DefaultView::Function(f@),
        }
    }
}

pub enum ColumnOptionView {
    Null,
    NotNull,
    Default(DefaultView),
    Comment(Seq<char>),
}

impl View for ColumnOptionDef {
    type V = ColumnOptionView;

    /// The option itself; the name of an option definition is always unset.
    open spec fn view(&self) -> ColumnOptionView {
        match self.option {
            ColumnOption::Null => ColumnOptionView::Null,
            ColumnOption::NotNull => ColumnOptionView::NotNull,
            ColumnOption::Default(d) => ColumnOptionView::Default(d@),
            ColumnOption::Comment(c) => ColumnOptionView::Comment(c@),
        }
    }
}

pub struct ColumnDefView {
    pub name: Seq<char>,
    pub data_type: ConcreteDataType,
    pub options: Seq<ColumnOptionView>,
}

impl View for ColumnDef {
    type V = ColumnDefView;

    open spec fn view(&self) -> ColumnDefView {
        ColumnDefView {
            name: self.name@,
            data_type: self.data_type,
            options: self.options@.map_values(|o: ColumnOptionDef| o@),
        }
    }
}

pub enum ConstraintView {
    TimeIndex(Seq<char>),
    PrimaryKey(Seq<Seq<char>>),
}

impl View for TableConstraint {
    type V = ConstraintView;

    open spec fn view(&self) -> ConstraintView {
        match self {
            TableConstraint::TimeIndex(c) => ConstraintView::TimeIndex(c@),
            TableConstraint::PrimaryKey(cols) => ConstraintView::PrimaryKey(
                cols@.map_values(|c: String| c@),
            ),
        }
    }
}

impl View for SqlOption {
    type V = (Seq<char>, SqlValueView);

    open spec fn view(&self) -> (Seq<char>, SqlValueView) {
        (self.name@, self.value@)
    }
}

pub struct CreateTableView {
    pub if_not_exists: bool,
    pub table_id: u32,
    pub name: Seq<char>,
    pub columns: Seq<ColumnDefView>,
    pub engine: Seq<char>,
    pub constraints: Seq<ConstraintView>,
    pub options: Seq<(Seq<char>, SqlValueView)>,
}

impl View for CreateTable {
    type V = CreateTableView;

    open spec fn view(&self) -> CreateTableView {
        CreateTableView {
            if_not_exists: self.if_not_exists,
            table_id: self.table_id,
            name: self.name@,
            columns: self.columns@.map_values(|c: ColumnDef| c@),
            engine: self.engine@,
            constraints: self.constraints@.map_values(|c: TableConstraint| c@),
            options: self.options@.map_values(|o: SqlOption| o@),
        }
    }
}

/// The options of the statement for `meta`, given the text of its ttl:
/// the region count if it has regions, the ttl, the compaction time window,
/// then the extra options as quoted strings, in their order.
pub open spec fn sql_options_spec(meta: TableMeta, ttl_text: Option<Seq<char>>) -> Seq<
    (Seq<char>, SqlValueView),
> {
    let regions = if meta.region_numbers@.len() > 0 {
        seq![(REGIONS_KEY@, SqlValueView::Number(decimal(meta.region_numbers@.len())))]
    } else {
        Seq::empty()
    };
    let ttl = match ttl_text {
        Some(t) => seq![(TTL_KEY@, SqlValueView::Quoted(t))],
        None => Seq::empty(),
    };
    let window = match meta.options.compaction_time_window {
        Some(w) => seq![
            (COMPACTION_TIME_WINDOW_KEY@, SqlValueView::Number(signed_decimal(w as int))),
        ],
        None => Seq::empty(),
    };
    regions + ttl + window + meta.options.extra_options@.map_values(
        |kv: (String, String)| (kv.0@, SqlValueView::Quoted(kv.1@)),
    )
}

/// The column definition of `c`: nullability, then its default and its
/// comment when it has them.
pub open spec fn column_def_spec(c: ColumnSchema) -> ColumnDefView {
    let null = if c.is_nullable {
        ColumnOptionView::Null
    } else {
        ColumnOptionView::NotNull
    };
    let default = match c.default_constraint {
        Some(d) => seq![ColumnOptionView::Default(d@)],
        None => Seq::empty(),
    };
    let comment = match c.comment {
        Some(t) => seq![ColumnOptionView::Comment(t@)],
        None => Seq::empty(),
    };
    ColumnDefView { name: c.name@, data_type: c.data_type, options: seq![null] + default + comment }
}

/// Position of the first time index column, if any.
pub open spec fn time_index_pos(s: Seq<ColumnSchema>) -> Option<int>
    decreases s.len(),
{
    if s.len() == 0 {
        None
    } else {
        match time_index_pos(s.drop_last()) {
            Some(i) => Some(i),
            None => if s.last().is_time_index {
                Some(s.len() - 1)
            } else {
                None
            },
        }
    }
}

/// The table's constraints: its time index, then its primary key if the key
/// has columns.
pub open spec fn constraints_spec(meta: TableMeta) -> Seq<ConstraintView> {
    let s = meta.schema@;
    let time = match time_index_pos(s) {
        Some(i) => seq![ConstraintView::TimeIndex(s[i].name@)],
        None => Seq::empty(),
    };
    let key = if meta.primary_key_indices@.len() > 0 {
        seq![
            ConstraintView::PrimaryKey(
                meta.primary_key_indices@.map_values(|k: usize| s[k as int].name@),
            ),
        ]
    } else {
        Seq::empty()
    };
    time + key
}

impl TableMeta {
    /// Every primary key index names a column.
    pub open spec fn wf(self) -> bool {
        forall|i: int|
            0 <= i < self.primary_key_indices@.len() ==> #[trigger] self.primary_key_indices@[i]
                < self.schema@.len()
    }
}

/// The statement that recreates table `info`, given the text of its ttl.
pub open spec fn create_table_spec(info: TableInfo, ttl_text: Option<Seq<char>>) -> CreateTableView {
    CreateTableView {
        if_not_exists: true,
        table_id: info.table_id,
        name: info.name@,
        columns: info.meta.schema@.map_values(|c: ColumnSchema| column_def_spec(c)),
        engine: info.meta.engine@,
        constraints: constraints_spec(info.meta),
        options: sql_options_spec(info.meta, ttl_text),
    }
}

/// The ttl text the statement of `meta` carries.
pub open spec fn ttl_text_of(meta: TableMeta) -> Option<Seq<char>> {
    match meta.options.ttl {
        Some(secs) => Some(humanized_seconds(secs)),
        None => None,
    }
}

fn clone_value(v: &SqlValue) -> (r: SqlValue)
    ensures
        r@ == v@,
{
    match v {
        SqlValue::Number(s) => SqlValue::Number(s.clone()),
        SqlValue::SingleQuotedString(s) => SqlValue::SingleQuotedString(s.clone()),
    }
}

fn clone_default(d: &ColumnDefaultConstraint) -> (r: ColumnDefaultConstraint)
    ensures
        r@ == d@,
{
    match d {
        ColumnDefaultConstraint::Value(v) => ColumnDefaultConstraint::Value(clone_value(v)),
        ColumnDefaultConstraint::Function(f) => ColumnDefaultConstraint::Function(f.clone()),
    }
}

/// The options of the statement for `meta`, with `ttl_text` standing for the
/// formatted ttl.
pub fn create_sql_options_with(meta: &TableMeta, ttl_text: Option<String>) -> (r: Vec<SqlOption>)
    requires
        meta.options.ttl is Some <==> ttl_text is Some,
    ensures
        r@.map_values(|o: SqlOption| o@) == sql_options_spec(
            *meta,
            match ttl_text {
                Some(t) => Some(t@),
                None => None,
            },
        ),
{
    let ghost tt = if ttl_text is Some {
        Some(ttl_text->Some_0@)
    } else {
        None::<Seq<char>>
    };
    let mut options: Vec<SqlOption> = Vec::new();
    if meta.region_numbers.len() > 0 {
        options.push(sql_option(REGIONS_KEY, number_value(meta.region_numbers.len() as u64)));
    }
    match ttl_text {
        Some(t) => {
            options.push(sql_option(TTL_KEY, string_value(t)));
        },
        None => {},
    }
    match meta.options.compaction_time_window {
        Some(w) => {
            options.push(
                sql_option(
                    COMPACTION_TIME_WINDOW_KEY,
                    SqlValue::Number(signed_decimal_string(w)),
                ),
            );
        },
        None => {},
    }
    let ghost head = options@.map_values(|o: SqlOption| o@);
    let ghost n0 = options@.len();
    let extra = &meta.options.extra_options;
    let mut i: usize = 0;
    while i < extra.len()
        invariant
            0 <= i <= extra@.len(),
            extra == &meta.options.extra_options,
            options@.len() == n0 + i,
            head.len() == n0,
            forall|k: int| 0 <= k < n0 ==> #[trigger] options@[k]@ == head[k],
            forall|k: int|
                0 <= k < i ==> #[trigger] options@[n0 + k]@ == (
                    extra@[k].0@,
                    SqlValueView::Quoted(extra@[k].1@),
                ),
        decreases extra@.len() - i,
    {
        let o = sql_option(extra[i].0.as_str(), string_value(extra[i].1.clone()));
        options.push(o);
        i = i + 1;
    }
    proof {
        let spec = sql_options_spec(*meta, tt);
        let tail = meta.options.extra_options@.map_values(
            |kv: (String, String)| (kv.0@, SqlValueView::Quoted(kv.1@)),
        );
        assert(head =~= spec.subrange(0, spec.len() - tail.len()));
        let got = options@.map_values(|o: SqlOption| o@);
        assert forall|k: int| 0 <= k < spec.len() implies #[trigger] got[k] == spec[k] by {
            if k < n0 {
                assert(options@[k]@ == head[k]);
            } else {
                assert(options@[n0 + (k - n0)]@ == tail[k - n0]);
            }
        }
        assert(got =~= spec);
    }
    options
}

/// The options of the statement for `meta`; the ttl is written by
/// humantime.
fn create_sql_options(meta: &TableMeta) -> (r: Vec<SqlOption>)
    ensures
        r@.map_values(|o: SqlOption| o@) == sql_options_spec(*meta, ttl_text_of(*meta)),
{
    let ttl_text = match meta.options.ttl {
        Some(secs) => Some(format_ttl(secs)),
        None => None,
    };
    create_sql_options_with(meta, ttl_text)
}

/// The column definition of `c`.
pub fn create_column_def(c: &ColumnSchema) -> (r: ColumnDef)
    ensures
        r@ == column_def_spec(*c),
{
    let mut options: Vec<ColumnOptionDef> = Vec::new();
    if c.is_nullable {
        options.push(column_option_def(ColumnOption::Null));
    } else {
        options.push(column_option_def(ColumnOption::NotNull));
    }
    match &c.default_constraint {
        Some(d) => {
            options.push(column_option_def(ColumnOption::Default(clone_default(d))));
        },
        None => {},
    }
    match &c.comment {
        Some(t) => {
            options.push(column_option_def(ColumnOption::Comment(t.clone())));
        },
        None => {},
    }
    let r = ColumnDef { name: c.name.clone(), data_type: c.data_type, options };
    proof {
        assert(r@.options =~= column_def_spec(*c).options);
    }
    r
}

proof fn lemma_time_index_in_range(s: Seq<ColumnSchema>)
    ensures
        time_index_pos(s) matches Some(i) ==> 0 <= i < s.len() && s[i].is_time_index,
    decreases s.len(),
{
    if s.len() > 0 {
        lemma_time_index_in_range(s.drop_last());
    }
}

proof fn lemma_time_index_prefix(s: Seq<ColumnSchema>, k: int)
    requires
        0 <= k <= s.len(),
        time_index_pos(s.take(k)) is Some,
    ensures
        time_index_pos(s) == time_index_pos(s.take(k)),
    decreases s.len() - k,
{
    if k < s.len() {
        assert(s.take(k + 1).drop_last() =~= s.take(k));
        lemma_time_index_prefix(s, k + 1);
    } else {
        assert(s.take(k) =~= s);
    }
}

/// Position of the first time index column of `s`, if any.
fn find_time_index(s: &Vec<ColumnSchema>) -> (r: Option<usize>)
    ensures
        r matches Some(i) ==> time_index_pos(s@) == Some(i as int) && i < s@.len(),
        r is None ==> time_index_pos(s@) is None,
{
    let mut i: usize = 0;
    while i < s.len()
        invariant
            0 <= i <= s@.len(),
            time_index_pos(s@.take(i as int)) is None,
        decreases s@.len() - i,
    {
        proof {
            assert(s@.take(i + 1).drop_last() =~= s@.take(i as int));
        }
        if s[i].is_time_index {
            proof {
                assert(time_index_pos(s@.take(i + 1)) == Some(i as int));
                lemma_time_index_prefix(s@, i + 1);
            }
            return Some(i);
        }
        i = i + 1;
    }
    proof {
        assert(s@.take(i as int) =~= s@);
    }
    None
}

/// The table's constraints: time index, then primary key.
pub fn create_table_constraints(meta: &TableMeta) -> (r: Vec<TableConstraint>)
    requires
        meta.wf(),
    ensures
        r@.map_values(|c: TableConstraint| c@) == constraints_spec(*meta),
{
    let mut constraints: Vec<TableConstraint> = Vec::new();
    proof {
        lemma_time_index_in_range(meta.schema@);
    }
    match find_time_index(&meta.schema) {
        Some(i) => {
            constraints.push(TableConstraint::TimeIndex(meta.schema[i].name.clone()));
            proof {
                assert(time_index_pos(meta.schema@) == Some(i as int));
                assert(constraints@[0]@ == ConstraintView::TimeIndex(meta.schema@[i as int].name@));
            }
        },
        None => {},
    }
    let ghost head = constraints@.map_values(|c: TableConstraint| c@);
    proof {
        lemma_time_index_in_range(meta.schema@);
    }
    let ghost time = match time_index_pos(meta.schema@) {
        Some(i) => seq![ConstraintView::TimeIndex(meta.schema@[i].name@)],
        None => Seq::empty(),
    };
    proof {
        lemma_time_index_in_range(meta.schema@);
        assert(head =~= time);
    }
    if meta.primary_key_indices.len() > 0 {
        let keys = &meta.primary_key_indices;
        let mut columns: Vec<String> = Vec::new();
        let mut j: usize = 0;
        while j < keys.len()
            invariant
                0 <= j <= keys@.len(),
                keys == &meta.primary_key_indices,
                meta.wf(),
                columns@.len() == j,
                forall|k: int|
                    0 <= k < j ==> #[trigger] columns@[k]@ == meta.schema@[keys@[k] as int].name@,
            decreases keys@.len() - j,
        {
            let k = keys[j];
            proof {
                assert(keys@[j as int] < meta.schema@.len());
            }
            columns.push(meta.schema[k].name.clone());
            j = j + 1;
        }
        proof {
            assert(columns@.map_values(|c: String| c@) =~= keys@.map_values(
                |k: usize| meta.schema@[k as int].name@,
            ));
        }
        constraints.push(TableConstraint::PrimaryKey(columns));
    }
    proof {
        let got = constraints@.map_values(|c: TableConstraint| c@);
        let spec = constraints_spec(*meta);
        assert(got.len() == spec.len());
        assert forall|k: int| 0 <= k < spec.len() implies #[trigger] got[k] == spec[k] by {
            if k < head.len() {
                assert(got[k] == head[k]);
                assert(spec[k] == time[k]);
            } else {
                assert(meta.primary_key_indices@.len() > 0);
                assert(got[k] == spec[k]);
            }
        }
        assert(got =~= spec);
    }
    constraints
}

/// The statement that recreates table `info`, given the text of its ttl.
pub fn create_table_stmt_with(info: &TableInfo, ttl_text: Option<String>) -> (r: CreateTable)
    requires
        info.meta.wf(),
        info.meta.options.ttl is Some <==> ttl_text is Some,
    ensures
        r@ == create_table_spec(
            *info,
            match ttl_text {
                Some(t) => Some(t@),
                None => None,
            },
        ),
{
    let schema = &info.meta.schema;
    let mut columns: Vec<ColumnDef> = Vec::new();
    let mut i: usize = 0;
    while i < schema.len()
        invariant
            0 <= i <= schema@.len(),
            schema == &info.meta.schema,
            columns@.len() == i,
            forall|k: int| 0 <= k < i ==> #[trigger] columns@[k]@ == column_def_spec(schema@[k]),
        decreases schema@.len() - i,
    {
        columns.push(create_column_def(&schema[i]));
        i = i + 1;
    }
    proof {
        assert(columns@.map_values(|c: ColumnDef| c@) =~= schema@.map_values(
            |c: ColumnSchema| column_def_spec(c),
        ));
    }
    let constraints = create_table_constraints(&info.meta);
    let options = create_sql_options_with(&info.meta, ttl_text);
    CreateTable {
        if_not_exists: true,
        table_id: info.table_id,
        name: info.name.clone(),
        columns,
        engine: info.meta.engine.clone(),
        constraints,
        options,
    }
}

/// The `CREATE TABLE` statement that recreates table `info`.
pub fn create_table_stmt(info: &TableInfo) -> (r: CreateTable)
    requires
        info.meta.wf(),
    ensures
        r@ == create_table_spec(*info, ttl_text_of(info.meta)),
{
    let ttl_text = match info.meta.options.ttl {
        Some(secs) => Some(format_ttl(secs)),
        None => None,
    };
    create_table_stmt_with(info, ttl_text)
}

/// SQL name of a column type.
pub open spec fn type_sql(t: ConcreteDataType) -> Seq<char> {
    match t {
        ConcreteDataType::Boolean => "BOOLEAN"@,
        ConcreteDataType::Int8 => "TINYINT"@,
        ConcreteDataType::Int16 => "SMALLINT"@,
        ConcreteDataType::Int32 => "INT"@,
        ConcreteDataType::Int64 => "BIGINT"@,
        ConcreteDataType::UInt8 => "TINYINT UNSIGNED"@,
        ConcreteDataType::UInt16 => "SMALLINT UNSIGNED"@,
        ConcreteDataType::UInt32 => "INT UNSIGNED"@,
        ConcreteDataType::UInt64 => "BIGINT UNSIGNED"@,
        ConcreteDataType::Float32 => "FLOAT"@,
        ConcreteDataType::Float64 => "DOUBLE"@,
        ConcreteDataType::String => "STRING"@,
        ConcreteDataType::Binary => "VARBINARY"@,
        ConcreteDataType::Date => "DATE"@,
        ConcreteDataType::Timestamp(TimeUnit::Second) => "TIMESTAMP(0)"@,
        ConcreteDataType::Timestamp(TimeUnit::Millisecond) => "TIMESTAMP(3)"@,
        ConcreteDataType::Timestamp(TimeUnit::Microsecond) => "TIMESTAMP(6)"@,
        ConcreteDataType::Timestamp(TimeUnit::Nanosecond) => "TIMESTAMP(9)"@,
    }
}

fn type_sql_exec(t: ConcreteDataType) -> (r: &'static str)
    ensures
        r@ == type_sql(t),
{
    match t {
        ConcreteDataType::Boolean => "BOOLEAN",
        ConcreteDataType::Int8 => "TINYINT",
        ConcreteDataType::Int16 => "SMALLINT",
        ConcreteDataType::Int32 => "INT",
        ConcreteDataType::Int64 => "BIGINT",
        ConcreteDataType::UInt8 => "TINYINT UNSIGNED",
        ConcreteDataType::UInt16 => "SMALLINT UNSIGNED",
        ConcreteDataType::UInt32 => "INT UNSIGNED",
        ConcreteDataType::UInt64 => "BIGINT UNSIGNED",
        ConcreteDataType::Float32 => "FLOAT",
        ConcreteDataType::Float64 => "DOUBLE",
        ConcreteDataType::String => "STRING",
        ConcreteDataType::Binary => "VARBINARY",
        ConcreteDataType::Date => "DATE",
        ConcreteDataType::Timestamp(TimeUnit::Second) => "TIMESTAMP(0)",
        ConcreteDataType::Timestamp(TimeUnit::Millisecond) => "TIMESTAMP(3)",
        ConcreteDataType::Timestamp(TimeUnit::Microsecond) => "TIMESTAMP(6)",
        ConcreteDataType::Timestamp(TimeUnit::Nanosecond) => "TIMESTAMP(9)",
    }
}

/// A literal as SQL text: a number as is, a string between single quotes.
pub open spec fn value_sql(v: SqlValueView) -> Seq<char> {
    match v {
        SqlValueView::Number(n) => n,
        SqlValueView::Quoted(t) => "'"@ + t + "'"@,
    }
}

pub open spec fn default_sql(d: DefaultView) -> Seq<char> {
    match d {
        DefaultView::Value(v) => value_sql(v),
        DefaultView::Function(f) => f,
    }
}

pub open spec fn column_option_sql(o: ColumnOptionView) -> Seq<char> {
    match o {
        ColumnOptionView::Null => "NULL"@,
        ColumnOptionView::NotNull => "NOT NULL"@,
        ColumnOptionView::Default(d) => "DEFAULT "@ + default_sql(d),
        ColumnOptionView::Comment(c) => "COMMENT '"@ + c + "'"@,
    }
}

/// The column options, each preceded by a space.
pub open spec fn column_options_sql(opts: Seq<ColumnOptionView>) -> Seq<char>
    decreases opts.len(),
{
    if opts.len() == 0 {
        Seq::empty()
    } else {
        column_options_sql(opts.drop_last()) + " "@ + column_option_sql(opts.last())
    }
}

/// One indented line of the column list.
pub open spec fn column_sql(c: ColumnDefView) -> Seq<char> {
    "  "@ + c.name + " "@ + type_sql(c.data_type) + column_options_sql(c.options)
}

/// `parts` with `sep` between each two.
pub open spec fn join(parts: Seq<Seq<char>>, sep: Seq<char>) -> Seq<char>
    decreases parts.len(),
{
    if parts.len() == 0 {
        Seq::empty()
    } else if parts.len() == 1 {
        parts[0]
    } else {
        join(parts.drop_last(), sep) + sep + parts.last()
    }
}

/// One indented line of the constraint list.
pub open spec fn constraint_sql(c: ConstraintView) -> Seq<char> {
    match c {
        ConstraintView::TimeIndex(col) => "  TIME INDEX ("@ + col + ")"@,
        ConstraintView::PrimaryKey(cols) => "  PRIMARY KEY ("@ + join(cols, ", "@) + ")"@,
    }
}

/// One indented `name = value` line of the option list.
pub open spec fn option_sql(o: (Seq<char>, SqlValueView)) -> Seq<char> {
    "  "@ + o.0 + " = "@ + value_sql(o.1)
}

/// The statement as SQL text: the column and constraint lines inside the
/// parentheses, the engine, and the options in a `WITH` block when there
/// are any.
pub open spec fn create_table_sql(t: CreateTableView) -> Seq<char> {
    let lines = t.columns.map_values(|c: ColumnDefView| column_sql(c)) + t.constraints.map_values(
        |c: ConstraintView| constraint_sql(c),
    );
    let with = if t.options.len() > 0 {
        "\nWITH(\n"@ + join(t.options.map_values(|o: (Seq<char>, SqlValueView)| option_sql(o)), ",\n"@)
            + "\n)"@
    } else {
        Seq::empty()
    };
    "CREATE TABLE "@ + (if t.if_not_exists {
        "IF NOT EXISTS "@
    } else {
        Seq::empty()
    }) + t.name + " (\n"@ + join(lines, ",\n"@) + "\n)\nENGINE="@ + t.engine + with
}

fn value_to_sql(v: &SqlValue) -> (r: String)
    ensures
        r@ == value_sql(v@),
{
    match v {
        SqlValue::Number(n) => n.clone(),
        SqlValue::SingleQuotedString(t) => "'".to_owned().concat(t.as_str()).concat("'"),
    }
}

fn column_option_to_sql(o: &ColumnOptionDef) -> (r: String)
    ensures
        r@ == column_option_sql(o@),
{
    match &o.option {
        ColumnOption::Null => "NULL".to_owned(),
        ColumnOption::NotNull => "NOT NULL".to_owned(),
        ColumnOption::Default(d) => {
            let text = match d {
                ColumnDefaultConstraint::Value(v) => value_to_sql(v),
                ColumnDefaultConstraint::Function(f) => f.clone(),
            };
            "DEFAULT ".to_owned().concat(text.as_str())
        },
        ColumnOption::Comment(c) => "COMMENT '".to_owned().concat(c.as_str()).concat("'"),
    }
}

fn column_to_sql(c: &ColumnDef) -> (r: String)
    ensures
        r@ == column_sql(c@),
{
    let mut line = "  ".to_owned().concat(c.name.as_str()).concat(" ").concat(
        type_sql_exec(c.data_type),
    );
    let ghost start = line@;
    let ghost opts = c@.options;
    let mut i: usize = 0;
    while i < c.options.len()
        invariant
            0 <= i <= c.options@.len(),
            opts == c@.options,
            line@ == start + column_options_sql(opts.take(i as int)),
        decreases c.options@.len() - i,
    {
        let piece = column_option_to_sql(&c.options[i]);
        line = line.concat(" ").concat(piece.as_str());
        proof {
            assert(opts.take(i + 1).drop_last() =~= opts.take(i as int));
            assert(opts.take(i + 1).last() == opts[i as int]);
        }
        i = i + 1;
    }
    proof {
        assert(opts.take(i as int) =~= opts);
    }
    line
}

/// Joins the texts of `parts` with `sep` between each two.
fn join_strings(parts: &Vec<String>, sep: &str) -> (r: String)
    ensures
        r@ == join(parts@.map_values(|p: String| p@), sep@),
{
    let ghost views = parts@.map_values(|p: String| p@);
    let mut out = String::new();
    let mut i: usize = 0;
    while i < parts.len()
        invariant
            0 <= i <= parts@.len(),
            views == parts@.map_values(|p: String| p@),
            out@ == join(views.take(i as int), sep@),
        decreases parts@.len() - i,
    {
        proof {
            assert(views.take(i + 1).drop_last() =~= views.take(i as int));
            assert(views.take(i + 1).last() == parts@[i as int]@);
        }
        if i == 0 {
            out = parts[0].clone();
            proof {
                assert(views.take(1) =~= seq![parts@[0]@]);
            }
        } else {
            out = out.concat(sep).concat(parts[i].as_str());
        }
        i = i + 1;
    }
    proof {
        assert(views.take(i as int) =~= views);
    }
    out
}

fn constraint_to_sql(c: &TableConstraint) -> (r: String)
    ensures
        r@ == constraint_sql(c@),
{
    match c {
        TableConstraint::TimeIndex(col) => "  TIME INDEX (".to_owned().concat(col.as_str()).concat(
            ")",
        ),
        TableConstraint::PrimaryKey(cols) => {
            let inner = join_strings(cols, ", ");
            "  PRIMARY KEY (".to_owned().concat(inner.as_str()).concat(")")
        },
    }
}

fn option_to_sql(o: &SqlOption) -> (r: String)
    ensures
        r@ == option_sql(o@),
{
    let v = value_to_sql(&o.value);
    "  ".to_owned().concat(o.name.as_str()).concat(" = ").concat(v.as_str())
}

impl CreateTable {
    /// The statement as SQL text.
    pub fn to_sql(&self) -> (r: String)
        ensures
            r@ == create_table_sql(self@),
    {
        let ghost t = self@;
        let mut lines: Vec<String> = Vec::new();
        let mut i: usize = 0;
        while i < self.columns.len()
            invariant
                0 <= i <= self.columns@.len(),
                t == self@,
                lines@.len() == i,
                forall|k: int| 0 <= k < i ==> #[trigger] lines@[k]@ == column_sql(t.columns[k]),
            decreases self.columns@.len() - i,
        {
            lines.push(column_to_sql(&self.columns[i]));
            i = i + 1;
        }
        let ghost n = self.columns@.len();
        let mut j: usize = 0;
        while j < self.constraints.len()
            invariant
                0 <= j <= self.constraints@.len(),
                t == self@,
                n == t.columns.len(),
                lines@.len() == n + j,
                forall|k: int| 0 <= k < n ==> #[trigger] lines@[k]@ == column_sql(t.columns[k]),
                forall|k: int|
                    0 <= k < j ==> #[trigger] lines@[n + k]@ == constraint_sql(t.constraints[k]),
            decreases self.constraints@.len() - j,
        {
            lines.push(constraint_to_sql(&self.constraints[j]));
            j = j + 1;
        }
        proof {
            let want = t.columns.map_values(|c: ColumnDefView| column_sql(c))
                + t.constraints.map_values(|c: ConstraintView| constraint_sql(c));
            let got = lines@.map_values(|p: String| p@);
            assert forall|k: int| 0 <= k < want.len() implies #[trigger] got[k] == want[k] by {
                if k >= n {
                    assert(lines@[n + (k - n)]@ == constraint_sql(t.constraints[k - n]));
                }
            }
            assert(got =~= want);
        }
        let body = join_strings(&lines, ",\n");
        let mut opts: Vec<String> = Vec::new();
        let mut m: usize = 0;
        while m < self.options.len()
            invariant
                0 <= m <= self.options@.len(),
                t == self@,
                opts@.len() == m,
                forall|k: int| 0 <= k < m ==> #[trigger] opts@[k]@ == option_sql(t.options[k]),
            decreases self.options@.len() - m,
        {
            opts.push(option_to_sql(&self.options[m]));
            m = m + 1;
        }
        proof {
            assert(opts@.map_values(|p: String| p@) =~= t.options.map_values(
                |o: (Seq<char>, SqlValueView)| option_sql(o),
            ));
        }
        let head = if self.if_not_exists {
            "CREATE TABLE IF NOT EXISTS "
        } else {
            "CREATE TABLE "
        };
        proof {
            reveal_strlit("CREATE TABLE IF NOT EXISTS ");
            reveal_strlit("CREATE TABLE ");
            reveal_strlit("IF NOT EXISTS ");
        }
        let mut out = head.to_owned().concat(self.name.as_str()).concat(" (\n").concat(
            body.as_str(),
        ).concat("\n)\nENGINE=").concat(self.engine.as_str());
        if self.options.len() > 0 {
            let with = join_strings(&opts, ",\n");
            out = out.concat("\nWITH(\n").concat(with.as_str()).concat("\n)");
        }
        proof {
            assert(out@ =~= create_table_sql(t));
        }
        out
    }
}

} // verus!
