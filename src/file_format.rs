use vstd::prelude::*;
use vstd::string::StringSliceAdditionalSpecFns;

verus! {

/// Option key that names the file format.
pub const FORMAT_TYPE: &'static str = "FORMAT";

/// File formats that external tables can be read from.
#[derive(Clone, Copy, Debug, PartialEq, Eq, Structural)]
pub enum Format {
    Csv,
    Json,
    Parquet,
}

#[derive(Clone, Copy, Debug, PartialEq, Eq, Structural)]
pub enum FormatError {
    /// The format option names no supported format.
    UnsupportedFormat,
}

/// ASCII upper case of one byte; other bytes stay.
pub open spec fn ascii_upper(b: u8) -> u8 {
    if 97 <= b <= 122 {
        (b - 32) as u8
    } else {
        b
    }
}

/// `name`, upper-cased in ASCII, is `target`.
pub open spec fn names(name: Seq<u8>, target: Seq<u8>) -> bool {
    &&& name.len() == target.len()
    &&& forall|i: int| 0 <= i < name.len() ==> ascii_upper(#[trigger] name[i]) == target[i]
}

pub open spec fn csv_name() -> Seq<u8> {
    seq![67u8, 83u8, 86u8]
}

pub open spec fn json_name() -> Seq<u8> {
    seq![74u8, 83u8, 79u8, 78u8]
}

pub open spec fn parquet_name() -> Seq<u8> {
    seq![80u8, 65u8, 82u8, 81u8, 85u8, 69u8, 84u8]
}

/// The format a name selects, ignoring ASCII case; no name means Parquet.
pub open spec fn format_of(name: Option<Seq<u8>>) -> Result<Format, FormatError> {
    match name {
        None => Ok(Format::Parquet),
        Some(n) => if names(n, csv_name()) {
            Ok(Format::Csv)
        } else if names(n, json_name()) {
            Ok(Format::Json)
        } else if names(n, parquet_name()) {
            Ok(Format::Parquet)
        } else {
            Err(FormatError::UnsupportedFormat)
        },
    }
}

fn upper_byte(b: u8) -> (r: u8)
    ensures
        r == ascii_upper(b),
{
    if 97 <= b && b <= 122 {
        b - 32
    } else {
        b
    }
}

fn names_exec(name: &[u8], target: &Vec<u8>) -> (r: bool)
    ensures
        r == names(name@, target@),
{
    if name.len() != target.len() {
        return false;
    }
    let mut i: usize = 0;
    while i < name.len()
        invariant
            name@.len() == target@.len(),
            0 <= i <= name@.len(),
            forall|j: int| 0 <= j < i ==> ascii_upper(#[trigger] name@[j]) == target@[j],
        decreases name@.len() - i,
    {
        if upper_byte(name[i]) != target[i] {
            return false;
        }
        i = i + 1;
    }
    true
}

impl Format {
    /// The format named by the value of the format option, compared without
    /// regard to ASCII case. Without the option the format is Parquet.
    pub fn from_name(name: Option<&str>) -> (r: Result<Format, FormatError>)
        ensures
            r == format_of(
                match name {
                    Some(n) => Some(n.spec_bytes()),
                    None => None,
                },
            ),
    {
        match name {
            None => Ok(Format::Parquet),
            Some(n) => {
                let b = n.as_bytes();
                let csv: Vec<u8> = vec![67u8, 83u8, 86u8];
                let json: Vec<u8> = vec![74u8, 83u8, 79u8, 78u8];
                let parquet: Vec<u8> = vec![80u8, 65u8, 82u8, 81u8, 85u8, 69u8, 84u8];
                proof {
                    assert(csv@ =~= csv_name());
                    assert(json@ =~= json_name());
                    assert(parquet@ =~= parquet_name());
                }
                if names_exec(b, &csv) {
                    Ok(Format::Csv)
                } else if names_exec(b, &json) {
                    Ok(Format::Json)
                } else if names_exec(b, &parquet) {
                    Ok(Format::Parquet)
                } else {
                    Err(FormatError::UnsupportedFormat)
                }
            },
        }
    }
}

} // verus!
