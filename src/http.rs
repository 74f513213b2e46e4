use vstd::prelude::*;

verus! {

/// Parameters of a SQL request, from the query string or a form.
#[derive(Clone, Debug, Default)]
pub struct SqlQuery {
    pub db: Option<String>,
    pub sql: Option<String>,
}

/// Parameters of a PromQL range query.
#[derive(Clone, Debug, Default)]
pub struct PromqlQuery {
    pub query: String,
    pub start: String,
    pub end: String,
    pub step: String,
    pub db: Option<String>,
}

/// Parameters of a health check: none.
#[derive(Clone, Copy, Debug)]
pub struct HealthQuery {}

/// Answer to a health check: an empty payload.
#[derive(Clone, Copy, Debug, PartialEq, Eq, Structural)]
pub struct HealthResponse {}

#[derive(Clone, Copy, Debug, PartialEq, Eq, Structural)]
pub enum RequestError {
    /// Neither the query string nor the form carries the SQL text.
    SqlRequired,
}

fn first_of(a: Option<String>, b: Option<String>) -> (r: Option<String>)
    ensures
        r == (if a is Some {
            a
        } else {
            b
        }),
{
    match a {
        Some(x) => Some(x),
        None => b,
    }
}

impl SqlQuery {
    /// Merges the query-string parameters with the form parameters; each
    /// parameter is taken from the query string when present there.
    pub fn merged(self, form: SqlQuery) -> (r: SqlQuery)
        ensures
            r.sql == (if self.sql is Some {
                self.sql
            } else {
                form.sql
            }),
            r.db == (if self.db is Some {
                self.db
            } else {
                form.db
            }),
    {
        SqlQuery { db: first_of(self.db, form.db), sql: first_of(self.sql, form.sql) }
    }

    /// The SQL text and database of a request, or `SqlRequired` when the
    /// SQL text is missing.
    pub fn into_request(self) -> (r: Result<(String, Option<String>), RequestError>)
        ensures
            match self.sql {
                Some(s) => r == Ok::<(String, Option<String>), RequestError>((s, self.db)),
                None => r == Err::<(String, Option<String>), RequestError>(
                    RequestError::SqlRequired,
                ),
            },
    {
        match self.sql {
            Some(s) => Ok((s, self.db)),
            None => Err(RequestError::SqlRequired),
        }
    }
}

/// Health check: always an empty response.
pub fn health(_query: HealthQuery) -> (r: HealthResponse)
    ensures
        r == (HealthResponse {}),
{
    HealthResponse {}
}

} // verus!
