use vstd::prelude::*;

verus! {

/// How to reach the store: a connection string in the store driver's own syntax.
#[derive(Clone, Debug)]
pub struct DbConfig {
    pub connection_string: String,
}

impl DbConfig {
    /// The connection string used where none has been saved.
    pub open spec fn default_connection() -> Seq<char> {
        "host=localhost port=5432 user=gaussdb password=Open@123 dbname=cafehub"@
    }

    /// The configuration used where none has been saved.
    pub fn default_value() -> (r: Self)
        ensures
            r.connection_string@ == Self::default_connection(),
    {
        DbConfig {
            connection_string: "host=localhost port=5432 user=gaussdb password=Open@123 dbname=cafehub".to_owned(),
        }
    }

    /// The saved configuration where one could be read, the default otherwise.
    pub fn or_default(saved: Option<DbConfig>) -> (r: Self)
        ensures
            saved matches Some(c) ==> r == c,
            saved is None ==> r.connection_string@ == Self::default_connection(),
    {
        match saved {
            Some(c) => c,
            None => Self::default_value(),
        }
    }
}

} // verus!
