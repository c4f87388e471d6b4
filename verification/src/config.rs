//! Resolving the three settings that name the store, and the plan for
//! reaching it.

use crate::query::is_named;
use vstd::prelude::*;

verus! {

/// A required setting that is absent or empty.
#[derive(Clone, Copy, Debug, PartialEq, Eq, Structural)]
pub enum ConfigurationError {
    /// `URI` is not set, or is empty.
    MissingUri,
    /// `URI` is set, but `DB` is not, or is empty.
    MissingDb,
    /// `URI` and `DB` are set, but `COLL` is not, or is empty.
    MissingColl,
}

/// Where the collection lives and under which name the service connects.
#[derive(Debug, PartialEq, Eq)]
pub struct Target {
    pub uri: String,
    pub app_name: String,
    pub db: String,
    pub coll: String,
}

/// The gateway to one collection.
#[derive(Debug, PartialEq, Eq)]
pub struct Mongodb {
    pub coll: Target,
}

/// Entry point that resolves the settings and yields the gateway.
#[derive(Debug, PartialEq, Eq)]
pub struct Db;

/// The name and value of each pair, as sequences of characters.
pub open spec fn pair_views(vars: Seq<(String, String)>) -> Seq<(Seq<char>, Seq<char>)> {
    vars.map_values(|p: (String, String)| (p.0@, p.1@))
}

/// The value that `name` ends up with when the pairs are applied in order:
/// that of the last pair so named, or the empty text if there is none.
pub open spec fn setting(vars: Seq<(Seq<char>, Seq<char>)>, name: Seq<char>) -> Seq<char>
    decreases vars.len(),
{
    if vars.len() == 0 {
        Seq::empty()
    } else if vars.last().0 == name {
        vars.last().1
    } else {
        setting(vars.drop_last(), name)
    }
}

/// The first required setting that `vars` leaves absent or empty, if any.
pub open spec fn first_missing(vars: Seq<(Seq<char>, Seq<char>)>) -> Option<ConfigurationError> {
    if setting(vars, "URI"@).len() == 0 {
        Some(ConfigurationError::MissingUri)
    } else if setting(vars, "DB"@).len() == 0 {
        Some(ConfigurationError::MissingDb)
    } else if setting(vars, "COLL"@).len() == 0 {
        Some(ConfigurationError::MissingColl)
    } else {
        None
    }
}

impl Mongodb {
    /// Picks the connection string, the database name and the collection
    /// name out of the environment's pairs. All three are required.
    pub fn get_env(vars: &Vec<(String, String)>) -> (found: Result<
        (String, String, String),
        ConfigurationError,
    >)
        ensures
            match found {
                Ok((uri, db, coll)) => {
                    &&& first_missing(pair_views(vars@)) is None
                    &&& uri@ == setting(pair_views(vars@), "URI"@)
                    &&& db@ == setting(pair_views(vars@), "DB"@)
                    &&& coll@ == setting(pair_views(vars@), "COLL"@)
                },
                Err(e) => first_missing(pair_views(vars@)) == Some(e),
            },
    {
        let mut uri = String::new();
        let mut db = String::new();
        let mut coll = String::new();
        let mut i: usize = 0;
        while i < vars.len()
            invariant
                i <= vars.len(),
                uri@ == setting(pair_views(vars@.take(i as int)), "URI"@),
                db@ == setting(pair_views(vars@.take(i as int)), "DB"@),
                coll@ == setting(pair_views(vars@.take(i as int)), "COLL"@),
            decreases vars.len() - i,
        {
            let ghost before = pair_views(vars@.take(i as int));
            let ghost after = pair_views(vars@.take(i + 1));
            assert(after.drop_last() == before);
            assert(after.last() == (vars@[i as int].0@, vars@[i as int].1@));
            let pair = &vars[i];
            if is_named(&pair.0, "URI") {
                uri = pair.1.clone();
            }
            if is_named(&pair.0, "DB") {
                db = pair.1.clone();
            }
            if is_named(&pair.0, "COLL") {
                coll = pair.1.clone();
            }
            i = i + 1;
        }
        assert(vars@.take(i as int) == vars@);
        if uri.as_str().is_empty() {
            Err(ConfigurationError::MissingUri)
        } else if db.as_str().is_empty() {
            Err(ConfigurationError::MissingDb)
        } else if coll.as_str().is_empty() {
            Err(ConfigurationError::MissingColl)
        } else {
            Ok((uri, db, coll))
        }
    }

    /// Resolves the settings and lays out the plan for the connection: the
    /// three settings, under the application name `CRUD_EXAMPLE`.
    pub fn connect(vars: &Vec<(String, String)>) -> (plan: Result<Target, ConfigurationError>)
        ensures
            match plan {
                Ok(target) => {
                    &&& first_missing(pair_views(vars@)) is None
                    &&& target.uri@ == setting(pair_views(vars@), "URI"@)
                    &&& target.app_name@ == "CRUD_EXAMPLE"@
                    &&& target.db@ == setting(pair_views(vars@), "DB"@)
                    &&& target.coll@ == setting(pair_views(vars@), "COLL"@)
                },
                Err(e) => first_missing(pair_views(vars@)) == Some(e),
            },
    {
        match Mongodb::get_env(vars) {
            Ok((uri, db, coll)) => Ok(
                Target { uri, app_name: "CRUD_EXAMPLE".to_owned(), db, coll },
            ),
            Err(e) => Err(e),
        }
    }
}

impl Db {
    /// The gateway for the collection that the settings name.
    pub fn get_db(vars: &Vec<(String, String)>) -> (gateway: Result<Mongodb, ConfigurationError>)
        ensures
            match gateway {
                Ok(db) => {
                    &&& first_missing(pair_views(vars@)) is None
                    &&& db.coll.uri@ == setting(pair_views(vars@), "URI"@)
                    &&& db.coll.app_name@ == "CRUD_EXAMPLE"@
                    &&& db.coll.db@ == setting(pair_views(vars@), "DB"@)
                    &&& db.coll.coll@ == setting(pair_views(vars@), "COLL"@)
                },
                Err(e) => first_missing(pair_views(vars@)) == Some(e),
            },
    {
        match Mongodb::connect(vars) {
            Ok(coll) => Ok(Mongodb { coll }),
            Err(e) => Err(e),
        }
    }
}

} // verus!
