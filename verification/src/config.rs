//! Node configuration, as the validated record the core consumes.
//!
//! Loading and validating the configuration file is the surrounding
//! runtime's business; the core receives these plain records.  Database
//! names are the one lexical rule the core states itself: lowercase
//! letters, digits and hyphens only.

use vstd::prelude::*;

verus! {

/// A node's configuration record.
#[derive(Debug, Clone, PartialEq)]
pub struct Config {
    /// `primary` or `replica`.
    pub node_type: String,
    pub name: String,
    pub ip: String,
    pub host: String,
    pub port: u16,
    /// Optional database name, matching the rule `validate_database_name`
    /// checks.
    pub database: Option<String>,
    /// Recorded but not acted upon by the core.
    pub journal: Journal,
    /// The replicas a primary monitors.
    pub replicas: Option<Vec<Replica>>,
}

/// One replica's configuration record; replicas carry no journal.
#[derive(Debug, Clone, PartialEq)]
pub struct Replica {
    pub node_type: String,
    pub name: String,
    pub ip: String,
    pub host: String,
    pub port: u16,
    pub database: Option<String>,
}

/// The journalling policy a primary records.
#[derive(Debug, Clone, PartialEq)]
pub struct Journal {
    /// `async`, `sync` or `snapshot_log`.
    pub strategy: String,
    pub size: u16,
}

/// A character a database name may hold: a lowercase letter, a digit, or a
/// hyphen.
pub open spec fn is_database_char(c: char) -> bool {
    ('a' <= c && c <= 'z') || ('0' <= c && c <= '9') || c == '-'
}

/// A well-formed database name: nonempty, database characters only.
pub open spec fn valid_database_name(s: Seq<char>) -> bool {
    s.len() > 0 && (forall|i: int| 0 <= i < s.len() ==> is_database_char(s[i]))
}

/// Check a database name: nonempty, lowercase letters, digits and hyphens
/// only.
pub fn validate_database_name(database_name: &str) -> (r: bool)
    ensures
        r == valid_database_name(database_name@),
{
    let n = database_name.unicode_len();
    if n == 0 {
        return false;
    }
    let mut i: usize = 0;
    while i < n
        invariant
            n == database_name@.len(),
            i <= n,
            forall|j: int| 0 <= j < i ==> is_database_char(database_name@[j]),
        decreases n - i,
    {
        let c = database_name.get_char(i);
        if !(('a' <= c && c <= 'z') || ('0' <= c && c <= '9') || c == '-') {
            return false;
        }
        i = i + 1;
    }
    true
}

} // verus!
