//! What the user configures: where to start.

use crate::location::{url_parsed, Location};
use vstd::prelude::*;
use vstd::string::StringExecFns;

verus! {

/// The values that the user sets.
#[derive(Debug, PartialEq, Eq, Hash)]
pub struct Options {
    /// The remote directory to start on.
    pub remote_dir: Location,
}

/// The location that the argument `u` names: the URL that it is, or where
/// it is none the URL that it is behind `http://`.
pub open spec fn start_location(u: Seq<char>) -> Option<Seq<char>> {
    match url_parsed(u) {
        Some(location) => Some(location),
        None => url_parsed("http://"@ + u),
    }
}

impl Options {
    /// The options for the argument `u`, which names where to start; `None`
    /// where it names no location, with or without a scheme.
    pub fn from_url(u: &str) -> (options: Option<Options>)
        ensures
            match options {
                Some(o) => start_location(u@) == Some(o.remote_dir@),
                None => start_location(u@) is None,
            },
    {
        match Location::parse(u) {
            Some(remote_dir) => Some(Options { remote_dir }),
            None => {
                let mut with_scheme = String::from_str("http://");
                with_scheme.append(u);
                match Location::parse(with_scheme.as_str()) {
                    Some(remote_dir) => Some(Options { remote_dir }),
                    None => None,
                }
            },
        }
    }
}

} // verus!
