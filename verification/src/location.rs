//! Remote locations: URLs, held as the text that the `url` crate gives them.

use crate::text::option_view;
use vstd::prelude::*;

verus! {

/// The serialisation of the URL that `Url::parse` of the `url` crate reads
/// from `input`, or `None` where it reads none.
pub uninterp spec fn url_parsed(input: Seq<char>) -> Option<Seq<char>>;

/// The serialisation of the URL that `Url::join` of the `url` crate reads
/// from `input` relative to the URL written `base`, or `None` where `base`
/// is no URL or the two give none.
pub uninterp spec fn url_joined(base: Seq<char>, input: Seq<char>) -> Option<Seq<char>>;

/// What `Url::path` of the `url` crate returns for the URL written `url`, or
/// `None` where `url` is no URL.
pub uninterp spec fn url_path(url: Seq<char>) -> Option<Seq<char>>;

/// Calls `url::Url::parse` and hands out the URL's serialisation. Trusted:
/// the result is the one that `url_parsed` names.
#[verifier::external_body]
fn parse_url(input: &str) -> (parsed: Option<String>)
    ensures
        option_view(parsed) == url_parsed(input@),
{
    match url::Url::parse(input) {
        Ok(u) => Some(u.into_string()),
        Err(_) => None,
    }
}

/// Calls `url::Url::join` on the URL written `base` and hands out the
/// serialisation of what it gives. Trusted: the result is the one that
/// `url_joined` names.
#[verifier::external_body]
fn join_url(base: &str, input: &str) -> (joined: Option<String>)
    ensures
        option_view(joined) == url_joined(base@, input@),
{
    match url::Url::parse(base) {
        Ok(b) => match b.join(input) {
            Ok(u) => Some(u.into_string()),
            Err(_) => None,
        },
        Err(_) => None,
    }
}

/// Calls `url::Url::path` on the URL written `url`. Trusted: the result is
/// the one that `url_path` names.
#[verifier::external_body]
fn path_of_url(url: &str) -> (path: Option<String>)
    ensures
        option_view(path) == url_path(url@),
{
    match url::Url::parse(url) {
        Ok(u) => Some(u.path().to_string()),
        Err(_) => None,
    }
}

/// An addressable remote resource. Its view is the URL's serialisation.
#[derive(Debug, PartialEq, Eq, Hash)]
pub struct Location {
    text: String,
}

impl View for Location {
    type V = Seq<char>;

    closed spec fn view(&self) -> Seq<char> {
        self.text@
    }
}

impl Clone for Location {
    fn clone(&self) -> (copy: Location)
        ensures
            copy@ == self@,
    {
        Location { text: self.text.clone() }
    }
}

/// The view of an optional location.
pub open spec fn location_view(l: Option<Location>) -> Option<Seq<char>> {
    match l {
        Some(l) => Some(l@),
        None => None,
    }
}

impl Location {
    /// Reads a URL. `None` where `input` is none.
    pub fn parse(input: &str) -> (location: Option<Location>)
        ensures
            location_view(location) == url_parsed(input@),
    {
        match parse_url(input) {
            Some(text) => Some(Location { text }),
            None => None,
        }
    }

    /// The location that `input` names when it is read relative to this one.
    pub fn join(&self, input: &str) -> (location: Option<Location>)
        ensures
            location_view(location) == url_joined(self@, input@),
    {
        match join_url(self.text.as_str(), input) {
            Some(text) => Some(Location { text }),
            None => None,
        }
    }

    /// The path of the URL.
    pub fn path(&self) -> (path: Option<String>)
        ensures
            option_view(path) == url_path(self@),
    {
        path_of_url(self.text.as_str())
    }

    /// The URL's serialisation.
    pub fn as_str(&self) -> (text: &str)
        ensures
            text@ == self@,
    {
        self.text.as_str()
    }

    /// Whether the two locations are written alike.
    pub fn same(&self, other: &Location) -> (alike: bool)
        ensures
            alike == (self@ == other@),
    {
        self.text == other.text
    }
}

} // verus!
