//! The requests that the client sends.

use crate::location::Location;
use crate::util::USER_AGENT;
use vstd::prelude::*;
use vstd::string::StringExecFns;

verus! {

/// The name of the header that asks for the raw filesystem API.
pub const RAW_FS_API_HEADER: &'static str = "X-Raw-Filesystem-API";

/// The name of the header that says who asks.
pub const USER_AGENT_HEADER: &'static str = "User-Agent";

/// The header that asks for the raw filesystem API: with `true` for a
/// listing, with `false` for the bytes as they are.
#[derive(Clone, Copy, Debug, PartialEq, Eq, Hash, Structural)]
pub struct RawFsApiHeader(pub bool);

/// Why bytes are no header of this kind.
#[derive(Clone, Copy, Debug, PartialEq, Eq, Structural)]
pub enum HeaderError {
    /// The header has no line or several, or its line is neither `0` nor
    /// `1`.
    Invalid,
}

/// What the lines `raw` of a header say: `true` for the one line `1`,
/// `false` for the one line `0`, and nothing else is a header of this kind.
pub open spec fn header_of(raw: Seq<Seq<u8>>) -> Option<bool> {
    if raw.len() == 1 && raw[0].len() == 1 && raw[0][0] == '1' as u8 {
        Some(true)
    } else if raw.len() == 1 && raw[0].len() == 1 && raw[0][0] == '0' as u8 {
        Some(false)
    } else {
        None
    }
}

/// The value that the header is sent with.
pub open spec fn header_value(raw: bool) -> Seq<char> {
    if raw {
        "1"@
    } else {
        "0"@
    }
}

/// Writes `rfsapi::RawFsApiHeader` by its `Display`. Trusted: it writes `1`
/// for `true` and `0` for `false`.
#[verifier::external_body]
fn display_raw_fs_api(raw: bool) -> (value: String)
    ensures
        value@ == header_value(raw),
{
    rfsapi::RawFsApiHeader(raw).to_string()
}

/// The views of the lines of a header.
pub open spec fn line_views(raw: Seq<Vec<u8>>) -> Seq<Seq<u8>> {
    Seq::new(raw.len(), |i: int| raw[i]@)
}

impl RawFsApiHeader {
    /// The name of the header.
    pub fn header_name() -> (name: &'static str)
        ensures
            name@ == RAW_FS_API_HEADER@,
    {
        RAW_FS_API_HEADER
    }

    /// Reads the header from its lines.
    pub fn parse_header(raw: &[Vec<u8>]) -> (header: Result<RawFsApiHeader, HeaderError>)
        ensures
            match header {
                Ok(h) => header_of(line_views(raw@)) == Some(h.0),
                Err(e) => e == HeaderError::Invalid && header_of(line_views(raw@)) is None,
            },
    {
        if raw.len() == 1 && raw[0].len() == 1 {
            let byte = raw[0][0];
            if byte == 49 {
                return Ok(RawFsApiHeader(true));
            } else if byte == 48 {
                return Ok(RawFsApiHeader(false));
            }
        }
        Err(HeaderError::Invalid)
    }

    /// The value that the header is sent with.
    pub fn fmt_header(&self) -> (value: String)
        ensures
            value@ == header_value(self.0),
    {
        display_raw_fs_api(self.0)
    }
}

/// What a request asks the server to do.
#[derive(Clone, Copy, Debug, PartialEq, Eq, Structural)]
pub enum Method {
    /// Send what is at the location.
    Get,
    /// Store the body at the location.
    Put,
    /// Remove what is at the location.
    Delete,
}

/// One header of a request.
#[derive(Debug, PartialEq, Eq)]
pub struct Header {
    pub name: String,
    pub value: String,
}

/// The model of a `Header`.
pub struct HeaderView {
    pub name: Seq<char>,
    pub value: Seq<char>,
}

impl View for Header {
    type V = HeaderView;

    open spec fn view(&self) -> HeaderView {
        HeaderView { name: self.name@, value: self.value@ }
    }
}

/// A request as it is to be sent.
#[derive(Debug, PartialEq, Eq)]
pub struct Request {
    /// What is asked.
    pub method: Method,
    /// Of which location.
    pub url: Location,
    /// The headers, in the order in which they are set.
    pub headers: Vec<Header>,
    /// Whether a compressed answer is asked for and unpacked.
    pub gzip: bool,
}

/// The model of a `Request`.
pub struct RequestView {
    pub method: Method,
    pub url: Seq<char>,
    pub headers: Seq<HeaderView>,
    pub gzip: bool,
}

impl View for Request {
    type V = RequestView;

    open spec fn view(&self) -> RequestView {
        RequestView {
            method: self.method,
            url: self.url@,
            headers: Seq::new(self.headers@.len(), |i: int| self.headers@[i]@),
            gzip: self.gzip,
        }
    }
}

/// The header that says who asks.
pub open spec fn user_agent_header() -> HeaderView {
    HeaderView { name: USER_AGENT_HEADER@, value: USER_AGENT@ }
}

/// The header that asks for the raw filesystem API.
pub open spec fn raw_fs_api_header(raw: bool) -> HeaderView {
    HeaderView { name: RAW_FS_API_HEADER@, value: header_value(raw) }
}

fn user_agent() -> (header: Header)
    ensures
        header@ == user_agent_header(),
{
    Header { name: String::from_str(USER_AGENT_HEADER), value: String::from_str(USER_AGENT) }
}

fn really_download(u: &Location, raw: bool) -> (request: Request)
    ensures
        request@ == (RequestView {
            method: Method::Get,
            url: u@,
            headers: seq![raw_fs_api_header(raw), user_agent_header()],
            gzip: true,
        }),
{
    let mut headers: Vec<Header> = Vec::new();
    headers.push(
        Header {
            name: String::from_str(RawFsApiHeader::header_name()),
            value: RawFsApiHeader(raw).fmt_header(),
        },
    );
    headers.push(user_agent());
    let request = Request { method: Method::Get, url: u.clone(), headers, gzip: true };
    assert(request@.headers =~= seq![raw_fs_api_header(raw), user_agent_header()]);
    request
}

/// The request that gets a listing: a GET with the header of the raw
/// filesystem API set, compressed on the way.
pub fn download(u: &Location) -> (request: Request)
    ensures
        request@ == (RequestView {
            method: Method::Get,
            url: u@,
            headers: seq![raw_fs_api_header(true), user_agent_header()],
            gzip: true,
        }),
{
    really_download(u, true)
}

/// The request that gets the bytes as they are: a GET with the header of
/// the raw filesystem API unset, compressed on the way.
pub fn download_raw(u: &Location) -> (request: Request)
    ensures
        request@ == (RequestView {
            method: Method::Get,
            url: u@,
            headers: seq![raw_fs_api_header(false), user_agent_header()],
            gzip: true,
        }),
{
    really_download(u, false)
}

/// The request that stores a file: a PUT, whose body the sender adds.
pub fn upload(u: &Location) -> (request: Request)
    ensures
        request@ == (RequestView {
            method: Method::Put,
            url: u@,
            headers: seq![user_agent_header()],
            gzip: true,
        }),
{
    let mut headers: Vec<Header> = Vec::new();
    headers.push(user_agent());
    let request = Request { method: Method::Put, url: u.clone(), headers, gzip: true };
    assert(request@.headers =~= seq![user_agent_header()]);
    request
}

/// The request that removes a resource: a DELETE.
pub fn delete(u: &Location) -> (request: Request)
    ensures
        request@ == (RequestView {
            method: Method::Delete,
            url: u@,
            headers: seq![user_agent_header()],
            gzip: true,
        }),
{
    let mut headers: Vec<Header> = Vec::new();
    headers.push(user_agent());
    let request = Request { method: Method::Delete, url: u.clone(), headers, gzip: true };
    assert(request@.headers =~= seq![user_agent_header()]);
    request
}

} // verus!
