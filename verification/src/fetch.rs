//! Where the two downloads come from, and when a download counts as done.
//!
//! The requests themselves are made by the caller. What is asked for, and
//! how an answer is judged, is decided here.

use vstd::prelude::*;
use vstd::string::StringExecFns;
use crate::error::{ProvisionError, ProvisionErrorView};
use crate::version::{version_text, VersionTriple};

verus! {

/// The address of the installer script, the same for every version.
pub const GET_PIP_URL: &'static str = "https://bootstrap.pypa.io/get-pip.py";

/// The address, as written, of the embeddable archive of version `v` for
/// 64-bit Windows: the version stands in it twice, once as the release
/// directory and once in the file name.
pub open spec fn archive_address(v: VersionTriple) -> Seq<char> {
    "https://www.python.org/ftp/python/"@ + version_text(v) + "/python-"@ + version_text(v)
        + "-embed-amd64.zip"@
}

/// What `url::Url::parse` makes of `text`: the serialization of the URL that
/// it reads, or `None` where it refuses `text`.
pub uninterp spec fn parsed_url(text: Seq<char>) -> Option<Seq<char>>;

/// What a download of `address` is asked from, given what the URL parser
/// made of the address: the parsed URL, or a `FetchError` that carries the
/// address as it was written.
pub open spec fn fetch_target(address: Seq<char>, parsed: Option<Seq<char>>) -> Result<
    Seq<char>,
    ProvisionErrorView,
> {
    match parsed {
        Some(url) => Ok(url),
        None => Err(ProvisionErrorView::FetchError { url: address }),
    }
}

/// Whether `r` is `expected`, string for string.
pub open spec fn is_target(
    r: Result<String, ProvisionError>,
    expected: Result<Seq<char>, ProvisionErrorView>,
) -> bool {
    match r {
        Ok(url) => expected == Ok::<Seq<char>, ProvisionErrorView>(url@),
        Err(e) => expected == Err::<Seq<char>, ProvisionErrorView>(e@),
    }
}

/// Parses `text` as an absolute URL with `reqwest::Url::parse`, which is
/// `url::Url::parse`, and hands back the serialization of what was read.
/// The contract only names that result; it says nothing of which texts are
/// accepted or how one is normalized.
#[verifier::external_body]
fn parse_url(text: &str) -> (parsed: Option<String>)
    ensures
        match parsed {
            Some(url) => parsed_url(text@) == Some(url@),
            None => parsed_url(text@) is None,
        },
{
    match reqwest::Url::parse(text) {
        Ok(url) => Some(url.into()),
        Err(_) => None,
    }
}

/// What a download of `address` is asked from, given what the URL parser
/// made of the address.
pub fn checked_address(address: &str, parsed: Option<String>) -> (r: Result<String, ProvisionError>)
    ensures
        is_target(
            r,
            fetch_target(
                address@,
                match parsed {
                    Some(url) => Some(url@),
                    None => None,
                },
            ),
        ),
{
    match parsed {
        Some(url) => Ok(url),
        None => Err(ProvisionError::FetchError { url: String::from_str(address) }),
    }
}

/// The URL that a download of `address` is asked from.
///
/// Fails with `FetchError`, which carries `address`, where the URL parser
/// refuses it.
pub fn fetch_address(address: &str) -> (r: Result<String, ProvisionError>)
    ensures
        is_target(r, fetch_target(address@, parsed_url(address@))),
{
    let parsed = parse_url(address);
    checked_address(address, parsed)
}

/// The address, as written, of the embeddable archive of `version`.
pub fn archive_address_text(version: &VersionTriple) -> (out: String)
    ensures
        out@ == archive_address(*version),
{
    let text = version.text();
    let mut out = String::from_str("https://www.python.org/ftp/python/");
    out.append(text.as_str());
    out.append("/python-");
    out.append(text.as_str());
    out.append("-embed-amd64.zip");
    out
}

/// The URL of the embeddable archive of `version`.
pub fn python_embed_zip_url(version: &VersionTriple) -> (r: Result<String, ProvisionError>)
    ensures
        is_target(
            r,
            fetch_target(archive_address(*version), parsed_url(archive_address(*version))),
        ),
{
    let address = archive_address_text(version);
    fetch_address(address.as_str())
}

/// How a request ended.
#[derive(Clone, Copy, Debug, PartialEq, Eq, Structural)]
pub enum FetchResponse {
    /// No answer came: the transport failed.
    Unreachable,
    /// The server answered with this status code.
    Status { code: u16 },
}

impl FetchResponse {
    /// Whether the request brought what was asked for: the server answered
    /// with a status code from 200 to 299.
    pub open spec fn is_success(self) -> bool {
        self matches FetchResponse::Status { code } && 200 <= code < 300
    }
}

/// Judges a download of `url`: done where the server answered with success,
/// else a `FetchError` that carries `url`.
pub fn check_fetch(url: &str, response: FetchResponse) -> (r: Result<(), ProvisionError>)
    ensures
        match r {
            Ok(_) => response.is_success(),
            Err(e) => !response.is_success() && e@ == (ProvisionErrorView::FetchError { url: url@ }),
        },
{
    match response {
        FetchResponse::Status { code } if 200 <= code && code < 300 => Ok(()),
        _ => Err(ProvisionError::FetchError { url: String::from_str(url) }),
    }
}

/// Judges the unpacking of the archive into the target directory `path`:
/// done where `unpacked` says that the directory could be made and every
/// entry of the archive was written into it, else an `ExtractionError` that
/// carries `path`. Nothing is recovered from a partial unpacking.
pub fn check_extraction(path: &str, unpacked: bool) -> (r: Result<(), ProvisionError>)
    ensures
        match r {
            Ok(_) => unpacked,
            Err(e) => !unpacked && e@ == (ProvisionErrorView::ExtractionError { path: path@ }),
        },
{
    if unpacked {
        Ok(())
    } else {
        Err(ProvisionError::ExtractionError { path: String::from_str(path) })
    }
}

/// Judges the saving of what was downloaded from `url`: a download into the
/// target directory is done only where the file stands there, so a body
/// that could not be saved is a `FetchError` that carries `url`.
pub fn check_saved(url: &str, saved: bool) -> (r: Result<(), ProvisionError>)
    ensures
        match r {
            Ok(_) => saved,
            Err(e) => !saved && e@ == (ProvisionErrorView::FetchError { url: url@ }),
        },
{
    if saved {
        Ok(())
    } else {
        Err(ProvisionError::FetchError { url: String::from_str(url) })
    }
}

} // verus!
