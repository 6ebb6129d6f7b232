use pydist::error::ProvisionError;
use pydist::fetch::{
    archive_address_text, check_extraction, check_fetch, check_saved, checked_address, fetch_address,
    python_embed_zip_url, FetchResponse, GET_PIP_URL,
};
use pydist::version::VersionTriple;

#[test]
fn archive_address_holds_the_version_twice() {
    let v = VersionTriple { major: 3, minor: 9, patch: 7 };
    assert_eq!(
        archive_address_text(&v),
        "https://www.python.org/ftp/python/3.9.7/python-3.9.7-embed-amd64.zip"
    );
    let w = VersionTriple { major: 3, minor: 10, patch: 11 };
    assert_eq!(
        archive_address_text(&w),
        "https://www.python.org/ftp/python/3.10.11/python-3.10.11-embed-amd64.zip"
    );
}

#[test]
fn archive_url_is_the_parsed_address() {
    let v = VersionTriple { major: 3, minor: 9, patch: 7 };
    assert_eq!(
        python_embed_zip_url(&v),
        Ok("https://www.python.org/ftp/python/3.9.7/python-3.9.7-embed-amd64.zip".to_string())
    );
}

#[test]
fn fetch_address_gives_the_url_as_the_parser_writes_it() {
    assert_eq!(fetch_address("HTTPS://Example.COM"), Ok("https://example.com/".to_string()));
    assert_eq!(
        fetch_address("https://example.com/a/../b/./c d"),
        Ok("https://example.com/b/c%20d".to_string())
    );
    assert_eq!(fetch_address("https://example.com:443/x"), Ok("https://example.com/x".to_string()));
}

#[test]
fn fetch_address_refuses_what_is_no_absolute_url() {
    assert_eq!(
        fetch_address("not a url"),
        Err(ProvisionError::FetchError { url: "not a url".to_string() })
    );
    assert_eq!(fetch_address(""), Err(ProvisionError::FetchError { url: String::new() }));
    assert_eq!(
        fetch_address("/ftp/python/3.9.7"),
        Err(ProvisionError::FetchError { url: "/ftp/python/3.9.7".to_string() })
    );
    assert_eq!(
        fetch_address("https://"),
        Err(ProvisionError::FetchError { url: "https://".to_string() })
    );
}

#[test]
fn installer_script_address_is_fixed_and_accepted() {
    assert_eq!(GET_PIP_URL, "https://bootstrap.pypa.io/get-pip.py");
    assert_eq!(fetch_address(GET_PIP_URL), Ok("https://bootstrap.pypa.io/get-pip.py".to_string()));
}

#[test]
fn checked_address_follows_the_parser() {
    assert_eq!(
        checked_address("HTTP://A", Some("http://a/".to_string())),
        Ok("http://a/".to_string())
    );
    assert_eq!(
        checked_address("nonsense", None),
        Err(ProvisionError::FetchError { url: "nonsense".to_string() })
    );
}

#[test]
fn success_is_a_status_from_200_to_299() {
    let url = "https://example.com/x";
    assert_eq!(check_fetch(url, FetchResponse::Status { code: 200 }), Ok(()));
    assert_eq!(check_fetch(url, FetchResponse::Status { code: 204 }), Ok(()));
    assert_eq!(check_fetch(url, FetchResponse::Status { code: 299 }), Ok(()));
    let failed = Err(ProvisionError::FetchError { url: url.to_string() });
    assert_eq!(check_fetch(url, FetchResponse::Status { code: 199 }), failed);
    assert_eq!(check_fetch(url, FetchResponse::Status { code: 300 }), failed);
    assert_eq!(check_fetch(url, FetchResponse::Status { code: 404 }), failed);
    assert_eq!(check_fetch(url, FetchResponse::Status { code: 500 }), failed);
    assert_eq!(check_fetch(url, FetchResponse::Status { code: 0 }), failed);
    assert_eq!(check_fetch(url, FetchResponse::Status { code: 65535 }), failed);
}

#[test]
fn transport_failure_is_fetch_error() {
    let result = check_fetch("https://example.com/x", FetchResponse::Unreachable);
    assert_eq!(result, Err(ProvisionError::FetchError { url: "https://example.com/x".to_string() }));
    assert_eq!(result.unwrap_err().message(), "Could not fetch https://example.com/x");
}

#[test]
fn failed_extraction_is_extraction_error() {
    assert_eq!(check_extraction("pydist", true), Ok(()));
    let failed = check_extraction("pydist", false);
    assert_eq!(failed, Err(ProvisionError::ExtractionError { path: "pydist".to_string() }));
    assert_eq!(failed.unwrap_err().message(), "Could not extract the archive into pydist");
}

#[test]
fn download_that_cannot_be_saved_is_fetch_error() {
    assert_eq!(check_saved(GET_PIP_URL, true), Ok(()));
    assert_eq!(
        check_saved(GET_PIP_URL, false),
        Err(ProvisionError::FetchError { url: "https://bootstrap.pypa.io/get-pip.py".to_string() })
    );
}

#[test]
fn archive_address_holds_large_numbers_as_written() {
    let v = VersionTriple { major: 3, minor: 9, patch: 70000 };
    assert_eq!(
        archive_address_text(&v),
        "https://www.python.org/ftp/python/3.9.70000/python-3.9.70000-embed-amd64.zip"
    );
}
