use micro_http::common::{Error, Method, Version};
use micro_http::request::{split, Request, RequestLine, Uri};

#[test]
fn test_uri() {
    let uri = Uri::new(b"http://localhost/home");
    assert_eq!(uri.get_abs_path(), b"/home");

    let uri = Uri::new(b"/home");
    assert_eq!(uri.get_abs_path(), b"/home");

    let uri = Uri::new(b"home");
    assert_eq!(uri.get_abs_path(), b"");

    let uri = Uri::new(b"http://");
    assert_eq!(uri.get_abs_path(), b"");

    let uri = Uri::new(b"http://192.168.0.0");
    assert_eq!(uri.get_abs_path(), b"");
}

#[test]
fn test_into_request_line() {
    let expected_uri = Uri::new(b"http://localhost/home");

    let request_line = b"GET http://localhost/home HTTP/1.0\r\n";
    match RequestLine::try_from(request_line) {
        Ok(request) => {
            assert!(request.method() == Method::Get);
            assert!(request.http_version() == Version::Http10);
            assert!(*request.uri() == expected_uri);
        }
        Err(_) => assert!(false),
    };

    let request_line = b"GET http://localhost/home HTTP/1.1\r\n";
    match RequestLine::try_from(request_line) {
        Ok(request) => {
            assert!(request.method() == Method::Get);
            assert!(request.http_version() == Version::Http11);
            assert!(*request.uri() == expected_uri);
        }
        Err(_) => assert!(false),
    };

    // Test for invalid method.
    let request_line = b"PUT http://localhost/home HTTP/1.0\r\n";
    assert!(RequestLine::try_from(request_line).is_err());

    // Test for invalid uri.
    let request_line = b"GET  HTTP/1.0\r\n";
    assert!(RequestLine::try_from(request_line).is_err());

    // Test for invalid HTTP version.
    let request_line = b"GET http://localhost/home HTTP/2.0\r\n";
    assert!(RequestLine::try_from(request_line).is_err());
}

#[test]
fn test_into_request() {
    let request_bytes = b"GET http://localhost/home HTTP/1.0\r\n \
                                     Last-Modified: Tue, 15 Nov 1994 12:45:26 GMT";
    match Request::try_from(request_bytes) {
        Ok(request) => {
            assert!(*request.uri() == Uri::new(b"http://localhost/home"));
            assert!(request.http_version() == Version::Http10);
        }
        Err(_) => assert!(false),
    };
}

#[test]
fn split_at_first_separator() {
    let (before, after) = split(b"a b c", b' ');
    assert_eq!(before, b"a");
    assert_eq!(after, b"b c");
}

#[test]
fn split_separator_last() {
    let (before, after) = split(b"abc ", b' ');
    assert_eq!(before, b"abc");
    assert_eq!(after, b"");
}

#[test]
fn split_separator_first() {
    let (before, after) = split(b" abc", b' ');
    assert_eq!(before, b"");
    assert_eq!(after, b"abc");
}

#[test]
fn split_without_separator_gives_empty_first_half() {
    let (before, after) = split(b"abc", b' ');
    assert_eq!(before, b"");
    assert_eq!(after, b"abc");

    let (before, after) = split(b"", b' ');
    assert_eq!(before, b"");
    assert_eq!(after, b"");
}

#[test]
fn abs_path_with_port_and_long_path() {
    let uri = Uri::new(b"http://localhost:8080/latest/meta-data");
    assert_eq!(uri.get_abs_path(), b"/latest/meta-data");
}

#[test]
fn abs_path_root() {
    assert_eq!(Uri::new(b"/").get_abs_path(), b"/");
    assert_eq!(Uri::new(b"http://host/").get_abs_path(), b"/");
}

#[test]
fn abs_path_empty_host() {
    assert_eq!(Uri::new(b"http:///home").get_abs_path(), b"");
}

#[test]
fn abs_path_of_empty_uri_is_empty() {
    assert_eq!(Uri::new(b"").get_abs_path(), b"");
}

#[test]
fn abs_path_other_scheme() {
    assert_eq!(Uri::new(b"https://localhost/home").get_abs_path(), b"");
}

#[test]
fn abs_path_is_a_suffix_of_the_uri() {
    let inputs: [&[u8]; 6] = [
        b"http://localhost/home",
        b"/home",
        b"home",
        b"http://",
        b"http://a:1/b/c",
        b"",
    ];
    for bytes in inputs.iter() {
        let path = Uri::new(bytes).get_abs_path();
        assert!(bytes.ends_with(path));
    }
}

#[test]
fn request_line_errors_by_kind() {
    assert_eq!(
        RequestLine::try_from(b"PUT http://localhost/home HTTP/1.0\r\n").err(),
        Some(Error::InvalidHttpMethod)
    );
    assert_eq!(
        RequestLine::try_from(b"GET  HTTP/1.0\r\n").err(),
        Some(Error::InvalidUri)
    );
    assert_eq!(
        RequestLine::try_from(b"GET http://localhost/home HTTP/2.0\r\n").err(),
        Some(Error::InvalidHttpVersion)
    );
}

#[test]
fn request_line_method_checked_first() {
    assert_eq!(
        RequestLine::try_from(b"POST  HTTP/9.9\r\n").err(),
        Some(Error::InvalidHttpMethod)
    );
    assert_eq!(
        RequestLine::try_from(b"get /home HTTP/1.0\r\n").err(),
        Some(Error::InvalidHttpMethod)
    );
}

#[test]
fn request_line_uri_not_utf8() {
    assert_eq!(
        RequestLine::try_from(b"GET /ho\xffme HTTP/1.0\r\n").err(),
        Some(Error::InvalidUri)
    );
    let line = RequestLine::try_from("GET /h\u{e9}me HTTP/1.0\r\n".as_bytes());
    assert!(line.is_ok());
}

#[test]
fn request_line_without_carriage_return() {
    let line = RequestLine::try_from(b"GET /home HTTP/1.1\n").unwrap();
    assert_eq!(line.http_version(), Version::Http11);
    assert_eq!(line.uri().get_abs_path(), b"/home");
}

#[test]
fn request_line_without_line_feed() {
    assert_eq!(
        RequestLine::try_from(b"GET /home HTTP/1.0").err(),
        Some(Error::InvalidHttpVersion)
    );
}

#[test]
fn request_line_only_one_carriage_return_removed() {
    assert_eq!(
        RequestLine::try_from(b"GET /home HTTP/1.0\r\r\n").err(),
        Some(Error::InvalidHttpVersion)
    );
}

#[test]
fn request_line_without_spaces() {
    assert_eq!(
        RequestLine::try_from(b"GET\r\n").err(),
        Some(Error::InvalidHttpMethod)
    );
    assert_eq!(
        RequestLine::try_from(b"GET /home\r\n").err(),
        Some(Error::InvalidUri)
    );
}

#[test]
fn request_line_from_tokens() {
    let line = RequestLine::from_tokens(b"GET", b"/a", true, b"HTTP/1.1").unwrap();
    assert_eq!(line.method(), Method::Get);
    assert_eq!(line.http_version(), Version::Http11);
    assert_eq!(*line.uri(), Uri::new(b"/a"));
    assert_eq!(
        RequestLine::from_tokens(b"GET", b"/a", false, b"HTTP/1.1").err(),
        Some(Error::InvalidUri)
    );
    assert_eq!(
        RequestLine::from_tokens(b"GET", b"", true, b"HTTP/1.1").err(),
        Some(Error::InvalidUri)
    );
    assert_eq!(
        RequestLine::from_tokens(b"HEAD", b"/a", true, b"HTTP/1.1").err(),
        Some(Error::InvalidHttpMethod)
    );
    assert_eq!(
        RequestLine::from_tokens(b"GET", b"/a", true, b"HTTP/1.2").err(),
        Some(Error::InvalidHttpVersion)
    );
}

#[test]
fn request_ignores_what_follows_the_first_line() {
    let bytes = b"GET /latest HTTP/1.1\r\nHost: localhost\r\nPUT garbage\r\n\r\nbody";
    let request = Request::try_from(bytes).unwrap();
    assert_eq!(request.uri().get_abs_path(), b"/latest");
    assert_eq!(request.http_version(), Version::Http11);
    let alone = Request::try_from(b"GET /latest HTTP/1.1\r\n").unwrap();
    assert!(request == alone);
}

#[test]
fn request_too_short_is_malformed() {
    assert_eq!(Request::try_from(b"GET / HTTP/1.0\n").err(), Some(Error::InvalidRequest));
    assert_eq!(Request::try_from(b"").err(), Some(Error::InvalidRequest));
    assert_eq!(Request::try_from(b"\n").err(), Some(Error::InvalidRequest));
}

#[test]
fn request_shortest_accepted() {
    let request = Request::try_from(b"GET / HTTP/1.0\r\n").unwrap();
    assert_eq!(request.uri().get_abs_path(), b"/");
    assert_eq!(request.http_version(), Version::Http10);
}

#[test]
fn request_without_line_feed_is_malformed() {
    assert_eq!(
        Request::try_from(b"GET http://localhost/home HTTP/1.0").err(),
        Some(Error::InvalidRequest)
    );
}

#[test]
fn request_passes_line_errors_on() {
    assert_eq!(
        Request::try_from(b"PUT http://localhost/home HTTP/1.0\r\nHost: a\r\n").err(),
        Some(Error::InvalidHttpMethod)
    );
    assert_eq!(
        Request::try_from(b"GET  http://localhost/home\r\nHost: a\r\n").err(),
        Some(Error::InvalidUri)
    );
    assert_eq!(
        Request::try_from(b"GET http://localhost/home HTTP/2.0\r\nHost: a\r\n").err(),
        Some(Error::InvalidHttpVersion)
    );
}

#[test]
fn parsing_twice_gives_equal_results() {
    let bytes = b"GET http://localhost/home HTTP/1.0\r\nAccept: */*\r\n";
    assert!(Request::try_from(bytes) == Request::try_from(bytes));
    assert!(RequestLine::try_from(bytes) == RequestLine::try_from(bytes));
    let bad = b"GET http://localhost/home HTTP/3\r\n";
    assert!(Request::try_from(bad) == Request::try_from(bad));
}

#[test]
fn version_bytes_round_trip() {
    assert_eq!(Version::Http10.raw(), b"HTTP/1.0");
    assert_eq!(Version::Http11.raw(), b"HTTP/1.1");
    assert_eq!(Version::try_from(b"HTTP/1.0"), Ok(Version::Http10));
    assert_eq!(Version::try_from(b"HTTP/1.1"), Ok(Version::Http11));
    assert_eq!(Version::try_from(b"HTTP/1.10"), Err(Error::InvalidHttpVersion));
    assert_eq!(Version::try_from(b""), Err(Error::InvalidHttpVersion));
}

#[test]
fn method_bytes() {
    assert_eq!(Method::Get.raw(), b"GET");
}

#[test]
fn error_messages() {
    assert_eq!(Error::InvalidHttpMethod.message(), "Unsupported HTTP method.");
    assert_eq!(Error::InvalidUri.message(), "Invalid URI.");
    assert_eq!(Error::InvalidHttpVersion.message(), "Unsupported HTTP version.");
    assert_eq!(Error::InvalidRequest.message(), "Malformed HTTP request.");
}
