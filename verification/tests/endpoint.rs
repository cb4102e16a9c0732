use flv_publisher::endpoint::{Endpoint, ServerUrl};
use flv_publisher::error::PublishError;
use flv_publisher::text::{decimal_text, split_text};

fn url(scheme: &str, host: Option<&str>, port: Option<u16>, path: &str) -> ServerUrl {
    ServerUrl {
        scheme: scheme.to_string(),
        host: host.map(|h| h.to_string()),
        port,
        path: path.to_string(),
    }
}

#[test]
fn server_with_default_port() {
    let endpoint = Endpoint::from_server("rtmp://example.com/live/key").unwrap();
    assert_eq!(endpoint.address, "rtmp://example.com:1935");
    assert_eq!(endpoint.scheme, "rtmp");
    assert_eq!(endpoint.port, 1935);
    assert_eq!(endpoint.app_name, "live");
    assert_eq!(endpoint.stream_key, "key");
    assert!(endpoint.check_tls().is_ok());
}

#[test]
fn server_with_port_and_address() {
    let endpoint = Endpoint::from_server("rtmp://127.0.0.1:19350/app/stream").unwrap();
    assert_eq!(endpoint.address, "rtmp://127.0.0.1:19350");
    assert_eq!(endpoint.port, 19350);
}

#[test]
fn query_is_not_part_of_the_stream_key() {
    let endpoint = Endpoint::from_server("rtmp://h/app/key?token=1").unwrap();
    assert_eq!(endpoint.stream_key, "key");
}

#[test]
fn server_that_is_no_url() {
    assert!(matches!(Endpoint::from_server("not a url"), Err(PublishError::InvalidUrl(_))));
}

#[test]
fn server_without_host() {
    assert!(matches!(
        Endpoint::from_server("unix:/run/app/key"),
        Err(PublishError::HostNotSpecified)
    ));
}

#[test]
fn host_is_asked_for_before_the_path() {
    let error = Endpoint::from_url(&url("rtmp", None, None, "x")).unwrap_err();
    assert!(matches!(error, PublishError::HostNotSpecified));
    assert_eq!(error.message().unwrap(), "Host not specified");
}

#[test]
fn path_has_exactly_two_slashes() {
    for path in ["", "/", "/app", "/app/key/more", "/app/key/"] {
        let error = Endpoint::from_url(&url("rtmp", Some("h"), None, path)).unwrap_err();
        assert!(matches!(error, PublishError::UnusualPath));
        assert_eq!(
            error.message().unwrap(),
            "Path format is unusual. Should be /app/<stream_key>"
        );
    }
}

#[test]
fn path_parts_may_be_empty() {
    let endpoint = Endpoint::from_url(&url("rtmp", Some("h"), None, "//")).unwrap();
    assert_eq!(endpoint.app_name, "");
    assert_eq!(endpoint.stream_key, "");
}

#[test]
fn path_is_app_and_key() {
    let path = "/app/key";
    let endpoint = Endpoint::from_url(&url("rtmp", Some("h"), None, path)).unwrap();
    assert_eq!(format!("/{}/{}", endpoint.app_name, endpoint.stream_key), path);
}

#[test]
fn tls_is_turned_down_by_port() {
    let endpoint = Endpoint::from_server("rtmp://h:443/app/key").unwrap();
    let error = endpoint.check_tls().unwrap_err();
    assert!(matches!(error, PublishError::TlsUnsupported));
    assert_eq!(error.message().unwrap(), "uh, we need to implement TLS support");
}

#[test]
fn tls_is_turned_down_by_scheme() {
    let endpoint = Endpoint::from_server("rtmps://h/app/key").unwrap();
    assert_eq!(endpoint.port, 1935);
    assert!(matches!(endpoint.check_tls(), Err(PublishError::TlsUnsupported)));
}

#[test]
fn default_port_of_the_scheme_is_not_given() {
    let endpoint = Endpoint::from_server("https://h:443/app/key").unwrap();
    assert_eq!(endpoint.address, "https://h:1935");
    assert!(endpoint.check_tls().is_ok());
}

#[test]
fn split_keeps_empty_parts() {
    assert_eq!(split_text("/a/b", '/'), vec!["", "a", "b"]);
    assert_eq!(split_text("", '/'), vec![""]);
    assert_eq!(split_text("//", '/'), vec!["", "", ""]);
    assert_eq!(split_text("\u{e4}/\u{1f600}", '/'), vec!["\u{e4}", "\u{1f600}"]);
}

#[test]
fn split_parts_join_to_the_text() {
    for text in ["a/b/c", "/", "none", "x//y/"] {
        let parts = split_text(text, '/');
        assert_eq!(parts.join("/"), text);
        assert!(parts.iter().all(|part| !part.contains('/')));
    }
}

#[test]
fn decimal_reads_back() {
    assert_eq!(decimal_text(0), "0");
    assert_eq!(decimal_text(9), "9");
    assert_eq!(decimal_text(10), "10");
    assert_eq!(decimal_text(1935), "1935");
    assert_eq!(decimal_text(65535), "65535");
    for value in 0..=u16::MAX {
        assert_eq!(decimal_text(value).parse::<u16>().unwrap(), value);
    }
}
