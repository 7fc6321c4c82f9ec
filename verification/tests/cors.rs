use tower::Layer;
use axum_stack::cors::{cors_api, cors_permissive, cors_restrictive, parse_origin, CorsError};

#[test]
fn permissive_allows_any() {
    let layer = cors_permissive();
    let _ = layer;
}

#[test]
fn restrictive_single_origin() {
    let _ = cors_restrictive(&["https://app.example.com"], true).expect("valid origin");
}

#[test]
fn restrictive_multiple_origins() {
    let _ = cors_restrictive(&["https://a.example.com", "https://b.example.com"], false)
        .expect("valid origins");
}

#[test]
fn empty_origins_are_rejected_not_allow_all() {
    let err = cors_restrictive(&[], true).expect_err("empty slice");
    assert!(matches!(err, CorsError::NoOrigins));
}

#[test]
fn invalid_origins_are_rejected() {
    for bad in [
        "app.example.com",   // no scheme
        "https://",          // no host
        "ftp://host",        // wrong scheme
        "https://host/path", // path is not part of an origin
        "",                  // empty
    ] {
        let err = cors_restrictive(&[bad], false).expect_err(bad);
        assert!(matches!(err, CorsError::InvalidOrigin { .. }), "{bad}");
    }
}

#[test]
fn api_no_credentials() {
    let _ = cors_api(&["https://api.example.com"]).expect("valid origin");
}

#[test]
fn origin_with_port_is_accepted() {
    let _ = cors_restrictive(&["http://localhost:3000"], false).expect("localhost with port");
}

#[test]
fn first_invalid_origin_is_reported() {
    let err = cors_restrictive(&["https://ok.example.com", "bad", "also bad"], true)
        .expect_err("second origin is invalid");
    match err {
        CorsError::InvalidOrigin { origin } => assert_eq!(origin, "bad"),
        other => panic!("unexpected error: {other:?}"),
    }
}

#[test]
fn invalid_origin_in_single_list_is_reported_verbatim() {
    match cors_restrictive(&["https://host/path"], true) {
        Err(CorsError::InvalidOrigin { origin }) => assert_eq!(origin, "https://host/path"),
        other => panic!("unexpected result: {:?}", other.map(|_| ())),
    }
}

#[test]
fn origin_with_backslash_or_space_is_rejected() {
    for bad in ["https://a\\b", "https://a b", "http://x://y", "https//x", "HTTPS://x"] {
        assert!(parse_origin(bad).is_err(), "{bad}");
    }
}

#[test]
fn origin_with_control_byte_is_rejected() {
    assert!(parse_origin("https://host\n").is_err());
    assert!(parse_origin("https://host\u{7f}").is_err());
    assert!(parse_origin("https://host\t").is_err());
}

#[test]
fn origin_beyond_host_and_port_is_rejected() {
    for bad in [
        "https://host?x=1",
        "https://host#frag",
        "https://user@host",
        "https://host:abc",
        "https://host:",
        "https://:3000",
        "https://host:80:81",
        "https://[::1",
        "https://[]",
        "https://[::1]x",
        "https://[::1]:",
        "https://[g::1]",
        "https://[::1]]",
        "https://x[::1]",
        "https://ho\"st",
        "https://ho<st",
    ] {
        match parse_origin(bad) {
            Err(CorsError::InvalidOrigin { origin }) => assert_eq!(origin, bad),
            other => panic!("{bad}: unexpected {:?}", other.map(|_| ())),
        }
    }
}

#[test]
fn origin_host_and_port_forms_are_accepted() {
    for good in [
        "http://localhost",
        "http://localhost:3000",
        "https://app.example.com",
        "https://app-1.Example.COM:443",
        "http://127.0.0.1:8080",
        "http://[::1]",
        "https://[::1]:8443",
        "http://[::ffff:192.0.2.1]:80",
        "http://my_host:3000",
        "https://bücher.example",
        "https://a~b.example",
        "https://xn--bcher-kva.example",
    ] {
        assert!(parse_origin(good).is_ok(), "{good}");
    }
}

#[test]
fn parse_origin_returns_the_header_value() {
    let v = parse_origin("http://localhost:3000").expect("valid");
    assert_eq!(v, "http://localhost:3000");
}

#[test]
fn cors_error_messages() {
    let err = CorsError::InvalidOrigin { origin: "ftp://host".to_string() };
    assert_eq!(err.message(), "invalid CORS origin: \"ftp://host\"");
    assert_eq!(
        CorsError::NoOrigins.message(),
        "no origins given; use cors_permissive() explicitly for allow-all"
    );
}

#[test]
fn restrictive_layer_applies_to_a_service() {
    let layer = cors_restrictive(&["https://app.example.com"], true).expect("valid origin");
    // Credentials with an explicit header list is a legal combination:
    // tower-http would panic here on a wildcard.
    let _svc = layer.layer(tower::service_fn(|_req: http::Request<()>| async {
        Ok::<_, std::convert::Infallible>(http::Response::new(()))
    }));
}
