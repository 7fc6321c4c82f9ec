use axum_stack::cors::{cors_api, cors_permissive, cors_restrictive};
use axum_stack::request_id::request_id_layer;
use tower::{Layer, ServiceExt};

fn run<F: std::future::Future>(f: F) -> F::Output {
    tokio::runtime::Builder::new_current_thread()
        .enable_all()
        .build()
        .expect("runtime")
        .block_on(f)
}

fn echo_service() -> tower::util::BoxCloneService<
    http::Request<()>,
    http::Response<()>,
    std::convert::Infallible,
> {
    tower::util::BoxCloneService::new(tower::service_fn(|_req: http::Request<()>| async {
        Ok::<_, std::convert::Infallible>(http::Response::new(()))
    }))
}

fn send(layer: &tower_http::cors::CorsLayer, method: &str, origin: &str) -> http::HeaderMap {
    let svc = layer.layer(echo_service());
    let req = http::Request::builder()
        .method(method)
        .uri("/")
        .header("origin", origin)
        .header("access-control-request-method", "GET")
        .body(())
        .expect("request");
    run(async move { svc.oneshot(req).await.expect("response") }).headers().clone()
}

fn header<'a>(h: &'a http::HeaderMap, name: &str) -> Option<&'a str> {
    h.get(name).map(|v| v.to_str().expect("ascii header"))
}

#[test]
fn permissive_answers_with_wildcards() {
    let layer = cors_permissive();
    let get = send(&layer, "GET", "https://anywhere.example");
    assert_eq!(header(&get, "access-control-allow-origin"), Some("*"));
    let pre = send(&layer, "OPTIONS", "https://anywhere.example");
    assert_eq!(header(&pre, "access-control-allow-methods"), Some("*"));
    assert_eq!(header(&pre, "access-control-allow-headers"), Some("*"));
    assert_eq!(header(&pre, "access-control-max-age"), Some("3600"));
    assert_eq!(header(&pre, "access-control-allow-credentials"), None);
    assert_eq!(header(&get, "access-control-allow-credentials"), None);
    assert_eq!(header(&get, "access-control-expose-headers"), None);
    assert_eq!(header(&pre, "access-control-allow-private-network"), None);
}

#[test]
fn permissive_layer_applies_to_a_service() {
    // tower-http panics here when credentials meet a wildcard.
    let _svc = cors_permissive().layer(echo_service());
}

#[test]
fn non_credentialed_restrictive_layer_applies_to_a_service() {
    let layer = cors_restrictive(&["https://a.example.com"], false).expect("valid");
    let _svc = layer.layer(echo_service());
    let pre = send(&layer, "OPTIONS", "https://a.example.com");
    assert_eq!(header(&pre, "access-control-allow-credentials"), None);
}

#[test]
fn single_credentialed_origin_is_exact() {
    let layer = cors_restrictive(&["https://app.example.com"], true).expect("valid origin");
    let get = send(&layer, "GET", "https://app.example.com");
    assert_eq!(header(&get, "access-control-allow-origin"), Some("https://app.example.com"));
    assert_eq!(header(&get, "access-control-allow-credentials"), Some("true"));
    assert_eq!(header(&get, "access-control-expose-headers"), Some("x-request-id"));
    let pre = send(&layer, "OPTIONS", "https://app.example.com");
    assert_eq!(
        header(&pre, "access-control-allow-methods"),
        Some("GET,POST,PUT,DELETE,PATCH,OPTIONS")
    );
    assert_eq!(
        header(&pre, "access-control-allow-headers"),
        Some("authorization,content-type,accept,origin,x-requested-with,x-csrf-token")
    );
    assert_eq!(header(&pre, "access-control-max-age"), Some("3600"));
}

#[test]
fn listed_origins_are_echoed_and_others_are_not() {
    let layer =
        cors_restrictive(&["https://a.example.com", "https://b.example.com"], false).expect("valid");
    let a = send(&layer, "GET", "https://a.example.com");
    assert_eq!(header(&a, "access-control-allow-origin"), Some("https://a.example.com"));
    let b = send(&layer, "GET", "https://b.example.com");
    assert_eq!(header(&b, "access-control-allow-origin"), Some("https://b.example.com"));
    let evil = send(&layer, "GET", "https://evil.example.com");
    assert_eq!(header(&evil, "access-control-allow-origin"), None);
    assert_eq!(header(&a, "access-control-allow-credentials"), None);
    let pre = send(&layer, "OPTIONS", "https://a.example.com");
    assert_eq!(header(&pre, "access-control-allow-headers"), Some("*"));
}

#[test]
fn api_layer_has_no_credentials() {
    let layer = cors_api(&["https://api.example.com"]).expect("valid origin");
    let get = send(&layer, "GET", "https://api.example.com");
    assert_eq!(header(&get, "access-control-allow-origin"), Some("https://api.example.com"));
    assert_eq!(header(&get, "access-control-allow-credentials"), None);
    assert_eq!(header(&get, "access-control-expose-headers"), Some("x-request-id"));
}

#[test]
fn request_id_is_set_and_propagated() {
    let (set, propagate) = request_id_layer();
    let svc = set.layer(propagate.layer(echo_service()));
    let req = http::Request::builder().uri("/").body(()).expect("request");
    let res = run(async move { svc.oneshot(req).await.expect("response") });
    let id = header(res.headers(), "x-request-id").expect("request id on the response");
    assert_eq!(id.len(), 36);
}
