//! The builder of `tower_http::cors::CorsLayer`, one trusted item per
//! builder call. Every builder method of `CorsLayer` takes the layer by
//! value, replaces one of its settings and hands it back; its result
//! depends on the layer and the arguments alone, so each result is named
//! below by a function of exactly those.
//!
//! A builder method such as `allow_origin` is generic over what converts
//! into its setting; each kind of argument the presets pass (`Any`, one
//! value, a list) goes through a different `From` impl of tower-http, so
//! each has its own wrapper and its own name.

use vstd::prelude::*;
use vstd::utf8::encode_utf8;

use crate::headers::{header_value_bytes_ok, header_value_from_str_of};

verus! {

#[verifier::external_type_specification]
#[verifier::external_body]
pub struct ExCorsLayer(tower_http::cors::CorsLayer);

#[verifier::external_type_specification]
#[verifier::external_body]
pub struct ExAllowHeaders(tower_http::cors::AllowHeaders);

/// `layer.allow_origin(Any)`.
pub uninterp spec fn allow_origin_any_of(layer: tower_http::cors::CorsLayer) -> tower_http::cors::CorsLayer;

/// `layer.allow_origin(origin)` for one exact origin.
pub uninterp spec fn allow_origin_exact_of(
    layer: tower_http::cors::CorsLayer,
    origin: http::HeaderValue,
) -> tower_http::cors::CorsLayer;

/// `layer.allow_origin(origins)` for a list of origins.
pub uninterp spec fn allow_origin_list_of(
    layer: tower_http::cors::CorsLayer,
    origins: Seq<http::HeaderValue>,
) -> tower_http::cors::CorsLayer;

/// `layer.allow_methods(Any)`.
pub uninterp spec fn allow_methods_any_of(layer: tower_http::cors::CorsLayer) -> tower_http::cors::CorsLayer;

/// `layer.allow_methods(methods)` for a list of methods.
pub uninterp spec fn allow_methods_list_of(
    layer: tower_http::cors::CorsLayer,
    methods: Seq<http::Method>,
) -> tower_http::cors::CorsLayer;

/// `layer.allow_headers(Any)`.
pub uninterp spec fn allow_headers_any_of(layer: tower_http::cors::CorsLayer) -> tower_http::cors::CorsLayer;

/// `layer.allow_headers(headers)`.
pub uninterp spec fn allow_headers_of(
    layer: tower_http::cors::CorsLayer,
    headers: tower_http::cors::AllowHeaders,
) -> tower_http::cors::CorsLayer;

/// `AllowHeaders::from(names)` for a list of header names.
pub uninterp spec fn allow_headers_list_of(names: Seq<http::HeaderName>) -> tower_http::cors::AllowHeaders;

/// `layer.max_age(Duration::from_secs(secs))`.
pub uninterp spec fn max_age_secs_of(layer: tower_http::cors::CorsLayer, secs: u64) -> tower_http::cors::CorsLayer;

/// `layer.allow_credentials(allow)`.
pub uninterp spec fn allow_credentials_of(layer: tower_http::cors::CorsLayer, allow: bool) -> tower_http::cors::CorsLayer;

/// `layer.allow_private_network(allow)`.
pub uninterp spec fn allow_private_network_of(layer: tower_http::cors::CorsLayer, allow: bool) -> tower_http::cors::CorsLayer;

/// `layer.expose_headers(names)` for a list of header names.
pub uninterp spec fn expose_headers_list_of(
    layer: tower_http::cors::CorsLayer,
    names: Seq<http::HeaderName>,
) -> tower_http::cors::CorsLayer;

/// Calls `CorsLayer::new`, which sends no CORS header until the builder
/// methods set some. It takes no argument, so no name stands for its
/// result: nothing is stated of it.
#[verifier::external_body]
pub(crate) fn layer_new() -> (r: tower_http::cors::CorsLayer) {
    tower_http::cors::CorsLayer::new()
}

/// Calls `CorsLayer::allow_origin` with `Any`: every origin is allowed.
#[verifier::external_body]
pub(crate) fn allow_origin_any(layer: tower_http::cors::CorsLayer) -> (r: tower_http::cors::CorsLayer)
    ensures
        r == allow_origin_any_of(layer),
{
    layer.allow_origin(tower_http::cors::Any)
}

/// Calls `CorsLayer::allow_origin` with one header value (`AllowOrigin::exact`).
#[verifier::external_body]
pub(crate) fn allow_origin_exact(
    layer: tower_http::cors::CorsLayer,
    origin: http::HeaderValue,
) -> (r: tower_http::cors::CorsLayer)
    ensures
        r == allow_origin_exact_of(layer, origin),
{
    layer.allow_origin(origin)
}

/// `v` is the header value that `HeaderValue::from_str` makes of some
/// text other than `*` that it accepts.
pub open spec fn non_wildcard_header_value(v: http::HeaderValue) -> bool {
    exists|t: Seq<char>|
        #![trigger header_value_from_str_of(t)]
        t != seq!['*'] && header_value_bytes_ok(encode_utf8(t)) && v == header_value_from_str_of(t)
}

/// Calls `CorsLayer::allow_origin` with a vector of header values
/// (`AllowOrigin::list`). `AllowOrigin::list` panics when the list holds
/// the wildcard `*`; the `requires` admits only values parsed from texts
/// other than `*` (a parsed value keeps the bytes of its text).
#[verifier::external_body]
pub(crate) fn allow_origin_list(
    layer: tower_http::cors::CorsLayer,
    origins: Vec<http::HeaderValue>,
) -> (r: tower_http::cors::CorsLayer)
    requires
        forall|i: int| 0 <= i < origins@.len() ==> #[trigger] non_wildcard_header_value(origins@[i]),
    ensures
        r == allow_origin_list_of(layer, origins@),
{
    layer.allow_origin(origins)
}

/// Calls `CorsLayer::allow_methods` with `Any`.
#[verifier::external_body]
pub(crate) fn allow_methods_any(layer: tower_http::cors::CorsLayer) -> (r: tower_http::cors::CorsLayer)
    ensures
        r == allow_methods_any_of(layer),
{
    layer.allow_methods(tower_http::cors::Any)
}

/// Calls `CorsLayer::allow_methods` with a vector of methods
/// (`AllowMethods::list`).
#[verifier::external_body]
pub(crate) fn allow_methods_list(
    layer: tower_http::cors::CorsLayer,
    methods: Vec<http::Method>,
) -> (r: tower_http::cors::CorsLayer)
    ensures
        r == allow_methods_list_of(layer, methods@),
{
    layer.allow_methods(methods)
}

/// Calls `CorsLayer::allow_headers` with `Any`.
#[verifier::external_body]
pub(crate) fn allow_headers_any(layer: tower_http::cors::CorsLayer) -> (r: tower_http::cors::CorsLayer)
    ensures
        r == allow_headers_any_of(layer),
{
    layer.allow_headers(tower_http::cors::Any)
}

/// Calls `CorsLayer::allow_headers` with an `AllowHeaders` setting.
#[verifier::external_body]
pub(crate) fn allow_headers(
    layer: tower_http::cors::CorsLayer,
    headers: tower_http::cors::AllowHeaders,
) -> (r: tower_http::cors::CorsLayer)
    ensures
        r == allow_headers_of(layer, headers),
{
    layer.allow_headers(headers)
}

/// Calls `AllowHeaders::from` on a vector of header names
/// (`AllowHeaders::list`).
#[verifier::external_body]
pub(crate) fn allow_headers_list(names: Vec<http::HeaderName>) -> (r: tower_http::cors::AllowHeaders)
    ensures
        r == allow_headers_list_of(names@),
{
    tower_http::cors::AllowHeaders::from(names)
}

/// Calls `CorsLayer::max_age` with a duration of `secs` whole seconds.
#[verifier::external_body]
pub(crate) fn max_age_secs(layer: tower_http::cors::CorsLayer, secs: u64) -> (r: tower_http::cors::CorsLayer)
    ensures
        r == max_age_secs_of(layer, secs),
{
    layer.max_age(std::time::Duration::from_secs(secs))
}

/// Calls `CorsLayer::allow_credentials` with a boolean.
#[verifier::external_body]
pub(crate) fn allow_credentials(layer: tower_http::cors::CorsLayer, allow: bool) -> (r: tower_http::cors::CorsLayer)
    ensures
        r == allow_credentials_of(layer, allow),
{
    layer.allow_credentials(allow)
}

/// Calls `CorsLayer::allow_private_network` with a boolean.
#[verifier::external_body]
pub(crate) fn allow_private_network(layer: tower_http::cors::CorsLayer, allow: bool) -> (r: tower_http::cors::CorsLayer)
    ensures
        r == allow_private_network_of(layer, allow),
{
    layer.allow_private_network(allow)
}

/// Calls `CorsLayer::expose_headers` with a vector of header names
/// (`ExposeHeaders::list`).
#[verifier::external_body]
pub(crate) fn expose_headers_list(
    layer: tower_http::cors::CorsLayer,
    names: Vec<http::HeaderName>,
) -> (r: tower_http::cors::CorsLayer)
    ensures
        r == expose_headers_list_of(layer, names@),
{
    layer.expose_headers(names)
}

} // verus!
