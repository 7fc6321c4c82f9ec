//! Request-id layers on the `x-request-id` header: tower-http's layer that
//! sets a UUID made by the server, and its layer that copies the request's
//! id to the response.

use vstd::prelude::*;

use crate::headers::{header_name_from_static, header_name_of};

verus! {

#[verifier::external_type_specification]
#[verifier::external_body]
#[verifier::reject_recursive_types(M)]
pub struct ExSetRequestIdLayer<M>(tower_http::request_id::SetRequestIdLayer<M>);

#[verifier::external_type_specification]
#[verifier::external_body]
pub struct ExMakeRequestUuid(tower_http::request_id::MakeRequestUuid);

#[verifier::external_type_specification]
#[verifier::external_body]
pub struct ExPropagateRequestIdLayer(tower_http::request_id::PropagateRequestIdLayer);

/// `x-request-id`
pub open spec fn request_id_header_text() -> Seq<char> {
    seq!['x', '-', 'r', 'e', 'q', 'u', 'e', 's', 't', '-', 'i', 'd']
}

/// `SetRequestIdLayer::new(name, MakeRequestUuid)`.
pub uninterp spec fn set_request_id_layer_of(
    name: http::HeaderName,
) -> tower_http::request_id::SetRequestIdLayer<tower_http::request_id::MakeRequestUuid>;

/// `PropagateRequestIdLayer::new(name)`.
pub uninterp spec fn propagate_request_id_layer_of(
    name: http::HeaderName,
) -> tower_http::request_id::PropagateRequestIdLayer;

/// Calls `SetRequestIdLayer::new` with the header name and the UUID maker.
/// The layer only stores the two: it depends on the name alone (the ids
/// themselves are made per request, later).
#[verifier::external_body]
fn set_request_id_layer(
    name: http::HeaderName,
) -> (r: tower_http::request_id::SetRequestIdLayer<tower_http::request_id::MakeRequestUuid>)
    ensures
        r == set_request_id_layer_of(name),
{
    tower_http::request_id::SetRequestIdLayer::new(name, tower_http::request_id::MakeRequestUuid)
}

/// Calls `PropagateRequestIdLayer::new`, which stores the header name.
#[verifier::external_body]
fn propagate_request_id_layer(name: http::HeaderName) -> (r:
    tower_http::request_id::PropagateRequestIdLayer)
    ensures
        r == propagate_request_id_layer_of(name),
{
    tower_http::request_id::PropagateRequestIdLayer::new(name)
}

/// The name of the request-id header, `x-request-id`.
pub fn request_id_header() -> (name: http::HeaderName)
    ensures
        name == header_name_of(request_id_header_text()),
{
    proof {
        reveal_strlit("x-request-id");
        assert("x-request-id"@ =~= request_id_header_text());
    }
    header_name_from_static("x-request-id")
}

/// Create a request ID layer that generates UUIDs for incoming requests
/// and sets the `X-Request-Id` header on responses.
///
/// Both layers work on the same header, `x-request-id`: the id that the
/// first sets on the request is the one the second copies to the response.
pub fn request_id_layer() -> (r: (
    tower_http::request_id::SetRequestIdLayer<tower_http::request_id::MakeRequestUuid>,
    tower_http::request_id::PropagateRequestIdLayer,
))
    ensures
        r.0 == set_request_id_layer_of(header_name_of(request_id_header_text())),
        r.1 == propagate_request_id_layer_of(header_name_of(request_id_header_text())),
{
    let set = set_request_id_layer(request_id_header());
    let propagate = propagate_request_id_layer(request_id_header());
    (set, propagate)
}

} // verus!
