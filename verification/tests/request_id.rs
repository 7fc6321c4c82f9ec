use axum_stack::request_id::{request_id_header, request_id_layer};

#[test]
fn request_id_layer_builds() {
    let (set, propagate) = request_id_layer();
    let _ = set;
    let _ = propagate;
}

#[test]
fn request_id_layer_builds_multiple_times() {
    for _ in 0..100 {
        let (set, propagate) = request_id_layer();
        drop(set);
        drop(propagate);
    }
}

#[test]
fn request_id_header_is_x_request_id() {
    assert_eq!(request_id_header().as_str(), "x-request-id");
}
