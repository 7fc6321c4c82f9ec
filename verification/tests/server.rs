use axum_stack::server::{ServeAction, ServePhase, ServerError, serve_step};

#[test]
fn bind_failure_is_reported_as_bind() {
    match serve_step(ServePhase::Binding, Err("address in use".to_string())) {
        ServeAction::Finish(Err(ServerError::Bind(detail))) => assert_eq!(detail, "address in use"),
        other => panic!("unexpected action: {other:?}"),
    }
}

#[test]
fn successful_bind_goes_on_to_serve() {
    assert!(matches!(serve_step(ServePhase::Binding, Ok(())), ServeAction::Serve));
}

#[test]
fn graceful_end_of_serving_is_ok() {
    assert!(matches!(serve_step(ServePhase::Serving, Ok(())), ServeAction::Finish(Ok(()))));
}

#[test]
fn serving_failure_is_reported_as_serve() {
    match serve_step(ServePhase::Serving, Err("connection reset".to_string())) {
        ServeAction::Finish(Err(ServerError::Serve(detail))) => assert_eq!(detail, "connection reset"),
        other => panic!("unexpected action: {other:?}"),
    }
}

#[test]
fn bind_error_message_is_descriptive() {
    let err = ServerError::Bind("Address already in use (os error 98)".to_string());
    assert!(err.message().contains("failed to bind"));
    assert_eq!(err.message(), "failed to bind to address: Address already in use (os error 98)");
}

#[test]
fn serve_error_message() {
    assert_eq!(ServerError::Serve("boom".to_string()).message(), "server error: boom");
}
