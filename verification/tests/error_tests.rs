use bbox::error::Error;
use bbox::httperror::{error_response, error_text};

#[test]
fn status_codes() {
    assert_eq!(Error::QueryParams.status_code(), 400);
    assert_eq!(Error::GeometryFormatError.status_code(), 400);
    assert_eq!(Error::InvalidCollection.status_code(), 404);
    assert_eq!(Error::HtmlTemplate.status_code(), 500);
    assert_eq!(Error::NodeNotFound.status_code(), 500);
    assert_eq!(Error::DbError("db down".to_string()).status_code(), 500);
}

#[test]
fn error_messages() {
    assert_eq!(Error::DatasourceSetupError("x".to_string()).message(), "datasource setup error - x");
    assert_eq!(Error::DatasourceNotFound("pg".to_string()).message(), "datasource `pg` not found");
    assert_eq!(Error::ArgumentError("z".to_string()).message(), "Argument error `z`");
    assert_eq!(Error::DbError("db down".to_string()).message(), "db down");
    assert_eq!(Error::BincodeError("eof".to_string()).message(), "Bincode error");
    assert_eq!(Error::NoRouteFound.message(), "No route found");
}

#[test]
fn error_response_bodies() {
    let r = error_response(404, "gone".to_string());
    assert_eq!(r.code, 404);
    assert_eq!(r.message, "404 Not Found");
    assert_eq!(r.error, "URL Not Found");
    let r = error_response(429, "slow down".to_string());
    assert_eq!(r.message, "429 Too Many Requests");
    assert_eq!(r.error, "Too Many Requests");
    let r = error_response(503, "db".to_string());
    assert_eq!(r.message, "503 Service Unavailable");
    assert_eq!(r.error, "Internal");
    let r = error_response(400, "bad bbox".to_string());
    assert_eq!(r.message, "400 Bad Request");
    assert_eq!(r.error, "bad bbox");
    assert_eq!(error_text(599, "x".to_string()), "Internal");
    assert_eq!(error_text(600, "x".to_string()), "x");
}
