use trading_backend::api::error::{ApiErrorWrapper, FailureCause};
use trading_backend::api::models::{ApiError, ApiResponse};

#[test]
fn error_codes_are_fixed() {
    assert_eq!(ApiError::Success.code(), 0);
    assert_eq!(ApiError::BadRequest.code(), 40001);
    assert_eq!(ApiError::NotFound.code(), 40401);
    assert_eq!(ApiError::InternalServerError.code(), 50001);
    assert_eq!(ApiError::DatabaseError.code(), 50002);
    assert_eq!(ApiError::InvalidDateFormat.code(), 40002);
}

#[test]
fn status_codes_are_fixed() {
    assert_eq!(ApiError::Success.status_code(), 200);
    assert_eq!(ApiError::BadRequest.status_code(), 400);
    assert_eq!(ApiError::InvalidDateFormat.status_code(), 400);
    assert_eq!(ApiError::NotFound.status_code(), 404);
    assert_eq!(ApiError::InternalServerError.status_code(), 500);
    assert_eq!(ApiError::DatabaseError.status_code(), 500);
}

#[test]
fn default_messages_are_fixed() {
    assert_eq!(ApiError::Success.message(), "Success");
    assert_eq!(ApiError::BadRequest.message(), "Bad request");
    assert_eq!(ApiError::NotFound.message(), "Resource not found");
    assert_eq!(ApiError::InternalServerError.message(), "Internal server error");
    assert_eq!(ApiError::DatabaseError.message(), "Database error");
    assert_eq!(ApiError::InvalidDateFormat.message(), "Invalid date format");
}

#[test]
fn success_envelope_carries_data() {
    let r: ApiResponse<u32> = ApiResponse::success(7);
    assert_eq!(r.code, 0);
    assert_eq!(r.message, "Success");
    assert_eq!(r.data, Some(7));
}

#[test]
fn error_envelope_has_no_data() {
    let r: ApiResponse<u32> = ApiResponse::error(ApiError::DatabaseError);
    assert_eq!(r.code, 50002);
    assert_eq!(r.message, "Database error");
    assert_eq!(r.data, None);
}

#[test]
fn error_envelope_keeps_custom_message() {
    let r: ApiResponse<u32> =
        ApiResponse::error_with_message(ApiError::NotFound, String::from("no such row"));
    assert_eq!(r.code, 40401);
    assert_eq!(r.message, "no such row");
    assert_eq!(r.data, None);
}

#[test]
fn date_parse_failures_classify_as_invalid_date_format() {
    let w = ApiErrorWrapper::new(FailureCause::DateParse, String::from("bad start"));
    assert_eq!(w.classify(), ApiError::InvalidDateFormat);
    assert_eq!(w.status_code(), 400);
}

#[test]
fn store_failures_classify_as_database_error() {
    let w = ApiErrorWrapper::new(FailureCause::Store, String::from("connection refused"));
    assert_eq!(w.classify(), ApiError::DatabaseError);
    assert_eq!(w.status_code(), 500);
}

#[test]
fn other_failures_classify_as_internal_server_error() {
    let w = ApiErrorWrapper::new(FailureCause::Other, String::from("boom"));
    assert_eq!(w.classify(), ApiError::InternalServerError);
    assert_eq!(w.status_code(), 500);
}

#[test]
fn classification_survives_wrapping_context() {
    let detail = String::from("while fetching range: caused by: bad date");
    let w = ApiErrorWrapper::new(FailureCause::DateParse, detail.clone());
    let r: ApiResponse<u32> = w.into_envelope();
    assert_eq!(r.code, 40002);
    assert_eq!(r.message, detail);
    assert_eq!(r.data, None);
}
