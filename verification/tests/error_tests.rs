use config::errors::{
    ApiError, CommonError, DecodeError, HttpError, S3StorageError, ScyllaRepositoryError,
    CODE_GENERIC, CODE_NOT_FOUND, CODE_STORAGE,
};

#[test]
fn repository_error_wrapping_round_trip() {
    let inner = ScyllaRepositoryError::new("Not found", "Environment not exists", 104).into_inner();
    assert_eq!(inner.message.as_str(), "Not found");
    assert_eq!(inner.description.as_str(), "Environment not exists");
    assert_eq!(inner.code, CODE_NOT_FOUND);
}

#[test]
fn storage_error_wrapping_round_trip() {
    let inner = S3StorageError::new("Cannot create config", "Storage error", 102).into_inner();
    assert_eq!(inner.message.as_str(), "Cannot create config");
    assert_eq!(inner.description.as_str(), "Storage error");
    assert_eq!(inner.code, CODE_STORAGE);
}

#[test]
fn decode_error_carries_fixed_description_and_code() {
    let inner = DecodeError::new("Invalid next_page token").into_inner();
    assert_eq!(inner.message.as_str(), "Invalid next_page token");
    assert_eq!(inner.description.as_str(), "base64 parsing error");
    assert_eq!(inner.code, CODE_GENERIC);
}

#[test]
fn common_error_from_repository_and_storage_errors() {
    let repo = ScyllaRepositoryError::new("m", "d", 104).into_inner();
    let common = CommonError::from(repo);
    assert_eq!(common.message.as_str(), "m");
    assert_eq!(common.code, 104);
    let storage = S3StorageError::new("n", "e", 102).into_inner();
    let common2 = CommonError::from(storage);
    assert_eq!(common2.description.as_str(), "e");
    assert_eq!(common2.code, 102);
}

#[test]
fn api_error_status_codes() {
    let storage_failure = ApiError::from(CommonError {
        message: "m".to_string(),
        description: "d".to_string(),
        code: 102,
    });
    assert_eq!(storage_failure.status_code(), 500);
    let not_found = ApiError::from(CommonError {
        message: "m".to_string(),
        description: "d".to_string(),
        code: 104,
    });
    assert_eq!(not_found.status_code(), 404);
    let other = ApiError::from(CommonError {
        message: "m".to_string(),
        description: "d".to_string(),
        code: 1,
    });
    assert_eq!(other.status_code(), 400);
}

#[test]
fn http_error_bodies_and_status() {
    let json = HttpError::Json("boom".to_string());
    assert_eq!(json.status_code(), 400);
    let body = json.to_common();
    assert_eq!(body.message.as_str(), "The request body contains invalid JSON");
    assert_eq!(body.description.as_str(), "Deserialization error: boom");
    assert_eq!(body.code, 50109);

    let query = HttpError::Query("q".to_string()).to_common();
    assert_eq!(query.message.as_str(), "The request query parameters are invalid");
    assert_eq!(query.description.as_str(), "Query parsing error: q");
    assert_eq!(query.code, 50110);

    let path = HttpError::Path("p".to_string()).to_common();
    assert_eq!(path.message.as_str(), "The request path are invalid");
    assert_eq!(path.description.as_str(), "Path parsing error: p");
    assert_eq!(path.code, 50111);
}
