use madrigal::error::AppError;

#[test]
fn each_error_has_its_status() {
    assert_eq!(AppError::BadRequest("a".into()).into_parts(), (400, "a".to_string()));
    assert_eq!(AppError::Auth("b".into()).into_parts(), (401, "b".to_string()));
    assert_eq!(AppError::NotFound("c".into()).into_parts(), (404, "c".to_string()));
    assert_eq!(AppError::Internal("d".into()).into_parts(), (500, "d".to_string()));
}

#[test]
fn database_errors_map_to_not_found_or_internal() {
    assert_eq!(
        AppError::from_db_error(true, "no rows returned".into()),
        AppError::NotFound("not found".into())
    );
    assert_eq!(
        AppError::from_db_error(false, "connection reset".into()),
        AppError::Internal("connection reset".into())
    );
}
