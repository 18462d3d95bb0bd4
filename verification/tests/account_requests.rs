use rusqlite::Connection;
use authd::account_requests;
use authd::account_requests::IncrementRateLimitParams;

use authd::errors::SqliteInterfaceError;

#[test]
fn account_requests_crud_operations() -> Result<(), SqliteInterfaceError> {
    let mut conn = match Connection::open_in_memory() {
        Ok(conn) => conn,
        Err(e) => return Err(SqliteInterfaceError::Rusqlite(e)),
    };

    if let Err(_e) = account_requests::create_table(&mut conn) {
        assert!(false, "failed to create account_requets table");
    }

    let _account_request = match account_requests::increment_rate_limit(
        &mut conn,
        &IncrementRateLimitParams {
            organization_id: 2,
            token: 1234567,
            contact_kind_id: 4,
            contact_content: "we're normal men".to_string(),
            window_length_ms: 10,
            current_timestamp: 5,
        },
    ) {
        Ok(arqst) => arqst,
        Err(e) => return Err(e),
    };

    Ok(())
}
