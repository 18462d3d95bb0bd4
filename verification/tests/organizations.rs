use authd::errors::SqliteInterfaceError;
use authd::organizations;
use authd::organizations::CreateParams;
use rusqlite::Connection;

#[test]
fn organizations_crud_operations() -> Result<(), SqliteInterfaceError> {
    let mut conn = match Connection::open_in_memory() {
        Ok(conn) => conn,
        Err(e) => return Err(SqliteInterfaceError::Rusqlite(e)),
    };

    if let Err(_e) = organizations::create_table(&mut conn) {
        assert!(false, "failed to create oganizations table");
    }

    // create
    let contact_kind = match organizations::create(
        &mut conn,
        &CreateParams {
            id: 1,
            title: "email".to_string(),
            current_timestamp: 0,
        },
    ) {
        Ok(ck) => ck,
        Err(e) => return Err(e),
    };

    // read by id
    let contact_kind_read_by_id = match organizations::read_by_id(&mut conn, 1) {
        Ok(ck) => ck,
        Err(e) => return Err(e),
    };

    assert!(Some(contact_kind.clone()) == contact_kind_read_by_id);

    // read by kind
    let contact_kind_read_by_kind = match organizations::read_by_title(&mut conn, "email") {
        Ok(ck) => ck,
        Err(e) => return Err(e),
    };

    assert!(Some(contact_kind) == contact_kind_read_by_kind);

    Ok(())
}
