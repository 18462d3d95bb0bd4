use authd::api_keys;
use authd::errors::SqliteInterfaceError;
use authd::number_settings;
use authd::organizations;
use authd::sessions;
use rusqlite::Connection;

fn count(conn: &Connection, table: &str) -> i64 {
    conn.query_row(&format!("SELECT COUNT(*) FROM {}", table), [], |r| r.get(0)).unwrap()
}

#[test]
fn api_keys_dangerously_delete_removes_old_soft_deleted_keys() {
    let mut conn = Connection::open_in_memory().unwrap();
    api_keys::create_table(&mut conn).unwrap();
    for id in 0..3 {
        api_keys::create(
            &mut conn,
            &api_keys::CreateParams {
                id,
                organization_id: 1,
                people_id: 2,
                title: "t".to_string(),
                token: "k".to_string(),
                lifetime: 100,
                created_at: 0,
            },
        )
        .unwrap();
    }
    api_keys::delete(&mut conn, &api_keys::DeleteParams { id: 0, current_timestamp: 10 }).unwrap();
    api_keys::delete(&mut conn, &api_keys::DeleteParams { id: 1, current_timestamp: 100 }).unwrap();
    api_keys::dangerously_delete(
        &mut conn,
        &api_keys::DangerouslyDeleteParams { organization_id: 1, window_length_ms: 50, current_timestamp: 120 },
    )
    .unwrap();
    assert_eq!(count(&conn, "api_keys"), 2);
    let live = api_keys::read(&mut conn, &api_keys::ReadParams { organization_id: 1, offset: 0, limit: 16 }).unwrap();
    assert_eq!(live.len(), 1);
    assert_eq!(live[0].as_ref().unwrap().id, 2);
}

#[test]
fn creating_a_taken_id_fails_with_the_library_error() {
    let mut conn = Connection::open_in_memory().unwrap();
    organizations::create_table(&mut conn).unwrap();
    let params = organizations::CreateParams { id: 1, title: "a".to_string(), current_timestamp: 0 };
    organizations::create(&mut conn, &params).unwrap();
    let again = organizations::CreateParams { id: 1, title: "b".to_string(), current_timestamp: 5 };
    match organizations::create(&mut conn, &again) {
        Err(SqliteInterfaceError::Custom(m)) => assert_eq!(m, "failed to create organization"),
        other => panic!("expected the library's error, got {:?}", other),
    }
    assert_eq!(count(&conn, "organizations"), 1);
    assert_eq!(organizations::read_by_id(&mut conn, 1).unwrap().unwrap().title, "a");
}

#[test]
fn creating_without_a_table_fails_with_sqlite_error() {
    let mut conn = Connection::open_in_memory().unwrap();
    let params = organizations::CreateParams { id: 1, title: "a".to_string(), current_timestamp: 0 };
    match organizations::create(&mut conn, &params) {
        Err(SqliteInterfaceError::Rusqlite(_)) => {}
        other => panic!("expected an SQLite error, got {:?}", other),
    }
}

#[test]
fn reading_a_missing_table_fails_with_sqlite_error() {
    let mut conn = Connection::open_in_memory().unwrap();
    match sessions::read(
        &mut conn,
        &sessions::ReadParams { organization_id: 0, window_length_ms: 10, current_timestamp: 0, offset: 0, limit: 1 },
    ) {
        Err(SqliteInterfaceError::Rusqlite(e)) => assert!(!SqliteInterfaceError::Rusqlite(e).message().is_empty()),
        other => panic!("expected an SQLite error, got {:?}", other),
    }
}

#[test]
fn organizations_dangerously_delete_and_soft_delete() {
    let mut conn = Connection::open_in_memory().unwrap();
    organizations::create_table(&mut conn).unwrap();
    organizations::create(&mut conn, &organizations::CreateParams { id: 1, title: "a".to_string(), current_timestamp: 0 }).unwrap();
    organizations::create(&mut conn, &organizations::CreateParams { id: 2, title: "b".to_string(), current_timestamp: 0 }).unwrap();
    let renamed = organizations::patch(
        &mut conn,
        &organizations::PatchParams { id: 2, title: "c".to_string(), current_timestamp: 3 },
    )
    .unwrap()
    .unwrap();
    assert_eq!(organizations::read_by_id(&mut conn, 2).unwrap(), Some(renamed));
    let gone = organizations::delete(&mut conn, &organizations::DeleteParams { id: 1, current_timestamp: 5 }).unwrap().unwrap();
    assert_eq!(gone.deleted_at, Some(5));
    assert_eq!(organizations::read_by_title(&mut conn, "a").unwrap(), None);
    let page = organizations::read(&mut conn, &organizations::ReadParams { offset: 0, limit: -1 }).unwrap();
    assert_eq!(page.len(), 1);
    organizations::dangerously_delete(
        &mut conn,
        &organizations::DangerouslyDeleteParams { window_length_ms: 10, current_timestamp: 16 },
    )
    .unwrap();
    assert_eq!(count(&conn, "organizations"), 1);
}

#[test]
fn number_settings_round_trip_through_sqlite() {
    let mut conn = Connection::open_in_memory().unwrap();
    number_settings::create_table(&mut conn).unwrap();
    match number_settings::create(
        &mut conn,
        &number_settings::CreateParams { id: 4, organization_id: 1, action_kind_id: true, number_value: true, current_timestamp: 2 },
    ) {
        Err(SqliteInterfaceError::Rusqlite(e)) => {
            assert!(SqliteInterfaceError::Rusqlite(e).message().contains("6 values for 5 columns"))
        }
        other => panic!("expected an SQLite error, got {:?}", other),
    }
    conn.execute(
        "INSERT INTO number_settings (id, organization_id, action_kind_id, number_value, updated_at, deleted_at)
         VALUES (4, 1, 1, 1, 2, NULL)",
        [],
    )
    .unwrap();
    let created = number_settings::read_by_id(&mut conn, 4).unwrap().unwrap();
    assert_eq!((created.organization_id, created.action_kind_id, created.number_value, created.updated_at), (1, 1, 1, 2));
    let patched = number_settings::patch(
        &mut conn,
        &number_settings::PatchParams { id: 4, action_kind_id: None, number_value: Some(false), current_timestamp: 3 },
    )
    .unwrap()
    .unwrap();
    assert_eq!((patched.action_kind_id, patched.number_value), (1, 0));
    let page = number_settings::read(&mut conn, &number_settings::ReadParams { organization_id: 1, offset: 0, limit: 5 }).unwrap();
    assert_eq!(page, vec![Ok(patched)]);
    match number_settings::update_password(
        &mut conn,
        &number_settings::UpdatePasswordParams { id: 4, password_hash_results: "h".to_string(), current_timestamp: 5 },
    ) {
        Err(SqliteInterfaceError::Rusqlite(_)) => {}
        other => panic!("expected an SQLite error, got {:?}", other),
    }
}

#[test]
fn sessions_delete_of_unknown_session_fails() {
    let mut conn = Connection::open_in_memory().unwrap();
    sessions::create_table(&mut conn).unwrap();
    match sessions::delete(&mut conn, &sessions::DeleteParams { session_id: 1, current_timestamp: 1 }) {
        Err(SqliteInterfaceError::Custom(m)) => assert_eq!(m, "failed to rate-limit session"),
        other => panic!("expected a custom error, got {:?}", other),
    }
}

#[test]
fn a_row_that_does_not_read_fails_the_read() {
    let mut conn = Connection::open_in_memory().unwrap();
    sessions::create_table(&mut conn).unwrap();
    conn.execute(
        "INSERT INTO sessions (id, organization_id, people_id, token, prev_window_count, window_count, updated_at, deleted_at)
         VALUES (1, 7, 2, 'not a number', 0, 1, 5, NULL)",
        [],
    )
    .unwrap();
    match sessions::read(
        &mut conn,
        &sessions::ReadParams { organization_id: 7, window_length_ms: 10, current_timestamp: 6, offset: 0, limit: 4 },
    ) {
        Err(SqliteInterfaceError::Custom(m)) => assert_eq!(m, "malformed row in sessions"),
        other => panic!("expected a custom error, got {:?}", other),
    }
}

#[test]
fn a_failed_operation_leaves_the_connection_usable() {
    let mut conn = Connection::open_in_memory().unwrap();
    sessions::create_table(&mut conn).unwrap();
    assert!(sessions::delete(&mut conn, &sessions::DeleteParams { session_id: 3, current_timestamp: 1 }).is_err());
    let s = sessions::create(
        &mut conn,
        &sessions::CreateParams { session_id: 3, organization_id: 1, people_id: 2, token: 4, current_timestamp: 5 },
    )
    .unwrap();
    let gone = sessions::delete(&mut conn, &sessions::DeleteParams { session_id: 3, current_timestamp: 6 }).unwrap();
    assert_eq!(gone.id, s.id);
    assert_eq!(gone.deleted_at, Some(6));
    assert!(conn.is_autocommit());
}
