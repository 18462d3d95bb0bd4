use authd::account_requests;
use authd::action_rate_limits;
use authd::api_keys;
use authd::contacts;
use authd::errors::SqliteInterfaceError;
use authd::ip_addresses;
use authd::number_settings;
use authd::organizations;
use authd::people;
use authd::rows::page_rows;
use authd::sessions;
use authd::store::{decode_rows, inserted, keys, ran_insert, written, Stored};
use authd::totp;
use authd::type_flyweight::account_requests::AccountRequest;
use authd::type_flyweight::api_keys::ApiKey;
use authd::type_flyweight::contacts::Contact;
use authd::type_flyweight::ip_addresses::IpAddressRateLimit;
use authd::type_flyweight::organizations::Organization;
use authd::type_flyweight::people::Person;
use authd::type_flyweight::sessions::Session;
use authd::value::{Datum, Param};
use authd::window::hit;

fn stored(params: Vec<Param>) -> Vec<Datum> {
    params
        .into_iter()
        .map(|p| match p {
            Param::Null => Datum::Null,
            Param::Integer(i) => Datum::Integer(i),
            Param::Text(s) => Datum::Text(s),
        })
        .collect()
}

fn session(id: i64, updated_at: i64, window_count: i64) -> Session {
    Session {
        id,
        organization_id: 0,
        people_id: 1,
        token: 7,
        prev_window_count: 3,
        window_count,
        updated_at,
        deleted_at: None,
    }
}

#[test]
fn window_hit_within_window_counts_up() {
    assert_eq!(hit(3, 4, 100, 105, 10), Some((3, 5, 100)));
    assert_eq!(hit(3, 4, 100, 110, 10), Some((3, 5, 100)));
}

#[test]
fn window_hit_after_one_window_rolls_over() {
    assert_eq!(hit(3, 4, 100, 111, 10), Some((4, 1, 111)));
    assert_eq!(hit(3, 4, 100, 120, 10), Some((4, 1, 120)));
}

#[test]
fn window_hit_after_two_windows_clears_previous() {
    assert_eq!(hit(3, 4, 100, 121, 10), Some((0, 1, 121)));
}

#[test]
fn window_hit_refused_when_count_is_full() {
    assert_eq!(hit(0, i64::MAX, 100, 101, 10), None);
    assert_eq!(hit(0, i64::MAX, 100, 200, 10), Some((0, 1, 200)));
}

#[test]
fn window_hit_with_negative_window() {
    // a negative window has always passed, twice over
    assert_eq!(hit(3, 4, 100, 100, -1), Some((0, 1, 100)));
}

#[test]
fn window_hit_with_extreme_times() {
    assert_eq!(hit(2, 5, i64::MIN, i64::MAX, i64::MAX), Some((0, 1, i64::MAX)));
    assert_eq!(hit(2, 5, i64::MIN, i64::MAX - 1, i64::MAX), Some((5, 1, i64::MAX - 1)));
    assert_eq!(hit(2, 5, i64::MAX, i64::MIN, 0), Some((2, 6, i64::MAX)));
}

#[test]
fn page_rows_limits_and_offsets() {
    let rows: Vec<Session> = (0..5).map(|i| session(i, 0, 1)).collect();
    let ids = |v: Vec<Session>| v.iter().map(|s| s.id).collect::<Vec<i64>>();
    assert_eq!(ids(page_rows(&rows, 1, 2)), vec![1, 2]);
    assert_eq!(ids(page_rows(&rows, -3, 2)), vec![0, 1]);
    assert_eq!(ids(page_rows(&rows, 3, -1)), vec![3, 4]);
    assert_eq!(ids(page_rows(&rows, 7, 2)), Vec::<i64>::new());
    assert_eq!(ids(page_rows(&rows, 0, 0)), Vec::<i64>::new());
    assert_eq!(ids(page_rows(&rows, 2, 100)), vec![2, 3, 4]);
}

#[test]
fn sessions_read_in_filters_recent_sessions_of_the_organization() {
    let mut other = session(9, 5, 1);
    other.organization_id = 4;
    let rows = vec![session(1, 5, 1), other, session(2, 10, 1), session(3, -20, 1)];
    let page = sessions::read_in(
        &rows,
        &sessions::ReadParams { organization_id: 0, window_length_ms: 10, current_timestamp: 10, offset: 0, limit: 10 },
    );
    assert_eq!(page.iter().map(|s| s.id).collect::<Vec<i64>>(), vec![1]);
}

#[test]
fn sessions_deleted_session_is_not_counted() {
    let rows = vec![session(1, 0, 1), session(2, 0, 1)];
    let gone = sessions::delete_in(&rows, &sessions::DeleteParams { session_id: 2, current_timestamp: 4 }).unwrap();
    assert_eq!(gone.deleted_at, Some(4));
    let after: Vec<Session> = rows.iter().map(|s| if s.id == gone.id { gone.clone() } else { s.clone() }).collect();
    let counted = sessions::increment_rate_limit_in(
        &after,
        &sessions::IncrementRateLimitParams { window_length_ms: 10, session_id: 2, current_timestamp: 5 },
    );
    assert_eq!(counted, None);
}

#[test]
fn sessions_created_session_counts_to_two() {
    let created = sessions::new_session(&sessions::CreateParams {
        session_id: 5,
        organization_id: 0,
        people_id: 1,
        token: 9,
        current_timestamp: 100,
    });
    let rows = vec![session(1, 0, 1), created.clone()];
    let counted = sessions::increment_rate_limit_in(
        &rows,
        &sessions::IncrementRateLimitParams { window_length_ms: 10, session_id: 5, current_timestamp: 107 },
    )
    .unwrap();
    assert_eq!(counted, Session { window_count: 2, ..created });
}

#[test]
fn sessions_dangerously_delete_in_picks_idle_sessions() {
    let rows = vec![session(1, 0, 1), session(2, 90, 1), session(3, 79, 1)];
    let stale = sessions::dangerously_delete_in(
        &rows,
        &sessions::DangerouslyDeleteParams { organization_id: 0, window_length_ms: 10, current_timestamp: 100 },
    );
    assert_eq!(stale.iter().map(|s| s.id).collect::<Vec<i64>>(), vec![1, 3]);
}

#[test]
fn sessions_round_trip() {
    let mut s = session(4, 12, 2);
    s.deleted_at = Some(99);
    assert_eq!(Session::decode(&stored(s.encode())), Some(s.clone()));
    let mut short = stored(s.encode());
    short.pop();
    assert_eq!(Session::decode(&short), None);
    let mut wrong = stored(s.encode());
    wrong[3] = Datum::Text("7".to_string());
    assert_eq!(Session::decode(&wrong), None);
}

#[test]
fn ip_addresses_requests_count_in_sequence() {
    let params = |now: i64| ip_addresses::IncrementRateLimitParams {
        organization_id: 0,
        window_length_ms: 10,
        ip_address: "10.0.0.1".to_string(),
        current_timestamp: now,
    };
    let mut rows: Vec<IpAddressRateLimit> = Vec::new();
    let mut seen = Vec::new();
    for now in [5, 8, 16, 37] {
        let c = ip_addresses::increment_rate_limit_in(&rows, &params(now)).unwrap();
        seen.push((c.prev_window_count, c.window_count, c.updated_at));
        rows = vec![c];
    }
    assert_eq!(seen, vec![(0, 1, 5), (0, 2, 5), (2, 1, 16), (0, 1, 37)]);
}

#[test]
fn ip_addresses_round_trip() {
    let r = IpAddressRateLimit {
        organization_id: 1,
        ip_address: "::1".to_string(),
        prev_window_count: 2,
        window_count: 3,
        updated_at: 4,
    };
    assert_eq!(IpAddressRateLimit::decode(&stored(r.encode())), Some(r));
}

#[test]
fn action_rate_limits_refuse_actions_not_after_the_window_start() {
    let params = |now: i64| action_rate_limits::IncrementRateLimitParams {
        organization_id: 0,
        people_id: 1,
        action_kind_id: 2,
        window_length_ms: 10,
        current_timestamp: now,
    };
    let first = action_rate_limits::increment_rate_limit_in(&Vec::new(), &params(20)).unwrap();
    assert_eq!((first.prev_window_count, first.window_count, first.updated_at), (0, 1, 20));
    let rows = vec![first];
    assert_eq!(action_rate_limits::increment_rate_limit_in(&rows, &params(20)), None);
    assert_eq!(action_rate_limits::increment_rate_limit_in(&rows, &params(19)), None);
    let second = action_rate_limits::increment_rate_limit_in(&rows, &params(21)).unwrap();
    assert_eq!(second.window_count, 2);
}

#[test]
fn account_requests_token_renews_once_per_window() {
    let params = |token: i64, now: i64| account_requests::IncrementRateLimitParams {
        organization_id: 2,
        token,
        contact_kind_id: 4,
        contact_content: "a@b.c".to_string(),
        window_length_ms: 10,
        current_timestamp: now,
    };
    let first = account_requests::increment_rate_limit_in(&Vec::new(), &params(1, 5)).unwrap();
    assert_eq!(first.token, 1);
    assert_eq!(first.completed_at, None);
    let rows = vec![first.clone()];
    // within the window: unchanged
    assert_eq!(account_requests::increment_rate_limit_in(&rows, &params(2, 15)), Some(first.clone()));
    // not after the last renewal: refused
    assert_eq!(account_requests::increment_rate_limit_in(&rows, &params(2, 5)), None);
    // a window later: new token
    let renewed = account_requests::increment_rate_limit_in(&rows, &params(3, 16)).unwrap();
    assert_eq!((renewed.token, renewed.updated_at), (3, 16));
    // a completed request keeps its token
    let done = vec![AccountRequest { completed_at: Some(6), ..first.clone() }];
    assert_eq!(
        account_requests::increment_rate_limit_in(&done, &params(3, 100)),
        Some(AccountRequest { completed_at: Some(6), ..first })
    );
}

#[test]
fn account_requests_round_trip() {
    let r = AccountRequest {
        organization_id: 1,
        token: 2,
        contact_kind_id: 3,
        contact_content: "x".to_string(),
        updated_at: 4,
        completed_at: None,
    };
    assert_eq!(AccountRequest::decode(&stored(r.encode())), Some(r));
}

fn key(id: i64, organization_id: i64, deleted_at: Option<i64>) -> ApiKey {
    ApiKey {
        id,
        organization_id,
        people_id: 1,
        title: "t".to_string(),
        token: "k".to_string(),
        lifetime: 100,
        created_at: 0,
        deleted_at,
    }
}

#[test]
fn api_keys_created_then_deleted() {
    let created = api_keys::new_api_key(&api_keys::CreateParams {
        id: 3,
        organization_id: 1,
        people_id: 2,
        title: "t".to_string(),
        token: "k".to_string(),
        lifetime: 10,
        created_at: 4,
    });
    let rows = vec![key(1, 1, None), created.clone()];
    assert_eq!(api_keys::read_by_id_in(&rows, 3), Some(created.clone()));
    let gone = api_keys::delete_in(&rows, &api_keys::DeleteParams { id: 3, current_timestamp: 9 }).unwrap();
    let after = vec![key(1, 1, None), gone];
    assert_eq!(api_keys::read_by_id_in(&after, 3), None);
    // deleting twice finds nothing
    assert_eq!(api_keys::delete_in(&after, &api_keys::DeleteParams { id: 3, current_timestamp: 10 }), None);
}

#[test]
fn api_keys_purge_needs_a_whole_window() {
    let rows = vec![key(1, 1, Some(10)), key(2, 1, Some(50)), key(3, 2, Some(10)), key(4, 1, None)];
    let params = api_keys::DangerouslyDeleteParams { organization_id: 1, window_length_ms: 40, current_timestamp: 60 };
    let stale = api_keys::dangerously_delete_in(&rows, &params);
    assert_eq!(stale.iter().map(|k| k.id).collect::<Vec<i64>>(), vec![1]);
}

#[test]
fn api_keys_read_pages() {
    let rows = vec![key(1, 1, None), key(2, 1, Some(3)), key(3, 1, None), key(4, 2, None), key(5, 1, None)];
    let page = api_keys::read_in(&rows, &api_keys::ReadParams { organization_id: 1, offset: 1, limit: 1 });
    assert_eq!(page.iter().map(|k| k.id).collect::<Vec<i64>>(), vec![3]);
}

fn contact(updated_at: Option<i64>) -> Contact {
    Contact {
        id: 0,
        organization_id: 1,
        people_id: 2,
        contact_kind_id: 3,
        content: "a".to_string(),
        updated_at,
        deleted_at: None,
    }
}

#[test]
fn contacts_patch_needs_an_earlier_change() {
    let params = |now: i64| contacts::PatchParams { id: 0, content: "b".to_string(), current_timestamp: now };
    let rows = vec![contact(Some(10))];
    assert_eq!(contacts::patch_in(&rows, &params(10)), None);
    let patched = contacts::patch_in(&rows, &params(11)).unwrap();
    assert_eq!(patched, Contact { content: "b".to_string(), updated_at: Some(11), ..contact(Some(10)) });
    assert_eq!(contacts::read_by_id_in(&vec![patched.clone()], 0), Some(patched));
    // without a recorded change, neither patch nor delete applies
    let unknown = vec![contact(None)];
    assert_eq!(contacts::patch_in(&unknown, &params(11)), None);
    assert_eq!(contacts::delete_in(&unknown, &contacts::DeleteParams { id: 0, current_timestamp: 11 }), None);
}

#[test]
fn contacts_round_trip() {
    let c = contact(Some(5));
    assert_eq!(Contact::decode(&stored(c.encode())), Some(c));
}

fn person() -> Person {
    Person {
        id: 0,
        organization_id: 2,
        internal: true,
        multi_factor_required: true,
        password_hash_results: "h".to_string(),
        updated_at: 5,
        deleted_at: None,
    }
}

#[test]
fn people_patch_and_password() {
    let rows = vec![person()];
    let patched = people::patch_in(
        &rows,
        &people::PatchParams { id: 0, internal: None, multi_factor_required: Some(false), current_timestamp: 10 },
    )
    .unwrap();
    assert_eq!(patched, Person { multi_factor_required: false, updated_at: 10, ..person() });
    let updated = people::update_password_in(
        &rows,
        &people::UpdatePasswordParams { id: 0, password_hash_results: "g".to_string(), current_timestamp: 11 },
    )
    .unwrap();
    assert_eq!(updated, Person { password_hash_results: "g".to_string(), updated_at: 11, ..person() });
    // delete stamps even a deleted person again
    let gone = Person { deleted_at: Some(3), ..person() };
    let again = people::delete_in(&vec![gone], &people::DeleteParams { id: 0, current_timestamp: 20 }).unwrap();
    assert_eq!(again.deleted_at, Some(20));
    assert_eq!(people::read_by_id_in(&vec![again], 0), None);
}

#[test]
fn people_round_trip() {
    let p = person();
    assert_eq!(Person::decode(&stored(p.encode())), Some(p));
    // any non-zero integer reads as true
    let mut cells = stored(person().encode());
    cells[2] = Datum::Integer(7);
    cells[3] = Datum::Integer(0);
    let read = Person::decode(&cells).unwrap();
    assert!(read.internal);
    assert!(!read.multi_factor_required);
}

#[test]
fn organizations_read_by_title_and_patch() {
    let rows = vec![
        Organization { id: 1, title: "a".to_string(), updated_at: 0, deleted_at: Some(2) },
        Organization { id: 2, title: "a".to_string(), updated_at: 0, deleted_at: None },
    ];
    assert_eq!(organizations::read_by_title_in(&rows, "a").map(|o| o.id), Some(2));
    assert_eq!(organizations::read_by_title_in(&rows, "b"), None);
    let renamed = organizations::patch_in(
        &rows,
        &organizations::PatchParams { id: 2, title: "b".to_string(), current_timestamp: 8 },
    )
    .unwrap();
    assert_eq!(renamed, Organization { id: 2, title: "b".to_string(), updated_at: 8, deleted_at: None });
    assert_eq!(organizations::patch_in(&rows, &organizations::PatchParams { id: 1, title: "c".to_string(), current_timestamp: 8 }), None);
}

#[test]
fn number_settings_flags_are_stored_as_integers() {
    let created = number_settings::new_number_settings(&number_settings::CreateParams {
        id: 1,
        organization_id: 2,
        action_kind_id: true,
        number_value: false,
        current_timestamp: 3,
    });
    assert_eq!((created.action_kind_id, created.number_value), (1, 0));
    let patched = number_settings::patch_in(
        &vec![created],
        &number_settings::PatchParams { id: 1, action_kind_id: Some(false), number_value: None, current_timestamp: 4 },
    )
    .unwrap();
    assert_eq!((patched.action_kind_id, patched.number_value, patched.updated_at), (0, 0, 4));
}

#[test]
fn totp_delete_and_read() {
    let created = totp::new_totp(&totp::CreateParams {
        id: 0,
        organization_id: 1,
        people_id: 2,
        secret_key: "s".to_string(),
        algorithm: Some(1),
        period: None,
        digits: Some(6),
    });
    let rows = vec![created.clone()];
    assert_eq!(totp::read_by_id_in(&rows, 0), Some(created.clone()));
    let by_person = totp::read_by_person_in(&rows, &totp::ReadByPersonParams { organization_id: 1, people_id: 2, offset: 0, limit: -1 });
    assert_eq!(by_person, vec![created.clone()]);
    let gone = totp::delete_in(&rows, &totp::DeleteParams { id: 0, current_timestamp: 4 }).unwrap();
    assert_eq!(totp::read_by_id_in(&vec![gone.clone()], 0), None);
    let stale = totp::dangerously_delete_in(
        &vec![gone],
        &totp::DangerouslyDeleteParams { organization_id: 1, window_length_ms: 5, current_timestamp: 10 },
    );
    assert_eq!(stale.len(), 1);
}

#[test]
fn error_message_is_the_custom_text() {
    assert_eq!(SqliteInterfaceError::Custom("boom".to_string()).message(), "boom");
}

#[test]
fn decode_rows_reads_every_row_or_fails() {
    let a = session(1, 10, 2);
    let b = session(2, 20, 5);
    let raw = vec![stored(a.encode()), stored(b.encode())];
    let rows: Vec<Session> = decode_rows(&raw, "bad").unwrap();
    assert_eq!(rows.len(), 2);
    assert_eq!(rows[0], a);
    assert_eq!(rows[1], b);
    let mut broken = stored(b.encode());
    broken[3] = Datum::Text("x".to_string());
    let raw = vec![stored(a.encode()), broken];
    match decode_rows::<Session>(&raw, "bad") {
        Err(SqliteInterfaceError::Custom(m)) => assert_eq!(m, "bad"),
        other => panic!("expected a custom error, got {:?}", other.map(|r| r.len())),
    }
    let empty: Vec<Vec<Datum>> = Vec::new();
    assert_eq!(decode_rows::<Session>(&empty, "bad").unwrap().len(), 0);
}

#[test]
fn rows_are_deleted_by_their_keys() {
    let k = key(9, 3, Some(1));
    match k.key().as_slice() {
        [Param::Integer(9)] => {}
        other => panic!("unexpected key {:?}", other),
    }
    let r = IpAddressRateLimit {
        organization_id: 1,
        ip_address: "::1".to_string(),
        prev_window_count: 2,
        window_count: 3,
        updated_at: 4,
    };
    match r.key().as_slice() {
        [Param::Integer(1), Param::Text(a)] => assert_eq!(a, "::1"),
        other => panic!("unexpected key {:?}", other),
    }
}

#[test]
fn ip_addresses_first_request_inserts_then_updates() {
    let params = |now: i64| ip_addresses::IncrementRateLimitParams {
        organization_id: 0,
        window_length_ms: 10,
        ip_address: "10.0.0.1".to_string(),
        current_timestamp: now,
    };
    let rows: Vec<IpAddressRateLimit> = Vec::new();
    let (sql, first) = ip_addresses::increment_statement(&rows, &params(5)).unwrap();
    assert_eq!(sql, ip_addresses::INSERT);
    assert_eq!((first.prev_window_count, first.window_count, first.updated_at), (0, 1, 5));
    let rows = vec![first];
    let (sql, second) = ip_addresses::increment_statement(&rows, &params(7)).unwrap();
    assert_eq!(sql, ip_addresses::UPDATE);
    assert_eq!((second.prev_window_count, second.window_count, second.updated_at), (0, 2, 5));
}

#[test]
fn action_rate_limits_stale_action_hands_no_statement() {
    let params = |now: i64| action_rate_limits::IncrementRateLimitParams {
        organization_id: 0,
        people_id: 1,
        action_kind_id: 2,
        window_length_ms: 10,
        current_timestamp: now,
    };
    let rows = Vec::new();
    let (sql, first) = action_rate_limits::increment_statement(&rows, &params(5)).unwrap();
    assert_eq!(sql, action_rate_limits::INSERT);
    let rows = vec![first];
    assert!(action_rate_limits::increment_statement(&rows, &params(5)).is_none());
    assert_eq!(action_rate_limits::increment_statement(&rows, &params(6)).unwrap().0, action_rate_limits::UPDATE);
}

#[test]
fn number_settings_password_statement_parameters() {
    let args = number_settings::update_password_args(&number_settings::UpdatePasswordParams {
        id: 4,
        password_hash_results: "h".to_string(),
        current_timestamp: 5,
    });
    match args.as_slice() {
        [Param::Text(h), Param::Integer(5), Param::Integer(4)] => assert_eq!(h, "h"),
        other => panic!("unexpected parameters {:?}", other),
    }
}

#[test]
fn a_refused_insert_is_the_library_error() {
    assert_eq!(ran_insert(Ok(1), "no").unwrap(), 1);
    match ran_insert(Err(rusqlite::Error::InvalidQuery), "no") {
        Err(SqliteInterfaceError::Custom(m)) => assert_eq!(m, "no"),
        other => panic!("expected the library's error, got {:?}", other),
    }
}

#[test]
fn contacts_read_by_person_is_the_persons_part_of_the_read() {
    let mut rows = Vec::new();
    for (id, people_id, organization_id, deleted_at) in
        [(1, 2, 1, None), (2, 5, 1, None), (3, 2, 1, Some(4)), (4, 2, 9, None), (5, 2, 1, None)]
    {
        rows.push(Contact { id, people_id, organization_id, deleted_at, ..contact(None) });
    }
    let all = contacts::read_in(&rows, &contacts::ReadParams { organization_id: 1, offset: 0, limit: -1 });
    let mine = contacts::read_by_person_in(
        &rows,
        &contacts::ReadByPersonParams { organization_id: 1, people_id: 2, offset: 0, limit: -1 },
    );
    let filtered: Vec<Contact> = all.into_iter().filter(|c| c.people_id == 2).collect();
    assert_eq!(mine, filtered);
    assert_eq!(mine.iter().map(|c| c.id).collect::<Vec<_>>(), vec![1, 5]);
}

#[test]
fn account_requests_asking_again_keeps_or_renews() {
    let params = |now: i64, token: i64| account_requests::IncrementRateLimitParams {
        organization_id: 1,
        window_length_ms: 10,
        token,
        contact_kind_id: 2,
        contact_content: "a@b".to_string(),
        current_timestamp: now,
    };
    let rows = vec![account_requests::increment_rate_limit_in(&Vec::new(), &params(5, 100)).unwrap()];
    assert!(account_requests::increment_rate_limit_in(&rows, &params(5, 200)).is_none());
    assert_eq!(account_requests::increment_rate_limit_in(&rows, &params(9, 200)).unwrap().token, 100);
    let renewed = account_requests::increment_rate_limit_in(&rows, &params(16, 200)).unwrap();
    assert_eq!((renewed.token, renewed.updated_at, renewed.organization_id), (200, 16, 1));
}

#[test]
fn a_write_gives_back_its_row_only_when_it_changed_one() {
    assert_eq!(written(0, 7), None);
    assert_eq!(written(2, 7), Some(7));
    assert_eq!(inserted(1, 7, "no").unwrap(), 7);
    match inserted(0, 7, "no") {
        Err(SqliteInterfaceError::Custom(m)) => assert_eq!(m, "no"),
        other => panic!("expected the library's error, got {:?}", other),
    }
}

#[test]
fn statements_of_each_table() {
    assert_eq!(Session::select_all(), "SELECT * FROM sessions");
    assert_eq!(ApiKey::delete_by_key(), "DELETE FROM api_keys WHERE id = ?1");
    assert!(IpAddressRateLimit::definition().starts_with("CREATE TABLE IF NOT EXISTS ip_addresses"));
    assert_eq!(Contact::malformed(), "malformed row in contacts");
    let rows = vec![key(3, 1, None), key(8, 1, Some(2))];
    let ks = keys(&rows);
    assert_eq!(ks.len(), 2);
    match (ks[0].as_slice(), ks[1].as_slice()) {
        ([Param::Integer(3)], [Param::Integer(8)]) => {}
        other => panic!("unexpected keys {:?}", other),
    }
}
