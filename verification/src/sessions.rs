//! The `sessions` table: sessions of people, each with a sliding-window
//! counter of its requests; logging out deletes a session softly.

use vstd::prelude::*;
use crate::errors::SqliteInterfaceError;
use crate::rows::{
    all_ok, all_ok_rows, filter_rows, find_first, first_matching, matching, select_rows, selection,
    Condition, without,
};
use crate::type_flyweight::sessions::Session;
use crate::store::{self, if_written, reads_as, stored_cells, Stored};
use crate::value::{int_of, opt_int, opt_int_of, opt_int_param, read_int, read_opt_int, Datum, Param};
use crate::window::{hit, hit_fits, next_prev_count, next_updated_at, next_window_count};

verus! {

broadcast use vstd::seq_lib::group_seq_properties;

impl Stored for Session {
    open spec fn definition_text() -> Seq<char> {
        "CREATE TABLE IF NOT EXISTS sessions (
            id INTEGER PRIMARY KEY,
            organization_id INTEGER NOT NULL,
            people_id INTEGER NOT NULL,
            token INTEGER NOT NULL,
            prev_window_count INTEGER NOT NULL,
            window_count INTEGER NOT NULL,
            updated_at INTEGER NOT NULL,
            deleted_at INTEGER
        )"@
    }

    fn definition() -> (sql: &'static str) {
        "CREATE TABLE IF NOT EXISTS sessions (
            id INTEGER PRIMARY KEY,
            organization_id INTEGER NOT NULL,
            people_id INTEGER NOT NULL,
            token INTEGER NOT NULL,
            prev_window_count INTEGER NOT NULL,
            window_count INTEGER NOT NULL,
            updated_at INTEGER NOT NULL,
            deleted_at INTEGER
        )"
    }

    open spec fn select_all_text() -> Seq<char> {
        "SELECT * FROM sessions"@
    }

    fn select_all() -> (sql: &'static str) {
        "SELECT * FROM sessions"
    }

    open spec fn delete_by_key_text() -> Seq<char> {
        "DELETE FROM sessions WHERE id = ?1"@
    }

    fn delete_by_key() -> (sql: &'static str) {
        "DELETE FROM sessions WHERE id = ?1"
    }

    open spec fn malformed_text() -> Seq<char> {
        "malformed row in sessions"@
    }

    fn malformed() -> (text: &'static str) {
        "malformed row in sessions"
    }

    open spec fn key_of(row: Session) -> Seq<Param> {
        seq![Param::Integer(row.id)]
    }

    fn key(&self) -> (key: Vec<Param>) {
        let mut key: Vec<Param> = Vec::new();
        key.push(Param::Integer(self.id));
        assert(key@ =~= Self::key_of(*self));
        key
    }

    open spec fn decoded(cells: Seq<Datum>) -> Option<Session> {
        if cells.len() >= 8 && int_of(cells[0]) is Some && int_of(cells[1]) is Some && int_of(cells[2]) is Some
            && int_of(cells[3]) is Some && int_of(cells[4]) is Some && int_of(cells[5]) is Some
            && int_of(cells[6]) is Some && opt_int_of(cells[7]) is Some {
            Some(
                Session {
                    id: int_of(cells[0])->0,
                    organization_id: int_of(cells[1])->0,
                    people_id: int_of(cells[2])->0,
                    token: int_of(cells[3])->0,
                    prev_window_count: int_of(cells[4])->0,
                    window_count: int_of(cells[5])->0,
                    updated_at: int_of(cells[6])->0,
                    deleted_at: opt_int_of(cells[7])->0,
                },
            )
        } else {
            None
        }
    }

    open spec fn cells_of(s: Session) -> Seq<Param> {
        seq![
            Param::Integer(s.id),
            Param::Integer(s.organization_id),
            Param::Integer(s.people_id),
            Param::Integer(s.token),
            Param::Integer(s.prev_window_count),
            Param::Integer(s.window_count),
            Param::Integer(s.updated_at),
            opt_int_param(s.deleted_at),
        ]
    }

    fn decode(cells: &Vec<Datum>) -> (r: Option<Session>) {
        if cells.len() < 8 {
            return None;
        }
        let id = match read_int(&cells[0]) { Some(v) => v, None => return None };
        let organization_id = match read_int(&cells[1]) { Some(v) => v, None => return None };
        let people_id = match read_int(&cells[2]) { Some(v) => v, None => return None };
        let token = match read_int(&cells[3]) { Some(v) => v, None => return None };
        let prev_window_count = match read_int(&cells[4]) { Some(v) => v, None => return None };
        let window_count = match read_int(&cells[5]) { Some(v) => v, None => return None };
        let updated_at = match read_int(&cells[6]) { Some(v) => v, None => return None };
        let deleted_at = match read_opt_int(&cells[7]) { Some(v) => v, None => return None };
        Some(Session { id, organization_id, people_id, token, prev_window_count, window_count, updated_at, deleted_at })
    }

    fn encode(&self) -> (cells: Vec<Param>) {
        let mut cells: Vec<Param> = Vec::new();
        cells.push(Param::Integer(self.id));
        cells.push(Param::Integer(self.organization_id));
        cells.push(Param::Integer(self.people_id));
        cells.push(Param::Integer(self.token));
        cells.push(Param::Integer(self.prev_window_count));
        cells.push(Param::Integer(self.window_count));
        cells.push(Param::Integer(self.updated_at));
        cells.push(opt_int(self.deleted_at));
        assert(cells@ =~= Self::cells_of(*self));
        cells
    }
}

/// A session written and read back, with each value kept as given, reads as
/// itself.
pub proof fn lemma_round_trip(s: Session)
    ensures
        Session::decoded(stored_cells(Session::cells_of(s))) == Some(s),
{
    assert(stored_cells(Session::cells_of(s)).len() == 8);
}

/// An error of a read of this table: SQLite's own, or a row that does not
/// read as a session.
pub open spec fn read_error(e: SqliteInterfaceError) -> bool {
    e is Rusqlite || e.is_custom("malformed row in sessions"@)
}

fn load(conn: &rusqlite::Connection) -> (r: Result<Vec<Session>, SqliteInterfaceError>)
    ensures
        r matches Ok(rows) ==> exists|raw: Seq<Seq<Datum>>| #[trigger] reads_as(raw, rows@),
        r matches Err(e) ==> read_error(e),
{
    store::load(conn)
}

const INSERT: &'static str = "INSERT INTO sessions (id, organization_id, people_id, token, prev_window_count, window_count, updated_at, deleted_at) VALUES (?1, ?2, ?3, ?4, ?5, ?6, ?7, ?8)";

const UPDATE: &'static str = "UPDATE sessions SET organization_id = ?2, people_id = ?3, token = ?4, prev_window_count = ?5, window_count = ?6, updated_at = ?7, deleted_at = ?8 WHERE id = ?1";

pub fn create_table(conn: &mut rusqlite::Connection) -> (r: Result<(), SqliteInterfaceError>)
    ensures
        r matches Err(e) ==> e is Rusqlite,
{
    store::create_table::<Session>(conn)
}

pub struct CreateParams {
    pub session_id: i64,
    pub organization_id: i64,
    pub people_id: i64,
    pub token: i64,
    pub current_timestamp: i64,
}

/// The session that `create` stores: a first window with one request.
pub open spec fn created(params: CreateParams) -> Session {
    Session {
        id: params.session_id,
        organization_id: params.organization_id,
        people_id: params.people_id,
        token: params.token,
        prev_window_count: 0,
        window_count: 1,
        updated_at: params.current_timestamp,
        deleted_at: None,
    }
}

pub fn new_session(params: &CreateParams) -> (s: Session)
    ensures
        s == created(*params),
{
    Session {
        id: params.session_id,
        organization_id: params.organization_id,
        people_id: params.people_id,
        token: params.token,
        prev_window_count: 0,
        window_count: 1,
        updated_at: params.current_timestamp,
        deleted_at: None,
    }
}

/// Stores a new session; it fails where the database refuses the row (an id
/// that is taken, or no table).
pub fn create(conn: &mut rusqlite::Connection, params: &CreateParams) -> (r: Result<Session, SqliteInterfaceError>)
    ensures
        r matches Ok(s) ==> s == created(*params),
        r matches Err(e) ==> e is Rusqlite || e.is_custom("failed to create session"@),
{
    let s = new_session(params);
    let n = store::insert(conn, INSERT, &s, "failed to create session")?;
    store::inserted(n, s, "failed to create session")
}

pub struct ReadParams {
    pub organization_id: i64,
    pub window_length_ms: i64,
    pub current_timestamp: i64,
    pub offset: i64,
    pub limit: i64,
}

/// A session of the organization whose current window started before now and
/// less than two windows ago.
impl Condition<Session> for ReadParams {
    open spec fn holds(&self, s: Session) -> bool {
        &&& s.organization_id == self.organization_id
        &&& s.updated_at < self.current_timestamp
        &&& self.current_timestamp - s.updated_at < 2 * self.window_length_ms
    }

    fn check(&self, s: &Session) -> (b: bool) {
        s.organization_id == self.organization_id && s.updated_at < self.current_timestamp
            && (self.current_timestamp as i128 - s.updated_at as i128) < 2 * (self.window_length_ms as i128)
    }
}

/// The page of recent sessions of the organization that `rows` hold.
pub fn read_in(rows: &Vec<Session>, params: &ReadParams) -> (page: Vec<Session>)
    ensures
        page@ == selection(rows@, *params, params.offset, params.limit),
{
    select_rows(rows, params, params.offset, params.limit)
}

pub fn read(conn: &mut rusqlite::Connection, params: &ReadParams) -> (r: Result<Vec<Result<Session, SqliteInterfaceError>>, SqliteInterfaceError>)
    ensures
        r matches Ok(page) ==> exists|rows: Seq<Session>| all_ok(page@, #[trigger] selection(rows, *params, params.offset, params.limit)),
        r matches Ok(page) ==> forall|i: int| 0 <= i < page@.len() ==> (#[trigger] page@[i] matches Ok(row) && params.holds(row)),
        r matches Ok(page) ==> (0 <= params.limit ==> page@.len() <= params.limit),
        r matches Err(e) ==> read_error(e),
{
    let rows = load(conn)?;
    let page = read_in(&rows, params);
    let out = all_ok_rows(&page);
    proof {
        assert(all_ok(out@, selection(rows@, *params, params.offset, params.limit)));
        crate::rows::lemma_selection(rows@, *params, params.offset, params.limit);
    }
    Ok(out)
}

pub struct ReadByPersonParams {
    pub organization_id: i64,
    pub people_id: i64,
    pub window_length_ms: i64,
    pub current_timestamp: i64,
    pub offset: i64,
    pub limit: i64,
}

/// A session of the person whose current window started before now and less
/// than two windows ago.
impl Condition<Session> for ReadByPersonParams {
    open spec fn holds(&self, s: Session) -> bool {
        &&& s.organization_id == self.organization_id
        &&& s.people_id == self.people_id
        &&& s.updated_at < self.current_timestamp
        &&& self.current_timestamp - s.updated_at < 2 * self.window_length_ms
    }

    fn check(&self, s: &Session) -> (b: bool) {
        s.organization_id == self.organization_id && s.people_id == self.people_id
            && s.updated_at < self.current_timestamp
            && (self.current_timestamp as i128 - s.updated_at as i128) < 2 * (self.window_length_ms as i128)
    }
}

/// The page of recent sessions of the person that `rows` hold.
pub fn read_by_person_in(rows: &Vec<Session>, params: &ReadByPersonParams) -> (page: Vec<Session>)
    ensures
        page@ == selection(rows@, *params, params.offset, params.limit),
{
    select_rows(rows, params, params.offset, params.limit)
}

pub fn read_by_person(conn: &mut rusqlite::Connection, params: &ReadByPersonParams) -> (r: Result<Vec<Result<Session, SqliteInterfaceError>>, SqliteInterfaceError>)
    ensures
        r matches Ok(page) ==> exists|rows: Seq<Session>| all_ok(page@, #[trigger] selection(rows, *params, params.offset, params.limit)),
        r matches Ok(page) ==> forall|i: int| 0 <= i < page@.len() ==> (#[trigger] page@[i] matches Ok(row) && params.holds(row)),
        r matches Ok(page) ==> (0 <= params.limit ==> page@.len() <= params.limit),
        r matches Err(e) ==> read_error(e),
{
    let rows = load(conn)?;
    let page = read_by_person_in(&rows, params);
    let out = all_ok_rows(&page);
    proof {
        assert(all_ok(out@, selection(rows@, *params, params.offset, params.limit)));
        crate::rows::lemma_selection(rows@, *params, params.offset, params.limit);
    }
    Ok(out)
}

pub struct IncrementRateLimitParams {
    pub window_length_ms: i64,
    pub session_id: i64,
    pub current_timestamp: i64,
}

/// The session with that id, unless it was deleted.
impl Condition<Session> for IncrementRateLimitParams {
    open spec fn holds(&self, s: Session) -> bool {
        s.id == self.session_id && s.deleted_at is None
    }

    fn check(&self, s: &Session) -> (b: bool) {
        s.id == self.session_id && s.deleted_at.is_none()
    }
}

/// The session after one more request at `now`, or `None` when its count
/// cannot grow any further.
pub open spec fn hit_session(s: Session, now: i64, window: i64) -> Option<Session> {
    if hit_fits(s.window_count, s.updated_at, now, window) {
        Some(
            Session {
                prev_window_count: next_prev_count(s.prev_window_count, s.window_count, s.updated_at, now, window) as i64,
                window_count: next_window_count(s.window_count, s.updated_at, now, window) as i64,
                updated_at: next_updated_at(s.updated_at, now, window) as i64,
                ..s
            },
        )
    } else {
        None
    }
}

/// What `increment_rate_limit` stores and returns, given the rows of the table.
pub open spec fn incremented(rows: Seq<Session>, params: IncrementRateLimitParams) -> Option<Session> {
    match first_matching(rows, params) {
        Some(s) => hit_session(s, params.current_timestamp, params.window_length_ms),
        None => None,
    }
}

/// The live session with that id after one more request, as `rows` hold it.
pub fn increment_rate_limit_in(rows: &Vec<Session>, params: &IncrementRateLimitParams) -> (r: Option<Session>)
    ensures
        r == incremented(rows@, *params),
{
    match find_first(rows, params) {
        None => None,
        Some(s) => match hit(s.prev_window_count, s.window_count, s.updated_at, params.current_timestamp, params.window_length_ms) {
            Some((prev_window_count, window_count, updated_at)) => Some(Session { prev_window_count, window_count, updated_at, ..s }),
            None => None,
        },
    }
}

/// Counts one more request of the session; `None` when no live session has
/// that id.
pub fn increment_rate_limit(conn: &mut rusqlite::Connection, params: &IncrementRateLimitParams) -> (r: Result<Option<Session>, SqliteInterfaceError>)
    ensures
        r matches Ok(Some(s)) ==> exists|rows: Seq<Session>| #[trigger] incremented(rows, *params) == Some(s),
        r matches Ok(found) ==> exists|rows: Seq<Session>, n: int| #[trigger] if_written(n, incremented(rows, *params)) == found,
        r matches Err(e) ==> read_error(e),
{
    store::begin(conn)?;
    let r = increment_rate_limit_within(conn, params);
    store::finish(conn, r)
}

/// `increment_rate_limit` inside the savepoint that `increment_rate_limit` opens.
fn increment_rate_limit_within(conn: &mut rusqlite::Connection, params: &IncrementRateLimitParams) -> (r: Result<Option<Session>, SqliteInterfaceError>)
    ensures
        r matches Ok(Some(s)) ==> exists|rows: Seq<Session>| #[trigger] incremented(rows, *params) == Some(s),
        r matches Ok(found) ==> exists|rows: Seq<Session>, n: int| #[trigger] if_written(n, incremented(rows, *params)) == found,
        r matches Err(e) ==> read_error(e),
{
    let rows = load(conn)?;
    match increment_rate_limit_in(&rows, params) {
        None => {
            proof {
                assert(if_written(0, incremented(rows@, *params)) == None::<Session>);
            }
            Ok(None)
        },
        Some(s) => {
            let n = store::write(conn, UPDATE, &s)?;
            Ok(store::written(n, s))
        },
    }
}

pub struct DeleteParams {
    pub session_id: i64,
    pub current_timestamp: i64,
}

/// The session with that id, unless it was deleted.
impl Condition<Session> for DeleteParams {
    open spec fn holds(&self, s: Session) -> bool {
        s.id == self.session_id && s.deleted_at is None
    }

    fn check(&self, s: &Session) -> (b: bool) {
        s.id == self.session_id && s.deleted_at.is_none()
    }
}

/// What `delete` stores and returns, given the rows of the table.
pub open spec fn deleted(rows: Seq<Session>, params: DeleteParams) -> Option<Session> {
    match first_matching(rows, params) {
        Some(s) => Some(Session { deleted_at: Some(params.current_timestamp), ..s }),
        None => None,
    }
}

/// The live session with that id, marked deleted at `now`, as `rows` hold it.
pub fn delete_in(rows: &Vec<Session>, params: &DeleteParams) -> (r: Option<Session>)
    ensures
        r == deleted(rows@, *params),
{
    match find_first(rows, params) {
        None => None,
        Some(s) => Some(Session { deleted_at: Some(params.current_timestamp), ..s }),
    }
}

/// Deletes a live session softly (logging out); it fails when no live session
/// has that id.
pub fn delete(conn: &mut rusqlite::Connection, params: &DeleteParams) -> (r: Result<Session, SqliteInterfaceError>)
    ensures
        r matches Ok(s) ==> exists|rows: Seq<Session>| #[trigger] deleted(rows, *params) == Some(s),
        r matches Err(e) ==> read_error(e) || (e.is_custom("failed to rate-limit session"@) && exists|rows: Seq<Session>, n: int| #[trigger] if_written(n, deleted(rows, *params)) is None),
{
    store::begin(conn)?;
    let r = delete_within(conn, params);
    store::finish(conn, r)
}

/// `delete` inside the savepoint that `delete` opens.
fn delete_within(conn: &mut rusqlite::Connection, params: &DeleteParams) -> (r: Result<Session, SqliteInterfaceError>)
    ensures
        r matches Ok(s) ==> exists|rows: Seq<Session>| #[trigger] deleted(rows, *params) == Some(s),
        r matches Err(e) ==> read_error(e) || (e.is_custom("failed to rate-limit session"@) && exists|rows: Seq<Session>, n: int| #[trigger] if_written(n, deleted(rows, *params)) is None),
{
    let rows = load(conn)?;
    match delete_in(&rows, params) {
        Some(s) => {
            let n = store::write(conn, UPDATE, &s)?;
            match store::written(n, s) {
                Some(s) => return Ok(s),
                None => {},
            }
        },
        None => {
            proof {
                assert(if_written(0, deleted(rows@, *params)) is None);
            }
        },
    }
    Err(SqliteInterfaceError::Custom("failed to rate-limit session".to_string()))
}

pub struct DangerouslyDeleteParams {
    pub organization_id: i64,
    pub window_length_ms: i64,
    pub current_timestamp: i64,
}

/// A session of the organization whose current window started more than two
/// windows ago.
impl Condition<Session> for DangerouslyDeleteParams {
    open spec fn holds(&self, s: Session) -> bool {
        s.organization_id == self.organization_id && 2 * self.window_length_ms < self.current_timestamp - s.updated_at
    }

    fn check(&self, s: &Session) -> (b: bool) {
        s.organization_id == self.organization_id
            && 2 * (self.window_length_ms as i128) < self.current_timestamp as i128 - s.updated_at as i128
    }
}

/// The sessions of `rows` that `dangerously_delete` removes.
pub fn dangerously_delete_in(rows: &Vec<Session>, params: &DangerouslyDeleteParams) -> (stale: Vec<Session>)
    ensures
        stale@ == matching(rows@, *params),
{
    filter_rows(rows, params)
}

/// Removes for good the sessions of the organization that have been idle for
/// more than two windows.
pub fn dangerously_delete(conn: &mut rusqlite::Connection, params: &DangerouslyDeleteParams) -> (r: Result<(), SqliteInterfaceError>)
    ensures
        r matches Err(e) ==> read_error(e),
{
    store::begin(conn)?;
    let r = dangerously_delete_within(conn, params);
    store::finish(conn, r)
}

/// `dangerously_delete` inside the savepoint that `dangerously_delete` opens.
fn dangerously_delete_within(conn: &mut rusqlite::Connection, params: &DangerouslyDeleteParams) -> (r: Result<(), SqliteInterfaceError>)
    ensures
        r matches Err(e) ==> read_error(e),
{
    let rows = load(conn)?;
    let stale = dangerously_delete_in(&rows, params);
    store::delete_each(conn, &stale)
}

/// The table after a row is rewritten in place: every row with its id
/// becomes `s`.
pub open spec fn with_row(rows: Seq<Session>, s: Session) -> Seq<Session> {
    rows.map_values(|r: Session| if r.id == s.id { s } else { r })
}

/// A session that was logged out can no longer be counted: after `delete`
/// rewrites it, `increment_rate_limit` finds no live session with its id.
pub proof fn lemma_deleted_session_is_not_counted(rows: Seq<Session>, d: DeleteParams, i: IncrementRateLimitParams)
    requires
        deleted(rows, d) is Some,
        i.session_id == d.session_id,
    ensures
        incremented(with_row(rows, deleted(rows, d)->0), i) == None::<Session>,
{
    let s = deleted(rows, d)->0;
    let after = with_row(rows, s);
    let m = matching(rows, d);
    broadcast use vstd::seq_lib::group_filter_ensures;
    assert(d.holds(m[0]));
    assert forall|k: int| 0 <= k < after.len() implies !i.holds(#[trigger] after[k]) by {}
    crate::rows::lemma_none_matching(after, i);
}

/// A session just created is counted in place: one more request within its
/// first window brings its count to two.
pub proof fn lemma_created_session_counts(rows: Seq<Session>, c: CreateParams, i: IncrementRateLimitParams)
    requires
        forall|k: int| 0 <= k < rows.len() ==> (#[trigger] rows[k]).id != c.session_id,
        i.session_id == c.session_id,
        0 <= i.window_length_ms,
        c.current_timestamp <= i.current_timestamp <= c.current_timestamp + i.window_length_ms,
    ensures
        incremented(rows.push(created(c)), i) == Some(Session { window_count: 2, ..created(c) }),
{
    crate::rows::lemma_first_matching_push(rows, i, created(c));
}

/// `dangerously_delete` leaves no session of the organization idle for more
/// than two windows, and keeps every other session.
pub proof fn lemma_dangerously_delete_keeps_the_rest(rows: Seq<Session>, p: DangerouslyDeleteParams)
    ensures
        forall|k: int| 0 <= k < without(rows, p).len() ==> !p.holds(#[trigger] without(rows, p)[k]),
        forall|k: int| 0 <= k < rows.len() && !p.holds(rows[k]) ==> without(rows, p).contains(#[trigger] rows[k]),
{
    crate::rows::lemma_without(rows, p);
}

/// Rows that belong to one person.
pub open spec fn of_person(people_id: i64) -> spec_fn(Session) -> bool {
    |r: Session| r.people_id == people_id
}

/// Reading by person gives, in their order, the sessions of the organization's
/// read that belong to the person, when neither read has an offset or a
/// limit.
pub proof fn lemma_read_by_person_within_read(rows: Seq<Session>, q: ReadByPersonParams, p: ReadParams)
    requires
        q.organization_id == p.organization_id,
        q.window_length_ms == p.window_length_ms,
        q.current_timestamp == p.current_timestamp,
        q.offset == 0,
        p.offset == 0,
        q.limit < 0,
        p.limit < 0,
    ensures
        selection(rows, q, q.offset, q.limit) == selection(rows, p, p.offset, p.limit).filter(of_person(q.people_id)),
{
    crate::rows::lemma_matching_refined(rows, p, q, of_person(q.people_id));
    crate::rows::lemma_selection_unbounded(rows, q, q.limit);
    crate::rows::lemma_selection_unbounded(rows, p, p.limit);
}

/// A request is counted on the live session with that id only: the session
/// stored has that id, is not deleted, and has the organization, person and
/// token of a live session of the table with that id; when the table holds
/// no live session with that id, nothing is counted.
pub proof fn lemma_increment_counts_its_own_session(rows: Seq<Session>, p: IncrementRateLimitParams)
    ensures
        incremented(rows, p) matches Some(x) ==> x.id == p.session_id && x.deleted_at is None && exists|r: Session|
            #[trigger] rows.contains(r) && r.id == p.session_id && r.deleted_at is None && x.organization_id == r.organization_id && x.people_id == r.people_id
            && x.token == r.token,
        (forall|r: Session| #[trigger] rows.contains(r) ==> !(r.id == p.session_id && r.deleted_at is None)) ==> incremented(rows, p) is None,
{
    crate::rows::lemma_first_matching_members(rows, p);
}

/// A read gives sessions of the table that belong to the organization and whose window started before now and less than two windows ago; unpaged, it gives every such session.
pub proof fn lemma_read_is_the_recent_sessions(rows: Seq<Session>, p: ReadParams)
    ensures
        forall|x: Session| #[trigger] crate::rows::selection(rows, p, p.offset, p.limit).contains(x) ==> rows.contains(x) && (x.organization_id == p.organization_id && x.updated_at < p.current_timestamp && p.current_timestamp - x.updated_at < 2 * p.window_length_ms),
        p.offset <= 0 && p.limit < 0 ==> forall|x: Session|
            #[trigger] crate::rows::selection(rows, p, p.offset, p.limit).contains(x) <==> rows.contains(x) && (x.organization_id == p.organization_id && x.updated_at < p.current_timestamp && p.current_timestamp - x.updated_at < 2 * p.window_length_ms),
{
    crate::rows::lemma_selection_members(rows, p, p.offset, p.limit);
}

/// A read by person gives sessions of the table that belong to the organization and the person and whose window started before now and less than two windows ago; unpaged, it gives every such session.
pub proof fn lemma_read_by_person_is_the_persons_recent_sessions(rows: Seq<Session>, p: ReadByPersonParams)
    ensures
        forall|x: Session| #[trigger] crate::rows::selection(rows, p, p.offset, p.limit).contains(x) ==> rows.contains(x) && (x.organization_id == p.organization_id && x.people_id == p.people_id && x.updated_at < p.current_timestamp && p.current_timestamp - x.updated_at < 2 * p.window_length_ms),
        p.offset <= 0 && p.limit < 0 ==> forall|x: Session|
            #[trigger] crate::rows::selection(rows, p, p.offset, p.limit).contains(x) <==> rows.contains(x) && (x.organization_id == p.organization_id && x.people_id == p.people_id && x.updated_at < p.current_timestamp && p.current_timestamp - x.updated_at < 2 * p.window_length_ms),
{
    crate::rows::lemma_selection_members(rows, p, p.offset, p.limit);
}

/// `delete` marks deleted, at the given time, a live session of the table with that id, and changes nothing else of it; it marks none only when there is no live session with that id.
pub proof fn lemma_delete_marks_the_live_session(rows: Seq<Session>, p: DeleteParams)
    ensures
        deleted(rows, p) matches Some(x) ==> exists|r: Session| #[trigger] rows.contains(r) && (r.id == p.session_id && r.deleted_at is None) && x == (Session { deleted_at: Some(p.current_timestamp), ..r }),
        deleted(rows, p) is None ==> forall|r: Session| #[trigger] rows.contains(r) ==> !(r.id == p.session_id && r.deleted_at is None),
{
    crate::rows::lemma_first_matching_members(rows, p);
}

/// `dangerously_delete` picks exactly the sessions of the organization idle for more than two windows.
pub proof fn lemma_dangerously_delete_picks_the_idle_sessions(rows: Seq<Session>, p: DangerouslyDeleteParams)
    ensures
        forall|x: Session| #[trigger] crate::rows::matching(rows, p).contains(x) <==> rows.contains(x) && (x.organization_id == p.organization_id && 2 * p.window_length_ms < p.current_timestamp - x.updated_at),
{
    crate::rows::lemma_matching_members(rows, p);
}

/// `create` stores a session with the given values, not deleted. It starts a first window, now, with one request.
pub proof fn lemma_create_stores_the_given_values(c: CreateParams)
    ensures
        ({
            let k = created(c);
            c.session_id == k.id && c.organization_id == k.organization_id && c.people_id == k.people_id && c.token == k.token && k.prev_window_count == 0 && k.window_count == 1 && k.updated_at == c.current_timestamp && k.deleted_at is None
        }),
{
}

/// The parameters that delete a row pick it out by the table's key: two rows
/// get the same ones exactly when their key columns agree.
pub proof fn lemma_key_is_the_primary_key(a: Session, b: Session)
    ensures
        Session::key_of(a) == Session::key_of(b) <==> (a.id == b.id),
{
    if Session::key_of(a) == Session::key_of(b) {
        assert(Session::key_of(a)[0] == Session::key_of(b)[0]);
    }
    if a.id == b.id {
        assert(Session::key_of(a) =~= Session::key_of(b));
    }
}

} // verus!
