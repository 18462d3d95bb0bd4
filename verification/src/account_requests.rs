//! The `account_requests` table: one pending request to open an account per
//! contact, whose token is renewed at most once per window.

use vstd::prelude::*;
use crate::errors::SqliteInterfaceError;
use crate::rows::{
    all_ok, all_ok_rows, filter_rows, find_first, first_matching, lemma_appended_first,
    lemma_rewritten_first, lemma_same_condition, lemma_without, matching, rewritten, select_rows,
    selection, without, Condition,
};
use crate::store::{self, if_written, reads_as, stored_cells, Stored};
use crate::type_flyweight::account_requests::AccountRequest;
use crate::value::{
    int_of, opt_int, opt_int_of, opt_int_param, read_int, read_opt_int, read_text, text, text_of, Datum,
    Param,
};

verus! {

broadcast use vstd::seq_lib::group_seq_properties;

impl Stored for AccountRequest {
    open spec fn definition_text() -> Seq<char> {
        "CREATE TABLE IF NOT EXISTS account_requests (
            organization_id INTEGER NOT NULL,
            token INTEGER NOT NULL,
            contact_kind_id INTEGER NOT NULL,
            contact_content TEXT NOT NULL,
            updated_at INTEGER NOT NULL,
            completed_at INTEGER,
            PRIMARY KEY (contact_kind_id, contact_content)
        )"@
    }

    fn definition() -> (sql: &'static str) {
        "CREATE TABLE IF NOT EXISTS account_requests (
            organization_id INTEGER NOT NULL,
            token INTEGER NOT NULL,
            contact_kind_id INTEGER NOT NULL,
            contact_content TEXT NOT NULL,
            updated_at INTEGER NOT NULL,
            completed_at INTEGER,
            PRIMARY KEY (contact_kind_id, contact_content)
        )"
    }

    open spec fn select_all_text() -> Seq<char> {
        "SELECT * FROM account_requests"@
    }

    fn select_all() -> (sql: &'static str) {
        "SELECT * FROM account_requests"
    }

    open spec fn delete_by_key_text() -> Seq<char> {
        "DELETE FROM account_requests WHERE contact_kind_id = ?1 AND contact_content = ?2"@
    }

    fn delete_by_key() -> (sql: &'static str) {
        "DELETE FROM account_requests WHERE contact_kind_id = ?1 AND contact_content = ?2"
    }

    open spec fn malformed_text() -> Seq<char> {
        "malformed row in account_requests"@
    }

    fn malformed() -> (text: &'static str) {
        "malformed row in account_requests"
    }

    open spec fn key_of(row: AccountRequest) -> Seq<Param> {
        seq![Param::Integer(row.contact_kind_id), Param::Text(row.contact_content)]
    }

    fn key(&self) -> (key: Vec<Param>) {
        let mut key: Vec<Param> = Vec::new();
        key.push(Param::Integer(self.contact_kind_id));
        key.push(text(&self.contact_content));
        assert(key@ =~= Self::key_of(*self));
        key
    }

    open spec fn decoded(cells: Seq<Datum>) -> Option<AccountRequest> {
        if cells.len() >= 6 && int_of(cells[0]) is Some && int_of(cells[1]) is Some && int_of(cells[2]) is Some
            && text_of(cells[3]) is Some && int_of(cells[4]) is Some && opt_int_of(cells[5]) is Some {
            Some(
                AccountRequest {
                    organization_id: int_of(cells[0])->0,
                    token: int_of(cells[1])->0,
                    contact_kind_id: int_of(cells[2])->0,
                    contact_content: text_of(cells[3])->0,
                    updated_at: int_of(cells[4])->0,
                    completed_at: opt_int_of(cells[5])->0,
                },
            )
        } else {
            None
        }
    }

    open spec fn cells_of(r: AccountRequest) -> Seq<Param> {
        seq![
            Param::Integer(r.organization_id),
            Param::Integer(r.token),
            Param::Integer(r.contact_kind_id),
            Param::Text(r.contact_content),
            Param::Integer(r.updated_at),
            opt_int_param(r.completed_at),
        ]
    }

    fn decode(cells: &Vec<Datum>) -> (r: Option<AccountRequest>) {
        if cells.len() < 6 {
            return None;
        }
        let organization_id = match read_int(&cells[0]) { Some(v) => v, None => return None };
        let token = match read_int(&cells[1]) { Some(v) => v, None => return None };
        let contact_kind_id = match read_int(&cells[2]) { Some(v) => v, None => return None };
        let contact_content = match read_text(&cells[3]) { Some(v) => v, None => return None };
        let updated_at = match read_int(&cells[4]) { Some(v) => v, None => return None };
        let completed_at = match read_opt_int(&cells[5]) { Some(v) => v, None => return None };
        Some(AccountRequest { organization_id, token, contact_kind_id, contact_content, updated_at, completed_at })
    }

    fn encode(&self) -> (cells: Vec<Param>) {
        let mut cells: Vec<Param> = Vec::new();
        cells.push(Param::Integer(self.organization_id));
        cells.push(Param::Integer(self.token));
        cells.push(Param::Integer(self.contact_kind_id));
        cells.push(text(&self.contact_content));
        cells.push(Param::Integer(self.updated_at));
        cells.push(opt_int(self.completed_at));
        assert(cells@ =~= Self::cells_of(*self));
        cells
    }
}

/// A request written and read back, with each value kept as given, reads as
/// itself.
pub proof fn lemma_round_trip(r: AccountRequest)
    ensures
        AccountRequest::decoded(stored_cells(AccountRequest::cells_of(r))) == Some(r),
{
    assert(stored_cells(AccountRequest::cells_of(r)).len() == 6);
}

/// An error of a read of this table: SQLite's own, or a row that does not
/// read as an account request.
pub open spec fn read_error(e: SqliteInterfaceError) -> bool {
    e is Rusqlite || e.is_custom("malformed row in account_requests"@)
}

fn load(conn: &rusqlite::Connection) -> (r: Result<Vec<AccountRequest>, SqliteInterfaceError>)
    ensures
        r matches Ok(rows) ==> exists|raw: Seq<Seq<Datum>>| #[trigger] reads_as(raw, rows@),
        r matches Err(e) ==> read_error(e),
{
    store::load(conn)
}

pub const INSERT: &'static str = "INSERT INTO account_requests (organization_id, token, contact_kind_id, contact_content, updated_at, completed_at) VALUES (?1, ?2, ?3, ?4, ?5, ?6)";

pub const UPDATE: &'static str = "UPDATE account_requests SET organization_id = ?1, token = ?2, updated_at = ?5, completed_at = ?6 WHERE contact_kind_id = ?3 AND contact_content = ?4";

pub fn create_table(conn: &mut rusqlite::Connection) -> (r: Result<(), SqliteInterfaceError>)
    ensures
        r matches Err(e) ==> e is Rusqlite,
{
    store::create_table::<AccountRequest>(conn)
}

pub struct ReadParams {
    pub organization_id: i64,
    pub window_length_ms: i64,
    pub current_timestamp: i64,
    pub offset: i64,
    pub limit: i64,
}

/// A request of the organization renewed before now and within the last
/// window.
impl Condition<AccountRequest> for ReadParams {
    open spec fn holds(&self, r: AccountRequest) -> bool {
        &&& r.organization_id == self.organization_id
        &&& r.updated_at < self.current_timestamp
        &&& self.current_timestamp - r.updated_at < self.window_length_ms
    }

    fn check(&self, r: &AccountRequest) -> (b: bool) {
        r.organization_id == self.organization_id && r.updated_at < self.current_timestamp
            && (self.current_timestamp as i128 - r.updated_at as i128) < self.window_length_ms as i128
    }
}

/// The page of the organization's requests of the last window that `rows`
/// hold.
pub fn read_in(rows: &Vec<AccountRequest>, params: &ReadParams) -> (page: Vec<AccountRequest>)
    ensures
        page@ == selection(rows@, *params, params.offset, params.limit),
{
    select_rows(rows, params, params.offset, params.limit)
}

pub fn read(conn: &mut rusqlite::Connection, params: &ReadParams) -> (r: Result<Vec<Result<AccountRequest, SqliteInterfaceError>>, SqliteInterfaceError>)
    ensures
        r matches Ok(page) ==> exists|rows: Seq<AccountRequest>| all_ok(page@, #[trigger] selection(rows, *params, params.offset, params.limit)),
        r matches Ok(page) ==> forall|i: int| 0 <= i < page@.len() ==> (#[trigger] page@[i] matches Ok(row) && params.holds(row)),
        r matches Ok(page) ==> (0 <= params.limit ==> page@.len() <= params.limit),
        r matches Err(e) ==> read_error(e),
{
    let rows = load(conn)?;
    let page = read_in(&rows, params);
    let out = all_ok_rows(&page);
    proof {
        assert(all_ok(out@, selection(rows@, *params, params.offset, params.limit)));
        crate::rows::lemma_selection(rows@, *params, params.offset, params.limit);
    }
    Ok(out)
}

pub struct IncrementRateLimitParams {
    pub organization_id: i64,
    pub token: i64,
    pub contact_kind_id: i64,
    pub contact_content: String,
    pub window_length_ms: i64,
    pub current_timestamp: i64,
}

/// The request of that contact.
impl Condition<AccountRequest> for IncrementRateLimitParams {
    open spec fn holds(&self, r: AccountRequest) -> bool {
        r.contact_kind_id == self.contact_kind_id && r.contact_content@ == self.contact_content@
    }

    fn check(&self, r: &AccountRequest) -> (b: bool) {
        r.contact_kind_id == self.contact_kind_id && r.contact_content == self.contact_content
    }
}

/// The request that a contact's first request opens.
pub open spec fn fresh(params: IncrementRateLimitParams) -> AccountRequest {
    AccountRequest {
        organization_id: params.organization_id,
        token: params.token,
        contact_kind_id: params.contact_kind_id,
        contact_content: params.contact_content,
        updated_at: params.current_timestamp,
        completed_at: None,
    }
}

/// A stored request takes the new token, and `now` as its time, when it is
/// not completed and more than a window has passed since it was renewed.
pub open spec fn renews(r: AccountRequest, params: IncrementRateLimitParams) -> bool {
    &&& r.completed_at is None
    &&& r.updated_at < params.current_timestamp
    &&& params.window_length_ms < params.current_timestamp - r.updated_at
}

/// What `increment_rate_limit` stores and returns, given the rows of the
/// table: a stored request is only rewritten when it is older than `now`.
pub open spec fn incremented(rows: Seq<AccountRequest>, params: IncrementRateLimitParams) -> Option<AccountRequest> {
    match first_matching(rows, params) {
        Some(r) => if r.updated_at < params.current_timestamp {
            if renews(r, params) {
                Some(AccountRequest { token: params.token, updated_at: params.current_timestamp, ..r })
            } else {
                Some(r)
            }
        } else {
            None
        },
        None => Some(fresh(params)),
    }
}

/// The table after `increment_rate_limit` stored `r`: a new row, or the
/// contact's row rewritten.
pub open spec fn after_increment(rows: Seq<AccountRequest>, params: IncrementRateLimitParams, r: AccountRequest) -> Seq<AccountRequest> {
    if first_matching(rows, params) is Some {
        rewritten(rows, params, r)
    } else {
        rows.push(r)
    }
}

/// The contact's request after one more request, as `rows` hold it.
pub fn increment_rate_limit_in(rows: &Vec<AccountRequest>, params: &IncrementRateLimitParams) -> (r: Option<AccountRequest>)
    ensures
        r == incremented(rows@, *params),
{
    match find_first(rows, params) {
        None => Some(
            AccountRequest {
                organization_id: params.organization_id,
                token: params.token,
                contact_kind_id: params.contact_kind_id,
                contact_content: params.contact_content.clone(),
                updated_at: params.current_timestamp,
                completed_at: None,
            },
        ),
        Some(r) => {
            if r.updated_at < params.current_timestamp {
                let renew = r.completed_at.is_none()
                    && (params.window_length_ms as i128) < params.current_timestamp as i128 - r.updated_at as i128;
                if renew {
                    Some(AccountRequest { token: params.token, updated_at: params.current_timestamp, ..r })
                } else {
                    Some(r)
                }
            } else {
                None
            }
        },
    }
}

/// The statement that stores the request after one more request, and the row
/// whose columns are its parameters: an `UPDATE` of the row with that key when
/// `rows` hold one, else an `INSERT`; `None` when nothing is to be stored.
pub fn increment_statement(rows: &Vec<AccountRequest>, params: &IncrementRateLimitParams) -> (s: Option<(&'static str, AccountRequest)>)
    ensures
        match s {
            Some((sql, row)) => {
                &&& incremented(rows@, *params) == Some(row)
                &&& sql@ == (if first_matching(rows@, *params) is Some { UPDATE@ } else { INSERT@ })
            },
            None => incremented(rows@, *params) is None,
        },
{
    let known = find_first(rows, params).is_some();
    match increment_rate_limit_in(rows, params) {
        Some(row) => {
            if known {
                Some((UPDATE, row))
            } else {
                Some((INSERT, row))
            }
        },
        None => None,
    }
}

/// Records a request to open an account for the contact: a new request, a
/// renewed token once a window has passed, or the request unchanged; it
/// fails when the stored request is not older than `now`.
pub fn increment_rate_limit(conn: &mut rusqlite::Connection, params: &IncrementRateLimitParams) -> (r: Result<AccountRequest, SqliteInterfaceError>)
    ensures
        r matches Ok(a) ==> exists|rows: Seq<AccountRequest>| #[trigger] incremented(rows, *params) == Some(a),
        r matches Err(e) ==> read_error(e) || (e.is_custom("failed to rate-limit account_requests"@) && exists|rows: Seq<AccountRequest>, n: int| #[trigger] if_written(n, incremented(rows, *params)) is None),
{
    store::begin(conn)?;
    let r = increment_rate_limit_within(conn, params);
    store::finish(conn, r)
}

/// `increment_rate_limit` inside the savepoint that `increment_rate_limit` opens.
fn increment_rate_limit_within(conn: &mut rusqlite::Connection, params: &IncrementRateLimitParams) -> (r: Result<AccountRequest, SqliteInterfaceError>)
    ensures
        r matches Ok(a) ==> exists|rows: Seq<AccountRequest>| #[trigger] incremented(rows, *params) == Some(a),
        r matches Err(e) ==> read_error(e) || (e.is_custom("failed to rate-limit account_requests"@) && exists|rows: Seq<AccountRequest>, n: int| #[trigger] if_written(n, incremented(rows, *params)) is None),
{
    let rows = load(conn)?;
    match increment_statement(&rows, params) {
        Some((sql, a)) => {
            let n = store::write(conn, sql, &a)?;
            match store::written(n, a) {
                Some(a) => return Ok(a),
                None => {},
            }
        },
        None => {
            proof {
                assert(if_written(0, incremented(rows@, *params)) is None);
            }
        },
    }
    Err(SqliteInterfaceError::Custom("failed to rate-limit account_requests".to_string()))
}

pub struct DangerouslyDeleteParams {
    pub organization_id: i64,
    pub window_length_ms: i64,
    pub current_timestamp: i64,
}

/// A request of the organization renewed more than a window ago.
impl Condition<AccountRequest> for DangerouslyDeleteParams {
    open spec fn holds(&self, r: AccountRequest) -> bool {
        &&& r.organization_id == self.organization_id
        &&& r.updated_at < self.current_timestamp
        &&& self.window_length_ms < self.current_timestamp - r.updated_at
    }

    fn check(&self, r: &AccountRequest) -> (b: bool) {
        r.organization_id == self.organization_id && r.updated_at < self.current_timestamp
            && (self.window_length_ms as i128) < self.current_timestamp as i128 - r.updated_at as i128
    }
}

/// The requests of `rows` that `dangerously_delete` removes.
pub fn dangerously_delete_in(rows: &Vec<AccountRequest>, params: &DangerouslyDeleteParams) -> (stale: Vec<AccountRequest>)
    ensures
        stale@ == matching(rows@, *params),
{
    filter_rows(rows, params)
}

/// Removes for good the requests of the organization renewed more than a
/// window ago.
pub fn dangerously_delete(conn: &mut rusqlite::Connection, params: &DangerouslyDeleteParams) -> (r: Result<(), SqliteInterfaceError>)
    ensures
        r matches Err(e) ==> read_error(e),
{
    store::begin(conn)?;
    let r = dangerously_delete_within(conn, params);
    store::finish(conn, r)
}

/// `dangerously_delete` inside the savepoint that `dangerously_delete` opens.
fn dangerously_delete_within(conn: &mut rusqlite::Connection, params: &DangerouslyDeleteParams) -> (r: Result<(), SqliteInterfaceError>)
    ensures
        r matches Err(e) ==> read_error(e),
{
    let rows = load(conn)?;
    let stale = dangerously_delete_in(&rows, params);
    store::delete_each(conn, &stale)
}

/// Within a window the token of a request does not change, however often the
/// contact asks again.
pub proof fn lemma_token_kept_within_window(rows: Seq<AccountRequest>, params: IncrementRateLimitParams)
    requires
        first_matching(rows, params) matches Some(r) && r.updated_at < params.current_timestamp
            && params.current_timestamp - r.updated_at <= params.window_length_ms,
    ensures
        incremented(rows, params) == first_matching(rows, params),
{
}

/// A completed request keeps its token and its time for good.
pub proof fn lemma_completed_request_kept(rows: Seq<AccountRequest>, params: IncrementRateLimitParams)
    requires
        first_matching(rows, params) matches Some(r) && r.completed_at is Some && r.updated_at < params.current_timestamp,
    ensures
        incremented(rows, params) == first_matching(rows, params),
{
}

/// What a request sees is what the one before it stored.
pub proof fn lemma_increment_sees_last_increment(rows: Seq<AccountRequest>, first: IncrementRateLimitParams, second: IncrementRateLimitParams)
    requires
        incremented(rows, first) is Some,
        second.contact_kind_id == first.contact_kind_id,
        second.contact_content@ == first.contact_content@,
    ensures
        first_matching(after_increment(rows, first, incremented(rows, first)->0), second) == incremented(rows, first),
{
    let a = incremented(rows, first)->0;
    let after = after_increment(rows, first, a);
    if first_matching(rows, first) is Some {
        lemma_rewritten_first(rows, first, a);
    } else {
        lemma_appended_first(rows, first, a);
    }
    lemma_same_condition(after, first, second);
}

/// `dangerously_delete` leaves no request of the organization older than a
/// window, and keeps every other request.
pub proof fn lemma_dangerously_delete_keeps_the_rest(rows: Seq<AccountRequest>, p: DangerouslyDeleteParams)
    ensures
        forall|k: int| 0 <= k < without(rows, p).len() ==> !p.holds(#[trigger] without(rows, p)[k]),
        forall|k: int| 0 <= k < rows.len() && !p.holds(rows[k]) ==> without(rows, p).contains(#[trigger] rows[k]),
{
    lemma_without(rows, p);
}

/// The request after the contact asks again: a new token and time once a
/// window has passed since an open request was renewed, else the request as
/// it was; organization and completion are kept either way.
pub open spec fn asked_again(r: AccountRequest, params: IncrementRateLimitParams) -> AccountRequest {
    if r.completed_at is None && params.window_length_ms < params.current_timestamp - r.updated_at {
        AccountRequest { token: params.token, updated_at: params.current_timestamp, ..r }
    } else {
        r
    }
}

/// A contact asking again on the one request with its contact: after the
/// request's time, the request is renewed or kept as `asked_again` says; not
/// after it, nothing is stored (and `increment_rate_limit` fails).
pub proof fn lemma_increment_keeps_or_renews(rows: Seq<AccountRequest>, params: IncrementRateLimitParams, k: int)
    requires
        0 <= k < rows.len(),
        params.holds(rows[k]),
        forall|j: int| 0 <= j < rows.len() && j != k ==> !params.holds(#[trigger] rows[j]),
    ensures
        rows[k].updated_at < params.current_timestamp ==> incremented(rows, params) == Some(asked_again(rows[k], params)),
        params.current_timestamp <= rows[k].updated_at ==> incremented(rows, params) == None::<AccountRequest>,
{
    crate::rows::lemma_only_match(rows, params, k);
}

/// A contact asking is counted on the request of that contact only: the
/// request stored has the contact's kind and content; when the table holds a
/// request of that contact, the organization and completion of one such
/// request are kept; when it holds none (whatever it holds for other
/// contacts), it is a new open request of the organization with the given
/// token, made now.
pub proof fn lemma_increment_counts_its_own_contact(rows: Seq<AccountRequest>, p: IncrementRateLimitParams)
    ensures
        incremented(rows, p) matches Some(x) ==> x.contact_kind_id == p.contact_kind_id && x.contact_content@ == p.contact_content@,
        incremented(rows, p) matches Some(x) ==> ((exists|r: AccountRequest| #[trigger] rows.contains(r) && r.contact_kind_id == p.contact_kind_id && r.contact_content@ == p.contact_content@)
            ==> exists|r: AccountRequest| #[trigger] rows.contains(r) && r.contact_kind_id == p.contact_kind_id && r.contact_content@ == p.contact_content@ && x.organization_id == r.organization_id && x.completed_at == r.completed_at),
        (forall|r: AccountRequest| #[trigger] rows.contains(r) ==> !(r.contact_kind_id == p.contact_kind_id && r.contact_content@ == p.contact_content@)) ==> (incremented(rows, p) matches Some(x)
            && x.organization_id == p.organization_id && x.token == p.token && x.updated_at == p.current_timestamp
            && x.completed_at is None),
{
    crate::rows::lemma_first_matching_members(rows, p);
}

/// A read gives requests of the table that belong to the organization and were renewed before now and less than a window ago; unpaged, it gives every such request.
pub proof fn lemma_read_is_the_organizations_recent_requests(rows: Seq<AccountRequest>, p: ReadParams)
    ensures
        forall|x: AccountRequest| #[trigger] crate::rows::selection(rows, p, p.offset, p.limit).contains(x) ==> rows.contains(x) && (x.organization_id == p.organization_id && x.updated_at < p.current_timestamp && p.current_timestamp - x.updated_at < p.window_length_ms),
        p.offset <= 0 && p.limit < 0 ==> forall|x: AccountRequest|
            #[trigger] crate::rows::selection(rows, p, p.offset, p.limit).contains(x) <==> rows.contains(x) && (x.organization_id == p.organization_id && x.updated_at < p.current_timestamp && p.current_timestamp - x.updated_at < p.window_length_ms),
{
    crate::rows::lemma_selection_members(rows, p, p.offset, p.limit);
}

/// `dangerously_delete` picks exactly the requests of the organization renewed before now and more than a window ago.
pub proof fn lemma_dangerously_delete_picks_the_old_requests(rows: Seq<AccountRequest>, p: DangerouslyDeleteParams)
    ensures
        forall|x: AccountRequest| #[trigger] crate::rows::matching(rows, p).contains(x) <==> rows.contains(x) && (x.organization_id == p.organization_id && x.updated_at < p.current_timestamp && p.window_length_ms < p.current_timestamp - x.updated_at),
{
    crate::rows::lemma_matching_members(rows, p);
}

/// The parameters that delete a row pick it out by the table's key: two rows
/// get the same ones exactly when their key columns agree.
pub proof fn lemma_key_is_the_primary_key(a: AccountRequest, b: AccountRequest)
    ensures
        AccountRequest::key_of(a) == AccountRequest::key_of(b) <==> (a.contact_kind_id == b.contact_kind_id && a.contact_content == b.contact_content),
{
    if AccountRequest::key_of(a) == AccountRequest::key_of(b) {
        assert(AccountRequest::key_of(a)[0] == AccountRequest::key_of(b)[0]);
        assert(AccountRequest::key_of(a)[1] == AccountRequest::key_of(b)[1]);
    }
    if a.contact_kind_id == b.contact_kind_id && a.contact_content == b.contact_content {
        assert(AccountRequest::key_of(a) =~= AccountRequest::key_of(b));
    }
}

} // verus!
