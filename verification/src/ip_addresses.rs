//! The `ip_addresses` table: a sliding-window counter of requests for each
//! IP address of an organization.

use vstd::prelude::*;
use crate::errors::SqliteInterfaceError;
use crate::rows::{
    all_ok, all_ok_rows, filter_rows, find_first, first_matching, lemma_appended_first,
    lemma_rewritten_first, lemma_without, matching, rewritten, select_rows, selection, without,
    Condition,
};
use crate::store::{self, if_written, reads_as, stored_cells, Stored};
use crate::type_flyweight::ip_addresses::IpAddressRateLimit;
use crate::value::{int_of, read_int, read_text, text, text_of, Datum, Param};
use crate::window::{hit, hit_fits, next_prev_count, next_updated_at, next_window_count};

verus! {

broadcast use vstd::seq_lib::group_seq_properties;

impl Stored for IpAddressRateLimit {
    open spec fn definition_text() -> Seq<char> {
        "CREATE TABLE IF NOT EXISTS ip_addresses (
            organization_id INTEGER NOT NULL,
            ip_address TEXT NOT NULL,
            prev_window_count INTEGER NOT NULL,
            window_count INTEGER NOT NULL,
            updated_at INTEGER NOT NULL,
            PRIMARY KEY (organization_id, ip_address)
        )"@
    }

    fn definition() -> (sql: &'static str) {
        "CREATE TABLE IF NOT EXISTS ip_addresses (
            organization_id INTEGER NOT NULL,
            ip_address TEXT NOT NULL,
            prev_window_count INTEGER NOT NULL,
            window_count INTEGER NOT NULL,
            updated_at INTEGER NOT NULL,
            PRIMARY KEY (organization_id, ip_address)
        )"
    }

    open spec fn select_all_text() -> Seq<char> {
        "SELECT * FROM ip_addresses"@
    }

    fn select_all() -> (sql: &'static str) {
        "SELECT * FROM ip_addresses"
    }

    open spec fn delete_by_key_text() -> Seq<char> {
        "DELETE FROM ip_addresses WHERE organization_id = ?1 AND ip_address = ?2"@
    }

    fn delete_by_key() -> (sql: &'static str) {
        "DELETE FROM ip_addresses WHERE organization_id = ?1 AND ip_address = ?2"
    }

    open spec fn malformed_text() -> Seq<char> {
        "malformed row in ip_addresses"@
    }

    fn malformed() -> (text: &'static str) {
        "malformed row in ip_addresses"
    }

    open spec fn key_of(row: IpAddressRateLimit) -> Seq<Param> {
        seq![Param::Integer(row.organization_id), Param::Text(row.ip_address)]
    }

    fn key(&self) -> (key: Vec<Param>) {
        let mut key: Vec<Param> = Vec::new();
        key.push(Param::Integer(self.organization_id));
        key.push(text(&self.ip_address));
        assert(key@ =~= Self::key_of(*self));
        key
    }

    open spec fn decoded(cells: Seq<Datum>) -> Option<IpAddressRateLimit> {
        if cells.len() >= 5 && int_of(cells[0]) is Some && text_of(cells[1]) is Some && int_of(cells[2]) is Some
            && int_of(cells[3]) is Some && int_of(cells[4]) is Some {
            Some(
                IpAddressRateLimit {
                    organization_id: int_of(cells[0])->0,
                    ip_address: text_of(cells[1])->0,
                    prev_window_count: int_of(cells[2])->0,
                    window_count: int_of(cells[3])->0,
                    updated_at: int_of(cells[4])->0,
                },
            )
        } else {
            None
        }
    }

    open spec fn cells_of(r: IpAddressRateLimit) -> Seq<Param> {
        seq![
            Param::Integer(r.organization_id),
            Param::Text(r.ip_address),
            Param::Integer(r.prev_window_count),
            Param::Integer(r.window_count),
            Param::Integer(r.updated_at),
        ]
    }

    fn decode(cells: &Vec<Datum>) -> (r: Option<IpAddressRateLimit>) {
        if cells.len() < 5 {
            return None;
        }
        let organization_id = match read_int(&cells[0]) { Some(v) => v, None => return None };
        let ip_address = match read_text(&cells[1]) { Some(v) => v, None => return None };
        let prev_window_count = match read_int(&cells[2]) { Some(v) => v, None => return None };
        let window_count = match read_int(&cells[3]) { Some(v) => v, None => return None };
        let updated_at = match read_int(&cells[4]) { Some(v) => v, None => return None };
        Some(IpAddressRateLimit { organization_id, ip_address, prev_window_count, window_count, updated_at })
    }

    fn encode(&self) -> (cells: Vec<Param>) {
        let mut cells: Vec<Param> = Vec::new();
        cells.push(Param::Integer(self.organization_id));
        cells.push(text(&self.ip_address));
        cells.push(Param::Integer(self.prev_window_count));
        cells.push(Param::Integer(self.window_count));
        cells.push(Param::Integer(self.updated_at));
        assert(cells@ =~= Self::cells_of(*self));
        cells
    }
}

/// A counter written and read back, with each value kept as given, reads as
/// itself.
pub proof fn lemma_round_trip(r: IpAddressRateLimit)
    ensures
        IpAddressRateLimit::decoded(stored_cells(IpAddressRateLimit::cells_of(r))) == Some(r),
{
    assert(stored_cells(IpAddressRateLimit::cells_of(r)).len() == 5);
}

/// An error of a read of this table: SQLite's own, or a row that does not
/// read as an address rate limit.
pub open spec fn read_error(e: SqliteInterfaceError) -> bool {
    e is Rusqlite || e.is_custom("malformed row in ip_addresses"@)
}

fn load(conn: &rusqlite::Connection) -> (r: Result<Vec<IpAddressRateLimit>, SqliteInterfaceError>)
    ensures
        r matches Ok(rows) ==> exists|raw: Seq<Seq<Datum>>| #[trigger] reads_as(raw, rows@),
        r matches Err(e) ==> read_error(e),
{
    store::load(conn)
}

pub const INSERT: &'static str = "INSERT INTO ip_addresses (organization_id, ip_address, prev_window_count, window_count, updated_at) VALUES (?1, ?2, ?3, ?4, ?5)";

pub const UPDATE: &'static str = "UPDATE ip_addresses SET prev_window_count = ?3, window_count = ?4, updated_at = ?5 WHERE organization_id = ?1 AND ip_address = ?2";

pub fn create_table(conn: &mut rusqlite::Connection) -> (r: Result<(), SqliteInterfaceError>)
    ensures
        r matches Err(e) ==> e is Rusqlite,
{
    store::create_table::<IpAddressRateLimit>(conn)
}

pub struct ReadParams {
    pub organization_id: i64,
    pub window_length_ms: i64,
    pub current_timestamp: i64,
    pub offset: i64,
    pub limit: i64,
}

/// A counter of the organization whose window started more than two windows
/// ago.
impl Condition<IpAddressRateLimit> for ReadParams {
    open spec fn holds(&self, r: IpAddressRateLimit) -> bool {
        r.organization_id == self.organization_id && 2 * self.window_length_ms < self.current_timestamp - r.updated_at
    }

    fn check(&self, r: &IpAddressRateLimit) -> (b: bool) {
        r.organization_id == self.organization_id
            && 2 * (self.window_length_ms as i128) < self.current_timestamp as i128 - r.updated_at as i128
    }
}

/// The page of counters of the organization, idle for more than two windows,
/// that `rows` hold.
pub fn read_in(rows: &Vec<IpAddressRateLimit>, params: &ReadParams) -> (page: Vec<IpAddressRateLimit>)
    ensures
        page@ == selection(rows@, *params, params.offset, params.limit),
{
    select_rows(rows, params, params.offset, params.limit)
}

pub fn read(conn: &mut rusqlite::Connection, params: &ReadParams) -> (r: Result<Vec<Result<IpAddressRateLimit, SqliteInterfaceError>>, SqliteInterfaceError>)
    ensures
        r matches Ok(page) ==> exists|rows: Seq<IpAddressRateLimit>| all_ok(page@, #[trigger] selection(rows, *params, params.offset, params.limit)),
        r matches Ok(page) ==> forall|i: int| 0 <= i < page@.len() ==> (#[trigger] page@[i] matches Ok(row) && params.holds(row)),
        r matches Ok(page) ==> (0 <= params.limit ==> page@.len() <= params.limit),
        r matches Err(e) ==> read_error(e),
{
    let rows = load(conn)?;
    let page = read_in(&rows, params);
    let out = all_ok_rows(&page);
    proof {
        assert(all_ok(out@, selection(rows@, *params, params.offset, params.limit)));
        crate::rows::lemma_selection(rows@, *params, params.offset, params.limit);
    }
    Ok(out)
}

pub struct IncrementRateLimitParams {
    pub organization_id: i64,
    pub window_length_ms: i64,
    pub ip_address: String,
    pub current_timestamp: i64,
}

/// The counter of that address in that organization.
impl Condition<IpAddressRateLimit> for IncrementRateLimitParams {
    open spec fn holds(&self, r: IpAddressRateLimit) -> bool {
        r.organization_id == self.organization_id && r.ip_address@ == self.ip_address@
    }

    fn check(&self, r: &IpAddressRateLimit) -> (b: bool) {
        r.organization_id == self.organization_id && r.ip_address == self.ip_address
    }
}

/// The counter that the first request of an address starts: one hit in a
/// window that starts now.
pub open spec fn fresh(params: IncrementRateLimitParams) -> IpAddressRateLimit {
    IpAddressRateLimit {
        organization_id: params.organization_id,
        ip_address: params.ip_address,
        prev_window_count: 0,
        window_count: 1,
        updated_at: params.current_timestamp,
    }
}

/// The counter after one more request at `now`, or `None` when its count
/// cannot grow any further.
pub open spec fn hit_counter(r: IpAddressRateLimit, now: i64, window: i64) -> Option<IpAddressRateLimit> {
    if hit_fits(r.window_count, r.updated_at, now, window) {
        Some(
            IpAddressRateLimit {
                prev_window_count: next_prev_count(r.prev_window_count, r.window_count, r.updated_at, now, window) as i64,
                window_count: next_window_count(r.window_count, r.updated_at, now, window) as i64,
                updated_at: next_updated_at(r.updated_at, now, window) as i64,
                ..r
            },
        )
    } else {
        None
    }
}

/// What `increment_rate_limit` stores and returns, given the rows of the table.
pub open spec fn incremented(rows: Seq<IpAddressRateLimit>, params: IncrementRateLimitParams) -> Option<IpAddressRateLimit> {
    match first_matching(rows, params) {
        Some(r) => hit_counter(r, params.current_timestamp, params.window_length_ms),
        None => Some(fresh(params)),
    }
}

/// The table after `increment_rate_limit` stored `r`: a new row, or the
/// address's row rewritten.
pub open spec fn after_increment(rows: Seq<IpAddressRateLimit>, params: IncrementRateLimitParams, r: IpAddressRateLimit) -> Seq<IpAddressRateLimit> {
    if first_matching(rows, params) is Some {
        rewritten(rows, params, r)
    } else {
        rows.push(r)
    }
}

/// The address's counter after one more request, as `rows` hold it.
pub fn increment_rate_limit_in(rows: &Vec<IpAddressRateLimit>, params: &IncrementRateLimitParams) -> (r: Option<IpAddressRateLimit>)
    ensures
        r == incremented(rows@, *params),
{
    match find_first(rows, params) {
        None => Some(
            IpAddressRateLimit {
                organization_id: params.organization_id,
                ip_address: params.ip_address.clone(),
                prev_window_count: 0,
                window_count: 1,
                updated_at: params.current_timestamp,
            },
        ),
        Some(r) => match hit(r.prev_window_count, r.window_count, r.updated_at, params.current_timestamp, params.window_length_ms) {
            Some((prev_window_count, window_count, updated_at)) => Some(IpAddressRateLimit { prev_window_count, window_count, updated_at, ..r }),
            None => None,
        },
    }
}

/// The statement that stores the counter after one more request, and the row
/// whose columns are its parameters: an `UPDATE` of the row with that key when
/// `rows` hold one, else an `INSERT`; `None` when nothing is to be stored.
pub fn increment_statement(rows: &Vec<IpAddressRateLimit>, params: &IncrementRateLimitParams) -> (s: Option<(&'static str, IpAddressRateLimit)>)
    ensures
        match s {
            Some((sql, row)) => {
                &&& incremented(rows@, *params) == Some(row)
                &&& sql@ == (if first_matching(rows@, *params) is Some { UPDATE@ } else { INSERT@ })
            },
            None => incremented(rows@, *params) is None,
        },
{
    let known = find_first(rows, params).is_some();
    match increment_rate_limit_in(rows, params) {
        Some(row) => {
            if known {
                Some((UPDATE, row))
            } else {
                Some((INSERT, row))
            }
        },
        None => None,
    }
}

/// Counts one more request from the address, starting its counter if it has
/// none.
pub fn increment_rate_limit(conn: &mut rusqlite::Connection, params: &IncrementRateLimitParams) -> (r: Result<IpAddressRateLimit, SqliteInterfaceError>)
    ensures
        r matches Ok(c) ==> exists|rows: Seq<IpAddressRateLimit>| #[trigger] incremented(rows, *params) == Some(c),
        r matches Err(e) ==> read_error(e) || (e.is_custom("failed to rate-limit ip address"@) && exists|rows: Seq<IpAddressRateLimit>, n: int| #[trigger] if_written(n, incremented(rows, *params)) is None),
{
    store::begin(conn)?;
    let r = increment_rate_limit_within(conn, params);
    store::finish(conn, r)
}

/// `increment_rate_limit` inside the savepoint that `increment_rate_limit` opens.
fn increment_rate_limit_within(conn: &mut rusqlite::Connection, params: &IncrementRateLimitParams) -> (r: Result<IpAddressRateLimit, SqliteInterfaceError>)
    ensures
        r matches Ok(c) ==> exists|rows: Seq<IpAddressRateLimit>| #[trigger] incremented(rows, *params) == Some(c),
        r matches Err(e) ==> read_error(e) || (e.is_custom("failed to rate-limit ip address"@) && exists|rows: Seq<IpAddressRateLimit>, n: int| #[trigger] if_written(n, incremented(rows, *params)) is None),
{
    let rows = load(conn)?;
    match increment_statement(&rows, params) {
        Some((sql, c)) => {
            let n = store::write(conn, sql, &c)?;
            match store::written(n, c) {
                Some(c) => return Ok(c),
                None => {},
            }
        },
        None => {
            proof {
                assert(if_written(0, incremented(rows@, *params)) is None);
            }
        },
    }
    Err(SqliteInterfaceError::Custom("failed to rate-limit ip address".to_string()))
}

pub struct DangerouslyDeleteParams {
    pub organization_id: i64,
    pub window_length_ms: i64,
    pub current_timestamp: i64,
}

/// A counter of the organization idle for more than two windows.
impl Condition<IpAddressRateLimit> for DangerouslyDeleteParams {
    open spec fn holds(&self, r: IpAddressRateLimit) -> bool {
        r.organization_id == self.organization_id && 2 * self.window_length_ms < self.current_timestamp - r.updated_at
    }

    fn check(&self, r: &IpAddressRateLimit) -> (b: bool) {
        r.organization_id == self.organization_id
            && 2 * (self.window_length_ms as i128) < self.current_timestamp as i128 - r.updated_at as i128
    }
}

/// The counters of `rows` that `dangerously_delete` removes.
pub fn dangerously_delete_in(rows: &Vec<IpAddressRateLimit>, params: &DangerouslyDeleteParams) -> (stale: Vec<IpAddressRateLimit>)
    ensures
        stale@ == matching(rows@, *params),
{
    filter_rows(rows, params)
}

/// Removes for good the counters of the organization idle for more than two
/// windows.
pub fn dangerously_delete(conn: &mut rusqlite::Connection, params: &DangerouslyDeleteParams) -> (r: Result<(), SqliteInterfaceError>)
    ensures
        r matches Err(e) ==> read_error(e),
{
    store::begin(conn)?;
    let r = dangerously_delete_within(conn, params);
    store::finish(conn, r)
}

/// `dangerously_delete` inside the savepoint that `dangerously_delete` opens.
fn dangerously_delete_within(conn: &mut rusqlite::Connection, params: &DangerouslyDeleteParams) -> (r: Result<(), SqliteInterfaceError>)
    ensures
        r matches Err(e) ==> read_error(e),
{
    let rows = load(conn)?;
    let stale = dangerously_delete_in(&rows, params);
    store::delete_each(conn, &stale)
}

/// What a request sees is what the one before it stored: the counter that
/// the second of two requests from an address counts on is the one the first
/// left behind.
pub proof fn lemma_increment_sees_last_increment(rows: Seq<IpAddressRateLimit>, first: IncrementRateLimitParams, second: IncrementRateLimitParams)
    requires
        incremented(rows, first) is Some,
        second.organization_id == first.organization_id,
        second.ip_address@ == first.ip_address@,
    ensures
        incremented(after_increment(rows, first, incremented(rows, first)->0), second)
            == hit_counter(incremented(rows, first)->0, second.current_timestamp, second.window_length_ms),
{
    let c = incremented(rows, first)->0;
    let after = after_increment(rows, first, c);
    if first_matching(rows, first) is Some {
        lemma_rewritten_first(rows, first, c);
        assert(first_matching(after, first) == Some(c));
    } else {
        lemma_appended_first(rows, first, c);
    }
    crate::rows::lemma_same_condition(after, first, second);
}

/// The first request of an address starts its counter at one.
pub proof fn lemma_first_request_counts_one(rows: Seq<IpAddressRateLimit>, params: IncrementRateLimitParams)
    requires
        forall|k: int| 0 <= k < rows.len() ==> !params.holds(#[trigger] rows[k]),
    ensures
        incremented(rows, params) == Some(fresh(params)),
        fresh(params).window_count == 1,
        fresh(params).prev_window_count == 0,
{
    crate::rows::lemma_none_matching(rows, params);
}

/// `dangerously_delete` leaves no counter of the organization idle for more
/// than two windows, and keeps every other counter.
pub proof fn lemma_dangerously_delete_keeps_the_rest(rows: Seq<IpAddressRateLimit>, p: DangerouslyDeleteParams)
    ensures
        forall|k: int| 0 <= k < without(rows, p).len() ==> !p.holds(#[trigger] without(rows, p)[k]),
        forall|k: int| 0 <= k < rows.len() && !p.holds(rows[k]) ==> without(rows, p).contains(#[trigger] rows[k]),
{
    lemma_without(rows, p);
}

/// The counter after one more hit at `now` under the window rule, each value
/// computed from the old ones: after more than one window the count restarts
/// at one and the window at `now`, and the previous count becomes the old
/// count, or zero after more than two windows; within a window the count
/// grows by one and the rest is kept.
pub open spec fn by_window_rule(r: IpAddressRateLimit, now: i64, window: i64) -> IpAddressRateLimit {
    let d = now - r.updated_at;
    IpAddressRateLimit {
        window_count: if window < d { 1 } else { (r.window_count + 1) as i64 },
        prev_window_count: if 2 * window < d {
            0
        } else if window < d {
            r.window_count
        } else {
            r.prev_window_count
        },
        updated_at: if window < d { now } else { r.updated_at },
        ..r
    }
}

/// A request on the one counter with its address follows the window rule
/// however much time has passed, a negative amount too (when the count can
/// still grow).
pub proof fn lemma_increment_follows_window_rule(rows: Seq<IpAddressRateLimit>, params: IncrementRateLimitParams, k: int)
    requires
        0 <= k < rows.len(),
        params.holds(rows[k]),
        forall|j: int| 0 <= j < rows.len() && j != k ==> !params.holds(#[trigger] rows[j]),
        params.window_length_ms < params.current_timestamp - rows[k].updated_at || rows[k].window_count < i64::MAX,
    ensures
        incremented(rows, params) == Some(by_window_rule(rows[k], params.current_timestamp, params.window_length_ms)),
{
    crate::rows::lemma_only_match(rows, params, k);
}

/// A request is counted on the counter of its own organization and address
/// only: the counter it stores has the request's organization and address,
/// its count is one or one more than a stored counter of that pair, and when
/// the table holds no counter for that pair (whatever it holds for other
/// organizations or addresses) it is a fresh one, with one request in a
/// window that starts now.
pub proof fn lemma_increment_counts_its_own_address(rows: Seq<IpAddressRateLimit>, p: IncrementRateLimitParams)
    ensures
        incremented(rows, p) matches Some(c) ==> c.organization_id == p.organization_id && c.ip_address@ == p.ip_address@,
        incremented(rows, p) matches Some(c) ==> c.window_count == 1 || exists|r: IpAddressRateLimit| #[trigger] rows.contains(r) && r.organization_id == p.organization_id && r.ip_address@ == p.ip_address@ && c.window_count == r.window_count + 1,
        (forall|r: IpAddressRateLimit| #[trigger] rows.contains(r) ==> !(r.organization_id == p.organization_id && r.ip_address@ == p.ip_address@)) ==> (incremented(rows, p) matches Some(c) && c.window_count == 1
            && c.prev_window_count == 0 && c.updated_at == p.current_timestamp),
{
    crate::rows::lemma_first_matching_members(rows, p);
}

/// A read gives counters of the table that belong to the organization and have been idle for more than two windows; unpaged, it gives every such counter.
pub proof fn lemma_read_is_the_idle_counters(rows: Seq<IpAddressRateLimit>, p: ReadParams)
    ensures
        forall|x: IpAddressRateLimit| #[trigger] crate::rows::selection(rows, p, p.offset, p.limit).contains(x) ==> rows.contains(x) && (x.organization_id == p.organization_id && 2 * p.window_length_ms < p.current_timestamp - x.updated_at),
        p.offset <= 0 && p.limit < 0 ==> forall|x: IpAddressRateLimit|
            #[trigger] crate::rows::selection(rows, p, p.offset, p.limit).contains(x) <==> rows.contains(x) && (x.organization_id == p.organization_id && 2 * p.window_length_ms < p.current_timestamp - x.updated_at),
{
    crate::rows::lemma_selection_members(rows, p, p.offset, p.limit);
}

/// `dangerously_delete` picks exactly the counters of the organization idle for more than two windows.
pub proof fn lemma_dangerously_delete_picks_the_idle_counters(rows: Seq<IpAddressRateLimit>, p: DangerouslyDeleteParams)
    ensures
        forall|x: IpAddressRateLimit| #[trigger] crate::rows::matching(rows, p).contains(x) <==> rows.contains(x) && (x.organization_id == p.organization_id && 2 * p.window_length_ms < p.current_timestamp - x.updated_at),
{
    crate::rows::lemma_matching_members(rows, p);
}

/// The parameters that delete a row pick it out by the table's key: two rows
/// get the same ones exactly when their key columns agree.
pub proof fn lemma_key_is_the_primary_key(a: IpAddressRateLimit, b: IpAddressRateLimit)
    ensures
        IpAddressRateLimit::key_of(a) == IpAddressRateLimit::key_of(b) <==> (a.organization_id == b.organization_id && a.ip_address == b.ip_address),
{
    if IpAddressRateLimit::key_of(a) == IpAddressRateLimit::key_of(b) {
        assert(IpAddressRateLimit::key_of(a)[0] == IpAddressRateLimit::key_of(b)[0]);
        assert(IpAddressRateLimit::key_of(a)[1] == IpAddressRateLimit::key_of(b)[1]);
    }
    if a.organization_id == b.organization_id && a.ip_address == b.ip_address {
        assert(IpAddressRateLimit::key_of(a) =~= IpAddressRateLimit::key_of(b));
    }
}

} // verus!
