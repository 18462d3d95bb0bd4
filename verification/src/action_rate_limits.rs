//! The `action_rate_limits` table: a sliding-window counter for each kind of
//! action that each person of an organization takes.

use vstd::prelude::*;
use crate::errors::SqliteInterfaceError;
use crate::rows::{
    all_ok, all_ok_rows, filter_rows, find_first, first_matching, lemma_appended_first,
    lemma_rewritten_first, lemma_same_condition, lemma_without, matching, rewritten, select_rows,
    selection, without, Condition,
};
use crate::store::{self, if_written, reads_as, stored_cells, Stored};
use crate::type_flyweight::actions::ActionRateLimit;
use crate::value::{int_of, read_int, Datum, Param};
use crate::window::{hit, hit_fits, next_prev_count, next_updated_at, next_window_count};

verus! {

broadcast use vstd::seq_lib::group_seq_properties;

impl Stored for ActionRateLimit {
    open spec fn definition_text() -> Seq<char> {
        "CREATE TABLE IF NOT EXISTS action_rate_limits (
            organization_id INTEGER NOT NULL,
            people_id INTEGER NOT NULL,
            action_kind_id INTEGER NOT NULL,
            prev_window_count INTEGER NOT NULL,
            window_count INTEGER NOT NULL,
            updated_at INTEGER NOT NULL,
            PRIMARY KEY (organization_id, people_id, action_kind_id)
        )"@
    }

    fn definition() -> (sql: &'static str) {
        "CREATE TABLE IF NOT EXISTS action_rate_limits (
            organization_id INTEGER NOT NULL,
            people_id INTEGER NOT NULL,
            action_kind_id INTEGER NOT NULL,
            prev_window_count INTEGER NOT NULL,
            window_count INTEGER NOT NULL,
            updated_at INTEGER NOT NULL,
            PRIMARY KEY (organization_id, people_id, action_kind_id)
        )"
    }

    open spec fn select_all_text() -> Seq<char> {
        "SELECT * FROM action_rate_limits"@
    }

    fn select_all() -> (sql: &'static str) {
        "SELECT * FROM action_rate_limits"
    }

    open spec fn delete_by_key_text() -> Seq<char> {
        "DELETE FROM action_rate_limits WHERE organization_id = ?1 AND people_id = ?2 AND action_kind_id = ?3"@
    }

    fn delete_by_key() -> (sql: &'static str) {
        "DELETE FROM action_rate_limits WHERE organization_id = ?1 AND people_id = ?2 AND action_kind_id = ?3"
    }

    open spec fn malformed_text() -> Seq<char> {
        "malformed row in action_rate_limits"@
    }

    fn malformed() -> (text: &'static str) {
        "malformed row in action_rate_limits"
    }

    open spec fn key_of(row: ActionRateLimit) -> Seq<Param> {
        seq![Param::Integer(row.organization_id), Param::Integer(row.people_id), Param::Integer(row.action_kind_id)]
    }

    fn key(&self) -> (key: Vec<Param>) {
        let mut key: Vec<Param> = Vec::new();
        key.push(Param::Integer(self.organization_id));
        key.push(Param::Integer(self.people_id));
        key.push(Param::Integer(self.action_kind_id));
        assert(key@ =~= Self::key_of(*self));
        key
    }

    open spec fn decoded(cells: Seq<Datum>) -> Option<ActionRateLimit> {
        if cells.len() >= 6 && int_of(cells[0]) is Some && int_of(cells[1]) is Some && int_of(cells[2]) is Some
            && int_of(cells[3]) is Some && int_of(cells[4]) is Some && int_of(cells[5]) is Some {
            Some(
                ActionRateLimit {
                    organization_id: int_of(cells[0])->0,
                    people_id: int_of(cells[1])->0,
                    action_kind_id: int_of(cells[2])->0,
                    prev_window_count: int_of(cells[3])->0,
                    window_count: int_of(cells[4])->0,
                    updated_at: int_of(cells[5])->0,
                },
            )
        } else {
            None
        }
    }

    open spec fn cells_of(r: ActionRateLimit) -> Seq<Param> {
        seq![
            Param::Integer(r.organization_id),
            Param::Integer(r.people_id),
            Param::Integer(r.action_kind_id),
            Param::Integer(r.prev_window_count),
            Param::Integer(r.window_count),
            Param::Integer(r.updated_at),
        ]
    }

    fn decode(cells: &Vec<Datum>) -> (r: Option<ActionRateLimit>) {
        if cells.len() < 6 {
            return None;
        }
        let organization_id = match read_int(&cells[0]) { Some(v) => v, None => return None };
        let people_id = match read_int(&cells[1]) { Some(v) => v, None => return None };
        let action_kind_id = match read_int(&cells[2]) { Some(v) => v, None => return None };
        let prev_window_count = match read_int(&cells[3]) { Some(v) => v, None => return None };
        let window_count = match read_int(&cells[4]) { Some(v) => v, None => return None };
        let updated_at = match read_int(&cells[5]) { Some(v) => v, None => return None };
        Some(ActionRateLimit { organization_id, people_id, action_kind_id, prev_window_count, window_count, updated_at })
    }

    fn encode(&self) -> (cells: Vec<Param>) {
        let mut cells: Vec<Param> = Vec::new();
        cells.push(Param::Integer(self.organization_id));
        cells.push(Param::Integer(self.people_id));
        cells.push(Param::Integer(self.action_kind_id));
        cells.push(Param::Integer(self.prev_window_count));
        cells.push(Param::Integer(self.window_count));
        cells.push(Param::Integer(self.updated_at));
        assert(cells@ =~= Self::cells_of(*self));
        cells
    }
}

/// A counter written and read back, with each value kept as given, reads as
/// itself.
pub proof fn lemma_round_trip(r: ActionRateLimit)
    ensures
        ActionRateLimit::decoded(stored_cells(ActionRateLimit::cells_of(r))) == Some(r),
{
    assert(stored_cells(ActionRateLimit::cells_of(r)).len() == 6);
}

/// An error of a read of this table: SQLite's own, or a row that does not
/// read as an action rate limit.
pub open spec fn read_error(e: SqliteInterfaceError) -> bool {
    e is Rusqlite || e.is_custom("malformed row in action_rate_limits"@)
}

fn load(conn: &rusqlite::Connection) -> (r: Result<Vec<ActionRateLimit>, SqliteInterfaceError>)
    ensures
        r matches Ok(rows) ==> exists|raw: Seq<Seq<Datum>>| #[trigger] reads_as(raw, rows@),
        r matches Err(e) ==> read_error(e),
{
    store::load(conn)
}

pub const INSERT: &'static str = "INSERT INTO action_rate_limits (organization_id, people_id, action_kind_id, prev_window_count, window_count, updated_at) VALUES (?1, ?2, ?3, ?4, ?5, ?6)";

pub const UPDATE: &'static str = "UPDATE action_rate_limits SET prev_window_count = ?4, window_count = ?5, updated_at = ?6 WHERE organization_id = ?1 AND people_id = ?2 AND action_kind_id = ?3";

pub fn create_table(conn: &mut rusqlite::Connection) -> (r: Result<(), SqliteInterfaceError>)
    ensures
        r matches Err(e) ==> e is Rusqlite,
{
    store::create_table::<ActionRateLimit>(conn)
}

/// A counter whose window started before `now` and less than two windows ago.
pub open spec fn recent(r: ActionRateLimit, now: i64, window: i64) -> bool {
    r.updated_at < now && now - r.updated_at < 2 * window
}

fn is_recent(r: &ActionRateLimit, now: i64, window: i64) -> (b: bool)
    ensures
        b == recent(*r, now, window),
{
    r.updated_at < now && (now as i128 - r.updated_at as i128) < 2 * (window as i128)
}

pub struct ReadParams {
    pub organization_id: i64,
    pub window_length_ms: i64,
    pub current_timestamp: i64,
    pub offset: i64,
    pub limit: i64,
}

/// A recent counter of the organization.
impl Condition<ActionRateLimit> for ReadParams {
    open spec fn holds(&self, r: ActionRateLimit) -> bool {
        r.organization_id == self.organization_id && recent(r, self.current_timestamp, self.window_length_ms)
    }

    fn check(&self, r: &ActionRateLimit) -> (b: bool) {
        r.organization_id == self.organization_id && is_recent(r, self.current_timestamp, self.window_length_ms)
    }
}

/// The page of recent counters of the organization that `rows` hold.
pub fn read_in(rows: &Vec<ActionRateLimit>, params: &ReadParams) -> (page: Vec<ActionRateLimit>)
    ensures
        page@ == selection(rows@, *params, params.offset, params.limit),
{
    select_rows(rows, params, params.offset, params.limit)
}

pub fn read(conn: &mut rusqlite::Connection, params: &ReadParams) -> (r: Result<Vec<Result<ActionRateLimit, SqliteInterfaceError>>, SqliteInterfaceError>)
    ensures
        r matches Ok(page) ==> exists|rows: Seq<ActionRateLimit>| all_ok(page@, #[trigger] selection(rows, *params, params.offset, params.limit)),
        r matches Ok(page) ==> forall|i: int| 0 <= i < page@.len() ==> (#[trigger] page@[i] matches Ok(row) && params.holds(row)),
        r matches Ok(page) ==> (0 <= params.limit ==> page@.len() <= params.limit),
        r matches Err(e) ==> read_error(e),
{
    let rows = load(conn)?;
    let page = read_in(&rows, params);
    let out = all_ok_rows(&page);
    proof {
        assert(all_ok(out@, selection(rows@, *params, params.offset, params.limit)));
        crate::rows::lemma_selection(rows@, *params, params.offset, params.limit);
    }
    Ok(out)
}

pub struct ReadByPersonParams {
    pub organization_id: i64,
    pub people_id: i64,
    pub window_length_ms: i64,
    pub current_timestamp: i64,
    pub offset: i64,
    pub limit: i64,
}

/// A recent counter of the person.
impl Condition<ActionRateLimit> for ReadByPersonParams {
    open spec fn holds(&self, r: ActionRateLimit) -> bool {
        &&& r.organization_id == self.organization_id
        &&& r.people_id == self.people_id
        &&& recent(r, self.current_timestamp, self.window_length_ms)
    }

    fn check(&self, r: &ActionRateLimit) -> (b: bool) {
        r.organization_id == self.organization_id && r.people_id == self.people_id
            && is_recent(r, self.current_timestamp, self.window_length_ms)
    }
}

/// The page of recent counters of the person that `rows` hold.
pub fn read_by_person_in(rows: &Vec<ActionRateLimit>, params: &ReadByPersonParams) -> (page: Vec<ActionRateLimit>)
    ensures
        page@ == selection(rows@, *params, params.offset, params.limit),
{
    select_rows(rows, params, params.offset, params.limit)
}

pub fn read_by_person(conn: &mut rusqlite::Connection, params: &ReadByPersonParams) -> (r: Result<Vec<Result<ActionRateLimit, SqliteInterfaceError>>, SqliteInterfaceError>)
    ensures
        r matches Ok(page) ==> exists|rows: Seq<ActionRateLimit>| all_ok(page@, #[trigger] selection(rows, *params, params.offset, params.limit)),
        r matches Ok(page) ==> forall|i: int| 0 <= i < page@.len() ==> (#[trigger] page@[i] matches Ok(row) && params.holds(row)),
        r matches Ok(page) ==> (0 <= params.limit ==> page@.len() <= params.limit),
        r matches Err(e) ==> read_error(e),
{
    let rows = load(conn)?;
    let page = read_by_person_in(&rows, params);
    let out = all_ok_rows(&page);
    proof {
        assert(all_ok(out@, selection(rows@, *params, params.offset, params.limit)));
        crate::rows::lemma_selection(rows@, *params, params.offset, params.limit);
    }
    Ok(out)
}

pub struct IncrementRateLimitParams {
    pub organization_id: i64,
    pub people_id: i64,
    pub action_kind_id: i64,
    pub window_length_ms: i64,
    pub current_timestamp: i64,
}

/// The counter of that kind of action by that person.
impl Condition<ActionRateLimit> for IncrementRateLimitParams {
    open spec fn holds(&self, r: ActionRateLimit) -> bool {
        &&& r.organization_id == self.organization_id
        &&& r.people_id == self.people_id
        &&& r.action_kind_id == self.action_kind_id
    }

    fn check(&self, r: &ActionRateLimit) -> (b: bool) {
        r.organization_id == self.organization_id && r.people_id == self.people_id
            && r.action_kind_id == self.action_kind_id
    }
}

/// The counter that the first action of its kind starts: one hit in a window
/// that starts now.
pub open spec fn fresh(params: IncrementRateLimitParams) -> ActionRateLimit {
    ActionRateLimit {
        organization_id: params.organization_id,
        people_id: params.people_id,
        action_kind_id: params.action_kind_id,
        prev_window_count: 0,
        window_count: 1,
        updated_at: params.current_timestamp,
    }
}

/// The counter after one more action at `now`, or `None` when its count cannot
/// grow any further.
pub open spec fn hit_counter(r: ActionRateLimit, now: i64, window: i64) -> Option<ActionRateLimit> {
    if hit_fits(r.window_count, r.updated_at, now, window) {
        Some(
            ActionRateLimit {
                prev_window_count: next_prev_count(r.prev_window_count, r.window_count, r.updated_at, now, window) as i64,
                window_count: next_window_count(r.window_count, r.updated_at, now, window) as i64,
                updated_at: next_updated_at(r.updated_at, now, window) as i64,
                ..r
            },
        )
    } else {
        None
    }
}

/// What `increment_rate_limit` stores and returns, given the rows of the
/// table: a stored counter only moves when its window started before `now`.
pub open spec fn incremented(rows: Seq<ActionRateLimit>, params: IncrementRateLimitParams) -> Option<ActionRateLimit> {
    match first_matching(rows, params) {
        Some(r) => if r.updated_at < params.current_timestamp {
            hit_counter(r, params.current_timestamp, params.window_length_ms)
        } else {
            None
        },
        None => Some(fresh(params)),
    }
}

/// The table after `increment_rate_limit` stored `r`: a new row, or the
/// counter's row rewritten.
pub open spec fn after_increment(rows: Seq<ActionRateLimit>, params: IncrementRateLimitParams, r: ActionRateLimit) -> Seq<ActionRateLimit> {
    if first_matching(rows, params) is Some {
        rewritten(rows, params, r)
    } else {
        rows.push(r)
    }
}

/// The counter after one more action, as `rows` hold it.
pub fn increment_rate_limit_in(rows: &Vec<ActionRateLimit>, params: &IncrementRateLimitParams) -> (r: Option<ActionRateLimit>)
    ensures
        r == incremented(rows@, *params),
{
    match find_first(rows, params) {
        None => Some(
            ActionRateLimit {
                organization_id: params.organization_id,
                people_id: params.people_id,
                action_kind_id: params.action_kind_id,
                prev_window_count: 0,
                window_count: 1,
                updated_at: params.current_timestamp,
            },
        ),
        Some(r) => {
            if r.updated_at < params.current_timestamp {
                match hit(r.prev_window_count, r.window_count, r.updated_at, params.current_timestamp, params.window_length_ms) {
                    Some((prev_window_count, window_count, updated_at)) => Some(ActionRateLimit { prev_window_count, window_count, updated_at, ..r }),
                    None => None,
                }
            } else {
                None
            }
        },
    }
}

/// The statement that stores the counter after one more request, and the row
/// whose columns are its parameters: an `UPDATE` of the row with that key when
/// `rows` hold one, else an `INSERT`; `None` when nothing is to be stored.
pub fn increment_statement(rows: &Vec<ActionRateLimit>, params: &IncrementRateLimitParams) -> (s: Option<(&'static str, ActionRateLimit)>)
    ensures
        match s {
            Some((sql, row)) => {
                &&& incremented(rows@, *params) == Some(row)
                &&& sql@ == (if first_matching(rows@, *params) is Some { UPDATE@ } else { INSERT@ })
            },
            None => incremented(rows@, *params) is None,
        },
{
    let known = find_first(rows, params).is_some();
    match increment_rate_limit_in(rows, params) {
        Some(row) => {
            if known {
                Some((UPDATE, row))
            } else {
                Some((INSERT, row))
            }
        },
        None => None,
    }
}

/// Counts one more action of the kind by the person, starting the counter if
/// there is none; `None` when the stored counter is not older than `now`.
pub fn increment_rate_limit(conn: &mut rusqlite::Connection, params: &IncrementRateLimitParams) -> (r: Result<Option<ActionRateLimit>, SqliteInterfaceError>)
    ensures
        r matches Ok(Some(c)) ==> exists|rows: Seq<ActionRateLimit>| #[trigger] incremented(rows, *params) == Some(c),
        r matches Ok(found) ==> exists|rows: Seq<ActionRateLimit>, n: int| #[trigger] if_written(n, incremented(rows, *params)) == found,
        r matches Err(e) ==> read_error(e),
{
    store::begin(conn)?;
    let r = increment_rate_limit_within(conn, params);
    store::finish(conn, r)
}

/// `increment_rate_limit` inside the savepoint that `increment_rate_limit` opens.
fn increment_rate_limit_within(conn: &mut rusqlite::Connection, params: &IncrementRateLimitParams) -> (r: Result<Option<ActionRateLimit>, SqliteInterfaceError>)
    ensures
        r matches Ok(Some(c)) ==> exists|rows: Seq<ActionRateLimit>| #[trigger] incremented(rows, *params) == Some(c),
        r matches Ok(found) ==> exists|rows: Seq<ActionRateLimit>, n: int| #[trigger] if_written(n, incremented(rows, *params)) == found,
        r matches Err(e) ==> read_error(e),
{
    let rows = load(conn)?;
    match increment_statement(&rows, params) {
        Some((sql, c)) => {
            let n = store::write(conn, sql, &c)?;
            Ok(store::written(n, c))
        },
        None => {
            proof {
                assert(if_written(0, incremented(rows@, *params)) == None::<ActionRateLimit>);
            }
            Ok(None)
        },
    }
}

pub struct DangerouslyDeleteParams {
    pub organization_id: i64,
    pub window_length_ms: i64,
    pub current_timestamp: i64,
}

/// A counter of the organization idle for more than two windows.
impl Condition<ActionRateLimit> for DangerouslyDeleteParams {
    open spec fn holds(&self, r: ActionRateLimit) -> bool {
        r.organization_id == self.organization_id && 2 * self.window_length_ms < self.current_timestamp - r.updated_at
    }

    fn check(&self, r: &ActionRateLimit) -> (b: bool) {
        r.organization_id == self.organization_id
            && 2 * (self.window_length_ms as i128) < self.current_timestamp as i128 - r.updated_at as i128
    }
}

/// The counters of `rows` that `dangerously_delete` removes.
pub fn dangerously_delete_in(rows: &Vec<ActionRateLimit>, params: &DangerouslyDeleteParams) -> (stale: Vec<ActionRateLimit>)
    ensures
        stale@ == matching(rows@, *params),
{
    filter_rows(rows, params)
}

/// Removes for good the counters of the organization idle for more than two
/// windows.
pub fn dangerously_delete(conn: &mut rusqlite::Connection, params: &DangerouslyDeleteParams) -> (r: Result<(), SqliteInterfaceError>)
    ensures
        r matches Err(e) ==> read_error(e),
{
    store::begin(conn)?;
    let r = dangerously_delete_within(conn, params);
    store::finish(conn, r)
}

/// `dangerously_delete` inside the savepoint that `dangerously_delete` opens.
fn dangerously_delete_within(conn: &mut rusqlite::Connection, params: &DangerouslyDeleteParams) -> (r: Result<(), SqliteInterfaceError>)
    ensures
        r matches Err(e) ==> read_error(e),
{
    let rows = load(conn)?;
    let stale = dangerously_delete_in(&rows, params);
    store::delete_each(conn, &stale)
}

/// What an action sees is what the one before it stored: the counter that
/// the second of two actions counts on is the one the first left behind.
pub proof fn lemma_increment_sees_last_increment(rows: Seq<ActionRateLimit>, first: IncrementRateLimitParams, second: IncrementRateLimitParams)
    requires
        incremented(rows, first) is Some,
        second.organization_id == first.organization_id,
        second.people_id == first.people_id,
        second.action_kind_id == first.action_kind_id,
        incremented(rows, first)->0.updated_at < second.current_timestamp,
    ensures
        incremented(after_increment(rows, first, incremented(rows, first)->0), second)
            == hit_counter(incremented(rows, first)->0, second.current_timestamp, second.window_length_ms),
{
    let c = incremented(rows, first)->0;
    let after = after_increment(rows, first, c);
    if first_matching(rows, first) is Some {
        lemma_rewritten_first(rows, first, c);
    } else {
        lemma_appended_first(rows, first, c);
    }
    lemma_same_condition(after, first, second);
}

/// A counter is never moved by an action stamped no later than its window's
/// start: such an action is refused.
pub proof fn lemma_stale_action_refused(rows: Seq<ActionRateLimit>, params: IncrementRateLimitParams)
    requires
        first_matching(rows, params) matches Some(r) && params.current_timestamp <= r.updated_at,
    ensures
        incremented(rows, params) == None::<ActionRateLimit>,
{
}

/// `dangerously_delete` leaves no counter of the organization idle for more
/// than two windows, and keeps every other counter.
pub proof fn lemma_dangerously_delete_keeps_the_rest(rows: Seq<ActionRateLimit>, p: DangerouslyDeleteParams)
    ensures
        forall|k: int| 0 <= k < without(rows, p).len() ==> !p.holds(#[trigger] without(rows, p)[k]),
        forall|k: int| 0 <= k < rows.len() && !p.holds(rows[k]) ==> without(rows, p).contains(#[trigger] rows[k]),
{
    lemma_without(rows, p);
}

/// Rows that belong to one person.
pub open spec fn of_person(people_id: i64) -> spec_fn(ActionRateLimit) -> bool {
    |r: ActionRateLimit| r.people_id == people_id
}

/// Reading by person gives, in their order, the counters of the organization's
/// read that belong to the person, when neither read has an offset or a
/// limit.
pub proof fn lemma_read_by_person_within_read(rows: Seq<ActionRateLimit>, q: ReadByPersonParams, p: ReadParams)
    requires
        q.organization_id == p.organization_id,
        q.window_length_ms == p.window_length_ms,
        q.current_timestamp == p.current_timestamp,
        q.offset == 0,
        p.offset == 0,
        q.limit < 0,
        p.limit < 0,
    ensures
        selection(rows, q, q.offset, q.limit) == selection(rows, p, p.offset, p.limit).filter(of_person(q.people_id)),
{
    crate::rows::lemma_matching_refined(rows, p, q, of_person(q.people_id));
    crate::rows::lemma_selection_unbounded(rows, q, q.limit);
    crate::rows::lemma_selection_unbounded(rows, p, p.limit);
}

/// The counter after one more hit at `now` under the window rule, each value
/// computed from the old ones: after more than one window the count restarts
/// at one and the window at `now`, and the previous count becomes the old
/// count, or zero after more than two windows; within a window the count
/// grows by one and the rest is kept.
pub open spec fn by_window_rule(r: ActionRateLimit, now: i64, window: i64) -> ActionRateLimit {
    let d = now - r.updated_at;
    ActionRateLimit {
        window_count: if window < d { 1 } else { (r.window_count + 1) as i64 },
        prev_window_count: if 2 * window < d {
            0
        } else if window < d {
            r.window_count
        } else {
            r.prev_window_count
        },
        updated_at: if window < d { now } else { r.updated_at },
        ..r
    }
}

/// An action on the one counter with its key, stamped after the counter's
/// window start, follows the window rule (when the count can still grow).
pub proof fn lemma_increment_follows_window_rule(rows: Seq<ActionRateLimit>, params: IncrementRateLimitParams, k: int)
    requires
        0 <= k < rows.len(),
        params.holds(rows[k]),
        forall|j: int| 0 <= j < rows.len() && j != k ==> !params.holds(#[trigger] rows[j]),
        rows[k].updated_at < params.current_timestamp,
        params.window_length_ms < params.current_timestamp - rows[k].updated_at || rows[k].window_count < i64::MAX,
    ensures
        incremented(rows, params) == Some(by_window_rule(rows[k], params.current_timestamp, params.window_length_ms)),
{
    crate::rows::lemma_only_match(rows, params, k);
}

/// An action on the one counter with its key, stamped no later than the
/// counter's window start, stores nothing: no statement is handed on.
pub proof fn lemma_stale_action_stores_nothing(rows: Seq<ActionRateLimit>, params: IncrementRateLimitParams, k: int)
    requires
        0 <= k < rows.len(),
        params.holds(rows[k]),
        forall|j: int| 0 <= j < rows.len() && j != k ==> !params.holds(#[trigger] rows[j]),
        params.current_timestamp <= rows[k].updated_at,
    ensures
        incremented(rows, params) == None::<ActionRateLimit>,
{
    crate::rows::lemma_only_match(rows, params, k);
}

/// An action is counted on the counter of its own organization, person and
/// kind of action only: the counter it stores has those three, its count is
/// one or one more than a stored counter of theirs, and when the table holds
/// no counter for them (whatever it holds for other kinds or people) it is a
/// fresh one, with one action in a window that starts now.
pub proof fn lemma_increment_counts_its_own_kind(rows: Seq<ActionRateLimit>, p: IncrementRateLimitParams)
    ensures
        incremented(rows, p) matches Some(c) ==> c.organization_id == p.organization_id && c.people_id == p.people_id
            && c.action_kind_id == p.action_kind_id,
        incremented(rows, p) matches Some(c) ==> c.window_count == 1 || exists|r: ActionRateLimit| #[trigger] rows.contains(r) && r.organization_id == p.organization_id && r.people_id == p.people_id && r.action_kind_id == p.action_kind_id && c.window_count == r.window_count + 1,
        (forall|r: ActionRateLimit| #[trigger] rows.contains(r) ==> !(r.organization_id == p.organization_id && r.people_id == p.people_id && r.action_kind_id == p.action_kind_id)) ==> (incremented(rows, p) matches Some(c) && c.window_count == 1
            && c.prev_window_count == 0 && c.updated_at == p.current_timestamp),
{
    crate::rows::lemma_first_matching_members(rows, p);
}

/// A read gives counters of the table that belong to the organization and whose window started before now and less than two windows ago; unpaged, it gives every such counter.
pub proof fn lemma_read_is_the_recent_counters(rows: Seq<ActionRateLimit>, p: ReadParams)
    ensures
        forall|x: ActionRateLimit| #[trigger] crate::rows::selection(rows, p, p.offset, p.limit).contains(x) ==> rows.contains(x) && (x.organization_id == p.organization_id && x.updated_at < p.current_timestamp && p.current_timestamp - x.updated_at < 2 * p.window_length_ms),
        p.offset <= 0 && p.limit < 0 ==> forall|x: ActionRateLimit|
            #[trigger] crate::rows::selection(rows, p, p.offset, p.limit).contains(x) <==> rows.contains(x) && (x.organization_id == p.organization_id && x.updated_at < p.current_timestamp && p.current_timestamp - x.updated_at < 2 * p.window_length_ms),
{
    crate::rows::lemma_selection_members(rows, p, p.offset, p.limit);
}

/// A read by person gives counters of the table that belong to the organization and the person and whose window started before now and less than two windows ago; unpaged, it gives every such counter.
pub proof fn lemma_read_by_person_is_the_persons_recent_counters(rows: Seq<ActionRateLimit>, p: ReadByPersonParams)
    ensures
        forall|x: ActionRateLimit| #[trigger] crate::rows::selection(rows, p, p.offset, p.limit).contains(x) ==> rows.contains(x) && (x.organization_id == p.organization_id && x.people_id == p.people_id && x.updated_at < p.current_timestamp && p.current_timestamp - x.updated_at < 2 * p.window_length_ms),
        p.offset <= 0 && p.limit < 0 ==> forall|x: ActionRateLimit|
            #[trigger] crate::rows::selection(rows, p, p.offset, p.limit).contains(x) <==> rows.contains(x) && (x.organization_id == p.organization_id && x.people_id == p.people_id && x.updated_at < p.current_timestamp && p.current_timestamp - x.updated_at < 2 * p.window_length_ms),
{
    crate::rows::lemma_selection_members(rows, p, p.offset, p.limit);
}

/// `dangerously_delete` picks exactly the counters of the organization idle for more than two windows.
pub proof fn lemma_dangerously_delete_picks_the_idle_counters(rows: Seq<ActionRateLimit>, p: DangerouslyDeleteParams)
    ensures
        forall|x: ActionRateLimit| #[trigger] crate::rows::matching(rows, p).contains(x) <==> rows.contains(x) && (x.organization_id == p.organization_id && 2 * p.window_length_ms < p.current_timestamp - x.updated_at),
{
    crate::rows::lemma_matching_members(rows, p);
}

/// The parameters that delete a row pick it out by the table's key: two rows
/// get the same ones exactly when their key columns agree.
pub proof fn lemma_key_is_the_primary_key(a: ActionRateLimit, b: ActionRateLimit)
    ensures
        ActionRateLimit::key_of(a) == ActionRateLimit::key_of(b) <==> (a.organization_id == b.organization_id && a.people_id == b.people_id && a.action_kind_id == b.action_kind_id),
{
    if ActionRateLimit::key_of(a) == ActionRateLimit::key_of(b) {
        assert(ActionRateLimit::key_of(a)[0] == ActionRateLimit::key_of(b)[0]);
        assert(ActionRateLimit::key_of(a)[1] == ActionRateLimit::key_of(b)[1]);
        assert(ActionRateLimit::key_of(a)[2] == ActionRateLimit::key_of(b)[2]);
    }
    if a.organization_id == b.organization_id && a.people_id == b.people_id && a.action_kind_id == b.action_kind_id {
        assert(ActionRateLimit::key_of(a) =~= ActionRateLimit::key_of(b));
    }
}

} // verus!
