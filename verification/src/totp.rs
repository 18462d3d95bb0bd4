//! The `totp` table: the one-time password secrets of people; deleting one
//! is soft, and soft-deleted secrets are purged later.

use vstd::prelude::*;
use crate::errors::SqliteInterfaceError;
use crate::rows::{
    all_ok, all_ok_rows, filter_rows, find_first, first_matching, lemma_appended_first,
    lemma_none_matching, lemma_without, matching, rewritten, select_rows, selection, without,
    Condition, IdIs, LiveId,
};
use crate::store::{self, if_written, reads_as, stored_cells, Stored};
use crate::type_flyweight::totp::Totp;
use crate::value::{
    int_of, opt_int, opt_int_of, opt_int_param, read_int, read_opt_int, read_text, text, text_of, Datum,
    Param,
};

verus! {

broadcast use vstd::seq_lib::group_seq_properties;

impl Stored for Totp {
    open spec fn definition_text() -> Seq<char> {
        "CREATE TABLE IF NOT EXISTS totp (
            id INTEGER PRIMARY KEY,
            organization_id INTEGER NOT NULL,
            people_id INTEGER NOT NULL,
            secret_key TEXT NOT NULL,
            algorithm INTEGER,
            period INTEGER,
            digits INTEGER,
            deleted_at INTEGER
        )"@
    }

    fn definition() -> (sql: &'static str) {
        "CREATE TABLE IF NOT EXISTS totp (
            id INTEGER PRIMARY KEY,
            organization_id INTEGER NOT NULL,
            people_id INTEGER NOT NULL,
            secret_key TEXT NOT NULL,
            algorithm INTEGER,
            period INTEGER,
            digits INTEGER,
            deleted_at INTEGER
        )"
    }

    open spec fn select_all_text() -> Seq<char> {
        "SELECT * FROM totp"@
    }

    fn select_all() -> (sql: &'static str) {
        "SELECT * FROM totp"
    }

    open spec fn delete_by_key_text() -> Seq<char> {
        "DELETE FROM totp WHERE id = ?1"@
    }

    fn delete_by_key() -> (sql: &'static str) {
        "DELETE FROM totp WHERE id = ?1"
    }

    open spec fn malformed_text() -> Seq<char> {
        "malformed row in totp"@
    }

    fn malformed() -> (text: &'static str) {
        "malformed row in totp"
    }

    open spec fn key_of(row: Totp) -> Seq<Param> {
        seq![Param::Integer(row.id)]
    }

    fn key(&self) -> (key: Vec<Param>) {
        let mut key: Vec<Param> = Vec::new();
        key.push(Param::Integer(self.id));
        assert(key@ =~= Self::key_of(*self));
        key
    }

    open spec fn decoded(cells: Seq<Datum>) -> Option<Totp> {
        if cells.len() >= 8 && int_of(cells[0]) is Some && int_of(cells[1]) is Some && int_of(cells[2]) is Some
            && text_of(cells[3]) is Some && opt_int_of(cells[4]) is Some && opt_int_of(cells[5]) is Some
            && opt_int_of(cells[6]) is Some && opt_int_of(cells[7]) is Some {
            Some(
                Totp {
                    id: int_of(cells[0])->0,
                    organization_id: int_of(cells[1])->0,
                    people_id: int_of(cells[2])->0,
                    secret_key: text_of(cells[3])->0,
                    algorithm: opt_int_of(cells[4])->0,
                    period: opt_int_of(cells[5])->0,
                    digits: opt_int_of(cells[6])->0,
                    deleted_at: opt_int_of(cells[7])->0,
                },
            )
        } else {
            None
        }
    }

    open spec fn cells_of(t: Totp) -> Seq<Param> {
        seq![
            Param::Integer(t.id),
            Param::Integer(t.organization_id),
            Param::Integer(t.people_id),
            Param::Text(t.secret_key),
            opt_int_param(t.algorithm),
            opt_int_param(t.period),
            opt_int_param(t.digits),
            opt_int_param(t.deleted_at),
        ]
    }

    fn decode(cells: &Vec<Datum>) -> (r: Option<Totp>) {
        if cells.len() < 8 {
            return None;
        }
        let id = match read_int(&cells[0]) { Some(v) => v, None => return None };
        let organization_id = match read_int(&cells[1]) { Some(v) => v, None => return None };
        let people_id = match read_int(&cells[2]) { Some(v) => v, None => return None };
        let secret_key = match read_text(&cells[3]) { Some(v) => v, None => return None };
        let algorithm = match read_opt_int(&cells[4]) { Some(v) => v, None => return None };
        let period = match read_opt_int(&cells[5]) { Some(v) => v, None => return None };
        let digits = match read_opt_int(&cells[6]) { Some(v) => v, None => return None };
        let deleted_at = match read_opt_int(&cells[7]) { Some(v) => v, None => return None };
        Some(Totp { id, organization_id, people_id, secret_key, algorithm, period, digits, deleted_at })
    }

    fn encode(&self) -> (cells: Vec<Param>) {
        let mut cells: Vec<Param> = Vec::new();
        cells.push(Param::Integer(self.id));
        cells.push(Param::Integer(self.organization_id));
        cells.push(Param::Integer(self.people_id));
        cells.push(text(&self.secret_key));
        cells.push(opt_int(self.algorithm));
        cells.push(opt_int(self.period));
        cells.push(opt_int(self.digits));
        cells.push(opt_int(self.deleted_at));
        assert(cells@ =~= Self::cells_of(*self));
        cells
    }
}

/// A secret written and read back, with each value kept as given, reads as
/// itself.
pub proof fn lemma_round_trip(k: Totp)
    ensures
        Totp::decoded(stored_cells(Totp::cells_of(k))) == Some(k),
{
    assert(stored_cells(Totp::cells_of(k)).len() == 8);
}

impl Condition<Totp> for IdIs {
    open spec fn holds(&self, k: Totp) -> bool {
        k.id == self.id
    }

    fn check(&self, k: &Totp) -> (b: bool) {
        k.id == self.id
    }
}

impl Condition<Totp> for LiveId {
    open spec fn holds(&self, k: Totp) -> bool {
        k.id == self.id && k.deleted_at is None
    }

    fn check(&self, k: &Totp) -> (b: bool) {
        k.id == self.id && k.deleted_at.is_none()
    }
}

/// An error of a read of this table: SQLite's own, or a row that does not
/// read as a TOTP secret.
pub open spec fn read_error(e: SqliteInterfaceError) -> bool {
    e is Rusqlite || e.is_custom("malformed row in totp"@)
}

fn load(conn: &rusqlite::Connection) -> (r: Result<Vec<Totp>, SqliteInterfaceError>)
    ensures
        r matches Ok(rows) ==> exists|raw: Seq<Seq<Datum>>| #[trigger] reads_as(raw, rows@),
        r matches Err(e) ==> read_error(e),
{
    store::load(conn)
}

const INSERT: &'static str = "INSERT INTO totp (id, organization_id, people_id, secret_key, algorithm, period, digits, deleted_at) VALUES (?1, ?2, ?3, ?4, ?5, ?6, ?7, ?8)";

const UPDATE: &'static str = "UPDATE totp SET organization_id = ?2, people_id = ?3, secret_key = ?4, algorithm = ?5, period = ?6, digits = ?7, deleted_at = ?8 WHERE id = ?1";

pub fn create_table(conn: &mut rusqlite::Connection) -> (r: Result<(), SqliteInterfaceError>)
    ensures
        r matches Err(e) ==> e is Rusqlite,
{
    store::create_table::<Totp>(conn)
}

pub struct CreateParams {
    pub id: i64,
    pub organization_id: i64,
    pub people_id: i64,
    pub secret_key: String,
    pub algorithm: Option<i64>,
    pub period: Option<i64>,
    pub digits: Option<i64>,
}

/// The secret that `create` stores.
pub open spec fn created(params: CreateParams) -> Totp {
    Totp {
        id: params.id,
        organization_id: params.organization_id,
        people_id: params.people_id,
        secret_key: params.secret_key,
        algorithm: params.algorithm,
        period: params.period,
        digits: params.digits,
        deleted_at: None,
    }
}

pub fn new_totp(params: &CreateParams) -> (t: Totp)
    ensures
        t == created(*params),
{
    Totp {
        id: params.id,
        organization_id: params.organization_id,
        people_id: params.people_id,
        secret_key: params.secret_key.clone(),
        algorithm: params.algorithm,
        period: params.period,
        digits: params.digits,
        deleted_at: None,
    }
}

/// Stores a new secret; it fails where the database refuses the row (an id that
/// is taken, or no table).
pub fn create(conn: &mut rusqlite::Connection, params: &CreateParams) -> (r: Result<Totp, SqliteInterfaceError>)
    ensures
        r matches Ok(k) ==> k == created(*params),
        r matches Err(e) ==> e is Rusqlite || e.is_custom("failed to create totp"@),
{
    let k = new_totp(params);
    let n = store::insert(conn, INSERT, &k, "failed to create totp")?;
    store::inserted(n, k, "failed to create totp")
}

/// The secret with that id, unless it was deleted, as `rows` hold it.
pub fn read_by_id_in(rows: &Vec<Totp>, id: i64) -> (r: Option<Totp>)
    ensures
        r == first_matching(rows@, LiveId { id }),
{
    find_first(rows, &LiveId { id })
}

pub fn read_by_id(conn: &mut rusqlite::Connection, id: i64) -> (r: Result<Option<Totp>, SqliteInterfaceError>)
    ensures
        r matches Ok(found) ==> exists|rows: Seq<Totp>| #[trigger] first_matching(rows, LiveId { id }) == found,
        r matches Ok(Some(k)) ==> k.id == id && k.deleted_at is None,
        r matches Err(e) ==> read_error(e),
{
    let rows = load(conn)?;
    let r = read_by_id_in(&rows, id);
    proof {
        if r is Some {
            broadcast use vstd::seq_lib::group_filter_ensures;
        }
    }
    Ok(r)
}

pub struct ReadParams {
    pub organization_id: i64,
    pub offset: i64,
    pub limit: i64,
}

/// A live secret of the organization.
impl Condition<Totp> for ReadParams {
    open spec fn holds(&self, k: Totp) -> bool {
        k.deleted_at is None && k.organization_id == self.organization_id
    }

    fn check(&self, k: &Totp) -> (b: bool) {
        k.deleted_at.is_none() && k.organization_id == self.organization_id
    }
}

/// The page of live secrets of the organization that `rows` hold.
pub fn read_in(rows: &Vec<Totp>, params: &ReadParams) -> (page: Vec<Totp>)
    ensures
        page@ == selection(rows@, *params, params.offset, params.limit),
{
    select_rows(rows, params, params.offset, params.limit)
}

pub fn read(conn: &mut rusqlite::Connection, params: &ReadParams) -> (r: Result<Vec<Result<Totp, SqliteInterfaceError>>, SqliteInterfaceError>)
    ensures
        r matches Ok(page) ==> exists|rows: Seq<Totp>| all_ok(page@, #[trigger] selection(rows, *params, params.offset, params.limit)),
        r matches Ok(page) ==> forall|i: int| 0 <= i < page@.len() ==> (#[trigger] page@[i] matches Ok(row) && params.holds(row)),
        r matches Ok(page) ==> (0 <= params.limit ==> page@.len() <= params.limit),
        r matches Err(e) ==> read_error(e),
{
    let rows = load(conn)?;
    let page = read_in(&rows, params);
    let out = all_ok_rows(&page);
    proof {
        assert(all_ok(out@, selection(rows@, *params, params.offset, params.limit)));
        crate::rows::lemma_selection(rows@, *params, params.offset, params.limit);
    }
    Ok(out)
}

pub struct ReadByPersonParams {
    pub organization_id: i64,
    pub people_id: i64,
    pub offset: i64,
    pub limit: i64,
}

/// A live secret of the person.
impl Condition<Totp> for ReadByPersonParams {
    open spec fn holds(&self, k: Totp) -> bool {
        k.deleted_at is None && k.organization_id == self.organization_id && k.people_id == self.people_id
    }

    fn check(&self, k: &Totp) -> (b: bool) {
        k.deleted_at.is_none() && k.organization_id == self.organization_id && k.people_id == self.people_id
    }
}

/// The page of live secrets of the person that `rows` hold.
pub fn read_by_person_in(rows: &Vec<Totp>, params: &ReadByPersonParams) -> (page: Vec<Totp>)
    ensures
        page@ == selection(rows@, *params, params.offset, params.limit),
{
    select_rows(rows, params, params.offset, params.limit)
}

pub fn read_by_person(conn: &mut rusqlite::Connection, params: &ReadByPersonParams) -> (r: Result<Vec<Result<Totp, SqliteInterfaceError>>, SqliteInterfaceError>)
    ensures
        r matches Ok(page) ==> exists|rows: Seq<Totp>| all_ok(page@, #[trigger] selection(rows, *params, params.offset, params.limit)),
        r matches Ok(page) ==> forall|i: int| 0 <= i < page@.len() ==> (#[trigger] page@[i] matches Ok(row) && params.holds(row)),
        r matches Ok(page) ==> (0 <= params.limit ==> page@.len() <= params.limit),
        r matches Err(e) ==> read_error(e),
{
    let rows = load(conn)?;
    let page = read_by_person_in(&rows, params);
    let out = all_ok_rows(&page);
    proof {
        assert(all_ok(out@, selection(rows@, *params, params.offset, params.limit)));
        crate::rows::lemma_selection(rows@, *params, params.offset, params.limit);
    }
    Ok(out)
}

pub struct DeleteParams {
    pub id: i64,
    pub current_timestamp: i64,
}

/// The secret with that id, deleted or not.
impl Condition<Totp> for DeleteParams {
    open spec fn holds(&self, k: Totp) -> bool {
        k.id == self.id
    }

    fn check(&self, k: &Totp) -> (b: bool) {
        k.id == self.id
    }
}

/// What `delete` stores and returns, given the rows of the table.
pub open spec fn deleted(rows: Seq<Totp>, params: DeleteParams) -> Option<Totp> {
    match first_matching(rows, params) {
        Some(k) => Some(Totp { deleted_at: Some(params.current_timestamp), ..k }),
        None => None,
    }
}

/// The secret with that id, marked deleted at `now`, as `rows` hold it.
pub fn delete_in(rows: &Vec<Totp>, params: &DeleteParams) -> (r: Option<Totp>)
    ensures
        r == deleted(rows@, *params),
{
    match find_first(rows, params) {
        Some(k) => Some(Totp { deleted_at: Some(params.current_timestamp), ..k }),
        None => None,
    }
}

/// Deletes a secret softly, stamping it with `now` even if it was deleted
/// before; `None` when no secret has that id.
pub fn delete(conn: &mut rusqlite::Connection, params: &DeleteParams) -> (r: Result<Option<Totp>, SqliteInterfaceError>)
    ensures
        r matches Ok(Some(k)) ==> exists|rows: Seq<Totp>| #[trigger] deleted(rows, *params) == Some(k),
        r matches Ok(found) ==> exists|rows: Seq<Totp>, n: int| #[trigger] if_written(n, deleted(rows, *params)) == found,
        r matches Err(e) ==> read_error(e),
{
    store::begin(conn)?;
    let r = delete_within(conn, params);
    store::finish(conn, r)
}

/// `delete` inside the savepoint that `delete` opens.
fn delete_within(conn: &mut rusqlite::Connection, params: &DeleteParams) -> (r: Result<Option<Totp>, SqliteInterfaceError>)
    ensures
        r matches Ok(Some(k)) ==> exists|rows: Seq<Totp>| #[trigger] deleted(rows, *params) == Some(k),
        r matches Ok(found) ==> exists|rows: Seq<Totp>, n: int| #[trigger] if_written(n, deleted(rows, *params)) == found,
        r matches Err(e) ==> read_error(e),
{
    let rows = load(conn)?;
    match delete_in(&rows, params) {
        Some(k) => {
            let n = store::write(conn, UPDATE, &k)?;
            Ok(store::written(n, k))
        },
        None => {
            proof {
                assert(if_written(0, deleted(rows@, *params)) == None::<Totp>);
            }
            Ok(None)
        },
    }
}

pub struct DangerouslyDeleteParams {
    pub organization_id: i64,
    pub window_length_ms: i64,
    pub current_timestamp: i64,
}

/// A secret of the organization deleted more than a window before now.
impl Condition<Totp> for DangerouslyDeleteParams {
    open spec fn holds(&self, k: Totp) -> bool {
        match k.deleted_at {
            Some(d) => k.organization_id == self.organization_id && self.window_length_ms < self.current_timestamp - d,
            None => false,
        }
    }

    fn check(&self, k: &Totp) -> (b: bool) {
        match k.deleted_at {
            Some(d) => k.organization_id == self.organization_id
                && (self.window_length_ms as i128) < self.current_timestamp as i128 - d as i128,
            None => false,
        }
    }
}

/// The secrets of `rows` that `dangerously_delete` removes.
pub fn dangerously_delete_in(rows: &Vec<Totp>, params: &DangerouslyDeleteParams) -> (stale: Vec<Totp>)
    ensures
        stale@ == matching(rows@, *params),
{
    filter_rows(rows, params)
}

/// Removes for good the secrets of the organization deleted softly more than a
/// window ago.
pub fn dangerously_delete(conn: &mut rusqlite::Connection, params: &DangerouslyDeleteParams) -> (r: Result<(), SqliteInterfaceError>)
    ensures
        r matches Err(e) ==> read_error(e),
{
    store::begin(conn)?;
    let r = dangerously_delete_within(conn, params);
    store::finish(conn, r)
}

/// `dangerously_delete` inside the savepoint that `dangerously_delete` opens.
fn dangerously_delete_within(conn: &mut rusqlite::Connection, params: &DangerouslyDeleteParams) -> (r: Result<(), SqliteInterfaceError>)
    ensures
        r matches Err(e) ==> read_error(e),
{
    let rows = load(conn)?;
    let stale = dangerously_delete_in(&rows, params);
    store::delete_each(conn, &stale)
}

/// A secret just created is read back by its id.
pub proof fn lemma_created_secret_is_read(rows: Seq<Totp>, c: CreateParams)
    requires
        forall|k: int| 0 <= k < rows.len() ==> (#[trigger] rows[k]).id != c.id,
    ensures
        first_matching(rows.push(created(c)), LiveId { id: c.id }) == Some(created(c)),
{
    lemma_none_matching(rows, LiveId { id: c.id });
    lemma_appended_first(rows, LiveId { id: c.id }, created(c));
}

/// A secret deleted softly is no longer read by its id.
pub proof fn lemma_deleted_secret_is_not_read(rows: Seq<Totp>, d: DeleteParams)
    requires
        deleted(rows, d) is Some,
    ensures
        first_matching(rewritten(rows, IdIs { id: d.id }, deleted(rows, d)->0), LiveId { id: d.id }) == None::<Totp>,
{
    let x = deleted(rows, d)->0;
    let after = rewritten(rows, IdIs { id: d.id }, x);
    broadcast use vstd::seq_lib::group_filter_ensures;
    assert(d.holds(matching(rows, d)[0]));
    assert forall|k: int| 0 <= k < after.len() implies !LiveId { id: d.id }.holds(#[trigger] after[k]) by {}
    lemma_none_matching(after, LiveId { id: d.id });
}

/// `dangerously_delete` leaves no secret of the organization deleted more than a
/// window ago, and keeps every other secret.
pub proof fn lemma_dangerously_delete_keeps_the_rest(rows: Seq<Totp>, p: DangerouslyDeleteParams)
    ensures
        forall|k: int| 0 <= k < without(rows, p).len() ==> !p.holds(#[trigger] without(rows, p)[k]),
        forall|k: int| 0 <= k < rows.len() && !p.holds(rows[k]) ==> without(rows, p).contains(#[trigger] rows[k]),
{
    lemma_without(rows, p);
}

/// Rows that belong to one person.
pub open spec fn of_person(people_id: i64) -> spec_fn(Totp) -> bool {
    |r: Totp| r.people_id == people_id
}

/// Reading by person gives, in their order, the secrets of the organization's
/// read that belong to the person, when neither read has an offset or a
/// limit.
pub proof fn lemma_read_by_person_within_read(rows: Seq<Totp>, q: ReadByPersonParams, p: ReadParams)
    requires
        q.organization_id == p.organization_id,
        q.offset == 0,
        p.offset == 0,
        q.limit < 0,
        p.limit < 0,
    ensures
        selection(rows, q, q.offset, q.limit) == selection(rows, p, p.offset, p.limit).filter(of_person(q.people_id)),
{
    crate::rows::lemma_matching_refined(rows, p, q, of_person(q.people_id));
    crate::rows::lemma_selection_unbounded(rows, q, q.limit);
    crate::rows::lemma_selection_unbounded(rows, p, p.limit);
}

/// A read gives secrets of the table that belong to the organization and are not deleted; unpaged, it gives every such one.
pub proof fn lemma_read_is_the_organizations_live_secrets(rows: Seq<Totp>, p: ReadParams)
    ensures
        forall|x: Totp| #[trigger] crate::rows::selection(rows, p, p.offset, p.limit).contains(x) ==> rows.contains(x) && (x.deleted_at is None && x.organization_id == p.organization_id),
        p.offset <= 0 && p.limit < 0 ==> forall|x: Totp|
            #[trigger] crate::rows::selection(rows, p, p.offset, p.limit).contains(x) <==> rows.contains(x) && (x.deleted_at is None && x.organization_id == p.organization_id),
{
    crate::rows::lemma_selection_members(rows, p, p.offset, p.limit);
}

/// A read by person gives secrets of the table that belong to the organization and the person and are not deleted; unpaged, it gives every such one.
pub proof fn lemma_read_by_person_is_the_persons_live_secrets(rows: Seq<Totp>, p: ReadByPersonParams)
    ensures
        forall|x: Totp| #[trigger] crate::rows::selection(rows, p, p.offset, p.limit).contains(x) ==> rows.contains(x) && (x.deleted_at is None && x.organization_id == p.organization_id && x.people_id == p.people_id),
        p.offset <= 0 && p.limit < 0 ==> forall|x: Totp|
            #[trigger] crate::rows::selection(rows, p, p.offset, p.limit).contains(x) <==> rows.contains(x) && (x.deleted_at is None && x.organization_id == p.organization_id && x.people_id == p.people_id),
{
    crate::rows::lemma_selection_members(rows, p, p.offset, p.limit);
}

/// A read by id gives a row of the table with that id that is not deleted, and gives none only when the table holds no such row.
pub proof fn lemma_read_by_id_is_the_live_row(rows: Seq<Totp>, id: i64)
    ensures
        crate::rows::first_matching(rows, (LiveId { id })) matches Some(x) ==> rows.contains(x) && (x.id == id && x.deleted_at is None),
        crate::rows::first_matching(rows, (LiveId { id })) is None ==> forall|x: Totp| #[trigger] rows.contains(x) ==> !(x.id == id && x.deleted_at is None),
{
    crate::rows::lemma_first_matching_members(rows, (LiveId { id }));
}

/// `delete` marks deleted, at the given time, a secret of the table with that id, and changes nothing else of it; it marks none only when the table holds no secret with that id.
pub proof fn lemma_delete_marks_the_secret(rows: Seq<Totp>, p: DeleteParams)
    ensures
        deleted(rows, p) matches Some(x) ==> exists|r: Totp| #[trigger] rows.contains(r) && (r.id == p.id) && x == (Totp { deleted_at: Some(p.current_timestamp), ..r }),
        deleted(rows, p) is None ==> forall|r: Totp| #[trigger] rows.contains(r) ==> !(r.id == p.id),
{
    crate::rows::lemma_first_matching_members(rows, p);
}

/// `dangerously_delete` picks exactly the secrets of the organization deleted more than a window ago.
pub proof fn lemma_dangerously_delete_picks_the_long_deleted_secrets(rows: Seq<Totp>, p: DangerouslyDeleteParams)
    ensures
        forall|x: Totp| #[trigger] crate::rows::matching(rows, p).contains(x) <==> rows.contains(x) && (x.deleted_at matches Some(d) && x.organization_id == p.organization_id && p.window_length_ms < p.current_timestamp - d),
{
    crate::rows::lemma_matching_members(rows, p);
}

/// `create` stores a secret with the given values, not deleted.
pub proof fn lemma_create_stores_the_given_values(c: CreateParams)
    ensures
        ({
            let k = created(c);
            c.id == k.id && c.organization_id == k.organization_id && c.people_id == k.people_id && c.secret_key == k.secret_key && c.algorithm == k.algorithm && c.period == k.period && c.digits == k.digits && k.deleted_at is None
        }),
{
}

/// The parameters that delete a row pick it out by the table's key: two rows
/// get the same ones exactly when their key columns agree.
pub proof fn lemma_key_is_the_primary_key(a: Totp, b: Totp)
    ensures
        Totp::key_of(a) == Totp::key_of(b) <==> (a.id == b.id),
{
    if Totp::key_of(a) == Totp::key_of(b) {
        assert(Totp::key_of(a)[0] == Totp::key_of(b)[0]);
    }
    if a.id == b.id {
        assert(Totp::key_of(a) =~= Totp::key_of(b));
    }
}

} // verus!
