//! The `api_keys` table: keys that give an organization access to the
//! service; deleting a key is soft, and soft-deleted keys are purged later.

use vstd::prelude::*;
use crate::errors::SqliteInterfaceError;
use crate::rows::{
    all_ok, all_ok_rows, filter_rows, find_first, first_matching, lemma_appended_first,
    lemma_none_matching, lemma_without, matching, rewritten, select_rows, selection, without,
    Condition, IdIs, LiveId,
};
use crate::store::{self, if_written, reads_as, stored_cells, Stored};
use crate::type_flyweight::api_keys::ApiKey;
use crate::value::{
    int_of, opt_int, opt_int_of, opt_int_param, read_int, read_opt_int, read_text, text, text_of, Datum,
    Param,
};

verus! {

broadcast use vstd::seq_lib::group_seq_properties;

impl Stored for ApiKey {
    open spec fn definition_text() -> Seq<char> {
        "CREATE TABLE IF NOT EXISTS api_keys (
            id INTEGER PRIMARY KEY,
            organization_id INTEGER NOT NULL,
            people_id INTEGER NOT NULL,
            title TEXT NOT NULL,
            token TEXT NOT NULL,
            lifetime INTEGER NOT NULL,
            created_at INTEGER NOT NULL,
            deleted_at INTEGER
        )"@
    }

    fn definition() -> (sql: &'static str) {
        "CREATE TABLE IF NOT EXISTS api_keys (
            id INTEGER PRIMARY KEY,
            organization_id INTEGER NOT NULL,
            people_id INTEGER NOT NULL,
            title TEXT NOT NULL,
            token TEXT NOT NULL,
            lifetime INTEGER NOT NULL,
            created_at INTEGER NOT NULL,
            deleted_at INTEGER
        )"
    }

    open spec fn select_all_text() -> Seq<char> {
        "SELECT * FROM api_keys"@
    }

    fn select_all() -> (sql: &'static str) {
        "SELECT * FROM api_keys"
    }

    open spec fn delete_by_key_text() -> Seq<char> {
        "DELETE FROM api_keys WHERE id = ?1"@
    }

    fn delete_by_key() -> (sql: &'static str) {
        "DELETE FROM api_keys WHERE id = ?1"
    }

    open spec fn malformed_text() -> Seq<char> {
        "malformed row in api_keys"@
    }

    fn malformed() -> (text: &'static str) {
        "malformed row in api_keys"
    }

    open spec fn key_of(row: ApiKey) -> Seq<Param> {
        seq![Param::Integer(row.id)]
    }

    fn key(&self) -> (key: Vec<Param>) {
        let mut key: Vec<Param> = Vec::new();
        key.push(Param::Integer(self.id));
        assert(key@ =~= Self::key_of(*self));
        key
    }

    open spec fn decoded(cells: Seq<Datum>) -> Option<ApiKey> {
        if cells.len() >= 8 && int_of(cells[0]) is Some && int_of(cells[1]) is Some && int_of(cells[2]) is Some
            && text_of(cells[3]) is Some && text_of(cells[4]) is Some && int_of(cells[5]) is Some
            && int_of(cells[6]) is Some && opt_int_of(cells[7]) is Some {
            Some(
                ApiKey {
                    id: int_of(cells[0])->0,
                    organization_id: int_of(cells[1])->0,
                    people_id: int_of(cells[2])->0,
                    title: text_of(cells[3])->0,
                    token: text_of(cells[4])->0,
                    lifetime: int_of(cells[5])->0,
                    created_at: int_of(cells[6])->0,
                    deleted_at: opt_int_of(cells[7])->0,
                },
            )
        } else {
            None
        }
    }

    open spec fn cells_of(k: ApiKey) -> Seq<Param> {
        seq![
            Param::Integer(k.id),
            Param::Integer(k.organization_id),
            Param::Integer(k.people_id),
            Param::Text(k.title),
            Param::Text(k.token),
            Param::Integer(k.lifetime),
            Param::Integer(k.created_at),
            opt_int_param(k.deleted_at),
        ]
    }

    fn decode(cells: &Vec<Datum>) -> (r: Option<ApiKey>) {
        if cells.len() < 8 {
            return None;
        }
        let id = match read_int(&cells[0]) { Some(v) => v, None => return None };
        let organization_id = match read_int(&cells[1]) { Some(v) => v, None => return None };
        let people_id = match read_int(&cells[2]) { Some(v) => v, None => return None };
        let title = match read_text(&cells[3]) { Some(v) => v, None => return None };
        let token = match read_text(&cells[4]) { Some(v) => v, None => return None };
        let lifetime = match read_int(&cells[5]) { Some(v) => v, None => return None };
        let created_at = match read_int(&cells[6]) { Some(v) => v, None => return None };
        let deleted_at = match read_opt_int(&cells[7]) { Some(v) => v, None => return None };
        Some(ApiKey { id, organization_id, people_id, title, token, lifetime, created_at, deleted_at })
    }

    fn encode(&self) -> (cells: Vec<Param>) {
        let mut cells: Vec<Param> = Vec::new();
        cells.push(Param::Integer(self.id));
        cells.push(Param::Integer(self.organization_id));
        cells.push(Param::Integer(self.people_id));
        cells.push(text(&self.title));
        cells.push(text(&self.token));
        cells.push(Param::Integer(self.lifetime));
        cells.push(Param::Integer(self.created_at));
        cells.push(opt_int(self.deleted_at));
        assert(cells@ =~= Self::cells_of(*self));
        cells
    }
}

/// A key written and read back, with each value kept as given, reads as
/// itself.
pub proof fn lemma_round_trip(k: ApiKey)
    ensures
        ApiKey::decoded(stored_cells(ApiKey::cells_of(k))) == Some(k),
{
    assert(stored_cells(ApiKey::cells_of(k)).len() == 8);
}

impl Condition<ApiKey> for IdIs {
    open spec fn holds(&self, k: ApiKey) -> bool {
        k.id == self.id
    }

    fn check(&self, k: &ApiKey) -> (b: bool) {
        k.id == self.id
    }
}

impl Condition<ApiKey> for LiveId {
    open spec fn holds(&self, k: ApiKey) -> bool {
        k.id == self.id && k.deleted_at is None
    }

    fn check(&self, k: &ApiKey) -> (b: bool) {
        k.id == self.id && k.deleted_at.is_none()
    }
}

/// An error of a read of this table: SQLite's own, or a row that does not
/// read as an API key.
pub open spec fn read_error(e: SqliteInterfaceError) -> bool {
    e is Rusqlite || e.is_custom("malformed row in api_keys"@)
}

fn load(conn: &rusqlite::Connection) -> (r: Result<Vec<ApiKey>, SqliteInterfaceError>)
    ensures
        r matches Ok(rows) ==> exists|raw: Seq<Seq<Datum>>| #[trigger] reads_as(raw, rows@),
        r matches Err(e) ==> read_error(e),
{
    store::load(conn)
}

const INSERT: &'static str = "INSERT INTO api_keys (id, organization_id, people_id, title, token, lifetime, created_at, deleted_at) VALUES (?1, ?2, ?3, ?4, ?5, ?6, ?7, ?8)";

const UPDATE: &'static str = "UPDATE api_keys SET organization_id = ?2, people_id = ?3, title = ?4, token = ?5, lifetime = ?6, created_at = ?7, deleted_at = ?8 WHERE id = ?1";

pub fn create_table(conn: &mut rusqlite::Connection) -> (r: Result<(), SqliteInterfaceError>)
    ensures
        r matches Err(e) ==> e is Rusqlite,
{
    store::create_table::<ApiKey>(conn)
}

pub struct CreateParams {
    pub id: i64,
    pub organization_id: i64,
    pub people_id: i64,
    pub title: String,
    pub token: String,
    pub lifetime: i64,
    pub created_at: i64,
}

/// The key that `create` stores.
pub open spec fn created(params: CreateParams) -> ApiKey {
    ApiKey {
        id: params.id,
        organization_id: params.organization_id,
        people_id: params.people_id,
        title: params.title,
        token: params.token,
        lifetime: params.lifetime,
        created_at: params.created_at,
        deleted_at: None,
    }
}

pub fn new_api_key(params: &CreateParams) -> (k: ApiKey)
    ensures
        k == created(*params),
{
    ApiKey {
        id: params.id,
        organization_id: params.organization_id,
        people_id: params.people_id,
        title: params.title.clone(),
        token: params.token.clone(),
        lifetime: params.lifetime,
        created_at: params.created_at,
        deleted_at: None,
    }
}

/// Stores a new key; it fails where the database refuses the row (an id that
/// is taken, or no table).
pub fn create(conn: &mut rusqlite::Connection, params: &CreateParams) -> (r: Result<ApiKey, SqliteInterfaceError>)
    ensures
        r matches Ok(k) ==> k == created(*params),
        r matches Err(e) ==> e is Rusqlite || e.is_custom("failed to create api_keys"@),
{
    let k = new_api_key(params);
    let n = store::insert(conn, INSERT, &k, "failed to create api_keys")?;
    store::inserted(n, k, "failed to create api_keys")
}

/// The key with that id, unless it was deleted, as `rows` hold it.
pub fn read_by_id_in(rows: &Vec<ApiKey>, id: i64) -> (r: Option<ApiKey>)
    ensures
        r == first_matching(rows@, LiveId { id }),
{
    find_first(rows, &LiveId { id })
}

pub fn read_by_id(conn: &mut rusqlite::Connection, id: i64) -> (r: Result<Option<ApiKey>, SqliteInterfaceError>)
    ensures
        r matches Ok(found) ==> exists|rows: Seq<ApiKey>| #[trigger] first_matching(rows, LiveId { id }) == found,
        r matches Ok(Some(k)) ==> k.id == id && k.deleted_at is None,
        r matches Err(e) ==> read_error(e),
{
    let rows = load(conn)?;
    let r = read_by_id_in(&rows, id);
    proof {
        if r is Some {
            broadcast use vstd::seq_lib::group_filter_ensures;
        }
    }
    Ok(r)
}

pub struct ReadParams {
    pub organization_id: i64,
    pub offset: i64,
    pub limit: i64,
}

/// A live key of the organization.
impl Condition<ApiKey> for ReadParams {
    open spec fn holds(&self, k: ApiKey) -> bool {
        k.deleted_at is None && k.organization_id == self.organization_id
    }

    fn check(&self, k: &ApiKey) -> (b: bool) {
        k.deleted_at.is_none() && k.organization_id == self.organization_id
    }
}

/// The page of live keys of the organization that `rows` hold.
pub fn read_in(rows: &Vec<ApiKey>, params: &ReadParams) -> (page: Vec<ApiKey>)
    ensures
        page@ == selection(rows@, *params, params.offset, params.limit),
{
    select_rows(rows, params, params.offset, params.limit)
}

pub fn read(conn: &mut rusqlite::Connection, params: &ReadParams) -> (r: Result<Vec<Result<ApiKey, SqliteInterfaceError>>, SqliteInterfaceError>)
    ensures
        r matches Ok(page) ==> exists|rows: Seq<ApiKey>| all_ok(page@, #[trigger] selection(rows, *params, params.offset, params.limit)),
        r matches Ok(page) ==> forall|i: int| 0 <= i < page@.len() ==> (#[trigger] page@[i] matches Ok(row) && params.holds(row)),
        r matches Ok(page) ==> (0 <= params.limit ==> page@.len() <= params.limit),
        r matches Err(e) ==> read_error(e),
{
    let rows = load(conn)?;
    let page = read_in(&rows, params);
    let out = all_ok_rows(&page);
    proof {
        assert(all_ok(out@, selection(rows@, *params, params.offset, params.limit)));
        crate::rows::lemma_selection(rows@, *params, params.offset, params.limit);
    }
    Ok(out)
}

pub struct ReadByPersonParams {
    pub organization_id: i64,
    pub people_id: i64,
    pub offset: i64,
    pub limit: i64,
}

/// A live key of the person.
impl Condition<ApiKey> for ReadByPersonParams {
    open spec fn holds(&self, k: ApiKey) -> bool {
        k.deleted_at is None && k.organization_id == self.organization_id && k.people_id == self.people_id
    }

    fn check(&self, k: &ApiKey) -> (b: bool) {
        k.deleted_at.is_none() && k.organization_id == self.organization_id && k.people_id == self.people_id
    }
}

/// The page of live keys of the person that `rows` hold.
pub fn read_by_person_in(rows: &Vec<ApiKey>, params: &ReadByPersonParams) -> (page: Vec<ApiKey>)
    ensures
        page@ == selection(rows@, *params, params.offset, params.limit),
{
    select_rows(rows, params, params.offset, params.limit)
}

pub fn read_by_person(conn: &mut rusqlite::Connection, params: &ReadByPersonParams) -> (r: Result<Vec<Result<ApiKey, SqliteInterfaceError>>, SqliteInterfaceError>)
    ensures
        r matches Ok(page) ==> exists|rows: Seq<ApiKey>| all_ok(page@, #[trigger] selection(rows, *params, params.offset, params.limit)),
        r matches Ok(page) ==> forall|i: int| 0 <= i < page@.len() ==> (#[trigger] page@[i] matches Ok(row) && params.holds(row)),
        r matches Ok(page) ==> (0 <= params.limit ==> page@.len() <= params.limit),
        r matches Err(e) ==> read_error(e),
{
    let rows = load(conn)?;
    let page = read_by_person_in(&rows, params);
    let out = all_ok_rows(&page);
    proof {
        assert(all_ok(out@, selection(rows@, *params, params.offset, params.limit)));
        crate::rows::lemma_selection(rows@, *params, params.offset, params.limit);
    }
    Ok(out)
}

pub struct DeleteParams {
    pub id: i64,
    pub current_timestamp: i64,
}

/// The key with that id, unless it was deleted.
impl Condition<ApiKey> for DeleteParams {
    open spec fn holds(&self, k: ApiKey) -> bool {
        k.deleted_at is None && k.id == self.id
    }

    fn check(&self, k: &ApiKey) -> (b: bool) {
        k.deleted_at.is_none() && k.id == self.id
    }
}

/// What `delete` stores and returns, given the rows of the table.
pub open spec fn deleted(rows: Seq<ApiKey>, params: DeleteParams) -> Option<ApiKey> {
    match first_matching(rows, params) {
        Some(k) => Some(ApiKey { deleted_at: Some(params.current_timestamp), ..k }),
        None => None,
    }
}

/// The live key with that id, marked deleted at `now`, as `rows` hold it.
pub fn delete_in(rows: &Vec<ApiKey>, params: &DeleteParams) -> (r: Option<ApiKey>)
    ensures
        r == deleted(rows@, *params),
{
    match find_first(rows, params) {
        Some(k) => Some(ApiKey { deleted_at: Some(params.current_timestamp), ..k }),
        None => None,
    }
}

/// Deletes a live key softly; `None` when no live key has that id.
pub fn delete(conn: &mut rusqlite::Connection, params: &DeleteParams) -> (r: Result<Option<ApiKey>, SqliteInterfaceError>)
    ensures
        r matches Ok(Some(k)) ==> exists|rows: Seq<ApiKey>| #[trigger] deleted(rows, *params) == Some(k),
        r matches Ok(found) ==> exists|rows: Seq<ApiKey>, n: int| #[trigger] if_written(n, deleted(rows, *params)) == found,
        r matches Err(e) ==> read_error(e),
{
    store::begin(conn)?;
    let r = delete_within(conn, params);
    store::finish(conn, r)
}

/// `delete` inside the savepoint that `delete` opens.
fn delete_within(conn: &mut rusqlite::Connection, params: &DeleteParams) -> (r: Result<Option<ApiKey>, SqliteInterfaceError>)
    ensures
        r matches Ok(Some(k)) ==> exists|rows: Seq<ApiKey>| #[trigger] deleted(rows, *params) == Some(k),
        r matches Ok(found) ==> exists|rows: Seq<ApiKey>, n: int| #[trigger] if_written(n, deleted(rows, *params)) == found,
        r matches Err(e) ==> read_error(e),
{
    let rows = load(conn)?;
    match delete_in(&rows, params) {
        Some(k) => {
            let n = store::write(conn, UPDATE, &k)?;
            Ok(store::written(n, k))
        },
        None => {
            proof {
                assert(if_written(0, deleted(rows@, *params)) == None::<ApiKey>);
            }
            Ok(None)
        },
    }
}

pub struct DangerouslyDeleteParams {
    pub organization_id: i64,
    pub window_length_ms: i64,
    pub current_timestamp: i64,
}

/// A key of the organization deleted more than a window before now.
impl Condition<ApiKey> for DangerouslyDeleteParams {
    open spec fn holds(&self, k: ApiKey) -> bool {
        match k.deleted_at {
            Some(d) => k.organization_id == self.organization_id && d < self.current_timestamp
                && self.window_length_ms < self.current_timestamp - d,
            None => false,
        }
    }

    fn check(&self, k: &ApiKey) -> (b: bool) {
        match k.deleted_at {
            Some(d) => k.organization_id == self.organization_id && d < self.current_timestamp
                && (self.window_length_ms as i128) < self.current_timestamp as i128 - d as i128,
            None => false,
        }
    }
}

/// The keys of `rows` that `dangerously_delete` removes.
pub fn dangerously_delete_in(rows: &Vec<ApiKey>, params: &DangerouslyDeleteParams) -> (stale: Vec<ApiKey>)
    ensures
        stale@ == matching(rows@, *params),
{
    filter_rows(rows, params)
}

/// Removes for good the keys of the organization deleted softly more than a
/// window ago.
pub fn dangerously_delete(conn: &mut rusqlite::Connection, params: &DangerouslyDeleteParams) -> (r: Result<(), SqliteInterfaceError>)
    ensures
        r matches Err(e) ==> read_error(e),
{
    store::begin(conn)?;
    let r = dangerously_delete_within(conn, params);
    store::finish(conn, r)
}

/// `dangerously_delete` inside the savepoint that `dangerously_delete` opens.
fn dangerously_delete_within(conn: &mut rusqlite::Connection, params: &DangerouslyDeleteParams) -> (r: Result<(), SqliteInterfaceError>)
    ensures
        r matches Err(e) ==> read_error(e),
{
    let rows = load(conn)?;
    let stale = dangerously_delete_in(&rows, params);
    store::delete_each(conn, &stale)
}

/// A key just created is read back by its id.
pub proof fn lemma_created_key_is_read(rows: Seq<ApiKey>, c: CreateParams)
    requires
        forall|k: int| 0 <= k < rows.len() ==> (#[trigger] rows[k]).id != c.id,
    ensures
        first_matching(rows.push(created(c)), LiveId { id: c.id }) == Some(created(c)),
{
    lemma_none_matching(rows, LiveId { id: c.id });
    lemma_appended_first(rows, LiveId { id: c.id }, created(c));
}

/// A key deleted softly is no longer read by its id.
pub proof fn lemma_deleted_key_is_not_read(rows: Seq<ApiKey>, d: DeleteParams)
    requires
        deleted(rows, d) is Some,
    ensures
        first_matching(rewritten(rows, IdIs { id: d.id }, deleted(rows, d)->0), LiveId { id: d.id }) == None::<ApiKey>,
{
    let x = deleted(rows, d)->0;
    let after = rewritten(rows, IdIs { id: d.id }, x);
    broadcast use vstd::seq_lib::group_filter_ensures;
    assert(d.holds(matching(rows, d)[0]));
    assert forall|k: int| 0 <= k < after.len() implies !LiveId { id: d.id }.holds(#[trigger] after[k]) by {}
    lemma_none_matching(after, LiveId { id: d.id });
}

/// `dangerously_delete` leaves no key of the organization deleted more than a
/// window ago, and keeps every other key.
pub proof fn lemma_dangerously_delete_keeps_the_rest(rows: Seq<ApiKey>, p: DangerouslyDeleteParams)
    ensures
        forall|k: int| 0 <= k < without(rows, p).len() ==> !p.holds(#[trigger] without(rows, p)[k]),
        forall|k: int| 0 <= k < rows.len() && !p.holds(rows[k]) ==> without(rows, p).contains(#[trigger] rows[k]),
{
    lemma_without(rows, p);
}

/// Rows that belong to one person.
pub open spec fn of_person(people_id: i64) -> spec_fn(ApiKey) -> bool {
    |r: ApiKey| r.people_id == people_id
}

/// Reading by person gives, in their order, the keys of the organization's
/// read that belong to the person, when neither read has an offset or a
/// limit.
pub proof fn lemma_read_by_person_within_read(rows: Seq<ApiKey>, q: ReadByPersonParams, p: ReadParams)
    requires
        q.organization_id == p.organization_id,
        q.offset == 0,
        p.offset == 0,
        q.limit < 0,
        p.limit < 0,
    ensures
        selection(rows, q, q.offset, q.limit) == selection(rows, p, p.offset, p.limit).filter(of_person(q.people_id)),
{
    crate::rows::lemma_matching_refined(rows, p, q, of_person(q.people_id));
    crate::rows::lemma_selection_unbounded(rows, q, q.limit);
    crate::rows::lemma_selection_unbounded(rows, p, p.limit);
}

/// A read gives keys of the table that belong to the organization and are not deleted; unpaged, it gives every such one.
pub proof fn lemma_read_is_the_organizations_live_keys(rows: Seq<ApiKey>, p: ReadParams)
    ensures
        forall|x: ApiKey| #[trigger] crate::rows::selection(rows, p, p.offset, p.limit).contains(x) ==> rows.contains(x) && (x.deleted_at is None && x.organization_id == p.organization_id),
        p.offset <= 0 && p.limit < 0 ==> forall|x: ApiKey|
            #[trigger] crate::rows::selection(rows, p, p.offset, p.limit).contains(x) <==> rows.contains(x) && (x.deleted_at is None && x.organization_id == p.organization_id),
{
    crate::rows::lemma_selection_members(rows, p, p.offset, p.limit);
}

/// A read by person gives keys of the table that belong to the organization and the person and are not deleted; unpaged, it gives every such one.
pub proof fn lemma_read_by_person_is_the_persons_live_keys(rows: Seq<ApiKey>, p: ReadByPersonParams)
    ensures
        forall|x: ApiKey| #[trigger] crate::rows::selection(rows, p, p.offset, p.limit).contains(x) ==> rows.contains(x) && (x.deleted_at is None && x.organization_id == p.organization_id && x.people_id == p.people_id),
        p.offset <= 0 && p.limit < 0 ==> forall|x: ApiKey|
            #[trigger] crate::rows::selection(rows, p, p.offset, p.limit).contains(x) <==> rows.contains(x) && (x.deleted_at is None && x.organization_id == p.organization_id && x.people_id == p.people_id),
{
    crate::rows::lemma_selection_members(rows, p, p.offset, p.limit);
}

/// A read by id gives a row of the table with that id that is not deleted, and gives none only when the table holds no such row.
pub proof fn lemma_read_by_id_is_the_live_row(rows: Seq<ApiKey>, id: i64)
    ensures
        crate::rows::first_matching(rows, (LiveId { id })) matches Some(x) ==> rows.contains(x) && (x.id == id && x.deleted_at is None),
        crate::rows::first_matching(rows, (LiveId { id })) is None ==> forall|x: ApiKey| #[trigger] rows.contains(x) ==> !(x.id == id && x.deleted_at is None),
{
    crate::rows::lemma_first_matching_members(rows, (LiveId { id }));
}

/// `delete` marks deleted, at the given time, a key of the table with that id that was not deleted, and changes nothing else of it; it marks none only when there is no such key.
pub proof fn lemma_delete_marks_the_live_key(rows: Seq<ApiKey>, p: DeleteParams)
    ensures
        deleted(rows, p) matches Some(x) ==> exists|r: ApiKey| #[trigger] rows.contains(r) && (r.id == p.id && r.deleted_at is None) && x == (ApiKey { deleted_at: Some(p.current_timestamp), ..r }),
        deleted(rows, p) is None ==> forall|r: ApiKey| #[trigger] rows.contains(r) ==> !(r.id == p.id && r.deleted_at is None),
{
    crate::rows::lemma_first_matching_members(rows, p);
}

/// `dangerously_delete` picks exactly the keys of the organization deleted before now and more than a window ago.
pub proof fn lemma_dangerously_delete_picks_the_long_deleted_keys(rows: Seq<ApiKey>, p: DangerouslyDeleteParams)
    ensures
        forall|x: ApiKey| #[trigger] crate::rows::matching(rows, p).contains(x) <==> rows.contains(x) && (x.deleted_at matches Some(d) && x.organization_id == p.organization_id && d < p.current_timestamp && p.window_length_ms < p.current_timestamp - d),
{
    crate::rows::lemma_matching_members(rows, p);
}

/// `create` stores a key with the given values, not deleted.
pub proof fn lemma_create_stores_the_given_values(c: CreateParams)
    ensures
        ({
            let k = created(c);
            c.id == k.id && c.organization_id == k.organization_id && c.people_id == k.people_id && c.title == k.title && c.token == k.token && c.lifetime == k.lifetime && c.created_at == k.created_at && k.deleted_at is None
        }),
{
}

/// The parameters that delete a row pick it out by the table's key: two rows
/// get the same ones exactly when their key columns agree.
pub proof fn lemma_key_is_the_primary_key(a: ApiKey, b: ApiKey)
    ensures
        ApiKey::key_of(a) == ApiKey::key_of(b) <==> (a.id == b.id),
{
    if ApiKey::key_of(a) == ApiKey::key_of(b) {
        assert(ApiKey::key_of(a)[0] == ApiKey::key_of(b)[0]);
    }
    if a.id == b.id {
        assert(ApiKey::key_of(a) =~= ApiKey::key_of(b));
    }
}

} // verus!
