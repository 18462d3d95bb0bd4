//! The `organizations` table: the organizations authd serves; deleting one
//! is soft, and soft-deleted organizations are purged later.

use vstd::prelude::*;
use crate::errors::SqliteInterfaceError;
use crate::rows::{
    all_ok, all_ok_rows, filter_rows, find_first, first_matching, lemma_appended_first,
    lemma_none_matching, lemma_without, matching, rewritten, select_rows, selection, without,
    Condition, IdIs, LiveId,
};
use crate::store::{self, if_written, reads_as, stored_cells, Stored};
use crate::type_flyweight::organizations::Organization;
use crate::value::{
    int_of, opt_int, opt_int_of, opt_int_param, read_int, read_opt_int, read_text, text, text_of, Datum,
    Param,
};

verus! {

broadcast use vstd::seq_lib::group_seq_properties;

impl Stored for Organization {
    open spec fn definition_text() -> Seq<char> {
        "CREATE TABLE IF NOT EXISTS organizations (
            id INTEGER PRIMARY KEY,
            title TEXT NOT NULL,
            updated_at INTEGER NOT NULL,
            deleted_at INTEGER
        )"@
    }

    fn definition() -> (sql: &'static str) {
        "CREATE TABLE IF NOT EXISTS organizations (
            id INTEGER PRIMARY KEY,
            title TEXT NOT NULL,
            updated_at INTEGER NOT NULL,
            deleted_at INTEGER
        )"
    }

    open spec fn select_all_text() -> Seq<char> {
        "SELECT * FROM organizations"@
    }

    fn select_all() -> (sql: &'static str) {
        "SELECT * FROM organizations"
    }

    open spec fn delete_by_key_text() -> Seq<char> {
        "DELETE FROM organizations WHERE id = ?1"@
    }

    fn delete_by_key() -> (sql: &'static str) {
        "DELETE FROM organizations WHERE id = ?1"
    }

    open spec fn malformed_text() -> Seq<char> {
        "malformed row in organizations"@
    }

    fn malformed() -> (text: &'static str) {
        "malformed row in organizations"
    }

    open spec fn key_of(row: Organization) -> Seq<Param> {
        seq![Param::Integer(row.id)]
    }

    fn key(&self) -> (key: Vec<Param>) {
        let mut key: Vec<Param> = Vec::new();
        key.push(Param::Integer(self.id));
        assert(key@ =~= Self::key_of(*self));
        key
    }

    open spec fn decoded(cells: Seq<Datum>) -> Option<Organization> {
        if cells.len() >= 4 && int_of(cells[0]) is Some && text_of(cells[1]) is Some && int_of(cells[2]) is Some
            && opt_int_of(cells[3]) is Some {
            Some(
                Organization {
                    id: int_of(cells[0])->0,
                    title: text_of(cells[1])->0,
                    updated_at: int_of(cells[2])->0,
                    deleted_at: opt_int_of(cells[3])->0,
                },
            )
        } else {
            None
        }
    }

    open spec fn cells_of(o: Organization) -> Seq<Param> {
        seq![Param::Integer(o.id), Param::Text(o.title), Param::Integer(o.updated_at), opt_int_param(o.deleted_at)]
    }

    fn decode(cells: &Vec<Datum>) -> (r: Option<Organization>) {
        if cells.len() < 4 {
            return None;
        }
        let id = match read_int(&cells[0]) { Some(v) => v, None => return None };
        let title = match read_text(&cells[1]) { Some(v) => v, None => return None };
        let updated_at = match read_int(&cells[2]) { Some(v) => v, None => return None };
        let deleted_at = match read_opt_int(&cells[3]) { Some(v) => v, None => return None };
        Some(Organization { id, title, updated_at, deleted_at })
    }

    fn encode(&self) -> (cells: Vec<Param>) {
        let mut cells: Vec<Param> = Vec::new();
        cells.push(Param::Integer(self.id));
        cells.push(text(&self.title));
        cells.push(Param::Integer(self.updated_at));
        cells.push(opt_int(self.deleted_at));
        assert(cells@ =~= Self::cells_of(*self));
        cells
    }
}

/// An organization written and read back, with each value kept as given, reads as
/// itself.
pub proof fn lemma_round_trip(k: Organization)
    ensures
        Organization::decoded(stored_cells(Organization::cells_of(k))) == Some(k),
{
    assert(stored_cells(Organization::cells_of(k)).len() == 4);
}

impl Condition<Organization> for IdIs {
    open spec fn holds(&self, k: Organization) -> bool {
        k.id == self.id
    }

    fn check(&self, k: &Organization) -> (b: bool) {
        k.id == self.id
    }
}

impl Condition<Organization> for LiveId {
    open spec fn holds(&self, k: Organization) -> bool {
        k.id == self.id && k.deleted_at is None
    }

    fn check(&self, k: &Organization) -> (b: bool) {
        k.id == self.id && k.deleted_at.is_none()
    }
}

/// An error of a read of this table: SQLite's own, or a row that does not
/// read as an organization.
pub open spec fn read_error(e: SqliteInterfaceError) -> bool {
    e is Rusqlite || e.is_custom("malformed row in organizations"@)
}

fn load(conn: &rusqlite::Connection) -> (r: Result<Vec<Organization>, SqliteInterfaceError>)
    ensures
        r matches Ok(rows) ==> exists|raw: Seq<Seq<Datum>>| #[trigger] reads_as(raw, rows@),
        r matches Err(e) ==> read_error(e),
{
    store::load(conn)
}

const INSERT: &'static str = "INSERT INTO organizations (id, title, updated_at, deleted_at) VALUES (?1, ?2, ?3, ?4)";

const UPDATE: &'static str = "UPDATE organizations SET title = ?2, updated_at = ?3, deleted_at = ?4 WHERE id = ?1";

pub fn create_table(conn: &mut rusqlite::Connection) -> (r: Result<(), SqliteInterfaceError>)
    ensures
        r matches Err(e) ==> e is Rusqlite,
{
    store::create_table::<Organization>(conn)
}

pub struct CreateParams {
    pub id: i64,
    pub title: String,
    pub current_timestamp: i64,
}

/// The organization that `create` stores.
pub open spec fn created(params: CreateParams) -> Organization {
    Organization { id: params.id, title: params.title, updated_at: params.current_timestamp, deleted_at: None }
}

pub fn new_organization(params: &CreateParams) -> (o: Organization)
    ensures
        o == created(*params),
{
    Organization { id: params.id, title: params.title.clone(), updated_at: params.current_timestamp, deleted_at: None }
}

/// Stores a new organization; it fails where the database refuses the row (an id that
/// is taken, or no table).
pub fn create(conn: &mut rusqlite::Connection, params: &CreateParams) -> (r: Result<Organization, SqliteInterfaceError>)
    ensures
        r matches Ok(k) ==> k == created(*params),
        r matches Err(e) ==> e is Rusqlite || e.is_custom("failed to create organization"@),
{
    let k = new_organization(params);
    let n = store::insert(conn, INSERT, &k, "failed to create organization")?;
    store::inserted(n, k, "failed to create organization")
}

/// The organization with that id, unless it was deleted, as `rows` hold it.
pub fn read_by_id_in(rows: &Vec<Organization>, id: i64) -> (r: Option<Organization>)
    ensures
        r == first_matching(rows@, LiveId { id }),
{
    find_first(rows, &LiveId { id })
}

pub fn read_by_id(conn: &mut rusqlite::Connection, id: i64) -> (r: Result<Option<Organization>, SqliteInterfaceError>)
    ensures
        r matches Ok(found) ==> exists|rows: Seq<Organization>| #[trigger] first_matching(rows, LiveId { id }) == found,
        r matches Ok(Some(k)) ==> k.id == id && k.deleted_at is None,
        r matches Err(e) ==> read_error(e),
{
    let rows = load(conn)?;
    let r = read_by_id_in(&rows, id);
    proof {
        if r is Some {
            broadcast use vstd::seq_lib::group_filter_ensures;
        }
    }
    Ok(r)
}

pub struct ReadParams {
    pub offset: i64,
    pub limit: i64,
}

/// A live organization.
impl Condition<Organization> for ReadParams {
    open spec fn holds(&self, o: Organization) -> bool {
        o.deleted_at is None
    }

    fn check(&self, o: &Organization) -> (b: bool) {
        o.deleted_at.is_none()
    }
}

/// The page of live organizations that `rows` hold.
pub fn read_in(rows: &Vec<Organization>, params: &ReadParams) -> (page: Vec<Organization>)
    ensures
        page@ == selection(rows@, *params, params.offset, params.limit),
{
    select_rows(rows, params, params.offset, params.limit)
}

pub fn read(conn: &mut rusqlite::Connection, params: &ReadParams) -> (r: Result<Vec<Result<Organization, SqliteInterfaceError>>, SqliteInterfaceError>)
    ensures
        r matches Ok(page) ==> exists|rows: Seq<Organization>| all_ok(page@, #[trigger] selection(rows, *params, params.offset, params.limit)),
        r matches Ok(page) ==> forall|i: int| 0 <= i < page@.len() ==> (#[trigger] page@[i] matches Ok(row) && params.holds(row)),
        r matches Ok(page) ==> (0 <= params.limit ==> page@.len() <= params.limit),
        r matches Err(e) ==> read_error(e),
{
    let rows = load(conn)?;
    let page = read_in(&rows, params);
    let out = all_ok_rows(&page);
    proof {
        assert(all_ok(out@, selection(rows@, *params, params.offset, params.limit)));
        crate::rows::lemma_selection(rows@, *params, params.offset, params.limit);
    }
    Ok(out)
}

/// The live organization with this title.
pub struct LiveTitle {
    pub title: String,
}

impl Condition<Organization> for LiveTitle {
    open spec fn holds(&self, o: Organization) -> bool {
        o.deleted_at is None && o.title@ == self.title@
    }

    fn check(&self, o: &Organization) -> (b: bool) {
        o.deleted_at.is_none() && o.title == self.title
    }
}

/// The first live organization with that title, as `rows` hold it.
pub fn read_by_title_in(rows: &Vec<Organization>, title: &str) -> (r: Option<Organization>)
    ensures
        forall|c: LiveTitle| c.title@ == title@ ==> r == #[trigger] first_matching(rows@, c),
{
    let cond = LiveTitle { title: title.to_owned() };
    let r = find_first(rows, &cond);
    proof {
        assert forall|c: LiveTitle| c.title@ == title@ implies r == #[trigger] first_matching(rows@, c) by {
            crate::rows::lemma_same_condition(rows@, cond, c);
        }
    }
    r
}

pub fn read_by_title(conn: &mut rusqlite::Connection, title: &str) -> (r: Result<Option<Organization>, SqliteInterfaceError>)
    ensures
        r matches Ok(found) ==> exists|rows: Seq<Organization>, c: LiveTitle| c.title@ == title@ && #[trigger] first_matching(rows, c) == found,
        r matches Ok(Some(o)) ==> o.title@ == title@ && o.deleted_at is None,
        r matches Err(e) ==> read_error(e),
{
    let rows = load(conn)?;
    let cond = LiveTitle { title: title.to_owned() };
    let r = read_by_title_in(&rows, title);
    proof {
        assert(r == first_matching(rows@, cond));
        if r is Some {
            crate::rows::lemma_first_matching_holds(rows@, cond);
        }
    }
    Ok(r)
}

pub struct PatchParams {
    pub id: i64,
    pub title: String,
    pub current_timestamp: i64,
}

/// The organization with that id, unless it was deleted.
impl Condition<Organization> for PatchParams {
    open spec fn holds(&self, o: Organization) -> bool {
        o.deleted_at is None && o.id == self.id
    }

    fn check(&self, o: &Organization) -> (b: bool) {
        o.deleted_at.is_none() && o.id == self.id
    }
}

/// What `patch` stores and returns, given the rows of the table: the new
/// title, changed at `now`.
pub open spec fn patched(rows: Seq<Organization>, params: PatchParams) -> Option<Organization> {
    match first_matching(rows, params) {
        Some(o) => Some(Organization { title: params.title, updated_at: params.current_timestamp, ..o }),
        None => None,
    }
}

/// The live organization with that id with its new title, as `rows` hold it.
pub fn patch_in(rows: &Vec<Organization>, params: &PatchParams) -> (r: Option<Organization>)
    ensures
        r == patched(rows@, *params),
{
    match find_first(rows, params) {
        Some(o) => Some(Organization { title: params.title.clone(), updated_at: params.current_timestamp, ..o }),
        None => None,
    }
}

/// Renames a live organization; `None` when no live organization has that id.
pub fn patch(conn: &mut rusqlite::Connection, params: &PatchParams) -> (r: Result<Option<Organization>, SqliteInterfaceError>)
    ensures
        r matches Ok(Some(o)) ==> exists|rows: Seq<Organization>| #[trigger] patched(rows, *params) == Some(o),
        r matches Ok(found) ==> exists|rows: Seq<Organization>, n: int| #[trigger] if_written(n, patched(rows, *params)) == found,
        r matches Err(e) ==> read_error(e),
{
    store::begin(conn)?;
    let r = patch_within(conn, params);
    store::finish(conn, r)
}

/// `patch` inside the savepoint that `patch` opens.
fn patch_within(conn: &mut rusqlite::Connection, params: &PatchParams) -> (r: Result<Option<Organization>, SqliteInterfaceError>)
    ensures
        r matches Ok(Some(o)) ==> exists|rows: Seq<Organization>| #[trigger] patched(rows, *params) == Some(o),
        r matches Ok(found) ==> exists|rows: Seq<Organization>, n: int| #[trigger] if_written(n, patched(rows, *params)) == found,
        r matches Err(e) ==> read_error(e),
{
    let rows = load(conn)?;
    match patch_in(&rows, params) {
        Some(o) => {
            let n = store::write(conn, UPDATE, &o)?;
            Ok(store::written(n, o))
        },
        None => {
            proof {
                assert(if_written(0, patched(rows@, *params)) == None::<Organization>);
            }
            Ok(None)
        },
    }
}

pub struct DeleteParams {
    pub id: i64,
    pub current_timestamp: i64,
}

/// The organization with that id, deleted or not.
impl Condition<Organization> for DeleteParams {
    open spec fn holds(&self, k: Organization) -> bool {
        k.id == self.id
    }

    fn check(&self, k: &Organization) -> (b: bool) {
        k.id == self.id
    }
}

/// What `delete` stores and returns, given the rows of the table.
pub open spec fn deleted(rows: Seq<Organization>, params: DeleteParams) -> Option<Organization> {
    match first_matching(rows, params) {
        Some(k) => Some(Organization { deleted_at: Some(params.current_timestamp), ..k }),
        None => None,
    }
}

/// The organization with that id, marked deleted at `now`, as `rows` hold it.
pub fn delete_in(rows: &Vec<Organization>, params: &DeleteParams) -> (r: Option<Organization>)
    ensures
        r == deleted(rows@, *params),
{
    match find_first(rows, params) {
        Some(k) => Some(Organization { deleted_at: Some(params.current_timestamp), ..k }),
        None => None,
    }
}

/// Deletes a organization softly, stamping it with `now` even if it was deleted
/// before; `None` when no organization has that id.
pub fn delete(conn: &mut rusqlite::Connection, params: &DeleteParams) -> (r: Result<Option<Organization>, SqliteInterfaceError>)
    ensures
        r matches Ok(Some(k)) ==> exists|rows: Seq<Organization>| #[trigger] deleted(rows, *params) == Some(k),
        r matches Ok(found) ==> exists|rows: Seq<Organization>, n: int| #[trigger] if_written(n, deleted(rows, *params)) == found,
        r matches Err(e) ==> read_error(e),
{
    store::begin(conn)?;
    let r = delete_within(conn, params);
    store::finish(conn, r)
}

/// `delete` inside the savepoint that `delete` opens.
fn delete_within(conn: &mut rusqlite::Connection, params: &DeleteParams) -> (r: Result<Option<Organization>, SqliteInterfaceError>)
    ensures
        r matches Ok(Some(k)) ==> exists|rows: Seq<Organization>| #[trigger] deleted(rows, *params) == Some(k),
        r matches Ok(found) ==> exists|rows: Seq<Organization>, n: int| #[trigger] if_written(n, deleted(rows, *params)) == found,
        r matches Err(e) ==> read_error(e),
{
    let rows = load(conn)?;
    match delete_in(&rows, params) {
        Some(k) => {
            let n = store::write(conn, UPDATE, &k)?;
            Ok(store::written(n, k))
        },
        None => {
            proof {
                assert(if_written(0, deleted(rows@, *params)) == None::<Organization>);
            }
            Ok(None)
        },
    }
}

pub struct DangerouslyDeleteParams {
    pub window_length_ms: i64,
    pub current_timestamp: i64,
}

/// An organization deleted more than a window before now.
impl Condition<Organization> for DangerouslyDeleteParams {
    open spec fn holds(&self, o: Organization) -> bool {
        match o.deleted_at {
            Some(d) => self.window_length_ms < self.current_timestamp - d,
            None => false,
        }
    }

    fn check(&self, o: &Organization) -> (b: bool) {
        match o.deleted_at {
            Some(d) => (self.window_length_ms as i128) < self.current_timestamp as i128 - d as i128,
            None => false,
        }
    }
}

/// The organizations of `rows` that `dangerously_delete` removes.
pub fn dangerously_delete_in(rows: &Vec<Organization>, params: &DangerouslyDeleteParams) -> (stale: Vec<Organization>)
    ensures
        stale@ == matching(rows@, *params),
{
    filter_rows(rows, params)
}

/// Removes for good the organizations deleted softly more than a window ago.
pub fn dangerously_delete(conn: &mut rusqlite::Connection, params: &DangerouslyDeleteParams) -> (r: Result<(), SqliteInterfaceError>)
    ensures
        r matches Err(e) ==> read_error(e),
{
    store::begin(conn)?;
    let r = dangerously_delete_within(conn, params);
    store::finish(conn, r)
}

/// `dangerously_delete` inside the savepoint that `dangerously_delete` opens.
fn dangerously_delete_within(conn: &mut rusqlite::Connection, params: &DangerouslyDeleteParams) -> (r: Result<(), SqliteInterfaceError>)
    ensures
        r matches Err(e) ==> read_error(e),
{
    let rows = load(conn)?;
    let stale = dangerously_delete_in(&rows, params);
    store::delete_each(conn, &stale)
}

/// An organization just created is read back by its id.
pub proof fn lemma_created_organization_is_read(rows: Seq<Organization>, c: CreateParams)
    requires
        forall|k: int| 0 <= k < rows.len() ==> (#[trigger] rows[k]).id != c.id,
    ensures
        first_matching(rows.push(created(c)), LiveId { id: c.id }) == Some(created(c)),
{
    lemma_none_matching(rows, LiveId { id: c.id });
    lemma_appended_first(rows, LiveId { id: c.id }, created(c));
}

/// An organization deleted softly is no longer read by its id.
pub proof fn lemma_deleted_organization_is_not_read(rows: Seq<Organization>, d: DeleteParams)
    requires
        deleted(rows, d) is Some,
    ensures
        first_matching(rewritten(rows, IdIs { id: d.id }, deleted(rows, d)->0), LiveId { id: d.id }) == None::<Organization>,
{
    let x = deleted(rows, d)->0;
    let after = rewritten(rows, IdIs { id: d.id }, x);
    broadcast use vstd::seq_lib::group_filter_ensures;
    assert(d.holds(matching(rows, d)[0]));
    assert forall|k: int| 0 <= k < after.len() implies !LiveId { id: d.id }.holds(#[trigger] after[k]) by {}
    lemma_none_matching(after, LiveId { id: d.id });
}

/// A renamed organization is read back by its id as renamed.
pub proof fn lemma_patched_organization_is_read(rows: Seq<Organization>, p: PatchParams)
    requires
        patched(rows, p) is Some,
    ensures
        first_matching(rewritten(rows, IdIs { id: p.id }, patched(rows, p)->0), LiveId { id: p.id }) == patched(rows, p),
{
    let x = patched(rows, p)->0;
    crate::rows::lemma_first_matching_holds(rows, p);
    let r = first_matching(rows, p)->0;
    let k = choose|k: int| 0 <= k < rows.len() && rows[k] == r;
    crate::rows::lemma_first_matching_some(rows, IdIs { id: p.id }, k);
    crate::rows::lemma_rewritten_first(rows, IdIs { id: p.id }, x);
    let after = rewritten(rows, IdIs { id: p.id }, x);
    assert forall|j: int| 0 <= j < after.len() implies IdIs { id: p.id }.holds(#[trigger] after[j]) == LiveId { id: p.id }.holds(after[j]) by {}
    crate::rows::lemma_same_on_rows(after, IdIs { id: p.id }, LiveId { id: p.id });
}

/// `dangerously_delete` leaves no organization deleted more than a window
/// ago, and keeps every other organization.
pub proof fn lemma_dangerously_delete_keeps_the_rest(rows: Seq<Organization>, p: DangerouslyDeleteParams)
    ensures
        forall|k: int| 0 <= k < without(rows, p).len() ==> !p.holds(#[trigger] without(rows, p)[k]),
        forall|k: int| 0 <= k < rows.len() && !p.holds(rows[k]) ==> without(rows, p).contains(#[trigger] rows[k]),
{
    lemma_without(rows, p);
}

/// A read gives organizations of the table that are not deleted; unpaged, it gives every such one.
pub proof fn lemma_read_is_the_live_organizations(rows: Seq<Organization>, p: ReadParams)
    ensures
        forall|x: Organization| #[trigger] crate::rows::selection(rows, p, p.offset, p.limit).contains(x) ==> rows.contains(x) && (x.deleted_at is None),
        p.offset <= 0 && p.limit < 0 ==> forall|x: Organization|
            #[trigger] crate::rows::selection(rows, p, p.offset, p.limit).contains(x) <==> rows.contains(x) && (x.deleted_at is None),
{
    crate::rows::lemma_selection_members(rows, p, p.offset, p.limit);
}

/// A read by id gives an organization of the table with that id that is not deleted, and gives none only when the table holds no such organization.
pub proof fn lemma_read_by_id_is_the_live_row(rows: Seq<Organization>, id: i64)
    ensures
        crate::rows::first_matching(rows, (LiveId { id })) matches Some(x) ==> rows.contains(x) && (x.id == id && x.deleted_at is None),
        crate::rows::first_matching(rows, (LiveId { id })) is None ==> forall|x: Organization| #[trigger] rows.contains(x) ==> !(x.id == id && x.deleted_at is None),
{
    crate::rows::lemma_first_matching_members(rows, (LiveId { id }));
}

/// A read by title gives an organization of the table with that title that is not deleted, and gives none only when the table holds no such organization.
pub proof fn lemma_read_by_title_is_the_live_row(rows: Seq<Organization>, c: LiveTitle)
    ensures
        crate::rows::first_matching(rows, c) matches Some(x) ==> rows.contains(x) && (x.deleted_at is None && x.title@ == c.title@),
        crate::rows::first_matching(rows, c) is None ==> forall|x: Organization| #[trigger] rows.contains(x) ==> !(x.deleted_at is None && x.title@ == c.title@),
{
    crate::rows::lemma_first_matching_members(rows, c);
}

/// `patch` gives an organization of the table with that id that is not deleted, with the given title and changed now, and nothing else of it changed; it gives none only when there is no such organization.
pub proof fn lemma_patch_renames_the_live_organization(rows: Seq<Organization>, p: PatchParams)
    ensures
        patched(rows, p) matches Some(x) ==> exists|r: Organization| #[trigger] rows.contains(r) && (r.id == p.id && r.deleted_at is None) && x == (Organization { title: p.title, updated_at: p.current_timestamp, ..r }),
        patched(rows, p) is None ==> forall|r: Organization| #[trigger] rows.contains(r) ==> !(r.id == p.id && r.deleted_at is None),
{
    crate::rows::lemma_first_matching_members(rows, p);
}

/// `delete` marks deleted, at the given time, an organization of the table with that id, and changes nothing else of it; it marks none only when the table holds no organization with that id.
pub proof fn lemma_delete_marks_the_organization(rows: Seq<Organization>, p: DeleteParams)
    ensures
        deleted(rows, p) matches Some(x) ==> exists|r: Organization| #[trigger] rows.contains(r) && (r.id == p.id) && x == (Organization { deleted_at: Some(p.current_timestamp), ..r }),
        deleted(rows, p) is None ==> forall|r: Organization| #[trigger] rows.contains(r) ==> !(r.id == p.id),
{
    crate::rows::lemma_first_matching_members(rows, p);
}

/// `dangerously_delete` picks exactly the organizations deleted more than a window ago.
pub proof fn lemma_dangerously_delete_picks_the_long_deleted_organizations(rows: Seq<Organization>, p: DangerouslyDeleteParams)
    ensures
        forall|x: Organization| #[trigger] crate::rows::matching(rows, p).contains(x) <==> rows.contains(x) && (x.deleted_at matches Some(d) && p.window_length_ms < p.current_timestamp - d),
{
    crate::rows::lemma_matching_members(rows, p);
}

/// `create` stores an organization with the given values, not deleted.
pub proof fn lemma_create_stores_the_given_values(c: CreateParams)
    ensures
        ({
            let k = created(c);
            c.id == k.id && c.title == k.title && k.updated_at == c.current_timestamp && k.deleted_at is None
        }),
{
}

/// The parameters that delete a row pick it out by the table's key: two rows
/// get the same ones exactly when their key columns agree.
pub proof fn lemma_key_is_the_primary_key(a: Organization, b: Organization)
    ensures
        Organization::key_of(a) == Organization::key_of(b) <==> (a.id == b.id),
{
    if Organization::key_of(a) == Organization::key_of(b) {
        assert(Organization::key_of(a)[0] == Organization::key_of(b)[0]);
    }
    if a.id == b.id {
        assert(Organization::key_of(a) =~= Organization::key_of(b));
    }
}

} // verus!
