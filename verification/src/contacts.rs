//! The `contacts` table: the contacts of people (an email address, say);
//! deleting a contact is soft, and soft-deleted contacts are purged later.

use vstd::prelude::*;
use crate::errors::SqliteInterfaceError;
use crate::rows::{
    all_ok, all_ok_rows, filter_rows, find_first, first_matching, lemma_appended_first,
    lemma_none_matching, lemma_without, matching, rewritten, select_rows, selection, without,
    Condition, IdIs, LiveId,
};
use crate::store::{self, if_written, reads_as, stored_cells, Stored};
use crate::type_flyweight::contacts::Contact;
use crate::value::{
    int_of, opt_int, opt_int_of, opt_int_param, read_int, read_opt_int, read_text, text, text_of, Datum,
    Param,
};

verus! {

broadcast use vstd::seq_lib::group_seq_properties;

impl Stored for Contact {
    open spec fn definition_text() -> Seq<char> {
        "CREATE TABLE IF NOT EXISTS contacts (
            id INTEGER PRIMARY KEY,
            organization_id INTEGER NOT NULL,
            people_id INTEGER NOT NULL,
            contact_kind_id INTEGER NOT NULL,
            content TEXT NOT NULL,
            updated_at INTEGER NOT NULL,
            deleted_at INTEGER
        )"@
    }

    fn definition() -> (sql: &'static str) {
        "CREATE TABLE IF NOT EXISTS contacts (
            id INTEGER PRIMARY KEY,
            organization_id INTEGER NOT NULL,
            people_id INTEGER NOT NULL,
            contact_kind_id INTEGER NOT NULL,
            content TEXT NOT NULL,
            updated_at INTEGER NOT NULL,
            deleted_at INTEGER
        )"
    }

    open spec fn select_all_text() -> Seq<char> {
        "SELECT * FROM contacts"@
    }

    fn select_all() -> (sql: &'static str) {
        "SELECT * FROM contacts"
    }

    open spec fn delete_by_key_text() -> Seq<char> {
        "DELETE FROM contacts WHERE id = ?1"@
    }

    fn delete_by_key() -> (sql: &'static str) {
        "DELETE FROM contacts WHERE id = ?1"
    }

    open spec fn malformed_text() -> Seq<char> {
        "malformed row in contacts"@
    }

    fn malformed() -> (text: &'static str) {
        "malformed row in contacts"
    }

    open spec fn key_of(row: Contact) -> Seq<Param> {
        seq![Param::Integer(row.id)]
    }

    fn key(&self) -> (key: Vec<Param>) {
        let mut key: Vec<Param> = Vec::new();
        key.push(Param::Integer(self.id));
        assert(key@ =~= Self::key_of(*self));
        key
    }

    open spec fn decoded(cells: Seq<Datum>) -> Option<Contact> {
        if cells.len() >= 7 && int_of(cells[0]) is Some && int_of(cells[1]) is Some && int_of(cells[2]) is Some
            && int_of(cells[3]) is Some && text_of(cells[4]) is Some && opt_int_of(cells[5]) is Some
            && opt_int_of(cells[6]) is Some {
            Some(
                Contact {
                    id: int_of(cells[0])->0,
                    organization_id: int_of(cells[1])->0,
                    people_id: int_of(cells[2])->0,
                    contact_kind_id: int_of(cells[3])->0,
                    content: text_of(cells[4])->0,
                    updated_at: opt_int_of(cells[5])->0,
                    deleted_at: opt_int_of(cells[6])->0,
                },
            )
        } else {
            None
        }
    }

    open spec fn cells_of(c: Contact) -> Seq<Param> {
        seq![
            Param::Integer(c.id),
            Param::Integer(c.organization_id),
            Param::Integer(c.people_id),
            Param::Integer(c.contact_kind_id),
            Param::Text(c.content),
            opt_int_param(c.updated_at),
            opt_int_param(c.deleted_at),
        ]
    }

    fn decode(cells: &Vec<Datum>) -> (r: Option<Contact>) {
        if cells.len() < 7 {
            return None;
        }
        let id = match read_int(&cells[0]) { Some(v) => v, None => return None };
        let organization_id = match read_int(&cells[1]) { Some(v) => v, None => return None };
        let people_id = match read_int(&cells[2]) { Some(v) => v, None => return None };
        let contact_kind_id = match read_int(&cells[3]) { Some(v) => v, None => return None };
        let content = match read_text(&cells[4]) { Some(v) => v, None => return None };
        let updated_at = match read_opt_int(&cells[5]) { Some(v) => v, None => return None };
        let deleted_at = match read_opt_int(&cells[6]) { Some(v) => v, None => return None };
        Some(Contact { id, organization_id, people_id, contact_kind_id, content, updated_at, deleted_at })
    }

    fn encode(&self) -> (cells: Vec<Param>) {
        let mut cells: Vec<Param> = Vec::new();
        cells.push(Param::Integer(self.id));
        cells.push(Param::Integer(self.organization_id));
        cells.push(Param::Integer(self.people_id));
        cells.push(Param::Integer(self.contact_kind_id));
        cells.push(text(&self.content));
        cells.push(opt_int(self.updated_at));
        cells.push(opt_int(self.deleted_at));
        assert(cells@ =~= Self::cells_of(*self));
        cells
    }
}

/// A contact written and read back, with each value kept as given, reads as
/// itself.
pub proof fn lemma_round_trip(c: Contact)
    ensures
        Contact::decoded(stored_cells(Contact::cells_of(c))) == Some(c),
{
    assert(stored_cells(Contact::cells_of(c)).len() == 7);
}

impl Condition<Contact> for IdIs {
    open spec fn holds(&self, k: Contact) -> bool {
        k.id == self.id
    }

    fn check(&self, k: &Contact) -> (b: bool) {
        k.id == self.id
    }
}

impl Condition<Contact> for LiveId {
    open spec fn holds(&self, k: Contact) -> bool {
        k.id == self.id && k.deleted_at is None
    }

    fn check(&self, k: &Contact) -> (b: bool) {
        k.id == self.id && k.deleted_at.is_none()
    }
}

/// An error of a read of this table: SQLite's own, or a row that does not
/// read as a contact.
pub open spec fn read_error(e: SqliteInterfaceError) -> bool {
    e is Rusqlite || e.is_custom("malformed row in contacts"@)
}

fn load(conn: &rusqlite::Connection) -> (r: Result<Vec<Contact>, SqliteInterfaceError>)
    ensures
        r matches Ok(rows) ==> exists|raw: Seq<Seq<Datum>>| #[trigger] reads_as(raw, rows@),
        r matches Err(e) ==> read_error(e),
{
    store::load(conn)
}

const INSERT: &'static str = "INSERT INTO contacts (id, organization_id, people_id, contact_kind_id, content, updated_at, deleted_at) VALUES (?1, ?2, ?3, ?4, ?5, ?6, ?7)";

const UPDATE: &'static str = "UPDATE contacts SET organization_id = ?2, people_id = ?3, contact_kind_id = ?4, content = ?5, updated_at = ?6, deleted_at = ?7 WHERE id = ?1";

pub fn create_table(conn: &mut rusqlite::Connection) -> (r: Result<(), SqliteInterfaceError>)
    ensures
        r matches Err(e) ==> e is Rusqlite,
{
    store::create_table::<Contact>(conn)
}

pub struct CreateParams {
    pub id: i64,
    pub organization_id: i64,
    pub people_id: i64,
    pub contact_kind_id: i64,
    pub content: String,
    pub current_timestamp: i64,
}

/// The contact that `create` stores.
pub open spec fn created(params: CreateParams) -> Contact {
    Contact {
        id: params.id,
        organization_id: params.organization_id,
        people_id: params.people_id,
        contact_kind_id: params.contact_kind_id,
        content: params.content,
        updated_at: Some(params.current_timestamp),
        deleted_at: None,
    }
}

pub fn new_contact(params: &CreateParams) -> (c: Contact)
    ensures
        c == created(*params),
{
    Contact {
        id: params.id,
        organization_id: params.organization_id,
        people_id: params.people_id,
        contact_kind_id: params.contact_kind_id,
        content: params.content.clone(),
        updated_at: Some(params.current_timestamp),
        deleted_at: None,
    }
}

/// Stores a new contact; it fails where the database refuses the row (an id that
/// is taken, or no table).
pub fn create(conn: &mut rusqlite::Connection, params: &CreateParams) -> (r: Result<Contact, SqliteInterfaceError>)
    ensures
        r matches Ok(k) ==> k == created(*params),
        r matches Err(e) ==> e is Rusqlite || e.is_custom("failed to create contact"@),
{
    let c = new_contact(params);
    let n = store::insert(conn, INSERT, &c, "failed to create contact")?;
    store::inserted(n, c, "failed to create contact")
}

/// The contact with that id, unless it was deleted, as `rows` hold it.
pub fn read_by_id_in(rows: &Vec<Contact>, id: i64) -> (r: Option<Contact>)
    ensures
        r == first_matching(rows@, LiveId { id }),
{
    find_first(rows, &LiveId { id })
}

pub fn read_by_id(conn: &mut rusqlite::Connection, id: i64) -> (r: Result<Option<Contact>, SqliteInterfaceError>)
    ensures
        r matches Ok(found) ==> exists|rows: Seq<Contact>| #[trigger] first_matching(rows, LiveId { id }) == found,
        r matches Ok(Some(k)) ==> k.id == id && k.deleted_at is None,
        r matches Err(e) ==> read_error(e),
{
    let rows = load(conn)?;
    let r = read_by_id_in(&rows, id);
    proof {
        if r is Some {
            broadcast use vstd::seq_lib::group_filter_ensures;
        }
    }
    Ok(r)
}

pub struct ReadParams {
    pub organization_id: i64,
    pub offset: i64,
    pub limit: i64,
}

/// A live contact of the organization.
impl Condition<Contact> for ReadParams {
    open spec fn holds(&self, k: Contact) -> bool {
        k.deleted_at is None && k.organization_id == self.organization_id
    }

    fn check(&self, k: &Contact) -> (b: bool) {
        k.deleted_at.is_none() && k.organization_id == self.organization_id
    }
}

/// The page of live contacts of the organization that `rows` hold.
pub fn read_in(rows: &Vec<Contact>, params: &ReadParams) -> (page: Vec<Contact>)
    ensures
        page@ == selection(rows@, *params, params.offset, params.limit),
{
    select_rows(rows, params, params.offset, params.limit)
}

pub fn read(conn: &mut rusqlite::Connection, params: &ReadParams) -> (r: Result<Vec<Result<Contact, SqliteInterfaceError>>, SqliteInterfaceError>)
    ensures
        r matches Ok(page) ==> exists|rows: Seq<Contact>| all_ok(page@, #[trigger] selection(rows, *params, params.offset, params.limit)),
        r matches Ok(page) ==> forall|i: int| 0 <= i < page@.len() ==> (#[trigger] page@[i] matches Ok(row) && params.holds(row)),
        r matches Ok(page) ==> (0 <= params.limit ==> page@.len() <= params.limit),
        r matches Err(e) ==> read_error(e),
{
    let rows = load(conn)?;
    let page = read_in(&rows, params);
    let out = all_ok_rows(&page);
    proof {
        assert(all_ok(out@, selection(rows@, *params, params.offset, params.limit)));
        crate::rows::lemma_selection(rows@, *params, params.offset, params.limit);
    }
    Ok(out)
}

pub struct ReadByPersonParams {
    pub organization_id: i64,
    pub people_id: i64,
    pub offset: i64,
    pub limit: i64,
}

/// A live contact of the person.
impl Condition<Contact> for ReadByPersonParams {
    open spec fn holds(&self, k: Contact) -> bool {
        k.deleted_at is None && k.organization_id == self.organization_id && k.people_id == self.people_id
    }

    fn check(&self, k: &Contact) -> (b: bool) {
        k.deleted_at.is_none() && k.organization_id == self.organization_id && k.people_id == self.people_id
    }
}

/// The page of live contacts of the person that `rows` hold.
pub fn read_by_person_in(rows: &Vec<Contact>, params: &ReadByPersonParams) -> (page: Vec<Contact>)
    ensures
        page@ == selection(rows@, *params, params.offset, params.limit),
{
    select_rows(rows, params, params.offset, params.limit)
}

pub fn read_by_person(conn: &mut rusqlite::Connection, params: &ReadByPersonParams) -> (r: Result<Vec<Result<Contact, SqliteInterfaceError>>, SqliteInterfaceError>)
    ensures
        r matches Ok(page) ==> exists|rows: Seq<Contact>| all_ok(page@, #[trigger] selection(rows, *params, params.offset, params.limit)),
        r matches Ok(page) ==> forall|i: int| 0 <= i < page@.len() ==> (#[trigger] page@[i] matches Ok(row) && params.holds(row)),
        r matches Ok(page) ==> (0 <= params.limit ==> page@.len() <= params.limit),
        r matches Err(e) ==> read_error(e),
{
    let rows = load(conn)?;
    let page = read_by_person_in(&rows, params);
    let out = all_ok_rows(&page);
    proof {
        assert(all_ok(out@, selection(rows@, *params, params.offset, params.limit)));
        crate::rows::lemma_selection(rows@, *params, params.offset, params.limit);
    }
    Ok(out)
}

pub struct PatchParams {
    pub id: i64,
    pub content: String,
    pub current_timestamp: i64,
}

/// The contact with that id, unless it was deleted, if it was last changed
/// before `now`.
impl Condition<Contact> for PatchParams {
    open spec fn holds(&self, c: Contact) -> bool {
        c.deleted_at is None && c.id == self.id && changed_before(c, self.current_timestamp)
    }

    fn check(&self, c: &Contact) -> (b: bool) {
        c.deleted_at.is_none() && c.id == self.id && is_changed_before(c, self.current_timestamp)
    }
}

/// What `patch` stores and returns, given the rows of the table: the new
/// content, changed at `now`.
pub open spec fn patched(rows: Seq<Contact>, params: PatchParams) -> Option<Contact> {
    match first_matching(rows, params) {
        Some(c) => Some(Contact { content: params.content, updated_at: Some(params.current_timestamp), ..c }),
        None => None,
    }
}

/// The live contact with that id with its new content, as `rows` hold it.
pub fn patch_in(rows: &Vec<Contact>, params: &PatchParams) -> (r: Option<Contact>)
    ensures
        r == patched(rows@, *params),
{
    match find_first(rows, params) {
        Some(c) => Some(Contact { content: params.content.clone(), updated_at: Some(params.current_timestamp), ..c }),
        None => None,
    }
}

/// Replaces the content of a live contact; `None` when no live contact has
/// that id or it was changed at or after `now`.
pub fn patch(conn: &mut rusqlite::Connection, params: &PatchParams) -> (r: Result<Option<Contact>, SqliteInterfaceError>)
    ensures
        r matches Ok(Some(c)) ==> exists|rows: Seq<Contact>| #[trigger] patched(rows, *params) == Some(c),
        r matches Ok(found) ==> exists|rows: Seq<Contact>, n: int| #[trigger] if_written(n, patched(rows, *params)) == found,
        r matches Err(e) ==> read_error(e),
{
    store::begin(conn)?;
    let r = patch_within(conn, params);
    store::finish(conn, r)
}

/// `patch` inside the savepoint that `patch` opens.
fn patch_within(conn: &mut rusqlite::Connection, params: &PatchParams) -> (r: Result<Option<Contact>, SqliteInterfaceError>)
    ensures
        r matches Ok(Some(c)) ==> exists|rows: Seq<Contact>| #[trigger] patched(rows, *params) == Some(c),
        r matches Ok(found) ==> exists|rows: Seq<Contact>, n: int| #[trigger] if_written(n, patched(rows, *params)) == found,
        r matches Err(e) ==> read_error(e),
{
    let rows = load(conn)?;
    match patch_in(&rows, params) {
        Some(c) => {
            let n = store::write(conn, UPDATE, &c)?;
            Ok(store::written(n, c))
        },
        None => {
            proof {
                assert(if_written(0, patched(rows@, *params)) == None::<Contact>);
            }
            Ok(None)
        },
    }
}

pub struct DeleteParams {
    pub id: i64,
    pub current_timestamp: i64,
}

/// A contact changed before `now`: its `updated_at` is set and earlier.
pub open spec fn changed_before(c: Contact, now: i64) -> bool {
    match c.updated_at {
        Some(u) => u < now,
        None => false,
    }
}

fn is_changed_before(c: &Contact, now: i64) -> (b: bool)
    ensures
        b == changed_before(*c, now),
{
    match c.updated_at {
        Some(u) => u < now,
        None => false,
    }
}

/// The contact with that id, unless it was deleted, if it was last changed
/// before `now`.
impl Condition<Contact> for DeleteParams {
    open spec fn holds(&self, c: Contact) -> bool {
        c.id == self.id && c.deleted_at is None && changed_before(c, self.current_timestamp)
    }

    fn check(&self, c: &Contact) -> (b: bool) {
        c.id == self.id && c.deleted_at.is_none() && is_changed_before(c, self.current_timestamp)
    }
}

/// What `delete` stores and returns, given the rows of the table.
pub open spec fn deleted(rows: Seq<Contact>, params: DeleteParams) -> Option<Contact> {
    match first_matching(rows, params) {
        Some(k) => Some(Contact { deleted_at: Some(params.current_timestamp), ..k }),
        None => None,
    }
}

/// The live contact with that id, marked deleted at `now`, as `rows` hold it.
pub fn delete_in(rows: &Vec<Contact>, params: &DeleteParams) -> (r: Option<Contact>)
    ensures
        r == deleted(rows@, *params),
{
    match find_first(rows, params) {
        Some(k) => Some(Contact { deleted_at: Some(params.current_timestamp), ..k }),
        None => None,
    }
}

/// Deletes a live contact softly; `None` when no live contact has that id or
/// it was changed at or after `now`.
pub fn delete(conn: &mut rusqlite::Connection, params: &DeleteParams) -> (r: Result<Option<Contact>, SqliteInterfaceError>)
    ensures
        r matches Ok(Some(k)) ==> exists|rows: Seq<Contact>| #[trigger] deleted(rows, *params) == Some(k),
        r matches Ok(found) ==> exists|rows: Seq<Contact>, n: int| #[trigger] if_written(n, deleted(rows, *params)) == found,
        r matches Err(e) ==> read_error(e),
{
    store::begin(conn)?;
    let r = delete_within(conn, params);
    store::finish(conn, r)
}

/// `delete` inside the savepoint that `delete` opens.
fn delete_within(conn: &mut rusqlite::Connection, params: &DeleteParams) -> (r: Result<Option<Contact>, SqliteInterfaceError>)
    ensures
        r matches Ok(Some(k)) ==> exists|rows: Seq<Contact>| #[trigger] deleted(rows, *params) == Some(k),
        r matches Ok(found) ==> exists|rows: Seq<Contact>, n: int| #[trigger] if_written(n, deleted(rows, *params)) == found,
        r matches Err(e) ==> read_error(e),
{
    let rows = load(conn)?;
    match delete_in(&rows, params) {
        Some(k) => {
            let n = store::write(conn, UPDATE, &k)?;
            Ok(store::written(n, k))
        },
        None => {
            proof {
                assert(if_written(0, deleted(rows@, *params)) == None::<Contact>);
            }
            Ok(None)
        },
    }
}

pub struct DangerouslyDeleteParams {
    pub organization_id: i64,
    pub window_length_ms: i64,
    pub current_timestamp: i64,
}

/// A contact of the organization deleted more than a window before now.
impl Condition<Contact> for DangerouslyDeleteParams {
    open spec fn holds(&self, k: Contact) -> bool {
        match k.deleted_at {
            Some(d) => k.organization_id == self.organization_id && d < self.current_timestamp
                && self.window_length_ms < self.current_timestamp - d,
            None => false,
        }
    }

    fn check(&self, k: &Contact) -> (b: bool) {
        match k.deleted_at {
            Some(d) => k.organization_id == self.organization_id && d < self.current_timestamp
                && (self.window_length_ms as i128) < self.current_timestamp as i128 - d as i128,
            None => false,
        }
    }
}

/// The contacts of `rows` that `dangerously_delete` removes.
pub fn dangerously_delete_in(rows: &Vec<Contact>, params: &DangerouslyDeleteParams) -> (stale: Vec<Contact>)
    ensures
        stale@ == matching(rows@, *params),
{
    filter_rows(rows, params)
}

/// Removes for good the contacts of the organization deleted softly more than a
/// window ago.
pub fn dangerously_delete(conn: &mut rusqlite::Connection, params: &DangerouslyDeleteParams) -> (r: Result<(), SqliteInterfaceError>)
    ensures
        r matches Err(e) ==> read_error(e),
{
    store::begin(conn)?;
    let r = dangerously_delete_within(conn, params);
    store::finish(conn, r)
}

/// `dangerously_delete` inside the savepoint that `dangerously_delete` opens.
fn dangerously_delete_within(conn: &mut rusqlite::Connection, params: &DangerouslyDeleteParams) -> (r: Result<(), SqliteInterfaceError>)
    ensures
        r matches Err(e) ==> read_error(e),
{
    let rows = load(conn)?;
    let stale = dangerously_delete_in(&rows, params);
    store::delete_each(conn, &stale)
}

/// A contact just created is read back by its id.
pub proof fn lemma_created_contact_is_read(rows: Seq<Contact>, c: CreateParams)
    requires
        forall|k: int| 0 <= k < rows.len() ==> (#[trigger] rows[k]).id != c.id,
    ensures
        first_matching(rows.push(created(c)), LiveId { id: c.id }) == Some(created(c)),
{
    lemma_none_matching(rows, LiveId { id: c.id });
    lemma_appended_first(rows, LiveId { id: c.id }, created(c));
}

/// A contact deleted softly is no longer read by its id.
pub proof fn lemma_deleted_contact_is_not_read(rows: Seq<Contact>, d: DeleteParams)
    requires
        deleted(rows, d) is Some,
    ensures
        first_matching(rewritten(rows, IdIs { id: d.id }, deleted(rows, d)->0), LiveId { id: d.id }) == None::<Contact>,
{
    let x = deleted(rows, d)->0;
    let after = rewritten(rows, IdIs { id: d.id }, x);
    broadcast use vstd::seq_lib::group_filter_ensures;
    assert(d.holds(matching(rows, d)[0]));
    assert forall|k: int| 0 <= k < after.len() implies !LiveId { id: d.id }.holds(#[trigger] after[k]) by {}
    lemma_none_matching(after, LiveId { id: d.id });
}

/// A patched contact is read back by its id as patched.
pub proof fn lemma_patched_contact_is_read(rows: Seq<Contact>, p: PatchParams)
    requires
        patched(rows, p) is Some,
    ensures
        first_matching(rewritten(rows, IdIs { id: p.id }, patched(rows, p)->0), LiveId { id: p.id }) == patched(rows, p),
{
    let x = patched(rows, p)->0;
    crate::rows::lemma_first_matching_holds(rows, p);
    let r = first_matching(rows, p)->0;
    let k = choose|k: int| 0 <= k < rows.len() && rows[k] == r;
    crate::rows::lemma_first_matching_some(rows, IdIs { id: p.id }, k);
    crate::rows::lemma_rewritten_first(rows, IdIs { id: p.id }, x);
    let after = rewritten(rows, IdIs { id: p.id }, x);
    assert forall|j: int| 0 <= j < after.len() implies IdIs { id: p.id }.holds(#[trigger] after[j]) == LiveId { id: p.id }.holds(after[j]) by {}
    crate::rows::lemma_same_on_rows(after, IdIs { id: p.id }, LiveId { id: p.id });
}

/// `dangerously_delete` leaves no contact of the organization deleted more than a
/// window ago, and keeps every other contact.
pub proof fn lemma_dangerously_delete_keeps_the_rest(rows: Seq<Contact>, p: DangerouslyDeleteParams)
    ensures
        forall|k: int| 0 <= k < without(rows, p).len() ==> !p.holds(#[trigger] without(rows, p)[k]),
        forall|k: int| 0 <= k < rows.len() && !p.holds(rows[k]) ==> without(rows, p).contains(#[trigger] rows[k]),
{
    lemma_without(rows, p);
}

/// Rows that belong to one person.
pub open spec fn of_person(people_id: i64) -> spec_fn(Contact) -> bool {
    |r: Contact| r.people_id == people_id
}

/// Reading by person gives, in their order, the contacts of the organization's
/// read that belong to the person, when neither read has an offset or a
/// limit.
pub proof fn lemma_read_by_person_within_read(rows: Seq<Contact>, q: ReadByPersonParams, p: ReadParams)
    requires
        q.organization_id == p.organization_id,
        q.offset == 0,
        p.offset == 0,
        q.limit < 0,
        p.limit < 0,
    ensures
        selection(rows, q, q.offset, q.limit) == selection(rows, p, p.offset, p.limit).filter(of_person(q.people_id)),
{
    crate::rows::lemma_matching_refined(rows, p, q, of_person(q.people_id));
    crate::rows::lemma_selection_unbounded(rows, q, q.limit);
    crate::rows::lemma_selection_unbounded(rows, p, p.limit);
}

/// A read gives contacts of the table that belong to the organization and are not deleted; unpaged, it gives every such one.
pub proof fn lemma_read_is_the_organizations_live_contacts(rows: Seq<Contact>, p: ReadParams)
    ensures
        forall|x: Contact| #[trigger] crate::rows::selection(rows, p, p.offset, p.limit).contains(x) ==> rows.contains(x) && (x.deleted_at is None && x.organization_id == p.organization_id),
        p.offset <= 0 && p.limit < 0 ==> forall|x: Contact|
            #[trigger] crate::rows::selection(rows, p, p.offset, p.limit).contains(x) <==> rows.contains(x) && (x.deleted_at is None && x.organization_id == p.organization_id),
{
    crate::rows::lemma_selection_members(rows, p, p.offset, p.limit);
}

/// A read by person gives contacts of the table that belong to the organization and the person and are not deleted; unpaged, it gives every such one.
pub proof fn lemma_read_by_person_is_the_persons_live_contacts(rows: Seq<Contact>, p: ReadByPersonParams)
    ensures
        forall|x: Contact| #[trigger] crate::rows::selection(rows, p, p.offset, p.limit).contains(x) ==> rows.contains(x) && (x.deleted_at is None && x.organization_id == p.organization_id && x.people_id == p.people_id),
        p.offset <= 0 && p.limit < 0 ==> forall|x: Contact|
            #[trigger] crate::rows::selection(rows, p, p.offset, p.limit).contains(x) <==> rows.contains(x) && (x.deleted_at is None && x.organization_id == p.organization_id && x.people_id == p.people_id),
{
    crate::rows::lemma_selection_members(rows, p, p.offset, p.limit);
}

/// A read by id gives a row of the table with that id that is not deleted, and gives none only when the table holds no such row.
pub proof fn lemma_read_by_id_is_the_live_row(rows: Seq<Contact>, id: i64)
    ensures
        crate::rows::first_matching(rows, (LiveId { id })) matches Some(x) ==> rows.contains(x) && (x.id == id && x.deleted_at is None),
        crate::rows::first_matching(rows, (LiveId { id })) is None ==> forall|x: Contact| #[trigger] rows.contains(x) ==> !(x.id == id && x.deleted_at is None),
{
    crate::rows::lemma_first_matching_members(rows, (LiveId { id }));
}

/// `patch` gives a contact of the table with that id, not deleted and last changed before now, with the given content and changed now, and nothing else of it changed; it gives none only when there is no such contact.
pub proof fn lemma_patch_rewrites_the_live_contact(rows: Seq<Contact>, p: PatchParams)
    ensures
        patched(rows, p) matches Some(x) ==> exists|r: Contact| #[trigger] rows.contains(r) && (r.id == p.id && r.deleted_at is None && (r.updated_at matches Some(u) && u < p.current_timestamp)) && x == (Contact { content: p.content, updated_at: Some(p.current_timestamp), ..r }),
        patched(rows, p) is None ==> forall|r: Contact| #[trigger] rows.contains(r) ==> !(r.id == p.id && r.deleted_at is None && (r.updated_at matches Some(u) && u < p.current_timestamp)),
{
    crate::rows::lemma_first_matching_members(rows, p);
}

/// `delete` marks deleted, at the given time, a contact of the table with that id, not deleted and last changed before now, and changes nothing else of it; it marks none only when there is no such contact.
pub proof fn lemma_delete_marks_the_live_contact(rows: Seq<Contact>, p: DeleteParams)
    ensures
        deleted(rows, p) matches Some(x) ==> exists|r: Contact| #[trigger] rows.contains(r) && (r.id == p.id && r.deleted_at is None && (r.updated_at matches Some(u) && u < p.current_timestamp)) && x == (Contact { deleted_at: Some(p.current_timestamp), ..r }),
        deleted(rows, p) is None ==> forall|r: Contact| #[trigger] rows.contains(r) ==> !(r.id == p.id && r.deleted_at is None && (r.updated_at matches Some(u) && u < p.current_timestamp)),
{
    crate::rows::lemma_first_matching_members(rows, p);
}

/// `dangerously_delete` picks exactly the contacts of the organization deleted before now and more than a window ago.
pub proof fn lemma_dangerously_delete_picks_the_long_deleted_contacts(rows: Seq<Contact>, p: DangerouslyDeleteParams)
    ensures
        forall|x: Contact| #[trigger] crate::rows::matching(rows, p).contains(x) <==> rows.contains(x) && (x.deleted_at matches Some(d) && x.organization_id == p.organization_id && d < p.current_timestamp && p.window_length_ms < p.current_timestamp - d),
{
    crate::rows::lemma_matching_members(rows, p);
}

/// `create` stores a contact with the given values, not deleted.
pub proof fn lemma_create_stores_the_given_values(c: CreateParams)
    ensures
        ({
            let k = created(c);
            c.id == k.id && c.organization_id == k.organization_id && c.people_id == k.people_id && c.contact_kind_id == k.contact_kind_id && c.content == k.content && k.updated_at == Some(c.current_timestamp) && k.deleted_at is None
        }),
{
}

/// The parameters that delete a row pick it out by the table's key: two rows
/// get the same ones exactly when their key columns agree.
pub proof fn lemma_key_is_the_primary_key(a: Contact, b: Contact)
    ensures
        Contact::key_of(a) == Contact::key_of(b) <==> (a.id == b.id),
{
    if Contact::key_of(a) == Contact::key_of(b) {
        assert(Contact::key_of(a)[0] == Contact::key_of(b)[0]);
    }
    if a.id == b.id {
        assert(Contact::key_of(a) =~= Contact::key_of(b));
    }
}

} // verus!
