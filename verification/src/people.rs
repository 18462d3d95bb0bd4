//! The `people` table: the accounts of an organization; deleting a person is
//! soft, and soft-deleted people are purged later.

use vstd::prelude::*;
use crate::errors::SqliteInterfaceError;
use crate::rows::{
    filter_rows, find_first, first_matching, lemma_appended_first, lemma_first_matching_holds,
    lemma_first_matching_some, lemma_none_matching, lemma_rewritten_first, lemma_same_on_rows,
    lemma_without, matching, rewritten, without, Condition, IdIs, LiveId,
};
use crate::store::{self, if_written, reads_as, stored_cells, Stored};
use crate::type_flyweight::people::Person;
use crate::value::{
    bool_of, bool_param, boolean, int_of, opt_int, opt_int_of, opt_int_param, read_bool, read_int,
    read_opt_int, read_text, text, text_of, Datum, Param,
};

verus! {

broadcast use vstd::seq_lib::group_seq_properties;

impl Stored for Person {
    open spec fn definition_text() -> Seq<char> {
        "CREATE TABLE IF NOT EXISTS people (
            id INTEGER PRIMARY KEY,
            organization_id INTEGER NOT NULL,
            internal INTEGER NOT NULL,
            multi_factor_required INTEGER NOT NULL,
            password_hash_results TEXT NOT NULL,
            updated_at INTEGER NOT NULL,
            deleted_at INTEGER
        )"@
    }

    fn definition() -> (sql: &'static str) {
        "CREATE TABLE IF NOT EXISTS people (
            id INTEGER PRIMARY KEY,
            organization_id INTEGER NOT NULL,
            internal INTEGER NOT NULL,
            multi_factor_required INTEGER NOT NULL,
            password_hash_results TEXT NOT NULL,
            updated_at INTEGER NOT NULL,
            deleted_at INTEGER
        )"
    }

    open spec fn select_all_text() -> Seq<char> {
        "SELECT * FROM people"@
    }

    fn select_all() -> (sql: &'static str) {
        "SELECT * FROM people"
    }

    open spec fn delete_by_key_text() -> Seq<char> {
        "DELETE FROM people WHERE id = ?1"@
    }

    fn delete_by_key() -> (sql: &'static str) {
        "DELETE FROM people WHERE id = ?1"
    }

    open spec fn malformed_text() -> Seq<char> {
        "malformed row in people"@
    }

    fn malformed() -> (text: &'static str) {
        "malformed row in people"
    }

    open spec fn key_of(row: Person) -> Seq<Param> {
        seq![Param::Integer(row.id)]
    }

    fn key(&self) -> (key: Vec<Param>) {
        let mut key: Vec<Param> = Vec::new();
        key.push(Param::Integer(self.id));
        assert(key@ =~= Self::key_of(*self));
        key
    }

    open spec fn decoded(cells: Seq<Datum>) -> Option<Person> {
        if cells.len() >= 7 && int_of(cells[0]) is Some && int_of(cells[1]) is Some && bool_of(cells[2]) is Some
            && bool_of(cells[3]) is Some && text_of(cells[4]) is Some && int_of(cells[5]) is Some
            && opt_int_of(cells[6]) is Some {
            Some(
                Person {
                    id: int_of(cells[0])->0,
                    organization_id: int_of(cells[1])->0,
                    internal: bool_of(cells[2])->0,
                    multi_factor_required: bool_of(cells[3])->0,
                    password_hash_results: text_of(cells[4])->0,
                    updated_at: int_of(cells[5])->0,
                    deleted_at: opt_int_of(cells[6])->0,
                },
            )
        } else {
            None
        }
    }

    open spec fn cells_of(p: Person) -> Seq<Param> {
        seq![
            Param::Integer(p.id),
            Param::Integer(p.organization_id),
            bool_param(p.internal),
            bool_param(p.multi_factor_required),
            Param::Text(p.password_hash_results),
            Param::Integer(p.updated_at),
            opt_int_param(p.deleted_at),
        ]
    }

    fn decode(cells: &Vec<Datum>) -> (r: Option<Person>) {
        if cells.len() < 7 {
            return None;
        }
        let id = match read_int(&cells[0]) { Some(v) => v, None => return None };
        let organization_id = match read_int(&cells[1]) { Some(v) => v, None => return None };
        let internal = match read_bool(&cells[2]) { Some(v) => v, None => return None };
        let multi_factor_required = match read_bool(&cells[3]) { Some(v) => v, None => return None };
        let password_hash_results = match read_text(&cells[4]) { Some(v) => v, None => return None };
        let updated_at = match read_int(&cells[5]) { Some(v) => v, None => return None };
        let deleted_at = match read_opt_int(&cells[6]) { Some(v) => v, None => return None };
        Some(Person { id, organization_id, internal, multi_factor_required, password_hash_results, updated_at, deleted_at })
    }

    fn encode(&self) -> (cells: Vec<Param>) {
        let mut cells: Vec<Param> = Vec::new();
        cells.push(Param::Integer(self.id));
        cells.push(Param::Integer(self.organization_id));
        cells.push(boolean(self.internal));
        cells.push(boolean(self.multi_factor_required));
        cells.push(text(&self.password_hash_results));
        cells.push(Param::Integer(self.updated_at));
        cells.push(opt_int(self.deleted_at));
        assert(cells@ =~= Self::cells_of(*self));
        cells
    }
}

/// A person written and read back, with each value kept as given, reads as
/// themself.
pub proof fn lemma_round_trip(p: Person)
    ensures
        Person::decoded(stored_cells(Person::cells_of(p))) == Some(p),
{
    assert(stored_cells(Person::cells_of(p)).len() == 7);
}

impl Condition<Person> for IdIs {
    open spec fn holds(&self, p: Person) -> bool {
        p.id == self.id
    }

    fn check(&self, p: &Person) -> (b: bool) {
        p.id == self.id
    }
}

impl Condition<Person> for LiveId {
    open spec fn holds(&self, p: Person) -> bool {
        p.id == self.id && p.deleted_at is None
    }

    fn check(&self, p: &Person) -> (b: bool) {
        p.id == self.id && p.deleted_at.is_none()
    }
}

/// An error of a read of this table: SQLite's own, or a row that does not
/// read as a person.
pub open spec fn read_error(e: SqliteInterfaceError) -> bool {
    e is Rusqlite || e.is_custom("malformed row in people"@)
}

fn load(conn: &rusqlite::Connection) -> (r: Result<Vec<Person>, SqliteInterfaceError>)
    ensures
        r matches Ok(rows) ==> exists|raw: Seq<Seq<Datum>>| #[trigger] reads_as(raw, rows@),
        r matches Err(e) ==> read_error(e),
{
    store::load(conn)
}

const INSERT: &'static str = "INSERT INTO people (id, organization_id, internal, multi_factor_required, password_hash_results, updated_at, deleted_at) VALUES (?1, ?2, ?3, ?4, ?5, ?6, ?7)";

const UPDATE: &'static str = "UPDATE people SET organization_id = ?2, internal = ?3, multi_factor_required = ?4, password_hash_results = ?5, updated_at = ?6, deleted_at = ?7 WHERE id = ?1";

pub fn create_table(conn: &mut rusqlite::Connection) -> (r: Result<(), SqliteInterfaceError>)
    ensures
        r matches Err(e) ==> e is Rusqlite,
{
    store::create_table::<Person>(conn)
}

pub struct CreateParams {
    pub id: i64,
    pub organization_id: i64,
    pub internal: bool,
    pub multi_factor_required: bool,
    pub password_hash_results: String,
    pub current_timestamp: i64,
}

/// The person that `create` stores.
pub open spec fn created(params: CreateParams) -> Person {
    Person {
        id: params.id,
        organization_id: params.organization_id,
        internal: params.internal,
        multi_factor_required: params.multi_factor_required,
        password_hash_results: params.password_hash_results,
        updated_at: params.current_timestamp,
        deleted_at: None,
    }
}

pub fn new_person(params: &CreateParams) -> (p: Person)
    ensures
        p == created(*params),
{
    Person {
        id: params.id,
        organization_id: params.organization_id,
        internal: params.internal,
        multi_factor_required: params.multi_factor_required,
        password_hash_results: params.password_hash_results.clone(),
        updated_at: params.current_timestamp,
        deleted_at: None,
    }
}

/// Stores a new person; it fails where the database refuses the row (an id
/// that is taken, or no table).
pub fn create(conn: &mut rusqlite::Connection, params: &CreateParams) -> (r: Result<Person, SqliteInterfaceError>)
    ensures
        r matches Ok(p) ==> p == created(*params),
        r matches Err(e) ==> e is Rusqlite || e.is_custom("failed to create people"@),
{
    let p = new_person(params);
    let n = store::insert(conn, INSERT, &p, "failed to create people")?;
    store::inserted(n, p, "failed to create people")
}

/// The person with that id, unless deleted, as `rows` hold them.
pub fn read_by_id_in(rows: &Vec<Person>, id: i64) -> (r: Option<Person>)
    ensures
        r == first_matching(rows@, LiveId { id }),
{
    find_first(rows, &LiveId { id })
}

pub fn read_by_id(conn: &mut rusqlite::Connection, id: i64) -> (r: Result<Option<Person>, SqliteInterfaceError>)
    ensures
        r matches Ok(found) ==> exists|rows: Seq<Person>| #[trigger] first_matching(rows, LiveId { id }) == found,
        r matches Ok(Some(p)) ==> p.id == id && p.deleted_at is None,
        r matches Err(e) ==> read_error(e),
{
    let rows = load(conn)?;
    let r = read_by_id_in(&rows, id);
    proof {
        if r is Some {
            lemma_first_matching_holds(rows@, LiveId { id });
        }
    }
    Ok(r)
}

pub struct UpdatePasswordParams {
    pub id: i64,
    pub password_hash_results: String,
    pub current_timestamp: i64,
}

/// The person with that id, unless deleted.
impl Condition<Person> for UpdatePasswordParams {
    open spec fn holds(&self, p: Person) -> bool {
        p.deleted_at is None && p.id == self.id
    }

    fn check(&self, p: &Person) -> (b: bool) {
        p.deleted_at.is_none() && p.id == self.id
    }
}

/// What `update_password` stores and returns, given the rows of the table.
pub open spec fn password_updated(rows: Seq<Person>, params: UpdatePasswordParams) -> Option<Person> {
    match first_matching(rows, params) {
        Some(p) => Some(
            Person { password_hash_results: params.password_hash_results, updated_at: params.current_timestamp, ..p },
        ),
        None => None,
    }
}

/// The live person with that id with the new password hash, as `rows` hold
/// them.
pub fn update_password_in(rows: &Vec<Person>, params: &UpdatePasswordParams) -> (r: Option<Person>)
    ensures
        r == password_updated(rows@, *params),
{
    match find_first(rows, params) {
        Some(p) => Some(
            Person {
                password_hash_results: params.password_hash_results.clone(),
                updated_at: params.current_timestamp,
                ..p
            },
        ),
        None => None,
    }
}

/// Replaces the password hash of a live person; `None` when no live person
/// has that id.
pub fn update_password(conn: &mut rusqlite::Connection, params: &UpdatePasswordParams) -> (r: Result<Option<Person>, SqliteInterfaceError>)
    ensures
        r matches Ok(Some(p)) ==> exists|rows: Seq<Person>| #[trigger] password_updated(rows, *params) == Some(p),
        r matches Ok(found) ==> exists|rows: Seq<Person>, n: int| #[trigger] if_written(n, password_updated(rows, *params)) == found,
        r matches Err(e) ==> read_error(e),
{
    store::begin(conn)?;
    let r = update_password_within(conn, params);
    store::finish(conn, r)
}

/// `update_password` inside the savepoint that `update_password` opens.
fn update_password_within(conn: &mut rusqlite::Connection, params: &UpdatePasswordParams) -> (r: Result<Option<Person>, SqliteInterfaceError>)
    ensures
        r matches Ok(Some(p)) ==> exists|rows: Seq<Person>| #[trigger] password_updated(rows, *params) == Some(p),
        r matches Ok(found) ==> exists|rows: Seq<Person>, n: int| #[trigger] if_written(n, password_updated(rows, *params)) == found,
        r matches Err(e) ==> read_error(e),
{
    let rows = load(conn)?;
    match update_password_in(&rows, params) {
        Some(p) => {
            let n = store::write(conn, UPDATE, &p)?;
            Ok(store::written(n, p))
        },
        None => {
            proof {
                assert(if_written(0, password_updated(rows@, *params)) == None::<Person>);
            }
            Ok(None)
        },
    }
}

pub struct PatchParams {
    pub id: i64,
    pub internal: Option<bool>,
    pub multi_factor_required: Option<bool>,
    pub current_timestamp: i64,
}

/// The person with that id, unless deleted.
impl Condition<Person> for PatchParams {
    open spec fn holds(&self, p: Person) -> bool {
        p.deleted_at is None && p.id == self.id
    }

    fn check(&self, p: &Person) -> (b: bool) {
        p.deleted_at.is_none() && p.id == self.id
    }
}

/// The field after a patch: the given value, or the old one when none is given.
pub open spec fn patched_field(given: Option<bool>, old: bool) -> bool {
    match given {
        Some(v) => v,
        None => old,
    }
}

fn patch_field(given: Option<bool>, old: bool) -> (v: bool)
    ensures
        v == patched_field(given, old),
{
    match given {
        Some(v) => v,
        None => old,
    }
}

/// What `patch` stores and returns, given the rows of the table: the given
/// flags set, the others kept, changed at `now`.
pub open spec fn patched(rows: Seq<Person>, params: PatchParams) -> Option<Person> {
    match first_matching(rows, params) {
        Some(p) => Some(
            Person {
                internal: patched_field(params.internal, p.internal),
                multi_factor_required: patched_field(params.multi_factor_required, p.multi_factor_required),
                updated_at: params.current_timestamp,
                ..p
            },
        ),
        None => None,
    }
}

/// The live person with that id with the given flags, as `rows` hold them.
pub fn patch_in(rows: &Vec<Person>, params: &PatchParams) -> (r: Option<Person>)
    ensures
        r == patched(rows@, *params),
{
    match find_first(rows, params) {
        Some(p) => {
            let internal = patch_field(params.internal, p.internal);
            let multi_factor_required = patch_field(params.multi_factor_required, p.multi_factor_required);
            Some(Person { internal, multi_factor_required, updated_at: params.current_timestamp, ..p })
        },
        None => None,
    }
}

/// Sets the given flags of a live person; `None` when no live person has
/// that id.
pub fn patch(conn: &mut rusqlite::Connection, params: &PatchParams) -> (r: Result<Option<Person>, SqliteInterfaceError>)
    ensures
        r matches Ok(Some(p)) ==> exists|rows: Seq<Person>| #[trigger] patched(rows, *params) == Some(p),
        r matches Ok(found) ==> exists|rows: Seq<Person>, n: int| #[trigger] if_written(n, patched(rows, *params)) == found,
        r matches Err(e) ==> read_error(e),
{
    store::begin(conn)?;
    let r = patch_within(conn, params);
    store::finish(conn, r)
}

/// `patch` inside the savepoint that `patch` opens.
fn patch_within(conn: &mut rusqlite::Connection, params: &PatchParams) -> (r: Result<Option<Person>, SqliteInterfaceError>)
    ensures
        r matches Ok(Some(p)) ==> exists|rows: Seq<Person>| #[trigger] patched(rows, *params) == Some(p),
        r matches Ok(found) ==> exists|rows: Seq<Person>, n: int| #[trigger] if_written(n, patched(rows, *params)) == found,
        r matches Err(e) ==> read_error(e),
{
    let rows = load(conn)?;
    match patch_in(&rows, params) {
        Some(p) => {
            let n = store::write(conn, UPDATE, &p)?;
            Ok(store::written(n, p))
        },
        None => {
            proof {
                assert(if_written(0, patched(rows@, *params)) == None::<Person>);
            }
            Ok(None)
        },
    }
}

pub struct DeleteParams {
    pub id: i64,
    pub current_timestamp: i64,
}

/// The person with that id, deleted or not.
impl Condition<Person> for DeleteParams {
    open spec fn holds(&self, p: Person) -> bool {
        p.id == self.id
    }

    fn check(&self, p: &Person) -> (b: bool) {
        p.id == self.id
    }
}

/// What `delete` stores and returns, given the rows of the table.
pub open spec fn deleted(rows: Seq<Person>, params: DeleteParams) -> Option<Person> {
    match first_matching(rows, params) {
        Some(p) => Some(Person { deleted_at: Some(params.current_timestamp), ..p }),
        None => None,
    }
}

/// The person with that id, marked deleted at `now`, as `rows` hold them.
pub fn delete_in(rows: &Vec<Person>, params: &DeleteParams) -> (r: Option<Person>)
    ensures
        r == deleted(rows@, *params),
{
    match find_first(rows, params) {
        Some(p) => Some(Person { deleted_at: Some(params.current_timestamp), ..p }),
        None => None,
    }
}

/// Deletes a person softly, stamping them with `now` even if they were
/// deleted before; `None` when no person has that id.
pub fn delete(conn: &mut rusqlite::Connection, params: &DeleteParams) -> (r: Result<Option<Person>, SqliteInterfaceError>)
    ensures
        r matches Ok(Some(p)) ==> exists|rows: Seq<Person>| #[trigger] deleted(rows, *params) == Some(p),
        r matches Ok(found) ==> exists|rows: Seq<Person>, n: int| #[trigger] if_written(n, deleted(rows, *params)) == found,
        r matches Err(e) ==> read_error(e),
{
    store::begin(conn)?;
    let r = delete_within(conn, params);
    store::finish(conn, r)
}

/// `delete` inside the savepoint that `delete` opens.
fn delete_within(conn: &mut rusqlite::Connection, params: &DeleteParams) -> (r: Result<Option<Person>, SqliteInterfaceError>)
    ensures
        r matches Ok(Some(p)) ==> exists|rows: Seq<Person>| #[trigger] deleted(rows, *params) == Some(p),
        r matches Ok(found) ==> exists|rows: Seq<Person>, n: int| #[trigger] if_written(n, deleted(rows, *params)) == found,
        r matches Err(e) ==> read_error(e),
{
    let rows = load(conn)?;
    match delete_in(&rows, params) {
        Some(p) => {
            let n = store::write(conn, UPDATE, &p)?;
            Ok(store::written(n, p))
        },
        None => {
            proof {
                assert(if_written(0, deleted(rows@, *params)) == None::<Person>);
            }
            Ok(None)
        },
    }
}

pub struct DangerouslyDeleteParams {
    pub organization_id: i64,
    pub window_length_ms: i64,
    pub current_timestamp: i64,
}

/// A person of the organization deleted more than a window before now.
impl Condition<Person> for DangerouslyDeleteParams {
    open spec fn holds(&self, p: Person) -> bool {
        match p.deleted_at {
            Some(d) => p.organization_id == self.organization_id && self.window_length_ms < self.current_timestamp - d,
            None => false,
        }
    }

    fn check(&self, p: &Person) -> (b: bool) {
        match p.deleted_at {
            Some(d) => p.organization_id == self.organization_id
                && (self.window_length_ms as i128) < self.current_timestamp as i128 - d as i128,
            None => false,
        }
    }
}

/// The people of `rows` that `dangerously_delete_entries` removes.
pub fn dangerously_delete_entries_in(rows: &Vec<Person>, params: &DangerouslyDeleteParams) -> (stale: Vec<Person>)
    ensures
        stale@ == matching(rows@, *params),
{
    filter_rows(rows, params)
}

/// Removes for good the people of the organization deleted softly more than
/// a window ago.
pub fn dangerously_delete_entries(conn: &mut rusqlite::Connection, params: &DangerouslyDeleteParams) -> (r: Result<(), SqliteInterfaceError>)
    ensures
        r matches Err(e) ==> read_error(e),
{
    store::begin(conn)?;
    let r = dangerously_delete_entries_within(conn, params);
    store::finish(conn, r)
}

/// `dangerously_delete_entries` inside the savepoint that `dangerously_delete_entries` opens.
fn dangerously_delete_entries_within(conn: &mut rusqlite::Connection, params: &DangerouslyDeleteParams) -> (r: Result<(), SqliteInterfaceError>)
    ensures
        r matches Err(e) ==> read_error(e),
{
    let rows = load(conn)?;
    let stale = dangerously_delete_entries_in(&rows, params);
    store::delete_each(conn, &stale)
}

/// A person just created is read back by their id.
pub proof fn lemma_created_person_is_read(rows: Seq<Person>, c: CreateParams)
    requires
        forall|k: int| 0 <= k < rows.len() ==> (#[trigger] rows[k]).id != c.id,
    ensures
        first_matching(rows.push(created(c)), LiveId { id: c.id }) == Some(created(c)),
{
    lemma_none_matching(rows, LiveId { id: c.id });
    lemma_appended_first(rows, LiveId { id: c.id }, created(c));
}

/// A person deleted softly is no longer read by their id.
pub proof fn lemma_deleted_person_is_not_read(rows: Seq<Person>, d: DeleteParams)
    requires
        deleted(rows, d) is Some,
    ensures
        first_matching(rewritten(rows, IdIs { id: d.id }, deleted(rows, d)->0), LiveId { id: d.id }) == None::<Person>,
{
    let x = deleted(rows, d)->0;
    let after = rewritten(rows, IdIs { id: d.id }, x);
    lemma_first_matching_holds(rows, d);
    assert forall|k: int| 0 <= k < after.len() implies !LiveId { id: d.id }.holds(#[trigger] after[k]) by {}
    lemma_none_matching(after, LiveId { id: d.id });
}

/// After a password update the person is read back with the new hash.
pub proof fn lemma_updated_password_is_read(rows: Seq<Person>, p: UpdatePasswordParams)
    requires
        password_updated(rows, p) is Some,
    ensures
        first_matching(rewritten(rows, IdIs { id: p.id }, password_updated(rows, p)->0), LiveId { id: p.id })
            == password_updated(rows, p),
{
    let x = password_updated(rows, p)->0;
    lemma_first_matching_holds(rows, p);
    let r = first_matching(rows, p)->0;
    let k = choose|k: int| 0 <= k < rows.len() && rows[k] == r;
    lemma_first_matching_some(rows, IdIs { id: p.id }, k);
    lemma_rewritten_first(rows, IdIs { id: p.id }, x);
    let after = rewritten(rows, IdIs { id: p.id }, x);
    assert forall|j: int| 0 <= j < after.len() implies IdIs { id: p.id }.holds(#[trigger] after[j]) == LiveId { id: p.id }.holds(after[j]) by {}
    lemma_same_on_rows(after, IdIs { id: p.id }, LiveId { id: p.id });
}

/// A patch changes only the flags it gives: the password hash is kept.
pub proof fn lemma_patch_keeps_password(rows: Seq<Person>, p: PatchParams)
    requires
        patched(rows, p) is Some,
    ensures
        patched(rows, p)->0.password_hash_results == first_matching(rows, p)->0.password_hash_results,
        p.internal is None ==> patched(rows, p)->0.internal == first_matching(rows, p)->0.internal,
        p.multi_factor_required is None ==> patched(rows, p)->0.multi_factor_required
            == first_matching(rows, p)->0.multi_factor_required,
{
}

/// `dangerously_delete_entries` leaves no person of the organization deleted
/// more than a window ago, and keeps every other person.
pub proof fn lemma_dangerously_delete_keeps_the_rest(rows: Seq<Person>, p: DangerouslyDeleteParams)
    ensures
        forall|k: int| 0 <= k < without(rows, p).len() ==> !p.holds(#[trigger] without(rows, p)[k]),
        forall|k: int| 0 <= k < rows.len() && !p.holds(rows[k]) ==> without(rows, p).contains(#[trigger] rows[k]),
{
    lemma_without(rows, p);
}

/// A read by id gives a person of the table with that id who is not deleted, and gives none only when the table holds no such person.
pub proof fn lemma_read_by_id_is_the_live_row(rows: Seq<Person>, id: i64)
    ensures
        crate::rows::first_matching(rows, (LiveId { id })) matches Some(x) ==> rows.contains(x) && (x.id == id && x.deleted_at is None),
        crate::rows::first_matching(rows, (LiveId { id })) is None ==> forall|x: Person| #[trigger] rows.contains(x) ==> !(x.id == id && x.deleted_at is None),
{
    crate::rows::lemma_first_matching_members(rows, (LiveId { id }));
}

/// `update_password` gives a person of the table with that id who is not deleted, with the given hash and changed now, and nothing else changed; it gives none only when there is no such person.
pub proof fn lemma_update_password_sets_the_hash(rows: Seq<Person>, p: UpdatePasswordParams)
    ensures
        password_updated(rows, p) matches Some(x) ==> exists|r: Person| #[trigger] rows.contains(r) && (r.id == p.id && r.deleted_at is None) && x == (Person { password_hash_results: p.password_hash_results, updated_at: p.current_timestamp, ..r }),
        password_updated(rows, p) is None ==> forall|r: Person| #[trigger] rows.contains(r) ==> !(r.id == p.id && r.deleted_at is None),
{
    crate::rows::lemma_first_matching_members(rows, p);
}

/// `patch` gives a person of the table with that id who is not deleted, with each flag that is given set to the given value, each flag that is not kept, changed now, and nothing else changed; it gives none only when there is no such person.
pub proof fn lemma_patch_sets_the_given_flags(rows: Seq<Person>, p: PatchParams)
    ensures
        patched(rows, p) matches Some(x) ==> exists|r: Person| #[trigger] rows.contains(r) && (r.id == p.id && r.deleted_at is None) && x == (Person { internal: match p.internal { Some(v) => v, None => r.internal }, multi_factor_required: match p.multi_factor_required { Some(v) => v, None => r.multi_factor_required }, updated_at: p.current_timestamp, ..r }),
        patched(rows, p) is None ==> forall|r: Person| #[trigger] rows.contains(r) ==> !(r.id == p.id && r.deleted_at is None),
        patched(rows, p) matches Some(x) ==> x.id == p.id && x.updated_at == p.current_timestamp,
        patched(rows, p) matches Some(x) ==> (p.internal matches Some(v) ==> x.internal == v),
        patched(rows, p) matches Some(x) ==> (p.multi_factor_required matches Some(v) ==> x.multi_factor_required == v),
{
    crate::rows::lemma_first_matching_members(rows, p);
}

/// `delete` marks deleted, at the given time, a person of the table with that id, and changes nothing else; it marks none only when the table holds no person with that id.
pub proof fn lemma_delete_marks_the_person(rows: Seq<Person>, p: DeleteParams)
    ensures
        deleted(rows, p) matches Some(x) ==> exists|r: Person| #[trigger] rows.contains(r) && (r.id == p.id) && x == (Person { deleted_at: Some(p.current_timestamp), ..r }),
        deleted(rows, p) is None ==> forall|r: Person| #[trigger] rows.contains(r) ==> !(r.id == p.id),
{
    crate::rows::lemma_first_matching_members(rows, p);
}

/// `dangerously_delete_entries` picks exactly the people of the organization deleted more than a window ago.
pub proof fn lemma_dangerously_delete_picks_the_long_deleted_people(rows: Seq<Person>, p: DangerouslyDeleteParams)
    ensures
        forall|x: Person| #[trigger] crate::rows::matching(rows, p).contains(x) <==> rows.contains(x) && (x.deleted_at matches Some(d) && x.organization_id == p.organization_id && p.window_length_ms < p.current_timestamp - d),
{
    crate::rows::lemma_matching_members(rows, p);
}

/// `create` stores a person with the given values, not deleted.
pub proof fn lemma_create_stores_the_given_values(c: CreateParams)
    ensures
        ({
            let k = created(c);
            c.id == k.id && c.organization_id == k.organization_id && c.internal == k.internal && c.multi_factor_required == k.multi_factor_required && c.password_hash_results == k.password_hash_results && k.updated_at == c.current_timestamp && k.deleted_at is None
        }),
{
}

/// The parameters that delete a row pick it out by the table's key: two rows
/// get the same ones exactly when their key columns agree.
pub proof fn lemma_key_is_the_primary_key(a: Person, b: Person)
    ensures
        Person::key_of(a) == Person::key_of(b) <==> (a.id == b.id),
{
    if Person::key_of(a) == Person::key_of(b) {
        assert(Person::key_of(a)[0] == Person::key_of(b)[0]);
    }
    if a.id == b.id {
        assert(Person::key_of(a) =~= Person::key_of(b));
    }
}

} // verus!
