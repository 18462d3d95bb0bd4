//! The `number_settings` table: number values that an organization sets for
//! kinds of actions; deleting one is soft, and soft-deleted settings are
//! purged later.

use vstd::prelude::*;
use crate::errors::SqliteInterfaceError;
use crate::rows::{
    all_ok, all_ok_rows, select_rows, selection, filter_rows, find_first, first_matching, lemma_appended_first, lemma_first_matching_holds,
    lemma_first_matching_some, lemma_none_matching, lemma_rewritten_first, lemma_same_on_rows,
    lemma_without, matching, rewritten, without, Condition, IdIs, LiveId,
};
use crate::store::{self, if_written, reads_as, stored_cells, Stored};
use crate::type_flyweight::settings::NumberSettings;
use crate::value::{
    int_of, opt_int, opt_int_of, opt_int_param, read_int,
    read_opt_int, text, Datum, Param,
};

verus! {

broadcast use vstd::seq_lib::group_seq_properties;

impl Stored for NumberSettings {
    open spec fn definition_text() -> Seq<char> {
        "CREATE TABLE IF NOT EXISTS number_settings (
            id INTEGER PRIMARY KEY,
            organization_id INTEGER NOT NULL,
            action_kind_id INTEGER NOT NULL,
            number_value INTEGER NOT NULL,
            updated_at INTEGER NOT NULL,
            deleted_at INTEGER
        )"@
    }

    fn definition() -> (sql: &'static str) {
        "CREATE TABLE IF NOT EXISTS number_settings (
            id INTEGER PRIMARY KEY,
            organization_id INTEGER NOT NULL,
            action_kind_id INTEGER NOT NULL,
            number_value INTEGER NOT NULL,
            updated_at INTEGER NOT NULL,
            deleted_at INTEGER
        )"
    }

    open spec fn select_all_text() -> Seq<char> {
        "SELECT * FROM number_settings"@
    }

    fn select_all() -> (sql: &'static str) {
        "SELECT * FROM number_settings"
    }

    open spec fn delete_by_key_text() -> Seq<char> {
        "DELETE FROM number_settings WHERE id = ?1"@
    }

    fn delete_by_key() -> (sql: &'static str) {
        "DELETE FROM number_settings WHERE id = ?1"
    }

    open spec fn malformed_text() -> Seq<char> {
        "malformed row in number_settings"@
    }

    fn malformed() -> (text: &'static str) {
        "malformed row in number_settings"
    }

    open spec fn key_of(row: NumberSettings) -> Seq<Param> {
        seq![Param::Integer(row.id)]
    }

    fn key(&self) -> (key: Vec<Param>) {
        let mut key: Vec<Param> = Vec::new();
        key.push(Param::Integer(self.id));
        assert(key@ =~= Self::key_of(*self));
        key
    }

    open spec fn decoded(cells: Seq<Datum>) -> Option<NumberSettings> {
        if cells.len() >= 6 && int_of(cells[0]) is Some && int_of(cells[1]) is Some && int_of(cells[2]) is Some
            && int_of(cells[3]) is Some && int_of(cells[4]) is Some && opt_int_of(cells[5]) is Some {
            Some(
                NumberSettings {
                    id: int_of(cells[0])->0,
                    organization_id: int_of(cells[1])->0,
                    action_kind_id: int_of(cells[2])->0,
                    number_value: int_of(cells[3])->0,
                    updated_at: int_of(cells[4])->0,
                    deleted_at: opt_int_of(cells[5])->0,
                },
            )
        } else {
            None
        }
    }

    open spec fn cells_of(n: NumberSettings) -> Seq<Param> {
        seq![
            Param::Integer(n.id),
            Param::Integer(n.organization_id),
            Param::Integer(n.action_kind_id),
            Param::Integer(n.number_value),
            Param::Integer(n.updated_at),
            opt_int_param(n.deleted_at),
        ]
    }

    fn decode(cells: &Vec<Datum>) -> (r: Option<NumberSettings>) {
        if cells.len() < 6 {
            return None;
        }
        let id = match read_int(&cells[0]) { Some(v) => v, None => return None };
        let organization_id = match read_int(&cells[1]) { Some(v) => v, None => return None };
        let action_kind_id = match read_int(&cells[2]) { Some(v) => v, None => return None };
        let number_value = match read_int(&cells[3]) { Some(v) => v, None => return None };
        let updated_at = match read_int(&cells[4]) { Some(v) => v, None => return None };
        let deleted_at = match read_opt_int(&cells[5]) { Some(v) => v, None => return None };
        Some(NumberSettings { id, organization_id, action_kind_id, number_value, updated_at, deleted_at })
    }

    fn encode(&self) -> (cells: Vec<Param>) {
        let mut cells: Vec<Param> = Vec::new();
        cells.push(Param::Integer(self.id));
        cells.push(Param::Integer(self.organization_id));
        cells.push(Param::Integer(self.action_kind_id));
        cells.push(Param::Integer(self.number_value));
        cells.push(Param::Integer(self.updated_at));
        cells.push(opt_int(self.deleted_at));
        assert(cells@ =~= Self::cells_of(*self));
        cells
    }
}

/// A setting written and read back, with each value kept as given, reads as
/// itself.
pub proof fn lemma_round_trip(n: NumberSettings)
    ensures
        NumberSettings::decoded(stored_cells(NumberSettings::cells_of(n))) == Some(n),
{
    assert(stored_cells(NumberSettings::cells_of(n)).len() == 6);
}

impl Condition<NumberSettings> for IdIs {
    open spec fn holds(&self, p: NumberSettings) -> bool {
        p.id == self.id
    }

    fn check(&self, p: &NumberSettings) -> (b: bool) {
        p.id == self.id
    }
}

impl Condition<NumberSettings> for LiveId {
    open spec fn holds(&self, p: NumberSettings) -> bool {
        p.id == self.id && p.deleted_at is None
    }

    fn check(&self, p: &NumberSettings) -> (b: bool) {
        p.id == self.id && p.deleted_at.is_none()
    }
}

/// An error of a read of this table: SQLite's own, or a row that does not
/// read as a setting.
pub open spec fn read_error(e: SqliteInterfaceError) -> bool {
    e is Rusqlite || e.is_custom("malformed row in number_settings"@)
}

fn load(conn: &rusqlite::Connection) -> (r: Result<Vec<NumberSettings>, SqliteInterfaceError>)
    ensures
        r matches Ok(rows) ==> exists|raw: Seq<Seq<Datum>>| #[trigger] reads_as(raw, rows@),
        r matches Err(e) ==> read_error(e),
{
    store::load(conn)
}

/// The insert of a setting as the service writes it: it names five columns
/// and gives six values, so SQLite does not compile it.
const INSERT: &'static str = "INSERT INTO number_settings (id, organization_id, action_kind_id, number_value, updated_at) VALUES (?1, ?2, ?3, ?4, ?5, ?6) RETURNING *";

const UPDATE: &'static str = "UPDATE number_settings SET organization_id = ?2, action_kind_id = ?3, number_value = ?4, updated_at = ?5, deleted_at = ?6 WHERE id = ?1";

pub fn create_table(conn: &mut rusqlite::Connection) -> (r: Result<(), SqliteInterfaceError>)
    ensures
        r matches Err(e) ==> e is Rusqlite,
{
    store::create_table::<NumberSettings>(conn)
}

pub struct CreateParams {
    pub id: i64,
    pub organization_id: i64,
    pub action_kind_id: bool,
    pub number_value: bool,
    pub current_timestamp: i64,
}

/// The integer SQLite stores for a flag: 1 or 0.
pub open spec fn flag(v: bool) -> i64 {
    if v {
        1
    } else {
        0
    }
}

fn flag_value(v: bool) -> (i: i64)
    ensures
        i == flag(v),
{
    if v {
        1
    } else {
        0
    }
}

/// The setting that `create` stores.
pub open spec fn created(params: CreateParams) -> NumberSettings {
    NumberSettings {
        id: params.id,
        organization_id: params.organization_id,
        action_kind_id: flag(params.action_kind_id),
        number_value: flag(params.number_value),
        updated_at: params.current_timestamp,
        deleted_at: None,
    }
}

pub fn new_number_settings(params: &CreateParams) -> (n: NumberSettings)
    ensures
        n == created(*params),
{
    NumberSettings {
        id: params.id,
        organization_id: params.organization_id,
        action_kind_id: flag_value(params.action_kind_id),
        number_value: flag_value(params.number_value),
        updated_at: params.current_timestamp,
        deleted_at: None,
    }
}

/// Runs the insert of a new setting as it stands. SQLite refuses to compile
/// it (six values for five columns), so it fails with SQLite's error; should
/// it compile, the setting it stores is `created(params)`.
pub fn create(conn: &mut rusqlite::Connection, params: &CreateParams) -> (r: Result<NumberSettings, SqliteInterfaceError>)
    ensures
        r matches Ok(n) ==> n == created(*params),
        r matches Err(e) ==> e is Rusqlite || e.is_custom("failed to create number_settings"@),
{
    let n = new_number_settings(params);
    let written = store::insert(conn, INSERT, &n, "failed to create number_settings")?;
    store::inserted(written, n, "failed to create number_settings")
}

pub struct ReadParams {
    pub organization_id: i64,
    pub offset: i64,
    pub limit: i64,
}

/// A live setting of the organization.
impl Condition<NumberSettings> for ReadParams {
    open spec fn holds(&self, n: NumberSettings) -> bool {
        n.deleted_at is None && n.organization_id == self.organization_id
    }

    fn check(&self, n: &NumberSettings) -> (b: bool) {
        n.deleted_at.is_none() && n.organization_id == self.organization_id
    }
}

/// The page of live settings of the organization that `rows` hold.
pub fn read_in(rows: &Vec<NumberSettings>, params: &ReadParams) -> (page: Vec<NumberSettings>)
    ensures
        page@ == selection(rows@, *params, params.offset, params.limit),
{
    select_rows(rows, params, params.offset, params.limit)
}

pub fn read(conn: &mut rusqlite::Connection, params: &ReadParams) -> (r: Result<Vec<Result<NumberSettings, SqliteInterfaceError>>, SqliteInterfaceError>)
    ensures
        r matches Ok(page) ==> exists|rows: Seq<NumberSettings>| all_ok(page@, #[trigger] selection(rows, *params, params.offset, params.limit)),
        r matches Ok(page) ==> forall|i: int| 0 <= i < page@.len() ==> (#[trigger] page@[i] matches Ok(row) && params.holds(row)),
        r matches Ok(page) ==> (0 <= params.limit ==> page@.len() <= params.limit),
        r matches Err(e) ==> read_error(e),
{
    let rows = load(conn)?;
    let page = read_in(&rows, params);
    let out = all_ok_rows(&page);
    proof {
        assert(all_ok(out@, selection(rows@, *params, params.offset, params.limit)));
        crate::rows::lemma_selection(rows@, *params, params.offset, params.limit);
    }
    Ok(out)
}

/// The setting with that id, unless deleted, as `rows` hold it.
pub fn read_by_id_in(rows: &Vec<NumberSettings>, id: i64) -> (r: Option<NumberSettings>)
    ensures
        r == first_matching(rows@, LiveId { id }),
{
    find_first(rows, &LiveId { id })
}

pub fn read_by_id(conn: &mut rusqlite::Connection, id: i64) -> (r: Result<Option<NumberSettings>, SqliteInterfaceError>)
    ensures
        r matches Ok(found) ==> exists|rows: Seq<NumberSettings>| #[trigger] first_matching(rows, LiveId { id }) == found,
        r matches Ok(Some(p)) ==> p.id == id && p.deleted_at is None,
        r matches Err(e) ==> read_error(e),
{
    let rows = load(conn)?;
    let r = read_by_id_in(&rows, id);
    proof {
        if r is Some {
            lemma_first_matching_holds(rows@, LiveId { id });
        }
    }
    Ok(r)
}

pub struct UpdatePasswordParams {
    pub id: i64,
    pub password_hash_results: String,
    pub current_timestamp: i64,
}

/// The parameters of the password statement: the hash, the time, and the
/// id, as `?1`, `?2` and `?3`.
pub fn update_password_args(params: &UpdatePasswordParams) -> (args: Vec<Param>)
    ensures
        args@ == seq![
            Param::Text(params.password_hash_results),
            Param::Integer(params.current_timestamp),
            Param::Integer(params.id),
        ],
{
    let mut args: Vec<Param> = Vec::new();
    args.push(text(&params.password_hash_results));
    args.push(Param::Integer(params.current_timestamp));
    args.push(Param::Integer(params.id));
    assert(args@ =~= seq![
        Param::Text(params.password_hash_results),
        Param::Integer(params.current_timestamp),
        Param::Integer(params.id),
    ]);
    args
}

/// Runs `UPDATE number_settings SET password_hash_results = ...` as it stands.
/// The table has no such column, so SQLite refuses the statement; should a
/// database hold one, the first row the statement returns is read back.
pub fn update_password(conn: &mut rusqlite::Connection, params: &UpdatePasswordParams) -> (r: Result<Option<NumberSettings>, SqliteInterfaceError>)
    ensures
        r matches Ok(Some(n)) ==> exists|cells: Seq<Datum>| #[trigger] NumberSettings::decoded(cells) == Some(n),
        r matches Err(e) ==> e is Rusqlite,
{
    let args = update_password_args(params);
    let returned = match crate::sqlite::query_all(
        conn,
        "UPDATE OR IGNORE number_settings
            SET
                password_hash_results = ?1,
                updated_at = ?2
            WHERE
                deleted_at IS NULL
                AND
                id = ?3
        RETURNING
            *",
        &args,
    ) {
        Ok(returned) => returned,
        Err(e) => return Err(SqliteInterfaceError::Rusqlite(e)),
    };
    if returned.len() > 0 {
        Ok(NumberSettings::decode(&returned[0]))
    } else {
        Ok(None)
    }
}

pub struct PatchParams {
    pub id: i64,
    pub action_kind_id: Option<bool>,
    pub number_value: Option<bool>,
    pub current_timestamp: i64,
}

/// The setting with that id, unless deleted.
impl Condition<NumberSettings> for PatchParams {
    open spec fn holds(&self, n: NumberSettings) -> bool {
        n.deleted_at is None && n.id == self.id
    }

    fn check(&self, n: &NumberSettings) -> (b: bool) {
        n.deleted_at.is_none() && n.id == self.id
    }
}

/// The column after a patch: the given flag as 1 or 0, or the old value when
/// none is given.
pub open spec fn patched_field(given: Option<bool>, old: i64) -> i64 {
    match given {
        Some(v) => flag(v),
        None => old,
    }
}

fn patch_field(given: Option<bool>, old: i64) -> (v: i64)
    ensures
        v == patched_field(given, old),
{
    match given {
        Some(v) => flag_value(v),
        None => old,
    }
}

/// What `patch` stores and returns, given the rows of the table.
pub open spec fn patched(rows: Seq<NumberSettings>, params: PatchParams) -> Option<NumberSettings> {
    match first_matching(rows, params) {
        Some(n) => Some(
            NumberSettings {
                action_kind_id: patched_field(params.action_kind_id, n.action_kind_id),
                number_value: patched_field(params.number_value, n.number_value),
                updated_at: params.current_timestamp,
                ..n
            },
        ),
        None => None,
    }
}

/// The live setting with that id with the given values, as `rows` hold it.
pub fn patch_in(rows: &Vec<NumberSettings>, params: &PatchParams) -> (r: Option<NumberSettings>)
    ensures
        r == patched(rows@, *params),
{
    match find_first(rows, params) {
        Some(n) => {
            let action_kind_id = patch_field(params.action_kind_id, n.action_kind_id);
            let number_value = patch_field(params.number_value, n.number_value);
            Some(NumberSettings { action_kind_id, number_value, updated_at: params.current_timestamp, ..n })
        },
        None => None,
    }
}

/// Sets the given values of a live setting; `None` when no live setting has
/// that id.
pub fn patch(conn: &mut rusqlite::Connection, params: &PatchParams) -> (r: Result<Option<NumberSettings>, SqliteInterfaceError>)
    ensures
        r matches Ok(Some(n)) ==> exists|rows: Seq<NumberSettings>| #[trigger] patched(rows, *params) == Some(n),
        r matches Ok(found) ==> exists|rows: Seq<NumberSettings>, n: int| #[trigger] if_written(n, patched(rows, *params)) == found,
        r matches Err(e) ==> read_error(e),
{
    store::begin(conn)?;
    let r = patch_within(conn, params);
    store::finish(conn, r)
}

/// `patch` inside the savepoint that `patch` opens.
fn patch_within(conn: &mut rusqlite::Connection, params: &PatchParams) -> (r: Result<Option<NumberSettings>, SqliteInterfaceError>)
    ensures
        r matches Ok(Some(n)) ==> exists|rows: Seq<NumberSettings>| #[trigger] patched(rows, *params) == Some(n),
        r matches Ok(found) ==> exists|rows: Seq<NumberSettings>, n: int| #[trigger] if_written(n, patched(rows, *params)) == found,
        r matches Err(e) ==> read_error(e),
{
    let rows = load(conn)?;
    match patch_in(&rows, params) {
        Some(n) => {
            let written = store::write(conn, UPDATE, &n)?;
            Ok(store::written(written, n))
        },
        None => {
            proof {
                assert(if_written(0, patched(rows@, *params)) == None::<NumberSettings>);
            }
            Ok(None)
        },
    }
}

pub struct DeleteParams {
    pub id: i64,
    pub current_timestamp: i64,
}

/// The setting with that id, deleted or not.
impl Condition<NumberSettings> for DeleteParams {
    open spec fn holds(&self, p: NumberSettings) -> bool {
        p.id == self.id
    }

    fn check(&self, p: &NumberSettings) -> (b: bool) {
        p.id == self.id
    }
}

/// What `delete` stores and returns, given the rows of the table.
pub open spec fn deleted(rows: Seq<NumberSettings>, params: DeleteParams) -> Option<NumberSettings> {
    match first_matching(rows, params) {
        Some(p) => Some(NumberSettings { deleted_at: Some(params.current_timestamp), ..p }),
        None => None,
    }
}

/// The setting with that id, marked deleted at `now`, as `rows` hold it.
pub fn delete_in(rows: &Vec<NumberSettings>, params: &DeleteParams) -> (r: Option<NumberSettings>)
    ensures
        r == deleted(rows@, *params),
{
    match find_first(rows, params) {
        Some(p) => Some(NumberSettings { deleted_at: Some(params.current_timestamp), ..p }),
        None => None,
    }
}

/// Deletes a setting softly, stamping it with `now` even if it was
/// deleted before; `None` when no setting has that id.
pub fn delete(conn: &mut rusqlite::Connection, params: &DeleteParams) -> (r: Result<Option<NumberSettings>, SqliteInterfaceError>)
    ensures
        r matches Ok(Some(p)) ==> exists|rows: Seq<NumberSettings>| #[trigger] deleted(rows, *params) == Some(p),
        r matches Ok(found) ==> exists|rows: Seq<NumberSettings>, n: int| #[trigger] if_written(n, deleted(rows, *params)) == found,
        r matches Err(e) ==> read_error(e),
{
    store::begin(conn)?;
    let r = delete_within(conn, params);
    store::finish(conn, r)
}

/// `delete` inside the savepoint that `delete` opens.
fn delete_within(conn: &mut rusqlite::Connection, params: &DeleteParams) -> (r: Result<Option<NumberSettings>, SqliteInterfaceError>)
    ensures
        r matches Ok(Some(p)) ==> exists|rows: Seq<NumberSettings>| #[trigger] deleted(rows, *params) == Some(p),
        r matches Ok(found) ==> exists|rows: Seq<NumberSettings>, n: int| #[trigger] if_written(n, deleted(rows, *params)) == found,
        r matches Err(e) ==> read_error(e),
{
    let rows = load(conn)?;
    match delete_in(&rows, params) {
        Some(p) => {
            let n = store::write(conn, UPDATE, &p)?;
            Ok(store::written(n, p))
        },
        None => {
            proof {
                assert(if_written(0, deleted(rows@, *params)) == None::<NumberSettings>);
            }
            Ok(None)
        },
    }
}

pub struct DangerouslyDeleteParams {
    pub organization_id: i64,
    pub window_length_ms: i64,
    pub current_timestamp: i64,
}

/// A setting of the organization deleted more than a window before now.
impl Condition<NumberSettings> for DangerouslyDeleteParams {
    open spec fn holds(&self, p: NumberSettings) -> bool {
        match p.deleted_at {
            Some(d) => p.organization_id == self.organization_id && self.window_length_ms < self.current_timestamp - d,
            None => false,
        }
    }

    fn check(&self, p: &NumberSettings) -> (b: bool) {
        match p.deleted_at {
            Some(d) => p.organization_id == self.organization_id
                && (self.window_length_ms as i128) < self.current_timestamp as i128 - d as i128,
            None => false,
        }
    }
}

/// The settings of `rows` that `dangerously_delete` removes.
pub fn dangerously_delete_in(rows: &Vec<NumberSettings>, params: &DangerouslyDeleteParams) -> (stale: Vec<NumberSettings>)
    ensures
        stale@ == matching(rows@, *params),
{
    filter_rows(rows, params)
}

/// Removes for good the settings of the organization deleted softly more than
/// a window ago.
pub fn dangerously_delete(conn: &mut rusqlite::Connection, params: &DangerouslyDeleteParams) -> (r: Result<(), SqliteInterfaceError>)
    ensures
        r matches Err(e) ==> read_error(e),
{
    store::begin(conn)?;
    let r = dangerously_delete_within(conn, params);
    store::finish(conn, r)
}

/// `dangerously_delete` inside the savepoint that `dangerously_delete` opens.
fn dangerously_delete_within(conn: &mut rusqlite::Connection, params: &DangerouslyDeleteParams) -> (r: Result<(), SqliteInterfaceError>)
    ensures
        r matches Err(e) ==> read_error(e),
{
    let rows = load(conn)?;
    let stale = dangerously_delete_in(&rows, params);
    store::delete_each(conn, &stale)
}

/// A setting just created is read back by its id.
pub proof fn lemma_created_setting_is_read(rows: Seq<NumberSettings>, c: CreateParams)
    requires
        forall|k: int| 0 <= k < rows.len() ==> (#[trigger] rows[k]).id != c.id,
    ensures
        first_matching(rows.push(created(c)), LiveId { id: c.id }) == Some(created(c)),
{
    lemma_none_matching(rows, LiveId { id: c.id });
    lemma_appended_first(rows, LiveId { id: c.id }, created(c));
}

/// A setting deleted softly is no longer read by its id.
pub proof fn lemma_deleted_setting_is_not_read(rows: Seq<NumberSettings>, d: DeleteParams)
    requires
        deleted(rows, d) is Some,
    ensures
        first_matching(rewritten(rows, IdIs { id: d.id }, deleted(rows, d)->0), LiveId { id: d.id }) == None::<NumberSettings>,
{
    let x = deleted(rows, d)->0;
    let after = rewritten(rows, IdIs { id: d.id }, x);
    lemma_first_matching_holds(rows, d);
    assert forall|k: int| 0 <= k < after.len() implies !LiveId { id: d.id }.holds(#[trigger] after[k]) by {}
    lemma_none_matching(after, LiveId { id: d.id });
}

/// A patched setting is read back by its id as patched.
pub proof fn lemma_patched_setting_is_read(rows: Seq<NumberSettings>, p: PatchParams)
    requires
        patched(rows, p) is Some,
    ensures
        first_matching(rewritten(rows, IdIs { id: p.id }, patched(rows, p)->0), LiveId { id: p.id }) == patched(rows, p),
{
    let x = patched(rows, p)->0;
    lemma_first_matching_holds(rows, p);
    let r = first_matching(rows, p)->0;
    let k = choose|k: int| 0 <= k < rows.len() && rows[k] == r;
    lemma_first_matching_some(rows, IdIs { id: p.id }, k);
    lemma_rewritten_first(rows, IdIs { id: p.id }, x);
    let after = rewritten(rows, IdIs { id: p.id }, x);
    assert forall|j: int| 0 <= j < after.len() implies IdIs { id: p.id }.holds(#[trigger] after[j]) == LiveId { id: p.id }.holds(after[j]) by {}
    lemma_same_on_rows(after, IdIs { id: p.id }, LiveId { id: p.id });
}

/// `dangerously_delete` leaves no setting of the organization deleted
/// more than a window ago, and keeps every other setting.
pub proof fn lemma_dangerously_delete_keeps_the_rest(rows: Seq<NumberSettings>, p: DangerouslyDeleteParams)
    ensures
        forall|k: int| 0 <= k < without(rows, p).len() ==> !p.holds(#[trigger] without(rows, p)[k]),
        forall|k: int| 0 <= k < rows.len() && !p.holds(rows[k]) ==> without(rows, p).contains(#[trigger] rows[k]),
{
    lemma_without(rows, p);
}

/// A read gives settings of the table that belong to the organization and are not deleted; unpaged, it gives every such one.
pub proof fn lemma_read_is_the_organizations_live_settings(rows: Seq<NumberSettings>, p: ReadParams)
    ensures
        forall|x: NumberSettings| #[trigger] crate::rows::selection(rows, p, p.offset, p.limit).contains(x) ==> rows.contains(x) && (x.deleted_at is None && x.organization_id == p.organization_id),
        p.offset <= 0 && p.limit < 0 ==> forall|x: NumberSettings|
            #[trigger] crate::rows::selection(rows, p, p.offset, p.limit).contains(x) <==> rows.contains(x) && (x.deleted_at is None && x.organization_id == p.organization_id),
{
    crate::rows::lemma_selection_members(rows, p, p.offset, p.limit);
}

/// A read by id gives a setting of the table with that id that is not deleted, and gives none only when the table holds no such setting.
pub proof fn lemma_read_by_id_is_the_live_row(rows: Seq<NumberSettings>, id: i64)
    ensures
        crate::rows::first_matching(rows, (LiveId { id })) matches Some(x) ==> rows.contains(x) && (x.id == id && x.deleted_at is None),
        crate::rows::first_matching(rows, (LiveId { id })) is None ==> forall|x: NumberSettings| #[trigger] rows.contains(x) ==> !(x.id == id && x.deleted_at is None),
{
    crate::rows::lemma_first_matching_members(rows, (LiveId { id }));
}

/// `patch` gives a setting of the table with that id that is not deleted, with each value that is given stored as 1 for true and 0 for false, each value that is not kept, changed now, and nothing else changed; it gives none only when there is no such setting.
pub proof fn lemma_patch_sets_the_given_flags(rows: Seq<NumberSettings>, p: PatchParams)
    ensures
        patched(rows, p) matches Some(x) ==> exists|r: NumberSettings| #[trigger] rows.contains(r) && (r.id == p.id && r.deleted_at is None) && x == (NumberSettings { action_kind_id: match p.action_kind_id { Some(v) => if v { 1i64 } else { 0i64 }, None => r.action_kind_id }, number_value: match p.number_value { Some(v) => if v { 1i64 } else { 0i64 }, None => r.number_value }, updated_at: p.current_timestamp, ..r }),
        patched(rows, p) is None ==> forall|r: NumberSettings| #[trigger] rows.contains(r) ==> !(r.id == p.id && r.deleted_at is None),
        patched(rows, p) matches Some(x) ==> x.id == p.id && x.updated_at == p.current_timestamp,
        patched(rows, p) matches Some(x) ==> (p.action_kind_id matches Some(v) ==> x.action_kind_id == if v { 1i64 } else { 0i64 }),
        patched(rows, p) matches Some(x) ==> (p.number_value matches Some(v) ==> x.number_value == if v { 1i64 } else { 0i64 }),
{
    crate::rows::lemma_first_matching_members(rows, p);
}

/// `delete` marks deleted, at the given time, a setting of the table with that id, and changes nothing else; it marks none only when the table holds no setting with that id.
pub proof fn lemma_delete_marks_the_setting(rows: Seq<NumberSettings>, p: DeleteParams)
    ensures
        deleted(rows, p) matches Some(x) ==> exists|r: NumberSettings| #[trigger] rows.contains(r) && (r.id == p.id) && x == (NumberSettings { deleted_at: Some(p.current_timestamp), ..r }),
        deleted(rows, p) is None ==> forall|r: NumberSettings| #[trigger] rows.contains(r) ==> !(r.id == p.id),
{
    crate::rows::lemma_first_matching_members(rows, p);
}

/// `dangerously_delete` picks exactly the settings of the organization deleted more than a window ago.
pub proof fn lemma_dangerously_delete_picks_the_long_deleted_settings(rows: Seq<NumberSettings>, p: DangerouslyDeleteParams)
    ensures
        forall|x: NumberSettings| #[trigger] crate::rows::matching(rows, p).contains(x) <==> rows.contains(x) && (x.deleted_at matches Some(d) && x.organization_id == p.organization_id && p.window_length_ms < p.current_timestamp - d),
{
    crate::rows::lemma_matching_members(rows, p);
}

/// `create` stores a setting with the given values, not deleted. Its flags are stored as 1 for true and 0 for false.
pub proof fn lemma_create_stores_the_given_values(c: CreateParams)
    ensures
        ({
            let k = created(c);
            c.id == k.id && c.organization_id == k.organization_id && k.action_kind_id == (if c.action_kind_id { 1i64 } else { 0i64 }) && k.number_value == (if c.number_value { 1i64 } else { 0i64 }) && k.updated_at == c.current_timestamp && k.deleted_at is None
        }),
{
}

/// The parameters that delete a row pick it out by the table's key: two rows
/// get the same ones exactly when their key columns agree.
pub proof fn lemma_key_is_the_primary_key(a: NumberSettings, b: NumberSettings)
    ensures
        NumberSettings::key_of(a) == NumberSettings::key_of(b) <==> (a.id == b.id),
{
    if NumberSettings::key_of(a) == NumberSettings::key_of(b) {
        assert(NumberSettings::key_of(a)[0] == NumberSettings::key_of(b)[0]);
    }
    if a.id == b.id {
        assert(NumberSettings::key_of(a) =~= NumberSettings::key_of(b));
    }
}

} // verus!
