//! The store: the tables of floor plans, floor maps, map objects, uploads and
//! services, and the operations that read and change them.
use vstd::prelude::*;
use vstd::string::*;
use vstd::set_lib::{lemma_int_range, lemma_len_subset, lemma_map_size, set_int_range};
use vstd::relations::injective_on;
use crate::flextimestamp::FlexTimestamp;
use crate::flexuuid::{FlexUuid, random_v4_layout};
use crate::models::{FloorMap, FloorPlan, MapObject, Service, Upload};
use crate::table::{
    find_row, has_key, insert_all_if_absent, insert_if_absent, insert_row, insert_rows, key_pos,
    keys_unique, lemma_insert_all_twice, lemma_insert_all_unique, lemma_insert_if_absent_unique,
    lemma_key_pos, lemma_key_pos_same_keys, lemma_live_rows_unique, lemma_insert_all_into_empty,
    lemma_live_rows_filter, lemma_live_rows_not_deleted, live_rows, live_rows_limited, take_at_most, TableRow,
};
use crate::text::{decimal_string, int_decimal, split_meta_spec};

pub use crate::text::split_meta_from_str;

verus! {

/// The kind of a failed operation, as `std::io::ErrorKind` names it.
#[derive(Clone, Copy, PartialEq, Eq, Structural, Debug)]
pub enum DbErrorKind {
    NotFound,
    Other,
}

/// A failed operation: its kind and a message for the log.
#[derive(Debug)]
pub struct DbError {
    pub kind: DbErrorKind,
    pub message: String,
}

/// `r` is an error of this kind with this message.
pub open spec fn error_is<T>(r: Result<T, DbError>, kind: DbErrorKind, msg: Seq<char>) -> bool {
    r matches Err(e) && e.kind == kind && e.message@ == msg
}

/// `before`, the identifier, then `after`.
pub fn uuid_message(before: &str, u: &FlexUuid, after: &str) -> (m: String)
    ensures
        m@ == before@ + u.hyphenated() + after@,
{
    let mut m = String::from_str(before);
    let us = u.to_string();
    m.append(us.as_str());
    m.append(after);
    m
}

/// The tables.
pub struct FloorDb {
    pub floor_plans: Vec<FloorPlan>,
    pub floor_maps: Vec<FloorMap>,
    pub map_objects: Vec<MapObject>,
    pub uploads: Vec<Upload>,
    pub services: Vec<Service>,
}

/// A change to a map object.
pub enum MapObjectChange {
    Position { x: i32, y: i32 },
    Arrow { x: i32, y: i32 },
    Delete,
    Text { name: String, description: String, meta: String },
    LabelSize { size: i32 },
    TypeObject { type_object: Option<FlexUuid> },
}

/// A map object after a change made at `now`.
pub open spec fn changed_map_object(row: MapObject, c: MapObjectChange, now: FlexTimestamp) -> MapObject {
    match c {
        MapObjectChange::Position { x, y } => MapObject { MapX: x, MapY: y, UpdatedAt: now, ..row },
        MapObjectChange::Arrow { x, y } => MapObject { ArrowX: x, ArrowY: y, UpdatedAt: now, ..row },
        MapObjectChange::Delete => MapObject {
            Deleted: true,
            DeletedAt: Some(now),
            UpdatedAt: now,
            ..row
        },
        MapObjectChange::Text { name, description, meta } => MapObject {
            Name: name,
            Description: description,
            Meta: meta,
            UpdatedAt: now,
            ..row
        },
        MapObjectChange::LabelSize { size } => MapObject { LabelSize: size, UpdatedAt: now, ..row },
        MapObjectChange::TypeObject { type_object } => MapObject {
            TypeObjectUUID: type_object,
            UpdatedAt: now,
            ..row
        },
    }
}

/// The map-object table after an `UPDATE ... WHERE MapObjectUUID = u` (and, with
/// `live_only`, `AND Deleted = false`) applying the change.
pub open spec fn map_objects_after(
    rows: Seq<MapObject>,
    u: FlexUuid,
    live_only: bool,
    c: MapObjectChange,
    now: FlexTimestamp,
) -> Seq<MapObject> {
    Seq::new(
        rows.len(),
        |k: int|
            if rows[k].MapObjectUUID == u && (!live_only || !rows[k].Deleted) {
                changed_map_object(rows[k], c, now)
            } else {
                rows[k]
            },
    )
}

/// The message when no map object has the identifier.
pub open spec fn map_object_missing_message(u: FlexUuid) -> Seq<char> {
    "port "@ + u.hyphenated() + " - error setting description: NotFound"@
}

/// The message when the map object is locked.
pub open spec fn map_object_locked_message(u: FlexUuid) -> Seq<char> {
    "map object "@ + u.hyphenated() + " - is locked"@
}

/// What a map-object operation does: it reads the first map object with the
/// identifier; where there is none it fails with `NotFound`, where it is locked
/// it fails with `Other`, and otherwise it applies the change and answers
/// `Ok(true)`. The other tables stay as they were.
pub open spec fn map_object_op(
    pre: FloorDb,
    post: FloorDb,
    r: Result<bool, DbError>,
    u: FlexUuid,
    live_only: bool,
    c: MapObjectChange,
    now: FlexTimestamp,
) -> bool {
    let rows = pre.map_objects@;
    let i = key_pos(rows, u);
    &&& post.floor_plans@ == pre.floor_plans@
    &&& post.floor_maps@ == pre.floor_maps@
    &&& post.uploads@ == pre.uploads@
    &&& post.services@ == pre.services@
    &&& if i >= rows.len() {
        error_is(r, DbErrorKind::NotFound, map_object_missing_message(u)) && post.map_objects@ == rows
    } else if rows[i].Locked {
        error_is(r, DbErrorKind::Other, map_object_locked_message(u)) && post.map_objects@ == rows
    } else {
        r == Ok::<bool, DbError>(true) && post.map_objects@ == map_objects_after(rows, u, live_only, c, now)
    }
}

/// The map object after the change.
fn apply_map_object_change(row: &MapObject, c: &MapObjectChange, now: FlexTimestamp) -> (r: MapObject)
    ensures
        r == changed_map_object(*row, *c, now),
{
    let mut r = row.clone();
    match c {
        MapObjectChange::Position { x, y } => {
            r.MapX = *x;
            r.MapY = *y;
        },
        MapObjectChange::Arrow { x, y } => {
            r.ArrowX = *x;
            r.ArrowY = *y;
        },
        MapObjectChange::Delete => {
            r.Deleted = true;
            r.DeletedAt = Some(now);
        },
        MapObjectChange::Text { name, description, meta } => {
            r.Name = name.clone();
            r.Description = description.clone();
            r.Meta = meta.clone();
        },
        MapObjectChange::LabelSize { size } => {
            r.LabelSize = *size;
        },
        MapObjectChange::TypeObject { type_object } => {
            r.TypeObjectUUID = *type_object;
        },
    }
    r.UpdatedAt = now;
    r
}

/// A change to a floor map.
pub enum FloorMapChange {
    Delete,
    Name { name: String },
    Clip { left: i32, top: i32, width: i32, height: i32 },
    Legend { left: i32, top: i32, font_size: i32 },
    File { file_name: String, version: i32 },
}

/// A floor map after a change made at `now`.
pub open spec fn changed_floor_map(row: FloorMap, c: FloorMapChange, now: FlexTimestamp) -> FloorMap {
    match c {
        FloorMapChange::Delete => FloorMap { Deleted: true, UpdatedAt: now, ..row },
        FloorMapChange::Name { name } => FloorMap { Name: name, UpdatedAt: now, ..row },
        FloorMapChange::Clip { left, top, width, height } => FloorMap {
            ClipLeft: left,
            ClipTop: top,
            ClipWidth: width,
            ClipHeight: height,
            UpdatedAt: now,
            ..row
        },
        FloorMapChange::Legend { left, top, font_size } => FloorMap {
            LegendLeft: left,
            LegendTop: top,
            LegendFontSize: font_size,
            UpdatedAt: now,
            ..row
        },
        FloorMapChange::File { file_name, version } => FloorMap {
            FloorMapFileName: file_name,
            FloorMapFileVersion: version,
            UpdatedAt: now,
            ..row
        },
    }
}

/// What each change does to a floor map, field by field: a deletion marks it
/// deleted, a rename sets the name, a clip change the clip rectangle, a legend
/// change the legend, and a new image the file name and version, each exactly
/// as given. The floor map is stamped with the time of the change, and every
/// field the change does not name keeps its value.
pub proof fn lemma_floor_map_change_fields(row: FloorMap, c: FloorMapChange, now: FlexTimestamp)
    ensures
        ({
            let r = changed_floor_map(row, c, now);
            &&& r.UpdatedAt == now
            &&& r.FloorMapUUID == row.FloorMapUUID
            &&& r.ParentFloorPlanUUID == row.ParentFloorPlanUUID
            &&& r.Description == row.Description
            &&& r.FullText == row.FullText
            &&& r.Locked == row.Locked
            &&& r.LockedBy == row.LockedBy
            &&& r.LockedAt == row.LockedAt
            &&& r.SortOrder == row.SortOrder
            &&& r.Deleted == (row.Deleted || c is Delete)
            &&& r.Name == (if let FloorMapChange::Name { name } = c { name } else { row.Name })
            &&& r.ClipLeft == (if let FloorMapChange::Clip { left, top, width, height } = c { left } else { row.ClipLeft })
            &&& r.ClipTop == (if let FloorMapChange::Clip { left, top, width, height } = c { top } else { row.ClipTop })
            &&& r.ClipWidth == (if let FloorMapChange::Clip { left, top, width, height } = c {
                width
            } else {
                row.ClipWidth
            })
            &&& r.ClipHeight == (if let FloorMapChange::Clip { left, top, width, height } = c {
                height
            } else {
                row.ClipHeight
            })
            &&& r.LegendLeft == (if let FloorMapChange::Legend { left, top, font_size } = c {
                left
            } else {
                row.LegendLeft
            })
            &&& r.LegendTop == (if let FloorMapChange::Legend { left, top, font_size } = c {
                top
            } else {
                row.LegendTop
            })
            &&& r.LegendFontSize == (if let FloorMapChange::Legend { left, top, font_size } = c {
                font_size
            } else {
                row.LegendFontSize
            })
            &&& r.FloorMapFileName == (if let FloorMapChange::File { file_name, version } = c {
                file_name
            } else {
                row.FloorMapFileName
            })
            &&& r.FloorMapFileVersion == (if let FloorMapChange::File { file_name, version } = c {
                version
            } else {
                row.FloorMapFileVersion
            })
        }),
{
}

/// The floor-map table after an `UPDATE ... WHERE FloorMapUUID = u` (and, with
/// `live_only`, `AND Deleted = false`) applying the change.
pub open spec fn floor_maps_after(
    rows: Seq<FloorMap>,
    u: FlexUuid,
    live_only: bool,
    c: FloorMapChange,
    now: FlexTimestamp,
) -> Seq<FloorMap> {
    Seq::new(
        rows.len(),
        |k: int|
            if rows[k].FloorMapUUID == u && (!live_only || !rows[k].Deleted) {
                changed_floor_map(rows[k], c, now)
            } else {
                rows[k]
            },
    )
}

/// What a floor-map operation does: it reads the first floor map with the
/// identifier; where there is none it fails with `NotFound` and the message
/// `missing_before`, the identifier, `missing_after`; where it is locked it
/// fails with `Other` and the message `locked_before`, the identifier,
/// " - is locked"; otherwise it applies the change and answers `Ok(true)`. The
/// other tables stay as they were.
pub open spec fn floor_map_op(
    pre: FloorDb,
    post: FloorDb,
    r: Result<bool, DbError>,
    u: FlexUuid,
    live_only: bool,
    c: FloorMapChange,
    now: FlexTimestamp,
    missing_before: Seq<char>,
    missing_after: Seq<char>,
    locked_before: Seq<char>,
) -> bool {
    let rows = pre.floor_maps@;
    let i = key_pos(rows, u);
    &&& post.floor_plans@ == pre.floor_plans@
    &&& post.map_objects@ == pre.map_objects@
    &&& post.uploads@ == pre.uploads@
    &&& post.services@ == pre.services@
    &&& if i >= rows.len() {
        error_is(r, DbErrorKind::NotFound, missing_before + u.hyphenated() + missing_after)
            && post.floor_maps@ == rows
    } else if rows[i].Locked {
        error_is(r, DbErrorKind::Other, locked_before + u.hyphenated() + " - is locked"@)
            && post.floor_maps@ == rows
    } else {
        r == Ok::<bool, DbError>(true) && post.floor_maps@ == floor_maps_after(rows, u, live_only, c, now)
    }
}

/// The floor map after the change.
fn apply_floor_map_change(row: &FloorMap, c: &FloorMapChange, now: FlexTimestamp) -> (r: FloorMap)
    ensures
        r == changed_floor_map(*row, *c, now),
{
    let mut r = row.clone();
    match c {
        FloorMapChange::Delete => {
            r.Deleted = true;
        },
        FloorMapChange::Name { name } => {
            r.Name = name.clone();
        },
        FloorMapChange::Clip { left, top, width, height } => {
            r.ClipLeft = *left;
            r.ClipTop = *top;
            r.ClipWidth = *width;
            r.ClipHeight = *height;
        },
        FloorMapChange::Legend { left, top, font_size } => {
            r.LegendLeft = *left;
            r.LegendTop = *top;
            r.LegendFontSize = *font_size;
        },
        FloorMapChange::File { file_name, version } => {
            r.FloorMapFileName = file_name.clone();
            r.FloorMapFileVersion = *version;
        },
    }
    r.UpdatedAt = now;
    r
}

impl FloorDb {
    /// Each table keeps its primary key: no identifier twice.
    pub open spec fn wf(&self) -> bool {
        &&& keys_unique(self.floor_plans@)
        &&& keys_unique(self.floor_maps@)
        &&& keys_unique(self.map_objects@)
        &&& keys_unique(self.uploads@)
        &&& keys_unique(self.services@)
    }

    /// An empty store.
    pub fn new() -> (db: FloorDb)
        ensures
            db.wf(),
            db.floor_plans@.len() == 0,
            db.floor_maps@.len() == 0,
            db.map_objects@.len() == 0,
            db.uploads@.len() == 0,
            db.services@.len() == 0,
    {
        FloorDb {
            floor_plans: Vec::new(),
            floor_maps: Vec::new(),
            map_objects: Vec::new(),
            uploads: Vec::new(),
            services: Vec::new(),
        }
    }

    /// Applies a change to the map objects with identifier `u` (only to those
    /// not deleted, with `live_only`), unless the first of them is missing or
    /// locked.
    pub fn change_map_object(
        &mut self,
        u: &FlexUuid,
        live_only: bool,
        c: &MapObjectChange,
        now: FlexTimestamp,
    ) -> (r: Result<bool, DbError>)
        ensures
            map_object_op(*old(self), *final(self), r, *u, live_only, *c, now),
            old(self).wf() ==> final(self).wf(),
    {
        proof {
            lemma_key_pos(self.map_objects@, *u);
        }
        match find_row(&self.map_objects, u) {
            None => Err(
                DbError {
                    kind: DbErrorKind::NotFound,
                    message: uuid_message("port ", u, " - error setting description: NotFound"),
                },
            ),
            Some(i) => {
                if self.map_objects[i].Locked {
                    return Err(
                        DbError {
                            kind: DbErrorKind::Other,
                            message: uuid_message("map object ", u, " - is locked"),
                        },
                    );
                }
                let ghost start = self.map_objects@;
                let ghost target = map_objects_after(start, *u, live_only, *c, now);
                let n = self.map_objects.len();
                let mut k: usize = 0;
                while k < n
                    invariant
                        n == start.len(),
                        k <= n,
                        self.map_objects@.len() == n,
                        forall|j: int| 0 <= j < k ==> self.map_objects@[j] == target[j],
                        forall|j: int| k <= j < n ==> self.map_objects@[j] == start[j],
                        self.floor_plans@ == old(self).floor_plans@,
                        self.floor_maps@ == old(self).floor_maps@,
                        self.uploads@ == old(self).uploads@,
                        self.services@ == old(self).services@,
                        start == old(self).map_objects@,
                        target == map_objects_after(start, *u, live_only, *c, now),
                    decreases n - k,
                {
                    let row_matches = self.map_objects[k].MapObjectUUID == *u && (!live_only
                        || !self.map_objects[k].Deleted);
                    if row_matches {
                        let newrow = apply_map_object_change(&self.map_objects[k], c, now);
                        self.map_objects.set(k, newrow);
                    }
                    k = k + 1;
                }
                proof {
                    assert(self.map_objects@ == target);
                    assert forall|a: int, b: int| 0 <= a < b < n && old(self).wf() implies
                        self.map_objects@[a].MapObjectUUID != self.map_objects@[b].MapObjectUUID by {
                        assert(start[a].MapObjectUUID != start[b].MapObjectUUID);
                    }
                }
                Ok(true)
            },
        }
    }


    /// `UPDATE FloorMaps SET ... WHERE FloorMapUUID = u` (and, with `live_only`,
    /// `AND Deleted = false`).
    pub fn update_floor_maps(&mut self, u: &FlexUuid, live_only: bool, c: &FloorMapChange, now: FlexTimestamp)
        ensures
            final(self).floor_maps@ == floor_maps_after(old(self).floor_maps@, *u, live_only, *c, now),
            final(self).floor_plans@ == old(self).floor_plans@,
            final(self).map_objects@ == old(self).map_objects@,
            final(self).uploads@ == old(self).uploads@,
            final(self).services@ == old(self).services@,
            old(self).wf() ==> final(self).wf(),
    {
        let ghost start = self.floor_maps@;
        let ghost target = floor_maps_after(start, *u, live_only, *c, now);
        let n = self.floor_maps.len();
        let mut k: usize = 0;
        while k < n
            invariant
                n == start.len(),
                k <= n,
                self.floor_maps@.len() == n,
                forall|j: int| 0 <= j < k ==> self.floor_maps@[j] == target[j],
                forall|j: int| k <= j < n ==> self.floor_maps@[j] == start[j],
                self.floor_plans@ == old(self).floor_plans@,
                self.map_objects@ == old(self).map_objects@,
                self.uploads@ == old(self).uploads@,
                self.services@ == old(self).services@,
                start == old(self).floor_maps@,
                target == floor_maps_after(start, *u, live_only, *c, now),
            decreases n - k,
        {
            let row_matches = self.floor_maps[k].FloorMapUUID == *u && (!live_only
                || !self.floor_maps[k].Deleted);
            if row_matches {
                let newrow = apply_floor_map_change(&self.floor_maps[k], c, now);
                self.floor_maps.set(k, newrow);
            }
            k = k + 1;
        }
        proof {
            assert(self.floor_maps@ == target);
            assert forall|a: int, b: int| 0 <= a < b < n && old(self).wf() implies
                self.floor_maps@[a].FloorMapUUID != self.floor_maps@[b].FloorMapUUID by {
                assert(start[a].FloorMapUUID != start[b].FloorMapUUID);
            }
        }
    }

    /// Applies a change to the floor maps with identifier `u` (only to those not
    /// deleted, with `live_only`), unless the first of them is missing or locked.
    pub fn change_floor_map(
        &mut self,
        u: &FlexUuid,
        live_only: bool,
        c: &FloorMapChange,
        now: FlexTimestamp,
        missing_before: &str,
        missing_after: &str,
        locked_before: &str,
    ) -> (r: Result<bool, DbError>)
        ensures
            floor_map_op(
                *old(self),
                *final(self),
                r,
                *u,
                live_only,
                *c,
                now,
                missing_before@,
                missing_after@,
                locked_before@,
            ),
            old(self).wf() ==> final(self).wf(),
    {
        proof {
            lemma_key_pos(self.floor_maps@, *u);
        }
        match find_row(&self.floor_maps, u) {
            None => Err(
                DbError {
                    kind: DbErrorKind::NotFound,
                    message: uuid_message(missing_before, u, missing_after),
                },
            ),
            Some(i) => {
                if self.floor_maps[i].Locked {
                    return Err(
                        DbError {
                            kind: DbErrorKind::Other,
                            message: uuid_message(locked_before, u, " - is locked"),
                        },
                    );
                }
                self.update_floor_maps(u, live_only, c, now);
                Ok(true)
            },
        }
    }
}


/// Moves a live map object to (`new_x`, `new_y`), at the time `now`. The user is not recorded.
pub fn db_set_mapobject_xy_at(db: &mut FloorDb, mapobject_uuid: &FlexUuid, new_x: i32, new_y: i32, now: FlexTimestamp) -> (r: Result<bool, DbError>)
    ensures
        map_object_op(*old(db), *final(db), r, *mapobject_uuid, true, MapObjectChange::Position { x: new_x, y: new_y }, now),
        old(db).wf() ==> final(db).wf(),
{
    db.change_map_object(mapobject_uuid, true, &MapObjectChange::Position { x: new_x, y: new_y }, now)
}

/// Moves a live map object to (`new_x`, `new_y`), stamped with the current time. The user is not recorded.
pub fn db_set_mapobject_xy(db: &mut FloorDb, mapobject_uuid: &FlexUuid, new_x: i32, new_y: i32, user: &str) -> (r: Result<bool, DbError>)
    ensures
        exists|now: FlexTimestamp|
            now.valid() && map_object_op(*old(db), *final(db), r, *mapobject_uuid, true, MapObjectChange::Position { x: new_x, y: new_y }, now),
        old(db).wf() ==> final(db).wf(),
{
    let now = FlexTimestamp::now();
    db_set_mapobject_xy_at(db, mapobject_uuid, new_x, new_y, now)
}

/// Sets the arrow offset of a live map object, at the time `now`. The user is not recorded.
pub fn db_set_mapobject_arrow_xy_at(db: &mut FloorDb, mapobject_uuid: &FlexUuid, new_x: i32, new_y: i32, now: FlexTimestamp) -> (r: Result<bool, DbError>)
    ensures
        map_object_op(*old(db), *final(db), r, *mapobject_uuid, true, MapObjectChange::Arrow { x: new_x, y: new_y }, now),
        old(db).wf() ==> final(db).wf(),
{
    db.change_map_object(mapobject_uuid, true, &MapObjectChange::Arrow { x: new_x, y: new_y }, now)
}

/// Sets the arrow offset of a live map object, stamped with the current time. The user is not recorded.
pub fn db_set_mapobject_arrow_xy(db: &mut FloorDb, mapobject_uuid: &FlexUuid, new_x: i32, new_y: i32, user: &str) -> (r: Result<bool, DbError>)
    ensures
        exists|now: FlexTimestamp|
            now.valid() && map_object_op(*old(db), *final(db), r, *mapobject_uuid, true, MapObjectChange::Arrow { x: new_x, y: new_y }, now),
        old(db).wf() ==> final(db).wf(),
{
    let now = FlexTimestamp::now();
    db_set_mapobject_arrow_xy_at(db, mapobject_uuid, new_x, new_y, now)
}

/// Marks a map object deleted, with the time of deletion, at the time `now`. The flag is not read: the object is always marked deleted.
pub fn db_set_mapobject_deleted_at(db: &mut FloorDb, mapobject_uuid: &FlexUuid, now: FlexTimestamp) -> (r: Result<bool, DbError>)
    ensures
        map_object_op(*old(db), *final(db), r, *mapobject_uuid, false, MapObjectChange::Delete, now),
        old(db).wf() ==> final(db).wf(),
{
    db.change_map_object(mapobject_uuid, false, &MapObjectChange::Delete, now)
}

/// Marks a map object deleted, with the time of deletion, stamped with the current time. The flag is not read: the object is always marked deleted.
pub fn db_set_mapobject_deleted(db: &mut FloorDb, mapobject_uuid: &FlexUuid, deleted: bool) -> (r: Result<bool, DbError>)
    ensures
        exists|now: FlexTimestamp|
            now.valid() && map_object_op(*old(db), *final(db), r, *mapobject_uuid, false, MapObjectChange::Delete, now),
        old(db).wf() ==> final(db).wf(),
{
    let now = FlexTimestamp::now();
    db_set_mapobject_deleted_at(db, mapobject_uuid, now)
}

/// Sets the label size of a live map object, at the time `now`.
pub fn db_set_mapobject_labelsize_at(db: &mut FloorDb, mapobject_uuid: &FlexUuid, labelsize: i32, now: FlexTimestamp) -> (r: Result<bool, DbError>)
    ensures
        map_object_op(*old(db), *final(db), r, *mapobject_uuid, true, MapObjectChange::LabelSize { size: labelsize }, now),
        old(db).wf() ==> final(db).wf(),
{
    db.change_map_object(mapobject_uuid, true, &MapObjectChange::LabelSize { size: labelsize }, now)
}

/// Sets the label size of a live map object, stamped with the current time.
pub fn db_set_mapobject_labelsize(db: &mut FloorDb, mapobject_uuid: &FlexUuid, labelsize: i32) -> (r: Result<bool, DbError>)
    ensures
        exists|now: FlexTimestamp|
            now.valid() && map_object_op(*old(db), *final(db), r, *mapobject_uuid, true, MapObjectChange::LabelSize { size: labelsize }, now),
        old(db).wf() ==> final(db).wf(),
{
    let now = FlexTimestamp::now();
    db_set_mapobject_labelsize_at(db, mapobject_uuid, labelsize, now)
}

/// Sets the name, description and meta text of a live map object, at the time
/// `now`.
pub fn db_set_mapobject_name_description_meta_at(
    db: &mut FloorDb,
    mapobject_uuid: &FlexUuid,
    new_name: &str,
    new_description: &str,
    new_meta: &str,
    now: FlexTimestamp,
) -> (r: Result<bool, DbError>)
    ensures
        exists|name: String, description: String, meta: String|
            name@ == new_name@ && description@ == new_description@ && meta@ == new_meta@
                && map_object_op(
                *old(db),
                *final(db),
                r,
                *mapobject_uuid,
                true,
                MapObjectChange::Text { name, description, meta },
                now,
            ),
        old(db).wf() ==> final(db).wf(),
{
    let c = MapObjectChange::Text {
        name: new_name.to_owned(),
        description: new_description.to_owned(),
        meta: new_meta.to_owned(),
    };
    db.change_map_object(mapobject_uuid, true, &c, now)
}

/// Sets the name, description and meta text of a live map object, stamped with
/// the current time.
pub fn db_set_mapobject_name_description_meta(
    db: &mut FloorDb,
    mapobject_uuid: &FlexUuid,
    new_name: &str,
    new_description: &str,
    new_meta: &str,
) -> (r: Result<bool, DbError>)
    ensures
        exists|name: String, description: String, meta: String, now: FlexTimestamp|
            now.valid() && name@ == new_name@ && description@ == new_description@ && meta@
                == new_meta@ && map_object_op(
                *old(db),
                *final(db),
                r,
                *mapobject_uuid,
                true,
                MapObjectChange::Text { name, description, meta },
                now,
            ),
        old(db).wf() ==> final(db).wf(),
{
    let now = FlexTimestamp::now();
    db_set_mapobject_name_description_meta_at(db, mapobject_uuid, new_name, new_description, new_meta, now)
}

/// Sets (or clears) the type object of a live map object, at the time `now`.
pub fn db_set_mapobject_typeobjectuuid_at(
    db: &mut FloorDb,
    mapobject_uuid: &FlexUuid,
    typeobject_uuid: Option<&FlexUuid>,
    now: FlexTimestamp,
) -> (r: Result<bool, DbError>)
    ensures
        map_object_op(
            *old(db),
            *final(db),
            r,
            *mapobject_uuid,
            true,
            MapObjectChange::TypeObject {
                type_object: match typeobject_uuid {
                    Some(t) => Some(*t),
                    None => None,
                },
            },
            now,
        ),
        old(db).wf() ==> final(db).wf(),
{
    let t = match typeobject_uuid {
        Some(t) => Some(*t),
        None => None,
    };
    db.change_map_object(mapobject_uuid, true, &MapObjectChange::TypeObject { type_object: t }, now)
}

/// Sets (or clears) the type object of a live map object, stamped with the
/// current time.
pub fn db_set_mapobject_typeobjectuuid(
    db: &mut FloorDb,
    mapobject_uuid: &FlexUuid,
    typeobject_uuid: Option<&FlexUuid>,
) -> (r: Result<bool, DbError>)
    ensures
        exists|now: FlexTimestamp|
            now.valid() && map_object_op(
                *old(db),
                *final(db),
                r,
                *mapobject_uuid,
                true,
                MapObjectChange::TypeObject {
                    type_object: match typeobject_uuid {
                        Some(t) => Some(*t),
                        None => None,
                    },
                },
                now,
            ),
        old(db).wf() ==> final(db).wf(),
{
    let now = FlexTimestamp::now();
    db_set_mapobject_typeobjectuuid_at(db, mapobject_uuid, typeobject_uuid, now)
}


/// Marks a floor map deleted, at the time `now`. The flag is not read: the floor map is always marked deleted.
pub fn db_set_floormap_deleted_at(db: &mut FloorDb, floormap_uuid: &FlexUuid, now: FlexTimestamp) -> (r: Result<bool, DbError>)
    ensures
        floor_map_op(*old(db), *final(db), r, *floormap_uuid, false, FloorMapChange::Delete, now, "port "@, " - error setting description: NotFound"@, "map object "@),
        old(db).wf() ==> final(db).wf(),
{
    db.change_floor_map(floormap_uuid, false, &FloorMapChange::Delete, now, "port ", " - error setting description: NotFound", "map object ")
}

/// Marks a floor map deleted, stamped with the current time. The flag is not read: the floor map is always marked deleted.
pub fn db_set_floormap_deleted(db: &mut FloorDb, floormap_uuid: &FlexUuid, deleted: bool) -> (r: Result<bool, DbError>)
    ensures
        exists|now: FlexTimestamp|
            now.valid() && floor_map_op(*old(db), *final(db), r, *floormap_uuid, false, FloorMapChange::Delete, now, "port "@, " - error setting description: NotFound"@, "map object "@),
        old(db).wf() ==> final(db).wf(),
{
    let now = FlexTimestamp::now();
    db_set_floormap_deleted_at(db, floormap_uuid, now)
}

/// Sets the clip rectangle of a live floor map, at the time `now`.
pub fn db_set_floormap_clip_at(db: &mut FloorDb, floormap_uuid: &FlexUuid, new_left: i32, new_top: i32, new_width: i32, new_height: i32, now: FlexTimestamp) -> (r: Result<bool, DbError>)
    ensures
        floor_map_op(*old(db), *final(db), r, *floormap_uuid, true, FloorMapChange::Clip { left: new_left, top: new_top, width: new_width, height: new_height }, now, "floormap "@, " - error setting clip: NotFound"@, "floormap "@),
        old(db).wf() ==> final(db).wf(),
{
    db.change_floor_map(floormap_uuid, true, &FloorMapChange::Clip { left: new_left, top: new_top, width: new_width, height: new_height }, now, "floormap ", " - error setting clip: NotFound", "floormap ")
}

/// Sets the clip rectangle of a live floor map, stamped with the current time.
pub fn db_set_floormap_clip(db: &mut FloorDb, floormap_uuid: &FlexUuid, new_left: i32, new_top: i32, new_width: i32, new_height: i32) -> (r: Result<bool, DbError>)
    ensures
        exists|now: FlexTimestamp|
            now.valid() && floor_map_op(*old(db), *final(db), r, *floormap_uuid, true, FloorMapChange::Clip { left: new_left, top: new_top, width: new_width, height: new_height }, now, "floormap "@, " - error setting clip: NotFound"@, "floormap "@),
        old(db).wf() ==> final(db).wf(),
{
    let now = FlexTimestamp::now();
    db_set_floormap_clip_at(db, floormap_uuid, new_left, new_top, new_width, new_height, now)
}

/// Sets the legend position and font size of a live floor map, at the time `now`.
pub fn db_set_floormap_legend_at(db: &mut FloorDb, floormap_uuid: &FlexUuid, new_left: i32, new_top: i32, new_fontsize: i32, now: FlexTimestamp) -> (r: Result<bool, DbError>)
    ensures
        floor_map_op(*old(db), *final(db), r, *floormap_uuid, true, FloorMapChange::Legend { left: new_left, top: new_top, font_size: new_fontsize }, now, "floormap "@, " - error setting legend: NotFound"@, "floormap "@),
        old(db).wf() ==> final(db).wf(),
{
    db.change_floor_map(floormap_uuid, true, &FloorMapChange::Legend { left: new_left, top: new_top, font_size: new_fontsize }, now, "floormap ", " - error setting legend: NotFound", "floormap ")
}

/// Sets the legend position and font size of a live floor map, stamped with the current time.
pub fn db_set_floormap_legend(db: &mut FloorDb, floormap_uuid: &FlexUuid, new_left: i32, new_top: i32, new_fontsize: i32) -> (r: Result<bool, DbError>)
    ensures
        exists|now: FlexTimestamp|
            now.valid() && floor_map_op(*old(db), *final(db), r, *floormap_uuid, true, FloorMapChange::Legend { left: new_left, top: new_top, font_size: new_fontsize }, now, "floormap "@, " - error setting legend: NotFound"@, "floormap "@),
        old(db).wf() ==> final(db).wf(),
{
    let now = FlexTimestamp::now();
    db_set_floormap_legend_at(db, floormap_uuid, new_left, new_top, new_fontsize, now)
}

/// Renames a floor map, at the time `now`.
pub fn db_set_floormap_name_at(db: &mut FloorDb, floormap_uuid: &FlexUuid, name: &str, now: FlexTimestamp) -> (r: Result<bool, DbError>)
    ensures
        exists|new_name: String|
            new_name@ == name@ && floor_map_op(
                *old(db),
                *final(db),
                r,
                *floormap_uuid,
                false,
                FloorMapChange::Name { name: new_name },
                now,
                "port "@,
                " - error setting description: NotFound"@,
                "map object "@,
            ),
        old(db).wf() ==> final(db).wf(),
{
    let c = FloorMapChange::Name { name: name.to_owned() };
    db.change_floor_map(floormap_uuid, false, &c, now, "port ", " - error setting description: NotFound", "map object ")
}

/// Renames a floor map, stamped with the current time.
pub fn db_set_floormap_name(db: &mut FloorDb, floormap_uuid: &FlexUuid, name: &str) -> (r: Result<bool, DbError>)
    ensures
        exists|new_name: String, now: FlexTimestamp|
            now.valid() && new_name@ == name@ && floor_map_op(
                *old(db),
                *final(db),
                r,
                *floormap_uuid,
                false,
                FloorMapChange::Name { name: new_name },
                now,
                "port "@,
                " - error setting description: NotFound"@,
                "map object "@,
            ),
        old(db).wf() ==> final(db).wf(),
{
    let now = FlexTimestamp::now();
    db_set_floormap_name_at(db, floormap_uuid, name, now)
}


/// Where the files of a new version of a floor map go.
pub struct FloorMapFilePlan {
    /// The new version number.
    pub file_version: i32,
    /// `{plan path}/{floor map}-{version}.png`.
    pub dst_file_name: String,
    /// `{plan path}/{floor map}-{version}.png-thumb.png`.
    pub dst_thumb_file_name: String,
    /// The thumbnail beside the given file: `{file}-thumb.png`.
    pub src_thumb_file_name: String,
}

/// Whether the next version number of the floor map would not fit: the floor
/// map exists, is not locked, its floor plan exists and its version is the
/// largest `i32`.
pub open spec fn floor_map_version_at_limit(db: FloorDb, u: FlexUuid) -> bool {
    let i = key_pos(db.floor_maps@, u);
    i < db.floor_maps@.len() && !db.floor_maps@[i].Locked && key_pos(
        db.floor_plans@,
        db.floor_maps@[i].ParentFloorPlanUUID,
    ) < db.floor_plans@.len() && db.floor_maps@[i].FloorMapFileVersion == i32::MAX
}

/// What `db_plan_floormap_file` answers: `NotFound` where the floor map is
/// missing, `Other` where it is locked, `NotFound` where its floor plan is
/// missing, and otherwise the next version and the file names under the
/// floor plan's directory.
pub open spec fn floor_map_file_plan_spec(
    db: FloorDb,
    u: FlexUuid,
    floormap_filename: Seq<char>,
    r: Result<FloorMapFilePlan, DbError>,
) -> bool {
    let maps = db.floor_maps@;
    let i = key_pos(maps, u);
    if i >= maps.len() {
        error_is(r, DbErrorKind::NotFound, "floormap "@ + u.hyphenated() + " - error setting floormap: NotFound"@)
    } else if maps[i].Locked {
        error_is(r, DbErrorKind::Other, "map object "@ + u.hyphenated() + " - is locked"@)
    } else {
        let parent = maps[i].ParentFloorPlanUUID;
        let j = key_pos(db.floor_plans@, parent);
        if j >= db.floor_plans@.len() {
            error_is(
                r,
                DbErrorKind::NotFound,
                "floormap "@ + u.hyphenated() + " - error getting floorplan "@ + parent.hyphenated()
                    + ": NotFound"@,
            )
        } else {
            let v = maps[i].FloorMapFileVersion + 1;
            let base = db.floor_plans@[j].FloorPlanPath@ + "/"@ + u.hyphenated() + "-"@ + int_decimal(v);
            r matches Ok(plan) && plan.file_version == v && plan.dst_file_name@ == base + ".png"@
                && plan.dst_thumb_file_name@ == base + ".png-thumb.png"@ && plan.src_thumb_file_name@
                == floormap_filename + "-thumb.png"@
        }
    }
}

/// The error that setting a new image for a floor map meets before any file
/// is copied: `NotFound` where the floor map is missing, `Other` where it is
/// locked, `NotFound` where its floor plan is missing; `None` where there is
/// none (the same errors as `db_plan_floormap_file`).
pub open spec fn floor_map_file_error(db: FloorDb, u: FlexUuid) -> Option<(DbErrorKind, Seq<char>)> {
    let maps = db.floor_maps@;
    let i = key_pos(maps, u);
    if i >= maps.len() {
        Some((DbErrorKind::NotFound, "floormap "@ + u.hyphenated() + " - error setting floormap: NotFound"@))
    } else if maps[i].Locked {
        Some((DbErrorKind::Other, "map object "@ + u.hyphenated() + " - is locked"@))
    } else if key_pos(db.floor_plans@, maps[i].ParentFloorPlanUUID) >= db.floor_plans@.len() {
        Some(
            (
                DbErrorKind::NotFound,
                "floormap "@ + u.hyphenated() + " - error getting floorplan "@
                    + maps[i].ParentFloorPlanUUID.hyphenated() + ": NotFound"@,
            ),
        )
    } else {
        None
    }
}

/// The next version number of a floor map's image.
pub open spec fn floor_map_next_version(db: FloorDb, u: FlexUuid) -> int {
    db.floor_maps@[key_pos(db.floor_maps@, u)].FloorMapFileVersion + 1
}

/// Where the next version of a floor map's image goes:
/// `{plan path}/{floor map}-{version}.png`.
pub open spec fn floor_map_next_file(db: FloorDb, u: FlexUuid) -> Seq<char> {
    let fm = db.floor_maps@[key_pos(db.floor_maps@, u)];
    let j = key_pos(db.floor_plans@, fm.ParentFloorPlanUUID);
    db.floor_plans@[j].FloorPlanPath@ + "/"@ + u.hyphenated() + "-"@ + int_decimal(
        floor_map_next_version(db, u),
    ) + ".png"@
}

/// The first step of setting a new image for a floor map: checks the floor map
/// and its floor plan, and names the next version's files. The files are then
/// copied there, and `db_set_floormap_file` records the new version.
pub fn db_plan_floormap_file(db: &FloorDb, floormap_uuid: &FlexUuid, floormap_filename: &str) -> (r: Result<
    FloorMapFilePlan,
    DbError,
>)
    requires
        !floor_map_version_at_limit(*db, *floormap_uuid),
    ensures
        floor_map_file_plan_spec(*db, *floormap_uuid, floormap_filename@, r),
{
    proof {
        lemma_key_pos(db.floor_maps@, *floormap_uuid);
    }
    let i = match find_row(&db.floor_maps, floormap_uuid) {
        None => {
            return Err(
                DbError {
                    kind: DbErrorKind::NotFound,
                    message: uuid_message("floormap ", floormap_uuid, " - error setting floormap: NotFound"),
                },
            );
        },
        Some(i) => i,
    };
    let fm = &db.floor_maps[i];
    if fm.Locked {
        return Err(
            DbError {
                kind: DbErrorKind::Other,
                message: uuid_message("map object ", floormap_uuid, " - is locked"),
            },
        );
    }
    let parent = fm.ParentFloorPlanUUID;
    proof {
        lemma_key_pos(db.floor_plans@, parent);
    }
    let j = match find_row(&db.floor_plans, &parent) {
        None => {
            let mut m = uuid_message("floormap ", floormap_uuid, " - error getting floorplan ");
            let ps = parent.to_string();
            m.append(ps.as_str());
            m.append(": NotFound");
            return Err(DbError { kind: DbErrorKind::NotFound, message: m });
        },
        Some(j) => j,
    };
    let file_version = fm.FloorMapFileVersion + 1;
    let mut base = db.floor_plans[j].FloorPlanPath.clone();
    base.append("/");
    let us = floormap_uuid.to_string();
    base.append(us.as_str());
    base.append("-");
    let vs = decimal_string(file_version);
    base.append(vs.as_str());
    let dst_file_name = base.clone().concat(".png");
    let dst_thumb_file_name = base.concat(".png-thumb.png");
    let src_thumb_file_name = String::from_str(floormap_filename).concat("-thumb.png");
    Ok(FloorMapFilePlan { file_version, dst_file_name, dst_thumb_file_name, src_thumb_file_name })
}

/// Sets a new image for a floor map, at the time `now`. The checks of
/// `db_plan_floormap_file` come first: where one fails, its error is answered
/// and nothing changes. Otherwise `copies` is the outcome of copying the image
/// and its thumbnail to the planned files: where it is an error, that error is
/// answered and nothing changes; where the copies succeeded, the floor maps with
/// the identifier (deleted or not) get the new file and version.
pub fn db_set_floormap_file_at(
    db: &mut FloorDb,
    floormap_uuid: &FlexUuid,
    floormap_filename: &str,
    copies: Result<(), DbError>,
    now: FlexTimestamp,
) -> (r: Result<bool, DbError>)
    requires
        !floor_map_version_at_limit(*old(db), *floormap_uuid),
    ensures
        floor_map_file_error(*old(db), *floormap_uuid) matches Some(e) ==> error_is(r, e.0, e.1) && *final(db)
            == *old(db),
        floor_map_file_error(*old(db), *floormap_uuid) is None ==> match copies {
            Err(e) => r == Err::<bool, DbError>(e) && *final(db) == *old(db),
            Ok(_) => r == Ok::<bool, DbError>(true) && (exists|f: String|
                f@ == floor_map_next_file(*old(db), *floormap_uuid) && final(db).floor_maps@ == #[trigger] floor_maps_after(
                    old(db).floor_maps@,
                    *floormap_uuid,
                    false,
                    FloorMapChange::File {
                        file_name: f,
                        version: floor_map_next_version(*old(db), *floormap_uuid) as i32,
                    },
                    now,
                )) && final(db).floor_plans@ == old(db).floor_plans@ && final(db).map_objects@
                == old(db).map_objects@ && final(db).uploads@ == old(db).uploads@ && final(db).services@
                == old(db).services@,
        },
        old(db).wf() ==> final(db).wf(),
{
    let plan = match db_plan_floormap_file(db, floormap_uuid, floormap_filename) {
        Err(e) => return Err(e),
        Ok(plan) => plan,
    };
    match copies {
        Err(e) => Err(e),
        Ok(_) => {
            let ghost before = *db;
            let f = plan.dst_file_name.clone();
            proof {
                assert(f@ == floor_map_next_file(before, *floormap_uuid));
                assert(plan.file_version == floor_map_next_version(before, *floormap_uuid) as i32);
            }
            let c = FloorMapChange::File { file_name: f, version: plan.file_version };
            db.update_floor_maps(floormap_uuid, false, &c, now);
            proof {
                assert(db.floor_maps@ == floor_maps_after(before.floor_maps@, *floormap_uuid, false, c, now));
            }
            Ok(true)
        },
    }
}

/// Sets a new image for a floor map, stamped with the current time (see
/// `db_set_floormap_file_at`).
pub fn db_set_floormap_file(
    db: &mut FloorDb,
    floormap_uuid: &FlexUuid,
    floormap_filename: &str,
    copies: Result<(), DbError>,
) -> (r: Result<bool, DbError>)
    requires
        !floor_map_version_at_limit(*old(db), *floormap_uuid),
    ensures
        floor_map_file_error(*old(db), *floormap_uuid) matches Some(e) ==> error_is(r, e.0, e.1) && *final(db)
            == *old(db),
        floor_map_file_error(*old(db), *floormap_uuid) is None ==> match copies {
            Err(e) => r == Err::<bool, DbError>(e) && *final(db) == *old(db),
            Ok(_) => r == Ok::<bool, DbError>(true) && (exists|f: String, now: FlexTimestamp|
                now.valid() && f@ == floor_map_next_file(*old(db), *floormap_uuid) && final(db).floor_maps@
                    == #[trigger] floor_maps_after(
                    old(db).floor_maps@,
                    *floormap_uuid,
                    false,
                    FloorMapChange::File {
                        file_name: f,
                        version: floor_map_next_version(*old(db), *floormap_uuid) as i32,
                    },
                    now,
                )) && final(db).floor_plans@ == old(db).floor_plans@ && final(db).map_objects@
                == old(db).map_objects@ && final(db).uploads@ == old(db).uploads@ && final(db).services@
                == old(db).services@,
        },
        old(db).wf() ==> final(db).wf(),
{
    let now = FlexTimestamp::now();
    db_set_floormap_file_at(db, floormap_uuid, floormap_filename, copies, now)
}


/// The floor plan that `db_insert_new_floorplan` stores: the fresh row `fresh`
/// with the given name, description, path, parent and creation time.
pub open spec fn new_floor_plan_row(
    row: FloorPlan,
    fresh: FloorPlan,
    name: Seq<char>,
    description: Seq<char>,
    path: Seq<char>,
    parent: Option<FlexUuid>,
    created_at: FlexTimestamp,
) -> bool {
    &&& row == FloorPlan {
        Name: row.Name,
        Description: row.Description,
        FloorPlanPath: row.FloorPlanPath,
        ParentFloorPlanUUID: parent,
        CreatedAt: created_at,
        ..fresh
    }
    &&& row.Name@ == name
    &&& row.Description@ == description
    &&& row.FloorPlanPath@ == path
}

/// Inserts a floor plan built from the fresh row `fresh` (its identifier and
/// update time) with the given fields and creation time; answers its
/// identifier. Where the identifier is taken, nothing is inserted.
pub fn db_insert_new_floorplan_from(
    db: &mut FloorDb,
    fresh: FloorPlan,
    new_name: &str,
    new_description: &str,
    new_path: &str,
    new_parent: Option<&FlexUuid>,
    created_at: FlexTimestamp,
) -> (u: FlexUuid)
    ensures
        u == fresh.FloorPlanUUID,
        exists|row: FloorPlan|
            new_floor_plan_row(
                row,
                fresh,
                new_name@,
                new_description@,
                new_path@,
                match new_parent {
                    Some(p) => Some(*p),
                    None => None,
                },
                created_at,
            ) && final(db).floor_plans@ == insert_if_absent(old(db).floor_plans@, row),
        final(db).floor_maps@ == old(db).floor_maps@,
        final(db).map_objects@ == old(db).map_objects@,
        final(db).uploads@ == old(db).uploads@,
        final(db).services@ == old(db).services@,
        old(db).wf() ==> final(db).wf(),
{
    let mut row = fresh;
    row.Name = new_name.to_owned();
    row.Description = new_description.to_owned();
    row.FloorPlanPath = new_path.to_owned();
    row.ParentFloorPlanUUID = match new_parent {
        Some(p) => Some(*p),
        None => None,
    };
    row.CreatedAt = created_at;
    let u = row.FloorPlanUUID;
    proof {
        if db.wf() {
            lemma_insert_if_absent_unique(db.floor_plans@, row);
        }
    }
    insert_row(&mut db.floor_plans, row);
    u
}

/// Inserts a new floor plan with a fresh identifier, stamped with the current
/// time; answers its identifier.
pub fn db_insert_new_floorplan(
    db: &mut FloorDb,
    new_name: &str,
    new_description: &str,
    new_path: &str,
    new_parent: Option<&FlexUuid>,
) -> (u: FlexUuid)
    ensures
        random_v4_layout(u.bits),
        exists|row: FloorPlan|
            row.FloorPlanUUID == u && !row.Deleted && !row.Active && row.UpdatedAt.valid()
                && row.CreatedAt.valid() && row.Name@ == new_name@ && row.Description@
                == new_description@ && row.FloorPlanPath@ == new_path@ && row.ParentFloorPlanUUID
                == match new_parent {
                Some(p) => Some(*p),
                None => None,
            } && final(db).floor_plans@ == insert_if_absent(old(db).floor_plans@, row),
        final(db).floor_maps@ == old(db).floor_maps@,
        final(db).map_objects@ == old(db).map_objects@,
        final(db).uploads@ == old(db).uploads@,
        final(db).services@ == old(db).services@,
        old(db).wf() ==> final(db).wf(),
{
    let fresh = FloorPlan::default();
    let created_at = FlexTimestamp::now();
    db_insert_new_floorplan_from(db, fresh, new_name, new_description, new_path, new_parent, created_at)
}

/// The map object that `db_insert_new_mapobject` stores: the fresh row `fresh`
/// with the given name, description, position and floor map.
pub open spec fn new_map_object_row(
    row: MapObject,
    fresh: MapObject,
    parent: FlexUuid,
    name: Seq<char>,
    description: Seq<char>,
    x: i32,
    y: i32,
) -> bool {
    &&& row == MapObject {
        Name: row.Name,
        Description: row.Description,
        MapX: x,
        MapY: y,
        ParentMapUUID: parent,
        ..fresh
    }
    &&& row.Name@ == name
    &&& row.Description@ == description
}

/// Inserts a map object built from the fresh row `fresh` on the floor map
/// `mapfloor_uuid`; answers its identifier. Where the identifier is taken,
/// nothing is inserted.
pub fn db_insert_new_mapobject_from(
    db: &mut FloorDb,
    fresh: MapObject,
    mapfloor_uuid: &FlexUuid,
    new_name: &str,
    new_description: &str,
    new_x: i32,
    new_y: i32,
) -> (u: FlexUuid)
    ensures
        u == fresh.MapObjectUUID,
        exists|row: MapObject|
            new_map_object_row(row, fresh, *mapfloor_uuid, new_name@, new_description@, new_x, new_y)
                && final(db).map_objects@ == insert_if_absent(old(db).map_objects@, row),
        final(db).floor_plans@ == old(db).floor_plans@,
        final(db).floor_maps@ == old(db).floor_maps@,
        final(db).uploads@ == old(db).uploads@,
        final(db).services@ == old(db).services@,
        old(db).wf() ==> final(db).wf(),
{
    let mut row = fresh;
    row.Name = new_name.to_owned();
    row.Description = new_description.to_owned();
    row.MapX = new_x;
    row.MapY = new_y;
    row.ParentMapUUID = *mapfloor_uuid;
    let u = row.MapObjectUUID;
    proof {
        if db.wf() {
            lemma_insert_if_absent_unique(db.map_objects@, row);
        }
    }
    insert_row(&mut db.map_objects, row);
    u
}

/// Inserts a new map object with a fresh identifier on a floor map, stamped
/// with the current time; answers its identifier.
pub fn db_insert_new_mapobject(
    db: &mut FloorDb,
    mapfloor_uuid: &FlexUuid,
    new_name: &str,
    new_description: &str,
    new_x: i32,
    new_y: i32,
) -> (u: FlexUuid)
    ensures
        random_v4_layout(u.bits),
        exists|row: MapObject|
            row.MapObjectUUID == u && !row.Deleted && row.DeletedBy is None && row.DeletedAt is None
                && !row.Locked && row.LockedBy is None && row.LockedAt is None && row.Name@
                == new_name@ && row.LabelSize == 0 && row.Description@ == new_description@
                && row.Meta@ == Seq::<char>::empty() && row.ParentMapUUID == *mapfloor_uuid
                && row.TypeObjectUUID is None && row.MapX == new_x && row.MapY == new_y
                && row.ArrowX == 0 && row.ArrowY == 0 && row.UpdatedAt.valid()
                && final(db).map_objects@ == insert_if_absent(old(db).map_objects@, row),
        final(db).floor_plans@ == old(db).floor_plans@,
        final(db).floor_maps@ == old(db).floor_maps@,
        final(db).uploads@ == old(db).uploads@,
        final(db).services@ == old(db).services@,
        old(db).wf() ==> final(db).wf(),
{
    let fresh = MapObject::default();
    db_insert_new_mapobject_from(db, fresh, mapfloor_uuid, new_name, new_description, new_x, new_y)
}


/// The number of floor maps of the plan `parent` with a sort order below
/// `before` (deleted ones too).
pub open spec fn count_in_plan_before(rows: Seq<FloorMap>, parent: FlexUuid, before: i32) -> nat
    decreases rows.len(),
{
    if rows.len() == 0 {
        0
    } else {
        count_in_plan_before(rows.drop_last(), parent, before) + if rows.last().ParentFloorPlanUUID
            == parent && rows.last().SortOrder < before {
            1nat
        } else {
            0nat
        }
    }
}

/// Every floor map of the plan has a sort order below the largest `i32`, so
/// that each can move one place down.
pub open spec fn plan_sort_orders_fit(rows: Seq<FloorMap>, parent: FlexUuid) -> bool {
    forall|k: int|
        0 <= k < rows.len() && rows[k].ParentFloorPlanUUID == parent ==> rows[k].SortOrder < i32::MAX
}

/// The floor maps of the plan `parent` at sort order `from` or later moved one
/// place down, stamped with `now`.
pub open spec fn floor_maps_shifted(rows: Seq<FloorMap>, parent: FlexUuid, from: int, now: FlexTimestamp) -> Seq<
    FloorMap,
> {
    Seq::new(
        rows.len(),
        |k: int|
            if rows[k].ParentFloorPlanUUID == parent && rows[k].SortOrder >= from {
                FloorMap { SortOrder: (rows[k].SortOrder + 1) as i32, UpdatedAt: now, ..rows[k] }
            } else {
                rows[k]
            },
    )
}

/// The floor map that `db_insert_new_floormap` stores: the fresh row `fresh`
/// with the given texts, file, plan and sort order.
pub open spec fn new_floor_map_row(
    row: FloorMap,
    fresh: FloorMap,
    name: Seq<char>,
    description: Seq<char>,
    full_text: Seq<char>,
    filename: Seq<char>,
    parent: FlexUuid,
    sort_order: i32,
) -> bool {
    &&& row == FloorMap {
        Name: row.Name,
        Description: row.Description,
        FullText: row.FullText,
        FloorMapFileName: row.FloorMapFileName,
        ParentFloorPlanUUID: parent,
        SortOrder: sort_order,
        ..fresh
    }
    &&& row.Name@ == name
    &&& row.Description@ == description
    &&& row.FullText@ == full_text
    &&& row.FloorMapFileName@ == filename
}

/// The sort order a new floor map gets: one after the floor maps of its plan
/// that sort before `insert_before_order`.
pub open spec fn new_floor_map_sort_order(rows: Seq<FloorMap>, parent: FlexUuid, insert_before_order: i32) -> int {
    1 + count_in_plan_before(rows, parent, insert_before_order) as int
}

proof fn lemma_count_in_plan_before_bound(rows: Seq<FloorMap>, parent: FlexUuid, before: i32)
    ensures
        count_in_plan_before(rows, parent, before) <= rows.len(),
    decreases rows.len(),
{
    if rows.len() > 0 {
        lemma_count_in_plan_before_bound(rows.drop_last(), parent, before);
    }
}

/// Inserts a floor map built from the fresh row `fresh` into the plan
/// `new_parent` just before the floor maps whose sort order is
/// `insert_before_order` or more: the floor maps of the plan from the new sort
/// order on move one place down (stamped with `shift_now`), and the new one
/// takes the free place. Answers its identifier. Where the identifier is taken,
/// the others move all the same and nothing is inserted.
pub fn db_insert_new_floormap_from(
    db: &mut FloorDb,
    fresh: FloorMap,
    new_name: &str,
    new_description: &str,
    new_full_text: &str,
    new_filename: &str,
    new_parent: &FlexUuid,
    insert_before_order: i32,
    shift_now: FlexTimestamp,
) -> (u: FlexUuid)
    requires
        old(db).floor_maps@.len() < i32::MAX,
        plan_sort_orders_fit(old(db).floor_maps@, *new_parent),
    ensures
        u == fresh.FloorMapUUID,
        exists|row: FloorMap|
            new_floor_map_row(
                row,
                fresh,
                new_name@,
                new_description@,
                new_full_text@,
                new_filename@,
                *new_parent,
                new_floor_map_sort_order(old(db).floor_maps@, *new_parent, insert_before_order) as i32,
            ) && final(db).floor_maps@ == insert_if_absent(
                floor_maps_shifted(
                    old(db).floor_maps@,
                    *new_parent,
                    new_floor_map_sort_order(old(db).floor_maps@, *new_parent, insert_before_order),
                    shift_now,
                ),
                row,
            ),
        final(db).floor_plans@ == old(db).floor_plans@,
        final(db).map_objects@ == old(db).map_objects@,
        final(db).uploads@ == old(db).uploads@,
        final(db).services@ == old(db).services@,
        old(db).wf() ==> final(db).wf(),
{
    let ghost start = db.floor_maps@;
    let n = db.floor_maps.len();
    let mut count: usize = 0;
    let mut k: usize = 0;
    while k < n
        invariant
            n == db.floor_maps@.len(),
            start == db.floor_maps@,
            k <= n,
            count == count_in_plan_before(start.take(k as int), *new_parent, insert_before_order),
            count <= k,
        decreases n - k,
    {
        proof {
            assert(start.take(k + 1).drop_last() == start.take(k as int));
            assert(start.take(k + 1).last() == start[k as int]);
        }
        if db.floor_maps[k].ParentFloorPlanUUID == *new_parent && db.floor_maps[k].SortOrder
            < insert_before_order {
            count = count + 1;
        }
        k = k + 1;
    }
    proof {
        assert(start.take(n as int) == start);
    }
    let new_sort_order: i32 = 1 + count as i32;
    assert(new_sort_order as int == new_floor_map_sort_order(start, *new_parent, insert_before_order));
    let ghost target = floor_maps_shifted(start, *new_parent, new_sort_order as int, shift_now);
    let mut k: usize = 0;
    while k < n
        invariant
            n == start.len(),
            k <= n,
            db.floor_maps@.len() == n,
            forall|j: int| 0 <= j < k ==> db.floor_maps@[j] == target[j],
            forall|j: int| k <= j < n ==> db.floor_maps@[j] == start[j],
            plan_sort_orders_fit(start, *new_parent),
            db.floor_plans@ == old(db).floor_plans@,
            db.map_objects@ == old(db).map_objects@,
            db.uploads@ == old(db).uploads@,
            db.services@ == old(db).services@,
            start == old(db).floor_maps@,
            target == floor_maps_shifted(start, *new_parent, new_sort_order as int, shift_now),
        decreases n - k,
    {
        if db.floor_maps[k].ParentFloorPlanUUID == *new_parent && db.floor_maps[k].SortOrder
            >= new_sort_order {
            assert(db.floor_maps@[k as int] == start[k as int]);
            let mut r = db.floor_maps[k].clone();
            r.SortOrder = r.SortOrder + 1;
            r.UpdatedAt = shift_now;
            db.floor_maps.set(k, r);
        }
        k = k + 1;
    }
    proof {
        assert(db.floor_maps@ == target);
        if old(db).wf() {
            assert forall|a: int, b: int| 0 <= a < b < n implies db.floor_maps@[a].FloorMapUUID
                != db.floor_maps@[b].FloorMapUUID by {
                assert(start[a].FloorMapUUID != start[b].FloorMapUUID);
            }
        }
    }
    let mut row = fresh;
    row.Name = new_name.to_owned();
    row.Description = new_description.to_owned();
    row.FullText = new_full_text.to_owned();
    row.FloorMapFileName = new_filename.to_owned();
    row.ParentFloorPlanUUID = *new_parent;
    row.SortOrder = new_sort_order;
    let u = row.FloorMapUUID;
    proof {
        if old(db).wf() {
            lemma_insert_if_absent_unique(db.floor_maps@, row);
        }
    }
    insert_row(&mut db.floor_maps, row);
    u
}

/// Inserts a new floor map with a fresh identifier into a plan, just before the
/// floor maps whose sort order is `insert_before_order` or more; answers its
/// identifier.
pub fn db_insert_new_floormap(
    db: &mut FloorDb,
    new_name: &str,
    new_description: &str,
    new_full_text: &str,
    new_filename: &str,
    new_parent: &FlexUuid,
    insert_before_order: i32,
) -> (u: FlexUuid)
    requires
        old(db).floor_maps@.len() < i32::MAX,
        plan_sort_orders_fit(old(db).floor_maps@, *new_parent),
    ensures
        random_v4_layout(u.bits),
        exists|row: FloorMap, fresh: FloorMap, shift_now: FlexTimestamp|
            fresh.FloorMapUUID == u && !fresh.Deleted && fresh.FloorMapFileVersion == 0 && !fresh.Locked
                && fresh.LockedBy is None && fresh.LockedAt is None && fresh.ClipLeft == 0
                && fresh.ClipTop == 0 && fresh.ClipWidth == 0 && fresh.ClipHeight == 0
                && fresh.LegendTop == 0 && fresh.LegendLeft == 0 && fresh.LegendFontSize == 0
                && fresh.UpdatedAt.valid() && shift_now.valid() && new_floor_map_row(
                row,
                fresh,
                new_name@,
                new_description@,
                new_full_text@,
                new_filename@,
                *new_parent,
                new_floor_map_sort_order(old(db).floor_maps@, *new_parent, insert_before_order) as i32,
            ) && final(db).floor_maps@ == insert_if_absent(
                floor_maps_shifted(
                    old(db).floor_maps@,
                    *new_parent,
                    new_floor_map_sort_order(old(db).floor_maps@, *new_parent, insert_before_order),
                    shift_now,
                ),
                row,
            ),
        final(db).floor_plans@ == old(db).floor_plans@,
        final(db).map_objects@ == old(db).map_objects@,
        final(db).uploads@ == old(db).uploads@,
        final(db).services@ == old(db).services@,
        old(db).wf() ==> final(db).wf(),
{
    let shift_now = FlexTimestamp::now();
    let fresh = FloorMap::default();
    db_insert_new_floormap_from(
        db,
        fresh,
        new_name,
        new_description,
        new_full_text,
        new_filename,
        new_parent,
        insert_before_order,
        shift_now,
    )
}


/// No two floor maps of the plan share a sort order.
pub open spec fn plan_sort_orders_distinct(rows: Seq<FloorMap>, parent: FlexUuid) -> bool {
    forall|a: int, b: int|
        0 <= a < b < rows.len() && rows[a].ParentFloorPlanUUID == parent && rows[b].ParentFloorPlanUUID
            == parent ==> rows[a].SortOrder != rows[b].SortOrder
}

/// Inserting a floor map into a plan keeps the order of the plan's pages: the
/// floor maps already there keep their relative order, and where no two of
/// them shared a sort order, no two share one afterwards (the new one
/// included).
pub proof fn lemma_insert_floormap_keeps_plan_order(
    rows: Seq<FloorMap>,
    parent: FlexUuid,
    insert_before_order: i32,
    now: FlexTimestamp,
    row: FloorMap,
)
    requires
        rows.len() < i32::MAX,
        plan_sort_orders_fit(rows, parent),
        row.ParentFloorPlanUUID == parent,
        row.SortOrder == new_floor_map_sort_order(rows, parent, insert_before_order) as i32,
    ensures
        forall|a: int, b: int|
            0 <= a < rows.len() && 0 <= b < rows.len() && rows[a].ParentFloorPlanUUID == parent
                && rows[b].ParentFloorPlanUUID == parent && rows[a].SortOrder < rows[b].SortOrder
                ==> #[trigger] floor_maps_shifted(rows, parent, new_floor_map_sort_order(rows, parent, insert_before_order), now)[a].SortOrder
                < #[trigger] floor_maps_shifted(rows, parent, new_floor_map_sort_order(rows, parent, insert_before_order), now)[b].SortOrder,
        plan_sort_orders_distinct(rows, parent) ==> plan_sort_orders_distinct(
            insert_if_absent(
                floor_maps_shifted(rows, parent, new_floor_map_sort_order(rows, parent, insert_before_order), now),
                row,
            ),
            parent,
        ),
{
    lemma_count_in_plan_before_bound(rows, parent, insert_before_order);
    let s = new_floor_map_sort_order(rows, parent, insert_before_order);
    let t = floor_maps_shifted(rows, parent, s, now);
    assert(row.SortOrder == s);
    if plan_sort_orders_distinct(rows, parent) {
        let r = insert_if_absent(t, row);
        assert forall|a: int, b: int|
            0 <= a < b < r.len() && r[a].ParentFloorPlanUUID == parent && r[b].ParentFloorPlanUUID
                == parent implies r[a].SortOrder != r[b].SortOrder by {
            if b < rows.len() {
                assert(r[a] == t[a] && r[b] == t[b]);
            } else {
                assert(r[a] == t[a]);
                assert(r[b] == row);
            }
        }
    }
}


/// The sort orders of the plan's floor maps are exactly `1..=n`, each once.
pub open spec fn plan_orders_exactly(rows: Seq<FloorMap>, parent: FlexUuid, n: int) -> bool {
    &&& plan_sort_orders_distinct(rows, parent)
    &&& forall|k: int|
        0 <= k < rows.len() && (#[trigger] rows[k]).ParentFloorPlanUUID == parent ==> 1 <= rows[k].SortOrder
            <= n
    &&& forall|o: int| 1 <= o <= n ==> #[trigger] plan_has_order(rows, parent, o)
}

/// Some floor map of the plan has sort order `o`.
pub open spec fn plan_has_order(rows: Seq<FloorMap>, parent: FlexUuid, o: int) -> bool {
    exists|k: int|
        0 <= k < rows.len() && (#[trigger] rows[k]).ParentFloorPlanUUID == parent && rows[k].SortOrder == o
}

/// The positions of the floor maps of the plan whose sort order is below `b`.
spec fn plan_rows_below(rows: Seq<FloorMap>, parent: FlexUuid, b: int) -> Set<int> {
    Set::new(|k: int| 0 <= k < rows.len() && rows[k].ParentFloorPlanUUID == parent && rows[k].SortOrder < b)
}

/// The positions of the floor maps of the plan.
pub open spec fn plan_rows(rows: Seq<FloorMap>, parent: FlexUuid) -> Set<int> {
    Set::new(|k: int| 0 <= k < rows.len() && rows[k].ParentFloorPlanUUID == parent)
}

proof fn lemma_count_in_plan_before_is_size(rows: Seq<FloorMap>, parent: FlexUuid, b: i32)
    ensures
        plan_rows_below(rows, parent, b as int).finite(),
        count_in_plan_before(rows, parent, b) == plan_rows_below(rows, parent, b as int).len(),
    decreases rows.len(),
{
    let x = plan_rows_below(rows, parent, b as int);
    if rows.len() == 0 {
        assert(x =~= Set::empty());
    } else {
        let r = rows.drop_last();
        let y = plan_rows_below(r, parent, b as int);
        lemma_count_in_plan_before_is_size(r, parent, b);
        let last = rows.len() - 1;
        if rows.last().ParentFloorPlanUUID == parent && rows.last().SortOrder < b {
            assert(x =~= y.insert(last));
            assert(!y.contains(last));
        } else {
            assert(x =~= y);
        }
    }
}

proof fn lemma_plan_order_counts(rows: Seq<FloorMap>, parent: FlexUuid, n: int, b: i32)
    requires
        n >= 0,
        plan_orders_exactly(rows, parent, n),
    ensures
        n <= rows.len(),
        plan_rows(rows, parent).len() == n,
        count_in_plan_before(rows, parent, b) == if b < 1 {
            0
        } else if b > n + 1 {
            n
        } else {
            b - 1
        },
{
    let f = |k: int| rows[k].SortOrder as int;
    let all = plan_rows(rows, parent);
    assert(all.subset_of(set_int_range(0, rows.len() as int)));
    lemma_int_range(0, rows.len() as int);
    lemma_len_subset(all, set_int_range(0, rows.len() as int));
    assert(all.map(f) =~= set_int_range(1, n + 1)) by {
        assert forall|o: int| set_int_range(1, n + 1).contains(o) implies all.map(f).contains(o) by {
            assert(plan_has_order(rows, parent, o));
            let k = choose|k: int|
                0 <= k < rows.len() && (#[trigger] rows[k]).ParentFloorPlanUUID == parent && rows[k].SortOrder
                    == o;
            assert(all.contains(k) && f(k) == o);
        }
        assert forall|o: int| all.map(f).contains(o) implies set_int_range(1, n + 1).contains(o) by {
            let k = choose|k: int| all.contains(k) && o == f(k);
            assert(rows[k].ParentFloorPlanUUID == parent);
        }
    }
    assert(injective_on(f, all)) by {
        assert forall|k1: int, k2: int| all.contains(k1) && all.contains(k2) && #[trigger] f(k1) == #[trigger] f(k2)
            implies k1 == k2 by {
            if k1 < k2 {
                assert(rows[k1].SortOrder != rows[k2].SortOrder);
            } else if k2 < k1 {
                assert(rows[k2].SortOrder != rows[k1].SortOrder);
            }
        }
    }
    lemma_map_size(all, set_int_range(1, n + 1), f);
    lemma_int_range(1, n + 1);
    let hi: int = if b < 1 {
        1
    } else if b > n + 1 {
        n + 1
    } else {
        b as int
    };
    let x = plan_rows_below(rows, parent, b as int);
    lemma_count_in_plan_before_is_size(rows, parent, b);
    assert(x.map(f) =~= set_int_range(1, hi)) by {
        assert forall|o: int| set_int_range(1, hi).contains(o) implies x.map(f).contains(o) by {
            assert(plan_has_order(rows, parent, o));
            let k = choose|k: int|
                0 <= k < rows.len() && (#[trigger] rows[k]).ParentFloorPlanUUID == parent && rows[k].SortOrder
                    == o;
            assert(x.contains(k) && f(k) == o);
        }
        assert forall|o: int| x.map(f).contains(o) implies set_int_range(1, hi).contains(o) by {
            let k = choose|k: int| x.contains(k) && o == f(k);
            assert(rows[k].ParentFloorPlanUUID == parent);
        }
    }
    assert(injective_on(f, x)) by {
        assert forall|k1: int, k2: int| x.contains(k1) && x.contains(k2) && #[trigger] f(k1) == #[trigger] f(k2)
            implies k1 == k2 by {
            if k1 < k2 {
                assert(rows[k1].SortOrder != rows[k2].SortOrder);
            } else if k2 < k1 {
                assert(rows[k2].SortOrder != rows[k1].SortOrder);
            }
        }
    }
    lemma_map_size(x, set_int_range(1, hi), f);
    lemma_int_range(1, hi);
}

/// Inserting a floor map into a plan whose pages are numbered `1..=n` keeps
/// them numbered without gaps: where the new floor map is inserted (its
/// identifier is new), the plan's sort orders are exactly `1..=n+1`
/// afterwards, and the new one's is `insert_before_order` clamped to `1..=n+1`.
pub proof fn lemma_insert_floormap_renumbers_plan(
    rows: Seq<FloorMap>,
    parent: FlexUuid,
    n: nat,
    insert_before_order: i32,
    now: FlexTimestamp,
    row: FloorMap,
)
    requires
        rows.len() < i32::MAX,
        plan_orders_exactly(rows, parent, n as int),
        row.ParentFloorPlanUUID == parent,
        row.SortOrder == new_floor_map_sort_order(rows, parent, insert_before_order) as i32,
        !has_key(rows, row.FloorMapUUID),
    ensures
        new_floor_map_sort_order(rows, parent, insert_before_order) == if insert_before_order < 1 {
            1
        } else if insert_before_order > n + 1 {
            n + 1 as int
        } else {
            insert_before_order as int
        },
        row.SortOrder == new_floor_map_sort_order(rows, parent, insert_before_order),
        plan_orders_exactly(
            insert_if_absent(
                floor_maps_shifted(rows, parent, new_floor_map_sort_order(rows, parent, insert_before_order), now),
                row,
            ),
            parent,
            n + 1 as int,
        ),
{
    lemma_plan_order_counts(rows, parent, n as int, insert_before_order);
    let s = new_floor_map_sort_order(rows, parent, insert_before_order);
    let t = floor_maps_shifted(rows, parent, s, now);
    assert(plan_sort_orders_fit(rows, parent));
    lemma_insert_floormap_keeps_plan_order(rows, parent, insert_before_order, now, row);
    assert(!has_key(t, row.spec_key())) by {
        if has_key(t, row.spec_key()) {
            let k = choose|k: int| 0 <= k < t.len() && t[k].spec_key() == row.spec_key();
            assert(rows[k].spec_key() == row.spec_key());
        }
    }
    let r = insert_if_absent(t, row);
    assert(r == t.push(row));
    assert forall|k: int|
        0 <= k < r.len() && (#[trigger] r[k]).ParentFloorPlanUUID == parent implies 1 <= r[k].SortOrder <= n + 1 by {
        if k < rows.len() {
            assert(r[k] == t[k]);
        }
    }
    assert forall|o: int| 1 <= o <= n + 1 implies #[trigger] plan_has_order(r, parent, o) by {
        if o == s {
            assert(r[rows.len() as int] == row);
            assert(plan_has_order(r, parent, o));
        } else if o < s {
            assert(plan_has_order(rows, parent, o));
            let k = choose|k: int|
                0 <= k < rows.len() && (#[trigger] rows[k]).ParentFloorPlanUUID == parent && rows[k].SortOrder
                    == o;
            assert(r[k] == t[k]);
        } else {
            assert(plan_has_order(rows, parent, o - 1));
            let k = choose|k: int|
                0 <= k < rows.len() && (#[trigger] rows[k]).ParentFloorPlanUUID == parent && rows[k].SortOrder
                    == o - 1;
            assert(r[k] == t[k]);
        }
    }
}

/// Where an uploaded file goes.
pub struct UploadPaths {
    /// `{related record}/{upload}`, under the upload directory.
    pub dir_name: String,
    /// `/var/a3s/http/uploads/{related record}/{upload}`.
    pub full_dir_name: String,
    /// `{related record}/{upload}/{original file name}`, as recorded.
    pub dest_name: String,
    /// `/var/a3s/http/uploads/{related record}/{upload}/{original file name}`.
    pub full_dest_name: String,
}

/// The directory and file names for an upload.
pub fn upload_paths(upload_for_uuid: &FlexUuid, upload_uuid: &FlexUuid, original_filename: &str) -> (p:
    UploadPaths)
    ensures
        p.dir_name@ == upload_for_uuid.hyphenated() + "/"@ + upload_uuid.hyphenated(),
        p.full_dir_name@ == "/var/a3s/http/uploads/"@ + upload_for_uuid.hyphenated() + "/"@
            + upload_uuid.hyphenated(),
        p.dest_name@ == p.dir_name@ + "/"@ + original_filename@,
        p.full_dest_name@ == p.full_dir_name@ + "/"@ + original_filename@,
{
    let dir_name = uuid_message("", upload_for_uuid, "/").concat(upload_uuid.to_string().as_str());
    let full_dir_name = uuid_message("/var/a3s/http/uploads/", upload_for_uuid, "/").concat(
        upload_uuid.to_string().as_str(),
    );
    let dest_name = dir_name.clone().concat("/").concat(original_filename);
    let full_dest_name = full_dir_name.clone().concat("/").concat(original_filename);
    proof {
        reveal_strlit("");
        assert(""@ + upload_for_uuid.hyphenated() =~= upload_for_uuid.hyphenated());
    }
    UploadPaths { dir_name, full_dir_name, dest_name, full_dest_name }
}

/// The upload row that `db_insert_new_upload` stores: the fresh row `fresh`
/// with its identifier, the related record, the uploader, the file names and
/// the comments.
pub open spec fn new_upload_row(
    row: Upload,
    fresh: Upload,
    upload_for: FlexUuid,
    username: Seq<char>,
    original_filename: Seq<char>,
    server_file_name: Seq<char>,
    comments: Seq<char>,
) -> bool {
    &&& row == Upload {
        RelatedToUUID: upload_for,
        CreatedBy: row.CreatedBy,
        OriginalFileName: row.OriginalFileName,
        ServerFileName: row.ServerFileName,
        Message: row.Message,
        ..fresh
    }
    &&& row.CreatedBy@ == username
    &&& row.OriginalFileName@ == original_filename
    &&& row.ServerFileName@ == server_file_name
    &&& row.Message@ == comments
}

/// Records an upload once its file has been put in place: where the directory
/// was made and the file copied, the row built from `fresh` (whose identifier
/// names the upload) is inserted and its identifier answered; otherwise nothing
/// changes and the answer is `None`.
pub fn db_insert_new_upload(
    db: &mut FloorDb,
    fresh: Upload,
    username: &str,
    upload_for_uuid: &FlexUuid,
    paths: &UploadPaths,
    original_filename: &str,
    upload_comments: &str,
    file_in_place: bool,
) -> (r: Option<FlexUuid>)
    ensures
        file_in_place ==> r == Some(fresh.UploadUUID) && exists|row: Upload|
            new_upload_row(
                row,
                fresh,
                *upload_for_uuid,
                username@,
                original_filename@,
                paths.dest_name@,
                upload_comments@,
            ) && final(db).uploads@ == insert_if_absent(old(db).uploads@, row),
        !file_in_place ==> r is None && final(db).uploads@ == old(db).uploads@,
        final(db).floor_plans@ == old(db).floor_plans@,
        final(db).floor_maps@ == old(db).floor_maps@,
        final(db).map_objects@ == old(db).map_objects@,
        final(db).services@ == old(db).services@,
        old(db).wf() ==> final(db).wf(),
{
    if !file_in_place {
        return None;
    }
    let mut row = fresh;
    row.RelatedToUUID = *upload_for_uuid;
    row.CreatedBy = username.to_owned();
    row.OriginalFileName = original_filename.to_owned();
    row.ServerFileName = paths.dest_name.clone();
    row.Message = upload_comments.to_owned();
    let u = row.UploadUUID;
    proof {
        if old(db).wf() {
            lemma_insert_if_absent_unique(db.uploads@, row);
        }
    }
    insert_row(&mut db.uploads, row);
    Some(u)
}


/// The tables as written to or read from an export file.
#[derive(Debug)]
pub struct DbExport {
    pub FloorPlans: Vec<FloorPlan>,
    pub FloorMaps: Vec<FloorMap>,
    pub MapObjects: Vec<MapObject>,
    pub Uploads: Vec<Upload>,
}

/// The most rows of a table that an export holds.
pub const EXPORT_LIMIT: usize = 20000;

/// The export of a store: of each table, the first 20000 rows not marked
/// deleted, in table order.
pub fn db_get_export(db: &FloorDb) -> (e: DbExport)
    ensures
        e.FloorPlans@ == take_at_most(live_rows(db.floor_plans@), 20000),
        e.FloorMaps@ == take_at_most(live_rows(db.floor_maps@), 20000),
        e.MapObjects@ == take_at_most(live_rows(db.map_objects@), 20000),
        e.Uploads@ == take_at_most(live_rows(db.uploads@), 20000),
{
    DbExport {
        FloorPlans: live_rows_limited(&db.floor_plans, EXPORT_LIMIT),
        FloorMaps: live_rows_limited(&db.floor_maps, EXPORT_LIMIT),
        MapObjects: live_rows_limited(&db.map_objects, EXPORT_LIMIT),
        Uploads: live_rows_limited(&db.uploads, EXPORT_LIMIT),
    }
}

/// An export holds, of each table, exactly the rows whose `Deleted` flag is
/// false, in table order, up to 20000 (see `db_get_export`).
pub proof fn lemma_export_is_undeleted_rows(db: FloorDb, e: DbExport)
    requires
        e.FloorPlans@ == take_at_most(live_rows(db.floor_plans@), 20000),
        e.FloorMaps@ == take_at_most(live_rows(db.floor_maps@), 20000),
        e.MapObjects@ == take_at_most(live_rows(db.map_objects@), 20000),
        e.Uploads@ == take_at_most(live_rows(db.uploads@), 20000),
    ensures
        e.FloorPlans@ == take_at_most(db.floor_plans@.filter(|p: FloorPlan| !p.Deleted), 20000),
        e.FloorMaps@ == take_at_most(db.floor_maps@.filter(|m: FloorMap| !m.Deleted), 20000),
        e.MapObjects@ == take_at_most(db.map_objects@.filter(|o: MapObject| !o.Deleted), 20000),
        e.Uploads@ == take_at_most(db.uploads@.filter(|u: Upload| !u.Deleted), 20000),
{
    lemma_live_rows_filter(db.floor_plans@, |p: FloorPlan| !p.Deleted);
    lemma_live_rows_filter(db.floor_maps@, |m: FloorMap| !m.Deleted);
    lemma_live_rows_filter(db.map_objects@, |o: MapObject| !o.Deleted);
    lemma_live_rows_filter(db.uploads@, |u: Upload| !u.Deleted);
}

/// The number of floor maps of the plan `parent` (deleted ones too).
pub open spec fn count_in_plan(rows: Seq<FloorMap>, parent: FlexUuid) -> nat
    decreases rows.len(),
{
    if rows.len() == 0 {
        0
    } else {
        count_in_plan(rows.drop_last(), parent) + if rows.last().ParentFloorPlanUUID == parent {
            1nat
        } else {
            0nat
        }
    }
}

proof fn lemma_count_in_plan_bound(rows: Seq<FloorMap>, parent: FlexUuid)
    ensures
        count_in_plan(rows, parent) <= rows.len(),
    decreases rows.len(),
{
    if rows.len() > 0 {
        lemma_count_in_plan_bound(rows.drop_last(), parent);
    }
}

/// An imported floor map without a sort order (zero) goes after the floor maps
/// of its plan that the table holds at that moment.
pub open spec fn imported_floor_map(rows: Seq<FloorMap>, d: FloorMap) -> FloorMap {
    if d.SortOrder == 0 {
        FloorMap { SortOrder: (1 + count_in_plan(rows, d.ParentFloorPlanUUID)) as i32, ..d }
    } else {
        d
    }
}

/// The floor-map table after importing `incoming` in turn: each is given a sort
/// order where it has none, and inserted unless its identifier is taken.
pub open spec fn import_floor_maps(rows: Seq<FloorMap>, incoming: Seq<FloorMap>) -> Seq<FloorMap>
    decreases incoming.len(),
{
    if incoming.len() == 0 {
        rows
    } else {
        let r = import_floor_maps(rows, incoming.drop_last());
        insert_if_absent(r, imported_floor_map(r, incoming.last()))
    }
}

proof fn lemma_import_floor_maps_len(rows: Seq<FloorMap>, incoming: Seq<FloorMap>)
    ensures
        import_floor_maps(rows, incoming).len() <= rows.len() + incoming.len(),
        keys_unique(rows) ==> keys_unique(import_floor_maps(rows, incoming)),
    decreases incoming.len(),
{
    if incoming.len() > 0 {
        lemma_import_floor_maps_len(rows, incoming.drop_last());
        let r = import_floor_maps(rows, incoming.drop_last());
        if keys_unique(r) {
            lemma_insert_if_absent_unique(r, imported_floor_map(r, incoming.last()));
        }
    }
}

proof fn lemma_count_in_plan_is_size(rows: Seq<FloorMap>, parent: FlexUuid)
    ensures
        plan_rows(rows, parent).finite(),
        count_in_plan(rows, parent) == plan_rows(rows, parent).len(),
    decreases rows.len(),
{
    let x = plan_rows(rows, parent);
    if rows.len() == 0 {
        assert(x =~= Set::empty());
    } else {
        let r = rows.drop_last();
        let y = plan_rows(r, parent);
        lemma_count_in_plan_is_size(r, parent);
        let last = rows.len() - 1;
        if rows.last().ParentFloorPlanUUID == parent {
            assert(x =~= y.insert(last));
            assert(!y.contains(last));
        } else {
            assert(x =~= y);
        }
    }
}

/// Importing a floor map without a sort order (zero) whose identifier is new
/// appends it with the sort order after the floor maps of its plan: one more
/// than the number of floor maps of that plan already in the table, deleted
/// ones included. Where the plan's pages are numbered exactly `1..=n`, it
/// gets `n + 1`.
pub proof fn lemma_import_floor_map_goes_last(rows: Seq<FloorMap>, d: FloorMap, n: nat)
    requires
        d.SortOrder == 0,
        !has_key(rows, d.FloorMapUUID),
    ensures
        import_floor_maps(rows, seq![d]) == rows.push(
            FloorMap { SortOrder: (1 + plan_rows(rows, d.ParentFloorPlanUUID).len()) as i32, ..d },
        ),
        plan_orders_exactly(rows, d.ParentFloorPlanUUID, n as int) ==> import_floor_maps(rows, seq![d])
            == rows.push(FloorMap { SortOrder: (n + 1) as i32, ..d }),
{
    let one = seq![d];
    assert(one.drop_last() =~= Seq::<FloorMap>::empty());
    assert(one.last() == d);
    assert(import_floor_maps(rows, one.drop_last()) == rows);
    lemma_count_in_plan_is_size(rows, d.ParentFloorPlanUUID);
    assert(imported_floor_map(rows, d).spec_key() == d.FloorMapUUID);
    if plan_orders_exactly(rows, d.ParentFloorPlanUUID, n as int) {
        lemma_plan_order_counts(rows, d.ParentFloorPlanUUID, n as int, 0);
    }
}

/// An imported map object without meta text takes its meta text out of its
/// description (see `split_meta_from_str`); others are stored as they come.
pub open spec fn imported_map_object(stored: MapObject, incoming: MapObject) -> bool {
    if incoming.Meta@.len() == 0 {
        &&& stored == MapObject { Meta: stored.Meta, Description: stored.Description, ..incoming }
        &&& stored.Meta@ == split_meta_spec(incoming.Description@).0
        &&& stored.Description@ == split_meta_spec(incoming.Description@).1
    } else {
        stored == incoming
    }
}

/// An imported map object keeps every field as it comes, except that one
/// without meta text takes the first `~...~` section of its description as its
/// meta text, and keeps the description without its sections.
pub proof fn lemma_imported_map_object_fields(stored: MapObject, incoming: MapObject)
    requires
        imported_map_object(stored, incoming),
    ensures
        stored.MapObjectUUID == incoming.MapObjectUUID,
        stored.Deleted == incoming.Deleted,
        stored.Name == incoming.Name,
        stored.ParentMapUUID == incoming.ParentMapUUID,
        stored.MapX == incoming.MapX && stored.MapY == incoming.MapY,
        stored.ArrowX == incoming.ArrowX && stored.ArrowY == incoming.ArrowY,
        stored.UpdatedAt == incoming.UpdatedAt,
        incoming.Meta@.len() > 0 ==> stored == incoming,
        incoming.Meta@.len() == 0 ==> stored.Meta@ == split_meta_spec(incoming.Description@).0
            && stored.Description@ == split_meta_spec(incoming.Description@).1,
{
}

/// Imports an export into the store: each row is inserted unless its
/// identifier is taken; a floor map with no sort order (zero) goes after the
/// floor maps of its plan; a map object with no meta text takes it out of its
/// description. The services are not part of an export.
pub fn db_put_export(db: &mut FloorDb, bk: &DbExport)
    requires
        old(db).floor_maps@.len() + bk.FloorMaps@.len() < i32::MAX,
    ensures
        final(db).floor_plans@ == insert_all_if_absent(old(db).floor_plans@, bk.FloorPlans@),
        final(db).floor_maps@ == import_floor_maps(old(db).floor_maps@, bk.FloorMaps@),
        exists|prepared: Seq<MapObject>|
            prepared.len() == bk.MapObjects@.len() && (forall|k: int|
                0 <= k < prepared.len() ==> imported_map_object(
                    #[trigger] prepared[k],
                    bk.MapObjects@[k],
                )) && final(db).map_objects@ == insert_all_if_absent(old(db).map_objects@, prepared),
        final(db).uploads@ == insert_all_if_absent(old(db).uploads@, bk.Uploads@),
        final(db).services@ == old(db).services@,
        old(db).wf() ==> final(db).wf(),
{
    proof {
        if old(db).wf() {
            lemma_insert_all_unique(db.floor_plans@, bk.FloorPlans@);
            lemma_insert_all_unique(db.uploads@, bk.Uploads@);
        }
    }
    insert_rows(&mut db.floor_plans, &bk.FloorPlans);
    let ghost maps0 = db.floor_maps@;
    let mut k: usize = 0;
    while k < bk.FloorMaps.len()
        invariant
            k <= bk.FloorMaps@.len(),
            maps0.len() + bk.FloorMaps@.len() < i32::MAX,
            db.floor_maps@ == import_floor_maps(maps0, bk.FloorMaps@.take(k as int)),
            db.floor_plans@ == insert_all_if_absent(old(db).floor_plans@, bk.FloorPlans@),
            db.map_objects@ == old(db).map_objects@,
            db.uploads@ == old(db).uploads@,
            db.services@ == old(db).services@,
            maps0 == old(db).floor_maps@,
        decreases bk.FloorMaps@.len() - k,
    {
        proof {
            assert(bk.FloorMaps@.take(k + 1).drop_last() == bk.FloorMaps@.take(k as int));
            assert(bk.FloorMaps@.take(k + 1).last() == bk.FloorMaps@[k as int]);
            lemma_import_floor_maps_len(maps0, bk.FloorMaps@.take(k as int));
        }
        let mut d = bk.FloorMaps[k].clone();
        if d.SortOrder == 0 {
            let ghost rows = db.floor_maps@;
            let mut count: usize = 0;
            let mut j: usize = 0;
            while j < db.floor_maps.len()
                invariant
                    rows == db.floor_maps@,
                    j <= rows.len(),
                    count == count_in_plan(rows.take(j as int), d.ParentFloorPlanUUID),
                    count <= j,
                decreases rows.len() - j,
            {
                proof {
                    assert(rows.take(j + 1).drop_last() == rows.take(j as int));
                    assert(rows.take(j + 1).last() == rows[j as int]);
                }
                if db.floor_maps[j].ParentFloorPlanUUID == d.ParentFloorPlanUUID {
                    count = count + 1;
                }
                j = j + 1;
            }
            proof {
                assert(rows.take(rows.len() as int) == rows);
            }
            d.SortOrder = 1 + count as i32;
        }
        insert_row(&mut db.floor_maps, d);
        k = k + 1;
    }
    proof {
        assert(bk.FloorMaps@.take(bk.FloorMaps@.len() as int) == bk.FloorMaps@);
        lemma_import_floor_maps_len(maps0, bk.FloorMaps@);
    }
    let mut prepared: Vec<MapObject> = Vec::new();
    let mut k: usize = 0;
    while k < bk.MapObjects.len()
        invariant
            k <= bk.MapObjects@.len(),
            prepared@.len() == k,
            forall|i: int| 0 <= i < k ==> imported_map_object(#[trigger] prepared@[i], bk.MapObjects@[i]),
        decreases bk.MapObjects@.len() - k,
    {
        let mut d = bk.MapObjects[k].clone();
        if d.Meta.as_str().is_empty() {
            let (m, desc) = split_meta_from_str(d.Description.as_str());
            d.Meta = m;
            d.Description = desc;
        }
        prepared.push(d);
        k = k + 1;
    }
    proof {
        if old(db).wf() {
            lemma_insert_all_unique(db.map_objects@, prepared@);
        }
    }
    insert_rows(&mut db.map_objects, &prepared);
    insert_rows(&mut db.uploads, &bk.Uploads);
}


proof fn lemma_import_floor_maps_keeps_keys(rows: Seq<FloorMap>, incoming: Seq<FloorMap>)
    ensures
        forall|k: int|
            0 <= k < incoming.len() ==> has_key(import_floor_maps(rows, incoming), #[trigger] incoming[k].spec_key()),
    decreases incoming.len(),
{
    if incoming.len() > 0 {
        let d = incoming.drop_last();
        lemma_import_floor_maps_keeps_keys(rows, d);
        let prev = import_floor_maps(rows, d);
        let x = imported_floor_map(prev, incoming.last());
        let cur = import_floor_maps(rows, incoming);
        assert(x.spec_key() == incoming.last().spec_key());
        assert forall|k: int| 0 <= k < incoming.len() implies has_key(cur, #[trigger] incoming[k].spec_key()) by {
            if k < d.len() {
                assert(d[k] == incoming[k]);
                let w = choose|w: int| 0 <= w < prev.len() && prev[w].spec_key() == d[k].spec_key();
                assert(cur[w] == prev[w]);
            } else if has_key(prev, x.spec_key()) {
                let w = choose|w: int| 0 <= w < prev.len() && prev[w].spec_key() == x.spec_key();
                assert(cur[w] == prev[w]);
            } else {
                assert(cur[prev.len() as int] == x);
            }
        }
    }
}

proof fn lemma_import_floor_maps_present(rows: Seq<FloorMap>, incoming: Seq<FloorMap>)
    requires
        forall|k: int| 0 <= k < incoming.len() ==> has_key(rows, #[trigger] incoming[k].spec_key()),
    ensures
        import_floor_maps(rows, incoming) == rows,
    decreases incoming.len(),
{
    if incoming.len() > 0 {
        let d = incoming.drop_last();
        assert forall|k: int| 0 <= k < d.len() implies has_key(rows, #[trigger] d[k].spec_key()) by {
            assert(d[k] == incoming[k]);
        }
        lemma_import_floor_maps_present(rows, d);
        assert(has_key(rows, incoming[incoming.len() - 1].spec_key()));
    }
}

/// Importing an export a second time adds nothing: the floor plans, floor
/// maps and uploads are as after the first import, and map objects prepared
/// from the same export find their identifiers taken.
pub proof fn lemma_import_twice_adds_nothing(
    db: FloorDb,
    bk: DbExport,
    prepared: Seq<MapObject>,
    prepared_again: Seq<MapObject>,
)
    requires
        prepared.len() == bk.MapObjects@.len(),
        prepared_again.len() == bk.MapObjects@.len(),
        forall|k: int| 0 <= k < prepared.len() ==> imported_map_object(#[trigger] prepared[k], bk.MapObjects@[k]),
        forall|k: int|
            0 <= k < prepared_again.len() ==> imported_map_object(#[trigger] prepared_again[k], bk.MapObjects@[k]),
    ensures
        insert_all_if_absent(insert_all_if_absent(db.floor_plans@, bk.FloorPlans@), bk.FloorPlans@)
            == insert_all_if_absent(db.floor_plans@, bk.FloorPlans@),
        import_floor_maps(import_floor_maps(db.floor_maps@, bk.FloorMaps@), bk.FloorMaps@) == import_floor_maps(
            db.floor_maps@,
            bk.FloorMaps@,
        ),
        insert_all_if_absent(insert_all_if_absent(db.map_objects@, prepared), prepared_again)
            == insert_all_if_absent(db.map_objects@, prepared),
        insert_all_if_absent(insert_all_if_absent(db.uploads@, bk.Uploads@), bk.Uploads@)
            == insert_all_if_absent(db.uploads@, bk.Uploads@),
{
    lemma_insert_all_twice(db.floor_plans@, bk.FloorPlans@, bk.FloorPlans@);
    lemma_insert_all_twice(db.uploads@, bk.Uploads@, bk.Uploads@);
    assert forall|k: int| 0 <= k < prepared_again.len() implies (#[trigger] prepared_again[k]).spec_key()
        == prepared[k].spec_key() by {
        assert(imported_map_object(prepared_again[k], bk.MapObjects@[k]));
        assert(imported_map_object(prepared[k], bk.MapObjects@[k]));
    }
    lemma_insert_all_twice(db.map_objects@, prepared, prepared_again);
    lemma_import_floor_maps_keeps_keys(db.floor_maps@, bk.FloorMaps@);
    lemma_import_floor_maps_present(import_floor_maps(db.floor_maps@, bk.FloorMaps@), bk.FloorMaps@);
}


proof fn lemma_import_floor_maps_into_empty(incoming: Seq<FloorMap>)
    requires
        keys_unique(incoming),
        forall|k: int| 0 <= k < incoming.len() ==> (#[trigger] incoming[k]).SortOrder != 0,
    ensures
        import_floor_maps(Seq::<FloorMap>::empty(), incoming) == incoming,
    decreases incoming.len(),
{
    if incoming.len() > 0 {
        let d = incoming.drop_last();
        assert(keys_unique(d)) by {
            assert forall|i: int, j: int| 0 <= i < j < d.len() implies d[i].spec_key() != d[j].spec_key() by {
                assert(d[i] == incoming[i] && d[j] == incoming[j]);
            }
        }
        assert forall|k: int| 0 <= k < d.len() implies (#[trigger] d[k]).SortOrder != 0 by {
            assert(d[k] == incoming[k]);
        }
        lemma_import_floor_maps_into_empty(d);
        let x = incoming.last();
        assert(x.SortOrder != 0);
        assert(imported_floor_map(d, x) == x);
        assert(!has_key(d, x.spec_key())) by {
            if has_key(d, x.spec_key()) {
                let k = choose|k: int| 0 <= k < d.len() && d[k].spec_key() == x.spec_key();
                assert(incoming[k] == d[k]);
            }
        }
        assert(d.push(x) == incoming);
    }
}

/// Importing the export of a store (see `db_get_export`) into an empty store
/// re-creates exactly the exported rows, in order: the store's live rows, up
/// to the export limit. This holds where the store's identifiers are unique,
/// its live floor maps have a sort order and its live map objects have meta
/// text (an import fills in those that lack them).
pub proof fn lemma_import_export_into_empty(src: FloorDb, bk: DbExport, prepared: Seq<MapObject>)
    requires
        src.wf(),
        forall|k: int|
            0 <= k < src.floor_maps@.len() && !(#[trigger] src.floor_maps@[k]).Deleted ==> src.floor_maps@[k].SortOrder
                != 0,
        forall|k: int|
            0 <= k < src.map_objects@.len() && !(#[trigger] src.map_objects@[k]).Deleted
                ==> src.map_objects@[k].Meta@.len() > 0,
        bk.FloorPlans@ == take_at_most(live_rows(src.floor_plans@), 20000),
        bk.FloorMaps@ == take_at_most(live_rows(src.floor_maps@), 20000),
        bk.MapObjects@ == take_at_most(live_rows(src.map_objects@), 20000),
        bk.Uploads@ == take_at_most(live_rows(src.uploads@), 20000),
        prepared.len() == bk.MapObjects@.len(),
        forall|k: int| 0 <= k < prepared.len() ==> imported_map_object(#[trigger] prepared[k], bk.MapObjects@[k]),
    ensures
        insert_all_if_absent(Seq::<FloorPlan>::empty(), bk.FloorPlans@) == bk.FloorPlans@,
        import_floor_maps(Seq::<FloorMap>::empty(), bk.FloorMaps@) == bk.FloorMaps@,
        insert_all_if_absent(Seq::<MapObject>::empty(), prepared) == bk.MapObjects@,
        insert_all_if_absent(Seq::<Upload>::empty(), bk.Uploads@) == bk.Uploads@,
{
    lemma_live_rows_unique(src.floor_plans@, 20000);
    lemma_live_rows_unique(src.floor_maps@, 20000);
    lemma_live_rows_unique(src.map_objects@, 20000);
    lemma_live_rows_unique(src.uploads@, 20000);
    lemma_insert_all_into_empty(bk.FloorPlans@);
    lemma_insert_all_into_empty(bk.Uploads@);
    let maps = live_rows(src.floor_maps@);
    lemma_live_rows_not_deleted(src.floor_maps@);
    crate::apiv1::lemma_live_rows_members(src.floor_maps@);
    assert forall|k: int| 0 <= k < bk.FloorMaps@.len() implies (#[trigger] bk.FloorMaps@[k]).SortOrder != 0 by {
        assert(bk.FloorMaps@[k] == maps[k]);
        let j = choose|j: int| 0 <= j < src.floor_maps@.len() && src.floor_maps@[j] == #[trigger] maps[k];
        assert(!maps[k].spec_deleted());
    }
    lemma_import_floor_maps_into_empty(bk.FloorMaps@);
    let objs = live_rows(src.map_objects@);
    lemma_live_rows_not_deleted(src.map_objects@);
    crate::apiv1::lemma_live_rows_members(src.map_objects@);
    assert(prepared == bk.MapObjects@) by {
        assert forall|k: int| 0 <= k < prepared.len() implies prepared[k] == bk.MapObjects@[k] by {
            assert(bk.MapObjects@[k] == objs[k]);
            let j = choose|j: int| 0 <= j < src.map_objects@.len() && src.map_objects@[j] == #[trigger] objs[k];
            assert(!objs[k].spec_deleted());
            assert(imported_map_object(prepared[k], bk.MapObjects@[k]));
        }
        assert(prepared =~= bk.MapObjects@);
    }
    lemma_insert_all_into_empty(bk.MapObjects@);
}


/// Reading back after a map-object operation: a failed one left the table as
/// it was; a successful one on an object it may touch (live, or any with
/// `live_only` off) shows the changed object where the object was.
pub proof fn lemma_map_object_change_read_back(
    pre: FloorDb,
    post: FloorDb,
    r: Result<bool, DbError>,
    u: FlexUuid,
    live_only: bool,
    c: MapObjectChange,
    now: FlexTimestamp,
)
    requires
        map_object_op(pre, post, r, u, live_only, c, now),
    ensures
        r is Err ==> post.map_objects@ == pre.map_objects@,
        r is Ok ==> key_pos(post.map_objects@, u) == key_pos(pre.map_objects@, u) && key_pos(
            pre.map_objects@,
            u,
        ) < pre.map_objects@.len() && !pre.map_objects@[key_pos(pre.map_objects@, u)].Locked,
        r is Ok && (!live_only || !pre.map_objects@[key_pos(pre.map_objects@, u)].Deleted)
            ==> post.map_objects@[key_pos(post.map_objects@, u)] == changed_map_object(
            pre.map_objects@[key_pos(pre.map_objects@, u)],
            c,
            now,
        ),
{
    let a = pre.map_objects@;
    let b = post.map_objects@;
    lemma_key_pos(a, u);
    if r is Ok {
        assert forall|k: int| 0 <= k < a.len() implies (#[trigger] a[k]).spec_key() == b[k].spec_key() by {
            assert(b[k] == map_objects_after(a, u, live_only, c, now)[k]);
        }
        lemma_key_pos_same_keys(a, b, u, 0);
    }
}


/// What each change does to a map object, field by field: a move sets the
/// position, an arrow change the arrow, a text change the name, description
/// and meta text (each exactly as given, an empty text included), a label
/// change the label size, a type change the type object, and a deletion marks
/// it deleted at the time of the change. The object is stamped with that time,
/// and every field the change does not name keeps its value.
pub proof fn lemma_map_object_change_fields(row: MapObject, c: MapObjectChange, now: FlexTimestamp)
    ensures
        ({
            let r = changed_map_object(row, c, now);
            &&& r.UpdatedAt == now
            &&& r.MapObjectUUID == row.MapObjectUUID
            &&& r.ParentMapUUID == row.ParentMapUUID
            &&& r.Locked == row.Locked
            &&& r.LockedBy == row.LockedBy
            &&& r.LockedAt == row.LockedAt
            &&& r.DeletedBy == row.DeletedBy
            &&& r.Deleted == (row.Deleted || c is Delete)
            &&& r.DeletedAt == (if c is Delete { Some(now) } else { row.DeletedAt })
            &&& r.MapX == (if let MapObjectChange::Position { x, y } = c { x } else { row.MapX })
            &&& r.MapY == (if let MapObjectChange::Position { x, y } = c { y } else { row.MapY })
            &&& r.ArrowX == (if let MapObjectChange::Arrow { x, y } = c { x } else { row.ArrowX })
            &&& r.ArrowY == (if let MapObjectChange::Arrow { x, y } = c { y } else { row.ArrowY })
            &&& r.Name == (if let MapObjectChange::Text { name, description, meta } = c { name } else { row.Name })
            &&& r.Description == (if let MapObjectChange::Text { name, description, meta } = c {
                description
            } else {
                row.Description
            })
            &&& r.Meta == (if let MapObjectChange::Text { name, description, meta } = c { meta } else { row.Meta })
            &&& r.LabelSize == (if let MapObjectChange::LabelSize { size } = c { size } else { row.LabelSize })
            &&& r.TypeObjectUUID == (if let MapObjectChange::TypeObject { type_object } = c {
                type_object
            } else {
                row.TypeObjectUUID
            })
        }),
{
}

/// Reading back after setting a map object's name, description and meta text:
/// where the setting succeeded on a live object, the object holds exactly the
/// given texts (an empty meta text clears the old one).
pub proof fn lemma_text_change_read_back(
    pre: FloorDb,
    post: FloorDb,
    r: Result<bool, DbError>,
    u: FlexUuid,
    name: String,
    description: String,
    meta: String,
    now: FlexTimestamp,
)
    requires
        map_object_op(pre, post, r, u, true, MapObjectChange::Text { name, description, meta }, now),
        r is Ok,
        !pre.map_objects@[key_pos(pre.map_objects@, u)].Deleted,
    ensures
        ({
            let o = post.map_objects@[key_pos(post.map_objects@, u)];
            &&& key_pos(post.map_objects@, u) < post.map_objects@.len()
            &&& o.MapObjectUUID == u
            &&& o.Name@ == name@
            &&& o.Description@ == description@
            &&& o.Meta@ == meta@
            &&& o.UpdatedAt == now
        }),
{
    let c = MapObjectChange::Text { name, description, meta };
    lemma_map_object_change_read_back(pre, post, r, u, true, c, now);
    lemma_map_object_change_fields(pre.map_objects@[key_pos(pre.map_objects@, u)], c, now);
    lemma_key_pos(pre.map_objects@, u);
}


/// Adds a service built from the fresh row `fresh` (its identifier) at menu
/// order 0, named and labelled `SomeName`, not deleted; answers its
/// identifier. Where the identifier is taken, nothing is inserted.
pub fn db_insert_new_service_from(db: &mut FloorDb, fresh: Service) -> (u: FlexUuid)
    ensures
        u == fresh.ServiceUUID,
        exists|row: Service|
            row.ServiceUUID == u && !row.Deleted && row.MenuOrder == 0 && row.ServiceName@ == "SomeName"@
                && row.ServiceLabel@ == "SomeName"@ && final(db).services@ == insert_if_absent(
                old(db).services@,
                row,
            ),
        final(db).floor_plans@ == old(db).floor_plans@,
        final(db).floor_maps@ == old(db).floor_maps@,
        final(db).map_objects@ == old(db).map_objects@,
        final(db).uploads@ == old(db).uploads@,
        old(db).wf() ==> final(db).wf(),
{
    let row = Service {
        ServiceUUID: fresh.ServiceUUID,
        Deleted: false,
        MenuOrder: 0,
        ServiceName: String::from_str("SomeName"),
        ServiceLabel: String::from_str("SomeName"),
    };
    let u = row.ServiceUUID;
    proof {
        if old(db).wf() {
            lemma_insert_if_absent_unique(db.services@, row);
        }
    }
    insert_row(&mut db.services, row);
    u
}

/// Adds a service with a fresh identifier (see `db_insert_new_service_from`).
pub fn db_insert_new_service(db: &mut FloorDb) -> (u: FlexUuid)
    ensures
        random_v4_layout(u.bits),
        exists|row: Service|
            row.ServiceUUID == u && !row.Deleted && row.MenuOrder == 0 && row.ServiceName@ == "SomeName"@
                && row.ServiceLabel@ == "SomeName"@ && final(db).services@ == insert_if_absent(
                old(db).services@,
                row,
            ),
        final(db).floor_plans@ == old(db).floor_plans@,
        final(db).floor_maps@ == old(db).floor_maps@,
        final(db).map_objects@ == old(db).map_objects@,
        final(db).uploads@ == old(db).uploads@,
        old(db).wf() ==> final(db).wf(),
{
    db_insert_new_service_from(db, Service::default())
}


/// The first floor map with the identifier, where there is one.
pub fn db_get_floormap(db: &FloorDb, floormap_uuid: &FlexUuid) -> (r: Option<FloorMap>)
    ensures
        key_pos(db.floor_maps@, *floormap_uuid) < db.floor_maps@.len() ==> r == Some(
            db.floor_maps@[key_pos(db.floor_maps@, *floormap_uuid)],
        ),
        key_pos(db.floor_maps@, *floormap_uuid) >= db.floor_maps@.len() ==> r is None,
{
    match find_row(&db.floor_maps, floormap_uuid) {
        Some(i) => Some(db.floor_maps[i].clone()),
        None => None,
    }
}

/// Whether setting a new image for the floor map would overflow its version
/// number (see `floor_map_version_at_limit`).
pub fn floormap_version_at_limit(db: &FloorDb, floormap_uuid: &FlexUuid) -> (b: bool)
    ensures
        b == floor_map_version_at_limit(*db, *floormap_uuid),
{
    match find_row(&db.floor_maps, floormap_uuid) {
        None => false,
        Some(i) => {
            let fm = &db.floor_maps[i];
            !fm.Locked && find_row(&db.floor_plans, &fm.ParentFloorPlanUUID).is_some()
                && fm.FloorMapFileVersion == i32::MAX
        },
    }
}

/// Whether every floor map of the plan can move one place down (see
/// `plan_sort_orders_fit`).
pub fn plan_sort_orders_fit_check(rows: &Vec<FloorMap>, parent: &FlexUuid) -> (b: bool)
    ensures
        b == plan_sort_orders_fit(rows@, *parent),
{
    let mut k: usize = 0;
    while k < rows.len()
        invariant
            k <= rows.len(),
            forall|j: int|
                0 <= j < k && rows@[j].ParentFloorPlanUUID == *parent ==> rows@[j].SortOrder < i32::MAX,
        decreases rows.len() - k,
    {
        if rows[k].ParentFloorPlanUUID == *parent && rows[k].SortOrder == i32::MAX {
            return false;
        }
        k = k + 1;
    }
    true
}

} // verus!
