use floormap::db::{
    db_plan_floormap_file, db_set_floormap_clip, db_set_floormap_clip_at, db_set_floormap_deleted,
    db_set_floormap_file_at, db_set_floormap_legend_at, db_set_floormap_name_at,
    db_set_mapobject_arrow_xy_at, db_set_mapobject_deleted_at, db_set_mapobject_labelsize_at,
    db_set_mapobject_name_description_meta, db_set_mapobject_name_description_meta_at,
    db_set_mapobject_typeobjectuuid_at, db_set_mapobject_xy, db_set_mapobject_xy_at, DbError,
    DbErrorKind, FloorDb,
};
use floormap::flextimestamp::FlexTimestamp;
use floormap::flexuuid::FlexUuid;
use floormap::models::{FloorMap, FloorPlan, MapObject};

fn id(n: u128) -> FlexUuid {
    FlexUuid::from_bits(n)
}

fn at(s: i64) -> FlexTimestamp {
    FlexTimestamp::from_timestamp(s)
}

fn object(n: u128, locked: bool, deleted: bool) -> MapObject {
    let mut o = MapObject::default();
    o.MapObjectUUID = id(n);
    o.ParentMapUUID = id(11);
    o.Locked = locked;
    o.Deleted = deleted;
    o.UpdatedAt = at(1);
    o
}

fn floor_map(n: u128, plan: u128, locked: bool, deleted: bool) -> FloorMap {
    let mut m = FloorMap::default();
    m.FloorMapUUID = id(n);
    m.ParentFloorPlanUUID = id(plan);
    m.Locked = locked;
    m.Deleted = deleted;
    m.UpdatedAt = at(1);
    m
}

fn store() -> FloorDb {
    let mut db = FloorDb::new();
    db.map_objects.push(object(1, false, false));
    db.map_objects.push(object(2, true, false));
    db.map_objects.push(object(3, false, true));
    db.floor_maps.push(floor_map(11, 100, false, false));
    db.floor_maps.push(floor_map(12, 100, true, false));
    db.floor_maps.push(floor_map(13, 100, false, true));
    db.floor_maps.push(floor_map(14, 999, false, false));
    let mut p = FloorPlan::default();
    p.FloorPlanUUID = id(100);
    p.FloorPlanPath = "/plans/p1".to_string();
    db.floor_plans.push(p);
    db
}

#[test]
fn set_xy_moves_a_live_object() {
    let mut db = store();
    assert_eq!(db_set_mapobject_xy_at(&mut db, &id(1), 10, 20, at(50)).unwrap(), true);
    let o = &db.map_objects[0];
    assert_eq!((o.MapX, o.MapY, o.UpdatedAt), (10, 20, at(50)));
    assert_eq!(db.map_objects[1], object(2, true, false));
}

#[test]
fn set_xy_refuses_a_locked_object() {
    let mut db = store();
    let before = db.map_objects.clone();
    let e = db_set_mapobject_xy_at(&mut db, &id(2), 10, 20, at(50)).unwrap_err();
    assert_eq!(e.kind, DbErrorKind::Other);
    assert_eq!(e.message, "map object 00000000-0000-0000-0000-000000000002 - is locked");
    assert_eq!(db.map_objects, before);
}

#[test]
fn set_xy_reports_a_missing_object() {
    let mut db = store();
    let e = db_set_mapobject_xy(&mut db, &id(7), 1, 1, "web").unwrap_err();
    assert_eq!(e.kind, DbErrorKind::NotFound);
    assert_eq!(
        e.message,
        "port 00000000-0000-0000-0000-000000000007 - error setting description: NotFound"
    );
}

#[test]
fn set_xy_leaves_a_deleted_object_alone() {
    let mut db = store();
    assert_eq!(db_set_mapobject_xy_at(&mut db, &id(3), 10, 20, at(50)).unwrap(), true);
    assert_eq!(db.map_objects[2], object(3, false, true));
}

#[test]
fn other_object_changes() {
    let mut db = store();
    db_set_mapobject_arrow_xy_at(&mut db, &id(1), -4, 5, at(60)).unwrap();
    db_set_mapobject_labelsize_at(&mut db, &id(1), 14, at(61)).unwrap();
    db_set_mapobject_typeobjectuuid_at(&mut db, &id(1), Some(&id(42)), at(62)).unwrap();
    db_set_mapobject_name_description_meta_at(&mut db, &id(1), "Desk", "by the door", "room 4", at(63))
        .unwrap();
    let o = &db.map_objects[0];
    assert_eq!((o.ArrowX, o.ArrowY, o.LabelSize), (-4, 5, 14));
    assert_eq!(o.TypeObjectUUID, Some(id(42)));
    assert_eq!((o.Name.as_str(), o.Description.as_str(), o.Meta.as_str()), ("Desk", "by the door", "room 4"));
    assert_eq!(o.UpdatedAt, at(63));
    db_set_mapobject_typeobjectuuid_at(&mut db, &id(1), None, at(64)).unwrap();
    assert_eq!(db.map_objects[0].TypeObjectUUID, None);
    assert!(db_set_mapobject_name_description_meta(&mut db, &id(1), "n", "d", "m").is_ok());
}

#[test]
fn delete_marks_even_a_deleted_object() {
    let mut db = store();
    db_set_mapobject_deleted_at(&mut db, &id(3), at(70)).unwrap();
    let o = &db.map_objects[2];
    assert!(o.Deleted);
    assert_eq!(o.DeletedAt, Some(at(70)));
    assert_eq!(o.UpdatedAt, at(70));
    db_set_mapobject_deleted_at(&mut db, &id(1), at(71)).unwrap();
    assert!(db.map_objects[0].Deleted);
}

#[test]
fn floor_map_clip_and_legend() {
    let mut db = store();
    db_set_floormap_clip_at(&mut db, &id(11), 1, 2, 3, 4, at(80)).unwrap();
    db_set_floormap_legend_at(&mut db, &id(11), 5, 6, 7, at(81)).unwrap();
    let m = &db.floor_maps[0];
    assert_eq!((m.ClipLeft, m.ClipTop, m.ClipWidth, m.ClipHeight), (1, 2, 3, 4));
    assert_eq!((m.LegendLeft, m.LegendTop, m.LegendFontSize), (5, 6, 7));
    assert_eq!(m.UpdatedAt, at(81));
    // a deleted floor map is not clipped, though the answer is Ok
    assert!(db_set_floormap_clip_at(&mut db, &id(13), 1, 2, 3, 4, at(80)).unwrap());
    assert_eq!(db.floor_maps[2], floor_map(13, 100, false, true));
}

#[test]
fn floor_map_errors_carry_their_messages() {
    let mut db = store();
    let e = db_set_floormap_clip(&mut db, &id(12), 1, 2, 3, 4).unwrap_err();
    assert_eq!(e.kind, DbErrorKind::Other);
    assert_eq!(e.message, "floormap 00000000-0000-0000-0000-00000000000c - is locked");
    let e = db_set_floormap_legend_at(&mut db, &id(99), 1, 2, 3, at(1)).unwrap_err();
    assert_eq!(e.kind, DbErrorKind::NotFound);
    assert_eq!(
        e.message,
        "floormap 00000000-0000-0000-0000-000000000063 - error setting legend: NotFound"
    );
    let e = db_set_floormap_deleted(&mut db, &id(12), true).unwrap_err();
    assert_eq!(e.message, "map object 00000000-0000-0000-0000-00000000000c - is locked");
    let e = db_set_floormap_name_at(&mut db, &id(98), "x", at(1)).unwrap_err();
    assert_eq!(
        e.message,
        "port 00000000-0000-0000-0000-000000000062 - error setting description: NotFound"
    );
}

#[test]
fn floor_map_name_and_delete_reach_deleted_rows() {
    let mut db = store();
    db_set_floormap_name_at(&mut db, &id(13), "Ground floor", at(90)).unwrap();
    assert_eq!(db.floor_maps[2].Name, "Ground floor");
    db_set_floormap_deleted_at_helper(&mut db);
    assert!(db.floor_maps[0].Deleted);
}

fn db_set_floormap_deleted_at_helper(db: &mut FloorDb) {
    floormap::db::db_set_floormap_deleted_at(db, &id(11), at(91)).unwrap();
}

#[test]
fn floor_map_file_plan_names_next_version() {
    let mut db = store();
    db.floor_maps[0].FloorMapFileVersion = 2;
    let plan = db_plan_floormap_file(&db, &id(11), "/tmp/up/page.png").unwrap();
    assert_eq!(plan.file_version, 3);
    assert_eq!(plan.dst_file_name, "/plans/p1/00000000-0000-0000-0000-00000000000b-3.png");
    assert_eq!(
        plan.dst_thumb_file_name,
        "/plans/p1/00000000-0000-0000-0000-00000000000b-3.png-thumb.png"
    );
    assert_eq!(plan.src_thumb_file_name, "/tmp/up/page.png-thumb.png");
    db_set_floormap_file_at(&mut db, &id(11), "/tmp/up/page.png", Ok(()), at(95)).unwrap();
    assert_eq!(db.floor_maps[0].UpdatedAt, at(95));
    assert_eq!(db.floor_maps[0].FloorMapFileName, plan.dst_file_name);
    assert_eq!(db.floor_maps[0].FloorMapFileVersion, 3);
}

#[test]
fn floor_map_file_plan_errors() {
    let db = store();
    let e = db_plan_floormap_file(&db, &id(14), "f.png").err().unwrap();
    assert_eq!(e.kind, DbErrorKind::NotFound);
    assert_eq!(
        e.message,
        "floormap 00000000-0000-0000-0000-00000000000e - error getting floorplan 00000000-0000-0000-0000-0000000003e7: NotFound"
    );
    let e = db_plan_floormap_file(&db, &id(12), "f.png").err().unwrap();
    assert_eq!(e.kind, DbErrorKind::Other);
    let e = db_plan_floormap_file(&db, &id(77), "f.png").err().unwrap();
    assert_eq!(
        e.message,
        "floormap 00000000-0000-0000-0000-00000000004d - error setting floormap: NotFound"
    );
}

#[test]
fn floor_map_file_errors_change_nothing() {
    let mut db = store();
    let maps = db.floor_maps.clone();
    let e = db_set_floormap_file_at(&mut db, &id(77), "f.png", Ok(()), at(95)).err().unwrap();
    assert_eq!(e.kind, DbErrorKind::NotFound);
    assert_eq!(
        e.message,
        "floormap 00000000-0000-0000-0000-00000000004d - error setting floormap: NotFound"
    );
    let e = db_set_floormap_file_at(&mut db, &id(12), "f.png", Ok(()), at(95)).err().unwrap();
    assert_eq!(e.kind, DbErrorKind::Other);
    assert_eq!(e.message, "map object 00000000-0000-0000-0000-00000000000c - is locked");
    let e = db_set_floormap_file_at(&mut db, &id(14), "f.png", Ok(()), at(95)).err().unwrap();
    assert_eq!(e.kind, DbErrorKind::NotFound);
    // a failed copy is answered with its own error, and nothing is recorded
    let copy_failed = DbError { kind: DbErrorKind::NotFound, message: "copy failed".to_string() };
    let e = db_set_floormap_file_at(&mut db, &id(11), "f.png", Err(copy_failed), at(95)).err().unwrap();
    assert_eq!((e.kind, e.message.as_str()), (DbErrorKind::NotFound, "copy failed"));
    assert_eq!(db.floor_maps, maps);
}
