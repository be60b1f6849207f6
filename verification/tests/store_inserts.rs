use floormap::db::{
    db_get_export, db_insert_new_floormap, db_insert_new_floormap_from, db_insert_new_floorplan,
    db_insert_new_floorplan_from, db_insert_new_mapobject, db_insert_new_mapobject_from,
    db_insert_new_upload, db_put_export, upload_paths, DbExport, FloorDb,
};
use floormap::flextimestamp::FlexTimestamp;
use floormap::flexuuid::FlexUuid;
use floormap::models::{FloorMap, FloorPlan, MapObject, Upload};

fn id(n: u128) -> FlexUuid {
    FlexUuid::from_bits(n)
}

fn at(s: i64) -> FlexTimestamp {
    FlexTimestamp::from_timestamp(s)
}

fn page(n: u128, plan: u128, order: i32) -> FloorMap {
    let mut m = FloorMap::default();
    m.FloorMapUUID = id(n);
    m.ParentFloorPlanUUID = id(plan);
    m.SortOrder = order;
    m.UpdatedAt = at(1);
    m
}

fn orders(db: &FloorDb, plan: u128) -> Vec<(u128, i32)> {
    db.floor_maps
        .iter()
        .filter(|m| m.ParentFloorPlanUUID == id(plan))
        .map(|m| (m.FloorMapUUID.bits, m.SortOrder))
        .collect()
}

#[test]
fn new_floor_map_goes_before_the_given_order() {
    let mut db = FloorDb::new();
    for (n, o) in [(1, 1), (2, 2), (3, 3)] {
        db.floor_maps.push(page(n, 100, o));
    }
    db.floor_maps.push(page(9, 200, 2));
    let mut fresh = FloorMap::default();
    fresh.FloorMapUUID = id(4);
    let u = db_insert_new_floormap_from(&mut db, fresh, "Page 04", "d", "t", "f.png", &id(100), 3, at(7));
    assert_eq!(u, id(4));
    assert_eq!(orders(&db, 100), vec![(1, 1), (2, 2), (3, 4), (4, 3)]);
    assert_eq!(orders(&db, 200), vec![(9, 2)]);
    assert_eq!(db.floor_maps[2].UpdatedAt, at(7));
    assert_eq!(db.floor_maps[1].UpdatedAt, at(1));
    let new = &db.floor_maps[4];
    assert_eq!((new.Name.as_str(), new.FloorMapFileName.as_str()), ("Page 04", "f.png"));
}

#[test]
fn new_floor_map_at_the_end_keeps_others() {
    let mut db = FloorDb::new();
    db.floor_maps.push(page(1, 100, 1));
    db.floor_maps.push(page(2, 100, 2));
    let u = db_insert_new_floormap(&mut db, "Page 03", "", "", "p3.png", &id(100), 999999);
    assert_eq!((u.bits >> 76) & 0xf, 4);
    assert_eq!((u.bits >> 62) & 0x3, 2);
    assert_eq!(orders(&db, 100), vec![(1, 1), (2, 2), (u.bits, 3)]);
    // sort orders in the plan stay distinct
    let mut seen: Vec<i32> = orders(&db, 100).iter().map(|x| x.1).collect();
    seen.sort();
    seen.dedup();
    assert_eq!(seen.len(), 3);
}

#[test]
fn new_floor_map_with_taken_identifier_is_not_inserted() {
    let mut db = FloorDb::new();
    db.floor_maps.push(page(1, 100, 1));
    let mut fresh = FloorMap::default();
    fresh.FloorMapUUID = id(1);
    db_insert_new_floormap_from(&mut db, fresh, "x", "", "", "", &id(100), 1, at(9));
    assert_eq!(orders(&db, 100), vec![(1, 2)]);
}

#[test]
fn new_floor_plan_and_map_object() {
    let mut db = FloorDb::new();
    let mut fresh = FloorPlan::default();
    fresh.FloorPlanUUID = id(5);
    let u = db_insert_new_floorplan_from(&mut db, fresh, "floorplan", "imported", "/d/images", None, at(3));
    assert_eq!(u, id(5));
    assert_eq!(db.floor_plans[0].FloorPlanPath, "/d/images");
    assert_eq!(db.floor_plans[0].CreatedAt, at(3));
    assert_eq!(db.floor_plans[0].ParentFloorPlanUUID, None);
    let v = db_insert_new_floorplan(&mut db, "b", "c", "p", Some(&id(5)));
    assert_eq!(db.floor_plans[1].FloorPlanUUID, v);
    assert_eq!(db.floor_plans[1].ParentFloorPlanUUID, Some(id(5)));

    let mut o = MapObject::default();
    o.MapObjectUUID = id(6);
    let w = db_insert_new_mapobject_from(&mut db, o, &id(11), "Desk", "FIXME", 3, 4);
    assert_eq!(w, id(6));
    let r = &db.map_objects[0];
    assert_eq!((r.ParentMapUUID, r.MapX, r.MapY), (id(11), 3, 4));
    let x = db_insert_new_mapobject(&mut db, &id(11), "Chair", "", 1, 2);
    assert_eq!(db.map_objects[1].MapObjectUUID, x);
    assert!(!db.map_objects[1].Deleted);
    assert_eq!(db.map_objects[1].Meta, "");
}

#[test]
fn upload_paths_and_record() {
    let p = upload_paths(&id(1), &id(2), "plan.pdf");
    assert_eq!(p.dir_name, "00000000-0000-0000-0000-000000000001/00000000-0000-0000-0000-000000000002");
    assert_eq!(
        p.full_dir_name,
        "/var/a3s/http/uploads/00000000-0000-0000-0000-000000000001/00000000-0000-0000-0000-000000000002"
    );
    assert_eq!(p.dest_name, format!("{}/plan.pdf", p.dir_name));
    assert_eq!(p.full_dest_name, format!("{}/plan.pdf", p.full_dir_name));
    let mut db = FloorDb::new();
    let mut fresh = Upload::default();
    fresh.UploadUUID = id(2);
    assert_eq!(
        db_insert_new_upload(&mut db, fresh.clone(), "ann", &id(1), &p, "plan.pdf", "first", false),
        None
    );
    assert!(db.uploads.is_empty());
    assert_eq!(
        db_insert_new_upload(&mut db, fresh, "ann", &id(1), &p, "plan.pdf", "first", true),
        Some(id(2))
    );
    let u = &db.uploads[0];
    assert_eq!((u.CreatedBy.as_str(), u.ServerFileName.as_str(), u.Message.as_str()), ("ann", p.dest_name.as_str(), "first"));
    assert_eq!(u.RelatedToUUID, id(1));
}

#[test]
fn export_lists_live_rows_only() {
    let mut db = FloorDb::new();
    db.floor_maps.push(page(1, 100, 1));
    let mut gone = page(2, 100, 2);
    gone.Deleted = true;
    db.floor_maps.push(gone);
    let mut o = MapObject::default();
    o.Deleted = true;
    db.map_objects.push(o);
    let e = db_get_export(&db);
    assert_eq!(e.FloorMaps.len(), 1);
    assert_eq!(e.FloorMaps[0].FloorMapUUID, id(1));
    assert!(e.MapObjects.is_empty());
    assert!(e.FloorPlans.is_empty() && e.Uploads.is_empty());
}

#[test]
fn export_stops_at_twenty_thousand() {
    let mut db = FloorDb::new();
    for n in 0..20005u128 {
        let mut u = Upload::default();
        u.UploadUUID = id(n);
        db.uploads.push(u);
    }
    let e = db_get_export(&db);
    assert_eq!(e.Uploads.len(), 20000);
    assert_eq!(e.Uploads[19999].UploadUUID, id(19999));
}

#[test]
fn import_fills_sort_orders_and_meta() {
    let mut db = FloorDb::new();
    db.floor_maps.push(page(1, 100, 1));
    let mut o = MapObject::default();
    o.MapObjectUUID = id(50);
    o.Description = "desk ~room 4~ by the window".to_string();
    let mut kept = MapObject::default();
    kept.MapObjectUUID = id(51);
    kept.Description = "a ~b~".to_string();
    kept.Meta = "given".to_string();
    let bk = DbExport {
        FloorPlans: vec![],
        FloorMaps: vec![page(2, 100, 0), page(3, 100, 0), page(1, 100, 7), page(4, 200, 5)],
        MapObjects: vec![o, kept.clone()],
        Uploads: vec![],
    };
    db_put_export(&mut db, &bk);
    assert_eq!(orders(&db, 100), vec![(1, 1), (2, 2), (3, 3)]);
    assert_eq!(orders(&db, 200), vec![(4, 5)]);
    assert_eq!(db.map_objects[0].Meta, "room 4");
    assert_eq!(db.map_objects[0].Description, "desk  by the window");
    assert_eq!(db.map_objects[1], kept);
}

#[test]
fn import_of_an_export_into_an_empty_store() {
    let mut db = FloorDb::new();
    db.floor_maps.push(page(1, 100, 1));
    let mut p = FloorPlan::default();
    p.FloorPlanUUID = id(100);
    db.floor_plans.push(p);
    let e = db_get_export(&db);
    let mut fresh = FloorDb::new();
    db_put_export(&mut fresh, &e);
    assert_eq!(fresh.floor_maps, db.floor_maps);
    assert_eq!(fresh.floor_plans, db.floor_plans);
    // importing twice adds nothing
    db_put_export(&mut fresh, &e);
    assert_eq!(fresh.floor_maps.len(), 1);
}

#[test]
fn new_floor_map_keeps_pages_numbered_from_one() {
    for (before, expected) in [(-5, 1), (0, 1), (1, 1), (2, 2), (3, 3), (4, 4), (50, 4)] {
        let mut db = FloorDb::new();
        for (n, o) in [(1, 2), (2, 1), (3, 3)] {
            db.floor_maps.push(page(n, 100, o));
        }
        let mut fresh = FloorMap::default();
        fresh.FloorMapUUID = id(4);
        db_insert_new_floormap_from(&mut db, fresh, "New", "", "", "", &id(100), before, at(5));
        let got = orders(&db, 100);
        assert_eq!(got[3], (4, expected));
        let mut all: Vec<i32> = got.iter().map(|x| x.1).collect();
        all.sort();
        assert_eq!(all, vec![1, 2, 3, 4]);
    }
}

#[test]
fn import_of_an_export_recreates_its_live_rows() {
    let mut db = FloorDb::new();
    db.floor_maps.push(page(1, 100, 1));
    let mut gone = page(2, 100, 2);
    gone.Deleted = true;
    db.floor_maps.push(gone);
    db.floor_maps.push(page(3, 100, 3));
    let mut o = MapObject::default();
    o.MapObjectUUID = id(50);
    o.Description = "desk ~kept~".to_string();
    o.Meta = "room".to_string();
    db.map_objects.push(o);
    let mut od = MapObject::default();
    od.MapObjectUUID = id(51);
    od.Meta = "x".to_string();
    od.Deleted = true;
    db.map_objects.push(od);
    let e = db_get_export(&db);
    let mut fresh = FloorDb::new();
    db_put_export(&mut fresh, &e);
    assert_eq!(fresh.floor_maps, vec![db.floor_maps[0].clone(), db.floor_maps[2].clone()]);
    assert_eq!(fresh.map_objects, vec![db.map_objects[0].clone()]);
    assert!(fresh.floor_plans.is_empty() && fresh.uploads.is_empty());
}
