use floormap::cli::export_fits_check;
use floormap::db::{
    db_get_floormap, db_insert_new_service, db_insert_new_service_from, floormap_version_at_limit,
    plan_sort_orders_fit_check, split_meta_from_str, FloorDb,
};
use floormap::flexuuid::FlexUuid;
use floormap::models::{Comment, FloorMap, FloorPlan, Job, Log, MapObject, Service, Upload};

fn id(n: u128) -> FlexUuid {
    FlexUuid::from_bits(n)
}

#[test]
fn fresh_rows_are_empty_but_identified() {
    let m = MapObject::default();
    assert!(!m.Deleted && !m.Locked && m.Name.is_empty() && m.MapX == 0 && m.TypeObjectUUID.is_none());
    assert!(m.UpdatedAt.nanos < 2_000_000_000);
    let f = FloorMap::default();
    assert_eq!((f.SortOrder, f.FloorMapFileVersion, f.LegendFontSize), (0, 0, 0));
    let p = FloorPlan::default();
    assert!(p.ParentFloorPlanUUID.is_none() && p.FloorPlanPath.is_empty());
    let u = Upload::default();
    assert_ne!(u.UploadUUID, u.RelatedToUUID);
    let c = Comment::default();
    assert_eq!((c.ChangesetID, c.CommentID), (0, 0));
    let j = Job::default();
    assert!(j.command_pid.is_none() && !j.return_success);
    let l = Log::default();
    assert!(l.Message.is_empty());
    let s = Service::default();
    assert_eq!(s.MenuOrder, 0);
    assert_eq!(m.clone(), m);
}

#[test]
fn floor_map_lookup_and_limits() {
    let mut db = FloorDb::new();
    let mut m = FloorMap::default();
    m.FloorMapUUID = id(1);
    m.ParentFloorPlanUUID = id(100);
    m.FloorMapFileVersion = i32::MAX;
    db.floor_maps.push(m.clone());
    assert_eq!(db_get_floormap(&db, &id(1)), Some(m));
    assert_eq!(db_get_floormap(&db, &id(2)), None);
    // no floor plan yet: planning fails before the version is read
    assert!(!floormap_version_at_limit(&db, &id(1)));
    let mut p = FloorPlan::default();
    p.FloorPlanUUID = id(100);
    db.floor_plans.push(p);
    assert!(floormap_version_at_limit(&db, &id(1)));
    db.floor_maps[0].Locked = true;
    assert!(!floormap_version_at_limit(&db, &id(1)));
    assert!(plan_sort_orders_fit_check(&db.floor_maps, &id(100)));
    db.floor_maps[0].SortOrder = i32::MAX;
    assert!(!plan_sort_orders_fit_check(&db.floor_maps, &id(100)));
    assert!(plan_sort_orders_fit_check(&db.floor_maps, &id(200)));
}

#[test]
fn export_position_limits() {
    let mut o = MapObject::default();
    let fm = FloorMap::default();
    assert!(export_fits_check(&o, &fm, 100, 100));
    o.MapX = i32::MAX;
    o.ArrowX = 1;
    assert!(!export_fits_check(&o, &fm, 100, 100));
    o.ArrowX = 0;
    assert!(!export_fits_check(&o, &fm, u32::MAX, 100));
    o.MapY = -1;
    assert!(export_fits_check(&o, &fm, u32::MAX, u32::MAX));
}

#[test]
fn placeholder_service() {
    let mut db = FloorDb::new();
    let mut fresh = Service::default();
    fresh.ServiceUUID = id(3);
    assert_eq!(db_insert_new_service_from(&mut db, fresh), id(3));
    let u = db_insert_new_service(&mut db);
    assert_eq!(db.services.len(), 2);
    assert_eq!(db.services[1].ServiceUUID, u);
    assert_eq!((db.services[0].ServiceName.as_str(), db.services[0].ServiceLabel.as_str()), ("SomeName", "SomeName"));
    assert_eq!(split_meta_from_str("x~y~"), ("y".to_string(), "x".to_string()));
}
