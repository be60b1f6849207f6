use floormap::apiv1::{api_get_all_services, api_get_map_objects, api_get_map_objects_at};
use floormap::db::FloorDb;
use floormap::flextimestamp::FlexTimestamp;
use floormap::flexuuid::FlexUuid;
use floormap::models::{FloorMap, FloorPlan, MapObject, Service};
use floormap::sorting::sort_positions;

fn id(n: u128) -> FlexUuid {
    FlexUuid::from_bits(n)
}

fn service(n: u128, order: i32, deleted: bool) -> Service {
    Service {
        ServiceUUID: id(n),
        Deleted: deleted,
        MenuOrder: order,
        ServiceName: format!("s{}", n),
        ServiceLabel: format!("S{}", n),
    }
}

#[test]
fn sort_is_stable() {
    assert_eq!(sort_positions(&vec![3, 1, 2, 1]), vec![1, 3, 2, 0]);
    assert_eq!(sort_positions(&vec![]), Vec::<usize>::new());
    assert_eq!(sort_positions(&vec![-5, i128::MAX, i128::MIN]), vec![2, 0, 1]);
}

#[test]
fn services_by_menu_order_without_deleted() {
    let mut db = FloorDb::new();
    db.services = vec![service(1, 5, false), service(2, 1, false), service(3, 0, true), service(4, 5, false)];
    let r = api_get_all_services(&db);
    let got: Vec<(u128, i32, &str)> =
        r.iter().map(|s| (s.ServiceUUID.bits, s.MenuOrder, s.ServiceName.as_str())).collect();
    assert_eq!(got, vec![(2, 1, "s2"), (1, 5, "s1"), (4, 5, "s4")]);
    assert_eq!(r[0].ServiceLabel, "S2");
}

#[test]
fn services_at_most_two_thousand() {
    let mut db = FloorDb::new();
    for n in 0..2100u128 {
        db.services.push(service(n, (3000 - n) as i32, false));
    }
    let r = api_get_all_services(&db);
    assert_eq!(r.len(), 2000);
    assert_eq!(r[0].MenuOrder, 901);
    assert!(r.windows(2).all(|w| w[0].MenuOrder <= w[1].MenuOrder));
}

fn stamped_object(n: u128, secs: i64, nanos: u32) -> MapObject {
    let mut o = MapObject::default();
    o.MapObjectUUID = id(n);
    o.UpdatedAt = FlexTimestamp { secs, nanos };
    o
}

#[test]
fn poll_answers_changes_since_oldest_first() {
    let mut db = FloorDb::new();
    db.map_objects = vec![
        stamped_object(1, 30, 0),
        stamped_object(2, 10, 0),
        stamped_object(3, 20, 5),
        stamped_object(4, 20, 1),
    ];
    db.map_objects[0].Deleted = true;
    let mut m = FloorMap::default();
    m.FloorMapUUID = id(7);
    m.Name = "Ground".to_string();
    m.ClipWidth = 640;
    m.UpdatedAt = FlexTimestamp { secs: 25, nanos: 0 };
    db.floor_maps.push(m);
    let mut p = FloorPlan::default();
    p.UpdatedAt = FlexTimestamp { secs: 5, nanos: 0 };
    db.floor_plans.push(p);
    let r = api_get_map_objects_at(&db, &FlexTimestamp { secs: 20, nanos: 1 }, 99);
    assert_eq!(r.NextPollHorizon, 99);
    let ids: Vec<u128> = r.MapObjects.iter().map(|o| o.MapObjectUUID.bits).collect();
    assert_eq!(ids, vec![4, 3, 1]);
    assert_eq!(r.FloorMaps.len(), 1);
    assert_eq!((r.FloorMaps[0].FloorMapUUID, r.FloorMaps[0].Name.as_str(), r.FloorMaps[0].ClipWidth), (id(7), "Ground", 640));
    assert!(r.FloorPlans.is_empty());
    let all = api_get_map_objects(&db, &FlexTimestamp::from_timestamp(0));
    assert_eq!(all.MapObjects.len(), 4);
    assert_eq!(all.FloorPlans.len(), 1);
    assert!(all.NextPollHorizon > 1_500_000_000);
}

#[test]
fn poll_from_horizon_sees_later_change() {
    let mut db = FloorDb::new();
    db.map_objects = vec![stamped_object(1, 100, 0), stamped_object(2, 150, 0)];
    let first = api_get_map_objects_at(&db, &FlexTimestamp::from_timestamp(0), 200);
    assert_eq!(first.MapObjects.len(), 2);
    // a change made at the horizon's second, after the first poll
    let later = FlexTimestamp { secs: 200, nanos: 5 };
    floormap::db::db_set_mapobject_xy_at(&mut db, &id(1), 7, 8, later).unwrap();
    let horizon = FlexTimestamp::from_timestamp(first.NextPollHorizon);
    let second = api_get_map_objects_at(&db, &horizon, 300);
    assert_eq!(second.MapObjects.len(), 1);
    assert_eq!((second.MapObjects[0].MapObjectUUID, second.MapObjects[0].MapX), (id(1), 7));
    assert_eq!(second.MapObjects[0].UpdatedAt, later);
}
