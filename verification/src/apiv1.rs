//! The records of the JSON API (version 1), and the two queries behind it.
use vstd::prelude::*;
use crate::db::{changed_map_object, map_object_op, DbError, FloorDb, MapObjectChange};
use crate::flextimestamp::FlexTimestamp;
use crate::flexuuid::FlexUuid;
use crate::models::{FloorMap, FloorPlan, MapObject, Service};
use crate::sorting::{
    is_permutation_of_range, lemma_sorted_positions, sort_positions, sorted_by_keys, sorted_positions,
};
use crate::table::{key_pos, lemma_key_pos, lemma_live_rows_filter, lemma_live_rows_not_deleted, live_rows, live_rows_limited, take_at_most, TableRow};

verus! {

/// A service as the menu lists it.
#[derive(Debug)]
pub struct ApiV1ServiceRecord {
    pub ServiceUUID: FlexUuid,
    pub ServiceName: String,
    pub ServiceLabel: String,
    pub MenuOrder: i32,
}

/// A floor map as the API shows it.
#[derive(Debug)]
pub struct ApiV1FloorMap {
    pub FloorMapUUID: FlexUuid,
    pub Name: String,
    pub Description: String,
    pub Deleted: bool,
    pub ParentFloorPlanUUID: FlexUuid,
    pub SortOrder: i32,
    pub ClipLeft: i32,
    pub ClipTop: i32,
    pub ClipWidth: i32,
    pub ClipHeight: i32,
}

/// A floor plan as the API shows it.
#[derive(Debug)]
pub struct ApiV1FloorPlan {
    pub FloorPlanUUID: FlexUuid,
    pub Name: String,
    pub Description: String,
    pub Deleted: bool,
}

/// A request to set the clip rectangle of a floor map.
#[derive(Debug)]
pub struct ApiV1FloorMapSetClipRecord {
    pub FloorMapUUID: FlexUuid,
    pub ClipLeft: i32,
    pub ClipTop: i32,
    pub ClipWidth: i32,
    pub ClipHeight: i32,
}

/// The answer to a poll for changes: what changed since the given time, and
/// the time to poll from next.
#[derive(Debug)]
pub struct ApiV1GetMapObjectsResponse {
    pub NextPollHorizon: i64,
    pub FloorPlans: Vec<ApiV1FloorPlan>,
    pub FloorMaps: Vec<ApiV1FloorMap>,
    pub MapObjects: Vec<MapObject>,
}

/// A request to move a map object.
#[derive(Debug)]
pub struct ApiV1MapObjectSetXYRecord {
    pub MapObjectUUID: FlexUuid,
    pub MapX: i32,
    pub MapY: i32,
    pub ArrowX: i32,
    pub ArrowY: i32,
}

/// A request to delete a map object.
#[derive(Debug)]
pub struct ApiV1MapObjectDeleteRecord {
    pub MapObjectUUID: FlexUuid,
}

/// A request to delete a floor map.
#[derive(Debug)]
pub struct ApiV1FloorMapDeleteRecord {
    pub FloorMapUUID: FlexUuid,
}

/// A request to rename or retype a map object.
#[derive(Debug)]
pub struct ApiV1MapObjectSetNameDescriptionRecord {
    pub MapObjectUUID: FlexUuid,
    pub TypeObjectUUID: Option<FlexUuid>,
    pub Name: String,
    pub Description: String,
    pub LabelSize: i32,
}

/// A request to create a map object.
#[derive(Debug)]
pub struct ApiV1NewMapObjectRecord {
    pub Name: String,
    pub Description: String,
    pub MapX: i32,
    pub MapY: i32,
    pub LabelSize: i32,
    pub ParentMapUUID: FlexUuid,
    pub TypeObjectUUID: Option<FlexUuid>,
}

/// The API record of a service.
pub open spec fn service_record(s: Service) -> ApiV1ServiceRecord {
    ApiV1ServiceRecord {
        ServiceUUID: s.ServiceUUID,
        ServiceName: s.ServiceName,
        ServiceLabel: s.ServiceLabel,
        MenuOrder: s.MenuOrder,
    }
}

/// The API record of a floor map.
pub open spec fn floor_map_record(m: FloorMap) -> ApiV1FloorMap {
    ApiV1FloorMap {
        FloorMapUUID: m.FloorMapUUID,
        Name: m.Name,
        Description: m.Description,
        Deleted: m.Deleted,
        ParentFloorPlanUUID: m.ParentFloorPlanUUID,
        SortOrder: m.SortOrder,
        ClipLeft: m.ClipLeft,
        ClipTop: m.ClipTop,
        ClipWidth: m.ClipWidth,
        ClipHeight: m.ClipHeight,
    }
}

/// The API record of a floor plan.
pub open spec fn floor_plan_record(p: FloorPlan) -> ApiV1FloorPlan {
    ApiV1FloorPlan {
        FloorPlanUUID: p.FloorPlanUUID,
        Name: p.Name,
        Description: p.Description,
        Deleted: p.Deleted,
    }
}

/// The smaller of two numbers.
pub open spec fn min_nat(a: nat, b: nat) -> nat {
    if a <= b {
        a
    } else {
        b
    }
}

/// The first `limit` of `rows` in the stable order of `keys`.
pub open spec fn first_in_key_order<T>(rows: Seq<T>, keys: Seq<i128>, limit: nat) -> Seq<T> {
    let perm = sorted_positions(keys, rows.len());
    Seq::new(min_nat(limit, rows.len()), |i: int| rows[perm[i] as int])
}

/// The menu orders of services, as sort keys.
pub open spec fn menu_order_keys(s: Seq<Service>) -> Seq<i128> {
    s.map_values(|x: Service| x.MenuOrder as i128)
}

/// The services of the menu: those not deleted, by menu order (ties in table
/// order), at most 2000.
pub open spec fn all_services_spec(services: Seq<Service>) -> Seq<ApiV1ServiceRecord> {
    let live = live_rows(services);
    first_in_key_order(live, menu_order_keys(live), 2000).map_values(|s: Service| service_record(s))
}

fn service_to_record(s: &Service) -> (r: ApiV1ServiceRecord)
    ensures
        r == service_record(*s),
{
    ApiV1ServiceRecord {
        ServiceUUID: s.ServiceUUID,
        ServiceName: s.ServiceName.clone(),
        ServiceLabel: s.ServiceLabel.clone(),
        MenuOrder: s.MenuOrder,
    }
}

/// The services of the menu: those not marked deleted, ordered by menu order
/// (equal ones in table order), at most 2000.
pub fn api_get_all_services(db: &FloorDb) -> (r: Vec<ApiV1ServiceRecord>)
    ensures
        r@ == all_services_spec(db.services@),
{
    proof {
        lemma_live_rows_not_deleted(db.services@);
    }
    let total = db.services.len();
    let live = live_rows_limited(&db.services, usize::MAX);
    assert(live_rows(db.services@).len() <= total);
    assert(live@ == live_rows(db.services@));
    let mut keys: Vec<i128> = Vec::new();
    let mut k: usize = 0;
    while k < live.len()
        invariant
            k <= live.len(),
            keys@ == menu_order_keys(live@).take(k as int),
        decreases live.len() - k,
    {
        keys.push(live[k].MenuOrder as i128);
        k = k + 1;
        assert(keys@ =~= menu_order_keys(live@).take(k as int));
    }
    assert(keys@ =~= menu_order_keys(live@));
    let perm = sort_positions(&keys);
    let n = if live.len() < 2000 { live.len() } else { 2000 };
    let ghost want = all_services_spec(db.services@);
    let mut r: Vec<ApiV1ServiceRecord> = Vec::new();
    let mut i: usize = 0;
    while i < n
        invariant
            i <= n,
            n == min_nat(2000, live@.len()),
            perm@ == sorted_positions(keys@, keys@.len()),
            keys@ == menu_order_keys(live@),
            live@ == live_rows(db.services@),
            want == all_services_spec(db.services@),
            want.len() == n,
            r@.len() == i,
            forall|j: int| 0 <= j < i ==> r@[j] == want[j],
            forall|j: int| 0 <= j < perm@.len() ==> perm@[j] < live@.len(),
            perm@.len() == live@.len(),
        decreases n - i,
    {
        let p = perm[i];
        r.push(service_to_record(&live[p]));
        i = i + 1;
    }
    assert(r@ =~= want);
    r
}


/// A row that records when it was last changed.
pub trait Stamped: TableRow {
    spec fn spec_updated_at(&self) -> FlexTimestamp;

    fn updated_at(&self) -> (t: FlexTimestamp)
        ensures
            t == self.spec_updated_at(),
    ;
}

impl Stamped for FloorPlan {
    open spec fn spec_updated_at(&self) -> FlexTimestamp {
        self.UpdatedAt
    }

    fn updated_at(&self) -> (t: FlexTimestamp) {
        self.UpdatedAt
    }
}

impl Stamped for FloorMap {
    open spec fn spec_updated_at(&self) -> FlexTimestamp {
        self.UpdatedAt
    }

    fn updated_at(&self) -> (t: FlexTimestamp) {
        self.UpdatedAt
    }
}

impl Stamped for MapObject {
    open spec fn spec_updated_at(&self) -> FlexTimestamp {
        self.UpdatedAt
    }

    fn updated_at(&self) -> (t: FlexTimestamp) {
        self.UpdatedAt
    }
}

/// The rows changed at or after `since` (deleted ones too), in table order.
pub open spec fn updated_since<T: Stamped>(rows: Seq<T>, since: FlexTimestamp) -> Seq<T>
    decreases rows.len(),
{
    if rows.len() == 0 {
        Seq::empty()
    } else if rows.last().spec_updated_at().spec_at_or_after(since) {
        updated_since(rows.drop_last(), since).push(rows.last())
    } else {
        updated_since(rows.drop_last(), since)
    }
}

/// The times of change of rows, as sort keys.
pub open spec fn update_keys<T: Stamped>(s: Seq<T>) -> Seq<i128> {
    s.map_values(|x: T| x.spec_updated_at().key() as i128)
}

/// The first `limit` rows changed at or after `since`, oldest change first
/// (equal times in table order).
pub open spec fn changed_since<T: Stamped>(rows: Seq<T>, since: FlexTimestamp, limit: nat) -> Seq<T> {
    let s = updated_since(rows, since);
    first_in_key_order(s, update_keys(s), limit)
}

proof fn lemma_updated_since_len<T: Stamped>(rows: Seq<T>, since: FlexTimestamp)
    ensures
        updated_since(rows, since).len() <= rows.len(),
    decreases rows.len(),
{
    if rows.len() > 0 {
        lemma_updated_since_len(rows.drop_last(), since);
    }
}

/// The first `limit` rows changed at or after `since`, oldest change first.
pub fn changed_rows_since<T: Stamped>(rows: &Vec<T>, since: &FlexTimestamp, limit: usize) -> (r: Vec<T>)
    ensures
        r@ == changed_since(rows@, *since, limit as nat),
{
    let mut sel: Vec<T> = Vec::new();
    let mut k: usize = 0;
    while k < rows.len()
        invariant
            k <= rows.len(),
            sel@ == updated_since(rows@.take(k as int), *since),
        decreases rows.len() - k,
    {
        proof {
            assert(rows@.take(k + 1).drop_last() == rows@.take(k as int));
            assert(rows@.take(k + 1).last() == rows@[k as int]);
        }
        if rows[k].updated_at().at_or_after(since) {
            sel.push(rows[k].copy_row());
        }
        k = k + 1;
    }
    proof {
        assert(rows@.take(rows.len() as int) == rows@);
    }
    let mut keys: Vec<i128> = Vec::new();
    let mut k: usize = 0;
    while k < sel.len()
        invariant
            k <= sel.len(),
            keys@ == update_keys(sel@).take(k as int),
        decreases sel.len() - k,
    {
        let key = sel[k].updated_at().order_key();
        keys.push(key);
        k = k + 1;
        assert(keys@ =~= update_keys(sel@).take(k as int));
    }
    assert(keys@ =~= update_keys(sel@));
    let perm = sort_positions(&keys);
    let n = if sel.len() < limit { sel.len() } else { limit };
    let ghost want = changed_since(rows@, *since, limit as nat);
    let mut r: Vec<T> = Vec::new();
    let mut i: usize = 0;
    while i < n
        invariant
            i <= n,
            n == min_nat(limit as nat, sel@.len()),
            perm@ == sorted_positions(keys@, keys@.len()),
            keys@ == update_keys(sel@),
            sel@ == updated_since(rows@, *since),
            want == changed_since(rows@, *since, limit as nat),
            want.len() == n,
            r@.len() == i,
            forall|j: int| 0 <= j < i ==> r@[j] == want[j],
            forall|j: int| 0 <= j < perm@.len() ==> perm@[j] < sel@.len(),
            perm@.len() == sel@.len(),
        decreases n - i,
    {
        let p = perm[i];
        r.push(sel[p].copy_row());
        i = i + 1;
    }
    assert(r@ =~= want);
    r
}

/// The most rows of each table that a poll answers.
pub const POLL_LIMIT: usize = 20000;

/// What a poll for changes since `since` answers, with `next` as the time to
/// poll from next: of floor plans, floor maps and map objects (deleted ones
/// too), the first 20000 changed at or after `since`, oldest change first.
pub open spec fn map_objects_response(
    db: FloorDb,
    since: FlexTimestamp,
    next: i64,
    r: ApiV1GetMapObjectsResponse,
) -> bool {
    &&& r.NextPollHorizon == next
    &&& r.FloorPlans@ == changed_since(db.floor_plans@, since, 20000).map_values(|p: FloorPlan| floor_plan_record(p))
    &&& r.FloorMaps@ == changed_since(db.floor_maps@, since, 20000).map_values(|m: FloorMap| floor_map_record(m))
    &&& r.MapObjects@ == changed_since(db.map_objects@, since, 20000)
}

/// Answers a poll for changes since `since`, telling the client to poll from
/// `next_poll_horizon` next.
pub fn api_get_map_objects_at(db: &FloorDb, since: &FlexTimestamp, next_poll_horizon: i64) -> (r: ApiV1GetMapObjectsResponse)
    ensures
        map_objects_response(*db, *since, next_poll_horizon, r),
{
    let objects = changed_rows_since(&db.map_objects, since, POLL_LIMIT);
    let maps = changed_rows_since(&db.floor_maps, since, POLL_LIMIT);
    let plans = changed_rows_since(&db.floor_plans, since, POLL_LIMIT);
    let mut floor_maps: Vec<ApiV1FloorMap> = Vec::new();
    let mut k: usize = 0;
    while k < maps.len()
        invariant
            k <= maps.len(),
            floor_maps@ == maps@.take(k as int).map_values(|m: FloorMap| floor_map_record(m)),
        decreases maps.len() - k,
    {
        let m = &maps[k];
        floor_maps.push(
            ApiV1FloorMap {
                FloorMapUUID: m.FloorMapUUID,
                Name: m.Name.clone(),
                Description: m.Description.clone(),
                Deleted: m.Deleted,
                ParentFloorPlanUUID: m.ParentFloorPlanUUID,
                SortOrder: m.SortOrder,
                ClipLeft: m.ClipLeft,
                ClipTop: m.ClipTop,
                ClipWidth: m.ClipWidth,
                ClipHeight: m.ClipHeight,
            },
        );
        k = k + 1;
        assert(floor_maps@ =~= maps@.take(k as int).map_values(|m: FloorMap| floor_map_record(m)));
    }
    assert(maps@.take(maps.len() as int) == maps@);
    let mut floor_plans: Vec<ApiV1FloorPlan> = Vec::new();
    let mut k: usize = 0;
    while k < plans.len()
        invariant
            k <= plans.len(),
            floor_plans@ == plans@.take(k as int).map_values(|p: FloorPlan| floor_plan_record(p)),
        decreases plans.len() - k,
    {
        let p = &plans[k];
        floor_plans.push(
            ApiV1FloorPlan {
                FloorPlanUUID: p.FloorPlanUUID,
                Name: p.Name.clone(),
                Description: p.Description.clone(),
                Deleted: p.Deleted,
            },
        );
        k = k + 1;
        assert(floor_plans@ =~= plans@.take(k as int).map_values(|p: FloorPlan| floor_plan_record(p)));
    }
    assert(plans@.take(plans.len() as int) == plans@);
    ApiV1GetMapObjectsResponse {
        NextPollHorizon: next_poll_horizon,
        FloorPlans: floor_plans,
        FloorMaps: floor_maps,
        MapObjects: objects,
    }
}

/// Answers a poll for changes since `since`; the time to poll from next is the
/// current time, read before the tables.
pub fn api_get_map_objects(db: &FloorDb, since: &FlexTimestamp) -> (r: ApiV1GetMapObjectsResponse)
    ensures
        exists|now: FlexTimestamp| now.valid() && map_objects_response(*db, *since, now.secs, r),
{
    let next_ts = FlexTimestamp::now().timestamp();
    api_get_map_objects_at(db, since, next_ts)
}


proof fn lemma_first_in_key_order<T>(rows: Seq<T>, keys: Seq<i128>, limit: nat)
    requires
        keys.len() == rows.len(),
        rows.len() <= usize::MAX,
    ensures
        first_in_key_order(rows, keys, limit).len() == min_nat(limit, rows.len()),
        forall|i: int|
            0 <= i < first_in_key_order(rows, keys, limit).len() ==> sorted_positions(keys, rows.len())[i]
                < rows.len() && #[trigger] first_in_key_order(rows, keys, limit)[i] == rows[sorted_positions(
                keys,
                rows.len(),
            )[i] as int],
        is_permutation_of_range(sorted_positions(keys, rows.len()), rows.len()),
        sorted_by_keys(keys, sorted_positions(keys, rows.len())),
        forall|w: usize| w < rows.len() ==> #[trigger] sorted_positions(keys, rows.len()).contains(w),
{
    lemma_sorted_positions(keys, rows.len());
}

proof fn lemma_updated_since_members<T: Stamped>(rows: Seq<T>, since: FlexTimestamp)
    ensures
        forall|i: int|
            0 <= i < updated_since(rows, since).len() ==> (#[trigger] updated_since(rows, since)[i]).spec_updated_at().spec_at_or_after(since),
        forall|k: int|
            0 <= k < rows.len() && rows[k].spec_updated_at().spec_at_or_after(since) ==> updated_since(
                rows,
                since,
            ).contains(rows[k]),
        updated_since(rows, since).len() <= rows.len(),
    decreases rows.len(),
{
    if rows.len() > 0 {
        let d = rows.drop_last();
        lemma_updated_since_members(d, since);
        let prev = updated_since(d, since);
        let cur = updated_since(rows, since);
        if rows.last().spec_updated_at().spec_at_or_after(since) {
            assert forall|k: int|
                0 <= k < rows.len() && rows[k].spec_updated_at().spec_at_or_after(since) implies cur.contains(
                rows[k],
            ) by {
                if k < rows.len() - 1 {
                    assert(d[k] == rows[k]);
                    let w = choose|w: int| 0 <= w < prev.len() && prev[w] == d[k];
                    assert(cur[w] == prev[w]);
                } else {
                    assert(cur[prev.len() as int] == rows[k]);
                }
            }
        } else {
            assert forall|k: int|
                0 <= k < rows.len() && rows[k].spec_updated_at().spec_at_or_after(since) implies cur.contains(
                rows[k],
            ) by {
                assert(d[k] == rows[k]);
            }
        }
    }
}

/// A poll answers only rows changed at or after the given time, oldest change
/// first; and where fewer than the limit changed, it answers every one of them.
pub proof fn lemma_changed_since_is_ordered_and_complete<T: Stamped>(
    rows: Seq<T>,
    since: FlexTimestamp,
    limit: nat,
)
    requires
        rows.len() <= usize::MAX,
    ensures
        forall|i: int|
            0 <= i < changed_since(rows, since, limit).len() ==> (#[trigger] changed_since(
                rows,
                since,
                limit,
            )[i]).spec_updated_at().spec_at_or_after(since),
        forall|i: int, j: int|
            0 <= i < j < changed_since(rows, since, limit).len() ==> (#[trigger] changed_since(
                rows,
                since,
                limit,
            )[i]).spec_updated_at().key() <= (#[trigger] changed_since(rows, since, limit)[j]).spec_updated_at().key(),
        updated_since(rows, since).len() <= limit ==> forall|k: int|
            0 <= k < rows.len() && rows[k].spec_updated_at().spec_at_or_after(since) ==> changed_since(
                rows,
                since,
                limit,
            ).contains(rows[k]),
{
    let sel = updated_since(rows, since);
    let keys = update_keys(sel);
    lemma_updated_since_members(rows, since);
    lemma_first_in_key_order(sel, keys, limit);
    let perm = sorted_positions(keys, sel.len());
    let r = changed_since(rows, since, limit);
    assert forall|i: int| 0 <= i < r.len() implies (#[trigger] r[i]).spec_updated_at().spec_at_or_after(
        since,
    ) by {
        assert(r[i] == sel[perm[i] as int]);
    }
    assert forall|i: int, j: int| 0 <= i < j < r.len() implies (#[trigger] r[i]).spec_updated_at().key()
        <= (#[trigger] r[j]).spec_updated_at().key() by {
        assert(r[i] == sel[perm[i] as int]);
        assert(r[j] == sel[perm[j] as int]);
        assert(keys[perm[i] as int] <= keys[perm[j] as int]);
        let a = sel[perm[i] as int].spec_updated_at();
        let b = sel[perm[j] as int].spec_updated_at();
        assert(keys[perm[i] as int] == a.key() as i128);
        assert(keys[perm[j] as int] == b.key() as i128);
        lemma_key_fits_i128(a);
        lemma_key_fits_i128(b);
    }
    if sel.len() <= limit {
        assert forall|k: int|
            0 <= k < rows.len() && rows[k].spec_updated_at().spec_at_or_after(since) implies r.contains(
            rows[k],
        ) by {
            let w = choose|w: int| 0 <= w < sel.len() && sel[w] == rows[k];
            assert(perm.contains(w as usize));
            let i = choose|i: int| 0 <= i < perm.len() && perm[i] == w as usize;
            assert(r[i] == sel[w]);
        }
    }
}

/// Polling again from the horizon that a poll answered misses no later change:
/// where a map object was changed (by a successful map-object operation that
/// touched it) at a time no earlier than that horizon, the next poll from the
/// horizon answers the object as changed, as long as fewer than the poll limit
/// of map objects changed since the horizon.
pub proof fn lemma_poll_sees_later_changes(
    db0: FloorDb,
    since0: FlexTimestamp,
    first: ApiV1GetMapObjectsResponse,
    pre: FloorDb,
    post: FloorDb,
    r: Result<bool, DbError>,
    u: FlexUuid,
    live_only: bool,
    c: MapObjectChange,
    now: FlexTimestamp,
)
    requires
        map_objects_response(db0, since0, first.NextPollHorizon, first),
        map_object_op(pre, post, r, u, live_only, c, now),
        r is Ok,
        live_only ==> !pre.map_objects@[key_pos(pre.map_objects@, u)].Deleted,
        now.secs >= first.NextPollHorizon,
        post.map_objects@.len() <= usize::MAX,
        updated_since(post.map_objects@, FlexTimestamp { secs: first.NextPollHorizon, nanos: 0 }).len()
            <= 20000,
    ensures
        ({
            let i = key_pos(pre.map_objects@, u);
            &&& 0 <= i < post.map_objects@.len()
            &&& post.map_objects@[i] == changed_map_object(pre.map_objects@[i], c, now)
            &&& changed_since(
                post.map_objects@,
                FlexTimestamp { secs: first.NextPollHorizon, nanos: 0 },
                20000,
            ).contains(post.map_objects@[i])
        }),
{
    let rows = pre.map_objects@;
    let i = key_pos(rows, u);
    let horizon = FlexTimestamp { secs: first.NextPollHorizon, nanos: 0 };
    lemma_key_pos(rows, u);
    assert(0 <= i < rows.len());
    assert(post.map_objects@[i] == changed_map_object(rows[i], c, now));
    assert(post.map_objects@[i].spec_updated_at() == now);
    assert(now.spec_at_or_after(horizon));
    lemma_changed_since_is_ordered_and_complete(post.map_objects@, horizon, 20000);
}

/// Each floor map and floor plan record of a poll answer carries the fields of
/// the row it comes from, its `Deleted` flag included; and where no more than
/// the poll limit changed, every floor map changed since the time asked for is
/// answered with its own `Deleted` flag, so a client learns of a deleted page.
pub proof fn lemma_poll_records_carry_rows(
    db: FloorDb,
    since: FlexTimestamp,
    next: i64,
    r: ApiV1GetMapObjectsResponse,
)
    requires
        map_objects_response(db, since, next, r),
        db.floor_maps@.len() <= usize::MAX,
    ensures
        r.FloorMaps@.len() == changed_since(db.floor_maps@, since, 20000).len(),
        forall|i: int|
            0 <= i < r.FloorMaps@.len() ==> {
                let m = changed_since(db.floor_maps@, since, 20000)[i];
                let x = #[trigger] r.FloorMaps@[i];
                &&& x.FloorMapUUID == m.FloorMapUUID
                &&& x.Deleted == m.Deleted
                &&& x.Name == m.Name
                &&& x.Description == m.Description
                &&& x.ParentFloorPlanUUID == m.ParentFloorPlanUUID
                &&& x.SortOrder == m.SortOrder
                &&& x.ClipLeft == m.ClipLeft
                &&& x.ClipTop == m.ClipTop
                &&& x.ClipWidth == m.ClipWidth
                &&& x.ClipHeight == m.ClipHeight
            },
        r.FloorPlans@.len() == changed_since(db.floor_plans@, since, 20000).len(),
        forall|i: int|
            0 <= i < r.FloorPlans@.len() ==> {
                let p = changed_since(db.floor_plans@, since, 20000)[i];
                let x = #[trigger] r.FloorPlans@[i];
                &&& x.FloorPlanUUID == p.FloorPlanUUID
                &&& x.Deleted == p.Deleted
                &&& x.Name == p.Name
                &&& x.Description == p.Description
            },
        updated_since(db.floor_maps@, since).len() <= 20000 ==> forall|k: int|
            0 <= k < db.floor_maps@.len() && (#[trigger] db.floor_maps@[k]).UpdatedAt.spec_at_or_after(since)
                ==> exists|i: int|
                0 <= i < r.FloorMaps@.len() && r.FloorMaps@[i].FloorMapUUID == db.floor_maps@[k].FloorMapUUID
                    && #[trigger] r.FloorMaps@[i].Deleted == db.floor_maps@[k].Deleted,
{
    let maps = changed_since(db.floor_maps@, since, 20000);
    lemma_changed_since_is_ordered_and_complete(db.floor_maps@, since, 20000);
    if updated_since(db.floor_maps@, since).len() <= 20000 {
        assert forall|k: int|
            0 <= k < db.floor_maps@.len() && (#[trigger] db.floor_maps@[k]).UpdatedAt.spec_at_or_after(since)
            implies exists|i: int|
            0 <= i < r.FloorMaps@.len() && r.FloorMaps@[i].FloorMapUUID == db.floor_maps@[k].FloorMapUUID
                && #[trigger] r.FloorMaps@[i].Deleted == db.floor_maps@[k].Deleted by {
            assert(db.floor_maps@[k].spec_updated_at() == db.floor_maps@[k].UpdatedAt);
            assert(maps.contains(db.floor_maps@[k]));
            let i = choose|i: int| 0 <= i < maps.len() && maps[i] == db.floor_maps@[k];
            assert(r.FloorMaps@.len() == maps.len());
            assert(r.FloorMaps@[i] == floor_map_record(maps[i]));
            assert(r.FloorMaps@[i].FloorMapUUID == db.floor_maps@[k].FloorMapUUID);
            assert(r.FloorMaps@[i].Deleted == db.floor_maps@[k].Deleted);
        }
    }
}

/// A poll goes by each row's `UpdatedAt` time, and the menu's records carry
/// the fields of the services they come from.
pub proof fn lemma_poll_and_menu_fields(p: FloorPlan, m: FloorMap, o: MapObject, s: Service)
    ensures
        p.spec_updated_at() == p.UpdatedAt,
        m.spec_updated_at() == m.UpdatedAt,
        o.spec_updated_at() == o.UpdatedAt,
        service_record(s).ServiceUUID == s.ServiceUUID,
        service_record(s).ServiceName == s.ServiceName,
        service_record(s).ServiceLabel == s.ServiceLabel,
        service_record(s).MenuOrder == s.MenuOrder,
{
}

proof fn lemma_key_fits_i128(t: FlexTimestamp)
    ensures
        i128::MIN <= t.key() <= i128::MAX,
{
}



/// The menu lists services not marked deleted (those whose `Deleted` flag is
/// false), each one taken from the table,
/// in menu order; where there are at most 2000 of them, it lists all.
pub proof fn lemma_all_services_ordered(services: Seq<Service>)
    requires
        services.len() <= usize::MAX,
    ensures
        forall|i: int, j: int|
            0 <= i < j < all_services_spec(services).len() ==> (#[trigger] all_services_spec(services)[i]).MenuOrder
                <= (#[trigger] all_services_spec(services)[j]).MenuOrder,
        forall|i: int|
            0 <= i < all_services_spec(services).len() ==> exists|k: int|
                0 <= k < services.len() && !services[k].Deleted && #[trigger] all_services_spec(services)[i]
                    == service_record(services[k]),
        live_rows(services).len() <= 2000 ==> all_services_spec(services).len() == live_rows(services).len(),
        live_rows(services) == services.filter(|s: Service| !s.Deleted),
{
    lemma_live_rows_filter(services, |s: Service| !s.Deleted);
    let live = live_rows(services);
    let keys = menu_order_keys(live);
    lemma_live_rows_not_deleted(services);
    lemma_live_rows_members(services);
    lemma_first_in_key_order(live, keys, 2000);
    let perm = sorted_positions(keys, live.len());
    let f = first_in_key_order(live, keys, 2000);
    let r = all_services_spec(services);
    assert forall|i: int, j: int| 0 <= i < j < r.len() implies (#[trigger] r[i]).MenuOrder
        <= (#[trigger] r[j]).MenuOrder by {
        assert(r[i] == service_record(f[i]));
        assert(r[j] == service_record(f[j]));
        assert(f[i] == live[perm[i] as int]);
        assert(f[j] == live[perm[j] as int]);
        assert(keys[perm[i] as int] <= keys[perm[j] as int]);
    }
    assert forall|i: int| 0 <= i < r.len() implies exists|k: int|
        0 <= k < services.len() && !services[k].Deleted && #[trigger] r[i] == service_record(
            services[k],
        ) by {
        assert(r[i] == service_record(f[i]));
        assert(f[i] == live[perm[i] as int]);
        let q = perm[i] as int;
        assert(!live[q].Deleted);
        let k = choose|k: int| 0 <= k < services.len() && services[k] == live[q];
    }
}

/// Every row listed as live is a row of the table.
pub proof fn lemma_live_rows_members<T: TableRow>(rows: Seq<T>)
    ensures
        forall|i: int|
            0 <= i < live_rows(rows).len() ==> exists|k: int|
                0 <= k < rows.len() && rows[k] == #[trigger] live_rows(rows)[i],
    decreases rows.len(),
{
    if rows.len() > 0 {
        let d = rows.drop_last();
        lemma_live_rows_members(d);
        let prev = live_rows(d);
        let cur = live_rows(rows);
        assert forall|i: int| 0 <= i < cur.len() implies exists|k: int|
            0 <= k < rows.len() && rows[k] == #[trigger] cur[i] by {
            if i < prev.len() {
                assert(cur[i] == prev[i]);
                let k = choose|k: int| 0 <= k < d.len() && d[k] == prev[i];
                assert(rows[k] == d[k]);
            } else {
                assert(cur[i] == rows[rows.len() - 1]);
            }
        }
    }
}

} // verus!
