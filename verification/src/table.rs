//! What every table of the store shares: rows found by their identifier, a
//! deletion flag, inserts that keep identifiers unique, and live-row listings.
use vstd::prelude::*;
use crate::flexuuid::FlexUuid;
use crate::models::{FloorMap, FloorPlan, MapObject, Service, Upload};

verus! {

/// A row with an identifier (its primary key) and a deletion flag.
pub trait TableRow: Sized {
    spec fn spec_key(&self) -> FlexUuid;

    spec fn spec_deleted(&self) -> bool;

    fn key(&self) -> (k: FlexUuid)
        ensures
            k == self.spec_key(),
    ;

    fn deleted(&self) -> (d: bool)
        ensures
            d == self.spec_deleted(),
    ;

    fn copy_row(&self) -> (r: Self)
        ensures
            r == *self,
    ;
}

impl TableRow for FloorPlan {
    open spec fn spec_key(&self) -> FlexUuid {
        self.FloorPlanUUID
    }

    open spec fn spec_deleted(&self) -> bool {
        self.Deleted
    }

    fn key(&self) -> (k: FlexUuid) {
        self.FloorPlanUUID
    }

    fn deleted(&self) -> (d: bool) {
        self.Deleted
    }

    fn copy_row(&self) -> (r: Self) {
        self.clone()
    }
}

impl TableRow for FloorMap {
    open spec fn spec_key(&self) -> FlexUuid {
        self.FloorMapUUID
    }

    open spec fn spec_deleted(&self) -> bool {
        self.Deleted
    }

    fn key(&self) -> (k: FlexUuid) {
        self.FloorMapUUID
    }

    fn deleted(&self) -> (d: bool) {
        self.Deleted
    }

    fn copy_row(&self) -> (r: Self) {
        self.clone()
    }
}

impl TableRow for MapObject {
    open spec fn spec_key(&self) -> FlexUuid {
        self.MapObjectUUID
    }

    open spec fn spec_deleted(&self) -> bool {
        self.Deleted
    }

    fn key(&self) -> (k: FlexUuid) {
        self.MapObjectUUID
    }

    fn deleted(&self) -> (d: bool) {
        self.Deleted
    }

    fn copy_row(&self) -> (r: Self) {
        self.clone()
    }
}

impl TableRow for Upload {
    open spec fn spec_key(&self) -> FlexUuid {
        self.UploadUUID
    }

    open spec fn spec_deleted(&self) -> bool {
        self.Deleted
    }

    fn key(&self) -> (k: FlexUuid) {
        self.UploadUUID
    }

    fn deleted(&self) -> (d: bool) {
        self.Deleted
    }

    fn copy_row(&self) -> (r: Self) {
        self.clone()
    }
}

impl TableRow for Service {
    open spec fn spec_key(&self) -> FlexUuid {
        self.ServiceUUID
    }

    open spec fn spec_deleted(&self) -> bool {
        self.Deleted
    }

    fn key(&self) -> (k: FlexUuid) {
        self.ServiceUUID
    }

    fn deleted(&self) -> (d: bool) {
        self.Deleted
    }

    fn copy_row(&self) -> (r: Self) {
        self.clone()
    }
}

/// The first position at or after `p` of a row with identifier `u`, or the
/// number of rows where there is none.
pub open spec fn key_pos_from<T: TableRow>(rows: Seq<T>, u: FlexUuid, p: int) -> int
    decreases rows.len() - p,
{
    if p >= rows.len() {
        rows.len() as int
    } else if rows[p].spec_key() == u {
        p
    } else {
        key_pos_from(rows, u, p + 1)
    }
}

/// The position of the first row with identifier `u`, or the number of rows.
pub open spec fn key_pos<T: TableRow>(rows: Seq<T>, u: FlexUuid) -> int {
    key_pos_from(rows, u, 0)
}

/// Some row has identifier `u`.
pub open spec fn has_key<T: TableRow>(rows: Seq<T>, u: FlexUuid) -> bool {
    exists|i: int| 0 <= i < rows.len() && rows[i].spec_key() == u
}

/// No two rows share an identifier (the primary-key constraint).
pub open spec fn keys_unique<T: TableRow>(rows: Seq<T>) -> bool {
    forall|i: int, j: int|
        0 <= i < j < rows.len() ==> rows[i].spec_key() != rows[j].spec_key()
}

/// `key_pos_from` finds the first row with the identifier at or after `p`.
pub proof fn lemma_key_pos_from<T: TableRow>(rows: Seq<T>, u: FlexUuid, p: int)
    requires
        0 <= p,
    ensures
        p <= rows.len() ==> p <= key_pos_from(rows, u, p) <= rows.len(),
        p > rows.len() ==> key_pos_from(rows, u, p) == rows.len(),
        key_pos_from(rows, u, p) < rows.len() ==> rows[key_pos_from(rows, u, p)].spec_key() == u,
        forall|k: int| p <= k < key_pos_from(rows, u, p) ==> rows[k].spec_key() != u,
    decreases rows.len() - p,
{
    if p < rows.len() && rows[p].spec_key() != u {
        lemma_key_pos_from(rows, u, p + 1);
    }
}

/// `key_pos` is the first position holding the identifier, and it is found
/// exactly when some row holds it.
pub proof fn lemma_key_pos<T: TableRow>(rows: Seq<T>, u: FlexUuid)
    ensures
        0 <= key_pos(rows, u) <= rows.len(),
        key_pos(rows, u) < rows.len() <==> has_key(rows, u),
        key_pos(rows, u) < rows.len() ==> rows[key_pos(rows, u)].spec_key() == u,
        forall|k: int| 0 <= k < key_pos(rows, u) ==> rows[k].spec_key() != u,
{
    lemma_key_pos_from(rows, u, 0);
}

/// The position of the first row with identifier `u`.
pub fn find_row<T: TableRow>(rows: &Vec<T>, u: &FlexUuid) -> (r: Option<usize>)
    ensures
        r is None <==> !has_key(rows@, *u),
        r matches Some(i) ==> i == key_pos(rows@, *u) && i < rows.len(),
        r is None ==> key_pos(rows@, *u) == rows.len(),
{
    proof {
        lemma_key_pos(rows@, *u);
    }
    let mut k: usize = 0;
    while k < rows.len()
        invariant
            k <= rows.len(),
            key_pos_from(rows@, *u, k as int) == key_pos(rows@, *u),
        decreases rows.len() - k,
    {
        if rows[k].key() == *u {
            return Some(k);
        }
        k = k + 1;
    }
    None
}

/// `rows` with `row` appended where no row has its identifier yet.
pub open spec fn insert_if_absent<T: TableRow>(rows: Seq<T>, row: T) -> Seq<T> {
    if has_key(rows, row.spec_key()) {
        rows
    } else {
        rows.push(row)
    }
}

/// Inserting where the identifier is new keeps identifiers unique.
pub proof fn lemma_insert_if_absent_unique<T: TableRow>(rows: Seq<T>, row: T)
    requires
        keys_unique(rows),
    ensures
        keys_unique(insert_if_absent(rows, row)),
{
    let r = insert_if_absent(rows, row);
    if !has_key(rows, row.spec_key()) {
        assert forall|i: int, j: int| 0 <= i < j < r.len() implies r[i].spec_key()
            != r[j].spec_key() by {
            if j == rows.len() {
                assert(r[i] == rows[i]);
            } else {
                assert(r[i] == rows[i] && r[j] == rows[j]);
            }
        }
    }
}

/// Inserts a row unless its identifier is taken (the primary key refuses it);
/// says whether it was inserted.
pub fn insert_row<T: TableRow>(rows: &mut Vec<T>, row: T) -> (inserted: bool)
    ensures
        inserted == !has_key(old(rows)@, row.spec_key()),
        final(rows)@ == insert_if_absent(old(rows)@, row),
{
    let k = row.key();
    match find_row(rows, &k) {
        Some(_) => false,
        None => {
            rows.push(row);
            true
        },
    }
}

/// `rows` followed by each of `incoming` in turn, each one only where its
/// identifier is not taken yet.
pub open spec fn insert_all_if_absent<T: TableRow>(rows: Seq<T>, incoming: Seq<T>) -> Seq<T>
    decreases incoming.len(),
{
    if incoming.len() == 0 {
        rows
    } else {
        insert_if_absent(insert_all_if_absent(rows, incoming.drop_last()), incoming.last())
    }
}

/// Inserts each of `incoming` in turn, skipping those whose identifier is taken.
pub fn insert_rows<T: TableRow>(rows: &mut Vec<T>, incoming: &Vec<T>)
    ensures
        final(rows)@ == insert_all_if_absent(old(rows)@, incoming@),
{
    let ghost start = rows@;
    let mut k: usize = 0;
    while k < incoming.len()
        invariant
            k <= incoming.len(),
            rows@ == insert_all_if_absent(start, incoming@.take(k as int)),
        decreases incoming.len() - k,
    {
        proof {
            assert(incoming@.take(k + 1).drop_last() == incoming@.take(k as int));
        }
        let row = incoming[k].copy_row();
        insert_row(rows, row);
        k = k + 1;
    }
    proof {
        assert(incoming@.take(incoming.len() as int) == incoming@);
    }
}

/// Inserting a sequence of rows keeps identifiers unique.
pub proof fn lemma_insert_all_unique<T: TableRow>(rows: Seq<T>, incoming: Seq<T>)
    requires
        keys_unique(rows),
    ensures
        keys_unique(insert_all_if_absent(rows, incoming)),
    decreases incoming.len(),
{
    if incoming.len() > 0 {
        lemma_insert_all_unique(rows, incoming.drop_last());
        lemma_insert_if_absent_unique(insert_all_if_absent(rows, incoming.drop_last()), incoming.last());
    }
}

/// The rows not marked deleted, in table order.
pub open spec fn live_rows<T: TableRow>(rows: Seq<T>) -> Seq<T>
    decreases rows.len(),
{
    if rows.len() == 0 {
        Seq::empty()
    } else if rows.last().spec_deleted() {
        live_rows(rows.drop_last())
    } else {
        live_rows(rows.drop_last()).push(rows.last())
    }
}

/// The first `limit` entries of `s` (all of them where there are fewer).
pub open spec fn take_at_most<T>(s: Seq<T>, limit: nat) -> Seq<T> {
    if s.len() <= limit {
        s
    } else {
        s.take(limit as int)
    }
}

/// The first `limit` rows not marked deleted, in table order.
pub fn live_rows_limited<T: TableRow>(rows: &Vec<T>, limit: usize) -> (r: Vec<T>)
    ensures
        r@ == take_at_most(live_rows(rows@), limit as nat),
{
    let mut r: Vec<T> = Vec::new();
    let mut k: usize = 0;
    while k < rows.len()
        invariant
            k <= rows.len(),
            r@ == take_at_most(live_rows(rows@.take(k as int)), limit as nat),
        decreases rows.len() - k,
    {
        proof {
            assert(rows@.take(k + 1).drop_last() == rows@.take(k as int));
            assert(rows@.take(k + 1).last() == rows@[k as int]);
        }
        if !rows[k].deleted() {
            let ghost prev = live_rows(rows@.take(k as int));
            if r.len() < limit {
                r.push(rows[k].copy_row());
            } else {
                proof {
                    assert(prev.push(rows@[k as int]).take(limit as int) == prev.take(limit as int));
                }
            }
        }
        k = k + 1;
    }
    proof {
        assert(rows@.take(rows.len() as int) == rows@);
    }
    r
}

/// Every row listed as live is not marked deleted.
pub proof fn lemma_live_rows_not_deleted<T: TableRow>(rows: Seq<T>)
    ensures
        forall|i: int| 0 <= i < live_rows(rows).len() ==> !(#[trigger] live_rows(rows)[i]).spec_deleted(),
        live_rows(rows).len() <= rows.len(),
    decreases rows.len(),
{
    if rows.len() > 0 {
        lemma_live_rows_not_deleted(rows.drop_last());
    }
}


/// Inserting keeps every row already there, in place, and afterwards every
/// incoming identifier is present.
pub proof fn lemma_insert_all_keeps_rows<T: TableRow>(rows: Seq<T>, incoming: Seq<T>)
    ensures
        insert_all_if_absent(rows, incoming).len() >= rows.len(),
        insert_all_if_absent(rows, incoming).take(rows.len() as int) == rows,
        forall|k: int|
            0 <= k < incoming.len() ==> has_key(insert_all_if_absent(rows, incoming), #[trigger] incoming[k].spec_key()),
        forall|k: int|
            0 <= k < rows.len() ==> has_key(insert_all_if_absent(rows, incoming), #[trigger] rows[k].spec_key()),
    decreases incoming.len(),
{
    if incoming.len() > 0 {
        let d = incoming.drop_last();
        lemma_insert_all_keeps_rows(rows, d);
        let prev = insert_all_if_absent(rows, d);
        let cur = insert_all_if_absent(rows, incoming);
        let x = incoming.last();
        assert(cur == insert_if_absent(prev, x));
        if !has_key(prev, x.spec_key()) {
            assert(cur.take(rows.len() as int) == prev.take(rows.len() as int));
            assert(cur[prev.len() as int] == x);
        }
        assert forall|k: int| 0 <= k < incoming.len() implies has_key(cur, #[trigger] incoming[k].spec_key()) by {
            if k < d.len() {
                assert(d[k] == incoming[k]);
                let w = choose|w: int| 0 <= w < prev.len() && prev[w].spec_key() == d[k].spec_key();
                assert(cur[w] == prev[w]);
            } else if has_key(prev, x.spec_key()) {
                let w = choose|w: int| 0 <= w < prev.len() && prev[w].spec_key() == x.spec_key();
                assert(cur[w] == prev[w]);
            } else {
                assert(cur[prev.len() as int] == x);
            }
        }
        assert forall|k: int| 0 <= k < rows.len() implies has_key(cur, #[trigger] rows[k].spec_key()) by {
            let w = choose|w: int| 0 <= w < prev.len() && prev[w].spec_key() == rows[k].spec_key();
            assert(cur[w] == prev[w]);
        }
    }
}

/// Inserting rows whose identifiers are all taken changes nothing.
pub proof fn lemma_insert_all_present_changes_nothing<T: TableRow>(rows: Seq<T>, incoming: Seq<T>)
    requires
        forall|k: int| 0 <= k < incoming.len() ==> has_key(rows, #[trigger] incoming[k].spec_key()),
    ensures
        insert_all_if_absent(rows, incoming) == rows,
    decreases incoming.len(),
{
    if incoming.len() > 0 {
        let d = incoming.drop_last();
        assert forall|k: int| 0 <= k < d.len() implies has_key(rows, #[trigger] d[k].spec_key()) by {
            assert(d[k] == incoming[k]);
        }
        lemma_insert_all_present_changes_nothing(rows, d);
        assert(has_key(rows, incoming[incoming.len() - 1].spec_key()));
    }
}

/// Inserting rows with the same identifiers a second time changes nothing.
pub proof fn lemma_insert_all_twice<T: TableRow>(rows: Seq<T>, incoming: Seq<T>, again: Seq<T>)
    requires
        again.len() == incoming.len(),
        forall|k: int| 0 <= k < again.len() ==> (#[trigger] again[k]).spec_key() == incoming[k].spec_key(),
    ensures
        insert_all_if_absent(insert_all_if_absent(rows, incoming), again) == insert_all_if_absent(
            rows,
            incoming,
        ),
{
    lemma_insert_all_keeps_rows(rows, incoming);
    let r = insert_all_if_absent(rows, incoming);
    assert forall|k: int| 0 <= k < again.len() implies has_key(r, #[trigger] again[k].spec_key()) by {
        assert(has_key(r, incoming[k].spec_key()));
    }
    lemma_insert_all_present_changes_nothing(r, again);
}


/// Tables whose rows carry the same identifiers, in the same places, find an
/// identifier at the same place.
pub proof fn lemma_key_pos_same_keys<T: TableRow>(a: Seq<T>, b: Seq<T>, u: FlexUuid, p: int)
    requires
        a.len() == b.len(),
        0 <= p,
        forall|k: int| 0 <= k < a.len() ==> (#[trigger] a[k]).spec_key() == b[k].spec_key(),
    ensures
        key_pos_from(a, u, p) == key_pos_from(b, u, p),
    decreases a.len() - p,
{
    if p < a.len() {
        assert(a[p].spec_key() == b[p].spec_key());
        lemma_key_pos_same_keys(a, b, u, p + 1);
    }
}

/// The live rows of a table with unique identifiers, and any first part of
/// them, have unique identifiers too.
pub proof fn lemma_live_rows_unique<T: TableRow>(rows: Seq<T>, limit: nat)
    requires
        keys_unique(rows),
    ensures
        keys_unique(live_rows(rows)),
        keys_unique(take_at_most(live_rows(rows), limit)),
    decreases rows.len(),
{
    if rows.len() > 0 {
        let d = rows.drop_last();
        assert(keys_unique(d)) by {
            assert forall|i: int, j: int| 0 <= i < j < d.len() implies d[i].spec_key() != d[j].spec_key() by {
                assert(d[i] == rows[i] && d[j] == rows[j]);
            }
        }
        lemma_live_rows_unique(d, limit);
        crate::apiv1::lemma_live_rows_members(d);
        let prev = live_rows(d);
        let cur = live_rows(rows);
        if !rows.last().spec_deleted() {
            assert forall|i: int, j: int| 0 <= i < j < cur.len() implies cur[i].spec_key() != cur[j].spec_key() by {
                assert(cur[i] == prev[i]);
                if j < prev.len() {
                    assert(cur[j] == prev[j]);
                } else {
                    let k = choose|k: int| 0 <= k < d.len() && d[k] == #[trigger] prev[i];
                    assert(rows[k] == d[k]);
                    assert(cur[j] == rows[rows.len() - 1]);
                }
            }
        }
    }
    let l = live_rows(rows);
    let t = take_at_most(l, limit);
    assert forall|i: int, j: int| 0 <= i < j < t.len() implies t[i].spec_key() != t[j].spec_key() by {
        assert(t[i] == l[i] && t[j] == l[j]);
    }
}

/// Inserting rows with unique identifiers into an empty table stores exactly
/// those rows, in order.
pub proof fn lemma_insert_all_into_empty<T: TableRow>(incoming: Seq<T>)
    requires
        keys_unique(incoming),
    ensures
        insert_all_if_absent(Seq::<T>::empty(), incoming) == incoming,
    decreases incoming.len(),
{
    if incoming.len() > 0 {
        let d = incoming.drop_last();
        assert(keys_unique(d)) by {
            assert forall|i: int, j: int| 0 <= i < j < d.len() implies d[i].spec_key() != d[j].spec_key() by {
                assert(d[i] == incoming[i] && d[j] == incoming[j]);
            }
        }
        lemma_insert_all_into_empty(d);
        let x = incoming.last();
        assert(!has_key(d, x.spec_key())) by {
            if has_key(d, x.spec_key()) {
                let k = choose|k: int| 0 <= k < d.len() && d[k].spec_key() == x.spec_key();
                assert(incoming[k] == d[k]);
            }
        }
        assert(d.push(x) == incoming);
    }
}

/// The live rows are the rows that a predicate keeps, where the predicate
/// keeps exactly the rows not marked deleted.
pub proof fn lemma_live_rows_filter<T: TableRow>(rows: Seq<T>, keep: spec_fn(T) -> bool)
    requires
        forall|x: T| #[trigger] keep(x) == !x.spec_deleted(),
    ensures
        live_rows(rows) == rows.filter(keep),
    decreases rows.len(),
{
    reveal(Seq::filter);
    if rows.len() > 0 {
        lemma_live_rows_filter(rows.drop_last(), keep);
        assert(keep(rows.last()) == !rows.last().spec_deleted());
    }
}

/// Each table is keyed by its own identifier column, and a row counts as
/// deleted exactly where its `Deleted` flag is set.
pub proof fn lemma_row_keys_and_flags(p: FloorPlan, m: FloorMap, o: MapObject, u: Upload, s: Service)
    ensures
        p.spec_key() == p.FloorPlanUUID && p.spec_deleted() == p.Deleted,
        m.spec_key() == m.FloorMapUUID && m.spec_deleted() == m.Deleted,
        o.spec_key() == o.MapObjectUUID && o.spec_deleted() == o.Deleted,
        u.spec_key() == u.UploadUUID && u.spec_deleted() == u.Deleted,
        s.spec_key() == s.ServiceUUID && s.spec_deleted() == s.Deleted,
{
}

} // verus!
