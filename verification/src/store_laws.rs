use vstd::prelude::*;
use crate::block::BlockDataInfo;
use crate::block::BlockStorage;
use crate::block::TextureMapper;
use crate::chunk_column::ColumnState;
use crate::chunk_column::fresh_column;
use crate::chunk_column::lemma_apply_parts;
use crate::chunk_column::settle;
use crate::chunk_column::well_formed;
use crate::chunk_data::SectionData;
use crate::chunk_generator::geometry_of;
use crate::chunk_section::GeometryData;
use crate::chunk_section::with_geometry;
use crate::chunks_table::ChunkKey;
use crate::chunks_table::SectionKey;
use crate::near_chunk_data::neighbors_full;
use crate::position::BlockPosition;
use crate::position::ChunkPosition;
use crate::queue::is_not;
use crate::queue::keep;
use crate::queue::lemma_drop_last;
use crate::queue::lemma_keep;
use crate::queue::lemma_keep_everything;
use crate::queue::lemma_keep_nothing;
use crate::queue::lemma_keep_sorted;
use crate::queue::lemma_push_contains;
use crate::queue::lemma_sort_by_distance;
use crate::queue::sort_by_distance;
use crate::queue::sorted_by_distance;
use crate::store_state::ChunkStage;
use crate::store_state::column_of;
use crate::store_state::first_ready;
use crate::store_state::is_full_in;
use crate::store_state::is_short_in;
use crate::store_state::not_among;
use crate::store_state::section_cells;
use crate::store_state::stale_sections;
use crate::store_state::StoreState;

verus! {

/// A member of two queues one after the other is a member of one of them; without a
/// common member and without repeats in either, the whole has no repeats.
pub proof fn lemma_add_contains(a: Seq<ChunkPosition>, b: Seq<ChunkPosition>)
    ensures
        forall|q: ChunkPosition| #[trigger] (a + b).contains(q) <==> a.contains(q) || b.contains(q),
        a.no_duplicates() && b.no_duplicates() && (forall|q: ChunkPosition|
            a.contains(q) ==> !b.contains(q)) ==> (a + b).no_duplicates(),
{
    assert forall|q: ChunkPosition| #[trigger] (a + b).contains(q) <==> a.contains(q) || b.contains(q) by {
        if (a + b).contains(q) {
            let i = choose|i: int| 0 <= i < (a + b).len() && (a + b)[i] == q;
            if i < a.len() {
                assert(a[i] == q);
            } else {
                assert(b[i - a.len()] == q);
            }
        }
        if a.contains(q) {
            let i = choose|i: int| 0 <= i < a.len() && a[i] == q;
            assert((a + b)[i] == q);
        }
        if b.contains(q) {
            let i = choose|i: int| 0 <= i < b.len() && b[i] == q;
            assert((a + b)[a.len() + i] == q);
        }
    }
    if a.no_duplicates() && b.no_duplicates() && (forall|q: ChunkPosition|
        a.contains(q) ==> !b.contains(q)) {
        assert forall|i: int, j: int|
            0 <= i < (a + b).len() && 0 <= j < (a + b).len() && i != j implies (a + b)[i] != (a + b)[j] by {
            if i < a.len() && j >= a.len() {
                assert(a.contains(a[i]));
                assert(b.contains(b[j - a.len()]));
            }
            if j < a.len() && i >= a.len() {
                assert(a.contains(a[j]));
                assert(b.contains(b[i - a.len()]));
            }
        }
    }
}

/// Admitting keeps a store well formed.
pub proof fn lemma_admitting_wf(s: StoreState)
    requires
        s.wf(),
    ensures
        s.admitting().wf(),
{
    let full = is_full_in(s.present());
    let short = is_short_in(s.present());
    lemma_keep(s.received, full);
    lemma_keep(s.received, short);
    lemma_add_contains(s.loading, keep(s.received, full));
}

/// A waiting column is admitted exactly when all four of its neighbours are present,
/// whatever the order in which the columns arrived: a column that waits is among the
/// admitted ones afterwards if and only if the store holds its four neighbours, and it
/// goes on waiting otherwise.
pub proof fn lemma_admitted_iff_neighbors_present(s: StoreState, p: ChunkPosition)
    requires
        s.wf(),
        s.stage(p) == Some(ChunkStage::Waiting),
    ensures
        s.admitting().stage(p) == Some(ChunkStage::Admitted) <==> neighbors_full(s.present(), p),
        s.admitting().stage(p) == Some(ChunkStage::Waiting) <==> !neighbors_full(s.present(), p),
{
    let full = is_full_in(s.present());
    let short = is_short_in(s.present());
    lemma_keep(s.received, full);
    lemma_keep(s.received, short);
    lemma_add_contains(s.loading, keep(s.received, full));
}

/// A column that arrives is admitted at once exactly when the store holds its four
/// neighbours, and waits otherwise.
pub proof fn lemma_with_column_stage(s: StoreState, center: ChunkPosition, p: ChunkPosition, given: Seq<SectionData>)
    requires
        s.wf(),
        !s.columns.contains_key(p.key()),
    ensures
        neighbors_full(s.present(), p) ==> s.with_column(center, p, given).stage(p) == Some(
            ChunkStage::Admitted,
        ),
        !neighbors_full(s.present(), p) ==> s.with_column(center, p, given).stage(p) == Some(
            ChunkStage::Waiting,
        ),
{
    let filed = StoreState {
        columns: s.columns.insert(p.key(), fresh_column(p, given)),
        received: sort_by_distance(s.received.push(p), center),
        ..s
    };
    lemma_push_contains(s.received, p);
    lemma_sort_by_distance(s.received.push(p), center);
    lemma_keep(filed.received, is_full_in(filed.present()));
    lemma_keep(filed.received, is_short_in(filed.present()));
    lemma_add_contains(filed.loading, keep(filed.received, is_full_in(filed.present())));
    assert(filed.received.contains(p));
    assert(!s.loading.contains(p));
    // a column is no neighbour of itself
    assert(neighbors_full(filed.present(), p) == neighbors_full(s.present(), p));
}

/// Admitting twice is admitting once.
pub proof fn lemma_admitting_idempotent(s: StoreState)
    requires
        s.wf(),
    ensures
        s.admitting().admitting() == s.admitting(),
{
    let full = is_full_in(s.present());
    let short = is_short_in(s.present());
    let waiting = keep(s.received, short);
    lemma_keep(s.received, short);
    lemma_keep_nothing(waiting, full);
    lemma_keep_everything(waiting, short);
    assert(s.admitting().loading + Seq::<ChunkPosition>::empty() =~= s.admitting().loading);
}

/// Filing a new column and queueing its coordinate keeps a store well formed.
pub proof fn lemma_filed_wf(s: StoreState, center: ChunkPosition, p: ChunkPosition, given: Seq<SectionData>)
    requires
        s.wf(),
        !s.columns.contains_key(p.key()),
        forall|i: int| 0 <= i < given.len() ==> (#[trigger] given[i]).wf(),
    ensures
        (StoreState {
            columns: s.columns.insert(p.key(), fresh_column(p, given)),
            received: sort_by_distance(s.received.push(p), center),
            ..s
        }).wf(),
        s.with_column(center, p, given).wf(),
{
    let filed = StoreState {
        columns: s.columns.insert(p.key(), fresh_column(p, given)),
        received: sort_by_distance(s.received.push(p), center),
        ..s
    };
    lemma_push_contains(s.received, p);
    lemma_sort_by_distance(s.received.push(p), center);
    assert(well_formed(fresh_column(p, given)));
    assert forall|q: ChunkPosition| #[trigger] filed.received.contains(q) implies !filed.loading.contains(
        q,
    ) && filed.columns.contains_key(q.key()) by {
        assert(s.received.push(p).contains(q));
        if q != p {
            assert(s.received.contains(q));
        }
    }
    assert forall|q: ChunkPosition| #[trigger] filed.loading.contains(q) implies filed.columns.contains_key(
        q.key(),
    ) by {}
    lemma_admitting_wf(filed);
}

/// Tests that agree on every member keep the same members.
pub proof fn lemma_keep_congruent(
    s: Seq<ChunkPosition>,
    f: spec_fn(ChunkPosition) -> bool,
    g: spec_fn(ChunkPosition) -> bool,
)
    requires
        forall|q: ChunkPosition| s.contains(q) ==> f(q) == g(q),
    ensures
        keep(s, f) == keep(s, g),
    decreases s.len(),
{
    if s.len() > 0 {
        lemma_drop_last(s);
        lemma_keep_congruent(s.drop_last(), f, g);
        assert(s.contains(s.last()));
    }
}

/// The columns chosen for the making are members of the queue, in the queue's order,
/// all with their four neighbours present, and no more than the limit.
pub proof fn lemma_first_ready(queue: Seq<ChunkPosition>, present: Set<ChunkKey>, limit: nat)
    ensures
        first_ready(queue, present, limit).len() <= limit,
        first_ready(queue, present, limit).len() <= queue.len(),
        forall|q: ChunkPosition| #[trigger]
            first_ready(queue, present, limit).contains(q) ==> queue.contains(q) && neighbors_full(
                present,
                q,
            ),
        queue.no_duplicates() ==> first_ready(queue, present, limit).no_duplicates(),
{
    let ready = keep(queue, is_full_in(present));
    lemma_keep(queue, is_full_in(present));
    let chosen = first_ready(queue, present, limit);
    assert forall|q: ChunkPosition| #[trigger] chosen.contains(q) implies ready.contains(q) by {
        let i = choose|i: int| 0 <= i < chosen.len() && chosen[i] == q;
        assert(ready[i] == q);
    }
}

/// How the choice grows with the queue: a new last member is chosen where it has its
/// four neighbours and the limit is not reached, and stays in the queue otherwise.
pub proof fn lemma_first_ready_step(
    queue: Seq<ChunkPosition>,
    p: ChunkPosition,
    present: Set<ChunkKey>,
    limit: nat,
)
    requires
        queue.push(p).no_duplicates(),
    ensures
        neighbors_full(present, p) && first_ready(queue, present, limit).len() < limit ==> {
            &&& first_ready(queue.push(p), present, limit) == first_ready(queue, present, limit).push(p)
            &&& keep(queue.push(p), not_among(first_ready(queue.push(p), present, limit))) == keep(
                queue,
                not_among(first_ready(queue, present, limit)),
            )
        },
        !(neighbors_full(present, p) && first_ready(queue, present, limit).len() < limit) ==> {
            &&& first_ready(queue.push(p), present, limit) == first_ready(queue, present, limit)
            &&& keep(queue.push(p), not_among(first_ready(queue.push(p), present, limit))) == keep(
                queue,
                not_among(first_ready(queue, present, limit)),
            ).push(p)
        },
{
    let full = is_full_in(present);
    let ready = keep(queue, full);
    let before = first_ready(queue, present, limit);
    let after = first_ready(queue.push(p), present, limit);
    assert(queue.push(p).drop_last() =~= queue);
    assert(queue.push(p).last() == p);
    lemma_first_ready(queue, present, limit);
    lemma_first_ready(queue.push(p), present, limit);
    lemma_push_contains(queue, p);
    assert(!queue.contains(p)) by {
        if queue.contains(p) {
            let i = choose|i: int| 0 <= i < queue.len() && queue[i] == p;
            assert(queue.push(p)[i] == queue.push(p)[queue.len() as int]);
        }
    }
    if neighbors_full(present, p) && before.len() < limit {
        assert(after =~= before.push(p));
        lemma_push_contains(before, p);
        lemma_keep_congruent(queue, not_among(after), not_among(before));
    } else {
        if neighbors_full(present, p) {
            assert(after =~= before);
        }
        assert(after == before);
    }
}

/// Sending columns into the making keeps a store well formed, and leaves no more
/// columns in the making than the limit allows or than were in the making before.
pub proof fn lemma_promote_wf(s: StoreState, limit: nat)
    requires
        s.wf(),
    ensures
        s.promote(limit).wf(),
        s.generating.len() <= limit ==> s.promote(limit).generating.len() <= limit,
{
    lemma_keep(s.loading, not_among(s.promoted(limit)));
    lemma_first_ready(s.loading, s.present(), s.budget(limit));
    lemma_add_contains(s.generating, s.promoted(limit));
}

/// Unloading a column keeps a store well formed.
pub proof fn lemma_without_column_wf(s: StoreState, p: ChunkPosition)
    requires
        s.wf(),
    ensures
        s.without_column(p).wf(),
{
    lemma_keep(s.received, is_not(p));
    lemma_keep(s.loading, is_not(p));
    lemma_keep(s.generating, is_not(p));
    assert forall|q: ChunkPosition| q != p implies q.key() != p.key() by {}
}

/// Changing a block of a column that is there, in a section that it has, keeps a store
/// well formed.
pub proof fn lemma_with_block_wf(
    s: StoreState,
    storage: BlockStorage,
    position: BlockPosition,
    new_block: Option<BlockDataInfo>,
)
    requires
        s.wf(),
        s.columns.contains_key(position.chunk().key()),
        0 <= position.section() < 8,
    ensures
        s.with_block(storage, position, new_block).wf(),
{
    let k = position.chunk().key();
    assert(s.columns.contains_key(k));
    assert(well_formed(s.columns[k]));
    assert(position.local().in_section());
}

/// Attaching the result of a job keeps a store well formed.
pub proof fn lemma_attach_wf(s: StoreState, p: ChunkPosition, parts: Seq<(int, GeometryData)>)
    requires
        s.wf(),
    ensures
        s.attach(p, parts).wf(),
{
    if s.stage(p) == Some(ChunkStage::Generating) {
        assert(s.columns.contains_key(p.key()));
        assert(well_formed(s.columns[p.key()]));
        lemma_apply_parts(s.columns[p.key()].sections, parts);
        lemma_keep(s.generating, is_not(p));
        assert forall|q: ChunkPosition| q != p implies q.key() != p.key() by {}
    }
}

/// Attaching results changes neither the two queues of arrived columns nor the stale
/// sections nor which columns the store holds, adds no column to those in the making,
/// and keeps the store well formed.
pub proof fn lemma_attach_all(s: StoreState, results: Seq<(ChunkPosition, Seq<(int, GeometryData)>)>)
    requires
        s.wf(),
    ensures
        s.attach_all(results).wf(),
        s.attach_all(results).received == s.received,
        s.attach_all(results).loading == s.loading,
        s.attach_all(results).dirty == s.dirty,
        s.attach_all(results).present() == s.present(),
        s.attach_all(results).generating.len() <= s.generating.len(),
        s.attached(results).len() <= results.len(),
    decreases results.len(),
{
    if results.len() > 0 {
        lemma_attach_all(s, results.drop_last());
        let before = s.attach_all(results.drop_last());
        lemma_attach_wf(before, results.last().0, results.last().1);
        lemma_keep(before.generating, is_not(results.last().0));
        assert(before.attach(results.last().0, results.last().1).present() =~= before.present());
    }
}

/// The result of a job whose column was unloaded in the meantime is dropped: the store
/// stays as it is, and nothing is attached to a column that is gone.
pub proof fn lemma_attach_after_unload(s: StoreState, p: ChunkPosition, parts: Seq<(int, GeometryData)>)
    requires
        s.wf(),
    ensures
        s.without_column(p).stage(p) is None,
        s.without_column(p).attach(p, parts) == s.without_column(p),
        !s.without_column(p).attach(p, parts).columns.contains_key(p.key()),
{
}

/// A result is attached only to a column that is in the making, which is shown
/// afterwards; every other column stays as it is.
pub proof fn lemma_attach_stage(s: StoreState, p: ChunkPosition, parts: Seq<(int, GeometryData)>, q: ChunkPosition)
    requires
        s.wf(),
    ensures
        s.stage(p) == Some(ChunkStage::Generating) ==> s.attach(p, parts).stage(p) == Some(
            ChunkStage::Active,
        ),
        s.stage(p) != Some(ChunkStage::Generating) ==> s.attach(p, parts) == s,
        q != p ==> s.attach(p, parts).stage(q) == s.stage(q) && (s.columns.contains_key(q.key())
            ==> s.attach(p, parts).columns[q.key()] == s.columns[q.key()]),
{
    assert(q != p ==> q.key() != p.key());
    lemma_keep(s.generating, is_not(p));
}

/// Every column whose result was attached was in the making before and is shown
/// afterwards.
pub proof fn lemma_attached_are_active(
    s: StoreState,
    results: Seq<(ChunkPosition, Seq<(int, GeometryData)>)>,
    p: ChunkPosition,
)
    requires
        s.wf(),
    ensures
        s.attached(results).contains(p) ==> s.stage(p) == Some(ChunkStage::Generating)
            && s.attach_all(results).stage(p) == Some(ChunkStage::Active),
        s.stage(p) != Some(ChunkStage::Generating) ==> s.attach_all(results).stage(p) == s.stage(p),
    decreases results.len(),
{
    if results.len() > 0 {
        let head = results.drop_last();
        let before = s.attach_all(head);
        let q = results.last().0;
        lemma_attached_are_active(s, head, p);
        lemma_attached_are_active(s, head, q);
        lemma_attach_all(s, head);
        lemma_attach_stage(before, q, results.last().1, p);
        lemma_push_contains(s.attached(head), q);
    }
}

/// A change of one block makes stale the section of the block and at most one section
/// along each axis, each of them next to the block's section: nothing spreads further
/// than one step.
pub proof fn lemma_stale_is_one_step(present: Set<ChunkKey>, position: BlockPosition, d: SectionKey)
    requires
        0 <= position.section() < 8,
        stale_sections(present, position).contains(d),
    ensures
        ({
            let c = position.chunk();
            let s = position.section();
            let dx = if d.0 >= c.x { d.0 - c.x } else { c.x - d.0 };
            let dz = if d.1 >= c.z { d.1 - c.z } else { c.z - d.1 };
            let dy = if d.2 >= s { d.2 - s } else { s - d.2 };
            &&& dx + dy + dz <= 1
            &&& d.2 < 8
            &&& dx + dz == 1 ==> present.contains((d.0, d.1))
        }),
{
}

/// Where the loading queue is ordered by distance to `center` and no two of its columns
/// are equally far, the columns sent into the making are the closest that have their
/// four neighbours: each of them is closer than every column with four neighbours that
/// stays behind, and they are as many as the budget allows.
pub proof fn lemma_promotion_fair(
    s: StoreState,
    limit: nat,
    center: ChunkPosition,
    p: ChunkPosition,
    q: ChunkPosition,
)
    requires
        s.wf(),
        sorted_by_distance(s.loading, center),
        forall|i: int, j: int|
            0 <= i < j < s.loading.len() ==> s.loading[i].distance_squared(center)
                != s.loading[j].distance_squared(center),
        s.promoted(limit).contains(p),
        s.loading.contains(q),
        neighbors_full(s.present(), q),
        !s.promoted(limit).contains(q),
    ensures
        p.distance_squared(center) < q.distance_squared(center),
        s.promoted(limit).len() == s.budget(limit),
{
    let full = is_full_in(s.present());
    let ready = keep(s.loading, full);
    let chosen = s.promoted(limit);
    let budget = s.budget(limit);
    lemma_keep(s.loading, full);
    lemma_keep_sorted(s.loading, full, center);
    assert(ready.contains(q));
    let j = choose|j: int| 0 <= j < ready.len() && ready[j] == q;
    let i = choose|i: int| 0 <= i < chosen.len() && chosen[i] == p;
    if ready.len() <= budget {
        assert(chosen[j] == q);
    }
    assert(ready[i] == p);
    if j < budget {
        assert(chosen[j] == q);
    }
    assert(i < j);
    let a = choose|a: int| 0 <= a < s.loading.len() && s.loading[a] == p;
    let b = choose|b: int| 0 <= b < s.loading.len() && s.loading[b] == q;
    assert(ready.contains(p));
    assert(s.loading.contains(p));
    assert(a != b);
}

/// The columns sent into the making are exactly the first of the loading queue that
/// have their four neighbours, as many as there are up to the budget; they are then in
/// the making, and the others stay admitted. With nothing in the making before, the
/// budget is the whole limit.
pub proof fn lemma_promotion_stages(s: StoreState, limit: nat, p: ChunkPosition)
    requires
        s.wf(),
        s.stage(p) == Some(ChunkStage::Admitted),
    ensures
        s.promoted(limit).contains(p) ==> s.promote(limit).stage(p) == Some(ChunkStage::Generating),
        !s.promoted(limit).contains(p) ==> s.promote(limit).stage(p) == Some(ChunkStage::Admitted),
        s.promoted(limit).len() <= s.budget(limit),
        s.generating.len() == 0 ==> s.budget(limit) == limit,
        keep(s.loading, is_full_in(s.present())).len() >= s.budget(limit) ==> s.promoted(limit).len()
            == s.budget(limit),
        keep(s.loading, is_full_in(s.present())).len() <= s.budget(limit) ==> s.promoted(limit) == keep(
            s.loading,
            is_full_in(s.present()),
        ),
{
    lemma_keep(s.loading, not_among(s.promoted(limit)));
    lemma_first_ready(s.loading, s.present(), s.budget(limit));
    lemma_add_contains(s.generating, s.promoted(limit));
}

/// No more columns are in the making after a frame's sending than the limit allows,
/// provided that no more were before.
pub proof fn lemma_making_is_bounded(s: StoreState, limit: nat)
    requires
        s.wf(),
        s.generating.len() <= limit,
    ensures
        s.promote(limit).generating.len() <= limit,
{
    lemma_promote_wf(s, limit);
}

/// Columns admitted from a received queue that is ordered by distance join an empty
/// loading queue in that order.
pub proof fn lemma_admitted_in_order(s: StoreState, center: ChunkPosition)
    requires
        s.wf(),
        s.loading.len() == 0,
        sorted_by_distance(s.received, center),
    ensures
        sorted_by_distance(s.admitting().loading, center),
        sorted_by_distance(s.admitting().received, center),
{
    lemma_keep_sorted(s.received, is_full_in(s.present()), center);
    lemma_keep_sorted(s.received, is_short_in(s.present()), center);
    assert(s.loading + keep(s.received, is_full_in(s.present())) =~= keep(
        s.received,
        is_full_in(s.present()),
    ));
}

/// After a column arrived, the columns that still wait are ordered by their distance to
/// the centre named with it.
pub proof fn lemma_with_column_sorted(s: StoreState, center: ChunkPosition, p: ChunkPosition, given: Seq<SectionData>)
    requires
        s.wf(),
    ensures
        sorted_by_distance(s.with_column(center, p, given).received, center),
{
    lemma_sort_by_distance(s.received.push(p), center);
    let sorted = sort_by_distance(s.received.push(p), center);
    let present = s.columns.insert(p.key(), fresh_column(p, given)).dom();
    lemma_keep_sorted(sorted, is_short_in(present), center);
}

/// Marking sections stale keeps a store well formed.
pub proof fn lemma_marked_wf(s: StoreState, position: BlockPosition)
    requires
        s.wf(),
        0 <= position.section() < 8,
    ensures
        s.marked(position).wf(),
        s.marked(position).present() == s.present(),
{
}

/// Marking for the same block a second time leaves the store as the first marking left
/// it: each section is held once, and the set of stale sections does not grow.
pub proof fn lemma_marking_idempotent(s: StoreState, position: BlockPosition)
    ensures
        s.marked(position).marked(position) == s.marked(position),
{
    lemma_mark_twice(s.dirty, s.present(), position);
}

/// Marking the same sections stale a second time changes nothing: a section is stale
/// or it is not, however often it was marked.
pub proof fn lemma_mark_twice(dirty: Set<SectionKey>, present: Set<ChunkKey>, position: BlockPosition)
    ensures
        dirty.union(stale_sections(present, position)).union(stale_sections(present, position))
            == dirty.union(stale_sections(present, position)),
        forall|d: SectionKey| dirty.insert(d).insert(d) == dirty.insert(d),
{
    assert(dirty.union(stale_sections(present, position)).union(stale_sections(present, position))
        =~= dirty.union(stale_sections(present, position)));
    assert forall|d: SectionKey| dirty.insert(d).insert(d) == dirty.insert(d) by {
        assert(dirty.insert(d).insert(d) =~= dirty.insert(d));
    }
}

/// The cells of a bordered section of a column that is there depend on the blocks of
/// the columns only.
pub proof fn lemma_section_cells_same_blocks(
    a: Map<ChunkKey, ColumnState>,
    b: Map<ChunkKey, ColumnState>,
    storage: BlockStorage,
    p: ChunkPosition,
    y: int,
)
    requires
        a.dom() == b.dom(),
        a.contains_key(p.key()),
        forall|k: ChunkKey| a.contains_key(k) ==> (#[trigger] a[k]).data == b[k].data,
    ensures
        section_cells(a, storage, p, y) == section_cells(b, storage, p, y),
{
    if a.contains_key(p.key()) {
        assert(a[p.key()].data == b[p.key()].data);
    }
    assert(crate::store_state::near_cells_at(a, p) == crate::store_state::near_cells_at(b, p)) by {
        assert(crate::store_state::near_data(a, p, -1, 0) == crate::store_state::near_data(b, p, -1, 0));
        assert(crate::store_state::near_data(a, p, 1, 0) == crate::store_state::near_data(b, p, 1, 0));
        assert(crate::store_state::near_data(a, p, 0, -1) == crate::store_state::near_data(b, p, 0, -1));
        assert(crate::store_state::near_data(a, p, 0, 1) == crate::store_state::near_data(b, p, 0, 1));
    }
}

/// Looking at no stale section changes nothing.
pub proof fn lemma_refresh_none(s: StoreState, storage: BlockStorage, atlas: TextureMapper)
    requires
        s.wf(),
    ensures
        s.refresh_some(storage, atlas, Set::empty()) == s,
{
    let r = s.refresh_some(storage, atlas, Set::empty());
    assert(r.dirty =~= s.dirty);
    assert forall|k: ChunkKey| s.columns.contains_key(k) implies #[trigger] r.columns[k] == s.columns[k] by {
        assert(well_formed(s.columns[k]));
        assert(r.columns[k].sections =~= s.columns[k].sections);
    }
    assert(r.columns =~= s.columns);
}

/// What looking at one more stale section does: nothing where a neighbour of its column
/// is missing; it is forgotten where its column is gone; otherwise it is rebuilt from
/// the blocks of its column and the neighbours and is stale no longer.
pub proof fn lemma_refresh_step(
    s: StoreState,
    storage: BlockStorage,
    atlas: TextureMapper,
    done: Set<SectionKey>,
    d: SectionKey,
)
    requires
        s.wf(),
        s.dirty.contains(d),
        !done.contains(d),
    ensures
        ({
            let now = s.refresh_some(storage, atlas, done);
            let next = s.refresh_some(storage, atlas, done.insert(d));
            let k = (d.0, d.1);
            let y = d.2 as int;
            &&& now.present() == s.present()
            &&& now.dirty.contains(d)
            &&& s.columns.contains_key(k) ==> now.columns[k].sections[y] == s.columns[k].sections[y]
                && section_cells(now.columns, storage, column_of(d), y) == section_cells(
                s.columns,
                storage,
                column_of(d),
                y,
            )
            &&& !neighbors_full(s.present(), column_of(d)) ==> next == now
            &&& neighbors_full(s.present(), column_of(d)) && !s.columns.contains_key(k) ==> next
                == (StoreState { dirty: now.dirty.remove(d), ..now })
            &&& neighbors_full(s.present(), column_of(d)) && s.columns.contains_key(k) ==> next
                == (StoreState {
                dirty: now.dirty.remove(d),
                columns: now.columns.insert(
                    k,
                    ColumnState {
                        sections: now.columns[k].sections.update(
                            y,
                            settle(
                                with_geometry(
                                    now.columns[k].sections[y],
                                    geometry_of(
                                        section_cells(now.columns, storage, column_of(d), y),
                                        storage,
                                        atlas,
                                    ),
                                ),
                            ),
                        ),
                        ..now.columns[k]
                    },
                ),
                ..now
            })
        }),
{
    let now = s.refresh_some(storage, atlas, done);
    let next = s.refresh_some(storage, atlas, done.insert(d));
    let k = (d.0, d.1);
    let y = d.2 as int;
    let full = neighbors_full(s.present(), column_of(d));
    assert(now.present() =~= s.present());
    assert(d.2 < 8);
    if s.columns.contains_key(k) {
        lemma_section_cells_same_blocks(now.columns, s.columns, storage, column_of(d), y);
    }
    if !full {
        assert(next.dirty =~= now.dirty);
        assert forall|j: ChunkKey| s.columns.contains_key(j) implies #[trigger] next.columns[j]
            == now.columns[j] by {
            assert(next.columns[j].sections =~= now.columns[j].sections);
        }
        assert(next.columns =~= now.columns);
    } else if !s.columns.contains_key(k) {
        assert(next.dirty =~= now.dirty.remove(d));
        assert forall|j: ChunkKey| s.columns.contains_key(j) implies #[trigger] next.columns[j]
            == now.columns[j] by {
            assert(next.columns[j].sections =~= now.columns[j].sections);
        }
        assert(next.columns =~= now.columns);
    } else {
        assert(next.dirty =~= now.dirty.remove(d));
        lemma_section_cells_same_blocks(now.columns, s.columns, storage, column_of(d), y);
        let target = ColumnState {
            sections: now.columns[k].sections.update(
                y,
                settle(
                    with_geometry(
                        now.columns[k].sections[y],
                        geometry_of(section_cells(now.columns, storage, column_of(d), y), storage, atlas),
                    ),
                ),
            ),
            ..now.columns[k]
        };
        assert(s.rebuilds(d));
        assert(now.columns[k].sections[y] == s.columns[k].sections[y]);
        assert forall|j: ChunkKey| s.columns.contains_key(j) implies #[trigger] next.columns[j]
            == now.columns.insert(k, target)[j] by {
            if j == k {
                assert forall|h: int| 0 <= h < 8 implies next.columns[k].sections[h]
                    == target.sections[h] by {
                    if h != y {
                        assert((k.0, k.1, h as usize) != d);
                    }
                }
                assert(next.columns[k].sections =~= target.sections);
            } else {
                assert forall|h: int| 0 <= h < 8 implies next.columns[j].sections[h]
                    == now.columns[j].sections[h] by {
                    assert((j.0, j.1, h as usize) != d);
                }
                assert(next.columns[j].sections =~= now.columns[j].sections);
            }
        }
        assert(next.columns =~= now.columns.insert(k, target));
    }
}

/// A pass over the stale sections keeps a store well formed.
pub proof fn lemma_refresh_wf(s: StoreState, storage: BlockStorage, atlas: TextureMapper, done: Set<SectionKey>)
    requires
        s.wf(),
    ensures
        s.refresh_some(storage, atlas, done).wf(),
{
    let r = s.refresh_some(storage, atlas, done);
    assert forall|k: ChunkKey| #[trigger] r.columns.contains_key(k) implies well_formed(r.columns[k])
        && r.columns[k].chunk_position.key() == k by {
        assert(s.columns.contains_key(k));
        assert(well_formed(s.columns[k]));
    }
    assert forall|p: ChunkPosition| #[trigger] r.received.contains(p) implies r.columns.contains_key(
        p.key(),
    ) by {
        assert(s.columns.contains_key(p.key()));
    }
    assert forall|p: ChunkPosition| #[trigger] r.loading.contains(p) implies r.columns.contains_key(
        p.key(),
    ) by {
        assert(s.columns.contains_key(p.key()));
    }
}

/// A second pass over the stale sections right after the first changes nothing.
pub proof fn lemma_refresh_idempotent(s: StoreState, storage: BlockStorage, atlas: TextureMapper)
    requires
        s.wf(),
    ensures
        s.refresh(storage, atlas).refresh(storage, atlas) == s.refresh(storage, atlas),
{
    let once = s.refresh(storage, atlas);
    let twice = once.refresh(storage, atlas);
    lemma_refresh_wf(s, storage, atlas, s.dirty);
    assert(once.present() =~= s.present());
    assert(twice.dirty =~= once.dirty);
    assert forall|k: ChunkKey| once.columns.contains_key(k) implies #[trigger] twice.columns[k]
        == once.columns[k] by {
        assert(well_formed(once.columns[k]));
        assert(twice.columns[k].sections =~= once.columns[k].sections);
    }
    assert(twice.columns =~= once.columns);
}

/// The members of a list without repeats up to and with place `i` are those before it
/// and the one at `i`, which is not among those before it.
pub proof fn lemma_prefix_set(items: Seq<SectionKey>, i: int)
    requires
        items.no_duplicates(),
        0 <= i < items.len(),
    ensures
        items.subrange(0, i + 1).to_set() == items.subrange(0, i).to_set().insert(items[i]),
        !items.subrange(0, i).to_set().contains(items[i]),
        items.to_set().contains(items[i]),
{
    let head = items.subrange(0, i);
    let next = items.subrange(0, i + 1);
    let d = items[i];
    assert forall|x: SectionKey| next.to_set().contains(x) <==> head.to_set().insert(d).contains(x) by {
        if next.contains(x) {
            let j = choose|j: int| 0 <= j < next.len() && next[j] == x;
            if j < i {
                assert(head[j] == x);
            }
        }
        if head.contains(x) {
            let j = choose|j: int| 0 <= j < head.len() && head[j] == x;
            assert(next[j] == x);
        }
        assert(next[i] == d);
    }
    assert(next.to_set() =~= head.to_set().insert(d));
    if head.contains(d) {
        let j = choose|j: int| 0 <= j < head.len() && head[j] == d;
        assert(items[j] == items[i]);
    }
    assert(items.contains(d));
}

/// How a list of the rebuilt sections grows: with the section looked at where it was
/// rebuilt, and not at all otherwise.
pub proof fn lemma_listed_step(
    listed: Seq<SectionKey>,
    wanted: Set<SectionKey>,
    done: Set<SectionKey>,
    d: SectionKey,
)
    requires
        listed.no_duplicates(),
        listed.to_set() == wanted.intersect(done),
        !done.contains(d),
    ensures
        wanted.contains(d) ==> listed.push(d).no_duplicates() && listed.push(d).to_set()
            == wanted.intersect(done.insert(d)),
        !wanted.contains(d) ==> listed.to_set() == wanted.intersect(done.insert(d)),
{
    if wanted.contains(d) {
        let more = listed.push(d);
        assert(!listed.contains(d)) by {
            if listed.contains(d) {
                assert(listed.to_set().contains(d));
            }
        }
        assert forall|x: SectionKey| more.to_set().contains(x) <==> wanted.intersect(
            done.insert(d),
        ).contains(x) by {
            if more.contains(x) {
                let j = choose|j: int| 0 <= j < more.len() && more[j] == x;
                if j < listed.len() {
                    assert(listed[j] == x);
                    assert(listed.contains(x));
                    assert(listed.to_set().contains(x));
                }
            }
            if wanted.contains(x) && done.insert(d).contains(x) {
                if x == d {
                    assert(more[listed.len() as int] == d);
                } else {
                    assert(listed.to_set().contains(x));
                    assert(listed.contains(x));
                    let j = choose|j: int| 0 <= j < listed.len() && listed[j] == x;
                    assert(more[j] == x);
                }
            }
        }
        assert(more.to_set() =~= wanted.intersect(done.insert(d)));
        assert forall|a: int, b: int| 0 <= a < more.len() && 0 <= b < more.len() && a != b implies more[a]
            != more[b] by {
            if a < listed.len() {
                assert(listed.contains(listed[a]));
            }
            if b < listed.len() {
                assert(listed.contains(listed[b]));
            }
        }
    } else {
        assert(listed.to_set() =~= wanted.intersect(done.insert(d)));
    }
}

} // verus!
