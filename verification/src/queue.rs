use vstd::prelude::*;
use crate::position::ChunkPosition;

verus! {

/// The members of `s` that meet `f`, in their order.
pub open spec fn keep(s: Seq<ChunkPosition>, f: spec_fn(ChunkPosition) -> bool) -> Seq<ChunkPosition>
    decreases s.len(),
{
    if s.len() == 0 {
        Seq::empty()
    } else {
        let rest = keep(s.drop_last(), f);
        if f(s.last()) {
            rest.push(s.last())
        } else {
            rest
        }
    }
}

/// `s` is ordered by distance to `center`, the closest first.
pub open spec fn sorted_by_distance(s: Seq<ChunkPosition>, center: ChunkPosition) -> bool {
    forall|i: int, j: int|
        0 <= i < j < s.len() ==> s[i].distance_squared(center) <= s[j].distance_squared(center)
}

/// `s` with `p` put behind the last member that is not farther from `center` than `p`.
pub open spec fn insert_by_distance(s: Seq<ChunkPosition>, p: ChunkPosition, center: ChunkPosition) -> Seq<
    ChunkPosition,
>
    decreases s.len(),
{
    if s.len() == 0 {
        seq![p]
    } else if s.last().distance_squared(center) <= p.distance_squared(center) {
        s.push(p)
    } else {
        insert_by_distance(s.drop_last(), p, center).push(s.last())
    }
}

/// The members of `s` ordered by distance to `center`, the closest first; members at
/// the same distance keep their order.
pub open spec fn sort_by_distance(s: Seq<ChunkPosition>, center: ChunkPosition) -> Seq<ChunkPosition>
    decreases s.len(),
{
    if s.len() == 0 {
        Seq::empty()
    } else {
        insert_by_distance(sort_by_distance(s.drop_last(), center), s.last(), center)
    }
}

/// A member of a sequence with one more member at its end is that member or a member
/// of the sequence.
pub proof fn lemma_push_contains(s: Seq<ChunkPosition>, x: ChunkPosition)
    ensures
        forall|q: ChunkPosition| #[trigger] s.push(x).contains(q) <==> s.contains(q) || q == x,
        s.no_duplicates() && !s.contains(x) ==> s.push(x).no_duplicates(),
{
    assert forall|q: ChunkPosition| #[trigger] s.push(x).contains(q) <==> s.contains(q) || q == x by {
        if s.push(x).contains(q) {
            let i = choose|i: int| 0 <= i < s.push(x).len() && s.push(x)[i] == q;
            if i < s.len() {
                assert(s[i] == q);
            }
        }
        if s.contains(q) {
            let i = choose|i: int| 0 <= i < s.len() && s[i] == q;
            assert(s.push(x)[i] == q);
        }
        if q == x {
            assert(s.push(x)[s.len() as int] == q);
        }
    }
    if s.no_duplicates() && !s.contains(x) {
        assert forall|i: int, j: int|
            0 <= i < s.push(x).len() && 0 <= j < s.push(x).len() && i != j implies s.push(x)[i]
            != s.push(x)[j] by {
            if i < s.len() {
                assert(s.contains(s[i]));
            }
            if j < s.len() {
                assert(s.contains(s[j]));
            }
        }
    }
}

/// A sequence is its last member behind the members before it.
pub proof fn lemma_drop_last(s: Seq<ChunkPosition>)
    requires
        s.len() > 0,
    ensures
        s == s.drop_last().push(s.last()),
        forall|q: ChunkPosition|
            #![trigger s.contains(q)]
            #![trigger s.drop_last().contains(q)]
            s.contains(q) <==> s.drop_last().contains(q) || q == s.last(),
        s.no_duplicates() ==> s.drop_last().no_duplicates() && !s.drop_last().contains(s.last()),
{
    let head = s.drop_last();
    assert(s =~= head.push(s.last()));
    lemma_push_contains(head, s.last());
    if s.no_duplicates() {
        if head.contains(s.last()) {
            let j = choose|j: int| 0 <= j < head.len() && head[j] == s.last();
            assert(s[j] == s[s.len() - 1]);
        }
    }
}

/// Every member is no farther from `center` than `bound`.
pub open spec fn all_within(s: Seq<ChunkPosition>, center: ChunkPosition, bound: int) -> bool {
    forall|q: ChunkPosition| #[trigger] s.contains(q) ==> q.distance_squared(center) <= bound
}

/// A sorted sequence with a member at its end that is no closer than any of them is
/// sorted.
pub proof fn lemma_push_sorted(s: Seq<ChunkPosition>, x: ChunkPosition, center: ChunkPosition)
    requires
        sorted_by_distance(s, center),
        all_within(s, center, x.distance_squared(center)),
    ensures
        sorted_by_distance(s.push(x), center),
{
    assert forall|i: int, j: int| 0 <= i < j < s.push(x).len() implies s.push(x)[i].distance_squared(
        center,
    ) <= s.push(x)[j].distance_squared(center) by {
        assert(s.contains(s[i]));
    }
}

/// The members before the last of a sorted sequence are sorted and no farther than the
/// last.
pub proof fn lemma_drop_last_sorted(s: Seq<ChunkPosition>, center: ChunkPosition)
    requires
        s.len() > 0,
        sorted_by_distance(s, center),
    ensures
        sorted_by_distance(s.drop_last(), center),
        all_within(s.drop_last(), center, s.last().distance_squared(center)),
{
    let head = s.drop_last();
    assert forall|q: ChunkPosition| #[trigger] head.contains(q) implies q.distance_squared(center)
        <= s.last().distance_squared(center) by {
        let j = choose|j: int| 0 <= j < head.len() && head[j] == q;
        assert(s[j] == q);
    }
    assert forall|i: int, j: int| 0 <= i < j < head.len() implies head[i].distance_squared(center)
        <= head[j].distance_squared(center) by {
        assert(s[i] == head[i] && s[j] == head[j]);
    }
}

/// What `keep` keeps: the members that meet `f`, and nothing twice that was there once.
pub proof fn lemma_keep(s: Seq<ChunkPosition>, f: spec_fn(ChunkPosition) -> bool)
    ensures
        forall|p: ChunkPosition| #[trigger] keep(s, f).contains(p) <==> s.contains(p) && f(p),
        keep(s, f).len() <= s.len(),
        s.no_duplicates() ==> keep(s, f).no_duplicates(),
    decreases s.len(),
{
    if s.len() > 0 {
        let head = s.drop_last();
        lemma_keep(head, f);
        lemma_drop_last(s);
        lemma_push_contains(keep(head, f), s.last());
    }
}

/// Where no member meets `f`, `keep` keeps nothing.
pub proof fn lemma_keep_nothing(s: Seq<ChunkPosition>, f: spec_fn(ChunkPosition) -> bool)
    requires
        forall|p: ChunkPosition| s.contains(p) ==> !f(p),
    ensures
        keep(s, f) == Seq::<ChunkPosition>::empty(),
    decreases s.len(),
{
    if s.len() > 0 {
        lemma_drop_last(s);
        lemma_keep_nothing(s.drop_last(), f);
        assert(s.contains(s.last()));
    }
}

/// Where every member meets `f`, `keep` changes nothing.
pub proof fn lemma_keep_everything(s: Seq<ChunkPosition>, f: spec_fn(ChunkPosition) -> bool)
    requires
        forall|p: ChunkPosition| s.contains(p) ==> f(p),
    ensures
        keep(s, f) == s,
    decreases s.len(),
{
    if s.len() > 0 {
        lemma_drop_last(s);
        lemma_keep_everything(s.drop_last(), f);
        assert(s.contains(s.last()));
    } else {
        assert(s =~= Seq::<ChunkPosition>::empty());
    }
}

/// `keep` keeps the order: what is kept of a sorted queue is sorted.
pub proof fn lemma_keep_sorted(s: Seq<ChunkPosition>, f: spec_fn(ChunkPosition) -> bool, center: ChunkPosition)
    requires
        sorted_by_distance(s, center),
    ensures
        sorted_by_distance(keep(s, f), center),
    decreases s.len(),
{
    if s.len() > 0 {
        let head = s.drop_last();
        lemma_drop_last_sorted(s, center);
        lemma_keep_sorted(head, f, center);
        lemma_keep(head, f);
        if f(s.last()) {
            lemma_push_sorted(keep(head, f), s.last(), center);
        }
    }
}

/// Putting `p` at index `at` is what `insert_by_distance` does, where every member
/// from `at` on is farther than `p` and the one before is not.
pub proof fn lemma_insert_at(s: Seq<ChunkPosition>, p: ChunkPosition, center: ChunkPosition, at: int)
    requires
        0 <= at <= s.len(),
        forall|k: int| at <= k < s.len() ==> s[k].distance_squared(center) > p.distance_squared(center),
        at > 0 ==> s[at - 1].distance_squared(center) <= p.distance_squared(center),
    ensures
        insert_by_distance(s, p, center) == s.insert(at, p),
    decreases s.len(),
{
    if s.len() == 0 {
        assert(s.insert(at, p) =~= seq![p]);
    } else if at == s.len() {
        assert(s.insert(at, p) =~= s.push(p));
    } else {
        lemma_insert_at(s.drop_last(), p, center, at);
        assert(s.insert(at, p) =~= s.drop_last().insert(at, p).push(s.last()));
    }
}

/// Inserting into a sorted queue gives a sorted queue with one more member.
pub proof fn lemma_insert_by_distance(s: Seq<ChunkPosition>, p: ChunkPosition, center: ChunkPosition)
    ensures
        insert_by_distance(s, p, center).len() == s.len() + 1,
        forall|q: ChunkPosition|
            #[trigger] insert_by_distance(s, p, center).contains(q) <==> s.contains(q) || q == p,
        sorted_by_distance(s, center) ==> sorted_by_distance(insert_by_distance(s, p, center), center),
        s.no_duplicates() && !s.contains(p) ==> insert_by_distance(s, p, center).no_duplicates(),
    decreases s.len(),
{
    if s.len() == 0 {
        assert(seq![p] =~= s.push(p));
        lemma_push_contains(s, p);
        assert(sorted_by_distance(s.push(p), center));
    } else if s.last().distance_squared(center) <= p.distance_squared(center) {
        lemma_push_contains(s, p);
        if sorted_by_distance(s, center) {
            lemma_drop_last_sorted(s, center);
            lemma_drop_last(s);
            lemma_push_sorted(s, p, center);
        }
    } else {
        let head = s.drop_last();
        let inner = insert_by_distance(head, p, center);
        lemma_insert_by_distance(head, p, center);
        lemma_drop_last(s);
        lemma_push_contains(inner, s.last());
        if sorted_by_distance(s, center) {
            lemma_drop_last_sorted(s, center);
            lemma_push_sorted(inner, s.last(), center);
        }
    }
}

/// Sorting keeps the members and their number, and orders them by distance.
pub proof fn lemma_sort_by_distance(s: Seq<ChunkPosition>, center: ChunkPosition)
    ensures
        sort_by_distance(s, center).len() == s.len(),
        forall|q: ChunkPosition| #[trigger] sort_by_distance(s, center).contains(q) <==> s.contains(q),
        sorted_by_distance(sort_by_distance(s, center), center),
        s.no_duplicates() ==> sort_by_distance(s, center).no_duplicates(),
    decreases s.len(),
{
    if s.len() > 0 {
        let head = s.drop_last();
        lemma_sort_by_distance(head, center);
        lemma_insert_by_distance(sort_by_distance(head, center), s.last(), center);
        lemma_drop_last(s);
    }
}

/// Orders a queue by distance to `center`, the closest first.
pub fn sort_queue(queue: &mut Vec<ChunkPosition>, center: &ChunkPosition)
    ensures
        final(queue)@ == sort_by_distance(old(queue)@, *center),
{
    let mut sorted: Vec<ChunkPosition> = Vec::new();
    let mut i: usize = 0;
    while i < queue.len()
        invariant
            i <= queue@.len(),
            queue@ == old(queue)@,
            sorted@ == sort_by_distance(queue@.subrange(0, i as int), *center),
            sorted@.len() == i,
        decreases queue@.len() - i,
    {
        let p = queue[i];
        let d = p.get_distance(center);
        let mut at: usize = sorted.len();
        while at > 0 && d.is_less(&sorted[at - 1].get_distance(center))
            invariant
                at <= sorted@.len(),
                d.value() == p.distance_squared(*center),
                forall|k: int|
                    at <= k < sorted@.len() ==> sorted@[k].distance_squared(*center) > p.distance_squared(
                        *center,
                    ),
            decreases at,
        {
            at -= 1;
        }
        proof {
            lemma_insert_at(sorted@, p, *center, at as int);
            assert(queue@.subrange(0, i + 1).drop_last() =~= queue@.subrange(0, i as int));
            assert(queue@.subrange(0, i + 1).last() == p);
            lemma_insert_by_distance(sorted@, p, *center);
        }
        sorted.insert(at, p);
        i += 1;
    }
    assert(queue@.subrange(0, i as int) =~= queue@);
    *queue = sorted;
}

/// The first place of `p` in `queue`, if it is there.
pub fn find_position(queue: &Vec<ChunkPosition>, p: &ChunkPosition) -> (r: Option<usize>)
    ensures
        match r {
            Some(i) => i < queue@.len() && queue@[i as int] == *p && !queue@.subrange(0, i as int).contains(*p),
            None => !queue@.contains(*p),
        },
{
    let mut i: usize = 0;
    while i < queue.len()
        invariant
            i <= queue@.len(),
            forall|j: int| 0 <= j < i ==> queue@[j] != *p,
        decreases queue@.len() - i,
    {
        if queue[i].x == p.x && queue[i].z == p.z {
            return Some(i);
        }
        i += 1;
    }
    None
}

/// The test that a coordinate is not `p`.
pub open spec fn is_not(p: ChunkPosition) -> spec_fn(ChunkPosition) -> bool {
    |q: ChunkPosition| q != p
}

/// `s` without `p`.
pub open spec fn without(s: Seq<ChunkPosition>, p: ChunkPosition) -> Seq<ChunkPosition> {
    keep(s, is_not(p))
}

/// Taking the one place of `p` out of a queue without repeats leaves the queue
/// without `p`.
pub proof fn lemma_remove_is_without(s: Seq<ChunkPosition>, p: ChunkPosition, at: int)
    requires
        s.no_duplicates(),
        0 <= at < s.len(),
        s[at] == p,
    ensures
        s.remove(at) == without(s, p),
    decreases s.len(),
{
    let f = is_not(p);
    let head = s.drop_last();
    lemma_drop_last(s);
    if at == s.len() - 1 {
        assert forall|q: ChunkPosition| head.contains(q) implies f(q) by {}
        lemma_keep_everything(head, f);
        assert(s.remove(at) =~= head);
    } else {
        lemma_remove_is_without(head, p, at);
        assert(head[at] == p);
        assert(head.contains(p));
        assert(s.last() != p);
        assert(s.remove(at) =~= head.remove(at).push(s.last()));
    }
}

/// Takes `p` out of a queue without repeats. Returns whether it was there.
pub fn remove_from_queue(queue: &mut Vec<ChunkPosition>, p: &ChunkPosition) -> (found: bool)
    requires
        old(queue)@.no_duplicates(),
    ensures
        found == old(queue)@.contains(*p),
        final(queue)@ == without(old(queue)@, *p),
{
    match find_position(queue, p) {
        Some(at) => {
            proof {
                lemma_remove_is_without(queue@, *p, at as int);
            }
            queue.remove(at);
            true
        },
        None => {
            proof {
                lemma_keep_everything(queue@, is_not(*p));
            }
            false
        },
    }
}

} // verus!
