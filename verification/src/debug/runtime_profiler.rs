use vstd::prelude::*;
use crate::debug::runtime_storage::RuntimeStorage;

verus! {

/// The spans that are running, each with the time at which it began, in nanoseconds.
pub struct RuntimeProfiler {
    active: Vec<(String, u128)>,
}

/// A span that is running.
pub struct RuntimeSpan {
    pub name: String,
}

/// The first place among `active` of a span called `name`; the number of entries where
/// there is none.
pub open spec fn index_of(active: Seq<(Seq<char>, u128)>, name: Seq<char>) -> int
    decreases active.len(),
{
    if active.len() == 0 {
        0
    } else if active[0].0 == name {
        0
    } else {
        1 + index_of(active.drop_first(), name)
    }
}

/// The running spans after one called `name` began at `now`: a span of that name that
/// was running begins anew.
pub open spec fn with_span(active: Seq<(Seq<char>, u128)>, name: Seq<char>, now: u128) -> Seq<
    (Seq<char>, u128),
> {
    let at = index_of(active, name);
    if at < active.len() {
        active.update(at, (name, now))
    } else {
        active.push((name, now))
    }
}

/// The time from `began` to `now`; nothing where `now` lies before `began`.
pub open spec fn time_between(began: u128, now: u128) -> u128 {
    if now >= began {
        (now - began) as u128
    } else {
        0
    }
}

/// No two running spans have the same name.
pub open spec fn distinct_spans(active: Seq<(Seq<char>, u128)>) -> bool {
    forall|i: int, j: int| 0 <= i < j < active.len() ==> active[i].0 != active[j].0
}

/// Where `index_of` points: at the first entry of that name, or behind the last entry
/// if none has it.
pub proof fn lemma_index_of(active: Seq<(Seq<char>, u128)>, name: Seq<char>)
    ensures
        0 <= index_of(active, name) <= active.len(),
        index_of(active, name) < active.len() ==> active[index_of(active, name)].0 == name,
        forall|i: int| 0 <= i < index_of(active, name) ==> (#[trigger] active[i]).0 != name,
    decreases active.len(),
{
    if active.len() > 0 && active[0].0 != name {
        lemma_index_of(active.drop_first(), name);
        let rest = active.drop_first();
        assert forall|i: int| 0 <= i < index_of(active, name) implies (#[trigger] active[i]).0
            != name by {
            if i > 0 {
                assert(rest[i - 1] == active[i]);
            }
        }
    }
}

/// A place is the one `index_of` gives where it holds the name and no place before it
/// does.
pub proof fn lemma_index_found(active: Seq<(Seq<char>, u128)>, name: Seq<char>, at: int)
    requires
        0 <= at <= active.len(),
        at < active.len() ==> active[at].0 == name,
        forall|i: int| 0 <= i < at ==> (#[trigger] active[i]).0 != name,
    ensures
        index_of(active, name) == at,
{
    lemma_index_of(active, name);
    let found = index_of(active, name);
    if found < at {
        assert(active[found].0 == name);
    }
}

impl RuntimeProfiler {
    /// The running spans as plain values.
    pub closed spec fn view(&self) -> Seq<(Seq<char>, u128)> {
        Seq::new(self.active@.len(), |i: int| (self.active@[i].0@, self.active@[i].1))
    }

    /// No two running spans have the same name.
    pub open spec fn wf(self) -> bool {
        distinct_spans(self@)
    }

    /// A profiler without running spans.
    pub fn new() -> (p: RuntimeProfiler)
        ensures
            p.wf(),
            p@ == Seq::<(Seq<char>, u128)>::empty(),
    {
        let p = RuntimeProfiler { active: Vec::new() };
        assert(p@ =~= Seq::<(Seq<char>, u128)>::empty());
        p
    }

    fn find(&self, name: &String) -> (i: usize)
        ensures
            i == index_of(self@, name@),
            i <= self@.len(),
    {
        let mut i: usize = 0;
        let mut found = false;
        while i < self.active.len() && !found
            invariant
                i <= self.active@.len(),
                forall|j: int| 0 <= j < i ==> (#[trigger] self@[j]).0 != name@,
                found ==> i < self.active@.len() && self@[i as int].0 == name@,
            decreases self.active@.len() - i + (if found { 0int } else { 1int }),
        {
            if self.active[i].0 == *name {
                found = true;
            } else {
                i += 1;
            }
        }
        proof {
            lemma_index_found(self@, name@, i as int);
        }
        i
    }

    /// Begins a span called `name` at time `now`.
    pub fn span(&mut self, name: String, now: u128) -> (s: RuntimeSpan)
        requires
            old(self).wf(),
        ensures
            final(self).wf(),
            final(self)@ == with_span(old(self)@, name@, now),
            s.name@ == name@,
    {
        let at = self.find(&name);
        let kept = name.clone();
        proof {
            lemma_index_of(self@, name@);
        }
        if at < self.active.len() {
            self.active.set(at, (name, now));
        } else {
            self.active.push((name, now));
        }
        assert(self@ =~= with_span(old(self)@, name@, now));
        RuntimeSpan { name: kept }
    }

    /// Ends the span called `name` at time `now`. Returns the time for which it ran, or
    /// `None` where no span of that name was running.
    pub fn finish(&mut self, name: &String, now: u128) -> (elapsed: Option<u128>)
        requires
            old(self).wf(),
        ensures
            final(self).wf(),
            match elapsed {
                Some(t) => {
                    let at = index_of(old(self)@, name@);
                    &&& at < old(self)@.len()
                    &&& t == time_between(old(self)@[at].1, now)
                    &&& final(self)@ == old(self)@.remove(at)
                },
                None => index_of(old(self)@, name@) == old(self)@.len() && final(self)@ == old(self)@,
            },
    {
        let at = self.find(name);
        proof {
            lemma_index_of(self@, name@);
        }
        if at < self.active.len() {
            let entry = self.active.remove(at);
            assert(self@ =~= old(self)@.remove(at as int));
            if now >= entry.1 {
                Some(now - entry.1)
            } else {
                Some(0)
            }
        } else {
            None
        }
    }
}

impl RuntimeSpan {
    /// Ends the span at time `now` and takes down in `storage` for how long it ran.
    /// Nothing is taken down where the profiler does not know the span as running.
    pub fn end(self, profiler: &mut RuntimeProfiler, storage: &mut RuntimeStorage, now: u128)
        requires
            old(profiler).wf(),
            old(storage).wf(),
        ensures
            final(profiler).wf(),
            final(storage).wf(),
            ({
                let at = index_of(old(profiler)@, self.name@);
                if at < old(profiler)@.len() {
                    &&& final(profiler)@ == old(profiler)@.remove(at)
                    &&& final(storage)@ == crate::debug::runtime_storage::with_run(
                        old(storage)@,
                        self.name@,
                        time_between(old(profiler)@[at].1, now),
                    )
                } else {
                    final(profiler)@ == old(profiler)@ && final(storage)@ == old(storage)@
                }
            }),
    {
        match profiler.finish(&self.name, now) {
            Some(elapsed) => {
                storage.push(self.name, elapsed);
            },
            None => {},
        }
    }
}

} // verus!
