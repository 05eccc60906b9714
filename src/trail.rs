use std::collections::{BTreeMap, VecDeque};
use vstd::prelude::*;

verus! {

/// Whether a sample taken at `time` is older than `window` at `now`.
pub open spec fn is_stale(now: int, time: int, window: int) -> bool {
    now - time > window
}

/// `samples` without its stale front: samples are dropped from the front
/// while they are stale, and the first one that is not stops the eviction.
pub open spec fn evict_stale<P>(samples: Seq<(u64, P)>, now: int, window: int) -> Seq<(u64, P)>
    decreases samples.len(),
{
    if samples.len() > 0 && is_stale(now, samples[0].0 as int, window) {
        evict_stale(samples.drop_first(), now, window)
    } else {
        samples
    }
}

/// Whether the timestamps of `samples` never decrease.
pub open spec fn is_time_ordered<P>(samples: Seq<(u64, P)>) -> bool {
    forall|i: int, j: int| 0 <= i <= j < samples.len() ==> samples[i].0 <= samples[j].0
}

/// Eviction keeps a suffix of the samples, in their order, and drops only
/// stale samples: every sample not older than the window stays.
pub proof fn lemma_evict_keeps_suffix<P>(samples: Seq<(u64, P)>, now: int, window: int)
    ensures
        exists|k: int|
            0 <= k <= samples.len() && evict_stale(samples, now, window) == samples.subrange(
                k,
                samples.len() as int,
            ) && forall|j: int| 0 <= j < k ==> is_stale(now, #[trigger] samples[j].0 as int, window),
    decreases samples.len(),
{
    if samples.len() > 0 && is_stale(now, samples[0].0 as int, window) {
        let rest = samples.drop_first();
        lemma_evict_keeps_suffix(rest, now, window);
        let k = choose|k: int|
            0 <= k <= rest.len() && evict_stale(rest, now, window) == rest.subrange(
                k,
                rest.len() as int,
            ) && forall|j: int| 0 <= j < k ==> is_stale(now, #[trigger] rest[j].0 as int, window);
        assert(rest.subrange(k, rest.len() as int) =~= samples.subrange(k + 1, samples.len() as int));
        assert forall|j: int| 0 <= j < k + 1 implies is_stale(now, #[trigger] samples[j].0 as int, window) by {
            if j > 0 {
                assert(samples[j] == rest[j - 1]);
            }
        }
    } else {
        assert(samples.subrange(0, samples.len() as int) =~= samples);
    }
}

/// Samples in time order stay in time order after eviction.
pub proof fn lemma_evict_keeps_order<P>(samples: Seq<(u64, P)>, now: int, window: int)
    requires
        is_time_ordered(samples),
    ensures
        is_time_ordered(evict_stale(samples, now, window)),
{
    lemma_evict_keeps_suffix(samples, now, window);
    let k = choose|k: int|
        0 <= k <= samples.len() && evict_stale(samples, now, window) == samples.subrange(
            k,
            samples.len() as int,
        ) && forall|j: int| 0 <= j < k ==> is_stale(now, #[trigger] samples[j].0 as int, window);
    let kept = evict_stale(samples, now, window);
    assert forall|i: int, j: int| 0 <= i <= j < kept.len() implies kept[i].0 <= kept[j].0 by {
        assert(kept[i] == samples[i + k]);
        assert(kept[j] == samples[j + k]);
    }
}

/// The recorded history of one tracked point: timestamped samples, oldest
/// first, with the window after which a sample is evicted and the colour
/// it is drawn in.
pub struct Trail<P, C> {
    /// How long a sample is kept, in milliseconds.
    pub window: u64,
    pub color: C,
    /// `(time in milliseconds, point)`, in order of insertion.
    pub samples: VecDeque<(u64, P)>,
}

/// The line segments that join consecutive points of `samples`: none for
/// fewer than two samples.
pub open spec fn segments_of<P>(samples: Seq<(u64, P)>) -> Seq<(P, P)> {
    Seq::new(
        if samples.len() > 0 {
            (samples.len() - 1) as nat
        } else {
            0
        },
        |i: int| (samples[i].1, samples[i + 1].1),
    )
}

impl<P: Copy, C> Trail<P, C> {
    /// The segments to draw for this trail, oldest first.
    pub fn segments(&self) -> (r: Vec<(P, P)>)
        ensures
            r@ == segments_of(self.samples@),
    {
        let mut r: Vec<(P, P)> = Vec::new();
        let n = self.samples.len();
        let mut i: usize = 1;
        while i < n
            invariant
                n == self.samples@.len(),
                1 <= i <= n || n == 0,
                r@ =~= segments_of(self.samples@).subrange(0, if n == 0 { 0 } else { i - 1 }),
            decreases n - i,
        {
            r.push((self.samples[i - 1].1, self.samples[i].1));
            i += 1;
        }
        assert(r@ =~= segments_of(self.samples@));
        r
    }
}

impl<P, C> Trail<P, C> {
    /// Drops the samples that are stale at `now` from the front, stopping
    /// at the first one that is not.
    pub fn evict(&mut self, now: u64)
        ensures
            final(self).window == old(self).window,
            final(self).color == old(self).color,
            final(self).samples@ == evict_stale(old(self).samples@, now as int, old(self).window as int),
    {
        let ghost start = self.samples@;
        let ghost window = self.window as int;
        loop
            invariant
                self.window == window,
                self.color == old(self).color,
                start == old(self).samples@,
                evict_stale(self.samples@, now as int, window) == evict_stale(start, now as int, window),
            ensures
                self.window == window,
                self.color == old(self).color,
                self.samples@ == evict_stale(start, now as int, window),
            decreases self.samples.len(),
        {
            if self.samples.len() == 0 {
                break;
            }
            let time: u64 = self.samples[0].0;
            if now > time && now - time > self.window {
                self.samples.pop_front();
            } else {
                break;
            }
        }
    }
}

/// Whether `after` is `before` with the samples that are stale at `now`
/// evicted, window and colour unchanged.
pub open spec fn is_evicted<P, C>(after: Trail<P, C>, before: Trail<P, C>, now: int) -> bool {
    &&& after.window == before.window
    &&& after.color == before.color
    &&& after.samples@ == evict_stale(before.samples@, now, before.window as int)
}

/// The trails of all tracked points, by caller-assigned identifier. A trail
/// is created on the first sample of its identifier and stays registered,
/// empty or not.
pub struct Trails<P, C> {
    map: BTreeMap<u64, Trail<P, C>>,
    ids: Vec<u64>,
}

impl<P, C> View for Trails<P, C> {
    type V = Map<u64, Trail<P, C>>;

    closed spec fn view(&self) -> Map<u64, Trail<P, C>> {
        self.map@
    }
}

impl<P, C> Trails<P, C> {
    /// The identifiers are listed once each, and they are the registered ones.
    pub closed spec fn wf(&self) -> bool {
        &&& self.ids@.no_duplicates()
        &&& forall|k: u64| self.map@.contains_key(k) <==> self.ids@.contains(k)
    }

    /// No trail registered.
    pub fn new() -> (r: Self)
        ensures
            r.wf(),
            r@ == Map::<u64, Trail<P, C>>::empty(),
    {
        Trails { map: BTreeMap::new(), ids: Vec::new() }
    }

    /// The trail of `id`, if one is registered.
    pub fn trail(&self, id: u64) -> (r: Option<&Trail<P, C>>)
        ensures
            match r {
                Some(t) => self@.contains_key(id) && *t == self@[id],
                None => !self@.contains_key(id),
            },
    {
        self.map.get(&id)
    }

    /// The registered identifiers, each once, in order of registration.
    pub fn ids(&self) -> (r: &Vec<u64>)
        requires
            self.wf(),
        ensures
            r@.no_duplicates(),
            forall|k: u64| r@.contains(k) <==> self@.contains_key(k),
    {
        &self.ids
    }

    /// Records `point` at `time` on the trail of `id`, creating the trail if
    /// `id` is new; the trail takes `window` and `color` of this call.
    pub fn add_point(&mut self, id: u64, time: u64, point: P, window: u64, color: C)
        requires
            old(self).wf(),
        ensures
            final(self).wf(),
            final(self)@.dom() == old(self)@.dom().insert(id),
            final(self)@[id].window == window,
            final(self)@[id].color == color,
            final(self)@[id].samples@ == (if old(self)@.contains_key(id) {
                old(self)@[id].samples@
            } else {
                Seq::empty()
            }).push((time, point)),
            forall|k: u64| k != id && old(self)@.contains_key(k) ==> final(self)@[k] == old(self)@[k],
    {
        let ghost ids0 = self.ids@;
        let mut samples = match self.map.remove(&id) {
            Some(t) => t.samples,
            None => {
                self.ids.push(id);
                VecDeque::new()
            },
        };
        samples.push_back((time, point));
        self.map.insert(id, Trail { window, color, samples });
        proof {
            if !old(self)@.contains_key(id) {
                assert(self.ids@ == ids0.push(id));
                assert(!ids0.contains(id));
                assert forall|k: u64| self.ids@.contains(k) <==> (ids0.contains(k) || k == id) by {
                    if ids0.contains(k) {
                        let i = choose|i: int| 0 <= i < ids0.len() && ids0[i] == k;
                        assert(self.ids@[i] == k);
                    }
                    if k == id {
                        assert(self.ids@[ids0.len() as int] == id);
                    }
                    if self.ids@.contains(k) && k != id {
                        let i = choose|i: int| 0 <= i < self.ids@.len() && self.ids@[i] == k;
                        assert(ids0[i] == k);
                    }
                }
                assert(self.ids@.no_duplicates()) by {
                    assert forall|i: int, j: int|
                        0 <= i < j < self.ids@.len() implies self.ids@[i] != self.ids@[j] by {
                        if j == ids0.len() {
                            assert(ids0[i] == self.ids@[i]);
                        }
                    }
                }
            } else {
                assert(self.ids@ == ids0);
            }
            assert(self.map@.dom() == old(self).map@.dom().insert(id));
            assert forall|k: u64| self.map@.contains_key(k) <==> self.ids@.contains(k) by {
                assert(old(self).map@.contains_key(k) <==> ids0.contains(k));
                if k == id && old(self)@.contains_key(id) {
                    assert(self.ids@.contains(k));
                }
            }
        }
    }

    /// Evicts, on every registered trail, the samples that are stale at
    /// `now`; no trail is removed.
    pub fn update(&mut self, now: u64)
        requires
            old(self).wf(),
        ensures
            final(self).wf(),
            final(self)@.dom() == old(self)@.dom(),
            forall|k: u64|
                old(self)@.contains_key(k) ==> is_evicted(
                    #[trigger] final(self)@[k],
                    old(self)@[k],
                    now as int,
                ),
    {
        let ghost m0 = self.map@;
        let ghost ids = self.ids@;
        let mut i: usize = 0;
        while i < self.ids.len()
            invariant
                self.wf(),
                self.ids@ == ids,
                ids == old(self).ids@,
                m0 == old(self).map@,
                self.map@.dom() == m0.dom(),
                0 <= i <= ids.len(),
                forall|j: int|
                    0 <= j < i ==> is_evicted(#[trigger] self.map@[ids[j]], m0[ids[j]], now as int),
                forall|j: int| i <= j < ids.len() ==> #[trigger] self.map@[ids[j]] == m0[ids[j]],
            decreases ids.len() - i,
        {
            let id = self.ids[i];
            assert(ids.contains(id));
            match self.map.remove(&id) {
                Some(trail) => {
                    let mut trail = trail;
                    trail.evict(now);
                    self.map.insert(id, trail);
                },
                None => {},
            }
            assert forall|j: int| 0 <= j < ids.len() && j != i implies ids[j] != id by {
                assert(ids.no_duplicates());
            }
            i += 1;
        }
        assert forall|k: u64| old(self)@.contains_key(k) implies is_evicted(
            #[trigger] self.map@[k],
            old(self)@[k],
            now as int,
        ) by {
            assert(ids.contains(k));
            let j = choose|j: int| 0 <= j < ids.len() && ids[j] == k;
            assert(is_evicted(self.map@[ids[j]], m0[ids[j]], now as int));
        }
    }
}

impl<P, C> Default for Trails<P, C> {
    fn default() -> (r: Self)
        ensures
            r.wf(),
            r@ == Map::<u64, Trail<P, C>>::empty(),
    {
        Trails::new()
    }
}

} // verus!
