//! Tracks: the keyframes of one animated property, keyed by identity.
//!
//! A track keeps its keyframes in insertion order, each under the identity
//! it was added with. Positions are not constrained: several keyframes may
//! share a position and insertion order says nothing of time order. Queries
//! by position work on the position-sorted view, in which keyframes at the
//! same position keep their insertion order.

use vstd::prelude::*;
use vstd::std_specs::cmp::PartialOrdSpec;
use indexmap::IndexSet;
use crate::ids::{KeyframeId, TrackId};
use crate::key_order::{key_order, keys_insert, keys_new, keys_position, keys_remove_at};
use crate::keyframe::Keyframe;
use crate::time::TimeTick;

verus! {

/// Position of the `i`-th entry of `s`.
pub open spec fn pos_at<T>(s: Seq<(KeyframeId, Keyframe<T>)>, i: int) -> int {
    s[i].1.position@
}

/// Entry `i` comes before entry `j` in the position-sorted view: an earlier
/// position, or the same position and inserted earlier.
pub open spec fn sorts_before<T>(s: Seq<(KeyframeId, Keyframe<T>)>, i: int, j: int) -> bool {
    pos_at(s, i) < pos_at(s, j) || (pos_at(s, i) == pos_at(s, j) && i < j)
}

/// `order` lists every entry index of `s` once, in position-sorted order.
pub open spec fn is_sorted_order<T>(s: Seq<(KeyframeId, Keyframe<T>)>, order: Seq<usize>) -> bool {
    &&& order.len() == s.len()
    &&& forall|k: int| 0 <= k < order.len() ==> order[k] < s.len()
    &&& forall|j: usize| j < s.len() ==> #[trigger] order.contains(j)
    &&& forall|k: int, l: int| 0 <= k < l < order.len() ==> sorts_before(s, order[k] as int, order[l] as int)
}

/// Some entry of `s` has the identity `id`.
pub open spec fn has_id<T>(s: Seq<(KeyframeId, Keyframe<T>)>, id: KeyframeId) -> bool {
    exists|i: int| 0 <= i < s.len() && s[i].0 == id
}

/// Entry `i` is the last, in the sorted view, at or before `q`.
pub open spec fn is_left_of<T>(s: Seq<(KeyframeId, Keyframe<T>)>, q: int, i: int) -> bool {
    &&& 0 <= i < s.len()
    &&& pos_at(s, i) <= q
    &&& forall|j: int| 0 <= j < s.len() && pos_at(s, j) <= q && j != i ==> sorts_before(s, j, i)
}

/// Entry `i` is the first, in the sorted view, after `q`.
pub open spec fn is_right_of<T>(s: Seq<(KeyframeId, Keyframe<T>)>, q: int, i: int) -> bool {
    &&& 0 <= i < s.len()
    &&& pos_at(s, i) > q
    &&& forall|j: int| 0 <= j < s.len() && pos_at(s, j) > q && j != i ==> sorts_before(s, i, j)
}

/// The position of entry `i` is within `tolerance` of `q`.
pub open spec fn near<T>(s: Seq<(KeyframeId, Keyframe<T>)>, i: int, q: int, tolerance: int) -> bool {
    -tolerance < pos_at(s, i) - q < tolerance
}

/// Index of the running minimum after a scan of the first `k` entries'
/// values: an entry replaces it only when its value is less.
pub open spec fn running_min_index<T: PartialOrd>(s: Seq<(KeyframeId, Keyframe<T>)>, k: int) -> int
    decreases k,
{
    if k <= 1 {
        0
    } else {
        let m = running_min_index(s, k - 1);
        if s[k - 1].1.value.partial_cmp_spec(&s[m].1.value) == Some(core::cmp::Ordering::Less) {
            k - 1
        } else {
            m
        }
    }
}

/// Index of the running maximum after a scan of the first `k` entries'
/// values: an entry replaces it only when its value is greater.
pub open spec fn running_max_index<T: PartialOrd>(s: Seq<(KeyframeId, Keyframe<T>)>, k: int) -> int
    decreases k,
{
    if k <= 1 {
        0
    } else {
        let m = running_max_index(s, k - 1);
        if s[k - 1].1.value.partial_cmp_spec(&s[m].1.value) == Some(core::cmp::Ordering::Greater) {
            k - 1
        } else {
            m
        }
    }
}

proof fn lemma_running_step<T: PartialOrd>(s: Seq<(KeyframeId, Keyframe<T>)>, k: int)
    requires
        k >= 1,
    ensures
        running_min_index(s, k + 1) == (if s[k].1.value.partial_cmp_spec(&s[running_min_index(s, k)].1.value)
            == Some(core::cmp::Ordering::Less) {
            k
        } else {
            running_min_index(s, k)
        }),
        running_max_index(s, k + 1) == (if s[k].1.value.partial_cmp_spec(&s[running_max_index(s, k)].1.value)
            == Some(core::cmp::Ordering::Greater) {
            k
        } else {
            running_max_index(s, k)
        }),
{
}

/// The identities' 128-bit values of the entries of `s`, in order.
pub open spec fn id_keys<T>(s: Seq<(KeyframeId, Keyframe<T>)>) -> Seq<u128> {
    s.map_values(|e: (KeyframeId, Keyframe<T>)| e.0.0)
}

/// An animation track: keyframes under their identities, in insertion order.
///
/// The entries sit in a `Vec`; an `IndexSet` of their identities, in the
/// same order, finds the position of an identity in constant time.
#[derive(Debug, Clone)]
pub struct Track<T> {
    /// Identity of the track.
    pub id: TrackId,
    keys: IndexSet<u128>,
    entries: Vec<(KeyframeId, Keyframe<T>)>,
}

impl<T> View for Track<T> {
    type V = Seq<(KeyframeId, Keyframe<T>)>;

    /// The entries `(identity, keyframe)` in insertion order.
    closed spec fn view(&self) -> Seq<(KeyframeId, Keyframe<T>)> {
        self.entries@
    }
}

impl<T> Track<T> {
    /// The track's identity.
    pub closed spec fn track_id(&self) -> TrackId {
        self.id
    }

    /// No two entries share an identity, and the index lists the entries'
    /// identities in order.
    pub closed spec fn wf(&self) -> bool {
        &&& forall|i: int, j: int| 0 <= i < j < self@.len() ==> self@[i].0 != self@[j].0
        &&& key_order(self.keys) == id_keys(self.entries@)
    }

    /// In a well-formed track no two keyframes share an identity.
    pub proof fn lemma_ids_unique(&self)
        requires
            self.wf(),
        ensures
            forall|i: int, j: int| 0 <= i < j < self@.len() ==> self@[i].0 != self@[j].0,
    {
    }

    /// An empty track with a fresh identity.
    pub fn new() -> (r: Track<T>)
        ensures
            r.wf(),
            r@ == Seq::<(KeyframeId, Keyframe<T>)>::empty(),
    {
        Track::with_id(TrackId::new())
    }

    /// An empty track with the given identity.
    pub fn with_id(id: TrackId) -> (r: Track<T>)
        ensures
            r.wf(),
            r.track_id() == id,
            r@ == Seq::<(KeyframeId, Keyframe<T>)>::empty(),
    {
        let keys = keys_new();
        let entries: Vec<(KeyframeId, Keyframe<T>)> = Vec::new();
        assert(id_keys(entries@) =~= Seq::<u128>::empty());
        Track { id, keys, entries }
    }

    fn find(&self, id: KeyframeId) -> (r: Option<usize>)
        requires
            self.wf(),
        ensures
            match r {
                Some(i) => i < self@.len() && self@[i as int].0 == id,
                None => !has_id(self@, id),
            },
    {
        let r = keys_position(&self.keys, id.0);
        proof {
            let ks = id_keys(self.entries@);
            if r is None {
                assert forall|i: int| 0 <= i < self@.len() implies self@[i].0 != id by {
                    if self@[i].0 == id {
                        assert(ks[i] == id.0);
                        assert(ks.contains(id.0));
                    }
                }
            }
        }
        r
    }

    /// Adds a keyframe under its identity and returns that identity. A
    /// keyframe already under it is replaced in place.
    pub fn add_keyframe(&mut self, keyframe: Keyframe<T>) -> (r: KeyframeId)
        requires
            old(self).wf(),
        ensures
            r == keyframe.id,
            final(self).wf(),
            final(self).track_id() == old(self).track_id(),
            has_id(old(self)@, keyframe.id) ==> exists|i: int|
                0 <= i < old(self)@.len() && old(self)@[i].0 == keyframe.id
                    && final(self)@ == old(self)@.update(i, (keyframe.id, keyframe)),
            !has_id(old(self)@, keyframe.id) ==> final(self)@ == old(self)@.push((keyframe.id, keyframe)),
    {
        let id = keyframe.id;
        match self.find(id) {
            Some(i) => {
                self.entries.set(i, (id, keyframe));
                proof {
                    assert(id_keys(self.entries@) =~= id_keys(old(self).entries@));
                }
            },
            None => {
                proof {
                    let ks = id_keys(old(self).entries@);
                    if ks.contains(id.0) {
                        let k = choose|k: int| 0 <= k < ks.len() && ks[k] == id.0;
                        assert(old(self)@[k].0 == id);
                    }
                }
                keys_insert(&mut self.keys, id.0);
                self.entries.push((id, keyframe));
                proof {
                    assert(id_keys(self.entries@) =~= id_keys(old(self).entries@).push(id.0));
                }
            },
        }
        id
    }

    /// Removes the keyframe under `id` and returns it; the others keep their
    /// order. `None`, and no change, when there is none.
    pub fn remove_keyframe(&mut self, id: KeyframeId) -> (r: Option<Keyframe<T>>)
        requires
            old(self).wf(),
        ensures
            final(self).wf(),
            final(self).track_id() == old(self).track_id(),
            match r {
                Some(k) => exists|i: int|
                    0 <= i < old(self)@.len() && old(self)@[i].0 == id && old(self)@[i].1 == k
                        && final(self)@ == old(self)@.remove(i),
                None => !has_id(old(self)@, id) && final(self)@ == old(self)@,
            },
    {
        match self.find(id) {
            Some(i) => {
                keys_remove_at(&mut self.keys, i);
                let (_, k) = self.entries.remove(i);
                proof {
                    assert(id_keys(self.entries@) =~= id_keys(old(self).entries@).remove(i as int));
                    let s = old(self)@;
                    assert forall|a: int, b: int| 0 <= a < b < self@.len() implies self@[a].0 != self@[b].0 by {
                        let ai = if a < i { a } else { a + 1 };
                        let bi = if b < i { b } else { b + 1 };
                        assert(self@[a] == s[ai] && self@[b] == s[bi]);
                    }
                }
                Some(k)
            },
            None => None,
        }
    }

    /// The keyframe under `id`.
    pub fn get_keyframe(&self, id: KeyframeId) -> (r: Option<&Keyframe<T>>)
        requires
            self.wf(),
        ensures
            match r {
                Some(k) => exists|i: int| 0 <= i < self@.len() && self@[i].0 == id && self@[i].1 == *k,
                None => !has_id(self@, id),
            },
    {
        match self.find(id) {
            Some(i) => Some(&self.entries[i].1),
            None => None,
        }
    }

    /// The keyframe under `id`, to change in place. Its identity in the track
    /// stays `id` whatever is done to it.
    pub fn get_keyframe_mut(&mut self, id: KeyframeId) -> (r: Option<&mut Keyframe<T>>)
        requires
            old(self).wf(),
        ensures
            match r {
                Some(k) => exists|i: int|
                    0 <= i < old(self)@.len() && old(self)@[i].0 == id && old(self)@[i].1 == *k
                        && final(self)@ == old(self)@.update(i, (id, *final(k))),
                None => !has_id(old(self)@, id) && final(self)@ == old(self)@,
            },
            final(self).wf(),
            final(self).track_id() == old(self).track_id(),
    {
        match self.find(id) {
            Some(i) => {
                proof {
                    assert forall|v: Keyframe<T>|
                        #[trigger] id_keys(self.entries@.update(i as int, (id, v))) == id_keys(self.entries@) by {
                        assert(id_keys(self.entries@.update(i as int, (id, v))) =~= id_keys(self.entries@));
                    }
                }
                Some(&mut self.entries[i].1)
            },
            None => None,
        }
    }

    /// The keyframes just around `position` in the sorted view: the last one
    /// at or before it, and the first one after it. A keyframe exactly at
    /// `position` is on the left.
    pub fn keyframes_around(&self, position: TimeTick) -> (r: (Option<&Keyframe<T>>, Option<&Keyframe<T>>))
        ensures
            match r.0 {
                Some(k) => exists|i: int| is_left_of(self@, position@, i) && self@[i].1 == *k,
                None => forall|j: int| 0 <= j < self@.len() ==> pos_at(self@, j) > position@,
            },
            match r.1 {
                Some(k) => exists|i: int| is_right_of(self@, position@, i) && self@[i].1 == *k,
                None => forall|j: int| 0 <= j < self@.len() ==> pos_at(self@, j) <= position@,
            },
    {
        let q = position.ticks();
        let n = self.entries.len();
        let mut left: Option<usize> = None;
        let mut right: Option<usize> = None;
        let mut i: usize = 0;
        while i < n
            invariant
                n == self@.len(),
                i <= n,
                q == position@,
                i64::MIN <= q <= i64::MAX,
                match left {
                    Some(l) => l < i && pos_at(self@, l as int) <= q && forall|j: int|
                        0 <= j < i && pos_at(self@, j) <= q && j != l ==> sorts_before(self@, j, l as int),
                    None => forall|j: int| 0 <= j < i ==> pos_at(self@, j) > q,
                },
                match right {
                    Some(r) => r < i && pos_at(self@, r as int) > q && forall|j: int|
                        0 <= j < i && pos_at(self@, j) > q && j != r ==> sorts_before(self@, r as int, j),
                    None => forall|j: int| 0 <= j < i ==> pos_at(self@, j) <= q,
                },
            decreases n - i,
        {
            let p = self.entries[i].1.position.ticks();
            let ghost old_left = left;
            let ghost old_right = right;
            if p <= q {
                match left {
                    None => {
                        left = Some(i);
                    },
                    Some(l) => {
                        if p >= self.entries[l].1.position.ticks() {
                            left = Some(i);
                        }
                    },
                }
            } else {
                match right {
                    None => {
                        right = Some(i);
                    },
                    Some(r) => {
                        if p < self.entries[r].1.position.ticks() {
                            right = Some(i);
                        }
                    },
                }
            }
            proof {
                let s = self@;
                let ii = i as int;
                assert(pos_at(s, ii) == p);
                if let Some(l) = left {
                    assert forall|j: int| 0 <= j < ii + 1 && pos_at(s, j) <= q && j != l implies sorts_before(s, j, l as int) by {
                        if j < ii {
                            if let Some(ol) = old_left {
                                if j != ol {
                                    assert(sorts_before(s, j, ol as int));
                                }
                            }
                        }
                    }
                }
                if let Some(r) = right {
                    assert forall|j: int| 0 <= j < ii + 1 && pos_at(s, j) > q && j != r implies sorts_before(s, r as int, j) by {
                        if j < ii {
                            if let Some(or) = old_right {
                                if j != or {
                                    assert(sorts_before(s, or as int, j));
                                }
                            }
                        }
                    }
                }
            }
            i = i + 1;
        }
        proof {
            if let Some(l) = left {
                assert(is_left_of(self@, position@, l as int));
            }
            if let Some(r) = right {
                assert(is_right_of(self@, position@, r as int));
            }
        }
        let l = match left {
            Some(l) => Some(&self.entries[l].1),
            None => None,
        };
        let r = match right {
            Some(r) => Some(&self.entries[r].1),
            None => None,
        };
        (l, r)
    }

    /// The first keyframe, in insertion order, whose position is within
    /// `tolerance` of `position`.
    pub fn keyframe_at_position(&self, position: TimeTick, tolerance: TimeTick) -> (r: Option<&Keyframe<T>>)
        ensures
            match r {
                Some(k) => exists|i: int|
                    0 <= i < self@.len() && near(self@, i, position@, tolerance@) && self@[i].1 == *k
                        && forall|j: int| 0 <= j < i ==> !near(self@, j, position@, tolerance@),
                None => forall|j: int| 0 <= j < self@.len() ==> !near(self@, j, position@, tolerance@),
            },
    {
        let q = position.ticks() as i128;
        let tol = tolerance.ticks() as i128;
        let mut i: usize = 0;
        while i < self.entries.len()
            invariant
                i <= self@.len(),
                q == position@,
                tol == tolerance@,
                i64::MIN <= q <= i64::MAX,
                i64::MIN <= tol <= i64::MAX,
                forall|j: int| 0 <= j < i ==> !near(self@, j, position@, tolerance@),
            decreases self@.len() - i,
        {
            let d = self.entries[i].1.position.ticks() as i128 - q;
            if -tol < d && d < tol {
                assert(near(self@, i as int, position@, tolerance@));
                return Some(&self.entries[i].1);
            }
            i = i + 1;
        }
        None
    }

    /// The earliest and the latest keyframe positions; `None` for an empty
    /// track.
    pub fn time_range(&self) -> (r: Option<(TimeTick, TimeTick)>)
        ensures
            match r {
                Some((a, b)) => {
                    &&& exists|i: int| 0 <= i < self@.len() && pos_at(self@, i) == a@
                    &&& exists|i: int| 0 <= i < self@.len() && pos_at(self@, i) == b@
                    &&& forall|j: int| 0 <= j < self@.len() ==> a@ <= #[trigger] pos_at(self@, j) <= b@
                },
                None => self@.len() == 0,
            },
    {
        let n = self.entries.len();
        if n == 0 {
            return None;
        }
        let mut lo = self.entries[0].1.position;
        let mut hi = self.entries[0].1.position;
        let ghost mut lo_at: int = 0;
        let ghost mut hi_at: int = 0;
        let mut i: usize = 1;
        while i < n
            invariant
                n == self@.len(),
                1 <= i <= n,
                0 <= lo_at < i && pos_at(self@, lo_at) == lo@,
                0 <= hi_at < i && pos_at(self@, hi_at) == hi@,
                forall|j: int| 0 <= j < i ==> lo@ <= #[trigger] pos_at(self@, j) <= hi@,
            decreases n - i,
        {
            let p = self.entries[i].1.position;
            if p.ticks() < lo.ticks() {
                lo = p;
                proof {
                    lo_at = i as int;
                }
            }
            if p.ticks() > hi.ticks() {
                hi = p;
                proof {
                    hi_at = i as int;
                }
            }
            i = i + 1;
        }
        Some((lo, hi))
    }

    /// The least and the greatest keyframe value, as a scan in insertion
    /// order finds them: a value replaces the running minimum only when it
    /// is less, the running maximum only when it is greater. `None` for an
    /// empty track.
    pub fn value_range(&self) -> (r: Option<(T, T)>)
        where
            T: PartialOrd + Clone,
        ensures
            r is None <==> self@.len() == 0,
            T::obeys_partial_cmp_spec() ==> (r matches Some((lo, hi)) ==> {
                &&& cloned(self@[running_min_index(self@, self@.len() as int)].1.value, lo)
                &&& cloned(self@[running_max_index(self@, self@.len() as int)].1.value, hi)
            }),
    {
        let n = self.entries.len();
        if n == 0 {
            return None;
        }
        let mut lo: usize = 0;
        let mut hi: usize = 0;
        let mut i: usize = 1;
        while i < n
            invariant
                n == self@.len(),
                1 <= i <= n,
                lo < i,
                hi < i,
                T::obeys_partial_cmp_spec() ==> lo == running_min_index(self@, i as int),
                T::obeys_partial_cmp_spec() ==> hi == running_max_index(self@, i as int),
            decreases n - i,
        {
            let below = self.entries[i].1.value < self.entries[lo].1.value;
            let above = self.entries[i].1.value > self.entries[hi].1.value;
            proof {
                lemma_running_step(self@, i as int);
            }
            if below {
                lo = i;
            }
            if above {
                hi = i;
            }
            i = i + 1;
        }
        Some((self.entries[lo].1.value.clone(), self.entries[hi].1.value.clone()))
    }

    /// Number of keyframes.
    pub fn len(&self) -> (r: usize)
        ensures
            r == self@.len(),
    {
        self.entries.len()
    }

    /// Whether the track has no keyframes.
    pub fn is_empty(&self) -> (r: bool)
        ensures
            r == (self@.len() == 0),
    {
        self.entries.len() == 0
    }

    /// The keyframes in insertion order.
    pub fn iter(&self) -> (r: Vec<&Keyframe<T>>)
        ensures
            r@.len() == self@.len(),
            forall|k: int| 0 <= k < r@.len() ==> *r@[k] == self@[k].1,
    {
        let mut r: Vec<&Keyframe<T>> = Vec::new();
        let mut k: usize = 0;
        while k < self.entries.len()
            invariant
                k <= self@.len(),
                r@.len() == k,
                forall|m: int| 0 <= m < k ==> *r@[m] == self@[m].1,
            decreases self@.len() - k,
        {
            r.push(&self.entries[k].1);
            k = k + 1;
        }
        r
    }

    /// The identities in insertion order.
    pub fn keyframe_ids(&self) -> (r: Vec<KeyframeId>)
        ensures
            r@.len() == self@.len(),
            forall|k: int| 0 <= k < r@.len() ==> r@[k] == self@[k].0,
    {
        let mut r: Vec<KeyframeId> = Vec::new();
        let mut k: usize = 0;
        while k < self.entries.len()
            invariant
                k <= self@.len(),
                r@.len() == k,
                forall|m: int| 0 <= m < k ==> r@[m] == self@[m].0,
            decreases self@.len() - k,
        {
            r.push(self.entries[k].0);
            k = k + 1;
        }
        r
    }

    /// Identity and position of each keyframe, in insertion order.
    pub fn positions(&self) -> (r: Vec<(KeyframeId, TimeTick)>)
        ensures
            r@.len() == self@.len(),
            forall|k: int| 0 <= k < r@.len() ==> r@[k] == (self@[k].0, self@[k].1.position),
    {
        let mut r: Vec<(KeyframeId, TimeTick)> = Vec::new();
        let mut k: usize = 0;
        while k < self.entries.len()
            invariant
                k <= self@.len(),
                r@.len() == k,
                forall|m: int| 0 <= m < k ==> r@[m] == (self@[m].0, self@[m].1.position),
            decreases self@.len() - k,
        {
            r.push((self.entries[k].0, self.entries[k].1.position));
            k = k + 1;
        }
        r
    }

    /// Indices of the entries in position-sorted order (stable insertion sort).
    fn sorted_order(&self) -> (r: Vec<usize>)
        ensures
            is_sorted_order(self@, r@),
    {
        let n = self.entries.len();
        let mut order: Vec<usize> = Vec::new();
        let mut i: usize = 0;
        while i < n
            invariant
                n == self@.len(),
                i <= n,
                order@.len() == i,
                forall|k: int| 0 <= k < i ==> order@[k] < i,
                forall|j: usize| j < i ==> #[trigger] order@.contains(j),
                forall|k: int, l: int| 0 <= k < l < i ==> sorts_before(self@, order@[k] as int, order@[l] as int),
            decreases n - i,
        {
            let pi = self.entries[i].1.position.ticks();
            let mut p: usize = 0;
            while p < i && self.entries[order[p]].1.position.ticks() <= pi
                invariant
                    n == self@.len(),
                    i < n,
                    order@.len() == i,
                    forall|k: int| 0 <= k < i ==> order@[k] < i,
                    p <= i,
                    forall|k: int| 0 <= k < p ==> pos_at(self@, order@[k] as int) <= pi,
                decreases i - p,
            {
                p = p + 1;
            }
            let ghost old_order = order@;
            order.insert(p, i);
            proof {
                old_order.insert_ensures(p as int, i);
                assert forall|k: int, l: int| 0 <= k < l < i + 1 implies sorts_before(self@, order@[k] as int, order@[l] as int) by {
                    if l < p {
                    } else if l == p {
                    } else if k < p {
                        assert(order@[l] == old_order[l - 1]);
                    } else if k == p {
                        assert(order@[l] == old_order[l - 1]);
                        assert(p < i);
                        if p < l - 1 {
                            assert(sorts_before(self@, old_order[p as int] as int, old_order[l - 1] as int));
                        }
                    } else {
                        assert(order@[k] == old_order[k - 1]);
                        assert(order@[l] == old_order[l - 1]);
                    }
                }
                assert forall|j: usize| j < i + 1 implies #[trigger] order@.contains(j) by {
                    if j < i {
                        assert(old_order.contains(j));
                        let k = choose|k: int| 0 <= k < old_order.len() && old_order[k] == j;
                        if k < p {
                            assert(order@[k] == j);
                        } else {
                            assert(order@[k + 1] == j);
                        }
                    } else {
                        assert(order@[p as int] == i);
                    }
                }
                assert forall|k: int| 0 <= k < i + 1 implies order@[k] < i + 1 by {
                    if k < p {
                    } else if k > p {
                        assert(order@[k] == old_order[k - 1]);
                    }
                }
            }
            i = i + 1;
        }
        order
    }

    /// The keyframes sorted by position; keyframes at the same position keep
    /// their insertion order.
    pub fn keyframes_sorted(&self) -> (r: Vec<&Keyframe<T>>)
        ensures
            exists|order: Seq<usize>| {
                &&& #[trigger] is_sorted_order(self@, order)
                &&& r@.len() == order.len()
                &&& forall|k: int| 0 <= k < r@.len() ==> *r@[k] == self@[order[k] as int].1
            },
    {
        let order = self.sorted_order();
        let mut r: Vec<&Keyframe<T>> = Vec::new();
        let mut k: usize = 0;
        while k < order.len()
            invariant
                is_sorted_order(self@, order@),
                k <= order@.len(),
                r@.len() == k,
                forall|m: int| 0 <= m < k ==> *r@[m] == self@[order@[m] as int].1,
            decreases order@.len() - k,
        {
            r.push(&self.entries[order[k]].1);
            k = k + 1;
        }
        r
    }
}

impl<T> Default for Track<T> {
    /// An empty track with a fresh identity.
    fn default() -> (r: Track<T>)
        ensures
            r.wf(),
            r@ == Seq::<(KeyframeId, Keyframe<T>)>::empty(),
    {
        Track::new()
    }
}

} // verus!
