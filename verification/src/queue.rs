//! The play queue: which track is current, the shuffled order and where
//! "next", "previous" and the end of a track lead; and how the queue follows
//! removals, clearing, additions and re-sorting of the playlist.

use vstd::prelude::*;

use rand::seq::SliceRandom;

use crate::playlist::{advance_index, advance_shuffle, spec_advance_index, spec_shuffle_position};
use crate::settings::RepeatMode;

verus! {

/// `s` lists each of `0..n` exactly once.
pub open spec fn is_order_of(s: Seq<usize>, n: nat) -> bool {
    &&& s.len() == n
    &&& s.no_duplicates()
    &&& forall|i: int| 0 <= i < s.len() ==> #[trigger] s[i] < n
}

/// rand's thread-local generator handle.
#[verifier::external_type_specification]
#[verifier::external_body]
pub struct ExThreadRng(rand::rngs::ThreadRng);

/// `rand::thread_rng`: a handle on the lazily seeded thread-local generator.
/// Nothing is claimed of it.
#[verifier::external_body]
fn thread_rng() -> (r: rand::rngs::ThreadRng) {
    rand::thread_rng()
}

/// `SliceRandom::shuffle` on a vector: a Fisher-Yates pass of swaps (one
/// per index from the end), so the vector keeps the same elements (as a
/// multiset) in an order drawn from `rng`.
#[verifier::external_body]
fn shuffle_vec(v: &mut Vec<usize>, rng: &mut rand::rngs::ThreadRng)
    ensures
        final(v)@.to_multiset() == old(v)@.to_multiset(),
{
    v.as_mut_slice().shuffle(rng);
}

/// `0, 1, ..., n - 1`.
pub open spec fn range_seq(n: nat) -> Seq<usize> {
    Seq::new(n, |i: int| i as usize)
}

proof fn lemma_range_is_order(n: usize)
    ensures
        is_order_of(range_seq(n as nat), n as nat),
{
}

/// A permutation of an order is an order.
proof fn lemma_permuted_order(s: Seq<usize>, t: Seq<usize>, n: nat)
    requires
        is_order_of(s, n),
        t.to_multiset() == s.to_multiset(),
    ensures
        is_order_of(t, n),
{
    broadcast use vstd::seq_lib::group_to_multiset_ensures;

    s.lemma_multiset_has_no_duplicates();
    assert forall|x: usize| t.to_multiset().contains(x) implies t.to_multiset().count(x) == 1 by {}
    t.lemma_multiset_has_no_duplicates_conv();
    assert(t.len() == t.to_multiset().len());
    assert(s.len() == s.to_multiset().len());
    assert forall|i: int| 0 <= i < t.len() implies #[trigger] t[i] < n by {
        assert(t.contains(t[i]));
        assert(t.to_multiset().count(t[i]) > 0);
        assert(s.to_multiset().count(t[i]) > 0);
        assert(s.contains(t[i]));
    }
}

/// A shuffled order of `0..n`.
pub fn shuffled_order(n: usize) -> (r: Vec<usize>)
    ensures
        is_order_of(r@, n as nat),
{
    let mut v: Vec<usize> = Vec::new();
    let mut i: usize = 0;
    while i < n
        invariant
            i <= n,
            v@ == range_seq(i as nat),
        decreases n - i,
    {
        v.push(i);
        i += 1;
        assert(v@ =~= range_seq(i as nat));
    }
    proof {
        lemma_range_is_order(n);
    }
    let ghost before = v@;
    let mut rng = thread_rng();
    shuffle_vec(&mut v, &mut rng);
    proof {
        lemma_permuted_order(before, v@, n as nat);
    }
    v
}

/// What the player does when a track has played to its end.
#[derive(Debug, Clone, Copy, PartialEq, Eq, Structural)]
pub enum EndAction {
    /// Repeat One: play the same track again.
    Replay,
    /// Play this track next.
    Play(usize),
    /// Nothing follows: stop.
    Stop,
}

/// Playlist position state.
#[derive(Debug)]
pub struct PlayQueue {
    /// Number of tracks in the playlist.
    pub len: usize,
    pub current: Option<usize>,
    pub repeat: RepeatMode,
    pub shuffle: bool,
    /// Shuffled order of all tracks (empty unless shuffling).
    pub shuffle_order: Vec<usize>,
    /// Position of the current track within the shuffled order.
    pub shuffle_pos: usize,
}

impl PlayQueue {
    /// The current track is in the playlist, and the shuffled order lists
    /// every track exactly once while shuffling (and is empty otherwise).
    pub open spec fn wf(&self) -> bool {
        &&& (self.current matches Some(c) ==> c < self.len)
        &&& if self.shuffle && self.len > 0 {
            is_order_of(self.shuffle_order@, self.len as nat)
        } else {
            self.shuffle_order@.len() == 0
        }
    }

    /// Index of the first occurrence of `x` in the shuffled order.
    fn position_of(&self, x: usize) -> (r: Option<usize>)
        ensures
            match r {
                Some(p) => p < self.shuffle_order@.len() && self.shuffle_order@[p as int] == x
                    && forall|j: int| 0 <= j < p ==> self.shuffle_order@[j] != x,
                None => !self.shuffle_order@.contains(x),
            },
    {
        let mut i: usize = 0;
        while i < self.shuffle_order.len()
            invariant
                i <= self.shuffle_order@.len(),
                forall|j: int| 0 <= j < i ==> self.shuffle_order@[j] != x,
            decreases self.shuffle_order.len() - i,
        {
            if self.shuffle_order[i] == x {
                return Some(i);
            }
            i += 1;
        }
        None
    }

    /// Point the shuffle position at the current track (kept as is when
    /// there is no current track or no order).
    pub fn sync_shuffle_pos(&mut self)
        ensures
            final(self).len == old(self).len,
            final(self).current == old(self).current,
            final(self).repeat == old(self).repeat,
            final(self).shuffle == old(self).shuffle,
            final(self).shuffle_order@ == old(self).shuffle_order@,
            match old(self).current {
                Some(c) => if old(self).shuffle_order@.contains(c) {
                    final(self).shuffle_pos < old(self).shuffle_order@.len()
                        && old(self).shuffle_order@[final(self).shuffle_pos as int] == c
                } else {
                    final(self).shuffle_pos == old(self).shuffle_pos
                },
                None => final(self).shuffle_pos == old(self).shuffle_pos,
            },
    {
        let cur = match self.current {
            Some(c) => c,
            None => {
                return ;
            },
        };
        if self.shuffle_order.len() == 0 {
            return ;
        }
        match self.position_of(cur) {
            Some(p) => {
                self.shuffle_pos = p;
            },
            None => {},
        }
    }

    /// Re-draw the shuffled order (empty when not shuffling or when the
    /// playlist is empty) and re-point the position at the current track.
    pub fn rebuild_shuffle(&mut self)
        requires
            old(self).current matches Some(c) ==> c < old(self).len,
        ensures
            final(self).wf(),
            final(self).len == old(self).len,
            final(self).current == old(self).current,
            final(self).repeat == old(self).repeat,
            final(self).shuffle == old(self).shuffle,
            !(old(self).shuffle && old(self).len > 0) ==> final(self).shuffle_pos == 0,
            (old(self).shuffle && old(self).len > 0) ==> match old(self).current {
                Some(c) => final(self).shuffle_pos < final(self).len
                    && final(self).shuffle_order@[final(self).shuffle_pos as int] == c,
                None => final(self).shuffle_pos == old(self).shuffle_pos,
            },
    {
        let n = self.len;
        if !self.shuffle || n == 0 {
            self.shuffle_order = Vec::new();
            self.shuffle_pos = 0;
            return ;
        }
        self.shuffle_order = shuffled_order(n);
        proof {
            if let Some(c) = self.current {
                assert(self.shuffle_order@.contains(c)) by {
                    let s = self.shuffle_order@;
                    // an order of 0..n holds every index below n
                    lemma_order_contains(s, n as nat, c);
                }
            }
        }
        self.sync_shuffle_pos();
    }

    /// A queue over `len` tracks with nothing playing yet.
    pub fn new(len: usize, shuffle: bool, repeat: RepeatMode) -> (r: PlayQueue)
        ensures
            r.wf(),
            r.len == len,
            r.current is None,
            r.shuffle == shuffle,
            r.repeat == repeat,
            r.shuffle_pos == 0,
    {
        let mut q = PlayQueue {
            len,
            current: None,
            repeat,
            shuffle,
            shuffle_order: Vec::new(),
            shuffle_pos: 0,
        };
        q.rebuild_shuffle();
        q
    }

    /// Switch shuffling on or off (the order is re-drawn).
    pub fn toggle_shuffle(&mut self)
        requires
            old(self).wf(),
        ensures
            final(self).wf(),
            final(self).shuffle == !old(self).shuffle,
            final(self).len == old(self).len,
            final(self).current == old(self).current,
            final(self).repeat == old(self).repeat,
            !(final(self).shuffle && final(self).len > 0) ==> final(self).shuffle_pos == 0,
            (final(self).shuffle && final(self).len > 0 && final(self).current is Some) ==> final(self).shuffle_pos < final(self).len
                && final(self).shuffle_order@[final(self).shuffle_pos as int] == final(self).current->0,
    {
        self.shuffle = !self.shuffle;
        self.rebuild_shuffle();
    }

    /// Cycle the repeat mode: Off -> All -> One -> Off.
    pub fn cycle_repeat(&mut self)
        ensures
            final(self).repeat == old(self).repeat.spec_next(),
            final(self).len == old(self).len,
            final(self).current == old(self).current,
            final(self).shuffle == old(self).shuffle,
            final(self).shuffle_order@ == old(self).shuffle_order@,
            final(self).shuffle_pos == old(self).shuffle_pos,
    {
        self.repeat = self.repeat.next();
    }

    /// The track `index` starts playing: it becomes current and the shuffle
    /// position follows it.
    pub fn set_current(&mut self, index: usize)
        requires
            old(self).wf(),
            index < old(self).len,
        ensures
            final(self).wf(),
            final(self).current == Some(index),
            final(self).len == old(self).len,
            final(self).shuffle == old(self).shuffle,
            final(self).repeat == old(self).repeat,
            final(self).shuffle_order@ == old(self).shuffle_order@,
            final(self).shuffle_order@.len() > 0 ==> final(self).shuffle_pos < final(self).shuffle_order@.len() && final(self).shuffle_order@[final(self).shuffle_pos as int]
                == index,
    {
        self.current = Some(index);
        proof {
            if self.shuffle_order@.len() > 0 {
                lemma_order_contains(self.shuffle_order@, self.len as nat, index);
            }
        }
        self.sync_shuffle_pos();
    }

    /// Where "next" (`direction` 1) or "previous" (-1) leads: along the
    /// shuffled order when shuffling (its position moves too), otherwise
    /// through the playlist; `None` at an end without Repeat All.
    pub fn next(&mut self, direction: i32) -> (r: Option<usize>)
        requires
            old(self).wf(),
        ensures
            final(self).wf(),
            final(self).len == old(self).len,
            final(self).current == old(self).current,
            final(self).shuffle == old(self).shuffle,
            final(self).repeat == old(self).repeat,
            final(self).shuffle_order@ == old(self).shuffle_order@,
            r matches Some(i) ==> i < old(self).len,
            old(self).len == 0 ==> r is None,
            (old(self).len > 0 && old(self).shuffle_order@.len() == 0) ==> (match r {
                Some(i) => spec_advance_index(
                    old(self).current,
                    direction,
                    old(self).len,
                    old(self).repeat,
                ) == Some(i as int),
                None => spec_advance_index(
                    old(self).current,
                    direction,
                    old(self).len,
                    old(self).repeat,
                ) is None,
            }),
            (old(self).len > 0 && old(self).shuffle_order@.len() > 0) ==> (match r {
                Some(i) => spec_shuffle_position(
                    old(self).shuffle_order@.len(),
                    old(self).shuffle_pos,
                    direction,
                    old(self).repeat,
                ) == Some(final(self).shuffle_pos as int) && i == old(self).shuffle_order@[final(self).shuffle_pos as int],
                None => spec_shuffle_position(
                    old(self).shuffle_order@.len(),
                    old(self).shuffle_pos,
                    direction,
                    old(self).repeat,
                ) is None && final(self).shuffle_pos == old(self).shuffle_pos,
            }),
    {
        if self.len == 0 {
            return None;
        }
        if self.shuffle && self.shuffle_order.len() > 0 {
            match advance_shuffle(self.shuffle_order.as_slice(), self.shuffle_pos, direction, self.repeat) {
                Some((idx, np)) => {
                    self.shuffle_pos = np;
                    Some(idx)
                },
                None => None,
            }
        } else {
            match advance_index(self.current, direction, self.len, self.repeat) {
                Some(i) => Some(i),
                None => None,
            }
        }
    }

    /// Decide what follows a track that played to its end: Repeat One
    /// replays it, otherwise the next track plays (or playback stops).
    pub fn on_track_end(&mut self) -> (r: EndAction)
        requires
            old(self).wf(),
        ensures
            final(self).wf(),
            final(self).current == old(self).current,
            final(self).len == old(self).len,
            final(self).shuffle_order@ == old(self).shuffle_order@,
            final(self).repeat == old(self).repeat,
            final(self).shuffle == old(self).shuffle,
            old(self).repeat == RepeatMode::One ==> r == EndAction::Replay && final(self).shuffle_pos
                == old(self).shuffle_pos,
            r matches EndAction::Play(i) ==> i < old(self).len,
            (old(self).repeat != RepeatMode::One && old(self).len == 0) ==> r == EndAction::Stop,
            (old(self).repeat != RepeatMode::One && old(self).len > 0 && old(self).shuffle_order@.len()
                == 0) ==> (match r {
                EndAction::Play(i) => spec_advance_index(old(self).current, 1, old(self).len, old(self).repeat)
                    == Some(i as int),
                EndAction::Stop => spec_advance_index(old(self).current, 1, old(self).len, old(self).repeat) is None,
                EndAction::Replay => false,
            }),
            (old(self).repeat != RepeatMode::One && old(self).len > 0 && old(self).shuffle_order@.len()
                > 0) ==> (match r {
                EndAction::Play(i) => spec_shuffle_position(
                    old(self).shuffle_order@.len(),
                    old(self).shuffle_pos,
                    1,
                    old(self).repeat,
                ) == Some(final(self).shuffle_pos as int) && i == old(self).shuffle_order@[final(self).shuffle_pos as int],
                EndAction::Stop => spec_shuffle_position(
                    old(self).shuffle_order@.len(),
                    old(self).shuffle_pos,
                    1,
                    old(self).repeat,
                ) is None && final(self).shuffle_pos == old(self).shuffle_pos,
                EndAction::Replay => false,
            }),
    {
        if self.repeat == RepeatMode::One {
            return EndAction::Replay;
        }
        match self.next(1) {
            Some(i) => EndAction::Play(i),
            None => EndAction::Stop,
        }
    }

    /// Remove track `index` from the playlist. Returns whether the removed
    /// track was the current one (then playback stops and nothing is
    /// current); a later current track moves down by one.
    pub fn remove(&mut self, index: usize) -> (stopped: bool)
        requires
            old(self).wf(),
        ensures
            final(self).wf(),
            index >= old(self).len ==> final(self).len == old(self).len && final(self).current
                == old(self).current && !stopped,
            index < old(self).len ==> final(self).len == old(self).len - 1,
            index < old(self).len ==> match old(self).current {
                Some(c) => if c == index {
                    stopped && final(self).current is None
                } else if c > index {
                    !stopped && final(self).current == Some((c - 1) as usize)
                } else {
                    !stopped && final(self).current == Some(c)
                },
                None => !stopped && final(self).current is None,
            },
            final(self).shuffle == old(self).shuffle,
            final(self).repeat == old(self).repeat,
            index >= old(self).len ==> final(self).shuffle_order@ == old(self).shuffle_order@
                && final(self).shuffle_pos == old(self).shuffle_pos,
            index < old(self).len && !(final(self).shuffle && final(self).len > 0) ==> final(self).shuffle_pos == 0,
            (index < old(self).len && final(self).shuffle && final(self).len > 0 && final(self).current is Some)
                ==> final(self).shuffle_pos < final(self).len
                && final(self).shuffle_order@[final(self).shuffle_pos as int] == final(self).current->0,
    {
        if index >= self.len {
            return false;
        }
        let mut stopped = false;
        match self.current {
            Some(cur) => {
                if cur == index {
                    self.current = None;
                    stopped = true;
                } else if cur > index {
                    self.current = Some(cur - 1);
                }
            },
            None => {},
        }
        self.len = self.len - 1;
        self.rebuild_shuffle();
        stopped
    }

    /// Empty the playlist.
    pub fn clear(&mut self)
        ensures
            final(self).wf(),
            final(self).len == 0,
            final(self).current is None,
            final(self).shuffle == old(self).shuffle,
            !(final(self).shuffle && final(self).len > 0) ==> final(self).shuffle_pos == 0,
            (final(self).shuffle && final(self).len > 0 && final(self).current is Some) ==> final(self).shuffle_pos < final(self).len
                && final(self).shuffle_order@[final(self).shuffle_pos as int] == final(self).current->0,
    {
        self.len = 0;
        self.current = None;
        self.rebuild_shuffle();
    }

    /// `added` tracks were appended to the playlist.
    pub fn append(&mut self, added: usize)
        requires
            old(self).wf(),
            old(self).len + added <= usize::MAX,
        ensures
            final(self).wf(),
            final(self).len == old(self).len + added,
            final(self).current == old(self).current,
            !(final(self).shuffle && final(self).len > 0) ==> final(self).shuffle_pos == 0,
            (final(self).shuffle && final(self).len > 0 && final(self).current is Some) ==> final(self).shuffle_pos < final(self).len
                && final(self).shuffle_order@[final(self).shuffle_pos as int] == final(self).current->0,
    {
        self.len = self.len + added;
        self.rebuild_shuffle();
    }

    /// The playlist was re-sorted: the track now at position `k` was at
    /// `perm[k]`. The current track and the shuffled order follow their
    /// tracks to the new positions.
    pub fn apply_sort(&mut self, perm: &[usize])
        requires
            old(self).wf(),
            is_order_of(perm@, old(self).len as nat),
        ensures
            final(self).wf(),
            final(self).len == old(self).len,
            final(self).shuffle == old(self).shuffle,
            final(self).repeat == old(self).repeat,
            final(self).shuffle_pos == old(self).shuffle_pos,
            match old(self).current {
                Some(c) => final(self).current matches Some(n) && n < perm@.len() && perm@[n as int]
                    == c,
                None => final(self).current is None,
            },
            final(self).shuffle_order@.len() == old(self).shuffle_order@.len(),
            forall|k: int|
                0 <= k < final(self).shuffle_order@.len() ==> perm@[#[trigger] final(self).shuffle_order@[k] as int] == old(self).shuffle_order@[k],
    {
        let new_pos = inverse_permutation(perm);
        match self.current {
            Some(c) => {
                self.current = Some(new_pos[c]);
            },
            None => {},
        }
        let mut order: Vec<usize> = Vec::new();
        let mut k: usize = 0;
        while k < self.shuffle_order.len()
            invariant
                k <= self.shuffle_order@.len(),
                order@.len() == k,
                new_pos@.len() == perm@.len(),
                perm@.len() == self.len,
                self.shuffle && self.len > 0 ==> is_order_of(self.shuffle_order@, self.len as nat),
                !(self.shuffle && self.len > 0) ==> self.shuffle_order@.len() == 0,
                forall|j: int| 0 <= j < perm@.len() ==> #[trigger] new_pos@[perm@[j] as int] == j,
                forall|j: int| 0 <= j < new_pos@.len() ==> #[trigger] perm@[new_pos@[j] as int] == j,
                forall|j: int| 0 <= j < new_pos@.len() ==> #[trigger] new_pos@[j] < new_pos@.len(),
                forall|j: int|
                    0 <= j < k ==> order@[j] == new_pos@[self.shuffle_order@[j] as int],
            decreases self.shuffle_order.len() - k,
        {
            let old_index = self.shuffle_order[k];
            order.push(new_pos[old_index]);
            k += 1;
        }
        proof {
            let o = self.shuffle_order@;
            if self.shuffle && self.len > 0 {
                lemma_mapped_order(o, order@, new_pos@, perm@, self.len as nat);
            }
        }
        self.shuffle_order = order;
    }
}

/// Every index below `n` occurs in an order of `0..n`.
proof fn lemma_order_contains(s: Seq<usize>, n: nat, x: usize)
    requires
        is_order_of(s, n),
        x < n,
    ensures
        s.contains(x),
{
    broadcast use vstd::set::group_set_axioms;

    // The `n` distinct values of `s`, as integers, all lie in `0..n`; missing
    // `x` they would fit in `n - 1` places.
    let t = s.map_values(|v: usize| v as int);
    assert forall|a: int, b: int| 0 <= a < t.len() && 0 <= b < t.len() && a != b implies t[a]
        != t[b] by {
        assert(s[a] != s[b]);
    }
    t.unique_seq_to_set();
    if !s.contains(x) {
        let range = vstd::set_lib::set_int_range(0, n as int);
        vstd::set_lib::lemma_int_range(0, n as int);
        let smaller = range.remove(x as int);
        assert forall|v: int| t.to_set().contains(v) implies smaller.contains(v) by {
            let i = choose|i: int| 0 <= i < t.len() && t[i] == v;
            assert(s[i] < n);
            if v == x as int {
                assert(s[i] == x);
            }
        }
        assert(t.to_set().subset_of(smaller));
        vstd::set_lib::lemma_len_subset(t.to_set(), smaller);
        assert(false);
    }
}

/// Mapping an order through a permutation's inverse gives an order.
proof fn lemma_mapped_order(
    o: Seq<usize>,
    m: Seq<usize>,
    new_pos: Seq<usize>,
    perm: Seq<usize>,
    n: nat,
)
    requires
        is_order_of(o, n),
        m.len() == o.len(),
        new_pos.len() == n,
        perm.len() == n,
        forall|j: int| 0 <= j < n ==> #[trigger] perm[new_pos[j] as int] == j,
        forall|j: int| 0 <= j < n ==> #[trigger] new_pos[j] < n,
        forall|j: int| 0 <= j < m.len() ==> m[j] == new_pos[o[j] as int],
    ensures
        is_order_of(m, n),
{
    assert forall|a: int, b: int| 0 <= a < m.len() && 0 <= b < m.len() && a != b implies m[a]
        != m[b] by {
        if m[a] == m[b] {
            assert(perm[new_pos[o[a] as int] as int] == o[a]);
            assert(perm[new_pos[o[b] as int] as int] == o[b]);
        }
    }
    assert forall|j: int| 0 <= j < m.len() implies #[trigger] m[j] < n by {
        assert(o[j] < n);
    }
}

/// The inverse of a permutation: `new_pos[perm[k]] == k`.
pub fn inverse_permutation(perm: &[usize]) -> (r: Vec<usize>)
    requires
        is_order_of(perm@, perm@.len()),
    ensures
        r@.len() == perm@.len(),
        forall|k: int| 0 <= k < perm@.len() ==> #[trigger] r@[perm@[k] as int] == k,
        forall|j: int| 0 <= j < r@.len() ==> #[trigger] perm@[r@[j] as int] == j,
        forall|j: int| 0 <= j < r@.len() ==> #[trigger] r@[j] < r@.len(),
{
    let n = perm.len();
    let mut r: Vec<usize> = Vec::new();
    let mut i: usize = 0;
    while i < n
        invariant
            i <= n,
            n == perm@.len(),
            r@.len() == i,
        decreases n - i,
    {
        r.push(0);
        i += 1;
    }
    let mut k: usize = 0;
    while k < n
        invariant
            k <= n,
            n == perm@.len(),
            r@.len() == n,
            is_order_of(perm@, n as nat),
            forall|j: int| 0 <= j < k ==> #[trigger] r@[perm@[j] as int] == j,
        decreases n - k,
    {
        let p = perm[k];
        r.set(p, k);
        proof {
            assert forall|j: int| 0 <= j < k implies #[trigger] r@[perm@[j] as int] == j by {
                assert(perm@[j] != perm@[k as int]);
            }
        }
        k += 1;
    }
    proof {
        assert forall|j: int| 0 <= j < n implies #[trigger] perm@[r@[j] as int] == j by {
            lemma_order_contains(perm@, n as nat, j as usize);
            let k = choose|k: int| 0 <= k < n && perm@[k] == j as usize;
            assert(r@[perm@[k] as int] == k);
        }
        assert forall|j: int| 0 <= j < n implies #[trigger] r@[j] < n by {
            lemma_order_contains(perm@, n as nat, j as usize);
            let k = choose|k: int| 0 <= k < n && perm@[k] == j as usize;
            assert(r@[perm@[k] as int] == k);
        }
    }
    r
}

/// The queue stays well formed and the current track keeps pointing at the
/// same track through a removal of another track.
pub proof fn law_remove_keeps_current_track(c: usize, index: usize, len: usize)
    requires
        c < len,
        index < len,
        c != index,
    ensures
        ({
            let n = if c > index {
                c - 1
            } else {
                c as int
            };
            &&& 0 <= n < len - 1
            &&& (if n < index {
                n
            } else {
                n + 1
            }) == c
        }),
{
}

} // verus!
