//! Parent-to-clone lookup over the game catalogue.
//!
//! Clones are grouped by a hash of their parent's name into buckets, so the
//! clones of a parent are found without scanning the whole catalogue.
use vstd::prelude::*;

use crate::models::{parent_name, Game};
use crate::text::chars_of;

verus! {

/// Modulus of the name hash.
pub const HASH_MODULUS: u64 = 1_000_000_007;

/// Polynomial hash of a name.
pub open spec fn name_hash(s: Seq<char>) -> nat
    decreases s.len(),
{
    if s.len() == 0 {
        0
    } else {
        ((name_hash(s.drop_last()) * 31 + (s.last() as u32) as nat) % (HASH_MODULUS as nat)) as nat
    }
}

/// Hash of a name, as `name_hash` defines it.
pub fn hash_name(s: &str) -> (h: u64)
    ensures
        h == name_hash(s@),
        h < HASH_MODULUS,
{
    let v = chars_of(s);
    let mut h: u64 = 0;
    let mut i: usize = 0;
    while i < v.len()
        invariant
            v@ == s@,
            i <= v.len(),
            h == name_hash(v@.take(i as int)),
            h < HASH_MODULUS,
        decreases v.len() - i,
    {
        assert(v@.take(i + 1).drop_last() =~= v@.take(i as int));
        h = (h * 31 + (v[i] as u32) as u64) % HASH_MODULUS;
        i = i + 1;
    }
    assert(v@.take(i as int) =~= v@);
    h
}

/// The clone indices, in catalogue order, among the first `n` games, of the
/// parent named `name`.
pub open spec fn clone_indices(games: Seq<Game>, name: Seq<char>, n: int) -> Seq<usize>
    decreases n,
{
    if n <= 0 {
        Seq::empty()
    } else {
        let prev = clone_indices(games, name, n - 1);
        if games[n - 1].is_clone && parent_name(games[n - 1]) == Some(name) {
            prev.push((n - 1) as usize)
        } else {
            prev
        }
    }
}

/// All clones of the parent named `name`, in catalogue order.
pub open spec fn clones_of(games: Seq<Game>, name: Seq<char>) -> Seq<usize> {
    clone_indices(games, name, games.len() as int)
}

/// The bucket of a clone's parent, for `count` buckets.
pub open spec fn bucket_of(g: Game, count: nat) -> int {
    match parent_name(g) {
        Some(p) => (name_hash(p) % count) as int,
        None => -1,
    }
}

/// The clone indices among the first `n` games whose parent falls into bucket `b`.
pub open spec fn bucket_spec(games: Seq<Game>, b: int, count: nat, n: int) -> Seq<usize>
    decreases n,
{
    if n <= 0 {
        Seq::empty()
    } else {
        let prev = bucket_spec(games, b, count, n - 1);
        if games[n - 1].is_clone && bucket_of(games[n - 1], count) == b {
            prev.push((n - 1) as usize)
        } else {
            prev
        }
    }
}

/// The entries of `idxs` whose game names `name` as parent.
pub open spec fn select_parent(games: Seq<Game>, idxs: Seq<usize>, name: Seq<char>) -> Seq<usize>
    decreases idxs.len(),
{
    if idxs.len() == 0 {
        Seq::empty()
    } else {
        let prev = select_parent(games, idxs.drop_last(), name);
        if parent_name(games[idxs.last() as int]) == Some(name) {
            prev.push(idxs.last())
        } else {
            prev
        }
    }
}

proof fn lemma_select_push(games: Seq<Game>, idxs: Seq<usize>, x: usize, name: Seq<char>)
    ensures
        select_parent(games, idxs.push(x), name) == if parent_name(games[x as int]) == Some(
            name,
        ) {
            select_parent(games, idxs, name).push(x)
        } else {
            select_parent(games, idxs, name)
        },
{
    assert(idxs.push(x).drop_last() =~= idxs);
}

proof fn lemma_bucket_selects_clones(games: Seq<Game>, name: Seq<char>, count: nat, n: int)
    requires
        count > 0,
        0 <= n <= games.len(),
        n <= usize::MAX,
    ensures
        select_parent(
            games,
            bucket_spec(games, (name_hash(name) % count) as int, count, n),
            name,
        ) == clone_indices(games, name, n),
    decreases n,
{
    let b = (name_hash(name) % count) as int;
    if n > 0 {
        lemma_bucket_selects_clones(games, name, count, n - 1);
        let g = games[n - 1];
        let prev = bucket_spec(games, b, count, n - 1);
        if g.is_clone && bucket_of(g, count) == b {
            lemma_select_push(games, prev, (n - 1) as usize, name);
        } else if g.is_clone && parent_name(g) == Some(name) {
            assert(bucket_of(g, count) == b);
        }
    }
}

proof fn lemma_bucket_entries_bounded(games: Seq<Game>, b: int, count: nat, n: int)
    requires
        0 <= n <= usize::MAX,
    ensures
        forall|k: int|
            0 <= k < bucket_spec(games, b, count, n).len() ==> #[trigger] bucket_spec(
                games,
                b,
                count,
                n,
            )[k] < n,
    decreases n,
{
    if n > 0 {
        lemma_bucket_entries_bounded(games, b, count, n - 1);
        let prev = bucket_spec(games, b, count, n - 1);
        let cur = bucket_spec(games, b, count, n);
        assert forall|k: int| 0 <= k < cur.len() implies #[trigger] cur[k] < n by {
            if k < prev.len() {
                assert(cur[k] == prev[k]);
            }
        }
    }
}

/// Clones grouped by the bucket of their parent's name.
pub struct CloneIndex {
    pub buckets: Vec<Vec<usize>>,
}

impl CloneIndex {
    /// The index describes the given catalogue.
    pub open spec fn describes(&self, games: Seq<Game>) -> bool {
        &&& self.buckets@.len() > 0
        &&& forall|b: int|
            0 <= b < self.buckets@.len() ==> (#[trigger] self.buckets@[b])@ == bucket_spec(
                games,
                b,
                self.buckets@.len() as nat,
                games.len() as int,
            )
    }

    /// Groups the clones of `games` by parent.
    pub fn build(games: &Vec<Game>) -> (r: CloneIndex)
        ensures
            r.describes(games@),
    {
        let count = if games.len() == 0 {
            1
        } else {
            games.len()
        };
        CloneIndex { buckets: Self::bucket_clones(games, count) }
    }

    /// Whether this index describes the given catalogue (and so may be used
    /// with it).
    pub fn describes_catalogue(&self, games: &Vec<Game>) -> (r: bool)
        ensures
            r == self.describes(games@),
    {
        let count = self.buckets.len();
        if count == 0 {
            return false;
        }
        let fresh = Self::bucket_clones(games, count);
        let mut b: usize = 0;
        while b < count
            invariant
                count == self.buckets@.len(),
                count > 0,
                b <= count,
                fresh@.len() == count,
                forall|k: int| 0 <= k < count ==> (#[trigger] fresh@[k])@ == bucket_spec(
                    games@,
                    k,
                    count as nat,
                    games.len() as int,
                ),
                forall|k: int| 0 <= k < b ==> (#[trigger] self.buckets@[k])@ == fresh@[k]@,
            decreases count - b,
        {
            let mine = &self.buckets[b];
            let theirs = &fresh[b];
            if mine.len() != theirs.len() {
                assert(self.buckets@[b as int]@ != fresh@[b as int]@);
                return false;
            }
            let mut j: usize = 0;
            while j < mine.len()
                invariant
                    j <= mine.len(),
                    mine.len() == theirs.len(),
                    b < count,
                    count == self.buckets@.len(),
                    fresh@.len() == count,
                    *mine == self.buckets@[b as int],
                    *theirs == fresh@[b as int],
                    forall|k: int| 0 <= k < count ==> (#[trigger] fresh@[k])@ == bucket_spec(
                        games@,
                        k,
                        count as nat,
                        games.len() as int,
                    ),
                    forall|k: int| 0 <= k < j ==> mine@[k] == theirs@[k],
                decreases mine.len() - j,
            {
                if mine[j] != theirs[j] {
                    assert(mine@[j as int] != theirs@[j as int]);
                    assert(self.buckets@[b as int]@ != fresh@[b as int]@);
                    return false;
                }
                j = j + 1;
            }
            assert(mine@ =~= theirs@);
            b = b + 1;
        }
        true
    }

    /// The clones of `games`, grouped into `count` buckets by the hash of
    /// their parent's name.
    fn bucket_clones(games: &Vec<Game>, count: usize) -> (buckets: Vec<Vec<usize>>)
        requires
            count > 0,
        ensures
            buckets@.len() == count,
            forall|k: int|
                0 <= k < count ==> (#[trigger] buckets@[k])@ == bucket_spec(
                    games@,
                    k,
                    count as nat,
                    games.len() as int,
                ),
    {
        let mut buckets: Vec<Vec<usize>> = Vec::new();
        let mut b: usize = 0;
        while b < count
            invariant
                b <= count,
                buckets@.len() == b,
                forall|k: int| 0 <= k < b ==> (#[trigger] buckets@[k])@.len() == 0,
            decreases count - b,
        {
            buckets.push(Vec::new());
            b = b + 1;
        }
        let mut i: usize = 0;
        while i < games.len()
            invariant
                count > 0,
                i <= games.len(),
                buckets@.len() == count,
                forall|k: int|
                    0 <= k < count ==> (#[trigger] buckets@[k])@ == bucket_spec(
                        games@,
                        k,
                        count as nat,
                        i as int,
                    ),
            decreases games.len() - i,
        {
            let game = &games[i];
            if game.is_clone {
                match &game.parent {
                    Some(parent) => {
                        let h = hash_name(parent.as_str());
                        let slot = (h % (count as u64)) as usize;
                        let ghost before = buckets@;
                        buckets[slot].push(i);
                        assert forall|k: int| 0 <= k < count implies (#[trigger] buckets@[k])@
                            == bucket_spec(games@, k, count as nat, i + 1) by {
                            assert(bucket_of(games@[i as int], count as nat) == slot);
                            if k != slot {
                                assert(buckets@[k] == before[k]);
                            }
                        }
                    },
                    None => {
                        assert forall|k: int| 0 <= k < count implies (#[trigger] buckets@[k])@
                            == bucket_spec(games@, k, count as nat, i + 1) by {
                            assert(bucket_of(games@[i as int], count as nat) == -1);
                        }
                    },
                }
            }
            i = i + 1;
        }
        buckets
    }

    /// The clones of the parent named `name`, in catalogue order.
    pub fn clones_of(&self, games: &Vec<Game>, name: &str) -> (r: Vec<usize>)
        requires
            self.describes(games@),
        ensures
            r@ == clones_of(games@, name@),
            forall|k: int| 0 <= k < r@.len() ==> #[trigger] r@[k] < games.len(),
    {
        let count = self.buckets.len();
        let slot = (hash_name(name) % (count as u64)) as usize;
        let bucket = &self.buckets[slot];
        proof {
            lemma_bucket_selects_clones(games@, name@, count as nat, games.len() as int);
            lemma_bucket_entries_bounded(games@, slot as int, count as nat, games.len() as int);
        }
        let mut r: Vec<usize> = Vec::new();
        let mut j: usize = 0;
        while j < bucket.len()
            invariant
                j <= bucket.len(),
                bucket@ == bucket_spec(games@, slot as int, count as nat, games.len() as int),
                forall|k: int| 0 <= k < bucket@.len() ==> #[trigger] bucket@[k] < games.len(),
                r@ == select_parent(games@, bucket@.take(j as int), name@),
                forall|k: int| 0 <= k < r@.len() ==> #[trigger] r@[k] < games.len(),
            decreases bucket.len() - j,
        {
            let idx = bucket[j];
            proof {
                assert(bucket@.take(j + 1) =~= bucket@.take(j as int).push(idx));
                lemma_select_push(games@, bucket@.take(j as int), idx, name@);
            }
            let is_child = match &games[idx].parent {
                Some(p) => crate::text::same_text(p.as_str(), name),
                None => false,
            };
            if is_child {
                r.push(idx);
            }
            j = j + 1;
        }
        assert(bucket@.take(j as int) =~= bucket@);
        r
    }
}

/// A set of names stored in buckets by name hash.
pub struct NameSet {
    buckets: Vec<Vec<String>>,
}

impl NameSet {
    /// The names in the set.
    pub closed spec fn view_set(&self) -> Set<Seq<char>> {
        Set::new(
            |s: Seq<char>|
                exists|b: int, k: int|
                    0 <= b < self.buckets@.len() && 0 <= k < self.buckets@[b]@.len()
                        && #[trigger] self.buckets@[b]@[k]@ == s,
        )
    }

    /// Every name is stored in the bucket of its hash.
    pub closed spec fn wf(&self) -> bool {
        &&& self.buckets@.len() > 0
        &&& forall|b: int, k: int|
            0 <= b < self.buckets@.len() && 0 <= k < self.buckets@[b]@.len() ==> name_hash(
                (#[trigger] self.buckets@[b]@[k])@,
            ) % (self.buckets@.len() as nat) == b
    }

    /// An empty set sized for about `capacity` names.
    pub fn new(capacity: usize) -> (r: NameSet)
        ensures
            r.wf(),
            r.view_set() == Set::<Seq<char>>::empty(),
    {
        let count = if capacity == 0 {
            1
        } else {
            capacity
        };
        let mut buckets: Vec<Vec<String>> = Vec::new();
        let mut b: usize = 0;
        while b < count
            invariant
                b <= count,
                buckets@.len() == b,
                forall|k: int| 0 <= k < b ==> (#[trigger] buckets@[k])@.len() == 0,
            decreases count - b,
        {
            buckets.push(Vec::new());
            b = b + 1;
        }
        let r = NameSet { buckets };
        assert(r.view_set() =~= Set::<Seq<char>>::empty());
        r
    }

    /// Whether `name` is in the set.
    pub fn contains(&self, name: &str) -> (r: bool)
        requires
            self.wf(),
        ensures
            r == self.view_set().contains(name@),
    {
        let count = self.buckets.len();
        let h = hash_name(name);
        let slot = (h % (count as u64)) as usize;
        let bucket = &self.buckets[slot];
        let mut k: usize = 0;
        while k < bucket.len()
            invariant
                0 <= slot < count,
                count == self.buckets@.len(),
                bucket == self.buckets@[slot as int],
                k <= bucket.len(),
                forall|j: int| 0 <= j < k ==> (#[trigger] bucket@[j])@ != name@,
            decreases bucket.len() - k,
        {
            if crate::text::same_text(bucket[k].as_str(), name) {
                assert(self.buckets@[slot as int]@[k as int]@ == name@);
                return true;
            }
            k = k + 1;
        }
        assert forall|b: int, j: int|
            0 <= b < self.buckets@.len() && 0 <= j < self.buckets@[b]@.len() implies #[trigger] self.buckets@[b]@[j]@
            != name@ by {
            if self.buckets@[b]@[j]@ == name@ {
                assert(b == slot);
            }
        }
        false
    }

    /// Adds `name`; returns whether it was not in the set before.
    pub fn insert(&mut self, name: &str) -> (r: bool)
        requires
            old(self).wf(),
        ensures
            final(self).wf(),
            final(self).view_set() == old(self).view_set().insert(name@),
            r == !old(self).view_set().contains(name@),
    {
        if self.contains(name) {
            assert(self.view_set().insert(name@) =~= self.view_set());
            return false;
        }
        let count = self.buckets.len();
        let h = hash_name(name);
        let slot = (h % (count as u64)) as usize;
        let ghost before = self.buckets@;
        let ghost old_set = self.view_set();
        self.buckets[slot].push(name.to_owned());
        assert forall|b: int| 0 <= b < count && b != slot implies self.buckets@[b] == before[b] by {}
        assert(self.buckets@[slot as int]@ == before[slot as int]@.push(
            self.buckets@[slot as int]@[before[slot as int]@.len() as int],
        ));
        assert(self.buckets@[slot as int]@[before[slot as int]@.len() as int]@ == name@);
        assert forall|b: int, k: int|
            0 <= b < self.buckets@.len() && 0 <= k < self.buckets@[b]@.len() implies name_hash(
            (#[trigger] self.buckets@[b]@[k])@,
        ) % (self.buckets@.len() as nat) == b by {
            if b == slot && k < before[b]@.len() {
                assert(self.buckets@[b]@[k] == before[b]@[k]);
            }
        }
        assert forall|s: Seq<char>| #[trigger] self.view_set().contains(s) <==> old_set.insert(
            name@,
        ).contains(s) by {
            if self.view_set().contains(s) {
                let (b, k) = choose|b: int, k: int|
                    0 <= b < self.buckets@.len() && 0 <= k < self.buckets@[b]@.len()
                        && #[trigger] self.buckets@[b]@[k]@ == s;
                if b == slot && k == before[b]@.len() {
                } else if b == slot {
                    assert(self.buckets@[b]@[k] == before[b]@[k]);
                } else {
                    assert(self.buckets@[b] == before[b]);
                }
            }
            if old_set.contains(s) {
                let (b, k) = choose|b: int, k: int|
                    0 <= b < before.len() && 0 <= k < before[b]@.len() && #[trigger] before[b]@[k]@
                        == s;
                if b == slot {
                    assert(self.buckets@[b]@[k] == before[b]@[k]);
                } else {
                    assert(self.buckets@[b] == before[b]);
                }
                assert(self.buckets@[b]@[k]@ == s);
            }
            if s == name@ {
                assert(self.buckets@[slot as int]@[before[slot as int]@.len() as int]@ == s);
            }
        }
        assert(self.view_set() =~= old_set.insert(name@));
        true
    }
}

} // verus!
