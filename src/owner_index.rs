use crate::corgi::TokenId;
use crate::keying::bytes_equal;
use vstd::prelude::*;

verus! {

/// The items held by one account, keyed by the account's digest.
#[derive(Debug)]
pub struct AccountCorgis {
    pub account_hash: Vec<u8>,
    pub corgi_ids: Vec<TokenId>,
}

/// Reverse index from account digest to the ids that the account holds.
#[derive(Debug)]
pub struct OwnerIndex {
    pub buckets: Vec<AccountCorgis>,
}

/// The first position of `id` in `ids`.
pub fn position_of(ids: &Vec<TokenId>, id: TokenId) -> (r: Option<usize>)
    ensures
        match r {
            Some(j) => j < ids@.len() && ids@[j as int] == id,
            None => !ids@.contains(id),
        },
{
    let mut j: usize = 0;
    while j < ids.len()
        invariant
            j <= ids@.len(),
            forall|k: int| 0 <= k < j ==> ids@[k] != id,
        decreases ids@.len() - j,
    {
        if ids[j] == id {
            return Some(j);
        }
        j = j + 1;
    }
    None
}

/// `s` with position `j` overwritten by the last element, then shortened by one.
pub open spec fn swap_removed(s: Seq<TokenId>, j: int) -> Seq<TokenId> {
    s.update(j, s.last()).drop_last()
}

/// Removing a position of a duplicate-free sequence by swapping keeps it
/// duplicate-free and drops exactly the element that stood there.
pub proof fn lemma_swap_removed(s: Seq<TokenId>, j: int)
    requires
        s.no_duplicates(),
        0 <= j < s.len(),
    ensures
        swap_removed(s, j).no_duplicates(),
        forall|x: TokenId| swap_removed(s, j).contains(x) == (s.contains(x) && x != s[j]),
        swap_removed(s, j).len() == s.len() - 1,
{
    let r = swap_removed(s, j);
    let n = s.len() - 1;
    assert forall|a: int, b: int| 0 <= a < r.len() && 0 <= b < r.len() && a != b implies r[a] != r[b] by {
        let sa = if a == j { n } else { a };
        let sb = if b == j { n } else { b };
        assert(r[a] == s[sa]);
        assert(r[b] == s[sb]);
    }
    assert forall|x: TokenId| r.contains(x) == (s.contains(x) && x != s[j]) by {
        if r.contains(x) {
            let a = choose|a: int| 0 <= a < r.len() && r[a] == x;
            let sa = if a == j { n } else { a };
            assert(s[sa] == x);
        }
        if s.contains(x) && x != s[j] {
            let a = choose|a: int| 0 <= a < s.len() && s[a] == x;
            if a == n {
                assert(r[j] == x);
            } else {
                assert(r[a] == x);
            }
        }
    }
}

impl OwnerIndex {
    /// Keys are distinct, and no bucket lists an id twice.
    pub open spec fn wf(&self) -> bool {
        &&& forall|i: int, j: int|
            0 <= i < self.buckets@.len() && 0 <= j < self.buckets@.len() && i != j
                ==> #[trigger] self.buckets@[i].account_hash@ != #[trigger] self.buckets@[j].account_hash@
        &&& forall|i: int|
            0 <= i < self.buckets@.len() ==> (#[trigger] self.buckets@[i]).corgi_ids@.no_duplicates()
    }

    /// Whether bucket `i` exists and is keyed by `h`.
    pub open spec fn keyed(&self, i: int, h: Seq<u8>) -> bool {
        0 <= i < self.buckets@.len() && self.buckets@[i].account_hash@ == h
    }

    /// Whether the account with digest `h` has a bucket.
    pub open spec fn has_bucket(&self, h: Seq<u8>) -> bool {
        exists|i: int| self.keyed(i, h)
    }

    /// Whether the bucket of `h` holds `id`.
    pub open spec fn contains(&self, h: Seq<u8>, id: TokenId) -> bool {
        exists|i: int| #[trigger] self.keyed(i, h) && self.buckets@[i].corgi_ids@.contains(id)
    }

    /// The ids of the bucket of `h`, in stored order; empty without a bucket.
    pub open spec fn ids_of(&self, h: Seq<u8>) -> Seq<TokenId> {
        if self.has_bucket(h) {
            self.buckets@[choose|i: int| self.keyed(i, h)].corgi_ids@
        } else {
            Seq::empty()
        }
    }

    /// Under `wf`, at most one bucket is keyed by a given digest.
    pub proof fn lemma_keyed_unique(&self, a: int, b: int, h: Seq<u8>)
        requires
            self.wf(),
            self.keyed(a, h),
            self.keyed(b, h),
        ensures
            a == b,
    {
        if a != b {
            assert(self.buckets@[a].account_hash@ != self.buckets@[b].account_hash@);
        }
    }

    pub fn new() -> (r: OwnerIndex)
        ensures
            r.wf(),
            forall|h: Seq<u8>| !r.has_bucket(h),
            forall|h: Seq<u8>, id: TokenId| !r.contains(h, id),
    {
        OwnerIndex { buckets: Vec::new() }
    }

    /// The position of the bucket keyed by `h`.
    pub fn find(&self, h: &Vec<u8>) -> (r: Option<usize>)
        requires
            self.wf(),
        ensures
            match r {
                Some(i) => self.keyed(i as int, h@) && self.ids_of(h@) == self.buckets@[i as int].corgi_ids@,
                None => !self.has_bucket(h@),
            },
    {
        let mut i: usize = 0;
        while i < self.buckets.len()
            invariant
                self.wf(),
                i <= self.buckets@.len(),
                forall|k: int| 0 <= k < i ==> self.buckets@[k].account_hash@ != h@,
            decreases self.buckets@.len() - i,
        {
            if bytes_equal(&self.buckets[i].account_hash, h) {
                proof {
                    assert(self.keyed(i as int, h@));
                    let c = choose|k: int| self.keyed(k, h@);
                    self.lemma_keyed_unique(c, i as int, h@);
                }
                return Some(i);
            }
            i = i + 1;
        }
        None
    }

    /// Adds `id` to the bucket of `h`, creating the bucket if needed.
    pub fn insert(&mut self, h: &Vec<u8>, id: TokenId)
        requires
            old(self).wf(),
            forall|g: Seq<u8>| !old(self).contains(g, id),
        ensures
            final(self).wf(),
            forall|g: Seq<u8>, x: TokenId|
                #[trigger] final(self).contains(g, x) == (old(self).contains(g, x) || (g == h@ && x == id)),
            forall|g: Seq<u8>| #[trigger] final(self).has_bucket(g) == (old(self).has_bucket(g) || g == h@),
            forall|g: Seq<u8>|
                g != h@ ==> #[trigger] final(self).ids_of(g) == old(self).ids_of(g),
            final(self).ids_of(h@) == old(self).ids_of(h@).push(id),
    {
        let ghost pre = *self;
        match self.find(h) {
            Some(i) => {
                let mut bucket = self.buckets.remove(i);
                bucket.corgi_ids.push(id);
                self.buckets.insert(i, bucket);
                proof {
                    assert(pre.keyed(i as int, h@));
                    assert(!pre.contains(h@, id));
                    assert(!pre.buckets@[i as int].corgi_ids@.contains(id));
                    assert forall|a: int, b: int|
                        0 <= a < self.buckets@.len() && 0 <= b < self.buckets@.len() && a != b
                            implies #[trigger] self.buckets@[a].account_hash@ != #[trigger] self.buckets@[b].account_hash@ by {
                        assert(self.buckets@[a].account_hash@ == pre.buckets@[a].account_hash@);
                        assert(self.buckets@[b].account_hash@ == pre.buckets@[b].account_hash@);
                    }
                    assert forall|a: int| 0 <= a < self.buckets@.len()
                        implies (#[trigger] self.buckets@[a]).corgi_ids@.no_duplicates() by {
                        if a != i {
                            assert(self.buckets@[a] == pre.buckets@[a]);
                        }
                    }
                    assert forall|g: Seq<u8>, x: TokenId|
                        self.contains(g, x) == (pre.contains(g, x) || (g == h@ && x == id)) by {
                        if self.contains(g, x) {
                            let k = choose|k: int| #[trigger] self.keyed(k, g) && self.buckets@[k].corgi_ids@.contains(x);
                            if k != i {
                                assert(pre.keyed(k, g));
                            } else if x != id {
                                assert(pre.buckets@[k].corgi_ids@.contains(x));
                                assert(pre.keyed(k, g));
                            }
                        }
                        if pre.contains(g, x) {
                            let k = choose|k: int| #[trigger] pre.keyed(k, g) && pre.buckets@[k].corgi_ids@.contains(x);
                            assert(self.keyed(k, g));
                            if k == i {
                                assert(self.buckets@[k].corgi_ids@[pre.buckets@[k].corgi_ids@.index_of(x)] == x);
                            }
                            assert(self.buckets@[k].corgi_ids@.contains(x));
                        }
                        if g == h@ && x == id {
                            assert(self.keyed(i as int, g));
                            assert(self.buckets@[i as int].corgi_ids@.last() == id);
                        }
                    }
                    assert forall|g: Seq<u8>| self.has_bucket(g) == (pre.has_bucket(g) || g == h@) by {
                        if self.has_bucket(g) {
                            let k = choose|k: int| self.keyed(k, g);
                            assert(pre.keyed(k, g));
                        }
                        if pre.has_bucket(g) {
                            let k = choose|k: int| pre.keyed(k, g);
                            assert(self.keyed(k, g));
                        }
                        if g == h@ {
                            assert(self.keyed(i as int, g));
                        }
                    }
                    assert forall|g: Seq<u8>| g != h@ implies self.ids_of(g) == pre.ids_of(g) by {
                        if self.has_bucket(g) {
                            let k = choose|k: int| self.keyed(k, g);
                            assert(pre.keyed(k, g));
                            let kp = choose|k: int| pre.keyed(k, g);
                            pre.lemma_keyed_unique(k, kp, g);
                        }
                        if pre.has_bucket(g) {
                            let k = choose|k: int| pre.keyed(k, g);
                            assert(self.keyed(k, g));
                        }
                    }
                    let c = choose|k: int| self.keyed(k, h@);
                    assert(self.keyed(i as int, h@));
                    self.lemma_keyed_unique(c, i as int, h@);
                }
            },
            None => {
                let mut ids: Vec<TokenId> = Vec::new();
                ids.push(id);
                let key = h.clone();
                self.buckets.push(AccountCorgis { account_hash: key, corgi_ids: ids });
                proof {
                    let n = pre.buckets@.len() as int;
                    assert(self.buckets@[n].corgi_ids@ =~= seq![id]);
                    assert(self.keyed(n, h@));
                    assert forall|a: int, b: int|
                        0 <= a < self.buckets@.len() && 0 <= b < self.buckets@.len() && a != b
                            implies #[trigger] self.buckets@[a].account_hash@ != #[trigger] self.buckets@[b].account_hash@ by {
                        if a == n {
                            assert(!pre.keyed(b, h@));
                        } else if b == n {
                            assert(!pre.keyed(a, h@));
                        }
                    }
                    assert forall|a: int| 0 <= a < self.buckets@.len()
                        implies (#[trigger] self.buckets@[a]).corgi_ids@.no_duplicates() by {
                        if a < n {
                            assert(self.buckets@[a] == pre.buckets@[a]);
                        }
                    }
                    assert forall|g: Seq<u8>, x: TokenId|
                        self.contains(g, x) == (pre.contains(g, x) || (g == h@ && x == id)) by {
                        if self.contains(g, x) {
                            let k = choose|k: int| #[trigger] self.keyed(k, g) && self.buckets@[k].corgi_ids@.contains(x);
                            if k < n {
                                assert(pre.keyed(k, g));
                            } else {
                                assert(self.buckets@[k].corgi_ids@[0] == id);
                            }
                        }
                        if pre.contains(g, x) {
                            let k = choose|k: int| #[trigger] pre.keyed(k, g) && pre.buckets@[k].corgi_ids@.contains(x);
                            assert(self.keyed(k, g));
                        }
                        if g == h@ && x == id {
                            assert(self.buckets@[n].corgi_ids@[0] == id);
                        }
                    }
                    assert forall|g: Seq<u8>| self.has_bucket(g) == (pre.has_bucket(g) || g == h@) by {
                        if self.has_bucket(g) {
                            let k = choose|k: int| self.keyed(k, g);
                            if k < n {
                                assert(pre.keyed(k, g));
                            }
                        }
                        if pre.has_bucket(g) {
                            let k = choose|k: int| pre.keyed(k, g);
                            assert(self.keyed(k, g));
                        }
                    }
                    assert forall|g: Seq<u8>| g != h@ implies self.ids_of(g) == pre.ids_of(g) by {
                        if self.has_bucket(g) {
                            let k = choose|k: int| self.keyed(k, g);
                            assert(k < n);
                            assert(pre.keyed(k, g));
                            let kp = choose|k: int| pre.keyed(k, g);
                            pre.lemma_keyed_unique(k, kp, g);
                        }
                        if pre.has_bucket(g) {
                            let k = choose|k: int| pre.keyed(k, g);
                            assert(self.keyed(k, g));
                        }
                    }
                    let c = choose|k: int| self.keyed(k, h@);
                    self.lemma_keyed_unique(c, n, h@);
                    assert(pre.ids_of(h@) == Seq::<TokenId>::empty());
                    assert(self.ids_of(h@) =~= pre.ids_of(h@).push(id));
                }
            },
        }
    }

    /// Removes `id` from the bucket of `h`, moving the bucket's last id into
    /// its place; nothing changes when the bucket does not hold `id`.
    pub fn remove(&mut self, h: &Vec<u8>, id: TokenId)
        requires
            old(self).wf(),
        ensures
            final(self).wf(),
            forall|g: Seq<u8>, x: TokenId|
                #[trigger] final(self).contains(g, x) == (old(self).contains(g, x) && !(g == h@ && x == id)),
            forall|g: Seq<u8>| #[trigger] final(self).has_bucket(g) == old(self).has_bucket(g),
            forall|g: Seq<u8>| g != h@ ==> #[trigger] final(self).ids_of(g) == old(self).ids_of(g),
            old(self).ids_of(h@).contains(id) ==> final(self).ids_of(h@) == swap_removed(
                old(self).ids_of(h@),
                old(self).ids_of(h@).index_of(id),
            ),
            !old(self).ids_of(h@).contains(id) ==> final(self).ids_of(h@) == old(self).ids_of(h@),
    {
        let ghost pre = *self;
        match self.find(h) {
            None => {
                proof {
                    assert forall|g: Seq<u8>, x: TokenId|
                        self.contains(g, x) == (pre.contains(g, x) && !(g == h@ && x == id)) by {
                        if g == h@ && self.contains(g, x) {
                            let k = choose|k: int| #[trigger] self.keyed(k, g) && self.buckets@[k].corgi_ids@.contains(x);
                            assert(self.has_bucket(h@));
                        }
                    }
                }
            },
            Some(i) => {
                let j = match position_of(&self.buckets[i].corgi_ids, id) {
                    Some(j) => j,
                    None => {
                        proof {
                            assert forall|g: Seq<u8>, x: TokenId|
                                self.contains(g, x) == (pre.contains(g, x) && !(g == h@ && x == id)) by {
                                if g == h@ && x == id && self.contains(g, x) {
                                    let k = choose|k: int| #[trigger] self.keyed(k, g) && self.buckets@[k].corgi_ids@.contains(x);
                                    self.lemma_keyed_unique(k, i as int, h@);
                                }
                            }
                        }
                        return;
                    },
                };
                let mut bucket = self.buckets.remove(i);
                let ghost before = bucket.corgi_ids@;
                bucket.corgi_ids.swap_remove(j);
                self.buckets.insert(i, bucket);
                proof {
                    lemma_swap_removed(before, j as int);
                    assert(before.index_of(id) == j as int) by {
                        assert(before[j as int] == id);
                        before.index_of_first(id);
                        let f = before.index_of(id);
                        assert(pre.keyed(i as int, h@));
                        assert(before == pre.buckets@[i as int].corgi_ids@);
                    }
                    assert forall|a: int, b: int|
                        0 <= a < self.buckets@.len() && 0 <= b < self.buckets@.len() && a != b
                            implies #[trigger] self.buckets@[a].account_hash@ != #[trigger] self.buckets@[b].account_hash@ by {
                        assert(self.buckets@[a].account_hash@ == pre.buckets@[a].account_hash@);
                        assert(self.buckets@[b].account_hash@ == pre.buckets@[b].account_hash@);
                    }
                    assert forall|a: int| 0 <= a < self.buckets@.len()
                        implies (#[trigger] self.buckets@[a]).corgi_ids@.no_duplicates() by {
                        if a != i {
                            assert(self.buckets@[a] == pre.buckets@[a]);
                        }
                    }
                    assert forall|g: Seq<u8>, x: TokenId|
                        self.contains(g, x) == (pre.contains(g, x) && !(g == h@ && x == id)) by {
                        if self.contains(g, x) {
                            let k = choose|k: int| #[trigger] self.keyed(k, g) && self.buckets@[k].corgi_ids@.contains(x);
                            assert(pre.keyed(k, g));
                            if k == i {
                                self.lemma_keyed_unique(k, i as int, h@);
                            }
                        }
                        if pre.contains(g, x) && !(g == h@ && x == id) {
                            let k = choose|k: int| #[trigger] pre.keyed(k, g) && pre.buckets@[k].corgi_ids@.contains(x);
                            assert(self.keyed(k, g));
                            if k == i {
                                pre.lemma_keyed_unique(k, i as int, h@);
                            }
                        }
                    }
                    assert forall|g: Seq<u8>| self.has_bucket(g) == pre.has_bucket(g) by {
                        if self.has_bucket(g) {
                            let k = choose|k: int| self.keyed(k, g);
                            assert(pre.keyed(k, g));
                        }
                        if pre.has_bucket(g) {
                            let k = choose|k: int| pre.keyed(k, g);
                            assert(self.keyed(k, g));
                        }
                    }
                    assert forall|g: Seq<u8>| g != h@ implies self.ids_of(g) == pre.ids_of(g) by {
                        if self.has_bucket(g) {
                            let k = choose|k: int| self.keyed(k, g);
                            assert(pre.keyed(k, g));
                            let kp = choose|k: int| pre.keyed(k, g);
                            pre.lemma_keyed_unique(k, kp, g);
                        }
                        if pre.has_bucket(g) {
                            let k = choose|k: int| pre.keyed(k, g);
                            assert(self.keyed(k, g));
                        }
                    }
                    let c = choose|k: int| self.keyed(k, h@);
                    assert(self.keyed(i as int, h@));
                    self.lemma_keyed_unique(c, i as int, h@);
                    assert(pre.ids_of(h@) == before);
                    assert(before.contains(id));
                }
            },
        }
    }
}

} // verus!
