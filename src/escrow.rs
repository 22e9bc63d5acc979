use crate::corgi::NftError;
use crate::keying::bytes_equal;
use vstd::prelude::*;

verus! {

/// Whether the list of digests `v` holds the digest `e`.
pub open spec fn lists(v: Seq<Vec<u8>>, e: Seq<u8>) -> bool {
    exists|j: int| 0 <= j < v.len() && (#[trigger] v[j])@ == e
}

/// No digest occurs twice in `v`.
pub open spec fn distinct_digests(v: Seq<Vec<u8>>) -> bool {
    forall|a: int, b: int| 0 <= a < v.len() && 0 <= b < v.len() && a != b ==> (#[trigger] v[a])@ != (#[trigger] v[b])@
}

/// The delegates of one account, all by digest.
#[derive(Debug)]
pub struct AccessGrant {
    pub account_hash: Vec<u8>,
    pub escrow_hashes: Vec<Vec<u8>>,
}

/// Delegation table: owner digest to the digests of the accounts that may
/// move the owner's items.
#[derive(Debug)]
pub struct AccessTable {
    pub entries: Vec<AccessGrant>,
}

/// The position of the digest `e` in `v`.
fn position_of_digest(v: &Vec<Vec<u8>>, e: &Vec<u8>) -> (r: Option<usize>)
    ensures
        match r {
            Some(j) => j < v@.len() && v@[j as int]@ == e@,
            None => !lists(v@, e@),
        },
{
    let mut j: usize = 0;
    while j < v.len()
        invariant
            j <= v@.len(),
            forall|k: int| 0 <= k < j ==> v@[k]@ != e@,
        decreases v@.len() - j,
    {
        if bytes_equal(&v[j], e) {
            return Some(j);
        }
        j = j + 1;
    }
    None
}

/// Removing a position of a list of distinct digests keeps the rest.
proof fn lemma_remove_digest(v: Seq<Vec<u8>>, j: int)
    requires
        distinct_digests(v),
        0 <= j < v.len(),
    ensures
        distinct_digests(v.remove(j)),
        forall|e: Seq<u8>| lists(v.remove(j), e) == (lists(v, e) && e != v[j]@),
{
    let r = v.remove(j);
    assert forall|a: int, b: int| 0 <= a < r.len() && 0 <= b < r.len() && a != b implies (#[trigger] r[a])@ != (#[trigger] r[b])@ by {
        let sa = if a < j { a } else { a + 1 };
        let sb = if b < j { b } else { b + 1 };
        assert(r[a] == v[sa]);
        assert(r[b] == v[sb]);
    }
    assert forall|e: Seq<u8>| lists(r, e) == (lists(v, e) && e != v[j]@) by {
        if lists(r, e) {
            let a = choose|a: int| 0 <= a < r.len() && (#[trigger] r[a])@ == e;
            let sa = if a < j { a } else { a + 1 };
            assert(v[sa] == r[a]);
        }
        if lists(v, e) && e != v[j]@ {
            let a = choose|a: int| 0 <= a < v.len() && (#[trigger] v[a])@ == e;
            if a < j {
                assert(r[a] == v[a]);
            } else {
                assert(r[a - 1] == v[a]);
            }
        }
    }
}

impl AccessTable {
    /// Keys are distinct, and no list names a delegate twice.
    pub open spec fn wf(&self) -> bool {
        &&& forall|i: int, j: int|
            0 <= i < self.entries@.len() && 0 <= j < self.entries@.len() && i != j
                ==> #[trigger] self.entries@[i].account_hash@ != #[trigger] self.entries@[j].account_hash@
        &&& forall|i: int|
            0 <= i < self.entries@.len() ==> distinct_digests((#[trigger] self.entries@[i]).escrow_hashes@)
    }

    pub open spec fn keyed(&self, i: int, h: Seq<u8>) -> bool {
        0 <= i < self.entries@.len() && self.entries@[i].account_hash@ == h
    }

    /// Whether the owner with digest `h` has ever granted a delegation.
    pub open spec fn has_entry(&self, h: Seq<u8>) -> bool {
        exists|i: int| self.keyed(i, h)
    }

    /// Whether the owner with digest `h` delegates to the digest `e`.
    pub open spec fn grants(&self, h: Seq<u8>, e: Seq<u8>) -> bool {
        exists|i: int| #[trigger] self.keyed(i, h) && lists(self.entries@[i].escrow_hashes@, e)
    }

    /// The number of delegates of `h`.
    pub open spec fn count_of(&self, h: Seq<u8>) -> nat {
        if self.has_entry(h) {
            self.entries@[choose|i: int| self.keyed(i, h)].escrow_hashes@.len()
        } else {
            0
        }
    }

    pub proof fn lemma_keyed_unique(&self, a: int, b: int, h: Seq<u8>)
        requires
            self.wf(),
            self.keyed(a, h),
            self.keyed(b, h),
        ensures
            a == b,
    {
        if a != b {
            assert(self.entries@[a].account_hash@ != self.entries@[b].account_hash@);
        }
    }

    pub fn new() -> (r: AccessTable)
        ensures
            r.wf(),
            forall|h: Seq<u8>| !r.has_entry(h),
            forall|h: Seq<u8>, e: Seq<u8>| !r.grants(h, e),
    {
        AccessTable { entries: Vec::new() }
    }

    /// The number of owners that have an entry.
    pub fn len(&self) -> (r: usize)
        ensures
            r == self.entries@.len(),
    {
        self.entries.len()
    }

    /// The position of the entry keyed by `h`.
    pub fn find(&self, h: &Vec<u8>) -> (r: Option<usize>)
        requires
            self.wf(),
        ensures
            match r {
                Some(i) => self.keyed(i as int, h@),
                None => !self.has_entry(h@),
            },
    {
        let mut i: usize = 0;
        while i < self.entries.len()
            invariant
                i <= self.entries@.len(),
                forall|k: int| 0 <= k < i ==> self.entries@[k].account_hash@ != h@,
            decreases self.entries@.len() - i,
        {
            if bytes_equal(&self.entries[i].account_hash, h) {
                return Some(i);
            }
            i = i + 1;
        }
        None
    }

    /// The number of delegates of the owner with digest `h`.
    pub fn grantee_count(&self, h: &Vec<u8>) -> (r: usize)
        requires
            self.wf(),
        ensures
            r == self.count_of(h@),
    {
        match self.find(h) {
            Some(i) => {
                proof {
                    let c = choose|k: int| self.keyed(k, h@);
                    self.lemma_keyed_unique(c, i as int, h@);
                }
                self.entries[i].escrow_hashes.len()
            },
            None => 0,
        }
    }

    /// Whether the owner with digest `h` delegates to the digest `e`.
    pub fn check(&self, h: &Vec<u8>, e: &Vec<u8>) -> (r: bool)
        requires
            self.wf(),
        ensures
            r == self.grants(h@, e@),
    {
        match self.find(h) {
            Some(i) => {
                let found = position_of_digest(&self.entries[i].escrow_hashes, e);
                proof {
                    if self.grants(h@, e@) {
                        let k = choose|k: int| #[trigger] self.keyed(k, h@) && lists(self.entries@[k].escrow_hashes@, e@);
                        self.lemma_keyed_unique(k, i as int, h@);
                    }
                }
                found.is_some()
            },
            None => false,
        }
    }

    /// Adds the digest `e` to the delegates of `h`; no effect when present.
    pub fn grant(&mut self, h: &Vec<u8>, e: &Vec<u8>)
        requires
            old(self).wf(),
        ensures
            final(self).wf(),
            forall|g: Seq<u8>| #[trigger] final(self).has_entry(g) == (old(self).has_entry(g) || g == h@),
            forall|g: Seq<u8>, d: Seq<u8>|
                #[trigger] final(self).grants(g, d) == (old(self).grants(g, d) || (g == h@ && d == e@)),
    {
        let ghost pre = *self;
        match self.find(h) {
            Some(i) => {
                let mut entry = self.entries.remove(i);
                let ghost before = entry.escrow_hashes@;
                let found = position_of_digest(&entry.escrow_hashes, e);
                if found.is_none() {
                    entry.escrow_hashes.push(e.clone());
                }
                self.entries.insert(i, entry);
                proof {
                    let after = self.entries@[i as int].escrow_hashes@;
                    assert(before == pre.entries@[i as int].escrow_hashes@);
                    assert(distinct_digests(after)) by {
                        if found.is_none() {
                            assert forall|a: int, b: int| 0 <= a < after.len() && 0 <= b < after.len() && a != b
                                implies (#[trigger] after[a])@ != (#[trigger] after[b])@ by {
                                if a == before.len() {
                                    assert(after[b] == before[b]);
                                } else if b == before.len() {
                                    assert(after[a] == before[a]);
                                } else {
                                    assert(after[a] == before[a]);
                                    assert(after[b] == before[b]);
                                }
                            }
                        }
                    }
                    assert(forall|d: Seq<u8>| lists(after, d) == (lists(before, d) || d == e@)) by {
                        assert forall|d: Seq<u8>| lists(after, d) == (lists(before, d) || d == e@) by {
                            if lists(after, d) {
                                let a = choose|a: int| 0 <= a < after.len() && (#[trigger] after[a])@ == d;
                                if a < before.len() {
                                    assert(before[a] == after[a]);
                                }
                            }
                            if lists(before, d) {
                                let a = choose|a: int| 0 <= a < before.len() && (#[trigger] before[a])@ == d;
                                assert(after[a] == before[a]);
                            }
                            if d == e@ && found.is_none() {
                                assert(after[before.len() as int]@ == e@);
                            }
                            if d == e@ && found.is_some() {
                                let j = found.unwrap() as int;
                                assert(before[j]@ == e@);
                                assert(after[j] == before[j]);
                            }
                        }
                    }
                    assert forall|a: int, b: int|
                        0 <= a < self.entries@.len() && 0 <= b < self.entries@.len() && a != b
                            implies #[trigger] self.entries@[a].account_hash@ != #[trigger] self.entries@[b].account_hash@ by {
                        assert(self.entries@[a].account_hash@ == pre.entries@[a].account_hash@);
                        assert(self.entries@[b].account_hash@ == pre.entries@[b].account_hash@);
                    }
                    assert forall|a: int| 0 <= a < self.entries@.len()
                        implies distinct_digests((#[trigger] self.entries@[a]).escrow_hashes@) by {
                        if a != i {
                            assert(self.entries@[a] == pre.entries@[a]);
                        }
                    }
                    assert forall|g: Seq<u8>| #[trigger] self.has_entry(g) == (pre.has_entry(g) || g == h@) by {
                        if self.has_entry(g) {
                            let k = choose|k: int| self.keyed(k, g);
                            assert(pre.keyed(k, g));
                        }
                        if pre.has_entry(g) {
                            let k = choose|k: int| pre.keyed(k, g);
                            assert(self.keyed(k, g));
                        }
                        if g == h@ {
                            assert(self.keyed(i as int, g));
                        }
                    }
                    assert forall|g: Seq<u8>, d: Seq<u8>|
                        #[trigger] self.grants(g, d) == (pre.grants(g, d) || (g == h@ && d == e@)) by {
                        if self.grants(g, d) {
                            let k = choose|k: int| #[trigger] self.keyed(k, g) && lists(self.entries@[k].escrow_hashes@, d);
                            assert(pre.keyed(k, g));
                            if k == i && !(g == h@ && d == e@) {
                                assert(lists(before, d));
                            }
                            if k != i {
                                assert(self.entries@[k] == pre.entries@[k]);
                            }
                        }
                        if pre.grants(g, d) {
                            let k = choose|k: int| #[trigger] pre.keyed(k, g) && lists(pre.entries@[k].escrow_hashes@, d);
                            assert(self.keyed(k, g));
                            if k != i {
                                assert(self.entries@[k] == pre.entries@[k]);
                            }
                        }
                        if g == h@ && d == e@ {
                            assert(self.keyed(i as int, g));
                        }
                    }
                }
            },
            None => {
                let mut escrows: Vec<Vec<u8>> = Vec::new();
                escrows.push(e.clone());
                self.entries.push(AccessGrant { account_hash: h.clone(), escrow_hashes: escrows });
                proof {
                    let n = pre.entries@.len() as int;
                    assert(self.keyed(n, h@));
                    assert(self.entries@[n].escrow_hashes@[0]@ == e@);
                    assert forall|a: int, b: int|
                        0 <= a < self.entries@.len() && 0 <= b < self.entries@.len() && a != b
                            implies #[trigger] self.entries@[a].account_hash@ != #[trigger] self.entries@[b].account_hash@ by {
                        if a == n {
                            assert(!pre.keyed(b, h@));
                        } else if b == n {
                            assert(!pre.keyed(a, h@));
                        }
                    }
                    assert forall|a: int| 0 <= a < self.entries@.len()
                        implies distinct_digests((#[trigger] self.entries@[a]).escrow_hashes@) by {
                        if a < n {
                            assert(self.entries@[a] == pre.entries@[a]);
                        }
                    }
                    assert forall|g: Seq<u8>| #[trigger] self.has_entry(g) == (pre.has_entry(g) || g == h@) by {
                        if self.has_entry(g) {
                            let k = choose|k: int| self.keyed(k, g);
                            if k < n {
                                assert(pre.keyed(k, g));
                            }
                        }
                        if pre.has_entry(g) {
                            let k = choose|k: int| pre.keyed(k, g);
                            assert(self.keyed(k, g));
                        }
                    }
                    assert forall|g: Seq<u8>, d: Seq<u8>|
                        #[trigger] self.grants(g, d) == (pre.grants(g, d) || (g == h@ && d == e@)) by {
                        if self.grants(g, d) {
                            let k = choose|k: int| #[trigger] self.keyed(k, g) && lists(self.entries@[k].escrow_hashes@, d);
                            if k < n {
                                assert(pre.keyed(k, g));
                                assert(self.entries@[k] == pre.entries@[k]);
                            } else {
                                let a = choose|a: int| 0 <= a < self.entries@[k].escrow_hashes@.len() && (#[trigger] self.entries@[k].escrow_hashes@[a])@ == d;
                                assert(a == 0);
                            }
                        }
                        if pre.grants(g, d) {
                            let k = choose|k: int| #[trigger] pre.keyed(k, g) && lists(pre.entries@[k].escrow_hashes@, d);
                            assert(self.keyed(k, g));
                            assert(self.entries@[k] == pre.entries@[k]);
                        }
                    }
                }
            },
        }
    }

    /// Removes the digest `e` from the delegates of `h`. Fails with
    /// `NoDelegation` when `h` has never granted anything, and with
    /// `DelegateNotFound` when `e` is not among its delegates; a failure
    /// changes nothing.
    pub fn revoke(&mut self, h: &Vec<u8>, e: &Vec<u8>) -> (r: Result<(), NftError>)
        requires
            old(self).wf(),
        ensures
            final(self).wf(),
            !old(self).has_entry(h@) ==> r == Err::<(), NftError>(NftError::NoDelegation),
            old(self).has_entry(h@) && !old(self).grants(h@, e@) ==> r == Err::<(), NftError>(
                NftError::DelegateNotFound,
            ),
            old(self).grants(h@, e@) ==> r is Ok,
            r is Err ==> *final(self) == *old(self),
            forall|g: Seq<u8>| #[trigger] final(self).has_entry(g) == old(self).has_entry(g),
            forall|g: Seq<u8>, d: Seq<u8>|
                #[trigger] final(self).grants(g, d) == (old(self).grants(g, d) && !(g == h@ && d == e@)),
    {
        let ghost pre = *self;
        let i = match self.find(h) {
            Some(i) => i,
            None => {
                proof {
                    assert forall|g: Seq<u8>, d: Seq<u8>|
                        #[trigger] self.grants(g, d) == (pre.grants(g, d) && !(g == h@ && d == e@)) by {
                        if g == h@ && self.grants(g, d) {
                            let k = choose|k: int| #[trigger] self.keyed(k, g) && lists(self.entries@[k].escrow_hashes@, d);
                        }
                    }
                }
                return Err(NftError::NoDelegation);
            },
        };
        let j = match position_of_digest(&self.entries[i].escrow_hashes, e) {
            Some(j) => j,
            None => {
                proof {
                    assert(self.has_entry(h@));
                    assert(!self.grants(h@, e@)) by {
                        if self.grants(h@, e@) {
                            let k = choose|k: int| #[trigger] self.keyed(k, h@) && lists(self.entries@[k].escrow_hashes@, e@);
                            self.lemma_keyed_unique(k, i as int, h@);
                        }
                    }
                    assert forall|g: Seq<u8>, d: Seq<u8>|
                        #[trigger] self.grants(g, d) == (pre.grants(g, d) && !(g == h@ && d == e@)) by {
                    }
                }
                return Err(NftError::DelegateNotFound);
            },
        };
        let mut entry = self.entries.remove(i);
        let ghost before = entry.escrow_hashes@;
        entry.escrow_hashes.remove(j);
        self.entries.insert(i, entry);
        proof {
            assert(before == pre.entries@[i as int].escrow_hashes@);
            lemma_remove_digest(before, j as int);
            let after = self.entries@[i as int].escrow_hashes@;
            assert(after == before.remove(j as int));
            assert(pre.keyed(i as int, h@));
            assert(lists(before, e@));
            assert(pre.grants(h@, e@));
            assert forall|a: int, b: int|
                0 <= a < self.entries@.len() && 0 <= b < self.entries@.len() && a != b
                    implies #[trigger] self.entries@[a].account_hash@ != #[trigger] self.entries@[b].account_hash@ by {
                assert(self.entries@[a].account_hash@ == pre.entries@[a].account_hash@);
                assert(self.entries@[b].account_hash@ == pre.entries@[b].account_hash@);
            }
            assert forall|a: int| 0 <= a < self.entries@.len()
                implies distinct_digests((#[trigger] self.entries@[a]).escrow_hashes@) by {
                if a != i {
                    assert(self.entries@[a] == pre.entries@[a]);
                }
            }
            assert forall|g: Seq<u8>| #[trigger] self.has_entry(g) == pre.has_entry(g) by {
                if self.has_entry(g) {
                    let k = choose|k: int| self.keyed(k, g);
                    assert(pre.keyed(k, g));
                }
                if pre.has_entry(g) {
                    let k = choose|k: int| pre.keyed(k, g);
                    assert(self.keyed(k, g));
                }
            }
            assert forall|g: Seq<u8>, d: Seq<u8>|
                #[trigger] self.grants(g, d) == (pre.grants(g, d) && !(g == h@ && d == e@)) by {
                if self.grants(g, d) {
                    let k = choose|k: int| #[trigger] self.keyed(k, g) && lists(self.entries@[k].escrow_hashes@, d);
                    assert(pre.keyed(k, g));
                    if k != i {
                        assert(self.entries@[k] == pre.entries@[k]);
                    } else {
                        assert(g == h@);
                    }
                }
                if pre.grants(g, d) && !(g == h@ && d == e@) {
                    let k = choose|k: int| #[trigger] pre.keyed(k, g) && lists(pre.entries@[k].escrow_hashes@, d);
                    assert(self.keyed(k, g));
                    if k != i {
                        assert(self.entries@[k] == pre.entries@[k]);
                    } else {
                        pre.lemma_keyed_unique(k, i as int, h@);
                    }
                }
            }
        }
        Ok(())
    }
}

} // verus!
