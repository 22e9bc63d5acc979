use crate::contract::Corgi3D;
use crate::corgi::TokenId;
use crate::keying::sha256_of;
use crate::rarity::{seed_of, traits_of};
use vstd::prelude::*;

verus! {

/// Whether bucket `i` of the owner index lists `id`.
pub open spec fn bucket_lists(s: &Corgi3D, i: int, id: TokenId) -> bool {
    0 <= i < s.account_corgis.buckets@.len() && s.account_corgis.buckets@[i].corgi_ids@.contains(id)
}

/// In a well-formed state every existing item is listed by exactly one
/// bucket of the owner index, the one keyed by its owner's digest, and an
/// id that does not exist is listed by none.
pub proof fn lemma_item_in_exactly_one_bucket(s: &Corgi3D, id: TokenId)
    requires
        s.wf(),
    ensures
        s.present(id) ==> exists|i: int| {
            &&& #[trigger] bucket_lists(s, i, id)
            &&& s.account_corgis.buckets@[i].account_hash@ == sha256_of(s.owner(id))
            &&& forall|j: int| bucket_lists(s, j, id) ==> j == i
        },
        !s.present(id) ==> forall|j: int| !bucket_lists(s, j, id),
{
    if s.present(id) {
        let h = sha256_of(s.owner(id));
        assert(s.account_corgis.contains(h, id));
        let i = choose|i: int| #[trigger] s.account_corgis.keyed(i, h) && s.account_corgis.buckets@[i].corgi_ids@.contains(id);
        assert forall|j: int| bucket_lists(s, j, id) implies j == i by {
            let hj = s.account_corgis.buckets@[j].account_hash@;
            assert(s.account_corgis.keyed(j, hj));
            assert(s.account_corgis.contains(hj, id));
            s.account_corgis.lemma_keyed_unique(i, j, h);
        }
        assert(bucket_lists(s, i, id));
    } else {
        assert forall|j: int| !bucket_lists(s, j, id) by {
            if bucket_lists(s, j, id) {
                let hj = s.account_corgis.buckets@[j].account_hash@;
                assert(s.account_corgis.keyed(j, hj));
                assert(s.account_corgis.contains(hj, id));
            }
        }
    }
}

/// A move of item `id` to `to` takes it out of every bucket but the one of
/// `to`'s digest, which then lists it; in particular the previous owner's
/// bucket loses it whenever the two owners' digests differ.
pub proof fn lemma_move_rebuckets(s0: &Corgi3D, s1: &Corgi3D, id: TokenId, to: Seq<char>)
    requires
        s0.wf(),
        s0.present(id),
        s0.moved_keeping_others(s1, id, to),
    ensures
        s1.account_corgis.contains(sha256_of(to), id),
        forall|h: Seq<u8>| h != sha256_of(to) ==> !#[trigger] s1.account_corgis.contains(h, id),
        s0.account_corgis.contains(sha256_of(s0.owner(id)), id),
        sha256_of(s0.owner(id)) != sha256_of(to) ==> !s1.account_corgis.contains(sha256_of(s0.owner(id)), id),
{
}

/// An account may always act for itself, whatever the delegations.
pub proof fn lemma_self_access(s: &Corgi3D, account: Seq<char>)
    ensures
        s.may_act(account, account),
{
}

/// After `owner` grants `delegate`, the delegate may act for the owner; after
/// the owner then revokes it, the delegate no longer may, unless it is the
/// owner itself.
pub proof fn lemma_grant_then_revoke(
    s0: &Corgi3D,
    s1: &Corgi3D,
    s2: &Corgi3D,
    owner: Seq<char>,
    delegate: Seq<char>,
)
    requires
        s0.wf(),
        s0.granted(s1, owner, delegate),
        s1.revoked(s2, owner, delegate),
        owner != delegate,
    ensures
        s1.may_act(owner, delegate),
        !s2.may_act(owner, delegate),
{
    assert(s1.account_gives_access.grants(sha256_of(owner), sha256_of(delegate)));
    assert(!s2.account_gives_access.grants(sha256_of(owner), sha256_of(delegate)));
}

/// The generator depends on its inputs only through the seed: equal seeds,
/// in particular equal entropy and id, give equal tier and value.
pub proof fn lemma_traits_deterministic(e1: Seq<u8>, id1: TokenId, e2: Seq<u8>, id2: TokenId)
    requires
        seed_of(e1, id1) == seed_of(e2, id2),
    ensures
        traits_of(e1, id1) == traits_of(e2, id2),
{
}

/// Entropy beyond its first 24 bytes does not change the generated traits.
pub proof fn lemma_traits_ignore_excess_entropy(e: Seq<u8>, id: TokenId)
    requires
        e.len() > 24,
    ensures
        traits_of(e, id) == traits_of(e.subrange(0, 24), id),
{
    assert(seed_of(e, id) =~= seed_of(e.subrange(0, 24), id));
}

} // verus!
