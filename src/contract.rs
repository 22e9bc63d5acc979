use crate::account::{is_valid_account_id, valid_account_id};
use crate::corgi::{AccountFruit, AccountId, Corgi, NftError, Payment, TokenId};
use crate::escrow::AccessTable;
use crate::keying::{account_hash, sha256_of};
use crate::owner_index::OwnerIndex;
use crate::rarity::{generate_rate_sausage, traits_of};
use vstd::math::min;
use vstd::prelude::*;

verus! {

/// The creation fee of an item: 3 NEAR in yoctoNEAR.
pub const CREATION_FEE: u128 = 3_000_000_000_000_000_000_000_000;

/// The whole state: item registry, forward owner map, owner index and
/// delegation table.
///
/// Slot `id` of `corgis` and of `corgi_to_account` describes item `id`; a
/// deleted item leaves `None` in both.
#[derive(Debug)]
pub struct Corgi3D {
    pub corgi_to_account: Vec<Option<AccountId>>,
    pub account_gives_access: AccessTable,
    pub owner_id: AccountId,
    pub corgis: Vec<Option<Corgi>>,
    pub account_corgis: OwnerIndex,
    pub next_corgi_id: TokenId,
}

impl Corgi3D {
    /// Whether item `id` exists.
    pub open spec fn present(&self, id: TokenId) -> bool {
        (id as int) < self.corgis@.len() && self.corgis@[id as int] is Some
    }

    /// The record of item `id`, when `present`.
    pub open spec fn item(&self, id: TokenId) -> Corgi {
        self.corgis@[id as int].unwrap()
    }

    /// The owner of item `id`, when `present`.
    pub open spec fn owner(&self, id: TokenId) -> Seq<char> {
        self.corgi_to_account@[id as int].unwrap()@
    }

    /// Whether `caller` may act for `owner`: it is the owner itself or one of
    /// the owner's delegates.
    pub open spec fn may_act(&self, owner: Seq<char>, caller: Seq<char>) -> bool {
        caller == owner || self.account_gives_access.grants(sha256_of(owner), sha256_of(caller))
    }

    /// The ids that the account `owner` holds, in index order.
    pub open spec fn ids_of_owner(&self, owner: Seq<char>) -> Seq<TokenId> {
        self.account_corgis.ids_of(sha256_of(owner))
    }

    /// The registry, forward map and owner index agree: an id sits in the
    /// bucket of exactly the digest of its owner, and nowhere else.
    pub open spec fn wf(&self) -> bool {
        &&& self.corgis@.len() == self.next_corgi_id
        &&& self.corgi_to_account@.len() == self.next_corgi_id
        &&& forall|i: int| 0 <= i < self.corgis@.len() ==>
            (#[trigger] self.corgis@[i] is Some) == (self.corgi_to_account@[i] is Some)
        &&& forall|i: int| 0 <= i < self.corgis@.len() && (#[trigger] self.corgis@[i]) is Some
            ==> self.corgis@[i].unwrap().id == i
        &&& self.account_corgis.wf()
        &&& self.account_gives_access.wf()
        &&& forall|h: Seq<u8>, id: TokenId|
            #[trigger] self.account_corgis.contains(h, id) == (self.present(id) && sha256_of(self.owner(id)) == h)
    }

    /// A fresh state owned by `owner_id`. Fails with `InvalidAccountId` when
    /// the identifier is malformed, and with `AlreadyInitialized` when the host
    /// reports that a state exists.
    pub fn new(owner_id: AccountId, state_exists: bool) -> (r: Result<Corgi3D, NftError>)
        ensures
            !valid_account_id(owner_id@) ==> r == Err::<Corgi3D, NftError>(NftError::InvalidAccountId),
            valid_account_id(owner_id@) && state_exists ==> r == Err::<Corgi3D, NftError>(
                NftError::AlreadyInitialized,
            ),
            valid_account_id(owner_id@) && !state_exists ==> r is Ok,
            r matches Ok(s) ==> {
                &&& s.wf()
                &&& s.owner_id == owner_id
                &&& s.next_corgi_id == 0
                &&& forall|h: Seq<u8>| !s.account_gives_access.has_entry(h)
                &&& forall|h: Seq<u8>| !s.account_corgis.has_bucket(h)
            },
    {
        if !is_valid_account_id(&owner_id) {
            return Err(NftError::InvalidAccountId);
        }
        if state_exists {
            return Err(NftError::AlreadyInitialized);
        }
        let s = Corgi3D {
            corgi_to_account: Vec::new(),
            account_gives_access: AccessTable::new(),
            owner_id,
            corgis: Vec::new(),
            account_corgis: OwnerIndex::new(),
            next_corgi_id: 0,
        };
        proof {
            assert forall|h: Seq<u8>, id: TokenId|
                #[trigger] s.account_corgis.contains(h, id) == (s.present(id) && sha256_of(s.owner(id)) == h) by {
            }
        }
        Ok(s)
    }

    /// The owner of item `token_id`; `NotFound` when it does not exist.
    pub fn get_token_owner(&self, token_id: TokenId) -> (r: Result<AccountId, NftError>)
        requires
            self.wf(),
        ensures
            self.present(token_id) ==> (r matches Ok(o) && o@ == self.owner(token_id)),
            !self.present(token_id) ==> r == Err::<AccountId, NftError>(NftError::NotFound),
    {
        if token_id < self.corgi_to_account.len() as u64 {
            match &self.corgi_to_account[token_id as usize] {
                Some(owner) => Ok(owner.clone()),
                None => Err(NftError::NotFound),
            }
        } else {
            Err(NftError::NotFound)
        }
    }

    /// The record of item `id`; `NotFound` when it does not exist.
    pub fn get_corgi(&self, id: TokenId) -> (r: Result<Corgi, NftError>)
        requires
            self.wf(),
        ensures
            self.present(id) ==> r == Ok::<Corgi, NftError>(self.item(id)),
            !self.present(id) ==> r == Err::<Corgi, NftError>(NftError::NotFound),
    {
        if id < self.corgis.len() as u64 {
            match &self.corgis[id as usize] {
                Some(c) => Ok(c.duplicate()),
                None => Err(NftError::NotFound),
            }
        } else {
            Err(NftError::NotFound)
        }
    }

    /// Whether `predecessor` may act for `account_id`: always for the account
    /// itself, otherwise when `account_id` has delegated to it.
    pub fn check_access(&self, predecessor: &AccountId, account_id: &AccountId) -> (r: bool)
        requires
            self.wf(),
        ensures
            r == self.may_act(account_id@, predecessor@),
    {
        if *predecessor == *account_id {
            return true;
        }
        let account_hash_value = account_hash(account_id);
        let predecessor_hash = account_hash(predecessor);
        self.account_gives_access.check(&account_hash_value, &predecessor_hash)
    }

    /// `post` is this state with item `id` moved to `to` and its listing
    /// cleared; every other item, the delegations and the counters stay.
    pub open spec fn moved_to(&self, post: &Corgi3D, id: TokenId, to: Seq<char>) -> bool {
        &&& self.moved_keeping_others(post, id, to)
        &&& post.item(id) == (Corgi { selling: false, ..self.item(id) })
    }

    /// `post` is this state with item `id` owned by `to`, every other item,
    /// the delegations and the counters unchanged.
    pub open spec fn moved_keeping_others(&self, post: &Corgi3D, id: TokenId, to: Seq<char>) -> bool {
        &&& post.wf()
        &&& post.present(id)
        &&& post.owner(id) == to
        &&& forall|x: TokenId| #![trigger post.present(x)] x != id ==> post.present(x) == self.present(x)
        &&& forall|x: TokenId| #![trigger post.owner(x)] #![trigger post.item(x)]
            x != id && self.present(x) ==> post.owner(x) == self.owner(x) && post.item(x) == self.item(x)
        &&& post.account_gives_access == self.account_gives_access
        &&& post.owner_id == self.owner_id
        &&& post.next_corgi_id == self.next_corgi_id
    }

    /// `post` is this state with `delegate` added to the delegates of
    /// `owner`; items and ownership stay.
    pub open spec fn granted(&self, post: &Corgi3D, owner: Seq<char>, delegate: Seq<char>) -> bool {
        &&& post.wf()
        &&& forall|g: Seq<u8>, d: Seq<u8>| #![trigger post.account_gives_access.grants(g, d)]
            post.account_gives_access.grants(g, d) == (self.account_gives_access.grants(g, d)
                || (g == sha256_of(owner) && d == sha256_of(delegate)))
        &&& forall|g: Seq<u8>| #![trigger post.account_gives_access.has_entry(g)]
            post.account_gives_access.has_entry(g) == (self.account_gives_access.has_entry(g)
                || g == sha256_of(owner))
        &&& post.corgis == self.corgis
        &&& post.corgi_to_account == self.corgi_to_account
        &&& post.account_corgis == self.account_corgis
        &&& post.owner_id == self.owner_id
        &&& post.next_corgi_id == self.next_corgi_id
    }

    /// `post` is this state without `delegate` among the delegates of
    /// `owner`; items and ownership stay.
    pub open spec fn revoked(&self, post: &Corgi3D, owner: Seq<char>, delegate: Seq<char>) -> bool {
        &&& post.wf()
        &&& forall|g: Seq<u8>, d: Seq<u8>| #![trigger post.account_gives_access.grants(g, d)]
            post.account_gives_access.grants(g, d) == (self.account_gives_access.grants(g, d)
                && !(g == sha256_of(owner) && d == sha256_of(delegate)))
        &&& forall|g: Seq<u8>| #![trigger post.account_gives_access.has_entry(g)]
            post.account_gives_access.has_entry(g) == self.account_gives_access.has_entry(g)
        &&& post.corgis == self.corgis
        &&& post.corgi_to_account == self.corgi_to_account
        &&& post.account_corgis == self.account_corgis
        &&& post.owner_id == self.owner_id
        &&& post.next_corgi_id == self.next_corgi_id
    }

    /// Takes item `id` out of `account`'s bucket and clears its forward entry.
    fn delete_corgi_from_account(&mut self, id: TokenId, account: &AccountId)
        requires
            old(self).account_corgis.wf(),
            (id as int) < old(self).corgi_to_account@.len(),
        ensures
            final(self).corgi_to_account@ == old(self).corgi_to_account@.update(id as int, None),
            final(self).corgis == old(self).corgis,
            final(self).account_gives_access == old(self).account_gives_access,
            final(self).owner_id == old(self).owner_id,
            final(self).next_corgi_id == old(self).next_corgi_id,
            final(self).account_corgis.wf(),
            forall|g: Seq<u8>, x: TokenId|
                #[trigger] final(self).account_corgis.contains(g, x) == (old(self).account_corgis.contains(g, x)
                    && !(g == sha256_of(account@) && x == id)),
    {
        // The length call tells Verus that the index fits in a `usize`.
        let _len = self.corgi_to_account.len();
        self.corgi_to_account.set(id as usize, None);
        let hash = account_hash(account);
        self.account_corgis.remove(&hash, id);
    }

    /// Puts item `id` into `account`'s bucket and records `account` as its
    /// owner.
    fn save_corgi_to_account(&mut self, id: TokenId, account: &AccountId)
        requires
            old(self).account_corgis.wf(),
            (id as int) < old(self).corgi_to_account@.len(),
            forall|g: Seq<u8>| !old(self).account_corgis.contains(g, id),
        ensures
            final(self).corgi_to_account@.len() == old(self).corgi_to_account@.len(),
            forall|i: int| 0 <= i < old(self).corgi_to_account@.len() && i != id ==> #[trigger] final(self).corgi_to_account@[i] == old(self).corgi_to_account@[i],
            final(self).corgi_to_account@[id as int] is Some,
            final(self).corgi_to_account@[id as int].unwrap()@ == account@,
            final(self).corgis == old(self).corgis,
            final(self).account_gives_access == old(self).account_gives_access,
            final(self).owner_id == old(self).owner_id,
            final(self).next_corgi_id == old(self).next_corgi_id,
            final(self).account_corgis.wf(),
            forall|g: Seq<u8>, x: TokenId|
                #[trigger] final(self).account_corgis.contains(g, x) == (old(self).account_corgis.contains(g, x)
                    || (g == sha256_of(account@) && x == id)),
    {
        let hash = account_hash(account);
        // The length call tells Verus that the index fits in a `usize`.
        let _len = self.corgi_to_account.len();
        self.corgi_to_account.set(id as usize, Some(account.clone()));
        self.account_corgis.insert(&hash, id);
    }

    /// Moves item `id` from its owner `from` to `to` and clears its listing,
    /// keeping the owner index in step.
    fn move_corgi(&mut self, id: TokenId, from: &AccountId, to: &AccountId)
        requires
            old(self).wf(),
            old(self).present(id),
            old(self).owner(id) == from@,
        ensures
            old(self).moved_to(final(self), id, to@),
    {
        let ghost pre = *self;
        self.delete_corgi_from_account(id, from);
        proof {
            assert forall|g: Seq<u8>| !self.account_corgis.contains(g, id) by {
                if pre.account_corgis.contains(g, id) {
                    assert(g == sha256_of(from@));
                }
            }
        }
        self.save_corgi_to_account(id, to);
        // The length call tells Verus that the index fits in a `usize`.
        let _len = self.corgis.len();
        assert(self.corgis@[id as int] is Some);
        let mut corgi = self.corgis[id as usize].as_ref().unwrap().duplicate();
        corgi.selling = false;
        self.corgis.set(id as usize, Some(corgi));
        proof {
            assert forall|x: TokenId| x != id implies #[trigger] self.present(x) == pre.present(x) by {
            }
            assert forall|x: TokenId| x != id && pre.present(x) implies
                #[trigger] self.owner(x) == pre.owner(x) && self.item(x) == pre.item(x) by {
            }
            assert forall|h: Seq<u8>, x: TokenId|
                #[trigger] self.account_corgis.contains(h, x) == (self.present(x) && sha256_of(self.owner(x)) == h) by {
                if x != id {
                    assert(pre.account_corgis.contains(h, x) == (pre.present(x) && sha256_of(pre.owner(x)) == h));
                    if (x as int) < self.corgis@.len() {
                        assert(self.corgi_to_account@[x as int] == pre.corgi_to_account@[x as int]);
                    }
                } else {
                    assert(pre.account_corgis.contains(h, x) ==> h == sha256_of(from@));
                }
            }
            assert forall|i: int| 0 <= i < self.corgis@.len() implies
                (#[trigger] self.corgis@[i] is Some) == (self.corgi_to_account@[i] is Some) by {
                if i != id {
                    assert(self.corgi_to_account@[i] == pre.corgi_to_account@[i]);
                }
            }
        }
    }

    /// Moves item `token_id` to `new_owner_id`; only its owner may call this.
    /// Fails with `NotFound` when the item does not exist and with
    /// `Unauthorized` when `predecessor` is not its owner, delegates included.
    pub fn transfer(&mut self, predecessor: &AccountId, new_owner_id: &AccountId, token_id: TokenId) -> (r: Result<(), NftError>)
        requires
            old(self).wf(),
        ensures
            final(self).wf(),
            !old(self).present(token_id) ==> r == Err::<(), NftError>(NftError::NotFound),
            old(self).present(token_id) && predecessor@ != old(self).owner(token_id) ==> r == Err::<(), NftError>(
                NftError::Unauthorized,
            ),
            old(self).present(token_id) && predecessor@ == old(self).owner(token_id) ==> r is Ok,
            r is Ok ==> old(self).moved_to(final(self), token_id, new_owner_id@),
            r is Err ==> *final(self) == *old(self),
    {
        let owner = match self.get_token_owner(token_id) {
            Ok(o) => o,
            Err(e) => return Err(e),
        };
        if *predecessor != owner {
            return Err(NftError::Unauthorized);
        }
        self.move_corgi(token_id, &owner, new_owner_id);
        Ok(())
    }

    /// Moves item `token_id` from `owner_id` to `new_owner_id` on behalf of
    /// the owner. Fails with `NotFound` when the item does not exist, with
    /// `OwnerMismatch` when `owner_id` is not its owner, and with
    /// `Unauthorized` when `predecessor` may not act for the owner.
    pub fn transfer_from(
        &mut self,
        predecessor: &AccountId,
        owner_id: &AccountId,
        new_owner_id: &AccountId,
        token_id: TokenId,
    ) -> (r: Result<(), NftError>)
        requires
            old(self).wf(),
        ensures
            final(self).wf(),
            !old(self).present(token_id) ==> r == Err::<(), NftError>(NftError::NotFound),
            old(self).present(token_id) && owner_id@ != old(self).owner(token_id) ==> r == Err::<(), NftError>(
                NftError::OwnerMismatch,
            ),
            old(self).present(token_id) && owner_id@ == old(self).owner(token_id)
                && !old(self).may_act(owner_id@, predecessor@) ==> r == Err::<(), NftError>(NftError::Unauthorized),
            old(self).present(token_id) && owner_id@ == old(self).owner(token_id)
                && old(self).may_act(owner_id@, predecessor@) ==> r is Ok,
            r is Ok ==> old(self).moved_to(final(self), token_id, new_owner_id@),
            r is Err ==> *final(self) == *old(self),
    {
        let owner = match self.get_token_owner(token_id) {
            Ok(o) => o,
            Err(e) => return Err(e),
        };
        if *owner_id != owner {
            return Err(NftError::OwnerMismatch);
        }
        if !self.check_access(predecessor, &owner) {
            return Err(NftError::Unauthorized);
        }
        self.move_corgi(token_id, &owner, new_owner_id);
        Ok(())
    }

    /// `predecessor` lets `escrow_account_id` move its items; granting twice
    /// has no further effect. Items and ownership do not change.
    pub fn grant_access(&mut self, predecessor: &AccountId, escrow_account_id: &AccountId)
        requires
            old(self).wf(),
        ensures
            old(self).granted(final(self), predecessor@, escrow_account_id@),
    {
        let escrow_hash = account_hash(escrow_account_id);
        let predecessor_hash = account_hash(predecessor);
        self.account_gives_access.grant(&predecessor_hash, &escrow_hash);
    }

    /// `predecessor` withdraws the delegation to `escrow_account_id`. Fails
    /// with `NoDelegation` when `predecessor` has never granted anything and
    /// with `DelegateNotFound` when it has not delegated to that account.
    pub fn revoke_access(&mut self, predecessor: &AccountId, escrow_account_id: &AccountId) -> (r: Result<(), NftError>)
        requires
            old(self).wf(),
        ensures
            final(self).wf(),
            !old(self).account_gives_access.has_entry(sha256_of(predecessor@)) ==> r == Err::<(), NftError>(
                NftError::NoDelegation,
            ),
            old(self).account_gives_access.has_entry(sha256_of(predecessor@))
                && !old(self).account_gives_access.grants(sha256_of(predecessor@), sha256_of(escrow_account_id@))
                ==> r == Err::<(), NftError>(NftError::DelegateNotFound),
            old(self).account_gives_access.grants(sha256_of(predecessor@), sha256_of(escrow_account_id@)) ==> r is Ok,
            r is Err ==> *final(self) == *old(self),
            old(self).revoked(final(self), predecessor@, escrow_account_id@),
    {
        let predecessor_hash = account_hash(predecessor);
        let escrow_hash = account_hash(escrow_account_id);
        self.account_gives_access.revoke(&predecessor_hash, &escrow_hash)
    }

    /// Deletes item `id` for good. Fails with `NotFound` when it does not
    /// exist and with `Unauthorized` when `predecessor` may not act for its
    /// owner.
    pub fn delete_corgi(&mut self, predecessor: &AccountId, id: TokenId) -> (r: Result<(), NftError>)
        requires
            old(self).wf(),
        ensures
            final(self).wf(),
            !old(self).present(id) ==> r == Err::<(), NftError>(NftError::NotFound),
            old(self).present(id) && !old(self).may_act(old(self).owner(id), predecessor@) ==> r == Err::<(), NftError>(
                NftError::Unauthorized,
            ),
            old(self).present(id) && old(self).may_act(old(self).owner(id), predecessor@) ==> r is Ok,
            r is Err ==> *final(self) == *old(self),
            r is Ok ==> {
                &&& !final(self).present(id)
                &&& forall|x: TokenId| x != id ==> #[trigger] final(self).present(x) == old(self).present(x)
                &&& forall|x: TokenId| x != id && old(self).present(x) ==>
                    #[trigger] final(self).owner(x) == old(self).owner(x) && final(self).item(x) == old(self).item(x)
                &&& final(self).account_gives_access == old(self).account_gives_access
                &&& final(self).owner_id == old(self).owner_id
                &&& final(self).next_corgi_id == old(self).next_corgi_id
            },
    {
        let account = match self.get_token_owner(id) {
            Ok(o) => o,
            Err(e) => return Err(e),
        };
        if !self.check_access(predecessor, &account) {
            return Err(NftError::Unauthorized);
        }
        let ghost pre = *self;
        self.delete_corgi_from_account(id, &account);
        // The length call tells Verus that the index fits in a `usize`.
        let _len = self.corgis.len();
        self.corgis.set(id as usize, None);
        proof {
            assert forall|x: TokenId| x != id implies #[trigger] self.present(x) == pre.present(x) by {
            }
            assert forall|x: TokenId| x != id && pre.present(x) implies
                #[trigger] self.owner(x) == pre.owner(x) && self.item(x) == pre.item(x) by {
            }
            assert forall|h: Seq<u8>, x: TokenId|
                #[trigger] self.account_corgis.contains(h, x) == (self.present(x) && sha256_of(self.owner(x)) == h) by {
                assert(pre.account_corgis.contains(h, x) == (pre.present(x) && sha256_of(pre.owner(x)) == h));
                if x != id && (x as int) < self.corgis@.len() {
                    assert(self.corgi_to_account@[x as int] == pre.corgi_to_account@[x as int]);
                }
            }
            assert forall|i: int| 0 <= i < self.corgis@.len() implies
                (#[trigger] self.corgis@[i] is Some) == (self.corgi_to_account@[i] is Some) by {
                if i != id {
                    assert(self.corgi_to_account@[i] == pre.corgi_to_account@[i]);
                }
            }
        }
        Ok(())
    }

    /// Lists item `id` for sale at `price`. Fails with `NotFound` when it does
    /// not exist and with `Unauthorized` when `predecessor` may not act for
    /// its owner. No ownership changes.
    pub fn sell_corgi(&mut self, predecessor: &AccountId, id: TokenId, price: u128) -> (r: Result<(), NftError>)
        requires
            old(self).wf(),
        ensures
            final(self).wf(),
            !old(self).present(id) ==> r == Err::<(), NftError>(NftError::NotFound),
            old(self).present(id) && !old(self).may_act(old(self).owner(id), predecessor@) ==> r == Err::<(), NftError>(
                NftError::Unauthorized,
            ),
            old(self).present(id) && old(self).may_act(old(self).owner(id), predecessor@) ==> r is Ok,
            r is Err ==> *final(self) == *old(self),
            r is Ok ==> {
                &&& final(self).item(id) == (Corgi { selling: true, selling_price: price, ..old(self).item(id) })
                &&& final(self).corgis@ == old(self).corgis@.update(id as int, Some(final(self).item(id)))
                &&& final(self).corgi_to_account == old(self).corgi_to_account
                &&& final(self).account_corgis == old(self).account_corgis
                &&& final(self).account_gives_access == old(self).account_gives_access
                &&& final(self).owner_id == old(self).owner_id
                &&& final(self).next_corgi_id == old(self).next_corgi_id
            },
    {
        let mut corgi = match self.get_corgi(id) {
            Ok(c) => c,
            Err(e) => return Err(e),
        };
        let account = match self.get_token_owner(id) {
            Ok(o) => o,
            Err(e) => return Err(e),
        };
        if !self.check_access(predecessor, &account) {
            return Err(NftError::Unauthorized);
        }
        let ghost pre = *self;
        corgi.selling = true;
        corgi.selling_price = price;
        // The length call tells Verus that the index fits in a `usize`.
        let _len = self.corgis.len();
        self.corgis.set(id as usize, Some(corgi));
        proof {
            assert forall|i: int| 0 <= i < self.corgis@.len() implies
                (#[trigger] self.corgis@[i] is Some) == (self.corgi_to_account@[i] is Some) by {
                if i != id {
                    assert(self.corgis@[i] == pre.corgis@[i]);
                }
            }
            assert forall|i: int| 0 <= i < self.corgis@.len() && (#[trigger] self.corgis@[i]) is Some
                implies self.corgis@[i].unwrap().id == i by {
                if i != id {
                    assert(self.corgis@[i] == pre.corgis@[i]);
                }
            }
            assert forall|h: Seq<u8>, x: TokenId|
                #[trigger] self.account_corgis.contains(h, x) == (self.present(x) && sha256_of(self.owner(x)) == h) by {
                assert(pre.account_corgis.contains(h, x) == (pre.present(x) && sha256_of(pre.owner(x)) == h));
                if (x as int) < self.corgis@.len() && x != id {
                    assert(self.corgis@[x as int] == pre.corgis@[x as int]);
                }
            }
        }
        Ok(())
    }

    /// `predecessor` buys item `id`, paying `attached_deposit`. Fails with
    /// `NotFound` when it does not exist and with `InsufficientPayment` when
    /// the payment is below its price. On success the item moves to the
    /// buyer with its listing cleared, and the whole payment is owed to the
    /// seller.
    pub fn buy_corgi(&mut self, predecessor: &AccountId, attached_deposit: u128, id: TokenId) -> (r: Result<Payment, NftError>)
        requires
            old(self).wf(),
        ensures
            final(self).wf(),
            !old(self).present(id) ==> r == Err::<Payment, NftError>(NftError::NotFound),
            old(self).present(id) && attached_deposit < old(self).item(id).selling_price ==> r == Err::<Payment, NftError>(
                NftError::InsufficientPayment,
            ),
            old(self).present(id) && attached_deposit >= old(self).item(id).selling_price ==> r is Ok,
            r is Err ==> *final(self) == *old(self),
            r matches Ok(p) ==> {
                &&& old(self).moved_to(final(self), id, predecessor@)
                &&& p.receiver@ == old(self).owner(id)
                &&& p.amount == attached_deposit
            },
    {
        let corgi = match self.get_corgi(id) {
            Ok(c) => c,
            Err(e) => return Err(e),
        };
        let seller = match self.get_token_owner(id) {
            Ok(o) => o,
            Err(e) => return Err(e),
        };
        if attached_deposit < corgi.selling_price {
            return Err(NftError::InsufficientPayment);
        }
        self.move_corgi(id, &seller, predecessor);
        Ok(Payment { receiver: seller, amount: attached_deposit })
    }

    /// Sets the message of item `token_id`, which must exist.
    fn set_message(&mut self, token_id: TokenId, message: String)
        requires
            old(self).wf(),
            old(self).present(token_id),
        ensures
            final(self).wf(),
            final(self).item(token_id) == (Corgi { message: message, ..old(self).item(token_id) }),
            final(self).corgis@ == old(self).corgis@.update(token_id as int, Some(final(self).item(token_id))),
            final(self).corgi_to_account == old(self).corgi_to_account,
            final(self).account_corgis == old(self).account_corgis,
            final(self).account_gives_access == old(self).account_gives_access,
            final(self).owner_id == old(self).owner_id,
            final(self).next_corgi_id == old(self).next_corgi_id,
    {
        let ghost pre = *self;
        // The length call tells Verus that the index fits in a `usize`.
        let _len = self.corgis.len();
        let mut corgi = self.corgis[token_id as usize].as_ref().unwrap().duplicate();
        corgi.message = message;
        self.corgis.set(token_id as usize, Some(corgi));
        proof {
            assert forall|i: int| 0 <= i < self.corgis@.len() implies
                (#[trigger] self.corgis@[i] is Some) == (self.corgi_to_account@[i] is Some) by {
                if i != token_id {
                    assert(self.corgis@[i] == pre.corgis@[i]);
                }
            }
            assert forall|i: int| 0 <= i < self.corgis@.len() && (#[trigger] self.corgis@[i]) is Some
                implies self.corgis@[i].unwrap().id == i by {
                if i != token_id {
                    assert(self.corgis@[i] == pre.corgis@[i]);
                }
            }
            assert forall|h: Seq<u8>, x: TokenId|
                #[trigger] self.account_corgis.contains(h, x) == (self.present(x) && sha256_of(self.owner(x)) == h) by {
                assert(pre.account_corgis.contains(h, x) == (pre.present(x) && sha256_of(pre.owner(x)) == h));
                if (x as int) < self.corgis@.len() && x != token_id {
                    assert(self.corgis@[x as int] == pre.corgis@[x as int]);
                }
            }
        }
    }

    /// `transfer_from`, then the item carries `message`.
    pub fn transfer_from_with_message(
        &mut self,
        predecessor: &AccountId,
        owner_id: &AccountId,
        new_owner_id: &AccountId,
        token_id: TokenId,
        message: String,
    ) -> (r: Result<(), NftError>)
        requires
            old(self).wf(),
        ensures
            final(self).wf(),
            !old(self).present(token_id) ==> r == Err::<(), NftError>(NftError::NotFound),
            old(self).present(token_id) && owner_id@ != old(self).owner(token_id) ==> r == Err::<(), NftError>(
                NftError::OwnerMismatch,
            ),
            old(self).present(token_id) && owner_id@ == old(self).owner(token_id)
                && !old(self).may_act(owner_id@, predecessor@) ==> r == Err::<(), NftError>(NftError::Unauthorized),
            old(self).present(token_id) && owner_id@ == old(self).owner(token_id)
                && old(self).may_act(owner_id@, predecessor@) ==> r is Ok,
            r is Ok ==> old(self).moved_keeping_others(final(self), token_id, new_owner_id@),
            r is Ok ==> final(self).item(token_id) == (Corgi {
                selling: false,
                message: message,
                ..old(self).item(token_id)
            }),
            r is Err ==> *final(self) == *old(self),
    {
        let ghost pre = *self;
        match self.transfer_from(predecessor, owner_id, new_owner_id, token_id) {
            Ok(()) => {},
            Err(e) => return Err(e),
        }
        let ghost mid = *self;
        self.set_message(token_id, message);
        proof {
            let ghost cur = *self;
            assert forall|x: TokenId| #![trigger cur.present(x)] x != token_id implies cur.present(x) == pre.present(x) by {
                assert(mid.present(x) == pre.present(x));
                if (x as int) < cur.corgis@.len() {
                    assert(cur.corgis@[x as int] == mid.corgis@[x as int]);
                }
            }
            assert forall|x: TokenId| #![trigger cur.owner(x)] #![trigger cur.item(x)]
                x != token_id && pre.present(x) implies cur.owner(x) == pre.owner(x) && cur.item(x) == pre.item(x) by {
                assert(mid.owner(x) == pre.owner(x) && mid.item(x) == pre.item(x));
                assert(cur.corgis@[x as int] == mid.corgis@[x as int]);
            }
            assert(pre.moved_keeping_others(&cur, token_id, new_owner_id@));
        }
        Ok(())
    }

    /// `transfer`, then the item carries `message`.
    pub fn transfer_with_message(
        &mut self,
        predecessor: &AccountId,
        new_owner_id: &AccountId,
        token_id: TokenId,
        message: String,
    ) -> (r: Result<(), NftError>)
        requires
            old(self).wf(),
        ensures
            final(self).wf(),
            !old(self).present(token_id) ==> r == Err::<(), NftError>(NftError::NotFound),
            old(self).present(token_id) && predecessor@ != old(self).owner(token_id) ==> r == Err::<(), NftError>(
                NftError::Unauthorized,
            ),
            old(self).present(token_id) && predecessor@ == old(self).owner(token_id) ==> r is Ok,
            r is Ok ==> old(self).moved_keeping_others(final(self), token_id, new_owner_id@),
            r is Ok ==> final(self).item(token_id) == (Corgi {
                selling: false,
                message: message,
                ..old(self).item(token_id)
            }),
            r is Err ==> *final(self) == *old(self),
    {
        let ghost pre = *self;
        match self.transfer(predecessor, new_owner_id, token_id) {
            Ok(()) => {},
            Err(e) => return Err(e),
        }
        let ghost mid = *self;
        self.set_message(token_id, message);
        proof {
            let ghost cur = *self;
            assert forall|x: TokenId| #![trigger cur.present(x)] x != token_id implies cur.present(x) == pre.present(x) by {
                assert(mid.present(x) == pre.present(x));
                if (x as int) < cur.corgis@.len() {
                    assert(cur.corgis@[x as int] == mid.corgis@[x as int]);
                }
            }
            assert forall|x: TokenId| #![trigger cur.owner(x)] #![trigger cur.item(x)]
                x != token_id && pre.present(x) implies cur.owner(x) == pre.owner(x) && cur.item(x) == pre.item(x) by {
                assert(mid.owner(x) == pre.owner(x) && mid.item(x) == pre.item(x));
                assert(cur.corgis@[x as int] == mid.corgis@[x as int]);
            }
            assert(pre.moved_keeping_others(&cur, token_id, new_owner_id@));
        }
        Ok(())
    }

    /// Creates an item owned by `predecessor`, paid with `attached_deposit`,
    /// its tier and value drawn from `random_seed` and the new id. Fails with
    /// `InvalidPayment` unless the payment is exactly `CREATION_FEE`. Returns
    /// the name and the new id.
    pub fn create_corgi(
        &mut self,
        predecessor: &AccountId,
        attached_deposit: u128,
        random_seed: &Vec<u8>,
        name: String,
        color: String,
        background_color: String,
        quote: String,
    ) -> (r: Result<(String, TokenId), NftError>)
        requires
            old(self).wf(),
            old(self).next_corgi_id < u64::MAX,
        ensures
            final(self).wf(),
            attached_deposit != CREATION_FEE ==> r == Err::<(String, TokenId), NftError>(NftError::InvalidPayment),
            attached_deposit == CREATION_FEE ==> r is Ok,
            r is Err ==> *final(self) == *old(self),
            r matches Ok(v) ==> {
                let id = old(self).next_corgi_id;
                &&& v.0 == name
                &&& v.1 == id
                &&& final(self).next_corgi_id == id + 1
                &&& !old(self).present(id)
                &&& final(self).present(id)
                &&& final(self).owner(id) == predecessor@
                &&& final(self).item(id) == (Corgi {
                    id: id,
                    name: name,
                    quote: quote,
                    color: color,
                    background_color: background_color,
                    rate: traits_of(random_seed@, id).0,
                    sausage: traits_of(random_seed@, id).1,
                    sender: final(self).item(id).sender,
                    message: final(self).item(id).message,
                    selling: false,
                    selling_price: 0,
                })
                &&& final(self).item(id).sender@ == Seq::<char>::empty()
                &&& final(self).item(id).message@ == Seq::<char>::empty()
                &&& forall|x: TokenId| #![trigger final(self).present(x)] x != id ==> final(self).present(x) == old(self).present(x)
                &&& forall|x: TokenId| #![trigger final(self).owner(x)] #![trigger final(self).item(x)]
                    x != id && old(self).present(x) ==> final(self).owner(x) == old(self).owner(x)
                        && final(self).item(x) == old(self).item(x)
                &&& final(self).account_gives_access == old(self).account_gives_access
                &&& final(self).owner_id == old(self).owner_id
            },
    {
        if attached_deposit != CREATION_FEE {
            return Err(NftError::InvalidPayment);
        }
        let ghost pre = *self;
        let id = self.next_corgi_id;
        let (rate, sausage) = generate_rate_sausage(random_seed, id);
        let corgi = Corgi {
            id,
            name: name.clone(),
            color,
            background_color,
            quote,
            rate,
            sausage,
            selling: false,
            selling_price: 0,
            message: String::new(),
            sender: String::new(),
        };
        proof {
            assert forall|g: Seq<u8>| !pre.account_corgis.contains(g, id) by {
                assert(!pre.present(id));
            }
        }
        self.corgi_to_account.push(None);
        self.save_corgi_to_account(id, predecessor);
        self.corgis.push(Some(corgi));
        self.next_corgi_id = id + 1;
        proof {
            let ghost cur = *self;
            assert(cur.corgis@[id as int] == Some(corgi));
            assert forall|x: TokenId| #![trigger cur.present(x)] x != id implies cur.present(x) == pre.present(x) by {
                if (x as int) < pre.corgis@.len() {
                    assert(cur.corgis@[x as int] == pre.corgis@[x as int]);
                }
            }
            assert forall|x: TokenId| #![trigger cur.owner(x)] #![trigger cur.item(x)]
                x != id && pre.present(x) implies cur.owner(x) == pre.owner(x) && cur.item(x) == pre.item(x) by {
                assert(cur.corgis@[x as int] == pre.corgis@[x as int]);
                assert(cur.corgi_to_account@[x as int] == pre.corgi_to_account@[x as int]);
            }
            assert forall|i: int| 0 <= i < cur.corgis@.len() implies
                (#[trigger] cur.corgis@[i] is Some) == (cur.corgi_to_account@[i] is Some) by {
                if i < pre.corgis@.len() {
                    assert(cur.corgis@[i] == pre.corgis@[i]);
                    assert(cur.corgi_to_account@[i] == pre.corgi_to_account@[i]);
                }
            }
            assert forall|i: int| 0 <= i < cur.corgis@.len() && (#[trigger] cur.corgis@[i]) is Some
                implies cur.corgis@[i].unwrap().id == i by {
                if i < pre.corgis@.len() {
                    assert(cur.corgis@[i] == pre.corgis@[i]);
                }
            }
            assert forall|h: Seq<u8>, x: TokenId|
                #[trigger] cur.account_corgis.contains(h, x) == (cur.present(x) && sha256_of(cur.owner(x)) == h) by {
                assert(pre.account_corgis.contains(h, x) == (pre.present(x) && sha256_of(pre.owner(x)) == h));
                if (x as int) < pre.corgis@.len() {
                    assert(cur.corgis@[x as int] == pre.corgis@[x as int]);
                    assert(cur.corgi_to_account@[x as int] == pre.corgi_to_account@[x as int]);
                }
            }
        }
        Ok((name, id))
    }

    /// The existing items with ids in `[from, end)`, in id order.
    pub open spec fn live_items(&self, from: int, end: int) -> Seq<Corgi>
        decreases end - from,
    {
        if end <= from {
            Seq::empty()
        } else {
            let earlier = self.live_items(from, end - 1);
            if (end - 1) < self.corgis@.len() && self.corgis@[end - 1] is Some {
                earlier.push(self.corgis@[end - 1].unwrap())
            } else {
                earlier
            }
        }
    }

    /// The items at positions `[from, end)` of `owner`'s bucket.
    pub open spec fn owner_items(&self, owner: Seq<char>, from: int, end: int) -> Seq<Corgi> {
        Seq::new(
            if from < end { (end - from) as nat } else { 0 },
            |k: int| self.item(self.ids_of_owner(owner)[from + k]),
        )
    }

    /// The existing items with ids in `[from_index, from_index + limit)`,
    /// the range clamped to the ids handed out so far; deleted ids are skipped.
    pub fn display_global_corgis_range(&self, from_index: u64, limit: u64) -> (r: Vec<Corgi>)
        requires
            self.wf(),
        ensures
            r@ == self.live_items(from_index as int, min(from_index + limit, self.next_corgi_id as int)),
    {
        let end: u64 = if from_index >= self.next_corgi_id {
            from_index
        } else if limit >= self.next_corgi_id - from_index {
            self.next_corgi_id
        } else {
            from_index + limit
        };
        let mut result: Vec<Corgi> = Vec::new();
        let mut i: u64 = from_index;
        while i < end
            invariant
                self.wf(),
                from_index <= i <= end,
                end == if from_index >= self.next_corgi_id {
                    from_index as int
                } else {
                    min(from_index + limit, self.next_corgi_id as int)
                },
                result@ == self.live_items(from_index as int, i as int),
            decreases end - i,
        {
            // The length call tells Verus that the index fits in a `usize`.
            let _len = self.corgis.len();
            match &self.corgis[i as usize] {
                Some(c) => {
                    result.push(c.duplicate());
                },
                None => {},
            }
            i = i + 1;
        }
        proof {
            if from_index >= self.next_corgi_id {
                assert(self.live_items(from_index as int, min(from_index + limit, self.next_corgi_id as int))
                    == Seq::<Corgi>::empty());
            }
        }
        result
    }

    /// All existing items, in id order.
    pub fn display_global_corgis(&self) -> (r: Vec<Corgi>)
        requires
            self.wf(),
        ensures
            r@ == self.live_items(0, self.next_corgi_id as int),
    {
        self.display_global_corgis_range(0, self.next_corgi_id)
    }

    /// The items at positions `[from_index, from_index + limit)` of `owner`'s
    /// bucket, the range clamped to the bucket's size. Fails with `NotFound`
    /// when `owner` has never held an item.
    pub fn get_corgis_by_owner_range(&self, owner: &AccountId, from_index: u64, limit: u64) -> (r: Result<Vec<Corgi>, NftError>)
        requires
            self.wf(),
        ensures
            !self.account_corgis.has_bucket(sha256_of(owner@)) ==> r == Err::<Vec<Corgi>, NftError>(NftError::NotFound),
            self.account_corgis.has_bucket(sha256_of(owner@)) ==> (r matches Ok(v) && v@ == self.owner_items(
                owner@,
                from_index as int,
                min(from_index + limit, self.ids_of_owner(owner@).len() as int),
            )),
    {
        let hash = account_hash(owner);
        let b = match self.account_corgis.find(&hash) {
            Some(b) => b,
            None => return Err(NftError::NotFound),
        };
        let ids = &self.account_corgis.buckets[b].corgi_ids;
        let n = ids.len() as u64;
        let end: u64 = if from_index >= n {
            from_index
        } else if limit >= n - from_index {
            n
        } else {
            from_index + limit
        };
        let ghost target = self.owner_items(owner@, from_index as int, min(from_index + limit, n as int));
        let mut result: Vec<Corgi> = Vec::new();
        let mut i: u64 = from_index;
        while i < end
            invariant
                self.wf(),
                self.account_corgis.keyed(b as int, hash@),
                hash@ == sha256_of(owner@),
                *ids == self.account_corgis.buckets@[b as int].corgi_ids,
                ids@ == self.ids_of_owner(owner@),
                n == ids@.len(),
                from_index <= i <= end,
                end == if from_index >= n {
                    from_index as int
                } else {
                    min(from_index + limit, n as int)
                },
                target == self.owner_items(owner@, from_index as int, min(from_index + limit, n as int)),
                result@ == target.subrange(0, i - from_index),
            decreases end - i,
        {
            // The length call tells Verus that the position fits in a `usize`.
            let _ids_len = ids.len();
            let id = ids[i as usize];
            proof {
                assert(ids@.contains(id));
                assert(self.account_corgis.contains(hash@, id));
            }
            // The length call tells Verus that the index fits in a `usize`.
            let _len = self.corgis.len();
            let c = self.corgis[id as usize].as_ref().unwrap().duplicate();
            let ghost prev = result@;
            result.push(c);
            proof {
                assert(target[i - from_index] == c);
                assert(result@ =~= target.subrange(0, i + 1 - from_index));
            }
            i = i + 1;
        }
        proof {
            assert(result@ =~= target);
        }
        Ok(result)
    }

    /// All items of `owner`, in bucket order. Fails with `NotFound` when
    /// `owner` has never held an item.
    pub fn get_corgis_by_owner(&self, owner: &AccountId) -> (r: Result<Vec<Corgi>, NftError>)
        requires
            self.wf(),
        ensures
            !self.account_corgis.has_bucket(sha256_of(owner@)) ==> r == Err::<Vec<Corgi>, NftError>(NftError::NotFound),
            self.account_corgis.has_bucket(sha256_of(owner@)) ==> (r matches Ok(v) && v@ == self.owner_items(
                owner@,
                0,
                min(self.next_corgi_id as int, self.ids_of_owner(owner@).len() as int),
            )),
    {
        self.get_corgis_by_owner_range(owner, 0, self.next_corgi_id)
    }

    /// Upgrades the state to the layout with fruit records; only the state's
    /// owner may do so (`Unauthorized` otherwise).
    pub fn migrate_to_v2(self, predecessor: &AccountId) -> (r: Result<Corgi3DV2, NftError>)
        ensures
            predecessor@ != self.owner_id@ ==> r == Err::<Corgi3DV2, NftError>(NftError::Unauthorized),
            predecessor@ == self.owner_id@ ==> (r matches Ok(v) && v.carries(&self)),
    {
        if *predecessor != self.owner_id {
            return Err(NftError::Unauthorized);
        }
        Ok(Corgi3DV2::from_corgi(self))
    }
}

/// The state with fruit records added per account.
#[derive(Debug)]
pub struct Corgi3DV2 {
    pub corgi_to_account: Vec<Option<AccountId>>,
    pub account_gives_access: AccessTable,
    pub owner_id: AccountId,
    pub corgis: Vec<Option<Corgi>>,
    pub account_corgis: OwnerIndex,
    pub next_corgi_id: TokenId,
    pub account_fruit: Vec<AccountFruit>,
}

impl Corgi3DV2 {
    /// This state holds everything of `old` and no fruit records yet.
    pub open spec fn carries(&self, old: &Corgi3D) -> bool {
        &&& self.corgi_to_account == old.corgi_to_account
        &&& self.account_gives_access == old.account_gives_access
        &&& self.owner_id == old.owner_id
        &&& self.corgis == old.corgis
        &&& self.account_corgis == old.account_corgis
        &&& self.next_corgi_id == old.next_corgi_id
        &&& self.account_fruit@.len() == 0
    }

    /// Moves every part of `corgi` over and starts without fruit records.
    pub fn from_corgi(corgi: Corgi3D) -> (r: Corgi3DV2)
        ensures
            r.carries(&corgi),
    {
        Corgi3DV2 {
            corgi_to_account: corgi.corgi_to_account,
            account_gives_access: corgi.account_gives_access,
            owner_id: corgi.owner_id,
            corgis: corgi.corgis,
            account_corgis: corgi.account_corgis,
            next_corgi_id: corgi.next_corgi_id,
            account_fruit: Vec::new(),
        }
    }
}

} // verus!
