//! Ownership, escrow delegation and a fixed-price marketplace for uniquely
//! identified collectibles, with a reproducible rarity generator.
//!
//! Everything the hosting environment supplies (the caller's identity, the
//! attached payment, the per-call entropy) is passed in as a plain value, and
//! value transfers come back as plain values for the host to carry out.

mod account;
mod contract;
mod corgi;
mod escrow;
mod keying;
mod lemmas;
mod owner_index;
mod rarity;

pub use account::{is_valid_account_id, valid_account_id};
pub use contract::{Corgi3D, Corgi3DV2, CREATION_FEE};
pub use corgi::{AccountFruit, AccountId, AccountIdHash, Corgi, Fruit, NftError, Payment, Rarity, TokenId, TOTAL};
pub use escrow::{AccessGrant, AccessTable};
pub use keying::{account_hash, bytes_equal};
pub use lemmas::{
    bucket_lists, lemma_grant_then_revoke, lemma_item_in_exactly_one_bucket, lemma_move_rebuckets, lemma_self_access,
    lemma_traits_deterministic, lemma_traits_ignore_excess_entropy,
};
pub use owner_index::{AccountCorgis, OwnerIndex};
pub use rarity::{generate_rate_sausage, random_num, random_seed_bytes, rarity_from_draws};
