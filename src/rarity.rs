use crate::corgi::Rarity;
use rand_chacha::ChaCha20Rng;
use rand_core::{RngCore, SeedableRng};
use vstd::prelude::*;

verus! {

/// The `index`-th 32-bit word that ChaCha20 produces from a 32-byte seed.
pub uninterp spec fn chacha20_word(seed: Seq<u8>, index: nat) -> u32;

/// Relies on `rand_chacha::ChaCha20Rng::from_seed` followed by two calls of
/// `RngCore::next_u32`: the first two words of the stream, which depend on the
/// seed alone.
#[verifier::external_body]
fn chacha20_first_words(seed: &Vec<u8>) -> (r: (u32, u32))
    requires
        seed@.len() == 32,
    ensures
        r.0 == chacha20_word(seed@, 0),
        r.1 == chacha20_word(seed@, 1),
{
    let mut bytes = [0u8; 32];
    bytes.copy_from_slice(seed.as_slice());
    let mut rng = ChaCha20Rng::from_seed(bytes);
    let first = rng.next_u32();
    let second = rng.next_u32();
    (first, second)
}

/// Byte `k` (0 to 7) of `id` in little-endian order.
pub open spec fn le_byte(id: u64, k: int) -> u8 {
    (id >> ((8 * k) as u64)) as u8
}

/// The 32-byte seed: up to 24 bytes of entropy, zero-padded, then the eight
/// little-endian bytes of the item id.
pub open spec fn seed_of(entropy: Seq<u8>, id: u64) -> Seq<u8> {
    Seq::new(
        32,
        |i: int|
            if i < 24 {
                if i < entropy.len() {
                    entropy[i]
                } else {
                    0u8
                }
            } else {
                le_byte(id, i - 24)
            },
    )
}

/// The tier that the second draw selects.
pub open spec fn tier_of(r2: u32) -> Rarity {
    if r2 > 30 {
        Rarity::Common
    } else if r2 > 13 {
        Rarity::Uncommon
    } else if r2 > 3 {
        Rarity::Rare
    } else if r2 > 0 {
        Rarity::VeryRare
    } else {
        Rarity::UltraRare
    }
}

/// The tier and value of two draws, the first below 100.
pub open spec fn traits_of_draws(r1: u32, r2: u32) -> (Rarity, u32) {
    (tier_of(r2), (r1 + tier_of(r2).bonus_spec()) as u32)
}

/// The two reduced draws for a seed.
pub open spec fn draws_of(entropy: Seq<u8>, id: u64) -> (u32, u32) {
    (
        chacha20_word(seed_of(entropy, id), 0) % 100,
        chacha20_word(seed_of(entropy, id), 1) % 50,
    )
}

/// The tier and value that the generator gives an item.
pub open spec fn traits_of(entropy: Seq<u8>, id: u64) -> (Rarity, u32) {
    traits_of_draws(draws_of(entropy, id).0, draws_of(entropy, id).1)
}

/// Builds the 32-byte generator seed from the entropy and the item id.
pub fn random_seed_bytes(entropy: &Vec<u8>, id: u64) -> (r: Vec<u8>)
    ensures
        r@ == seed_of(entropy@, id),
{
    let mut seed: Vec<u8> = Vec::new();
    let mut i: usize = 0;
    while i < 24
        invariant
            i <= 24,
            seed@.len() == i,
            forall|k: int| 0 <= k < i ==> seed@[k] == seed_of(entropy@, id)[k],
        decreases 24 - i,
    {
        if i < entropy.len() {
            seed.push(entropy[i]);
        } else {
            seed.push(0u8);
        }
        i = i + 1;
    }
    let mut k: u64 = 0;
    while k < 8
        invariant
            k <= 8,
            seed@.len() == 24 + k,
            forall|j: int| 0 <= j < 24 + k ==> seed@[j] == seed_of(entropy@, id)[j],
        decreases 8 - k,
    {
        seed.push((id >> (8 * k)) as u8);
        k = k + 1;
    }
    assert(seed@ =~= seed_of(entropy@, id));
    seed
}

/// The two draws for an item: the first reduced below 100, the second below 50.
pub fn random_num(entropy: &Vec<u8>, id: u64) -> (r: (u32, u32))
    ensures
        r == draws_of(entropy@, id),
        r.0 < 100,
        r.1 < 50,
{
    let seed = random_seed_bytes(entropy, id);
    let (w1, w2) = chacha20_first_words(&seed);
    (w1 % 100, w2 % 50)
}

/// The tier and value that two draws give: the tier from the second draw by
/// its thresholds, the value as the first draw plus the tier's bonus.
pub fn rarity_from_draws(r1: u32, r2: u32) -> (r: (Rarity, u32))
    requires
        r1 < 100,
    ensures
        r == traits_of_draws(r1, r2),
        r.1 == r1 + r.0.bonus_spec(),
{
    let rarity = if r2 > 30 {
        Rarity::Common
    } else if r2 > 13 {
        Rarity::Uncommon
    } else if r2 > 3 {
        Rarity::Rare
    } else if r2 > 0 {
        Rarity::VeryRare
    } else {
        Rarity::UltraRare
    };
    (rarity, r1 + rarity.bonus())
}

/// The tier and value of a new item, from the call's entropy and the item id.
pub fn generate_rate_sausage(entropy: &Vec<u8>, id: u64) -> (r: (Rarity, u32))
    ensures
        r == traits_of(entropy@, id),
{
    let (r1, r2) = random_num(entropy, id);
    rarity_from_draws(r1, r2)
}

} // verus!
