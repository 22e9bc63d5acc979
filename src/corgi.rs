use vstd::prelude::*;

verus! {

/// Identifier of an item; assigned in increasing order and never reused.
pub type TokenId = u64;

/// An account identifier as the host reports it.
pub type AccountId = String;

/// The 32-byte digest of an account identifier, used as a map key.
pub type AccountIdHash = Vec<u8>;

/// Number of fruit kinds an account can collect.
pub const TOTAL: usize = 7;

/// The rarity tier of an item.
#[derive(Debug, Clone, Copy, PartialEq, Eq, Structural)]
pub enum Rarity {
    Common,
    Uncommon,
    Rare,
    VeryRare,
    UltraRare,
}

impl Rarity {
    /// The bonus that this tier adds to the base draw.
    pub open spec fn bonus_spec(self) -> u32 {
        match self {
            Rarity::Common => 0,
            Rarity::Uncommon => 50,
            Rarity::Rare => 100,
            Rarity::VeryRare => 150,
            Rarity::UltraRare => 200,
        }
    }

    /// The label under which the tier is displayed.
    pub open spec fn label_spec(self) -> Seq<char> {
        match self {
            Rarity::Common => "COMMON"@,
            Rarity::Uncommon => "UNCOMMON"@,
            Rarity::Rare => "RARE"@,
            Rarity::VeryRare => "VERY RARE"@,
            Rarity::UltraRare => "ULTRA RARE"@,
        }
    }

    pub fn bonus(&self) -> (r: u32)
        ensures
            r == self.bonus_spec(),
    {
        match self {
            Rarity::Common => 0,
            Rarity::Uncommon => 50,
            Rarity::Rare => 100,
            Rarity::VeryRare => 150,
            Rarity::UltraRare => 200,
        }
    }

    pub fn label(&self) -> (r: String)
        ensures
            r@ == self.label_spec(),
    {
        let s = match self {
            Rarity::Common => "COMMON",
            Rarity::Uncommon => "UNCOMMON",
            Rarity::Rare => "RARE",
            Rarity::VeryRare => "VERY RARE",
            Rarity::UltraRare => "ULTRA RARE",
        };
        s.to_owned()
    }
}

/// A collectible item.
#[derive(Debug)]
pub struct Corgi {
    pub id: TokenId,
    pub name: String,
    pub quote: String,
    pub color: String,
    pub background_color: String,
    pub rate: Rarity,
    pub sausage: u32,
    pub sender: String,
    pub message: String,
    pub selling: bool,
    pub selling_price: u128,
}

impl Corgi {
    /// A field-by-field copy.
    pub fn duplicate(&self) -> (r: Corgi)
        ensures
            r == *self,
    {
        Corgi {
            id: self.id,
            name: self.name.clone(),
            quote: self.quote.clone(),
            color: self.color.clone(),
            background_color: self.background_color.clone(),
            rate: self.rate,
            sausage: self.sausage,
            sender: self.sender.clone(),
            message: self.message.clone(),
            selling: self.selling,
            selling_price: self.selling_price,
        }
    }
}

/// Counts of each fruit kind held by an account.
#[derive(Debug, Clone, Copy, PartialEq, Eq)]
pub struct Fruit {
    pub count: [u64; TOTAL],
}

/// The fruit record of one account.
#[derive(Debug)]
pub struct AccountFruit {
    pub account: AccountId,
    pub fruit: Fruit,
}

/// A value transfer that the host must carry out after a sale.
#[derive(Debug)]
pub struct Payment {
    pub receiver: AccountId,
    pub amount: u128,
}

/// Why an operation was refused. A refused operation changes no state.
#[derive(Debug, Clone, Copy, PartialEq, Eq, Structural)]
pub enum NftError {
    /// The item, or the owner's item bucket, does not exist.
    NotFound,
    /// The caller is neither the owner nor one of the owner's delegates.
    Unauthorized,
    /// The claimed owner is not the item's current owner.
    OwnerMismatch,
    /// The caller has never granted any delegation.
    NoDelegation,
    /// The caller has not delegated to this account.
    DelegateNotFound,
    /// The payment is below the listing price.
    InsufficientPayment,
    /// The creation fee is not exactly the required amount.
    InvalidPayment,
    /// The state already exists.
    AlreadyInitialized,
    /// The account identifier is not well formed.
    InvalidAccountId,
}

} // verus!
