use corgi_nft::{account_hash, Corgi3D, NftError, CREATION_FEE};

fn joe() -> String {
    "joe.testnet".to_string()
}
fn robert() -> String {
    "robert.testnet".to_string()
}
fn mike() -> String {
    "mike.testnet".to_string()
}

fn seed() -> Vec<u8> {
    vec![0, 1, 2]
}

fn fresh(owner: String) -> Corgi3D {
    Corgi3D::new(owner, false).unwrap()
}

fn mint(contract: &mut Corgi3D, by: &String, name: &str, color: &str) -> u64 {
    let (_, id) = contract
        .create_corgi(
            by,
            CREATION_FEE,
            &seed(),
            name.to_string(),
            color.to_string(),
            "green".to_string(),
            "haha".to_string(),
        )
        .unwrap();
    id
}

#[test]
fn grant_access() {
    let mut contract = fresh(robert());
    let length_before = contract.account_gives_access.len();
    assert_eq!(0, length_before, "Expected empty account access Map.");
    contract.grant_access(&robert(), &mike());
    contract.grant_access(&robert(), &joe());
    let length_after = contract.account_gives_access.len();
    assert_eq!(1, length_after, "Expected an entry in the account's access Map.");
    let predecessor_hash = account_hash(&robert());
    let num_grantees = contract.account_gives_access.grantee_count(&predecessor_hash);
    assert_eq!(2, num_grantees, "Expected two accounts to have access to predecessor.");
}

#[test]
#[should_panic(expected = r#"Access does not exist."#)]
fn revoke_access_and_panic() {
    let mut contract = fresh(robert());
    if let Err(NftError::NoDelegation) = contract.revoke_access(&robert(), &joe()) {
        panic!("Access does not exist.");
    }
}

#[test]
fn add_revoke_access_and_check() {
    // Joe grants access to Robert
    let mut contract = fresh(joe());
    contract.grant_access(&joe(), &robert());

    // does Robert have access to Joe's account? Yes.
    let mut robert_has_access = contract.check_access(&robert(), &joe());
    assert_eq!(true, robert_has_access, "After granting access, check_access call failed.");

    // Joe revokes access from Robert
    contract.revoke_access(&joe(), &robert()).unwrap();

    // does Robert have access to Joe's account? No
    robert_has_access = contract.check_access(&robert(), &joe());
    assert_eq!(false, robert_has_access, "After revoking access, check_access call failed.");
}

#[test]
fn mint_token_get_token_owner() {
    let mut contract = fresh(robert());
    let id = mint(&mut contract, &robert(), "a", "blue");
    let owner = contract.get_token_owner(id).unwrap();
    assert_eq!(robert(), owner, "Unexpected token owner.");
}

#[test]
#[should_panic(expected = r#"Attempt to transfer a token with no access."#)]
fn transfer_from_with_no_access_should_fail() {
    // Robert owns the token.
    // Mike is trying to transfer it to Mike's account without having access.
    let mut contract = fresh(robert());
    let id = mint(&mut contract, &robert(), "a", "blue");
    if let Err(NftError::Unauthorized) = contract.transfer_from(&mike(), &robert(), &mike(), id) {
        panic!("Attempt to transfer a token with no access.");
    }
}

#[test]
fn transfer_from_with_escrow_access() {
    // Escrow account: robert.testnet
    // Owner account: mike.testnet
    // New owner account: joe.testnet
    let mut contract = fresh(mike());
    let token_id = mint(&mut contract, &mike(), "a", "blue");
    // Mike grants access to Robert
    contract.grant_access(&mike(), &robert());

    // Robert transfers the token to Joe
    contract.transfer_from(&robert(), &mike(), &joe(), token_id).unwrap();

    // Check new owner
    let owner = contract.get_token_owner(token_id).unwrap();
    assert_eq!(joe(), owner, "Token was not transferred after transfer call with escrow.");
}

#[test]
#[should_panic(expected = r#"Attempt to transfer a token from a different owner."#)]
fn transfer_from_with_escrow_access_wrong_owner_id() {
    let mut contract = fresh(mike());
    let token_id = mint(&mut contract, &mike(), "a", "blue");
    // Mike grants access to Robert
    contract.grant_access(&mike(), &robert());

    // Robert transfers the token to Joe
    if let Err(NftError::OwnerMismatch) = contract.transfer_from(&robert(), &robert(), &joe(), token_id) {
        panic!("Attempt to transfer a token from a different owner.");
    }
}

#[test]
fn transfer_from_with_your_own_token() {
    let mut contract = fresh(robert());
    let token_id = mint(&mut contract, &robert(), "a", "blue");

    // Robert transfers the token to Joe
    contract.transfer_from(&robert(), &robert(), &joe(), token_id).unwrap();

    // Check new owner
    let owner = contract.get_token_owner(token_id).unwrap();
    assert_eq!(joe(), owner, "Token was not transferred after transfer call with escrow.");
}

#[test]
#[should_panic(expected = r#"Attempt to call transfer on tokens belonging to another account."#)]
fn transfer_with_escrow_access_fails() {
    let mut contract = fresh(mike());
    let token_id = mint(&mut contract, &mike(), "a", "blue");
    // Mike grants access to Robert
    contract.grant_access(&mike(), &robert());

    // Robert transfers the token to Joe
    if let Err(NftError::Unauthorized) = contract.transfer(&robert(), &joe(), token_id) {
        panic!("Attempt to call transfer on tokens belonging to another account.");
    }
}

#[test]
fn transfer_with_your_own_token() {
    let mut contract = fresh(robert());
    let token_id = mint(&mut contract, &robert(), "a", "blue");

    // Robert transfers the token to Joe
    contract.transfer(&robert(), &joe(), token_id).unwrap();

    // Check new owner
    let owner = contract.get_token_owner(token_id).unwrap();
    assert_eq!(joe(), owner, "Token was not transferred after transfer call with escrow.");
}

#[test]
fn delete_corgi() {
    let mut contract = fresh(robert());
    let _token_id = mint(&mut contract, &robert(), "a", "blue");
    assert_eq!(contract.get_corgis_by_owner(&robert()).unwrap().len(), 1);

    let token_id = mint(&mut contract, &robert(), "b", "black");
    assert_eq!(contract.get_corgis_by_owner(&robert()).unwrap().len(), 2);

    contract.delete_corgi(&robert(), token_id).unwrap();
    assert_eq!(contract.get_corgis_by_owner(&robert()).unwrap().len(), 1);
    assert_eq!(contract.get_corgis_by_owner(&robert()).unwrap()[0].name, "a".to_string());
}

#[test]
fn test_sell_corgi() {
    let mut contract = fresh(robert());
    let token_id = mint(&mut contract, &robert(), "a", "blue");
    assert_eq!(contract.get_corgis_by_owner(&robert()).unwrap().len(), 1);

    assert_eq!(contract.get_corgi(token_id).unwrap().selling, false);
    contract.sell_corgi(&robert(), token_id, 10u128.pow(25)).unwrap();
    assert_eq!(contract.get_corgi(token_id).unwrap().selling, true);
    assert_eq!(contract.get_corgi(token_id).unwrap().selling_price, 10u128.pow(25));

    let payment = contract.buy_corgi(&mike(), 10u128.pow(25), token_id).unwrap();
    assert_eq!(payment.receiver, robert());
    assert_eq!(payment.amount, 10u128.pow(25));

    assert_eq!(contract.get_corgi(token_id).unwrap().selling, false);
    assert_eq!(contract.get_corgis_by_owner(&mike()).unwrap().len(), 1);
    assert_eq!(contract.get_corgis_by_owner(&robert()).unwrap().len(), 0);
}

#[test]
fn new_rejects_malformed_owner_and_existing_state() {
    assert_eq!(Corgi3D::new("A".to_string(), false).unwrap_err(), NftError::InvalidAccountId);
    assert_eq!(Corgi3D::new("robert.testnet".to_string(), true).unwrap_err(), NftError::AlreadyInitialized);
    let c = Corgi3D::new("robert.testnet".to_string(), false).unwrap();
    assert_eq!(c.next_corgi_id, 0);
    assert_eq!(c.owner_id, robert());
}

#[test]
fn create_requires_exact_fee() {
    let mut contract = fresh(robert());
    let r = contract.create_corgi(
        &robert(),
        CREATION_FEE - 1,
        &seed(),
        "a".to_string(),
        "blue".to_string(),
        "green".to_string(),
        "haha".to_string(),
    );
    assert_eq!(r.unwrap_err(), NftError::InvalidPayment);
    assert_eq!(contract.next_corgi_id, 0);
    let r = contract.create_corgi(
        &robert(),
        CREATION_FEE + 1,
        &seed(),
        "a".to_string(),
        "blue".to_string(),
        "green".to_string(),
        "haha".to_string(),
    );
    assert_eq!(r.unwrap_err(), NftError::InvalidPayment);
}

#[test]
fn created_item_fields_and_ids() {
    let mut contract = fresh(robert());
    let (name, id) = contract
        .create_corgi(
            &robert(),
            CREATION_FEE,
            &seed(),
            "rex".to_string(),
            "blue".to_string(),
            "green".to_string(),
            "woof".to_string(),
        )
        .unwrap();
    assert_eq!(name, "rex");
    assert_eq!(id, 0);
    let c = contract.get_corgi(0).unwrap();
    assert_eq!(c.id, 0);
    assert_eq!(c.name, "rex");
    assert_eq!(c.color, "blue");
    assert_eq!(c.background_color, "green");
    assert_eq!(c.quote, "woof");
    assert_eq!(c.sender, "");
    assert_eq!(c.message, "");
    assert!(!c.selling);
    assert_eq!(c.selling_price, 0);
    assert_eq!(mint(&mut contract, &robert(), "b", "red"), 1);
    assert_eq!(contract.next_corgi_id, 2);
}

#[test]
fn scenario_create_sets_owner() {
    let mut contract = fresh(robert());
    let id = mint(&mut contract, &joe(), "a", "blue");
    assert_eq!(contract.get_token_owner(id).unwrap(), joe());
    assert_eq!(contract.get_token_owner(id + 1).unwrap_err(), NftError::NotFound);
}

#[test]
fn scenario_delegate_moves_item_between_buckets() {
    let mut contract = fresh(robert());
    let keep = mint(&mut contract, &mike(), "keep", "blue");
    let id = mint(&mut contract, &mike(), "moving", "blue");
    contract.grant_access(&mike(), &robert());
    contract.transfer_from(&robert(), &mike(), &joe(), id).unwrap();
    assert_eq!(contract.get_token_owner(id).unwrap(), joe());
    let mike_items = contract.get_corgis_by_owner(&mike()).unwrap();
    assert_eq!(mike_items.len(), 1);
    assert_eq!(mike_items[0].id, keep);
    let joe_items = contract.get_corgis_by_owner(&joe()).unwrap();
    assert_eq!(joe_items.len(), 1);
    assert_eq!(joe_items[0].id, id);
}

#[test]
fn scenario_revoked_delegate_is_refused() {
    let mut contract = fresh(robert());
    let id = mint(&mut contract, &mike(), "a", "blue");
    contract.grant_access(&mike(), &robert());
    contract.revoke_access(&mike(), &robert()).unwrap();
    assert_eq!(contract.transfer_from(&robert(), &mike(), &joe(), id).unwrap_err(), NftError::Unauthorized);
    assert_eq!(contract.get_token_owner(id).unwrap(), mike());
}

#[test]
fn scenario_buy_exact_and_short_payment() {
    let mut contract = fresh(robert());
    let id = mint(&mut contract, &robert(), "a", "blue");
    let price: u128 = 500;
    contract.sell_corgi(&robert(), id, price).unwrap();

    assert_eq!(contract.buy_corgi(&mike(), price - 1, id).unwrap_err(), NftError::InsufficientPayment);
    assert_eq!(contract.get_token_owner(id).unwrap(), robert());
    assert!(contract.get_corgi(id).unwrap().selling);
    assert_eq!(contract.get_corgi(id).unwrap().selling_price, price);

    let payment = contract.buy_corgi(&mike(), price, id).unwrap();
    assert_eq!(payment.receiver, robert());
    assert_eq!(payment.amount, price);
    assert_eq!(contract.get_token_owner(id).unwrap(), mike());
    assert!(!contract.get_corgi(id).unwrap().selling);
}

#[test]
fn buy_overpayment_goes_to_seller_and_missing_item() {
    let mut contract = fresh(robert());
    let id = mint(&mut contract, &robert(), "a", "blue");
    contract.sell_corgi(&robert(), id, 10).unwrap();
    let payment = contract.buy_corgi(&joe(), 25, id).unwrap();
    assert_eq!(payment.amount, 25);
    assert_eq!(contract.buy_corgi(&joe(), 25, 99).unwrap_err(), NftError::NotFound);
}

#[test]
fn self_access_always_holds() {
    let mut contract = fresh(robert());
    assert!(contract.check_access(&joe(), &joe()));
    contract.grant_access(&joe(), &mike());
    contract.revoke_access(&joe(), &mike()).unwrap();
    assert!(contract.check_access(&joe(), &joe()));
    assert!(!contract.check_access(&mike(), &joe()));
}

#[test]
fn revoke_errors() {
    let mut contract = fresh(robert());
    assert_eq!(contract.revoke_access(&joe(), &mike()).unwrap_err(), NftError::NoDelegation);
    contract.grant_access(&joe(), &robert());
    assert_eq!(contract.revoke_access(&joe(), &mike()).unwrap_err(), NftError::DelegateNotFound);
    assert!(contract.check_access(&robert(), &joe()));
}

#[test]
fn grant_is_idempotent() {
    let mut contract = fresh(robert());
    contract.grant_access(&joe(), &mike());
    contract.grant_access(&joe(), &mike());
    assert_eq!(contract.account_gives_access.grantee_count(&account_hash(&joe())), 1);
    contract.revoke_access(&joe(), &mike()).unwrap();
    assert!(!contract.check_access(&mike(), &joe()));
}

#[test]
fn transfer_clears_listing_and_transfer_errors() {
    let mut contract = fresh(robert());
    let id = mint(&mut contract, &robert(), "a", "blue");
    contract.sell_corgi(&robert(), id, 7).unwrap();
    assert_eq!(contract.transfer(&robert(), &joe(), id + 5).unwrap_err(), NftError::NotFound);
    contract.transfer(&robert(), &joe(), id).unwrap();
    assert!(!contract.get_corgi(id).unwrap().selling);
    assert_eq!(contract.transfer(&robert(), &mike(), id).unwrap_err(), NftError::Unauthorized);
}

#[test]
fn transfers_with_message() {
    let mut contract = fresh(robert());
    let id = mint(&mut contract, &robert(), "a", "blue");
    contract.transfer_with_message(&robert(), &joe(), id, "hello".to_string()).unwrap();
    assert_eq!(contract.get_corgi(id).unwrap().message, "hello");
    contract.grant_access(&joe(), &mike());
    contract
        .transfer_from_with_message(&mike(), &joe(), &robert(), id, "back".to_string())
        .unwrap();
    assert_eq!(contract.get_corgi(id).unwrap().message, "back");
    assert_eq!(contract.get_token_owner(id).unwrap(), robert());
    assert_eq!(
        contract.transfer_with_message(&joe(), &mike(), id, "no".to_string()).unwrap_err(),
        NftError::Unauthorized
    );
    assert_eq!(contract.get_corgi(id).unwrap().message, "back");
}

#[test]
fn delete_by_delegate_and_refusals() {
    let mut contract = fresh(robert());
    let id = mint(&mut contract, &robert(), "a", "blue");
    assert_eq!(contract.delete_corgi(&joe(), id).unwrap_err(), NftError::Unauthorized);
    contract.grant_access(&robert(), &joe());
    contract.delete_corgi(&joe(), id).unwrap();
    assert_eq!(contract.get_corgi(id).unwrap_err(), NftError::NotFound);
    assert_eq!(contract.delete_corgi(&robert(), id).unwrap_err(), NftError::NotFound);
    assert_eq!(contract.get_corgis_by_owner(&robert()).unwrap().len(), 0);
    let next = mint(&mut contract, &robert(), "b", "blue");
    assert_eq!(next, 1);
}

#[test]
fn sell_refusals() {
    let mut contract = fresh(robert());
    let id = mint(&mut contract, &robert(), "a", "blue");
    assert_eq!(contract.sell_corgi(&joe(), id, 1).unwrap_err(), NftError::Unauthorized);
    assert_eq!(contract.sell_corgi(&robert(), id + 1, 1).unwrap_err(), NftError::NotFound);
    contract.grant_access(&robert(), &joe());
    contract.sell_corgi(&joe(), id, 3).unwrap();
    assert_eq!(contract.get_corgi(id).unwrap().selling_price, 3);
}

#[test]
fn global_listing_skips_deleted_and_clamps() {
    let mut contract = fresh(robert());
    for i in 0..5 {
        mint(&mut contract, &robert(), &format!("c{}", i), "blue");
    }
    contract.delete_corgi(&robert(), 2).unwrap();
    let all = contract.display_global_corgis();
    let ids: Vec<u64> = all.iter().map(|c| c.id).collect();
    assert_eq!(ids, vec![0, 1, 3, 4]);
    let part: Vec<u64> = contract.display_global_corgis_range(1, 3).iter().map(|c| c.id).collect();
    assert_eq!(part, vec![1, 3]);
    let tail: Vec<u64> = contract.display_global_corgis_range(3, u64::MAX).iter().map(|c| c.id).collect();
    assert_eq!(tail, vec![3, 4]);
    assert!(contract.display_global_corgis_range(9, 2).is_empty());
}

#[test]
fn owner_listing_ranges() {
    let mut contract = fresh(robert());
    for i in 0..4 {
        mint(&mut contract, &robert(), &format!("c{}", i), "blue");
    }
    let part: Vec<u64> = contract
        .get_corgis_by_owner_range(&robert(), 1, 2)
        .unwrap()
        .iter()
        .map(|c| c.id)
        .collect();
    assert_eq!(part, vec![1, 2]);
    let tail = contract.get_corgis_by_owner_range(&robert(), 3, u64::MAX).unwrap();
    assert_eq!(tail.len(), 1);
    assert!(contract.get_corgis_by_owner_range(&robert(), 10, 1).unwrap().is_empty());
    assert_eq!(contract.get_corgis_by_owner(&joe()).unwrap_err(), NftError::NotFound);
    // removing an id moves the bucket's last id into its place
    contract.transfer(&robert(), &joe(), 0).unwrap();
    let order: Vec<u64> = contract.get_corgis_by_owner(&robert()).unwrap().iter().map(|c| c.id).collect();
    assert_eq!(order, vec![3, 1, 2]);
}

#[test]
fn migration_is_owner_only() {
    let contract = fresh(robert());
    assert_eq!(contract.migrate_to_v2(&joe()).unwrap_err(), NftError::Unauthorized);
    let mut contract = fresh(robert());
    let id = mint(&mut contract, &joe(), "a", "blue");
    let v2 = contract.migrate_to_v2(&robert()).unwrap();
    assert_eq!(v2.next_corgi_id, 1);
    assert!(v2.account_fruit.is_empty());
    assert_eq!(v2.corgi_to_account[id as usize], Some(joe()));
}
