use token_ledger::nft::{RegistryError, NFT};

fn s(v: &str) -> String {
    String::from(v)
}

fn new_registry() -> NFT {
    NFT::new(s("owner"), 7, s("one asset"))
}

#[test]
fn initialize_is_unassigned_with_no_delegates() {
    let n = new_registry();
    assert_eq!(n.get_metadata(), s("one asset"));
    assert!(n.get_approved_account_ids().is_empty());
}

#[test]
fn mint_by_owner_assigns_holder_and_requests_deposit() {
    let o = s("owner");
    let h = s("holly");
    let mut n = new_registry();
    let r = n.mint(&o, &h, 12).expect("the minting authority may mint");
    assert_eq!(r.receiver, h);
    assert_eq!(r.amount, 12);
    // the new holder may act
    let k = s("kim");
    assert!(n.transfer(&h, &k).is_ok());
}

#[test]
fn mint_by_anyone_else_is_unauthorized() {
    let h = s("holly");
    let mut n = new_registry();
    let r = n.mint(&h, &h, 12);
    assert_eq!(r.err(), Some(RegistryError::Unauthorized));
    // still unassigned
    assert_eq!(n.burn(&h, 1).err(), Some(RegistryError::NotHeld));
}

#[test]
fn holder_chain_and_unauthorized_transfer() {
    let o = s("owner");
    let h = s("holly");
    let k = s("kim");
    let mut n = new_registry();
    assert!(n.mint(&o, &h, 0).is_ok());
    assert!(n.transfer(&h, &k).is_ok());
    // the earlier holder lost authority with the handover
    assert_eq!(n.transfer(&h, &k).err(), Some(RegistryError::Unauthorized));
}

#[test]
fn transfer_while_unassigned_is_not_held() {
    let h = s("holly");
    let k = s("kim");
    let mut n = new_registry();
    assert_eq!(n.transfer(&h, &k).err(), Some(RegistryError::NotHeld));
}

#[test]
fn approve_while_unassigned_is_not_held() {
    let h = s("holly");
    let mut n = new_registry();
    assert_eq!(n.approve(&h, &h).err(), Some(RegistryError::NotHeld));
}

#[test]
fn burn_while_unassigned_is_not_held() {
    let anyone = s("whoever");
    let mut n = new_registry();
    assert_eq!(n.burn(&anyone, 3).err(), Some(RegistryError::NotHeld));
}

#[test]
fn approve_appends_delegates_in_order_with_duplicates() {
    let o = s("owner");
    let h = s("holly");
    let d1 = s("dora");
    let d2 = s("dan");
    let mut n = new_registry();
    assert!(n.mint(&o, &h, 0).is_ok());
    assert!(n.approve(&h, &d1).is_ok());
    assert!(n.approve(&h, &d2).is_ok());
    assert!(n.approve(&h, &d1).is_ok());
    assert_eq!(n.get_approved_account_ids(), vec![d1.clone(), d2, d1]);
}

#[test]
fn approve_by_non_holder_is_unauthorized() {
    let o = s("owner");
    let h = s("holly");
    let d = s("dora");
    let mut n = new_registry();
    assert!(n.mint(&o, &h, 0).is_ok());
    assert_eq!(n.approve(&d, &d).err(), Some(RegistryError::Unauthorized));
    assert!(n.get_approved_account_ids().is_empty());
    // the minting authority is not the holder
    assert_eq!(n.approve(&o, &d).err(), Some(RegistryError::Unauthorized));
}

#[test]
fn burn_clears_holder_and_requests_value_to_caller() {
    let o = s("owner");
    let h = s("holly");
    let d = s("dora");
    let mut n = new_registry();
    assert!(n.mint(&o, &h, 0).is_ok());
    assert!(n.approve(&h, &d).is_ok());
    let r = n.burn(&h, 44).expect("the holder may burn");
    assert_eq!(r.receiver, h);
    assert_eq!(r.amount, 44);
    // unassigned again; delegates are retained as recorded
    assert_eq!(n.burn(&h, 1).err(), Some(RegistryError::NotHeld));
    assert_eq!(n.get_approved_account_ids(), vec![d]);
}

#[test]
fn burn_by_non_holder_is_unauthorized() {
    let o = s("owner");
    let h = s("holly");
    let mut n = new_registry();
    assert!(n.mint(&o, &h, 0).is_ok());
    assert_eq!(n.burn(&o, 9).err(), Some(RegistryError::Unauthorized));
    // the holder is untouched by the refused burn
    assert!(n.burn(&h, 9).is_ok());
}

#[test]
fn remint_after_burn_starts_a_new_cycle() {
    let o = s("owner");
    let h = s("holly");
    let k = s("kim");
    let mut n = new_registry();
    assert!(n.mint(&o, &h, 1).is_ok());
    assert!(n.burn(&h, 2).is_ok());
    let r = n.mint(&o, &k, 3).expect("the authority may mint again");
    assert_eq!(r.receiver, k);
    assert_eq!(r.amount, 3);
    assert!(n.transfer(&k, &h).is_ok());
}
