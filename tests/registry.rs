use chocobos::registry::Module;
use chocobos::types::{Chocobo, Error, Event, H256};

fn h(b: u8) -> H256 {
    [b; 32]
}

fn plain(id: H256) -> Chocobo {
    Chocobo { id, dna: id, price: 0, gen: 0, wins: 0, races: 0 }
}

#[test]
fn two_mints_to_one_account() {
    let mut m = Module::new();
    let x = h(1);
    let y = h(2);
    assert_eq!(m.mint(1, x, plain(x)), Ok(Event::Created(1, x)));
    assert_eq!(m.mint(1, y, plain(y)), Ok(Event::Created(1, y)));
    assert_eq!(m.count_by_account(1), 2);
    assert_eq!(m.get_all_count(), 2);
    assert_eq!(m.choco_by_index(0), Some(x));
    assert_eq!(m.choco_by_index(1), Some(y));
    assert_eq!(m.choco_by_index(2), None);
    assert_eq!(m.owner_of(&x), Some(1));
    assert_eq!(m.owner_of(&y), Some(1));
    assert_eq!(m.choco_of_owner_by_index(1, 0), Some(x));
    assert_eq!(m.choco_of_owner_by_index(1, 1), Some(y));
}

#[test]
fn second_mint_of_an_identity_is_refused() {
    let mut m = Module::new();
    let x = h(1);
    assert_eq!(m.mint(1, x, plain(x)), Ok(Event::Created(1, x)));
    assert_eq!(m.mint(2, x, plain(x)), Err(Error::DuplicateIdentity));
    assert_eq!(m.get_all_count(), 1);
    assert_eq!(m.count_by_account(2), 0);
    assert_eq!(m.owner_of(&x), Some(1));
}

#[test]
fn empty_registry() {
    let m = Module::new();
    assert_eq!(m.get_all_count(), 0);
    assert_eq!(m.count_by_account(1), 0);
    assert_eq!(m.choco_by_id(&h(1)), None);
    assert_eq!(m.owner_of(&h(1)), None);
    assert_eq!(m.choco_of_owner_by_index(1, 0), None);
    assert_eq!(m.nonce(), 0);
}

#[test]
fn transfer_swap_deletes_from_the_sender() {
    let mut m = Module::new();
    let (a, b, c) = (h(1), h(2), h(3));
    m.mint(1, a, plain(a)).unwrap();
    m.mint(1, b, plain(b)).unwrap();
    m.mint(1, c, plain(c)).unwrap();
    assert_eq!(m.transfer_from(1, 2, a), Ok(Event::Transferred(1, 2, a)));
    assert_eq!(m.owner_of(&a), Some(2));
    assert_eq!(m.count_by_account(1), 2);
    assert_eq!(m.count_by_account(2), 1);
    assert_eq!(m.get_all_count(), 3);
    // the last slot moved into the freed one
    assert_eq!(m.choco_of_owner_by_index(1, 0), Some(c));
    assert_eq!(m.choco_of_owner_by_index(1, 1), Some(b));
    assert_eq!(m.choco_of_owner_by_index(1, 2), None);
    assert_eq!(m.choco_of_owner_by_index(2, 0), Some(a));
    // global order is untouched
    assert_eq!(m.choco_by_index(0), Some(a));
}

#[test]
fn transfer_of_the_last_slot() {
    let mut m = Module::new();
    let (a, b) = (h(1), h(2));
    m.mint(1, a, plain(a)).unwrap();
    m.mint(1, b, plain(b)).unwrap();
    assert_eq!(m.transfer_from(1, 2, b), Ok(Event::Transferred(1, 2, b)));
    assert_eq!(m.choco_of_owner_by_index(1, 0), Some(a));
    assert_eq!(m.count_by_account(1), 1);
    assert_eq!(m.transfer_from(2, 1, b), Ok(Event::Transferred(2, 1, b)));
    assert_eq!(m.count_by_account(2), 0);
    assert_eq!(m.choco_of_owner_by_index(1, 1), Some(b));
}

#[test]
fn transfer_errors() {
    let mut m = Module::new();
    let a = h(1);
    m.mint(1, a, plain(a)).unwrap();
    assert_eq!(m.transfer_from(1, 2, h(9)), Err(Error::Unauthorized));
    assert_eq!(m.transfer_from(3, 2, a), Err(Error::Unauthorized));
    assert_eq!(m.owner_of(&a), Some(1));
    assert_eq!(m.count_by_account(1), 1);
}

#[test]
fn transfer_to_the_owner_itself_changes_nothing() {
    let mut m = Module::new();
    let (a, b) = (h(1), h(2));
    m.mint(1, a, plain(a)).unwrap();
    m.mint(1, b, plain(b)).unwrap();
    assert_eq!(m.transfer_from(1, 1, a), Ok(Event::Transferred(1, 1, a)));
    assert_eq!(m.count_by_account(1), 2);
    assert_eq!(m.choco_of_owner_by_index(1, 0), Some(a));
    assert_eq!(m.choco_of_owner_by_index(1, 1), Some(b));
}

#[test]
fn identity_input_is_seed_caller_nonce() {
    let m = Module::new();
    let bytes = m.identity_input(&h(7), 0x0102);
    let mut expected = vec![7u8; 32];
    expected.extend_from_slice(&[0x02, 0x01, 0, 0, 0, 0, 0, 0]);
    expected.extend_from_slice(&[0; 8]);
    assert_eq!(bytes, expected);
}
