use chocobos::genetics::{crossover, duel_outcome};
use chocobos::registry::Module;
use chocobos::types::{Chocobo, Error, Event, Payment, H256};

fn h(b: u8) -> H256 {
    [b; 32]
}

fn created(m: &mut Module, owner: u64, id: H256) {
    assert_eq!(m.create_chocobo(owner, id), Ok(Event::Created(owner, id)));
}

#[test]
fn create_gives_a_fresh_creature_and_advances_the_nonce() {
    let mut m = Module::new();
    created(&mut m, 1, h(4));
    assert_eq!(
        m.choco_by_id(&h(4)),
        Some(Chocobo { id: h(4), dna: h(4), price: 0, gen: 0, wins: 0, races: 0 })
    );
    assert_eq!(m.nonce(), 1);
    assert_eq!(m.create_chocobo(2, h(4)), Err(Error::DuplicateIdentity));
    assert_eq!(m.nonce(), 1);
    let mut expected = vec![4u8; 32];
    expected.extend_from_slice(&[2, 0, 0, 0, 0, 0, 0, 0]);
    expected.extend_from_slice(&[1, 0, 0, 0, 0, 0, 0, 0]);
    assert_eq!(m.identity_input(&h(4), 2), expected);
}

#[test]
fn set_price_rules() {
    let mut m = Module::new();
    created(&mut m, 1, h(1));
    assert_eq!(m.set_price(1, h(9), 5), Err(Error::NotFound));
    assert_eq!(m.set_price(2, h(1), 5), Err(Error::Unauthorized));
    assert_eq!(m.choco_by_id(&h(1)).unwrap().price, 0);
    assert_eq!(m.set_price(1, h(1), 5), Ok(Event::PriceSet(1, h(1), 5)));
    assert_eq!(m.choco_by_id(&h(1)).unwrap().price, 5);
}

#[test]
fn transfer_handler() {
    let mut m = Module::new();
    created(&mut m, 1, h(1));
    assert_eq!(m.transfer(2, 3, h(1)), Err(Error::Unauthorized));
    assert_eq!(m.transfer(1, 3, h(9)), Err(Error::Unauthorized));
    assert_eq!(m.transfer(1, 3, h(1)), Ok(Event::Transferred(1, 3, h(1))));
    assert_eq!(m.owner_of(&h(1)), Some(3));
    assert_eq!(m.count_by_account(1), 0);
    assert_eq!(m.count_by_account(3), 1);
}

#[test]
fn buy_above_max_price_is_refused() {
    let mut m = Module::new();
    let x = h(1);
    created(&mut m, 1, x);
    m.set_price(1, x, 100).unwrap();
    assert_eq!(m.buy_quote(2, &x, 50), Err(Error::PriceTooHigh));
    assert_eq!(m.buy_chocobo(2, x, 50, true), Err(Error::PriceTooHigh));
    assert_eq!(m.owner_of(&x), Some(1));
    assert_eq!(m.choco_by_id(&x).unwrap().price, 100);
}

#[test]
fn buy_within_max_price() {
    let mut m = Module::new();
    let x = h(1);
    created(&mut m, 1, x);
    m.set_price(1, x, 100).unwrap();
    let mut balance1: u128 = 0;
    let mut balance2: u128 = 500;
    let pay = m.buy_quote(2, &x, 150).unwrap();
    assert_eq!(pay, Payment { from: 2, to: 1, amount: 100 });
    // the ledger's side, as the host would perform it
    balance2 -= pay.amount;
    balance1 += pay.amount;
    assert_eq!(
        m.buy_chocobo(2, x, 150, true),
        Ok((Event::Transferred(1, 2, x), Event::Bought(2, 1, x, 100)))
    );
    assert_eq!(m.owner_of(&x), Some(2));
    assert_eq!(m.choco_by_id(&x).unwrap().price, 0);
    assert_eq!(balance2, 400);
    assert_eq!(balance1, 100);
    assert_eq!(m.count_by_account(1), 0);
    assert_eq!(m.count_by_account(2), 1);
}

#[test]
fn buy_refusals() {
    let mut m = Module::new();
    let x = h(1);
    created(&mut m, 1, x);
    assert_eq!(m.buy_chocobo(2, h(9), 10, true), Err(Error::NotFound));
    assert_eq!(m.buy_chocobo(2, x, 10, true), Err(Error::NotForSale));
    m.set_price(1, x, 10).unwrap();
    assert_eq!(m.buy_chocobo(1, x, 10, true), Err(Error::AlreadyOwner));
    assert_eq!(m.buy_chocobo(2, x, 10, false), Err(Error::InsufficientFunds));
    assert_eq!(m.owner_of(&x), Some(1));
    assert_eq!(m.choco_by_id(&x).unwrap().price, 10);
}

#[test]
fn crossover_takes_mare_on_even_bytes() {
    let child = crossover(&[1, 2, 3, 4], &[5, 6, 7, 8], &[0, 1, 0, 1]);
    assert_eq!(child, [5, 2, 7, 4]);
}

#[test]
fn breed_makes_a_next_generation_child() {
    let mut m = Module::new();
    let sire = h(1);
    let mare = h(2);
    created(&mut m, 1, sire);
    created(&mut m, 2, mare);
    let mut rand = [1u8; 32];
    rand[0] = 0;
    rand[3] = 4;
    assert_eq!(
        m.breed_chocobo(3, sire, mare, rand),
        Ok((Event::Created(3, rand), Event::Bred(3, sire, mare, rand)))
    );
    let child = m.choco_by_id(&rand).unwrap();
    let mut dna = [1u8; 32];
    dna[0] = 2;
    dna[3] = 2;
    assert_eq!(child, Chocobo { id: rand, dna, price: 0, gen: 1, wins: 0, races: 0 });
    assert_eq!(m.owner_of(&rand), Some(3));
    assert_eq!(m.nonce(), 3);
    assert_eq!(m.breed_chocobo(3, sire, h(9), h(8)), Err(Error::NotFound));
    assert_eq!(m.breed_chocobo(3, sire, mare, sire), Err(Error::DuplicateIdentity));
    let mut rand2 = [3u8; 32];
    rand2[5] = 8;
    m.breed_chocobo(1, rand, sire, rand2).unwrap();
    assert_eq!(m.choco_by_id(&rand2).unwrap().gen, 2);
}

#[test]
fn duel_counts_positions() {
    assert_eq!(duel_outcome(&[9, 9, 9], &[1, 1, 1]), 3);
    assert_eq!(duel_outcome(&[1, 1, 1], &[9, 9, 9]), -3);
    assert_eq!(duel_outcome(&[1, 2], &[2, 1]), 0);
    assert_eq!(duel_outcome(&[5, 5, 5], &[5]), 1);
    assert_eq!(duel_outcome(&[], &[1]), 0);
}

#[test]
fn race_stronger_first_contender_wins() {
    let mut m = Module::new();
    let a = h(9);
    let b = h(1);
    created(&mut m, 1, a);
    created(&mut m, 2, b);
    assert_eq!(m.race(5, a, b), Ok(Event::Raced(5, a, b, a)));
    let ca = m.choco_by_id(&a).unwrap();
    let cb = m.choco_by_id(&b).unwrap();
    assert_eq!((ca.races, ca.wins), (1, 1));
    assert_eq!((cb.races, cb.wins), (1, 0));
    assert_eq!(m.nonce(), 3);
    assert_eq!(m.race(5, b, a), Ok(Event::Raced(5, b, a, a)));
    assert_eq!(m.choco_by_id(&a).unwrap().wins, 2);
    assert_eq!(m.race(5, a, h(7)), Err(Error::NotFound));
}

#[test]
fn race_tie_goes_to_the_first_contender() {
    let mut m = Module::new();
    let mut g1 = [0u8; 32];
    let mut g2 = [0u8; 32];
    g1[0] = 1;
    g2[1] = 1;
    g2[0] = 0;
    g1[1] = 0;
    g1[2] = 3;
    g2[2] = 3;
    created(&mut m, 1, g1);
    created(&mut m, 2, g2);
    // positions: g1 wins 0 and 2..32 (>=), g2 wins 1: not a tie yet
    assert_eq!(duel_outcome(&g1, &g2), 30);
    let t1 = [2u8, 0, 2, 0, 2, 0, 2, 0, 2, 0, 2, 0, 2, 0, 2, 0, 2, 0, 2, 0, 2, 0, 2, 0, 2, 0, 2, 0, 2, 0, 2, 0];
    let t2 = [0u8, 2, 0, 2, 0, 2, 0, 2, 0, 2, 0, 2, 0, 2, 0, 2, 0, 2, 0, 2, 0, 2, 0, 2, 0, 2, 0, 2, 0, 2, 0, 2];
    assert_eq!(duel_outcome(&t1, &t2), 0);
    created(&mut m, 3, t1);
    created(&mut m, 4, t2);
    assert_eq!(m.race(1, t2, t1), Ok(Event::Raced(1, t2, t1, t2)));
    assert_eq!(m.choco_by_id(&t2).unwrap().wins, 1);
    assert_eq!(m.choco_by_id(&t1).unwrap().wins, 0);
    assert_eq!(m.choco_by_id(&t1).unwrap().races, 1);
}

#[test]
fn race_against_itself_counts_a_race_and_no_win() {
    let mut m = Module::new();
    created(&mut m, 1, h(3));
    assert_eq!(m.race(1, h(3), h(3)), Ok(Event::Raced(1, h(3), h(3), h(3))));
    let c = m.choco_by_id(&h(3)).unwrap();
    assert_eq!((c.races, c.wins), (1, 0));
}
