use kitties::ledger::Balances;
use kitties::AccountId;
use kitties::Balance;
use kitties::BlockContext;
use kitties::DispatchError;
use kitties::Error;
use kitties::Event;
use kitties::Pallet;
use kitties::PaymentError;

/// A 32-byte id whose bytes are all `b`.
fn id_of(b: u8) -> [u8; 32] {
    [b; 32]
}

/// A ledger holding the given initial balances.
fn ledger_of(initial: Vec<(AccountId, Balance)>) -> Balances {
    let mut l = Balances::new();
    for (who, amount) in initial {
        l.set_balance(who, amount);
    }
    l
}

fn ctx() -> BlockContext {
    BlockContext { parent_hash: id_of(7), block_number: 11, extrinsic_index: Some(3) }
}

#[test]
fn create_then_get() {
    let mut p = Pallet::new();
    assert_eq!(p.count(), 0);
    assert!(p.create_kitty(1, &ctx()).is_ok());
    assert_eq!(p.count(), 1);
    let owned = p.owned_ids(1);
    assert_eq!(owned.len(), 1);
    let k = p.get_kitty(&owned[0]).expect("minted kitty must be registered");
    assert_eq!(k.owner, 1);
    assert_eq!(k.price, None);
    assert_eq!(k.dna, owned[0]);
    assert_eq!(p.events.len(), 1);
    assert_eq!(p.events[0], Event::Created { owner: 1 });
}

#[test]
fn mint_then_get() {
    let mut p = Pallet::new();
    let d = id_of(1);
    assert_eq!(p.mint(5, d), Ok(()));
    let k = p.get_kitty(&d).expect("minted kitty must be registered");
    assert_eq!(k.owner, 5);
    assert_eq!(k.price, None);
    assert_eq!(p.count(), 1);
}

#[test]
fn duplicate_dna_fails_second_mint() {
    let mut p = Pallet::new();
    let d = id_of(2);
    assert_eq!(p.mint(1, d), Ok(()));
    // A simulated generator collision: the same dna minted again.
    assert_eq!(p.mint(2, d), Err(Error::DuplicateKitty));
    assert_eq!(p.count(), 1, "no count increment on failure");
    assert!(p.owned_ids(2).is_empty(), "no index change on failure");
    assert_eq!(p.get_kitty(&d).unwrap().owner, 1);
    assert_eq!(p.events.len(), 1);
}

#[test]
fn inventory_cap_is_one_hundred() {
    let mut p = Pallet::new();
    for i in 0..100u32 {
        let mut d = [0u8; 32];
        d[0] = (i % 256) as u8;
        d[1] = (i / 256) as u8;
        assert_eq!(p.mint(1, d), Ok(()));
    }
    assert_eq!(p.owned_ids(1).len(), 100);
    // The 101st append attempt fails and leaves everything unchanged.
    let extra = id_of(201);
    assert_eq!(p.mint(1, extra), Err(Error::TooManyOwned));
    assert_eq!(p.count(), 100);
    assert_eq!(p.owned_ids(1).len(), 100);
    assert!(p.get_kitty(&extra).is_none(), "no orphaned asset");
    // Another account can still mint.
    assert_eq!(p.mint(2, extra), Ok(()));
}

#[test]
fn transfer_to_self_always_fails() {
    let mut p = Pallet::new();
    let missing_id = id_of(9);
    // Even for an id that does not exist.
    assert_eq!(p.transfer(4, 4, missing_id), Err(Error::TransferToSelf));
    let d = id_of(3);
    assert_eq!(p.mint(4, d), Ok(()));
    // And for one that exists and is owned by the caller.
    assert_eq!(p.transfer(4, 4, d), Err(Error::TransferToSelf));
    assert_eq!(p.get_kitty(&d).unwrap().owner, 4);
}

#[test]
fn transfer_moves_exactly_one_entry() {
    let mut p = Pallet::new();
    let d = id_of(4);
    assert_eq!(p.mint(1, d), Ok(()));
    assert_eq!(p.set_price(1, d, Some(33)), Ok(()));
    assert_eq!(p.transfer(1, 2, d), Ok(()));
    let to_owned = p.owned_ids(2);
    assert_eq!(to_owned.iter().filter(|x| **x == d).count(), 1, "B holds it exactly once");
    assert!(!p.owned_ids(1).contains(&d), "A no longer holds it");
    let k = p.get_kitty(&d).unwrap();
    assert_eq!(k.owner, 2);
    assert_eq!(k.price, None, "any transfer clears the price");
    assert_eq!(p.events.last(), Some(&Event::Transferred { from: 1, to: 2, kitty_id: d }));
}

#[test]
fn transfer_error_cases() {
    let mut p = Pallet::new();
    let d = id_of(5);
    assert_eq!(p.transfer(1, 2, d), Err(Error::NoKitty));
    assert_eq!(p.mint(1, d), Ok(()));
    assert_eq!(p.transfer(3, 2, d), Err(Error::NotOwner));
    // A full receiver rejects the move and nothing changes.
    for i in 0..100u32 {
        let mut x = [9u8; 32];
        x[0] = (i % 256) as u8;
        x[1] = (i / 256) as u8;
        assert_eq!(p.mint(2, x), Ok(()));
    }
    assert_eq!(p.transfer(1, 2, d), Err(Error::TooManyOwned));
    assert_eq!(p.get_kitty(&d).unwrap().owner, 1);
    assert_eq!(p.owned_ids(2).len(), 100);
    assert!(p.owned_ids(1).contains(&d));
}

#[test]
fn set_price_lists_and_delists() {
    let mut p = Pallet::new();
    let d = id_of(6);
    assert_eq!(p.set_price(1, d, Some(10)), Err(Error::NoKitty));
    assert_eq!(p.mint(1, d), Ok(()));
    assert_eq!(p.set_price(2, d, Some(10)), Err(Error::NotOwner));
    assert_eq!(p.set_price(1, d, Some(10)), Ok(()));
    assert_eq!(p.get_kitty(&d).unwrap().price, Some(10));
    assert_eq!(p.events.last(), Some(&Event::PriceSet { owner: 1, kitty_id: d, new_price: Some(10) }));
    assert_eq!(p.set_price(1, d, None), Ok(()));
    assert_eq!(p.get_kitty(&d).unwrap().price, None);
}

#[test]
fn buy_with_max_price_below_listing_fails() {
    let mut p = Pallet::new();
    let mut ledger = ledger_of(vec![(1, 0), (2, 500)]);
    let d = id_of(8);
    assert_eq!(p.mint(1, d), Ok(()));
    assert_eq!(p.set_price(1, d, Some(100)), Ok(()));
    assert_eq!(
        p.buy_kitty(&mut ledger, 2, d, 50),
        Err(DispatchError::Module(Error::MaxPriceTooLow))
    );
    let k = p.get_kitty(&d).unwrap();
    assert_eq!(k.owner, 1, "owner unchanged");
    assert_eq!(k.price, Some(100), "price unchanged");
    assert_eq!(ledger.balance_of(1), 0, "no funds moved");
    assert_eq!(ledger.balance_of(2), 500, "no funds moved");
}

#[test]
fn buy_error_cases() {
    let mut p = Pallet::new();
    let mut ledger = ledger_of(vec![(1, 0), (2, 30)]);
    let d = id_of(10);
    assert_eq!(
        p.buy_kitty(&mut ledger, 2, d, 100),
        Err(DispatchError::Module(Error::NoKitty))
    );
    assert_eq!(p.mint(1, d), Ok(()));
    assert_eq!(
        p.buy_kitty(&mut ledger, 2, d, 100),
        Err(DispatchError::Module(Error::NotForSale))
    );
    assert_eq!(p.set_price(1, d, Some(100)), Ok(()));
    // The payment failure of the host primitive is propagated verbatim.
    assert_eq!(
        p.buy_kitty(&mut ledger, 2, d, 100),
        Err(DispatchError::Payment(PaymentError::InsufficientFunds))
    );
    assert_eq!(p.get_kitty(&d).unwrap().owner, 1);
    assert_eq!(ledger.balance_of(2), 30);
    // The owner buying their own listing fails after payment; the harness in
    // `buy_rollback_when_inventory_full` shows the host-side rollback.
    let mut rich = ledger_of(vec![(1, 1000)]);
    assert_eq!(
        p.buy_kitty(&mut rich, 1, d, 100),
        Err(DispatchError::Module(Error::TransferToSelf))
    );
    assert_eq!(p.get_kitty(&d).unwrap().owner, 1);
    assert_eq!(rich.balance_of(1), 1000, "a self-purchase moves no funds");
}

#[test]
fn end_to_end_sale() {
    let mut p = Pallet::new();
    let mut ledger = ledger_of(vec![(1, 0), (2, 150)]);
    let d1 = id_of(0xD1);
    assert_eq!(p.mint(1, d1), Ok(()));
    assert_eq!(p.get_kitty(&d1).unwrap().price, None);
    assert_eq!(p.set_price(1, d1, Some(100)), Ok(()));
    assert_eq!(p.buy_kitty(&mut ledger, 2, d1, 150), Ok(()));
    assert_eq!(ledger.balance_of(2), 50, "exactly 100 moved out of B");
    assert_eq!(ledger.balance_of(1), 100, "exactly 100 moved to A");
    let k = p.get_kitty(&d1).unwrap();
    assert_eq!(k.owner, 2);
    assert_eq!(k.price, None);
    assert_eq!(p.events.last(), Some(&Event::Sold { buyer: 2, kitty_id: d1, price: 100 }));
}

#[test]
fn buy_rollback_when_inventory_full() {
    let mut p = Pallet::new();
    let d1 = id_of(0xD1);
    assert_eq!(p.mint(1, d1), Ok(()));
    assert_eq!(p.set_price(1, d1, Some(100)), Ok(()));
    for i in 0..100u32 {
        let mut x = [13u8; 32];
        x[0] = (i % 256) as u8;
        x[1] = (i / 256) as u8;
        assert_eq!(p.mint(2, x), Ok(()));
    }
    let mut ledger = ledger_of(vec![(1, 0), (2, 500)]);
    // The host's all-or-nothing boundary: snapshot, run, discard on failure.
    let snapshot = ledger.clone();
    let r = p.buy_kitty(&mut ledger, 2, d1, 100);
    assert_eq!(r, Err(DispatchError::Module(Error::TooManyOwned)));
    if r.is_err() {
        ledger = snapshot;
    }
    assert_eq!(ledger.balance_of(1), 0, "the payment is not observable afterward");
    assert_eq!(ledger.balance_of(2), 500, "the payment is not observable afterward");
    assert_eq!(p.get_kitty(&d1).unwrap().owner, 1, "D1 still belongs to A");
    assert_eq!(p.get_kitty(&d1).unwrap().price, Some(100));
    assert_eq!(p.owned_ids(2).len(), 100);
}

#[test]
fn gen_dna_depends_on_all_inputs() {
    let mut p = Pallet::new();
    let c = ctx();
    let d1 = p.gen_dna(&c);
    let d2 = p.gen_dna(&c);
    assert_eq!(d1, d2, "the digest is a pure function of its inputs");
    assert_ne!(d1, c.parent_hash, "the digest is not the fingerprint itself");
    assert_ne!(d1, [0u8; 32]);
    // A different count gives a different dna.
    assert_eq!(p.mint(1, id_of(14)), Ok(()));
    let d3 = p.gen_dna(&c);
    assert_ne!(d1, d3);
    // A different context gives a different dna.
    let c2 = BlockContext { parent_hash: id_of(7), block_number: 12, extrinsic_index: Some(3) };
    let d4 = p.gen_dna(&c2);
    assert_ne!(d1, d4);
    let c3 = BlockContext { parent_hash: id_of(7), block_number: 11, extrinsic_index: None };
    let d5 = p.gen_dna(&c3);
    assert_ne!(d1, d5);
}

#[test]
fn events_record_each_operation_in_order() {
    let mut p = Pallet::new();
    let mut ledger = ledger_of(vec![(2, 100)]);
    let d = id_of(15);
    assert_eq!(p.mint(1, d), Ok(()));
    assert_eq!(p.set_price(1, d, Some(40)), Ok(()));
    assert_eq!(p.buy_kitty(&mut ledger, 2, d, 40), Ok(()));
    assert_eq!(
        p.events,
        vec![
            Event::Created { owner: 1 },
            Event::PriceSet { owner: 1, kitty_id: d, new_price: Some(40) },
            Event::Transferred { from: 1, to: 2, kitty_id: d },
            Event::Sold { buyer: 2, kitty_id: d, price: 40 },
        ]
    );
}
