//! End-to-end transition scenarios against the ledger model, plus direct
//! checks of the handlers and of address derivation.

use zk_counter::address::{counter_address, subscription_address, Address};
use zk_counter::entity::{CounterCompressedAccount, Identity};
use zk_counter::handlers;
use zk_counter::handlers::{Create, CustomError, Delete, Increment, InitAndIncrement};
use zk_counter::ledger::{Ledger, Record, Slot, TransitionError};

fn pid() -> Vec<u8> {
    vec![7u8; 32]
}

fn id(tag: u8) -> Identity {
    Identity::new(vec![tag; 32])
}

#[test]
fn create_then_increment_yields_one() {
    let mut ledger = Ledger::new(pid());
    let owner = id(1);

    assert!(ledger.process_create(&owner).is_ok());
    assert_eq!(ledger.counter_value(&owner), Some(0));

    let stepped = ledger.process_increment(&owner);
    assert_eq!(stepped, Ok(1));
    assert_eq!(ledger.counter_value(&owner), Some(1));

    // The owner is unchanged by the increment.
    match &ledger.slots[0].record {
        Record::Counter(c) => assert_eq!(c.owner.bytes, vec![1u8; 32]),
        Record::Subscription(_) => panic!("expected a counter record"),
    }
}

#[test]
fn increment_by_non_owner_is_unauthorized() {
    let owner = id(1);
    let intruder = id(2);
    let snapshot = CounterCompressedAccount { owner, counter: 5 };

    let r = handlers::increment(Increment { signer: intruder, counter: snapshot });
    assert_eq!(r.unwrap_err(), CustomError::Unauthorized);
}

#[test]
fn increment_by_non_owner_leaves_ledger_unchanged() {
    let mut ledger = Ledger::new(pid());
    let owner = id(1);
    let intruder = id(2);

    assert!(ledger.process_create(&owner).is_ok());
    assert!(ledger.process_increment(&intruder).is_err());
    assert_eq!(ledger.counter_value(&owner), Some(0));
}

#[test]
fn second_create_for_same_owner_is_rejected() {
    let mut ledger = Ledger::new(pid());
    let owner = id(3);

    assert!(ledger.process_create(&owner).is_ok());
    let again = ledger.process_create(&owner);
    assert_eq!(again.unwrap_err(), TransitionError::AddressOccupied);
    assert_eq!(ledger.counter_value(&owner), Some(0));
    assert_eq!(ledger.slots.len(), 1);
}

#[test]
fn init_and_increment_from_five_yields_six_and_a_record() {
    let mut ledger = Ledger::new(pid());
    let owner = id(1);
    let reference = id(9);

    assert!(ledger.process_create(&owner).is_ok());
    for expected in 1..=5u64 {
        assert_eq!(ledger.process_increment(&owner), Ok(expected));
    }
    assert_eq!(ledger.counter_value(&owner), Some(5));

    let r = ledger.process_init_and_increment(&owner, &reference, String::from("sub-42"));
    assert_eq!(r, Ok(6));
    assert_eq!(ledger.counter_value(&owner), Some(6));
    let stored = ledger.subscription_id_at(&reference, &String::from("sub-42"));
    assert_eq!(stored, Some(String::from("sub-42")));

    // A different identifier derives a distinct address and creates a
    // second, independent record.
    let r2 = ledger.process_init_and_increment(&owner, &reference, String::from("sub-43"));
    assert_eq!(r2, Ok(7));
    assert_eq!(ledger.subscription_id_at(&reference, &String::from("sub-42")), Some(String::from("sub-42")));
    assert_eq!(ledger.subscription_id_at(&reference, &String::from("sub-43")), Some(String::from("sub-43")));

    let a42 = subscription_address(&pid(), &reference, &b"sub-42".to_vec());
    let a43 = subscription_address(&pid(), &reference, &b"sub-43".to_vec());
    assert_ne!(a42.bytes, a43.bytes);
}

#[test]
fn init_and_increment_with_same_identifier_twice_is_rejected() {
    let mut ledger = Ledger::new(pid());
    let owner = id(1);
    let reference = id(9);

    assert!(ledger.process_create(&owner).is_ok());
    assert_eq!(ledger.process_init_and_increment(&owner, &reference, String::from("dup")), Ok(1));
    let again = ledger.process_init_and_increment(&owner, &reference, String::from("dup"));
    assert_eq!(again.unwrap_err(), TransitionError::AddressOccupied);
    // The rejection is atomic: the counter did not move.
    assert_eq!(ledger.counter_value(&owner), Some(1));
}

#[test]
fn init_and_increment_by_non_owner_is_unauthorized() {
    let owner = id(1);
    let intruder = id(2);
    let reference = id(9);
    let snapshot = CounterCompressedAccount { owner, counter: 0 };

    let ctx = InitAndIncrement {
        signer: intruder,
        dummy_account: reference,
        counter: snapshot,
    };
    let r = handlers::init_and_increment(ctx, String::from("sub-1"));
    assert_eq!(r.unwrap_err(), CustomError::Unauthorized);
}

#[test]
fn init_and_increment_with_empty_identifier() {
    let mut ledger = Ledger::new(pid());
    let owner = id(1);
    let reference = id(9);

    assert!(ledger.process_create(&owner).is_ok());
    assert_eq!(ledger.process_init_and_increment(&owner, &reference, String::new()), Ok(1));
    assert_eq!(ledger.subscription_id_at(&reference, &String::new()), Some(String::new()));
}

#[test]
fn delete_removes_the_entity() {
    let mut ledger = Ledger::new(pid());
    let owner = id(4);

    assert!(ledger.process_create(&owner).is_ok());
    assert!(ledger.process_delete(&owner).is_ok());
    assert_eq!(ledger.counter_value(&owner), None);
    assert_eq!(ledger.slots.len(), 0);

    // A subsequent increment finds nothing to mutate.
    let r = ledger.process_increment(&owner);
    assert_eq!(r.unwrap_err(), TransitionError::NotFound);

    // And the address can be allocated again.
    assert!(ledger.process_create(&owner).is_ok());
    assert_eq!(ledger.counter_value(&owner), Some(0));
}

#[test]
fn delete_by_non_owner_is_unauthorized_and_entity_survives() {
    let owner = id(1);
    let intruder = id(2);
    let snapshot = CounterCompressedAccount { owner, counter: 3 };
    let r = handlers::delete(Delete { signer: intruder, counter: snapshot });
    assert_eq!(r.unwrap_err(), CustomError::Unauthorized);

    let mut ledger = Ledger::new(pid());
    let owner = id(1);
    let intruder = id(2);
    assert!(ledger.process_create(&owner).is_ok());
    assert!(ledger.process_delete(&intruder).is_err());
    assert_eq!(ledger.counter_value(&owner), Some(0));
    assert_eq!(ledger.slots.len(), 1);
}

#[test]
fn increment_at_the_boundary_fails() {
    let owner = id(5);
    let program_id = pid();
    let address = counter_address(&program_id, &owner);
    let saturated = CounterCompressedAccount { owner: id(5), counter: u64::MAX };
    let mut ledger = Ledger {
        program_id,
        slots: vec![Slot { address, record: Record::Counter(saturated) }],
    };

    let r = ledger.process_increment(&owner);
    assert_eq!(r.unwrap_err(), TransitionError::CounterOverflow);
    assert_eq!(ledger.counter_value(&owner), Some(u64::MAX));
}

#[test]
fn increment_without_create_is_not_found() {
    let mut ledger = Ledger::new(pid());
    let r = ledger.process_increment(&id(6));
    assert_eq!(r.unwrap_err(), TransitionError::NotFound);
}

#[test]
fn authorize_accepts_owner_and_rejects_others() {
    let owner = id(1);
    let same = id(1);
    let other = id(2);
    assert!(handlers::authorize(&owner, &same).is_ok());
    assert_eq!(handlers::authorize(&owner, &other).unwrap_err(), CustomError::Unauthorized);
}

#[test]
fn create_handler_starts_at_zero() {
    let fresh = handlers::create(Create { signer: id(8) });
    assert_eq!(fresh.counter, 0);
    assert_eq!(fresh.owner.bytes, vec![8u8; 32]);
}

#[test]
fn derivation_is_deterministic_and_seed_sensitive() {
    let program_id = pid();
    let owner = id(1);
    let owner_again = id(1);
    let other = id(2);

    let a: Address = counter_address(&program_id, &owner);
    let b: Address = counter_address(&program_id, &owner_again);
    assert_eq!(a.bytes, b.bytes);
    assert_eq!(a.bytes.len(), 32);

    // Changing any seed component changes the address.
    let c = counter_address(&program_id, &other);
    assert_ne!(a.bytes, c.bytes);
    let other_program = vec![8u8; 32];
    let d = counter_address(&other_program, &owner);
    assert_ne!(a.bytes, d.bytes);

    // The digest is not simply the seed material handed back.
    assert_ne!(a.bytes, owner.bytes);

    // The two domain-separation tags derive distinct address families.
    let e = subscription_address(&program_id, &owner, &Vec::new());
    assert_ne!(a.bytes, e.bytes);
}

#[test]
fn mutation_of_a_foreign_record_is_unauthorized() {
    // A counter record whose owner is not the identity the slot's address
    // was derived for: the loading rule finds it, the policy rejects it.
    let owner = id(1);
    let squatter_address = counter_address(&pid(), &id(2));
    let mut ledger = Ledger {
        program_id: pid(),
        slots: vec![Slot {
            address: squatter_address,
            record: Record::Counter(CounterCompressedAccount { owner, counter: 9 }),
        }],
    };

    let r = ledger.process_increment(&id(2));
    assert_eq!(r.unwrap_err(), TransitionError::Unauthorized);
    let d = ledger.process_delete(&id(2));
    assert_eq!(d.unwrap_err(), TransitionError::Unauthorized);
    match &ledger.slots[0].record {
        Record::Counter(c) => assert_eq!(c.counter, 9),
        Record::Subscription(_) => panic!("expected a counter record"),
    }
}
