use dipole_oracle::operator::{Event, OperatorModule};
use dipole_oracle::utilities::{
    DispatchError, Did, Error, Operator, OperatorCategory, OperatorManager, OperatorRole, Origin,
};
use parity_scale_codec::Encode;
use sp_io::hashing::blake2_256;

fn did_of(name: &[u8]) -> Did {
    Did { did: blake2_256(name) }
}

#[test]
fn register_operator_should_work() {
    let mut m = OperatorModule::new();
    let new_operator_id = did_of(b"test");
    assert_eq!(
        m.new_operator(1, new_operator_id, OperatorRole::PublicProducer, OperatorCategory::ElectricMeter),
        Ok(())
    );
}

#[test]
fn update_operator_should_work() {
    let mut m = OperatorModule::new();
    let new_operator_id = did_of(b"test");
    assert_eq!(
        m.new_operator(1, new_operator_id, OperatorRole::PublicProducer, OperatorCategory::ElectricMeter),
        Ok(())
    );
    assert_eq!(
        m.update_operator(
            new_operator_id,
            Operator {
                owner: 2,
                role: OperatorRole::PrivateProducer,
                category: OperatorCategory::ElectricMeter,
                is_legal: true,
            }
        ),
        Ok(())
    );
}

#[test]
fn cannot_update_operator_when_operator_not_exists() {
    let mut m = OperatorModule::new();
    let new_operator_id = did_of(b"test1");
    assert_eq!(
        m.new_operator(1, new_operator_id, OperatorRole::PublicProducer, OperatorCategory::ElectricMeter),
        Ok(())
    );
    let operator_id_1 = did_of(b"test2");
    let before = m.get_operator(new_operator_id);
    assert_eq!(
        m.update_operator(
            operator_id_1,
            Operator {
                owner: 2,
                role: OperatorRole::PrivateProducer,
                category: OperatorCategory::ElectricMeter,
                is_legal: true,
            }
        ),
        Err(Error::UnknownOperator)
    );
    assert_eq!(m.get_operator(operator_id_1), None);
    assert_eq!(m.get_operator(new_operator_id), before);
}

#[test]
fn close_operator_should_work() {
    let mut m = OperatorModule::new();
    let new_operator_id = did_of(b"test");
    assert_eq!(
        m.new_operator(1, new_operator_id, OperatorRole::PublicProducer, OperatorCategory::ElectricMeter),
        Ok(())
    );
    assert_eq!(
        m.close_operator(Origin::Signed(1), new_operator_id),
        Ok(Event::OperatorUnregistered(1))
    );
    assert_eq!(m.operator(new_operator_id).unwrap().is_legal, false);
}

#[test]
fn cannot_close_operator_when_operator_not_exists() {
    let mut m = OperatorModule::new();
    let new_operator_id = did_of(b"test");
    assert_eq!(
        m.close_operator(Origin::Signed(1), new_operator_id),
        Err(DispatchError::Module(Error::UnknownOperator))
    );
    assert_eq!(m.operator(new_operator_id), None);
    assert_eq!(m.owned_operators_in_pool(1), Vec::<Did>::new());
}

#[test]
fn registration_identifier_is_hash_of_seed_account_and_nonce() {
    let mut m = OperatorModule::new();
    let seed = [7u8; 32];
    assert_eq!(
        m.call_register_operator(Origin::Signed(5), OperatorRole::PublicConsumer, OperatorCategory::ChargingPoint, seed),
        Ok(Event::OperatorRegistered(5))
    );
    let expected = Did { did: blake2_256(&(seed, 5u64, 0u64).encode()) };
    assert_ne!(expected.did, seed);
    assert_eq!(m.operators_index(0), Some(expected));
    assert_eq!(m.operators_count(), 1);
    assert_eq!(m.nonce(), 1);
    assert_eq!(
        m.operator(expected),
        Some(Operator {
            owner: 5,
            role: OperatorRole::PublicConsumer,
            category: OperatorCategory::ChargingPoint,
            is_legal: true,
        })
    );
    assert_eq!(m.owned_operators_in_pool(5), vec![expected]);
    assert_eq!(m.all_goods_operators(), vec![5]);
    assert_eq!(m.all_pay_operators(), Vec::<u64>::new());
}

#[test]
fn registration_encoding_is_seed_then_little_endian_integers() {
    let seed = [3u8; 32];
    let encoded = (seed, 0x0102u64, 9u64).encode();
    let mut expected = seed.to_vec();
    expected.extend_from_slice(&[2, 1, 0, 0, 0, 0, 0, 0]);
    expected.extend_from_slice(&[9, 0, 0, 0, 0, 0, 0, 0]);
    assert_eq!(encoded, expected);
}

#[test]
fn second_registration_uses_next_nonce() {
    let mut m = OperatorModule::new();
    let seed = [1u8; 32];
    assert_eq!(m._register_operator(4, OperatorRole::Payer, OperatorCategory::ElectricMeter, seed), Ok(()));
    assert_eq!(m._register_operator(4, OperatorRole::Payer, OperatorCategory::ElectricMeter, seed), Ok(()));
    let first = Did { did: blake2_256(&(seed, 4u64, 0u64).encode()) };
    let second = Did { did: blake2_256(&(seed, 4u64, 1u64).encode()) };
    assert_ne!(first, second);
    assert_eq!(m.operators_index(0), Some(first));
    assert_eq!(m.operators_index(1), Some(second));
    assert_eq!(m.operators_count(), 2);
    assert_eq!(m.owned_operators_in_pool(4), vec![first, second]);
    assert_eq!(m.all_pay_operators(), vec![4]);
    assert_eq!(m.all_goods_operators(), Vec::<u64>::new());
}

#[test]
fn trait_registration_matches_inherent_registration() {
    let mut m = OperatorModule::new();
    let seed = [9u8; 32];
    assert_eq!(
        OperatorManager::register_operator(&mut m, 3, OperatorRole::PrivateProducer, OperatorCategory::ElectricMeter, seed),
        Ok(())
    );
    let id = Did { did: blake2_256(&(seed, 3u64, 0u64).encode()) };
    assert_eq!(m.get_owned_operators(3), vec![id]);
    assert_eq!(m.get_operator(id).map(|o| o.owner), Some(3));
}

#[test]
fn unsigned_calls_are_refused() {
    let mut m = OperatorModule::new();
    assert_eq!(
        m.call_register_operator(Origin::Unsigned, OperatorRole::Payer, OperatorCategory::ElectricMeter, [0u8; 32]),
        Err(DispatchError::BadOrigin)
    );
    assert_eq!(m.close_operator(Origin::Root, did_of(b"x")), Err(DispatchError::BadOrigin));
    assert_eq!(m.nonce(), 0);
    assert_eq!(m.operators_count(), 0);
}

#[test]
fn closing_removes_operator_from_closer_pool_only() {
    let mut m = OperatorModule::new();
    let a = did_of(b"a");
    let b = did_of(b"b");
    assert_eq!(m.new_operator(1, a, OperatorRole::PublicProducer, OperatorCategory::ElectricMeter), Ok(()));
    assert_eq!(m.new_operator(1, b, OperatorRole::PublicConsumer, OperatorCategory::ElectricMeter), Ok(()));
    assert_eq!(m.owned_operators_in_pool(1), vec![a, b]);
    // Another account may close it: the record is closed, the owner's pool stays.
    assert_eq!(m._close_operator(2, a), Ok(()));
    assert_eq!(m.operator(a).unwrap().is_legal, false);
    assert_eq!(m.owned_operators_in_pool(1), vec![a, b]);
    assert_eq!(m._close_operator(1, a), Ok(()));
    assert_eq!(m.owned_operators_in_pool(1), vec![b]);
    assert_eq!(m.operator(b).unwrap().is_legal, true);
}

#[test]
fn registering_twice_keeps_one_pool_entry() {
    let mut m = OperatorModule::new();
    let a = did_of(b"a");
    assert_eq!(m.new_operator(1, a, OperatorRole::PublicProducer, OperatorCategory::ElectricMeter), Ok(()));
    assert_eq!(m.new_operator(1, a, OperatorRole::Payer, OperatorCategory::ChargingPoint), Ok(()));
    assert_eq!(m.owned_operators_in_pool(1), vec![a]);
    assert_eq!(m.all_goods_operators(), vec![1]);
    assert_eq!(m.all_pay_operators(), vec![1]);
    assert_eq!(m.operator(a).unwrap().role, OperatorRole::Payer);
}

#[test]
fn registry_count_matches_nonce_and_index_names_records() {
    let mut m = OperatorModule::new();
    let seed = [2u8; 32];
    assert_eq!(m._register_operator(1, OperatorRole::PublicProducer, OperatorCategory::ElectricMeter, seed), Ok(()));
    assert_eq!(m._register_operator(2, OperatorRole::Payer, OperatorCategory::ChargingPoint, seed), Ok(()));
    let first = m.operators_index(0).unwrap();
    assert_eq!(m._close_operator(1, first), Ok(()));
    assert_eq!(m.operators_count(), m.nonce());
    for k in 0..m.nonce() {
        let id = m.operators_index(k).unwrap();
        assert!(m.operator(id).is_some());
    }
    assert_eq!(m.operator(first).unwrap().is_legal, false);
}
