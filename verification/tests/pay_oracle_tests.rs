use dipole_oracle::operator::OperatorModule;
use dipole_oracle::pay_oracle::{Event, PayOracleModule};
use dipole_oracle::utilities::{
    DispatchError, Did, Error, OperatorCategory, OperatorPrice, OperatorRole, Origin, PayDataProvider, PayOracle,
    TimestampedPrice,
};
use sp_io::hashing::blake2_256;

fn registry_with(id: Did, owner: u64) -> OperatorModule {
    let mut ops = OperatorModule::new();
    assert_eq!(ops.new_operator(owner, id, OperatorRole::Payer, OperatorCategory::ElectricMeter), Ok(()));
    ops
}

#[test]
fn feed_pay_data_should_work() {
    let new_operator_id = Did { did: blake2_256(b"test") };
    let ops = registry_with(new_operator_id, 1);
    let mut m = PayOracleModule::new();
    let operator_price = OperatorPrice { pay_id: 1, price: 100 };
    assert_eq!(
        m.feed_pay_data(&ops, Origin::Signed(1), new_operator_id, vec![operator_price], 10),
        Ok(Event::NewFeedPayData(1, new_operator_id))
    );
}

#[test]
fn tests_feed_data_should_work() {
    let new_operator_id = Did { did: blake2_256(b"test") };
    let ops = registry_with(new_operator_id, 1);
    let mut m = PayOracleModule::new();
    let operator_price = OperatorPrice { pay_id: 1, price: 100 };
    assert_eq!(m._feed_pay_data(&ops, new_operator_id, vec![operator_price], 10), Ok(()));
}

#[test]
fn get_pay_in_update_pool_should_work() {
    let new_operator_id = Did { did: blake2_256(b"test") };
    let ops = registry_with(new_operator_id, 1);
    let mut m = PayOracleModule::new();
    let operator_price = OperatorPrice { pay_id: 1, price: 100 };
    assert_eq!(m._feed_pay_data(&ops, new_operator_id, vec![operator_price], 10), Ok(()));
    assert_eq!(m.get_pay_in_update_pool(), vec![1]);
}

#[test]
fn get_pay_data_should_work() {
    let new_operator_id = Did { did: blake2_256(b"test") };
    let ops = registry_with(new_operator_id, 1);
    let mut m = PayOracleModule::new();
    let operator_price = OperatorPrice { pay_id: 1, price: 100 };
    assert_eq!(m._feed_pay_data(&ops, new_operator_id, vec![operator_price], 10), Ok(()));
    assert_eq!(m.get_pay_data(1), Some(100));
}

#[test]
fn last_price_fed_wins_and_collection_records_it() {
    let id = Did { did: blake2_256(b"payer") };
    let ops = registry_with(id, 3);
    let mut m = PayOracleModule::new();
    let prices = vec![
        OperatorPrice { pay_id: 7, price: 10 },
        OperatorPrice { pay_id: 8, price: 20 },
        OperatorPrice { pay_id: 7, price: 30 },
    ];
    assert_eq!(m._feed_pay_data(&ops, id, prices, 42), Ok(()));
    assert_eq!(m.pays_in_update_pool(), vec![7, 8]);
    assert_eq!(m.pay_data_raw_values(7), Some(TimestampedPrice { price: 30, timestamp: 42 }));
    assert_eq!(m.pay_data(7), None);
    assert_eq!(m._get_pay_data_value(7), Some(TimestampedPrice { price: 30, timestamp: 42 }));
    assert_eq!(m.pay_data(7), Some(PayOracle { pay_id: 7, pay_price: TimestampedPrice { price: 30, timestamp: 42 } }));
    assert_eq!(m.pays_in_update_pool(), vec![8]);
    assert_eq!(m.get_pay_data(9), None);
    assert_eq!(m.pays_in_update_pool(), vec![8]);
}

#[test]
fn unknown_or_closed_operator_cannot_feed_prices() {
    let id = Did { did: blake2_256(b"payer") };
    let mut ops = registry_with(id, 3);
    let mut m = PayOracleModule::new();
    let other = Did { did: blake2_256(b"other") };
    assert_eq!(
        m._feed_pay_data(&ops, other, vec![OperatorPrice { pay_id: 1, price: 5 }], 1),
        Err(Error::UnknownOperator)
    );
    assert_eq!(ops._close_operator(3, id), Ok(()));
    assert_eq!(
        m.feed_pay_data(&ops, Origin::Signed(3), id, vec![OperatorPrice { pay_id: 1, price: 5 }], 1),
        Err(DispatchError::Module(Error::NoPermission))
    );
    assert_eq!(m.pays_in_update_pool(), Vec::<u64>::new());
    assert_eq!(m.pay_data_raw_values(1), None);
}

#[test]
fn unsigned_price_feed_is_refused() {
    let id = Did { did: blake2_256(b"payer") };
    let ops = registry_with(id, 3);
    let mut m = PayOracleModule::new();
    assert_eq!(
        m.feed_pay_data(&ops, Origin::Unsigned, id, vec![OperatorPrice { pay_id: 1, price: 5 }], 1),
        Err(DispatchError::BadOrigin)
    );
    assert_eq!(m.pays_in_update_pool(), Vec::<u64>::new());
}

#[test]
fn collected_record_carries_its_payment_id() {
    let id = Did { did: blake2_256(b"payer") };
    let ops = registry_with(id, 3);
    let mut m = PayOracleModule::new();
    assert_eq!(m._feed_pay_data(&ops, id, vec![OperatorPrice { pay_id: 4, price: 1 }], 1), Ok(()));
    assert_eq!(m._get_pay_data_value(4), Some(TimestampedPrice { price: 1, timestamp: 1 }));
    assert_eq!(m._feed_pay_data(&ops, id, vec![OperatorPrice { pay_id: 4, price: 2 }], 5), Ok(()));
    assert_eq!(m._get_pay_data_value(4), Some(TimestampedPrice { price: 2, timestamp: 5 }));
    assert_eq!(m.pay_data(4).unwrap().pay_id, 4);
}
