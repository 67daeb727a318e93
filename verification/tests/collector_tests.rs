use dipole_oracle::collector::{ready_to_collect, CollectorModule, Event, OracleSources};
use dipole_oracle::goods_oracle::GoodsOracleModule;
use dipole_oracle::operator::OperatorModule;
use dipole_oracle::pay_oracle::PayOracleModule;
use dipole_oracle::utilities::{
    CollectorManager, DispatchError, Did, OperatorCategory, OperatorPrice, OperatorRole, OperatorVolume, Origin,
    PayOracleData, RawVolume, VolumeType,
};
use sp_io::hashing::blake2_256;

#[test]
fn collect_oracle_data_should_work() {
    let ops = OperatorModule::new();
    let mut goods = GoodsOracleModule::new();
    let mut pays = PayOracleModule::new();
    let mut collector = CollectorModule::new();
    assert!(ready_to_collect(&ops, &goods));
    assert_eq!(
        collector.call_collect_oracle_data(Origin::Signed(1), &ops, &mut goods, &mut pays),
        Ok(Event::CollectOracleData(1))
    );
}

fn fed_sources() -> OracleSources {
    let meter = Did { did: blake2_256(b"meter") };
    let payer = Did { did: blake2_256(b"payer") };
    let mut operators = OperatorModule::new();
    assert_eq!(operators.new_operator(5, meter, OperatorRole::PublicConsumer, OperatorCategory::ElectricMeter), Ok(()));
    assert_eq!(operators.new_operator(6, payer, OperatorRole::Payer, OperatorCategory::ChargingPoint), Ok(()));
    let mut goods = GoodsOracleModule::new();
    let first = vec![OperatorVolume { operator_id: meter, operator_raw_volume: vec![RawVolume { volume_type: VolumeType::Flat, volume: 100 }] }];
    assert_eq!(goods.feed_data(&operators, meter, first, 1), Ok(()));
    let later = vec![OperatorVolume { operator_id: meter, operator_raw_volume: vec![RawVolume { volume_type: VolumeType::Flat, volume: 130 }] }];
    assert_eq!(goods.feed_data(&operators, meter, later, 2), Ok(()));
    let mut pays = PayOracleModule::new();
    assert_eq!(pays._feed_pay_data(&operators, payer, vec![OperatorPrice { pay_id: 11, price: 500 }], 3), Ok(()));
    OracleSources { operators, goods, pays }
}

#[test]
fn collection_gathers_both_oracles_and_empties_pools() {
    let mut sources = fed_sources();
    let mut collector = CollectorModule::new();
    assert!(ready_to_collect(&sources.operators, &sources.goods));
    let gathered = collector.collect_oracle_data(&mut sources).unwrap();
    assert_eq!(gathered.goods_oracle_data.len(), 1);
    assert_eq!(gathered.goods_oracle_data[0].owner, 5);
    assert_eq!(gathered.goods_oracle_data[0].public_consumer_volume, vec![RawVolume { volume_type: VolumeType::Flat, volume: 30 }]);
    assert_eq!(gathered.pay_oracle_data, vec![PayOracleData { pay_id: 11, balance: 500 }]);
    assert_eq!(collector.get_collect_oracle_data(), Some(gathered.clone()));
    assert_eq!(collector.collect_data(), Some(gathered.clone()));
    assert_eq!(sources.goods.goods_owners_in_update_pool(), Vec::<u64>::new());
    assert_eq!(sources.goods.goods_in_update_pool(), Vec::<Did>::new());
    assert_eq!(sources.pays.pays_in_update_pool(), Vec::<u64>::new());
    // Nothing was fed since: nothing is gathered and the last collection stays.
    assert_eq!(collector.collect_oracle_data(&mut sources), None);
    assert_eq!(collector.get_collect_oracle_data(), Some(gathered));
}

#[test]
fn refused_origin_collects_nothing() {
    let mut sources = fed_sources();
    let mut collector = CollectorModule::new();
    assert_eq!(
        collector.call_collect_oracle_data(Origin::Unsigned, &sources.operators, &mut sources.goods, &mut sources.pays),
        Err(DispatchError::BadOrigin)
    );
    assert_eq!(collector.collect_data(), None);
    assert_eq!(sources.goods.goods_owners_in_update_pool(), vec![5]);
    assert_eq!(sources.pays.pays_in_update_pool(), vec![11]);
}

#[test]
fn internal_collection_keeps_result() {
    let mut sources = fed_sources();
    let mut collector = CollectorModule::new();
    collector._collect_oracle_data(&sources.operators, &mut sources.goods, &mut sources.pays);
    let kept = collector.collect_data().unwrap();
    assert_eq!(kept.pay_oracle_data, vec![PayOracleData { pay_id: 11, balance: 500 }]);
    assert_eq!(kept.goods_oracle_data[0].public_consumer_volume, vec![RawVolume { volume_type: VolumeType::Flat, volume: 30 }]);
}
