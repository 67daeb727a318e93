use dipole_oracle::goods_oracle::{Event, GoodsOracleModule};
use dipole_oracle::operator::OperatorModule;
use dipole_oracle::utilities::{
    DispatchError, Did, Error, GoodsDataProvider, GoodsOperatorRawVolume, GoodsOperatorVolume, OperatorCategory,
    OperatorRole, OperatorVolume, Origin, RawVolume, TimestampedVolume, VolumeType,
};
use sp_io::hashing::blake2_256;

const VOLUME_TYPE_PEAK: VolumeType = VolumeType::Peak;
const VOLUME_TYPE_FLAT: VolumeType = VolumeType::Flat;
const VOLUME_TYPE_VALLEY: VolumeType = VolumeType::Valley;

fn registry_with(id: Did, owner: u64, role: OperatorRole) -> OperatorModule {
    let mut ops = OperatorModule::new();
    assert_eq!(ops.new_operator(owner, id, role, OperatorCategory::ElectricMeter), Ok(()));
    ops
}

#[test]
fn feed_goods_data_should_work() {
    let new_operator_id = Did { did: blake2_256(b"test") };
    let ops = registry_with(new_operator_id, 1, OperatorRole::PublicProducer);
    let mut m = GoodsOracleModule::new();
    let raw_volume = RawVolume { volume_type: VOLUME_TYPE_PEAK, volume: 1 };
    let operator_raw_volumes = vec![raw_volume];
    let operator_volume = OperatorVolume { operator_id: new_operator_id, operator_raw_volume: operator_raw_volumes.clone() };
    assert_eq!(
        m.feed_goods_data(&ops, Origin::Signed(1), new_operator_id, vec![operator_volume], 100),
        Ok(Event::NewFeedGoodsItemData(1, new_operator_id))
    );
}

#[test]
fn feed_data_should_work() {
    let new_operator_id = Did { did: blake2_256(b"test") };
    let ops = registry_with(new_operator_id, 1, OperatorRole::PublicProducer);
    let mut m = GoodsOracleModule::new();
    let raw_volume_1 = RawVolume { volume_type: VOLUME_TYPE_PEAK, volume: 1 };
    let raw_volume_2 = RawVolume { volume_type: VOLUME_TYPE_FLAT, volume: 2 };
    let raw_volume_3 = RawVolume { volume_type: VOLUME_TYPE_VALLEY, volume: 3 };
    let operator_raw_volumes = vec![raw_volume_1, raw_volume_2, raw_volume_3];
    let operator_volume = OperatorVolume { operator_id: new_operator_id, operator_raw_volume: operator_raw_volumes.clone() };
    assert_eq!(m.feed_data(&ops, new_operator_id, vec![operator_volume], 100), Ok(()));
}

#[test]
fn get_goods_owners_in_update_pool_should_work() {
    let new_operator_id = Did { did: blake2_256(b"test") };
    let ops = registry_with(new_operator_id, 2, OperatorRole::PublicProducer);
    let mut m = GoodsOracleModule::new();
    let raw_volume_1 = RawVolume { volume_type: VOLUME_TYPE_PEAK, volume: 1 };
    let operator_raw_volumes = vec![raw_volume_1];
    let operator_volume = OperatorVolume { operator_id: new_operator_id, operator_raw_volume: operator_raw_volumes.clone() };
    assert_eq!(
        m.feed_goods_data(&ops, Origin::Signed(2), new_operator_id, vec![operator_volume], 100),
        Ok(Event::NewFeedGoodsItemData(2, new_operator_id))
    );
    assert_eq!(m.get_goods_owners_in_update_pool(), vec![2]);
}

fn volumes(id: Did, raw: Vec<RawVolume>) -> Vec<OperatorVolume<Did>> {
    vec![OperatorVolume { operator_id: id, operator_raw_volume: raw }]
}

#[test]
fn first_feed_creates_record_and_later_feeds_only_replace_readings() {
    let id = Did { did: blake2_256(b"meter") };
    let ops = registry_with(id, 5, OperatorRole::PublicProducer);
    let mut m = GoodsOracleModule::new();
    let first = vec![
        RawVolume { volume_type: VolumeType::Peak, volume: 10 },
        RawVolume { volume_type: VolumeType::Flat, volume: 4 },
    ];
    assert_eq!(m.feed_data(&ops, id, volumes(id, first), 100), Ok(()));
    let record = m.goods_data(id).unwrap();
    assert_eq!(record.oracle_operator_id, id);
    assert_eq!(
        record.goods_operator_volume,
        vec![
            GoodsOperatorVolume {
                volume_type: VolumeType::Peak,
                init_volume: TimestampedVolume { volume: 10, timestamp: 100 },
                current_volume: TimestampedVolume { volume: 10, timestamp: 100 },
            },
            GoodsOperatorVolume {
                volume_type: VolumeType::Flat,
                init_volume: TimestampedVolume { volume: 4, timestamp: 100 },
                current_volume: TimestampedVolume { volume: 4, timestamp: 100 },
            },
        ]
    );
    assert_eq!(m.feed_data(&ops, id, volumes(id, vec![RawVolume { volume_type: VolumeType::Peak, volume: 25 }]), 200), Ok(()));
    assert_eq!(m.goods_data(id).unwrap(), record);
    assert_eq!(
        m.goods_data_raw_values(id),
        vec![GoodsOperatorRawVolume {
            volume_type: VolumeType::Peak,
            timestamed_volume: TimestampedVolume { volume: 25, timestamp: 200 },
        }]
    );
    assert_eq!(m.goods_in_update_pool(), vec![id]);
    assert_eq!(m.goods_owners_in_update_pool(), vec![5]);
}

#[test]
fn collected_reading_is_growth_since_first_feed() {
    let id = Did { did: blake2_256(b"meter") };
    let ops = registry_with(id, 5, OperatorRole::PublicProducer);
    let mut m = GoodsOracleModule::new();
    let first = vec![
        RawVolume { volume_type: VolumeType::Peak, volume: 10 },
        RawVolume { volume_type: VolumeType::Flat, volume: 4 },
    ];
    assert_eq!(m.feed_data(&ops, id, volumes(id, first), 100), Ok(()));
    assert_eq!(m.feed_data(&ops, id, volumes(id, vec![RawVolume { volume_type: VolumeType::Peak, volume: 25 }]), 200), Ok(()));
    assert!(m.readings_in_order_for_ids(&vec![id]));
    let report = m.get_goods_data(&ops, 5).unwrap();
    assert_eq!(report.owner, 5);
    assert_eq!(report.public_producer_volume, vec![RawVolume { volume_type: VolumeType::Peak, volume: 15 }]);
    assert_eq!(report.public_consumer_volume, Vec::<RawVolume>::new());
    assert_eq!(report.private_producer_volume, Vec::<RawVolume>::new());
    assert_eq!(report.private_consumer_volume, Vec::<RawVolume>::new());
    assert_eq!(m.goods_owners_in_update_pool(), Vec::<u64>::new());
    assert_eq!(m.goods_in_update_pool(), Vec::<Did>::new());
    let record = m.goods_data(id).unwrap();
    assert_eq!(record.goods_operator_volume[0].current_volume, TimestampedVolume { volume: 25, timestamp: 200 });
    assert_eq!(record.goods_operator_volume[0].init_volume, TimestampedVolume { volume: 10, timestamp: 100 });
    assert_eq!(record.goods_operator_volume[1].current_volume, TimestampedVolume { volume: 4, timestamp: 100 });
}

#[test]
fn first_feed_reads_zero() {
    let id = Did { did: blake2_256(b"meter") };
    let ops = registry_with(id, 5, OperatorRole::PrivateConsumer);
    let mut m = GoodsOracleModule::new();
    assert_eq!(m.feed_data(&ops, id, volumes(id, vec![RawVolume { volume_type: VolumeType::Valley, volume: 7 }]), 1), Ok(()));
    let report = m._get_goods_data_value(&ops, 5).unwrap();
    assert_eq!(report.private_consumer_volume, vec![RawVolume { volume_type: VolumeType::Valley, volume: 0 }]);
}

#[test]
fn account_without_readings_reports_nothing() {
    let id = Did { did: blake2_256(b"meter") };
    let ops = registry_with(id, 5, OperatorRole::PublicConsumer);
    let mut m = GoodsOracleModule::new();
    assert_eq!(m.get_goods_data(&ops, 5), None);
    assert_eq!(m.get_goods_data(&ops, 6), None);
}

#[test]
fn payer_readings_mark_report_but_fill_no_list() {
    let id = Did { did: blake2_256(b"payer-meter") };
    let ops = registry_with(id, 5, OperatorRole::Payer);
    let mut m = GoodsOracleModule::new();
    assert_eq!(m.feed_data(&ops, id, volumes(id, vec![RawVolume { volume_type: VolumeType::Peak, volume: 3 }]), 1), Ok(()));
    let report = m.get_goods_data(&ops, 5).unwrap();
    assert_eq!(report.public_consumer_volume, Vec::<RawVolume>::new());
    assert_eq!(report.public_producer_volume, Vec::<RawVolume>::new());
    assert_eq!(report.private_consumer_volume, Vec::<RawVolume>::new());
    assert_eq!(report.private_producer_volume, Vec::<RawVolume>::new());
}

#[test]
fn unknown_operator_in_feed_stops_it_after_earlier_entries() {
    let a = Did { did: blake2_256(b"a") };
    let b = Did { did: blake2_256(b"b") };
    let unknown = Did { did: blake2_256(b"unknown") };
    let mut ops = registry_with(a, 1, OperatorRole::PublicProducer);
    assert_eq!(ops.new_operator(2, b, OperatorRole::PublicConsumer, OperatorCategory::ChargingPoint), Ok(()));
    let mut m = GoodsOracleModule::new();
    let values = vec![
        OperatorVolume { operator_id: a, operator_raw_volume: vec![RawVolume { volume_type: VolumeType::Peak, volume: 1 }] },
        OperatorVolume { operator_id: unknown, operator_raw_volume: vec![RawVolume { volume_type: VolumeType::Peak, volume: 2 }] },
        OperatorVolume { operator_id: b, operator_raw_volume: vec![RawVolume { volume_type: VolumeType::Peak, volume: 3 }] },
    ];
    assert_eq!(m.feed_data(&ops, a, values, 9), Err(Error::UnknownOperator));
    assert_eq!(m.goods_in_update_pool(), vec![a]);
    assert_eq!(m.goods_owners_in_update_pool(), vec![1]);
    assert!(m.goods_data(b).is_none());
}

#[test]
fn closed_or_unknown_operator_cannot_feed_readings() {
    let a = Did { did: blake2_256(b"a") };
    let mut ops = registry_with(a, 1, OperatorRole::PublicProducer);
    let mut m = GoodsOracleModule::new();
    let unknown = Did { did: blake2_256(b"unknown") };
    assert_eq!(
        m.feed_goods_data(&ops, Origin::Signed(1), unknown, volumes(a, vec![]), 1),
        Err(DispatchError::Module(Error::UnknownOperator))
    );
    assert_eq!(ops._close_operator(1, a), Ok(()));
    assert_eq!(
        m.feed_goods_data(&ops, Origin::Signed(1), a, volumes(a, vec![RawVolume { volume_type: VolumeType::Peak, volume: 1 }]), 1),
        Err(DispatchError::Module(Error::NoPermission))
    );
    assert_eq!(
        m.feed_goods_data(&ops, Origin::Root, a, volumes(a, vec![]), 1),
        Err(DispatchError::BadOrigin)
    );
    assert_eq!(m.goods_in_update_pool(), Vec::<Did>::new());
    assert_eq!(m.goods_owners_in_update_pool(), Vec::<u64>::new());
}

#[test]
fn lower_reading_than_first_is_not_measurable() {
    let id = Did { did: blake2_256(b"meter") };
    let ops = registry_with(id, 5, OperatorRole::PublicProducer);
    let mut m = GoodsOracleModule::new();
    assert_eq!(m.feed_data(&ops, id, volumes(id, vec![RawVolume { volume_type: VolumeType::Peak, volume: 10 }]), 1), Ok(()));
    assert_eq!(m.feed_data(&ops, id, volumes(id, vec![RawVolume { volume_type: VolumeType::Peak, volume: 5 }]), 2), Ok(()));
    assert!(!m.readings_in_order_for_ids(&vec![id]));
    assert!(m.readings_in_order_for_ids(&vec![]));
}

#[test]
fn pool_helpers_keep_single_entries() {
    let id = Did { did: blake2_256(b"meter") };
    let mut m = GoodsOracleModule::new();
    m._add_goods_to_goods_update_pool(id);
    m._add_goods_to_goods_update_pool(id);
    assert_eq!(m.goods_in_update_pool(), vec![id]);
    m._remove_goods_from_goods_update_pool(id);
    assert_eq!(m.goods_in_update_pool(), Vec::<Did>::new());
    m._add_goods_owner_to_goods_owners_update_pool(3);
    m._add_goods_owner_to_goods_owners_update_pool(4);
    m._add_goods_owner_to_goods_owners_update_pool(3);
    assert_eq!(m.goods_owners_in_update_pool(), vec![3, 4]);
    m._remove_goods_owner_from_goods_owners_update_pool(3);
    assert_eq!(m.goods_owners_in_update_pool(), vec![4]);
}

#[test]
fn collecting_an_operator_twice_changes_nothing() {
    let id = Did { did: blake2_256(b"meter") };
    let ops = registry_with(id, 5, OperatorRole::PublicProducer);
    let mut m = GoodsOracleModule::new();
    assert_eq!(m.feed_data(&ops, id, volumes(id, vec![RawVolume { volume_type: VolumeType::Peak, volume: 10 }]), 1), Ok(()));
    assert_eq!(m.feed_data(&ops, id, volumes(id, vec![RawVolume { volume_type: VolumeType::Peak, volume: 18 }]), 2), Ok(()));
    let first = m._get_goods_data_update_value(id);
    let record = m.goods_data(id);
    let raws = m.goods_data_raw_values(id);
    let second = m._get_goods_data_update_value(id);
    assert_eq!(first, vec![RawVolume { volume_type: VolumeType::Peak, volume: 8 }]);
    assert_eq!(first, second);
    assert_eq!(m.goods_data(id), record);
    assert_eq!(m.goods_data_raw_values(id), raws);
    assert_eq!(m.goods_in_update_pool(), Vec::<Did>::new());
}
