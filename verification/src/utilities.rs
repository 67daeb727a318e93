//! Types shared by the pallets: operators, goods volumes, pay prices and the
//! collected oracle data.
use vstd::prelude::*;

verus! {

/// The identifier of an operator.
#[derive(Clone, Copy, Debug, PartialEq, Eq, Default, PartialOrd, Ord, Hash)]
pub struct Did {
    pub did: [u8; 32],
}

impl Did {
    /// Byte-wise comparison of two identifiers.
    pub fn same(&self, other: &Did) -> (r: bool)
        ensures
            r == (*self == *other),
    {
        broadcast use vstd::array::group_array_axioms;

        let mut i: usize = 0;
        while i < 32
            invariant
                0 <= i <= 32,
                forall|k: int| 0 <= k < i ==> self.did[k] == other.did[k],
            decreases 32 - i,
        {
            if self.did[i] != other.did[i] {
                return false;
            }
            i = i + 1;
        }
        assert(self.did =~= other.did);
        true
    }
}

/// What an operator does on the grid.
#[derive(Clone, Copy, Debug, PartialEq, Eq, Structural)]
pub enum OperatorRole {
    PublicProducer,
    PublicConsumer,
    PrivateProducer,
    PrivateConsumer,
    Payer,
}

/// The kind of hardware behind an operator.
#[derive(Clone, Copy, Debug, PartialEq, Eq, Structural)]
pub enum OperatorCategory {
    ElectricMeter,
    ChargingPoint,
}

/// The tariff period a volume was measured in.
#[derive(Clone, Copy, Debug, PartialEq, Eq, Structural)]
pub enum VolumeType {
    Peak,
    Flat,
    Valley,
}

/// A registered operator.
#[derive(Clone, Copy, Debug, PartialEq, Eq)]
pub struct Operator<AccountId, OperatorRole, OperatorCategory> {
    pub owner: AccountId,
    pub role: OperatorRole,
    pub category: OperatorCategory,
    pub is_legal: bool,
}

/// An operator record as the registry stores it: owned by an account id.
pub type OperatorRecord = Operator<u64, OperatorRole, OperatorCategory>;

/// The operator registry as the oracles see it.
pub trait OperatorManager<Did, AccountId, OperatorRole, OperatorCategory> {
    /// The registry is consistent.
    spec fn inv(&self) -> bool;

    /// One more registration can be numbered.
    spec fn can_register(&self) -> bool;

    /// The record of operator `id`, if it is registered.
    spec fn operator_record(&self, id: Did) -> Option<Operator<AccountId, OperatorRole, OperatorCategory>>;

    /// The operators that account `id` owns.
    spec fn owned_by(&self, id: AccountId) -> Seq<Did>;

    /// Registers a legal operator for `who`; `random_seed` is the chain's
    /// random seed at the time.
    fn register_operator(
        &mut self,
        who: AccountId,
        role: OperatorRole,
        category: OperatorCategory,
        random_seed: [u8; 32],
    ) -> (r: Result<(), Error>)
        requires
            old(self).inv(),
            old(self).can_register(),
        ensures
            final(self).inv(),
    ;

    /// The record of operator `id`, if it is registered.
    fn get_operator(&self, id: Did) -> (r: Option<Operator<AccountId, OperatorRole, OperatorCategory>>)
        ensures
            r == self.operator_record(id),
    ;

    /// The operators that `id` owns.
    fn get_owned_operators(&self, id: AccountId) -> (r: Vec<Did>)
        ensures
            r@ == self.owned_by(id),
    ;
}

/// The errors of the operator, goods oracle and pay oracle pallets.
#[derive(Clone, Copy, Debug, PartialEq, Eq, Structural)]
pub enum Error {
    NoPermission,
    OperatorAlreadyRegistered,
    UnknownOperator,
    NotFound,
}

/// Why a dispatched call failed: its origin was not a signed account, or the
/// pallet refused it.
#[derive(Clone, Copy, Debug, PartialEq, Eq, Structural)]
pub enum DispatchError {
    BadOrigin,
    Module(Error),
}

/// Who dispatched a call: the root, a signed account, or no one (an
/// unsigned call).
#[derive(Clone, Copy, Debug, PartialEq, Eq, Structural)]
pub enum Origin {
    Root,
    Signed(u64),
    Unsigned,
}

/// The signing account of a call; any other origin is refused.
pub fn ensure_signed(origin: Origin) -> (r: Result<u64, DispatchError>)
    ensures
        r == (match origin {
            Origin::Signed(who) => Ok(who),
            _ => Err(DispatchError::BadOrigin),
        }),
{
    match origin {
        Origin::Signed(who) => Ok(who),
        _ => Err(DispatchError::BadOrigin),
    }
}

/// A volume reading as a meter reports it.
#[derive(Clone, Copy, Debug, PartialEq, Eq)]
pub struct RawVolume {
    pub volume_type: VolumeType,
    pub volume: u64,
}

/// The readings that one operator reports.
#[derive(Clone, Debug, PartialEq, Eq)]
pub struct OperatorVolume<Did> {
    pub operator_id: Did,
    pub operator_raw_volume: Vec<RawVolume>,
}

#[derive(Clone, Copy, Debug, PartialEq, Eq)]
pub struct TimestampedVolume<Moment> {
    pub volume: u64,
    pub timestamp: Moment,
}

/// A reading as stored: its period and the time it was fed.
#[derive(Clone, Copy, Debug, PartialEq, Eq)]
pub struct GoodsOperatorRawVolume<Moment> {
    pub volume_type: VolumeType,
    pub timestamed_volume: TimestampedVolume<Moment>,
}

/// For one period, the first reading ever fed and the latest one collected.
#[derive(Clone, Copy, Debug, PartialEq, Eq)]
pub struct GoodsOperatorVolume<Moment> {
    pub volume_type: VolumeType,
    pub init_volume: TimestampedVolume<Moment>,
    pub current_volume: TimestampedVolume<Moment>,
}

/// The oracle record of one goods operator.
#[derive(Clone, Debug, PartialEq, Eq)]
pub struct GoodsOracle<Did, Moment> {
    pub oracle_operator_id: Did,
    pub goods_operator_volume: Vec<GoodsOperatorVolume<Moment>>,
}

pub struct GoodsOracleView<Did, Moment> {
    pub oracle_operator_id: Did,
    pub goods_operator_volume: Seq<GoodsOperatorVolume<Moment>>,
}

impl<Did, Moment> View for GoodsOracle<Did, Moment> {
    type V = GoodsOracleView<Did, Moment>;

    open spec fn view(&self) -> GoodsOracleView<Did, Moment> {
        GoodsOracleView {
            oracle_operator_id: self.oracle_operator_id,
            goods_operator_volume: self.goods_operator_volume@,
        }
    }
}

/// The consumption and production of one account since its meters were
/// first fed, one list per role of its operators.
#[derive(Clone, Debug, PartialEq, Eq)]
pub struct GoodsOracleData<AccountId> {
    pub owner: AccountId,
    pub public_consumer_volume: Vec<RawVolume>,
    pub public_producer_volume: Vec<RawVolume>,
    pub private_consumer_volume: Vec<RawVolume>,
    pub private_producer_volume: Vec<RawVolume>,
}

pub struct GoodsOracleDataView<AccountId> {
    pub owner: AccountId,
    pub public_consumer_volume: Seq<RawVolume>,
    pub public_producer_volume: Seq<RawVolume>,
    pub private_consumer_volume: Seq<RawVolume>,
    pub private_producer_volume: Seq<RawVolume>,
}

impl<AccountId> View for GoodsOracleData<AccountId> {
    type V = GoodsOracleDataView<AccountId>;

    open spec fn view(&self) -> GoodsOracleDataView<AccountId> {
        GoodsOracleDataView {
            owner: self.owner,
            public_consumer_volume: self.public_consumer_volume@,
            public_producer_volume: self.public_producer_volume@,
            private_consumer_volume: self.private_consumer_volume@,
            private_producer_volume: self.private_producer_volume@,
        }
    }
}

/// Where the goods readings of accounts are collected; `Registry` tells
/// which operators each account owns.
pub trait GoodsDataProvider<AccountId, Registry> {
    /// The provider is consistent.
    spec fn inv(&self) -> bool;

    /// Account `id` can be collected against `registry`.
    spec fn can_collect(&self, registry: &Registry, id: AccountId) -> bool;

    /// The accounts fed since they were last collected.
    spec fn owners_in_pool(&self) -> Seq<AccountId>;

    /// Collects the readings of account `id`.
    fn get_goods_data(&mut self, registry: &Registry, id: AccountId) -> (r: Option<GoodsOracleData<AccountId>>)
        requires
            old(self).inv(),
            old(self).can_collect(registry, id),
        ensures
            final(self).inv(),
    ;

    /// The accounts fed since they were last collected.
    fn get_goods_owners_in_update_pool(&self) -> (r: Vec<AccountId>)
        ensures
            r@ == self.owners_in_pool(),
    ;
}

#[derive(Clone, Copy, Debug, PartialEq, Eq)]
pub struct TimestampedPrice<Balance, Moment> {
    pub price: Balance,
    pub timestamp: Moment,
}

/// A price that an operator reports for a payment.
#[derive(Clone, Copy, Debug, PartialEq, Eq)]
pub struct OperatorPrice<PayId, Balance> {
    pub pay_id: PayId,
    pub price: Balance,
}

/// The oracle record of one payment.
#[derive(Clone, Copy, Debug, PartialEq, Eq)]
pub struct PayOracle<PayId, TimestampedBalance> {
    pub pay_id: PayId,
    pub pay_price: TimestampedBalance,
}

/// A collected payment and its balance.
#[derive(Clone, Copy, Debug, PartialEq, Eq)]
pub struct PayOracleData<PayId, Balance> {
    pub pay_id: PayId,
    pub balance: Balance,
}

/// Where payment prices are collected.
pub trait PayDataProvider {
    type PayId;

    type Balance;

    /// The provider is consistent.
    spec fn inv(&self) -> bool;

    /// The payments fed since they were last collected.
    spec fn pays_in_pool(&self) -> Seq<Self::PayId>;

    /// Collects the price of payment `id`.
    fn get_pay_data(&mut self, id: Self::PayId) -> (r: Option<Self::Balance>)
        requires
            old(self).inv(),
        ensures
            final(self).inv(),
    ;

    /// The payments fed since they were last collected.
    fn get_pay_in_update_pool(&self) -> (r: Vec<Self::PayId>)
        ensures
            r@ == self.pays_in_pool(),
    ;
}

/// What one collection gathered from both oracles.
#[derive(Clone, Debug, PartialEq, Eq)]
pub struct CollectorData<AccountId, PayId, Balance> {
    pub goods_oracle_data: Vec<GoodsOracleData<AccountId>>,
    pub pay_oracle_data: Vec<PayOracleData<PayId, Balance>>,
}

pub struct CollectorDataView<AccountId, PayId, Balance> {
    pub goods_oracle_data: Seq<GoodsOracleDataView<AccountId>>,
    pub pay_oracle_data: Seq<PayOracleData<PayId, Balance>>,
}

impl<AccountId, PayId, Balance> View for CollectorData<AccountId, PayId, Balance> {
    type V = CollectorDataView<AccountId, PayId, Balance>;

    open spec fn view(&self) -> CollectorDataView<AccountId, PayId, Balance> {
        CollectorDataView {
            goods_oracle_data: self.goods_oracle_data@.map_values(|d: GoodsOracleData<AccountId>| d@),
            pay_oracle_data: self.pay_oracle_data@,
        }
    }
}

} // verus!

verus! {

/// Gathers the fresh data of both oracles; `Sources` are the registry and
/// the two oracles it reads.
pub trait CollectorManager<AccountId, PayId, Balance, Sources> {
    /// The collection can run on `sources`.
    spec fn can_collect(&self, sources: &Sources) -> bool;

    /// The data of the last collection that gathered anything.
    spec fn last_collected(&self) -> Option<CollectorDataView<AccountId, PayId, Balance>>;

    /// Collects both oracles and returns what was gathered, if anything.
    fn collect_oracle_data(&mut self, sources: &mut Sources) -> (r: Option<CollectorData<AccountId, PayId, Balance>>)
        requires
            old(self).can_collect(&*old(sources)),
    ;

    /// The data of the last collection that gathered anything.
    fn get_collect_oracle_data(&self) -> (r: Option<CollectorData<AccountId, PayId, Balance>>)
        ensures
            match r {
                Some(d) => self.last_collected() == Some(d@),
                None => self.last_collected() is None,
            },
    ;
}

} // verus!
