//! The collector: gathers, in one go, the fresh goods readings of every
//! account and the fresh prices of every payment, and keeps the last
//! non-empty collection.
use crate::goods_oracle::{
    collected_operators, goods_report, lemma_collect_compose, lemma_collect_none,
    lemma_collected_basis_state, lemma_report_by_basis, readings_in_order_for,
    same_readings_basis, GoodsOracleModule, GoodsState,
};
use crate::operator::{owned_of, OperatorModule, OperatorState};
use crate::pay_oracle::{
    collected_pays, lemma_collect_pays_compose, lemma_collect_pays_none, PayOracleModule, PayState,
};
use crate::storage_map::{
    copy_list, differs_from, lemma_filter_same, lemma_not_in_nothing, lemma_not_in_twice, not_in,
};
use crate::utilities::{
    ensure_signed, CollectorData, CollectorDataView, CollectorManager, DispatchError,
    GoodsDataProvider, GoodsOracleData, GoodsOracleDataView, Origin, PayDataProvider,
    PayOracleData,
};
use vstd::prelude::*;

verus! {

/// The collected data as the collector stores it.
pub type Collected = CollectorData<u64, u64, u64>;

/// The reports of the accounts in `owners` that have something to report,
/// in order.
pub open spec fn goods_reports(s: GoodsState, ops: OperatorState, owners: Seq<u64>) -> Seq<
    GoodsOracleDataView<u64>,
>
    decreases owners.len(),
{
    if owners.len() == 0 {
        Seq::empty()
    } else {
        let rest = goods_reports(s, ops, owners.drop_last());
        match goods_report(s, ops, owners.last()) {
            Some(d) => rest.push(d),
            None => rest,
        }
    }
}

/// The fed prices of the payments in `ids` that have one, in order.
pub open spec fn pay_reports(s: PayState, ids: Seq<u64>) -> Seq<PayOracleData<u64, u64>>
    decreases ids.len(),
{
    if ids.len() == 0 {
        Seq::empty()
    } else {
        let rest = pay_reports(s, ids.drop_last());
        match s.raw_values.get(ids.last()) {
            Some(tp) => rest.push(PayOracleData { pay_id: ids.last(), balance: tp.price }),
            None => rest,
        }
    }
}

/// The operators of the accounts in `owners`, account after account.
pub open spec fn owned_ids(ops: OperatorState, owners: Seq<u64>) -> Seq<crate::utilities::Did>
    decreases owners.len(),
{
    if owners.len() == 0 {
        Seq::empty()
    } else {
        owned_ids(ops, owners.drop_last()) + owned_of(ops.owned_operators, owners.last())
    }
}

/// What a collection gathers: the reports of the accounts in the owners
/// pool and the prices of the payments in the pays pool; nothing if both
/// are empty.
pub open spec fn collection(g: GoodsState, p: PayState, ops: OperatorState) -> Option<
    CollectorDataView<u64, u64, u64>,
> {
    let gd = goods_reports(g, ops, g.goods_owners_update_pool);
    let pd = pay_reports(p, p.pays_update_pool);
    if gd.len() > 0 || pd.len() > 0 {
        Some(CollectorDataView { goods_oracle_data: gd, pay_oracle_data: pd })
    } else {
        None
    }
}

/// The goods oracle after a collection: every account of the owners pool
/// leaves it and all their operators are collected.
pub open spec fn goods_after_collection(g: GoodsState, ops: OperatorState) -> GoodsState {
    let owners = g.goods_owners_update_pool;
    GoodsState {
        goods_owners_update_pool: owners.filter(not_in(owners)),
        ..collected_operators(g, owned_ids(ops, owners))
    }
}

/// The pay oracle after a collection: every payment of the pays pool is
/// collected.
pub open spec fn pays_after_collection(p: PayState) -> PayState {
    collected_pays(p, p.pays_update_pool)
}

/// The readings of every account in the owners pool can be measured.
pub open spec fn collectable(g: GoodsState, ops: OperatorState) -> bool {
    forall|o: u64| #[trigger]
        g.goods_owners_update_pool.contains(o) ==> readings_in_order_for(g, owned_of(ops.owned_operators, o))
}

/// The events of the collector.
#[derive(Clone, Copy, Debug, PartialEq, Eq)]
pub enum Event {
    /// An account ran a collection.
    CollectOracleData(u64),
}

/// The registry and the two oracles that a collection reads.
pub struct OracleSources {
    pub operators: OperatorModule,
    pub goods: GoodsOracleModule,
    pub pays: PayOracleModule,
}

/// The storage of the collector.
pub struct CollectorModule {
    collector_datas: Option<Collected>,
}

impl View for CollectorModule {
    type V = Option<CollectorDataView<u64, u64, u64>>;

    closed spec fn view(&self) -> Option<CollectorDataView<u64, u64, u64>> {
        match self.collector_datas {
            Some(d) => Some(d@),
            None => None,
        }
    }
}

/// A copy of one account's report.
fn copy_goods_data(d: &GoodsOracleData<u64>) -> (r: GoodsOracleData<u64>)
    ensures
        r@ == d@,
{
    GoodsOracleData {
        owner: d.owner,
        public_consumer_volume: copy_list(&d.public_consumer_volume),
        public_producer_volume: copy_list(&d.public_producer_volume),
        private_consumer_volume: copy_list(&d.private_consumer_volume),
        private_producer_volume: copy_list(&d.private_producer_volume),
    }
}

/// A copy of a collection.
fn copy_collected(c: &Collected) -> (r: Collected)
    ensures
        r@ == c@,
{
    let mut goods: Vec<GoodsOracleData<u64>> = Vec::new();
    let mut i: usize = 0;
    while i < c.goods_oracle_data.len()
        invariant
            0 <= i <= c.goods_oracle_data@.len(),
            goods@.len() == i,
            forall|x: int| 0 <= x < i ==> (#[trigger] goods@[x])@ == c.goods_oracle_data@[x]@,
        decreases c.goods_oracle_data@.len() - i,
    {
        let d = copy_goods_data(&c.goods_oracle_data[i]);
        goods.push(d);
        i = i + 1;
    }
    assert(goods@.map_values(|d: GoodsOracleData<u64>| d@) =~= c.goods_oracle_data@.map_values(
        |d: GoodsOracleData<u64>| d@,
    ));
    let r = CollectorData { goods_oracle_data: goods, pay_oracle_data: copy_list(&c.pay_oracle_data) };
    assert(r@ =~= c@);
    r
}

impl CollectorModule {
    /// A collector that has collected nothing.
    pub fn new() -> (m: Self)
        ensures
            m@ is None,
    {
        CollectorModule { collector_datas: None }
    }

    /// The last non-empty collection, if any.
    pub fn collect_data(&self) -> (r: Option<Collected>)
        ensures
            match r {
                Some(d) => self@ == Some(d@),
                None => self@ is None,
            },
    {
        match &self.collector_datas {
            Some(d) => Some(copy_collected(d)),
            None => None,
        }
    }

    /// Gathers the fresh data of both oracles, collecting every account of
    /// the owners pool and every payment of the pays pool in turn.
    fn gather(operators: &OperatorModule, goods: &mut GoodsOracleModule, pays: &mut PayOracleModule) -> (r: Option<Collected>)
        requires
            old(goods).wf(),
            old(pays).wf(),
            collectable(old(goods)@, operators@),
        ensures
            final(goods).wf(),
            final(pays).wf(),
            match r {
                Some(d) => collection(old(goods)@, old(pays)@, operators@) == Some(d@),
                None => collection(old(goods)@, old(pays)@, operators@) is None,
            },
            final(goods)@ == goods_after_collection(old(goods)@, operators@),
            final(pays)@ == pays_after_collection(old(pays)@),
    {
        let ghost g0 = goods@;
        let ghost p0 = pays@;
        let goods_owners = goods.get_goods_owners_in_update_pool();
        let mut goods_oracle_data: Vec<GoodsOracleData<u64>> = Vec::new();
        proof {
            lemma_collect_none(g0);
            lemma_filter_same(g0.goods_owners_update_pool, not_in(Seq::<u64>::empty()), not_in(goods_owners@.take(0)));
            assert(goods_owners@.take(0) =~= Seq::<u64>::empty());
            lemma_not_in_nothing(g0.goods_owners_update_pool);
            assert(goods@ =~= GoodsState {
                goods_owners_update_pool: g0.goods_owners_update_pool.filter(not_in(goods_owners@.take(0))),
                ..collected_operators(g0, owned_ids(operators@, goods_owners@.take(0)))
            });
        }
        let mut k: usize = 0;
        while k < goods_owners.len()
            invariant
                0 <= k <= goods_owners@.len(),
                goods_owners@ == g0.goods_owners_update_pool,
                goods.wf(),
                collectable(g0, operators@),
                goods@ == (GoodsState {
                    goods_owners_update_pool: g0.goods_owners_update_pool.filter(not_in(goods_owners@.take(k as int))),
                    ..collected_operators(g0, owned_ids(operators@, goods_owners@.take(k as int)))
                }),
                goods_oracle_data@.map_values(|d: GoodsOracleData<u64>| d@) == goods_reports(
                    g0,
                    operators@,
                    goods_owners@.take(k as int),
                ),
            decreases goods_owners@.len() - k,
        {
            let o = goods_owners[k];
            let ghost ids = owned_of(operators@.owned_operators, o);
            let ghost a = owned_ids(operators@, goods_owners@.take(k as int));
            proof {
                lemma_collected_basis_state(g0, a);
                assert(same_readings_basis(goods@, g0));
                lemma_report_by_basis(goods@, g0, operators@, ids);
                assert(g0.goods_owners_update_pool.contains(o)) by {
                    assert(goods_owners@[k as int] == o);
                }
            }
            let report = goods.get_goods_data(operators, o);
            proof {
                let b = goods_owners@.take(k + 1);
                assert(b.drop_last() =~= goods_owners@.take(k as int));
                assert(b.last() == o);
                lemma_collect_compose(g0, a, ids);
                assert forall|x: u64| differs_from(o)(x) == !#[trigger] seq![o].contains(x) by {
                    if x == o {
                        assert(seq![o][0] == x);
                    }
                }
                lemma_filter_same(
                    g0.goods_owners_update_pool.filter(not_in(goods_owners@.take(k as int))),
                    differs_from(o),
                    not_in(seq![o]),
                );
                lemma_not_in_twice(g0.goods_owners_update_pool, goods_owners@.take(k as int), seq![o]);
                assert(goods_owners@.take(k as int) + seq![o] =~= b);
                assert(goods@ =~= GoodsState {
                    goods_owners_update_pool: g0.goods_owners_update_pool.filter(not_in(b)),
                    ..collected_operators(g0, owned_ids(operators@, b))
                });
            }
            match report {
                Some(d) => {
                    goods_oracle_data.push(d);
                },
                None => {},
            }
            k = k + 1;
            assert(goods_oracle_data@.map_values(|d: GoodsOracleData<u64>| d@) =~= goods_reports(
                g0,
                operators@,
                goods_owners@.take(k as int),
            ));
        }
        assert(goods_owners@.take(goods_owners@.len() as int) =~= goods_owners@);

        let pay_ids = pays.get_pay_in_update_pool();
        let mut pay_oracle_data: Vec<PayOracleData<u64, u64>> = Vec::new();
        proof {
            lemma_collect_pays_none(p0);
            assert(pay_ids@.take(0) =~= Seq::<u64>::empty());
        }
        let mut j: usize = 0;
        while j < pay_ids.len()
            invariant
                0 <= j <= pay_ids@.len(),
                pay_ids@ == p0.pays_update_pool,
                pays.wf(),
                pays@ == collected_pays(p0, pay_ids@.take(j as int)),
                pay_oracle_data@ == pay_reports(p0, pay_ids@.take(j as int)),
            decreases pay_ids@.len() - j,
        {
            let id = pay_ids[j];
            let balance = pays.get_pay_data(id);
            proof {
                let b = pay_ids@.take(j + 1);
                assert(b.drop_last() =~= pay_ids@.take(j as int));
                assert(b.last() == id);
                lemma_collect_pays_compose(p0, pay_ids@.take(j as int), seq![id]);
                assert(pay_ids@.take(j as int) + seq![id] =~= b);
            }
            match balance {
                Some(balance) => {
                    let new_pay_oracle_data = PayOracleData { pay_id: id, balance };
                    pay_oracle_data.push(new_pay_oracle_data);
                },
                None => {},
            }
            j = j + 1;
        }
        assert(pay_ids@.take(pay_ids@.len() as int) =~= pay_ids@);
        if goods_oracle_data.len() > 0 || pay_oracle_data.len() > 0 {
            let d = CollectorData { goods_oracle_data, pay_oracle_data };
            Some(d)
        } else {
            None
        }
    }

    /// Collects both oracles; the collection is kept unless it gathered
    /// nothing.
    pub fn _collect_oracle_data(
        &mut self,
        operators: &OperatorModule,
        goods: &mut GoodsOracleModule,
        pays: &mut PayOracleModule,
    )
        requires
            old(goods).wf(),
            old(pays).wf(),
            collectable(old(goods)@, operators@),
        ensures
            final(goods).wf(),
            final(pays).wf(),
            final(self)@ == match collection(old(goods)@, old(pays)@, operators@) {
                Some(d) => Some(d),
                None => old(self)@,
            },
            final(goods)@ == goods_after_collection(old(goods)@, operators@),
            final(pays)@ == pays_after_collection(old(pays)@),
    {
        match Self::gather(operators, goods, pays) {
            Some(d) => {
                self.collector_datas = Some(d);
            },
            None => {},
        }
    }

    /// Collects both oracles on behalf of the signer of the call.
    pub fn call_collect_oracle_data(
        &mut self,
        origin: Origin,
        operators: &OperatorModule,
        goods: &mut GoodsOracleModule,
        pays: &mut PayOracleModule,
    ) -> (r: Result<Event, DispatchError>)
        requires
            old(goods).wf(),
            old(pays).wf(),
            origin is Signed ==> collectable(old(goods)@, operators@),
        ensures
            final(goods).wf(),
            final(pays).wf(),
            match origin {
                Origin::Signed(who) => {
                    &&& r == Ok::<Event, DispatchError>(Event::CollectOracleData(who))
                    &&& final(self)@ == match collection(old(goods)@, old(pays)@, operators@) {
                        Some(d) => Some(d),
                        None => old(self)@,
                    }
                    &&& final(goods)@ == goods_after_collection(old(goods)@, operators@)
                    &&& final(pays)@ == pays_after_collection(old(pays)@)
                },
                _ => {
                    &&& r == Err::<Event, DispatchError>(DispatchError::BadOrigin)
                    &&& final(self)@ == old(self)@
                    &&& final(goods)@ == old(goods)@
                    &&& final(pays)@ == old(pays)@
                },
            },
    {
        let who = ensure_signed(origin)?;
        self._collect_oracle_data(operators, goods, pays);
        Ok(Event::CollectOracleData(who))
    }
}

/// Whether every account of the owners pool can be collected.
pub fn ready_to_collect(operators: &OperatorModule, goods: &GoodsOracleModule) -> (r: bool)
    ensures
        r == collectable(goods@, operators@),
{
    let owners = goods.goods_owners_in_update_pool();
    let mut k: usize = 0;
    while k < owners.len()
        invariant
            0 <= k <= owners@.len(),
            owners@ == goods@.goods_owners_update_pool,
            forall|x: int|
                0 <= x < k ==> readings_in_order_for(goods@, owned_of(operators@.owned_operators, #[trigger] owners@[x])),
        decreases owners@.len() - k,
    {
        let ids = operators.owned_operators_in_pool(owners[k]);
        if !goods.readings_in_order_for_ids(&ids) {
            assert(goods@.goods_owners_update_pool.contains(owners@[k as int]));
            return false;
        }
        k = k + 1;
    }
    assert forall|o: u64| #[trigger] goods@.goods_owners_update_pool.contains(o) implies readings_in_order_for(
        goods@,
        owned_of(operators@.owned_operators, o),
    ) by {
        let x = choose|x: int| 0 <= x < owners@.len() && owners@[x] == o;
        assert(readings_in_order_for(goods@, owned_of(operators@.owned_operators, owners@[x])));
    }
    true
}

impl CollectorManager<u64, u64, u64, OracleSources> for CollectorModule {
    open spec fn can_collect(&self, sources: &OracleSources) -> bool {
        &&& sources.goods.wf()
        &&& sources.pays.wf()
        &&& collectable(sources.goods@, sources.operators@)
    }

    open spec fn last_collected(&self) -> Option<CollectorDataView<u64, u64, u64>> {
        self@
    }

    fn collect_oracle_data(&mut self, sources: &mut OracleSources) -> (r: Option<Collected>)
        ensures
            final(sources).operators@ == old(sources).operators@,
            final(sources).goods.wf(),
            final(sources).pays.wf(),
            match r {
                Some(d) => collection(old(sources).goods@, old(sources).pays@, old(sources).operators@) == Some(d@),
                None => collection(old(sources).goods@, old(sources).pays@, old(sources).operators@) is None,
            },
            final(self)@ == match collection(old(sources).goods@, old(sources).pays@, old(sources).operators@) {
                Some(d) => Some(d),
                None => old(self)@,
            },
            final(sources).goods@ == goods_after_collection(old(sources).goods@, old(sources).operators@),
            final(sources).pays@ == pays_after_collection(old(sources).pays@),
    {
        let r = Self::gather(&sources.operators, &mut sources.goods, &mut sources.pays);
        match r {
            Some(d) => {
                let kept = copy_collected(&d);
                self.collector_datas = Some(kept);
                Some(d)
            },
            None => None,
        }
    }

    fn get_collect_oracle_data(&self) -> (r: Option<Collected>)
        ensures
            match r {
                Some(d) => self@ == Some(d@),
                None => self@ is None,
            },
    {
        match &self.collector_datas {
            Some(d) => Some(copy_collected(d)),
            None => None,
        }
    }
}

} // verus!
