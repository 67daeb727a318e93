//! The pay oracle: legal operators feed payment prices; a collection
//! reports the latest price of each payment fed since it was last collected.
use crate::operator::OperatorModule;
use crate::storage_map::{
    copy_list, differs_from, lemma_contains_concat, lemma_filter_distinct, lemma_filter_same,
    lemma_not_in_nothing, lemma_not_in_twice, lemma_push_absent_keeps_distinct, not_in, push_absent,
    push_if_absent, retain_other, without, StorageMap,
};
use crate::utilities::{
    ensure_signed, DispatchError, Did, Error, OperatorManager, OperatorPrice, Origin, PayDataProvider,
    PayOracle, TimestampedPrice,
};
use vstd::prelude::*;

verus! {

/// A price as the pay oracle stores it: in a balance, stamped with the time
/// it was fed.
pub type StampedPrice = TimestampedPrice<u64, u64>;

/// What the pay oracle stores.
#[verifier::ext_equal]
pub struct PayState {
    /// The latest price fed for each payment.
    pub raw_values: Map<u64, StampedPrice>,
    /// The latest price collected for each payment.
    pub pay_data: Map<u64, PayOracle<u64, StampedPrice>>,
    /// Payments fed since they were last collected.
    pub pays_update_pool: Seq<u64>,
}

/// No payment is listed twice in the update pool, and every record carries
/// the id of the payment it is stored under.
pub open spec fn pay_inv(s: PayState) -> bool {
    &&& s.pays_update_pool.no_duplicates()
    &&& forall|k: u64| #[trigger] s.pay_data.contains_key(k) ==> s.pay_data[k].pay_id == k
}

/// The oracle before anything was fed.
pub open spec fn pay_genesis() -> PayState {
    PayState { raw_values: Map::empty(), pay_data: Map::empty(), pays_update_pool: Seq::empty() }
}

/// The oracle after one price was fed at `now`.
pub open spec fn priced_one(s: PayState, p: OperatorPrice<u64, u64>, now: u64) -> PayState {
    PayState {
        raw_values: s.raw_values.insert(p.pay_id, TimestampedPrice { price: p.price, timestamp: now }),
        pays_update_pool: push_if_absent(s.pays_update_pool, p.pay_id),
        ..s
    }
}

/// The oracle after each of `prices` was fed in turn.
pub open spec fn priced_all(s: PayState, prices: Seq<OperatorPrice<u64, u64>>, now: u64) -> PayState
    decreases prices.len(),
{
    if prices.len() == 0 {
        s
    } else {
        priced_one(priced_all(s, prices.drop_last(), now), prices.last(), now)
    }
}

/// The record of payment `k` once its fed price is collected.
pub open spec fn refreshed_pay(s: PayState, k: u64) -> PayOracle<u64, StampedPrice> {
    if s.pay_data.contains_key(k) {
        PayOracle { pay_price: s.raw_values[k], ..s.pay_data[k] }
    } else {
        PayOracle { pay_id: k, pay_price: s.raw_values[k] }
    }
}

/// The records once every payment in `ids` is collected: each fed one holds
/// its fed price.
pub open spec fn refreshed_pays(s: PayState, ids: Seq<u64>) -> Map<u64, PayOracle<u64, StampedPrice>> {
    Map::new(
        |k: u64| s.pay_data.contains_key(k) || (ids.contains(k) && s.raw_values.contains_key(k)),
        |k: u64|
            if ids.contains(k) && s.raw_values.contains_key(k) {
                refreshed_pay(s, k)
            } else {
                s.pay_data[k]
            },
    )
}

/// The oracle once every payment in `ids` is collected: their records are
/// refreshed and they leave the update pool.
pub open spec fn collected_pays(s: PayState, ids: Seq<u64>) -> PayState {
    PayState {
        pay_data: refreshed_pays(s, ids),
        pays_update_pool: s.pays_update_pool.filter(not_in(ids)),
        ..s
    }
}

/// Collecting `a` and then `b` is collecting `a + b`.
pub proof fn lemma_collect_pays_compose(s: PayState, a: Seq<u64>, b: Seq<u64>)
    ensures
        collected_pays(collected_pays(s, a), b) == collected_pays(s, a + b),
{
    let s1 = collected_pays(s, a);
    lemma_not_in_twice(s.pays_update_pool, a, b);
    assert forall|k: u64| #[trigger] refreshed_pays(s1, b).contains_key(k) == refreshed_pays(s, a + b).contains_key(k) by {
        lemma_contains_concat(a, b, k);
    }
    assert forall|k: u64| #[trigger] refreshed_pays(s1, b).contains_key(k) implies refreshed_pays(s1, b)[k] == refreshed_pays(
        s,
        a + b,
    )[k] by {
        lemma_contains_concat(a, b, k);
    }
    assert(refreshed_pays(s1, b) =~= refreshed_pays(s, a + b));
    assert(collected_pays(s1, b) =~= collected_pays(s, a + b));
}

/// Collecting no payment changes nothing.
pub proof fn lemma_collect_pays_none(s: PayState)
    ensures
        collected_pays(s, Seq::empty()) == s,
{
    lemma_not_in_nothing(s.pays_update_pool);
    assert(refreshed_pays(s, Seq::empty()) =~= s.pay_data);
    assert(collected_pays(s, Seq::empty()) =~= s);
}

/// The events of the pay oracle.
#[derive(Clone, Copy, Debug, PartialEq, Eq)]
pub enum Event {
    /// An account fed prices through an operator.
    NewFeedPayData(u64, Did),
}

/// The storage of the pay oracle.
pub struct PayOracleModule {
    pay_data_raw_values: StorageMap<u64, StampedPrice>,
    pay_data: StorageMap<u64, PayOracle<u64, StampedPrice>>,
    pays_update_pool: Vec<u64>,
}

impl View for PayOracleModule {
    type V = PayState;

    closed spec fn view(&self) -> PayState {
        PayState {
            raw_values: self.pay_data_raw_values@,
            pay_data: self.pay_data@,
            pays_update_pool: self.pays_update_pool@,
        }
    }
}

impl PayOracleModule {
    pub open spec fn wf(&self) -> bool {
        pay_inv(self@)
    }

    /// An empty pay oracle.
    pub fn new() -> (m: Self)
        ensures
            m.wf(),
            m@ == pay_genesis(),
    {
        let m = PayOracleModule {
            pay_data_raw_values: StorageMap::new(),
            pay_data: StorageMap::new(),
            pays_update_pool: Vec::new(),
        };
        assert(m@ =~= pay_genesis());
        m
    }

    /// The latest price fed for payment `id`, if any.
    pub fn pay_data_raw_values(&self, id: u64) -> (r: Option<StampedPrice>)
        ensures
            r == self@.raw_values.get(id),
    {
        match self.pay_data_raw_values.get(&id) {
            Some(p) => Some(*p),
            None => None,
        }
    }

    /// The record of payment `id`, if it was ever collected.
    pub fn pay_data(&self, id: u64) -> (r: Option<PayOracle<u64, StampedPrice>>)
        ensures
            r == self@.pay_data.get(id),
    {
        match self.pay_data.get(&id) {
            Some(p) => Some(*p),
            None => None,
        }
    }

    /// The payments fed since they were last collected.
    pub fn pays_in_update_pool(&self) -> (r: Vec<u64>)
        ensures
            r@ == self@.pays_update_pool,
    {
        copy_list(&self.pays_update_pool)
    }

    /// Adds payment `id` to the update pool, unless it is there.
    pub fn _add_pay_to_pays_update_pool(&mut self, id: u64)
        requires
            old(self).wf(),
        ensures
            final(self).wf(),
            final(self)@ == (PayState { pays_update_pool: push_if_absent(old(self)@.pays_update_pool, id), ..old(self)@ }),
    {
        proof {
            lemma_push_absent_keeps_distinct(self@.pays_update_pool, id);
        }
        push_absent(&mut self.pays_update_pool, id);
    }

    /// Takes payment `id` out of the update pool.
    pub fn _remove_pay_from_pays_update_pool(&mut self, id: u64)
        requires
            old(self).wf(),
        ensures
            final(self).wf(),
            final(self)@ == (PayState { pays_update_pool: without(old(self)@.pays_update_pool, id), ..old(self)@ }),
    {
        proof {
            lemma_filter_distinct(self@.pays_update_pool, differs_from(id));
        }
        retain_other(&mut self.pays_update_pool, &id);
    }

    /// Feeds prices on behalf of the legal operator `operator_id`; each
    /// replaces the previous price of its payment.
    pub fn _feed_pay_data(
        &mut self,
        operators: &OperatorModule,
        operator_id: Did,
        pay_prices: Vec<OperatorPrice<u64, u64>>,
        now: u64,
    ) -> (r: Result<(), Error>)
        requires
            old(self).wf(),
        ensures
            final(self).wf(),
            match operators@.operators.get(operator_id) {
                None => r == Err::<(), Error>(Error::UnknownOperator) && final(self)@ == old(self)@,
                Some(op) => if !op.is_legal {
                    r == Err::<(), Error>(Error::NoPermission) && final(self)@ == old(self)@
                } else {
                    r is Ok && final(self)@ == priced_all(old(self)@, pay_prices@, now)
                },
            },
    {
        let operator = match operators.get_operator(operator_id) {
            Some(op) => op,
            None => {
                return Err(Error::UnknownOperator);
            },
        };
        if !operator.is_legal {
            return Err(Error::NoPermission);
        }
        let ghost pre = self@;
        let mut i: usize = 0;
        while i < pay_prices.len()
            invariant
                0 <= i <= pay_prices@.len(),
                self.wf(),
                self@ == priced_all(pre, pay_prices@.take(i as int), now),
            decreases pay_prices@.len() - i,
        {
            let p = pay_prices[i];
            let timestamped = TimestampedPrice { price: p.price, timestamp: now };
            let ghost before = self@;
            self.pay_data_raw_values.insert(p.pay_id, timestamped);
            assert(self@.pay_data == before.pay_data && self@.pays_update_pool == before.pays_update_pool);
            self._add_pay_to_pays_update_pool(p.pay_id);
            assert(pay_prices@.take(i + 1).drop_last() =~= pay_prices@.take(i as int));
            assert(self@ =~= priced_all(pre, pay_prices@.take(i + 1), now));
            i = i + 1;
        }
        assert(pay_prices@.take(pay_prices@.len() as int) =~= pay_prices@);
        Ok(())
    }

    /// Collects payment `key`: its fed price, if any, becomes its collected
    /// price and is returned, and it leaves the update pool.
    pub fn _get_pay_data_value(&mut self, key: u64) -> (r: Option<StampedPrice>)
        requires
            old(self).wf(),
        ensures
            final(self).wf(),
            r == old(self)@.raw_values.get(key),
            final(self)@ == collected_pays(old(self)@, seq![key]),
    {
        let ghost pre = self@;
        self._remove_pay_from_pays_update_pool(key);
        let r = match self.pay_data_raw_values.get(&key) {
            Some(timestamped_balance) => {
                let timestamped_balance = *timestamped_balance;
                let new_pay_data = match self.pay_data.get(&key) {
                    Some(pay_data) => PayOracle { pay_price: timestamped_balance, ..*pay_data },
                    None => PayOracle { pay_id: key, pay_price: timestamped_balance },
                };
                self.pay_data.insert(key, new_pay_data);
                Some(timestamped_balance)
            },
            None => None,
        };
        proof {
            assert forall|x: u64| differs_from(key)(x) == !#[trigger] seq![key].contains(x) by {
                if x == key {
                    assert(seq![key][0] == x);
                }
            }
            lemma_filter_same(pre.pays_update_pool, differs_from(key), not_in(seq![key]));
            assert(self@.pay_data =~= refreshed_pays(pre, seq![key]));
        }
        assert(self@ =~= collected_pays(pre, seq![key]));
        r
    }

    /// Feeds prices on behalf of the signer of the call, through the legal
    /// operator `operator_id`.
    pub fn feed_pay_data(
        &mut self,
        operators: &OperatorModule,
        origin: Origin,
        operator_id: Did,
        pay_prices: Vec<OperatorPrice<u64, u64>>,
        now: u64,
    ) -> (r: Result<Event, DispatchError>)
        requires
            old(self).wf(),
        ensures
            final(self).wf(),
            match origin {
                Origin::Signed(who) => match operators@.operators.get(operator_id) {
                    None => r == Err::<Event, DispatchError>(DispatchError::Module(Error::UnknownOperator))
                        && final(self)@ == old(self)@,
                    Some(op) => if !op.is_legal {
                        r == Err::<Event, DispatchError>(DispatchError::Module(Error::NoPermission))
                            && final(self)@ == old(self)@
                    } else {
                        r == Ok::<Event, DispatchError>(Event::NewFeedPayData(who, operator_id))
                            && final(self)@ == priced_all(old(self)@, pay_prices@, now)
                    },
                },
                _ => r == Err::<Event, DispatchError>(DispatchError::BadOrigin) && final(self)@ == old(self)@,
            },
    {
        let who = ensure_signed(origin)?;
        match self._feed_pay_data(operators, operator_id, pay_prices, now) {
            Ok(()) => Ok(Event::NewFeedPayData(who, operator_id)),
            Err(e) => Err(DispatchError::Module(e)),
        }
    }
}

impl PayDataProvider for PayOracleModule {
    type PayId = u64;

    type Balance = u64;

    open spec fn inv(&self) -> bool {
        self.wf()
    }

    open spec fn pays_in_pool(&self) -> Seq<u64> {
        self@.pays_update_pool
    }

    fn get_pay_data(&mut self, id: u64) -> (r: Option<u64>)
        ensures
            r == (match old(self)@.raw_values.get(id) {
                Some(tp) => Some(tp.price),
                None => None::<u64>,
            }),
            final(self)@ == collected_pays(old(self)@, seq![id]),
    {
        match self._get_pay_data_value(id) {
            Some(timestamped_price) => Some(timestamped_price.price),
            None => None,
        }
    }

    fn get_pay_in_update_pool(&self) -> (r: Vec<u64>)
        ensures
            r@ == self@.pays_update_pool,
    {
        copy_list(&self.pays_update_pool)
    }
}

} // verus!
