//! Properties of the pallets that span several calls.
use crate::collector::{
    collection, goods_after_collection, goods_reports, owned_ids, pay_reports, pays_after_collection,
};
use crate::goods_oracle::{
    collected_operators, collected_readings, fed_all, fed_one, lemma_collect_compose,
    lemma_collected_basis_state, lemma_readings_by_basis, matched_readings, raw_of, readings_ordered,
    goods_report, refreshed_for, role_readings, update_readings, GoodsState,
};
use crate::operator::{
    closed_state, genesis_state, owned_of, state_inv, with_new_operator, with_registration, without_owned,
    OperatorState,
};
use crate::pay_oracle::{collected_pays, priced_all, PayState};
use crate::storage_map::{
    lemma_filter_distinct, lemma_filter_same, lemma_remove_first, not_in, push_if_absent,
};
use crate::utilities::{
    Did, GoodsOperatorRawVolume, GoodsOracleDataView, PayOracleData, GoodsOperatorVolume, Operator, OperatorCategory, OperatorPrice, OperatorRole, OperatorVolume,
    RawVolume, TimestampedPrice, VolumeType,
};
use vstd::prelude::*;

verus! {

/// A registration stores a legal operator owned by the registering account,
/// lists it among that account's operators and the account among the
/// goods or pay accounts, and files the identifier under its number.
pub proof fn law_registration_stores_legal_operator(
    s: OperatorState,
    who: u64,
    id: Did,
    nonce: u64,
    role: OperatorRole,
    category: OperatorCategory,
)
    requires
        nonce < u64::MAX,
    ensures
        ({
            let t = with_registration(s, who, id, nonce, role, category);
            &&& t.operators[id] == Operator { owner: who, role, category, is_legal: true }
            &&& owned_of(t.owned_operators, who).contains(id)
            &&& t.operators_index[nonce] == id
            &&& t.operators_count == nonce + 1
            &&& role is Payer ==> t.all_pay_operators.contains(who)
            &&& !(role is Payer) ==> t.all_goods_operators.contains(who)
        }),
{
    let t = with_registration(s, who, id, nonce, role, category);
    let owned = owned_of(s.owned_operators, who);
    if !owned.contains(id) {
        assert(owned.push(id)[owned.len() as int] == id);
    }
    if !s.all_pay_operators.contains(who) {
        assert(s.all_pay_operators.push(who)[s.all_pay_operators.len() as int] == who);
    }
    if !s.all_goods_operators.contains(who) {
        assert(s.all_goods_operators.push(who)[s.all_goods_operators.len() as int] == who);
    }
}

/// A closed operator stays registered with the same owner, role and
/// category, is no longer legal (so every feed through it is refused), and
/// is no longer among the operators of the account that closed it.
pub proof fn law_closed_operator_is_not_legal(s: OperatorState, who: u64, id: Did)
    requires
        state_inv(s),
        s.operators.contains_key(id),
    ensures
        ({
            let t = closed_state(s, who, id);
            &&& t.operators.contains_key(id)
            &&& !t.operators[id].is_legal
            &&& t.operators[id].owner == s.operators[id].owner
            &&& t.operators[id].role == s.operators[id].role
            &&& t.operators[id].category == s.operators[id].category
            &&& !owned_of(t.owned_operators, who).contains(id)
            &&& forall|other: Did| other != id ==> #[trigger] t.operators.get(other) == s.operators.get(other)
        }),
{
    let owned = owned_of(s.owned_operators, who);
    if owned.contains(id) {
        assert(s.owned_operators.contains_key(who));
        assert(owned.no_duplicates());
        owned.index_of_first_ensures(id);
        let j = owned.index_of_first(id).unwrap();
        let r = owned.remove(j);
        if r.contains(id) {
            let k = choose|k: int| 0 <= k < r.len() && r[k] == id;
            if k < j {
                assert(owned[k] == id);
            } else {
                assert(owned[k + 1] == id);
            }
        }
    }
}

/// The price of a payment in the last of `prices` that names it.
pub open spec fn last_price(prices: Seq<OperatorPrice<u64, u64>>, pay_id: u64) -> Option<u64>
    decreases prices.len(),
{
    if prices.len() == 0 {
        None
    } else if prices.last().pay_id == pay_id {
        Some(prices.last().price)
    } else {
        last_price(prices.drop_last(), pay_id)
    }
}

/// After a feed, the fed price of a payment is the last price the feed
/// named for it, stamped with the time of the feed; payments it does not
/// name keep their price. Collecting the payment then returns that price
/// and records it.
pub proof fn law_last_fed_price_is_collected(
    s: PayState,
    prices: Seq<OperatorPrice<u64, u64>>,
    now: u64,
    pay_id: u64,
)
    ensures
        (priced_all(s, prices, now).raw_values.get(pay_id) == match last_price(prices, pay_id) {
            Some(x) => Some(TimestampedPrice { price: x, timestamp: now }),
            None => s.raw_values.get(pay_id),
        }),
        (last_price(prices, pay_id) matches Some(x) ==> collected_pays(
            priced_all(s, prices, now),
            seq![pay_id],
        ).pay_data[pay_id].pay_price == (TimestampedPrice { price: x, timestamp: now })),
    decreases prices.len(),
{
    if prices.len() > 0 {
        law_last_fed_price_is_collected(s, prices.drop_last(), now, pay_id);
    }
    assert(seq![pay_id].contains(pay_id)) by {
        assert(seq![pay_id][0] == pay_id);
    }
}

/// Every payment named by a feed waits in the update pool afterwards, and
/// so does every payment that waited before.
pub proof fn law_fed_payments_await_collection(s: PayState, prices: Seq<OperatorPrice<u64, u64>>, now: u64)
    ensures
        forall|i: int| 0 <= i < prices.len() ==> priced_all(s, prices, now).pays_update_pool.contains(#[trigger] prices[i].pay_id),
        forall|x: u64| s.pays_update_pool.contains(x) ==> #[trigger] priced_all(s, prices, now).pays_update_pool.contains(x),
    decreases prices.len(),
{
    if prices.len() > 0 {
        let t = prices.drop_last();
        law_fed_payments_await_collection(s, t, now);
        let pool = priced_all(s, t, now).pays_update_pool;
        lemma_push_keeps_members(pool, prices.last().pay_id);
        assert forall|i: int| 0 <= i < prices.len() implies priced_all(s, prices, now).pays_update_pool.contains(
            #[trigger] prices[i].pay_id,
        ) by {
            if i < t.len() {
                assert(t[i] == prices[i]);
            }
        }
    }
}

proof fn lemma_push_keeps_members<K>(s: Seq<K>, k: K)
    ensures
        push_if_absent(s, k).contains(k),
        forall|x: K| s.contains(x) ==> #[trigger] push_if_absent(s, k).contains(x),
{
    if !s.contains(k) {
        assert(s.push(k)[s.len() as int] == k);
        assert forall|x: K| s.contains(x) implies #[trigger] s.push(k).contains(x) by {
            let i = choose|i: int| 0 <= i < s.len() && s[i] == x;
            assert(s.push(k)[i] == x);
        }
    }
}

/// Every operator named by a feed of registered operators waits in the
/// update pool afterwards, its owner in the owners pool, and whatever
/// waited before still waits.
pub proof fn law_fed_goods_await_collection(
    s: GoodsState,
    ops: OperatorState,
    values: Seq<OperatorVolume<Did>>,
    now: u64,
)
    ensures
        forall|i: int|
            0 <= i < values.len() ==> fed_all(s, ops, values, now).goods_update_pool.contains(
                #[trigger] values[i].operator_id,
            ) && fed_all(s, ops, values, now).goods_owners_update_pool.contains(
                ops.operators[values[i].operator_id].owner,
            ),
        forall|x: Did| s.goods_update_pool.contains(x) ==> #[trigger] fed_all(s, ops, values, now).goods_update_pool.contains(x),
        forall|o: u64|
            s.goods_owners_update_pool.contains(o) ==> #[trigger] fed_all(s, ops, values, now).goods_owners_update_pool.contains(o),
    decreases values.len(),
{
    if values.len() > 0 {
        let t = values.drop_last();
        law_fed_goods_await_collection(s, ops, t, now);
        let u = fed_all(s, ops, t, now);
        let v = values.last();
        lemma_push_keeps_members(u.goods_update_pool, v.operator_id);
        lemma_push_keeps_members(u.goods_owners_update_pool, ops.operators[v.operator_id].owner);
        assert forall|i: int| 0 <= i < values.len() implies fed_all(s, ops, values, now).goods_update_pool.contains(
            #[trigger] values[i].operator_id,
        ) && fed_all(s, ops, values, now).goods_owners_update_pool.contains(
            ops.operators[values[i].operator_id].owner,
        ) by {
            if i < t.len() {
                assert(t[i] == values[i]);
            }
        }
    }
}

proof fn lemma_filter_not_in_self<K>(s: Seq<K>)
    ensures
        s.filter(not_in(s)) == Seq::<K>::empty(),
{
    lemma_filter_distinct(s, not_in(s));
    let f = s.filter(not_in(s));
    if f.len() > 0 {
        assert(f.contains(f[0]));
        assert(s.contains(f[0]));
        s.lemma_filter_pred(not_in(s), 0);
    }
    assert(f =~= Seq::<K>::empty());
}

/// A collection empties both update pools, and the operators of the
/// collected accounts no longer wait in the goods update pool.
pub proof fn law_collection_empties_pools(g: GoodsState, p: PayState, ops: OperatorState)
    ensures
        goods_after_collection(g, ops).goods_owners_update_pool == Seq::<u64>::empty(),
        pays_after_collection(p).pays_update_pool == Seq::<u64>::empty(),
        forall|id: Did| #[trigger]
            owned_ids(ops, g.goods_owners_update_pool).contains(id) ==> !goods_after_collection(g, ops).goods_update_pool.contains(id),
{
    lemma_filter_not_in_self(g.goods_owners_update_pool);
    lemma_filter_not_in_self(p.pays_update_pool);
    let ids = owned_ids(ops, g.goods_owners_update_pool);
    assert forall|id: Did| #[trigger] ids.contains(id) implies !goods_after_collection(g, ops).goods_update_pool.contains(id) by {
        let f = g.goods_update_pool.filter(not_in(ids));
        if f.contains(id) {
            let k = choose|k: int| 0 <= k < f.len() && f[k] == id;
            g.goods_update_pool.lemma_filter_pred(not_in(ids), k);
        }
    }
}

/// A second collection, with nothing fed after the first, gathers nothing.
pub proof fn law_second_collection_gathers_nothing(g: GoodsState, p: PayState, ops: OperatorState)
    ensures
        collection(goods_after_collection(g, ops), pays_after_collection(p), ops) is None,
{
    law_collection_empties_pools(g, p, ops);
    assert(goods_reports(goods_after_collection(g, ops), ops, Seq::<u64>::empty()) =~= Seq::empty());
    assert(pay_reports(pays_after_collection(p), Seq::<u64>::empty()) =~= Seq::empty());
}

/// Fed twice with one volume of a period, an operator reports how far the
/// second volume is above the first: what its meter measured since it was
/// first fed.
pub proof fn law_reading_is_growth_since_first_feed(
    s: GoodsState,
    id: Did,
    owner: u64,
    vt: VolumeType,
    v1: u64,
    v2: u64,
    t1: u64,
    t2: u64,
)
    requires
        raw_of(s.raw_values, id).len() == 0,
        v1 <= v2,
    ensures
        ({
            let s1 = fed_one(s, id, seq![RawVolume { volume_type: vt, volume: v1 }], owner, t1);
            let s2 = fed_one(s1, id, seq![RawVolume { volume_type: vt, volume: v2 }], owner, t2);
            &&& readings_ordered(s2.goods_data[id].goods_operator_volume, raw_of(s2.raw_values, id))
            &&& update_readings(s2, id) == seq![RawVolume { volume_type: vt, volume: (v2 - v1) as u64 }]
        }),
{
    let s1 = fed_one(s, id, seq![RawVolume { volume_type: vt, volume: v1 }], owner, t1);
    let s2 = fed_one(s1, id, seq![RawVolume { volume_type: vt, volume: v2 }], owner, t2);
    let gov = s2.goods_data[id].goods_operator_volume;
    let raws = raw_of(s2.raw_values, id);
    assert(gov.len() == 1);
    assert(raws.len() == 1);
    assert(gov[0].init_volume.volume == v1);
    assert(raws[0].timestamed_volume.volume == v2);
    assert(gov.drop_last() =~= Seq::<GoodsOperatorVolume<u64>>::empty());
    assert(raws.drop_last().len() == 0);
    assert(s2.goods_data.contains_key(id));
    assert(gov[0].volume_type == vt && raws[0].volume_type == vt);
    assert(collected_readings(gov, raws.drop_last()) =~= Seq::<RawVolume>::empty());
    assert(matched_readings(gov.drop_last(), raws.last()) =~= Seq::<RawVolume>::empty());
    assert(matched_readings(gov, raws.last()) =~= seq![RawVolume { volume_type: vt, volume: (v2 - v1) as u64 }]);
    assert(update_readings(s2, id) =~= seq![RawVolume { volume_type: vt, volume: (v2 - v1) as u64 }]);
}

/// The registration count equals the nonce, and every registration number
/// below the nonce names a stored operator.
pub open spec fn registry_consistent(s: OperatorState) -> bool {
    &&& s.operators_count == s.nonce
    &&& forall|k: u64|
        k < s.nonce ==> #[trigger] s.operators_index.contains_key(k) && s.operators.contains_key(
            s.operators_index[k],
        )
}

/// The empty registry is consistent.
pub proof fn law_registry_consistent_at_genesis()
    ensures
        registry_consistent(genesis_state()),
{
}

/// A registration keeps the registry consistent: it numbers the new
/// operator with the nonce, files it, and counts it.
pub proof fn law_registration_keeps_registry_consistent(
    s: OperatorState,
    who: u64,
    id: Did,
    role: OperatorRole,
    category: OperatorCategory,
)
    requires
        registry_consistent(s),
        s.nonce < u64::MAX,
    ensures
        registry_consistent(
            with_registration(
                OperatorState { nonce: (s.nonce + 1) as u64, ..s },
                who,
                id,
                s.nonce,
                role,
                category,
            ),
        ),
{
    let n = s.nonce;
    let t = with_registration(OperatorState { nonce: (n + 1) as u64, ..s }, who, id, n, role, category);
    assert forall|k: u64| k < t.nonce implies #[trigger] t.operators_index.contains_key(k) && t.operators.contains_key(
        t.operators_index[k],
    ) by {
        if k < n {
            assert(s.operators_index.contains_key(k));
        }
    }
}

/// Storing an operator directly, replacing a record, or closing an
/// operator keeps the registry consistent: records are never removed.
pub proof fn law_records_are_never_removed(
    s: OperatorState,
    who: u64,
    id: Did,
    record: crate::utilities::OperatorRecord,
    role: OperatorRole,
    category: OperatorCategory,
)
    requires
        registry_consistent(s),
    ensures
        registry_consistent(with_new_operator(s, who, id, role, category)),
        registry_consistent(OperatorState { operators: s.operators.insert(id, record), ..s }),
        s.operators.contains_key(id) ==> registry_consistent(closed_state(s, who, id)),
{
    assert forall|k: u64| k < s.nonce implies #[trigger] s.operators_index.contains_key(k) && s.operators.insert(
        id,
        record,
    ).contains_key(s.operators_index[k]) by {
        assert(s.operators_index.contains_key(k));
    }
    let t = with_new_operator(s, who, id, role, category);
    assert forall|k: u64| k < t.nonce implies #[trigger] t.operators_index.contains_key(k) && t.operators.contains_key(
        t.operators_index[k],
    ) by {
        assert(s.operators_index.contains_key(k));
    }
    if s.operators.contains_key(id) {
        let c = closed_state(s, who, id);
        assert forall|k: u64| k < c.nonce implies #[trigger] c.operators_index.contains_key(k) && c.operators.contains_key(
            c.operators_index[k],
        ) by {
            assert(s.operators_index.contains_key(k));
        }
    }
}

/// Collecting an operator a second time reports the same readings and
/// changes nothing; the readings can be measured the second time exactly
/// when they could the first time.
pub proof fn law_collecting_an_operator_twice_changes_nothing(s: GoodsState, key: Did)
    ensures
        ({
            let c = collected_operators(s, seq![key]);
            &&& update_readings(c, key) == update_readings(s, key)
            &&& collected_operators(c, seq![key]) == c
            &&& c.goods_data.contains_key(key) == s.goods_data.contains_key(key)
            &&& s.goods_data.contains_key(key) ==> readings_ordered(
                c.goods_data[key].goods_operator_volume,
                raw_of(c.raw_values, key),
            ) == readings_ordered(s.goods_data[key].goods_operator_volume, raw_of(s.raw_values, key))
        }),
{
    let c = collected_operators(s, seq![key]);
    lemma_collected_basis_state(s, seq![key]);
    lemma_readings_by_basis(c, s, key);
    lemma_collect_compose(s, seq![key], seq![key]);
    let kk = seq![key] + seq![key];
    assert forall|x: Did| #[trigger] not_in(kk)(x) == not_in(seq![key])(x) by {
        if kk.contains(x) {
            let i = choose|i: int| 0 <= i < kk.len() && kk[i] == x;
            assert(seq![key][0] == x);
        }
        if seq![key].contains(x) {
            assert(kk[0] == x);
        }
    }
    lemma_filter_same(s.goods_update_pool, not_in(kk), not_in(seq![key]));
    assert forall|x: Did| kk.contains(x) == #[trigger] seq![key].contains(x) by {
        assert(not_in(kk)(x) == not_in(seq![key])(x));
    }
    assert(refreshed_for(s, kk) =~= refreshed_for(s, seq![key]));
    assert(collected_operators(s, kk) =~= c);
}

/// Taking operator `id` out of the operators that `who` owns removes
/// exactly its first occurrence: the operators before it and after it stay,
/// in the same order, and the lists of other accounts do not change. When
/// `who` does not own `id`, nothing changes.
pub proof fn law_removing_owned_operator_keeps_the_others(m: Map<u64, Seq<Did>>, who: u64, id: Did, j: int)
    requires
        0 <= j < owned_of(m, who).len(),
        owned_of(m, who)[j] == id,
        forall|i: int| 0 <= i < j ==> owned_of(m, who)[i] != id,
    ensures
        ({
            let before = owned_of(m, who);
            owned_of(without_owned(m, who, id), who) == before.subrange(0, j) + before.subrange(
                j + 1,
                before.len() as int,
            )
        }),
        forall|a: u64| a != who ==> #[trigger] owned_of(without_owned(m, who, id), a) == owned_of(m, a),
{
    let before = owned_of(m, who);
    assert(before.contains(id)) by {
        assert(before[j] == id);
    }
    lemma_remove_first(before, id, j);
    assert(before.remove(j) =~= before.subrange(0, j) + before.subrange(j + 1, before.len() as int));
}

/// Taking out an operator that `who` does not own changes nothing.
pub proof fn law_removing_unowned_operator_changes_nothing(m: Map<u64, Seq<Did>>, who: u64, id: Did)
    requires
        !owned_of(m, who).contains(id),
    ensures
        without_owned(m, who, id) == m,
{
}

/// After a feed, each operator named in it holds the readings of the last
/// entry naming it, entry by entry in the fed order, each stamped with the
/// time of the feed. Operators the feed does not name keep their readings.
pub proof fn law_feed_stores_each_operators_last_readings(
    s: GoodsState,
    ops: OperatorState,
    values: Seq<OperatorVolume<Did>>,
    now: u64,
    i: int,
)
    requires
        0 <= i < values.len(),
        forall|k: int| i < k < values.len() ==> values[k].operator_id != values[i].operator_id,
    ensures
        ({
            let stored = raw_of(fed_all(s, ops, values, now).raw_values, values[i].operator_id);
            let fed = values[i].operator_raw_volume@;
            &&& stored.len() == fed.len()
            &&& forall|x: int|
                0 <= x < fed.len() ==> (#[trigger] stored[x]).volume_type == fed[x].volume_type
                    && stored[x].timestamed_volume.volume == fed[x].volume
                    && stored[x].timestamed_volume.timestamp == now
        }),
    decreases values.len(),
{
    let t = values.drop_last();
    let id = values[i].operator_id;
    if i < values.len() - 1 {
        assert(t[i] == values[i]);
        assert forall|k: int| i < k < t.len() implies t[k].operator_id != t[i].operator_id by {
            assert(t[k] == values[k]);
        }
        law_feed_stores_each_operators_last_readings(s, ops, t, now, i);
        assert(values.last().operator_id != id);
    }
}

/// A feed leaves the readings of every operator it does not name as they
/// were.
pub proof fn law_feed_keeps_unnamed_operators(
    s: GoodsState,
    ops: OperatorState,
    values: Seq<OperatorVolume<Did>>,
    now: u64,
    id: Did,
)
    requires
        forall|k: int| 0 <= k < values.len() ==> #[trigger] values[k].operator_id != id,
    ensures
        raw_of(fed_all(s, ops, values, now).raw_values, id) == raw_of(s.raw_values, id),
        fed_all(s, ops, values, now).goods_data.contains_key(id) == s.goods_data.contains_key(id),
        s.goods_data.contains_key(id) ==> fed_all(s, ops, values, now).goods_data[id] == s.goods_data[id],
    decreases values.len(),
{
    if values.len() > 0 {
        let t = values.drop_last();
        assert forall|k: int| 0 <= k < t.len() implies #[trigger] t[k].operator_id != id by {
            assert(t[k] == values[k]);
        }
        law_feed_keeps_unnamed_operators(s, ops, t, now, id);
        assert(values[values.len() - 1].operator_id != id);
    }
}

/// The first feed of an operator without readings creates its record: one
/// entry per fed reading, in order, whose first and latest volumes are both
/// the fed volume stamped with the time of the feed.
pub proof fn law_first_feed_creates_record(
    s: GoodsState,
    id: Did,
    raw: Seq<RawVolume>,
    owner: u64,
    now: u64,
)
    requires
        raw_of(s.raw_values, id).len() == 0,
    ensures
        ({
            let rec = fed_one(s, id, raw, owner, now).goods_data[id];
            &&& fed_one(s, id, raw, owner, now).goods_data.contains_key(id)
            &&& rec.oracle_operator_id == id
            &&& rec.goods_operator_volume.len() == raw.len()
            &&& forall|x: int|
                0 <= x < raw.len() ==> (#[trigger] rec.goods_operator_volume[x]).volume_type == raw[x].volume_type
                    && rec.goods_operator_volume[x].init_volume.volume == raw[x].volume
                    && rec.goods_operator_volume[x].init_volume.timestamp == now
                    && rec.goods_operator_volume[x].current_volume == rec.goods_operator_volume[x].init_volume
        }),
{
}

proof fn lemma_no_match(gov: Seq<GoodsOperatorVolume<u64>>, r: GoodsOperatorRawVolume<u64>)
    requires
        forall|a: int| 0 <= a < gov.len() ==> (#[trigger] gov[a]).volume_type != r.volume_type,
    ensures
        matched_readings(gov, r) == Seq::<RawVolume>::empty(),
    decreases gov.len(),
{
    if gov.len() > 0 {
        let t = gov.drop_last();
        assert forall|a: int| 0 <= a < t.len() implies (#[trigger] t[a]).volume_type != r.volume_type by {
            assert(t[a] == gov[a]);
        }
        lemma_no_match(t, r);
        assert(gov[gov.len() - 1].volume_type != r.volume_type);
    }
}

proof fn lemma_one_match(gov: Seq<GoodsOperatorVolume<u64>>, r: GoodsOperatorRawVolume<u64>, j: int)
    requires
        0 <= j < gov.len(),
        gov[j].volume_type == r.volume_type,
        forall|a: int| 0 <= a < gov.len() && a != j ==> (#[trigger] gov[a]).volume_type != r.volume_type,
    ensures
        matched_readings(gov, r) == seq![
            RawVolume {
                volume_type: r.volume_type,
                volume: (r.timestamed_volume.volume - gov[j].init_volume.volume) as u64,
            },
        ],
    decreases gov.len(),
{
    let t = gov.drop_last();
    if j == gov.len() - 1 {
        assert forall|a: int| 0 <= a < t.len() implies (#[trigger] t[a]).volume_type != r.volume_type by {
            assert(t[a] == gov[a]);
        }
        lemma_no_match(t, r);
    } else {
        assert(t[j] == gov[j]);
        assert forall|a: int| 0 <= a < t.len() && a != j implies (#[trigger] t[a]).volume_type != r.volume_type by {
            assert(t[a] == gov[a]);
        }
        lemma_one_match(t, r, j);
        assert(gov[gov.len() - 1].volume_type != r.volume_type);
    }
    assert(matched_readings(gov, r) =~= seq![
        RawVolume {
            volume_type: r.volume_type,
            volume: (r.timestamed_volume.volume - gov[j].init_volume.volume) as u64,
        },
    ]);
}

/// When a record holds each period once and every fed reading has a period
/// of the record, collecting reports one reading per fed reading, in the
/// fed order: its period, and how far its volume is above the first volume
/// of that period.
pub proof fn law_collection_measures_every_fed_period(
    gov: Seq<GoodsOperatorVolume<u64>>,
    raws: Seq<GoodsOperatorRawVolume<u64>>,
)
    requires
        forall|a: int, b: int|
            0 <= a < gov.len() && 0 <= b < gov.len() && a != b ==> #[trigger] gov[a].volume_type
                != #[trigger] gov[b].volume_type,
        forall|i: int|
            0 <= i < raws.len() ==> exists|j: int| 0 <= j < gov.len() && gov[j].volume_type == (#[trigger] raws[i]).volume_type,
    ensures
        collected_readings(gov, raws).len() == raws.len(),
        forall|i: int, j: int|
            0 <= i < raws.len() && 0 <= j < gov.len() && #[trigger] gov[j].volume_type == #[trigger] raws[i].volume_type
                ==> collected_readings(gov, raws)[i] == (RawVolume {
                volume_type: raws[i].volume_type,
                volume: (raws[i].timestamed_volume.volume - gov[j].init_volume.volume) as u64,
            }),
    decreases raws.len(),
{
    if raws.len() > 0 {
        let t = raws.drop_last();
        assert forall|i: int| 0 <= i < t.len() implies exists|j: int|
            0 <= j < gov.len() && gov[j].volume_type == (#[trigger] t[i]).volume_type by {
            assert(t[i] == raws[i]);
            assert(exists|j: int| 0 <= j < gov.len() && gov[j].volume_type == raws[i].volume_type);
        }
        law_collection_measures_every_fed_period(gov, t);
        let r = raws.last();
        assert(exists|j: int| 0 <= j < gov.len() && gov[j].volume_type == raws[raws.len() - 1].volume_type);
        let j = choose|j: int| 0 <= j < gov.len() && gov[j].volume_type == r.volume_type;
        assert forall|a: int| 0 <= a < gov.len() && a != j implies (#[trigger] gov[a]).volume_type != r.volume_type by {
            assert(gov[a].volume_type != gov[j].volume_type);
        }
        lemma_one_match(gov, r, j);
        let c = collected_readings(gov, raws);
        assert forall|i: int, jj: int|
            0 <= i < raws.len() && 0 <= jj < gov.len() && #[trigger] gov[jj].volume_type == #[trigger] raws[i].volume_type
                implies c[i] == (RawVolume {
                volume_type: raws[i].volume_type,
                volume: (raws[i].timestamed_volume.volume - gov[jj].init_volume.volume) as u64,
            }) by {
            if i < t.len() {
                assert(t[i] == raws[i]);
                assert(gov[jj].volume_type == t[i].volume_type);
            } else {
                if jj != j {
                    assert(gov[jj].volume_type != gov[j].volume_type);
                }
            }
        }
    }
}

/// The list of a report that holds the readings of operators of `role`.
pub open spec fn report_list(d: GoodsOracleDataView<u64>, role: OperatorRole) -> Seq<RawVolume> {
    match role {
        OperatorRole::PublicConsumer => d.public_consumer_volume,
        OperatorRole::PublicProducer => d.public_producer_volume,
        OperatorRole::PrivateConsumer => d.private_consumer_volume,
        OperatorRole::PrivateProducer => d.private_producer_volume,
        OperatorRole::Payer => Seq::empty(),
    }
}

/// Operator `ids[k]` is registered with `role` and has readings.
pub open spec fn reads_as(s: GoodsState, ops: OperatorState, ids: Seq<Did>, k: int, role: OperatorRole) -> bool {
    &&& update_readings(s, ids[k]).len() > 0
    &&& ops.operators.contains_key(ids[k])
    &&& ops.operators[ids[k]].role == role
}

proof fn lemma_role_readings_last(s: GoodsState, ops: OperatorState, ids: Seq<Did>, k: int, role: OperatorRole)
    requires
        0 <= k < ids.len(),
        reads_as(s, ops, ids, k, role),
        forall|j: int| k < j < ids.len() ==> !#[trigger] reads_as(s, ops, ids, j, role),
    ensures
        role_readings(s, ops, ids, role) == update_readings(s, ids[k]),
    decreases ids.len(),
{
    let t = ids.drop_last();
    if k < ids.len() - 1 {
        assert(!reads_as(s, ops, ids, ids.len() - 1, role));
        assert(t[k] == ids[k]);
        assert forall|j: int| k < j < t.len() implies !#[trigger] reads_as(s, ops, t, j, role) by {
            assert(t[j] == ids[j]);
            assert(!reads_as(s, ops, ids, j, role));
        }
        lemma_role_readings_last(s, ops, t, k, role);
    }
}

proof fn lemma_role_readings_none(s: GoodsState, ops: OperatorState, ids: Seq<Did>, role: OperatorRole)
    requires
        forall|j: int| 0 <= j < ids.len() ==> !#[trigger] reads_as(s, ops, ids, j, role),
    ensures
        role_readings(s, ops, ids, role) == Seq::<RawVolume>::empty(),
    decreases ids.len(),
{
    if ids.len() > 0 {
        let t = ids.drop_last();
        assert(!reads_as(s, ops, ids, ids.len() - 1, role));
        assert forall|j: int| 0 <= j < t.len() implies !#[trigger] reads_as(s, ops, t, j, role) by {
            assert(t[j] == ids[j]);
            assert(!reads_as(s, ops, ids, j, role));
        }
        lemma_role_readings_none(s, ops, t, role);
    }
}

/// The report of an account holds, in the list of each goods role, the
/// readings of the last of its operators that is registered with that role
/// and has readings; a role none of its operators reads as has an empty
/// list. The report names the account.
pub proof fn law_report_holds_each_roles_readings(
    s: GoodsState,
    ops: OperatorState,
    key: u64,
    k: int,
    role: OperatorRole,
)
    requires
        0 <= k < owned_of(ops.owned_operators, key).len(),
        !(role is Payer),
        reads_as(s, ops, owned_of(ops.owned_operators, key), k, role),
        forall|j: int|
            k < j < owned_of(ops.owned_operators, key).len() ==> !#[trigger] reads_as(
                s,
                ops,
                owned_of(ops.owned_operators, key),
                j,
                role,
            ),
    ensures
        goods_report(s, ops, key) is Some,
        goods_report(s, ops, key).unwrap().owner == key,
        report_list(goods_report(s, ops, key).unwrap(), role) == update_readings(
            s,
            owned_of(ops.owned_operators, key)[k],
        ),
{
    let ids = owned_of(ops.owned_operators, key);
    lemma_role_readings_last(s, ops, ids, k, role);
    assert(update_readings(s, ids[k]).len() > 0 && ops.operators.contains_key(ids[k]));
}

/// A goods role that none of an account's operators reads as gets an empty
/// list in the account's report.
pub proof fn law_report_leaves_unread_roles_empty(s: GoodsState, ops: OperatorState, key: u64, role: OperatorRole)
    requires
        forall|j: int|
            0 <= j < owned_of(ops.owned_operators, key).len() ==> !#[trigger] reads_as(
                s,
                ops,
                owned_of(ops.owned_operators, key),
                j,
                role,
            ),
        goods_report(s, ops, key) is Some,
    ensures
        report_list(goods_report(s, ops, key).unwrap(), role) == Seq::<RawVolume>::empty(),
{
    lemma_role_readings_none(s, ops, owned_of(ops.owned_operators, key), role);
}

proof fn lemma_pay_reports_hold(p: PayState, ids: Seq<u64>, x: u64)
    requires
        ids.contains(x),
        p.raw_values.contains_key(x),
    ensures
        pay_reports(p, ids).contains(PayOracleData { pay_id: x, balance: p.raw_values[x].price }),
    decreases ids.len(),
{
    let t = ids.drop_last();
    let e = PayOracleData { pay_id: x, balance: p.raw_values[x].price };
    if ids.last() == x {
        let r = pay_reports(p, t).push(e);
        assert(r[r.len() - 1] == e);
    } else {
        let i = choose|i: int| 0 <= i < ids.len() && ids[i] == x;
        assert(t[i] == x);
        lemma_pay_reports_hold(p, t, x);
        let r = pay_reports(p, t);
        let k = choose|k: int| 0 <= k < r.len() && r[k] == e;
        if p.raw_values.contains_key(ids.last()) {
            assert(pay_reports(p, ids)[k] == e);
        }
    }
}

proof fn lemma_pay_reports_empty(p: PayState, ids: Seq<u64>)
    requires
        forall|i: int| 0 <= i < ids.len() ==> !p.raw_values.contains_key(#[trigger] ids[i]),
    ensures
        pay_reports(p, ids) == Seq::<PayOracleData<u64, u64>>::empty(),
    decreases ids.len(),
{
    if ids.len() > 0 {
        let t = ids.drop_last();
        assert forall|i: int| 0 <= i < t.len() implies !p.raw_values.contains_key(#[trigger] t[i]) by {
            assert(t[i] == ids[i]);
        }
        lemma_pay_reports_empty(p, t);
        assert(!p.raw_values.contains_key(ids[ids.len() - 1]));
    }
}

proof fn lemma_goods_reports_hold(g: GoodsState, ops: OperatorState, owners: Seq<u64>, o: u64)
    requires
        owners.contains(o),
        goods_report(g, ops, o) is Some,
    ensures
        goods_reports(g, ops, owners).contains(goods_report(g, ops, o).unwrap()),
    decreases owners.len(),
{
    let t = owners.drop_last();
    let e = goods_report(g, ops, o).unwrap();
    if owners.last() == o {
        let r = goods_reports(g, ops, t).push(e);
        assert(r[r.len() - 1] == e);
    } else {
        let i = choose|i: int| 0 <= i < owners.len() && owners[i] == o;
        assert(t[i] == o);
        lemma_goods_reports_hold(g, ops, t, o);
        let r = goods_reports(g, ops, t);
        let k = choose|k: int| 0 <= k < r.len() && r[k] == e;
        if goods_report(g, ops, owners.last()) is Some {
            assert(goods_reports(g, ops, owners)[k] == e);
        }
    }
}

proof fn lemma_goods_reports_empty(g: GoodsState, ops: OperatorState, owners: Seq<u64>)
    requires
        forall|i: int| 0 <= i < owners.len() ==> goods_report(g, ops, #[trigger] owners[i]) is None,
    ensures
        goods_reports(g, ops, owners) == Seq::<GoodsOracleDataView<u64>>::empty(),
    decreases owners.len(),
{
    if owners.len() > 0 {
        let t = owners.drop_last();
        assert forall|i: int| 0 <= i < t.len() implies goods_report(g, ops, #[trigger] t[i]) is None by {
            assert(t[i] == owners[i]);
        }
        lemma_goods_reports_empty(g, ops, t);
        assert(goods_report(g, ops, owners[owners.len() - 1]) is None);
    }
}

/// A collection gathers the fed price of every payment waiting in the pays
/// pool, whether or not any account has goods readings to report.
pub proof fn law_collection_keeps_every_fed_price(g: GoodsState, p: PayState, ops: OperatorState, x: u64)
    requires
        p.pays_update_pool.contains(x),
        p.raw_values.contains_key(x),
    ensures
        collection(g, p, ops) is Some,
        collection(g, p, ops).unwrap().pay_oracle_data.contains(
            PayOracleData { pay_id: x, balance: p.raw_values[x].price },
        ),
{
    lemma_pay_reports_hold(p, p.pays_update_pool, x);
}

/// A collection gathers the report of every account waiting in the owners
/// pool that has something to report, whether or not any payment was fed.
pub proof fn law_collection_keeps_every_goods_report(g: GoodsState, p: PayState, ops: OperatorState, o: u64)
    requires
        g.goods_owners_update_pool.contains(o),
        goods_report(g, ops, o) is Some,
    ensures
        collection(g, p, ops) is Some,
        collection(g, p, ops).unwrap().goods_oracle_data.contains(goods_report(g, ops, o).unwrap()),
{
    lemma_goods_reports_hold(g, ops, g.goods_owners_update_pool, o);
}

/// A collection gathers nothing exactly when no waiting payment has a fed
/// price and no waiting account has anything to report.
pub proof fn law_collection_is_empty_only_without_fresh_data(g: GoodsState, p: PayState, ops: OperatorState)
    ensures
        (collection(g, p, ops) is None) == ((forall|x: u64| #[trigger] p.pays_update_pool.contains(x)
            ==> !p.raw_values.contains_key(x)) && (forall|o: u64| #[trigger] g.goods_owners_update_pool.contains(o)
            ==> goods_report(g, ops, o) is None)),
{
    if (forall|x: u64| #[trigger] p.pays_update_pool.contains(x) ==> !p.raw_values.contains_key(x)) && (forall|o: u64|
        #[trigger] g.goods_owners_update_pool.contains(o) ==> goods_report(g, ops, o) is None) {
        let ids = p.pays_update_pool;
        let owners = g.goods_owners_update_pool;
        assert forall|i: int| 0 <= i < ids.len() implies !p.raw_values.contains_key(#[trigger] ids[i]) by {
            assert(ids.contains(ids[i]));
        }
        assert forall|i: int| 0 <= i < owners.len() implies goods_report(g, ops, #[trigger] owners[i]) is None by {
            assert(owners.contains(owners[i]));
        }
        lemma_pay_reports_empty(p, ids);
        lemma_goods_reports_empty(g, ops, owners);
    } else {
        if exists|x: u64| #[trigger] p.pays_update_pool.contains(x) && p.raw_values.contains_key(x) {
            let x = choose|x: u64| #[trigger] p.pays_update_pool.contains(x) && p.raw_values.contains_key(x);
            law_collection_keeps_every_fed_price(g, p, ops, x);
        } else {
            let o = choose|o: u64| #[trigger] g.goods_owners_update_pool.contains(o) && goods_report(g, ops, o) is Some;
            law_collection_keeps_every_goods_report(g, p, ops, o);
        }
    }
}

} // verus!
