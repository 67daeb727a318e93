//! The goods oracle: operators feed meter readings per tariff period; a
//! collection reports, per account, how much each of its meters measured
//! since it was first fed.
use crate::operator::{owned_of, OperatorModule, OperatorState};
use crate::storage_map::{
    copy_list, differs_from, lemma_contains_concat, lemma_filter_distinct, lemma_filter_same,
    lemma_not_in_nothing, lemma_not_in_twice, lemma_push_absent_keeps_distinct, not_in, push_absent,
    push_if_absent, retain_other, without, StorageMap,
};
use crate::utilities::{
    ensure_signed, DispatchError, Did, Error, GoodsDataProvider, GoodsOperatorRawVolume,
    GoodsOperatorVolume, GoodsOracle, GoodsOracleData, GoodsOracleDataView, GoodsOracleView,
    OperatorManager, OperatorRole, OperatorVolume, Origin, RawVolume, TimestampedVolume, VolumeType,
};
use vstd::prelude::*;

verus! {

/// What the goods oracle stores.
#[verifier::ext_equal]
pub struct GoodsState {
    /// The latest readings fed for each operator.
    pub raw_values: Map<Did, Seq<GoodsOperatorRawVolume<u64>>>,
    /// The first and the latest collected reading of each period.
    pub goods_data: Map<Did, GoodsOracleView<Did, u64>>,
    /// Operators fed since their readings were last collected.
    pub goods_update_pool: Seq<Did>,
    /// Accounts whose operators were fed since they were last collected.
    pub goods_owners_update_pool: Seq<u64>,
}

/// The readings fed for `id`; none when it was never fed.
pub open spec fn raw_of(m: Map<Did, Seq<GoodsOperatorRawVolume<u64>>>, id: Did) -> Seq<
    GoodsOperatorRawVolume<u64>,
> {
    if m.contains_key(id) {
        m[id]
    } else {
        Seq::empty()
    }
}

/// No pool lists an entry twice.
pub open spec fn goods_inv(s: GoodsState) -> bool {
    &&& s.goods_update_pool.no_duplicates()
    &&& s.goods_owners_update_pool.no_duplicates()
}

/// The oracle before anything was fed.
pub open spec fn goods_genesis() -> GoodsState {
    GoodsState {
        raw_values: Map::empty(),
        goods_data: Map::empty(),
        goods_update_pool: Seq::empty(),
        goods_owners_update_pool: Seq::empty(),
    }
}

/// The readings, stamped with the time they were fed.
pub open spec fn stamped(raw: Seq<RawVolume>, now: u64) -> Seq<GoodsOperatorRawVolume<u64>> {
    raw.map_values(
        |j: RawVolume|
            GoodsOperatorRawVolume {
                volume_type: j.volume_type,
                timestamed_volume: TimestampedVolume { volume: j.volume, timestamp: now },
            },
    )
}

/// The record of a first feed: each reading is both the first and the
/// latest of its period.
pub open spec fn first_volumes(gorvs: Seq<GoodsOperatorRawVolume<u64>>) -> Seq<
    GoodsOperatorVolume<u64>,
> {
    gorvs.map_values(
        |k: GoodsOperatorRawVolume<u64>|
            GoodsOperatorVolume {
                volume_type: k.volume_type,
                init_volume: k.timestamed_volume,
                current_volume: k.timestamed_volume,
            },
    )
}

/// The oracle after the operator `id`, owned by `owner`, fed `raw` at `now`.
/// Its readings replace the previous ones; its record is created unless
/// readings were already stored for it.
pub open spec fn fed_one(s: GoodsState, id: Did, raw: Seq<RawVolume>, owner: u64, now: u64) -> GoodsState {
    let gorvs = stamped(raw, now);
    GoodsState {
        raw_values: s.raw_values.insert(id, gorvs),
        goods_data: if raw_of(s.raw_values, id).len() > 0 {
            s.goods_data
        } else {
            s.goods_data.insert(
                id,
                GoodsOracleView { oracle_operator_id: id, goods_operator_volume: first_volumes(gorvs) },
            )
        },
        goods_update_pool: push_if_absent(s.goods_update_pool, id),
        goods_owners_update_pool: push_if_absent(s.goods_owners_update_pool, owner),
    }
}

/// Every operator named in `values` is registered.
pub open spec fn all_known(ops: OperatorState, values: Seq<OperatorVolume<Did>>) -> bool {
    forall|i: int| 0 <= i < values.len() ==> ops.operators.contains_key(#[trigger] values[i].operator_id)
}

/// The oracle after each of `values` was fed in turn.
pub open spec fn fed_all(s: GoodsState, ops: OperatorState, values: Seq<OperatorVolume<Did>>, now: u64) -> GoodsState
    decreases values.len(),
{
    if values.len() == 0 {
        s
    } else {
        let v = values.last();
        fed_one(
            fed_all(s, ops, values.drop_last(), now),
            v.operator_id,
            v.operator_raw_volume@,
            ops.operators[v.operator_id].owner,
            now,
        )
    }
}

/// The readings of one fed entry against the periods of a record: one
/// reading per record entry of the same period, measuring how far the fed
/// volume is above the first volume of that entry.
pub open spec fn matched_readings(gov: Seq<GoodsOperatorVolume<u64>>, r: GoodsOperatorRawVolume<u64>) -> Seq<
    RawVolume,
>
    decreases gov.len(),
{
    if gov.len() == 0 {
        Seq::empty()
    } else {
        let g = gov.last();
        matched_readings(gov.drop_last(), r) + if g.volume_type == r.volume_type {
            seq![
                RawVolume {
                    volume_type: r.volume_type,
                    volume: (r.timestamed_volume.volume - g.init_volume.volume) as u64,
                },
            ]
        } else {
            Seq::empty()
        }
    }
}

/// The readings of all fed entries, in the order they were fed.
pub open spec fn collected_readings(
    gov: Seq<GoodsOperatorVolume<u64>>,
    raws: Seq<GoodsOperatorRawVolume<u64>>,
) -> Seq<RawVolume>
    decreases raws.len(),
{
    if raws.len() == 0 {
        Seq::empty()
    } else {
        collected_readings(gov, raws.drop_last()) + matched_readings(gov, raws.last())
    }
}

/// The last fed volume of period `vt`, if any was fed.
pub open spec fn latest_of_type(raws: Seq<GoodsOperatorRawVolume<u64>>, vt: VolumeType) -> Option<
    TimestampedVolume<u64>,
>
    decreases raws.len(),
{
    if raws.len() == 0 {
        None
    } else if raws.last().volume_type == vt {
        Some(raws.last().timestamed_volume)
    } else {
        latest_of_type(raws.drop_last(), vt)
    }
}

/// A record entry whose latest volume is the last one fed for its period.
pub open spec fn refreshed_volume(g: GoodsOperatorVolume<u64>, raws: Seq<GoodsOperatorRawVolume<u64>>) -> GoodsOperatorVolume<u64> {
    match latest_of_type(raws, g.volume_type) {
        Some(tv) => GoodsOperatorVolume { current_volume: tv, ..g },
        None => g,
    }
}

pub open spec fn refreshed_volumes(
    gov: Seq<GoodsOperatorVolume<u64>>,
    raws: Seq<GoodsOperatorRawVolume<u64>>,
) -> Seq<GoodsOperatorVolume<u64>> {
    gov.map_values(|g: GoodsOperatorVolume<u64>| refreshed_volume(g, raws))
}

/// No fed volume is below the first volume of its period, so that every
/// reading is a difference of natural numbers.
pub open spec fn readings_ordered(
    gov: Seq<GoodsOperatorVolume<u64>>,
    raws: Seq<GoodsOperatorRawVolume<u64>>,
) -> bool {
    forall|i: int, j: int|
        0 <= i < raws.len() && 0 <= j < gov.len() && #[trigger] raws[i].volume_type
            == #[trigger] gov[j].volume_type ==> raws[i].timestamed_volume.volume
            >= gov[j].init_volume.volume
}

/// What collecting operator `id` reports: the readings fed for it, measured
/// from the first volumes of its record; none without readings or record.
pub open spec fn update_readings(s: GoodsState, id: Did) -> Seq<RawVolume> {
    if raw_of(s.raw_values, id).len() > 0 && s.goods_data.contains_key(id) {
        collected_readings(s.goods_data[id].goods_operator_volume, raw_of(s.raw_values, id))
    } else {
        Seq::empty()
    }
}

/// The record of `id` once its readings are collected.
pub open spec fn refreshed_entry(s: GoodsState, id: Did) -> GoodsOracleView<Did, u64> {
    GoodsOracleView {
        oracle_operator_id: s.goods_data[id].oracle_operator_id,
        goods_operator_volume: refreshed_volumes(
            s.goods_data[id].goods_operator_volume,
            raw_of(s.raw_values, id),
        ),
    }
}

/// The records once the readings of every operator in `ids` are collected.
pub open spec fn refreshed_for(s: GoodsState, ids: Seq<Did>) -> Map<Did, GoodsOracleView<Did, u64>> {
    Map::new(
        |k: Did| s.goods_data.contains_key(k),
        |k: Did|
            if ids.contains(k) {
                refreshed_entry(s, k)
            } else {
                s.goods_data[k]
            },
    )
}

/// The oracle once the readings of every operator in `ids` are collected:
/// their records are refreshed and they leave the update pool.
pub open spec fn collected_operators(s: GoodsState, ids: Seq<Did>) -> GoodsState {
    GoodsState {
        goods_data: refreshed_for(s, ids),
        goods_update_pool: s.goods_update_pool.filter(not_in(ids)),
        ..s
    }
}

/// Collecting one operator changes its record alone, and only when readings
/// were fed for it.
proof fn lemma_refreshed_for_one(s: GoodsState, key: Did)
    ensures
        refreshed_for(s, seq![key]) == (if raw_of(s.raw_values, key).len() > 0 && s.goods_data.contains_key(key) {
            s.goods_data.insert(key, refreshed_entry(s, key))
        } else {
            s.goods_data
        }),
{
    assert(seq![key].contains(key)) by {
        assert(seq![key][0] == key);
    }
    assert forall|k: Did| #[trigger] seq![key].contains(k) implies k == key by {}
    if s.goods_data.contains_key(key) && raw_of(s.raw_values, key).len() == 0 {
        let gov = s.goods_data[key].goods_operator_volume;
        assert(refreshed_volumes(gov, raw_of(s.raw_values, key)) =~= gov);
    }
    assert(refreshed_for(s, seq![key]) =~= (if raw_of(s.raw_values, key).len() > 0 && s.goods_data.contains_key(key) {
        s.goods_data.insert(key, refreshed_entry(s, key))
    } else {
        s.goods_data
    }));
}

/// Both records have the same periods and first volumes, entry by entry.
pub open spec fn same_basis(g1: Seq<GoodsOperatorVolume<u64>>, g2: Seq<GoodsOperatorVolume<u64>>) -> bool {
    &&& g1.len() == g2.len()
    &&& forall|j: int|
        0 <= j < g1.len() ==> (#[trigger] g1[j]).volume_type == g2[j].volume_type && g1[j].init_volume
            == g2[j].init_volume
}

/// Both oracles hold the same readings and records that agree on what
/// readings measure against.
pub open spec fn same_readings_basis(s1: GoodsState, s2: GoodsState) -> bool {
    &&& s1.raw_values == s2.raw_values
    &&& s1.goods_data.dom() == s2.goods_data.dom()
    &&& forall|k: Did| #[trigger]
        s1.goods_data.contains_key(k) ==> same_basis(
            s1.goods_data[k].goods_operator_volume,
            s2.goods_data[k].goods_operator_volume,
        )
}

/// The readings of the last operator in `ids` of role `role` that has
/// readings to report; none if there is no such operator.
pub open spec fn role_readings(s: GoodsState, ops: OperatorState, ids: Seq<Did>, role: OperatorRole) -> Seq<RawVolume>
    decreases ids.len(),
{
    if ids.len() == 0 {
        Seq::empty()
    } else {
        let id = ids.last();
        let rv = update_readings(s, id);
        if rv.len() > 0 && ops.operators.contains_key(id) && ops.operators[id].role == role {
            rv
        } else {
            role_readings(s, ops, ids.drop_last(), role)
        }
    }
}

/// Some registered operator in `ids` has readings to report.
pub open spec fn reports_any(s: GoodsState, ops: OperatorState, ids: Seq<Did>) -> bool {
    exists|k: int|
        0 <= k < ids.len() && (#[trigger] update_readings(s, ids[k])).len() > 0 && ops.operators.contains_key(ids[k])
}

/// What collecting account `key` reports: for each goods role, the readings
/// of the last of its operators of that role with readings; nothing if none
/// of its registered operators has readings.
pub open spec fn goods_report(s: GoodsState, ops: OperatorState, key: u64) -> Option<GoodsOracleDataView<u64>> {
    let ids = owned_of(ops.owned_operators, key);
    if reports_any(s, ops, ids) {
        Some(
            GoodsOracleDataView {
                owner: key,
                public_consumer_volume: role_readings(s, ops, ids, OperatorRole::PublicConsumer),
                public_producer_volume: role_readings(s, ops, ids, OperatorRole::PublicProducer),
                private_consumer_volume: role_readings(s, ops, ids, OperatorRole::PrivateConsumer),
                private_producer_volume: role_readings(s, ops, ids, OperatorRole::PrivateProducer),
            },
        )
    } else {
        None
    }
}

/// The operators in `ids` have readings that can be measured.
pub open spec fn readings_in_order_for(s: GoodsState, ids: Seq<Did>) -> bool {
    forall|id: Did|
        #![trigger ids.contains(id)]
        ids.contains(id) && s.goods_data.contains_key(id) ==> readings_ordered(
            s.goods_data[id].goods_operator_volume,
            raw_of(s.raw_values, id),
        )
}

/// The oracle once account `key` is collected: it leaves the owners pool,
/// and each of its operators is collected.
pub open spec fn collected_owner(s: GoodsState, ops: OperatorState, key: u64) -> GoodsState {
    collected_operators(
        GoodsState { goods_owners_update_pool: without(s.goods_owners_update_pool, key), ..s },
        owned_of(ops.owned_operators, key),
    )
}

pub proof fn lemma_refresh_basis(gov: Seq<GoodsOperatorVolume<u64>>, raws: Seq<GoodsOperatorRawVolume<u64>>)
    ensures
        same_basis(refreshed_volumes(gov, raws), gov),
{
}

pub proof fn lemma_refresh_twice(gov: Seq<GoodsOperatorVolume<u64>>, raws: Seq<GoodsOperatorRawVolume<u64>>)
    ensures
        refreshed_volumes(refreshed_volumes(gov, raws), raws) == refreshed_volumes(gov, raws),
{
    assert(refreshed_volumes(refreshed_volumes(gov, raws), raws) =~= refreshed_volumes(gov, raws));
}

pub proof fn lemma_matched_basis(g1: Seq<GoodsOperatorVolume<u64>>, g2: Seq<GoodsOperatorVolume<u64>>, r: GoodsOperatorRawVolume<u64>)
    requires
        same_basis(g1, g2),
    ensures
        matched_readings(g1, r) == matched_readings(g2, r),
    decreases g1.len(),
{
    if g1.len() > 0 {
        assert(g1[g1.len() - 1].volume_type == g2[g1.len() - 1].volume_type);
        lemma_matched_basis(g1.drop_last(), g2.drop_last(), r);
    }
}

pub proof fn lemma_collected_basis(
    g1: Seq<GoodsOperatorVolume<u64>>,
    g2: Seq<GoodsOperatorVolume<u64>>,
    raws: Seq<GoodsOperatorRawVolume<u64>>,
)
    requires
        same_basis(g1, g2),
    ensures
        collected_readings(g1, raws) == collected_readings(g2, raws),
        readings_ordered(g1, raws) == readings_ordered(g2, raws),
    decreases raws.len(),
{
    if raws.len() > 0 {
        lemma_collected_basis(g1, g2, raws.drop_last());
        lemma_matched_basis(g1, g2, raws.last());
    }
    assert(readings_ordered(g1, raws) ==> readings_ordered(g2, raws)) by {
        if readings_ordered(g1, raws) {
            assert forall|i: int, j: int|
                0 <= i < raws.len() && 0 <= j < g2.len() && #[trigger] raws[i].volume_type
                    == #[trigger] g2[j].volume_type implies raws[i].timestamed_volume.volume
                    >= g2[j].init_volume.volume by {
                assert(g1[j].volume_type == g2[j].volume_type);
            }
        }
    }
    assert(readings_ordered(g2, raws) ==> readings_ordered(g1, raws)) by {
        if readings_ordered(g2, raws) {
            assert forall|i: int, j: int|
                0 <= i < raws.len() && 0 <= j < g1.len() && #[trigger] raws[i].volume_type
                    == #[trigger] g1[j].volume_type implies raws[i].timestamed_volume.volume
                    >= g1[j].init_volume.volume by {
                assert(g1[j].volume_type == g2[j].volume_type);
            }
        }
    }
}

/// Oracles that agree on their readings basis report the same readings.
pub proof fn lemma_readings_by_basis(s1: GoodsState, s2: GoodsState, id: Did)
    requires
        same_readings_basis(s1, s2),
    ensures
        update_readings(s1, id) == update_readings(s2, id),
        s1.goods_data.contains_key(id) == s2.goods_data.contains_key(id),
        s1.goods_data.contains_key(id) ==> readings_ordered(
            s1.goods_data[id].goods_operator_volume,
            raw_of(s1.raw_values, id),
        ) == readings_ordered(s2.goods_data[id].goods_operator_volume, raw_of(s2.raw_values, id)),
{
    if s1.goods_data.contains_key(id) {
        lemma_collected_basis(
            s1.goods_data[id].goods_operator_volume,
            s2.goods_data[id].goods_operator_volume,
            raw_of(s1.raw_values, id),
        );
    } else {
        assert(!s1.goods_data.dom().contains(id));
    }
}

/// Collecting operators keeps the readings basis.
pub proof fn lemma_collected_basis_state(s: GoodsState, ids: Seq<Did>)
    ensures
        same_readings_basis(collected_operators(s, ids), s),
{
    let c = collected_operators(s, ids);
    assert(c.goods_data.dom() =~= s.goods_data.dom());
    assert forall|k: Did| #[trigger] c.goods_data.contains_key(k) implies same_basis(
        c.goods_data[k].goods_operator_volume,
        s.goods_data[k].goods_operator_volume,
    ) by {
        lemma_refresh_basis(s.goods_data[k].goods_operator_volume, raw_of(s.raw_values, k));
    }
}

/// Oracles that agree on their readings basis report the same for any
/// account.
pub proof fn lemma_report_by_basis(s1: GoodsState, s2: GoodsState, ops: OperatorState, ids: Seq<Did>)
    requires
        same_readings_basis(s1, s2),
    ensures
        reports_any(s1, ops, ids) == reports_any(s2, ops, ids),
        forall|role: OperatorRole| #[trigger] role_readings(s1, ops, ids, role) == role_readings(s2, ops, ids, role),
        readings_in_order_for(s1, ids) == readings_in_order_for(s2, ids),
    decreases ids.len(),
{
    if ids.len() > 0 {
        lemma_report_by_basis(s1, s2, ops, ids.drop_last());
        lemma_readings_by_basis(s1, s2, ids.last());
    }
    assert forall|k: int| 0 <= k < ids.len() implies #[trigger] update_readings(s1, ids[k]) == update_readings(s2, ids[k]) by {
        lemma_readings_by_basis(s1, s2, ids[k]);
    }
    if reports_any(s1, ops, ids) {
        let k = choose|k: int|
            0 <= k < ids.len() && (#[trigger] update_readings(s1, ids[k])).len() > 0 && ops.operators.contains_key(ids[k]);
        assert(update_readings(s2, ids[k]) == update_readings(s1, ids[k]));
    }
    if reports_any(s2, ops, ids) {
        let k = choose|k: int|
            0 <= k < ids.len() && (#[trigger] update_readings(s2, ids[k])).len() > 0 && ops.operators.contains_key(ids[k]);
        assert(update_readings(s1, ids[k]) == update_readings(s2, ids[k]));
    }
    assert forall|role: OperatorRole| #[trigger] role_readings(s1, ops, ids, role) == role_readings(s2, ops, ids, role) by {
        if ids.len() > 0 {
            assert(role_readings(s1, ops, ids.drop_last(), role) == role_readings(s2, ops, ids.drop_last(), role));
        }
    }
    assert forall|id: Did| #[trigger] ids.contains(id) implies (s1.goods_data.contains_key(id) ==> readings_ordered(
        s1.goods_data[id].goods_operator_volume,
        raw_of(s1.raw_values, id),
    )) == (s2.goods_data.contains_key(id) ==> readings_ordered(
        s2.goods_data[id].goods_operator_volume,
        raw_of(s2.raw_values, id),
    )) by {
        lemma_readings_by_basis(s1, s2, id);
    }
}

/// Collecting `a` and then `b` is collecting `a + b`.
pub proof fn lemma_collect_compose(s: GoodsState, a: Seq<Did>, b: Seq<Did>)
    ensures
        collected_operators(collected_operators(s, a), b) == collected_operators(s, a + b),
{
    let s1 = collected_operators(s, a);
    lemma_not_in_twice(s.goods_update_pool, a, b);
    assert forall|k: Did| #[trigger] s.goods_data.contains_key(k) implies refreshed_for(s1, b)[k] == refreshed_for(s, a + b)[k] by {
        lemma_contains_concat(a, b, k);
        if b.contains(k) && a.contains(k) {
            lemma_refresh_twice(s.goods_data[k].goods_operator_volume, raw_of(s.raw_values, k));
        }
    }
    assert(refreshed_for(s1, b) =~= refreshed_for(s, a + b));
    assert(collected_operators(s1, b) =~= collected_operators(s, a + b));
}

/// Reports over one more operator.
pub proof fn lemma_report_step(s: GoodsState, ops: OperatorState, ids: Seq<Did>, k: int)
    requires
        0 <= k < ids.len(),
    ensures
        reports_any(s, ops, ids.take(k + 1)) == (reports_any(s, ops, ids.take(k)) || (update_readings(
            s,
            ids[k],
        ).len() > 0 && ops.operators.contains_key(ids[k]))),
        forall|role: OperatorRole| #[trigger]
            role_readings(s, ops, ids.take(k + 1), role) == if update_readings(s, ids[k]).len() > 0
                && ops.operators.contains_key(ids[k]) && ops.operators[ids[k]].role == role {
                update_readings(s, ids[k])
            } else {
                role_readings(s, ops, ids.take(k), role)
            },
{
    let a = ids.take(k);
    let b = ids.take(k + 1);
    assert(b.drop_last() =~= a);
    assert(b.last() == ids[k]);
    if reports_any(s, ops, b) {
        let j = choose|j: int|
            0 <= j < b.len() && (#[trigger] update_readings(s, b[j])).len() > 0 && ops.operators.contains_key(b[j]);
        if j < k {
            assert(a[j] == b[j]);
            assert(update_readings(s, a[j]).len() > 0);
        }
    }
    if reports_any(s, ops, a) {
        let j = choose|j: int|
            0 <= j < a.len() && (#[trigger] update_readings(s, a[j])).len() > 0 && ops.operators.contains_key(a[j]);
        assert(a[j] == b[j]);
        assert(update_readings(s, b[j]).len() > 0);
    }
    if update_readings(s, ids[k]).len() > 0 && ops.operators.contains_key(ids[k]) {
        assert(b[k] == ids[k]);
        assert(update_readings(s, b[k]).len() > 0);
    }
}

/// Collecting no operator changes nothing.
pub proof fn lemma_collect_none(s: GoodsState)
    ensures
        collected_operators(s, Seq::empty()) == s,
{
    lemma_not_in_nothing(s.goods_update_pool);
    assert(refreshed_for(s, Seq::empty()) =~= s.goods_data);
    assert(collected_operators(s, Seq::empty()) =~= s);
}

/// The events of the goods oracle.
#[derive(Clone, Copy, Debug, PartialEq, Eq)]
pub enum Event {
    /// An account fed readings through an operator.
    NewFeedGoodsItemData(u64, Did),
}

/// The storage of the goods oracle.
pub struct GoodsOracleModule {
    goods_data_raw_values: StorageMap<Did, Vec<GoodsOperatorRawVolume<u64>>>,
    goods_data: StorageMap<Did, GoodsOracle<Did, u64>>,
    goods_update_pool: Vec<Did>,
    goods_owners_update_pool: Vec<u64>,
}

impl View for GoodsOracleModule {
    type V = GoodsState;

    closed spec fn view(&self) -> GoodsState {
        GoodsState {
            raw_values: self.goods_data_raw_values@.map_values(
                |v: Vec<GoodsOperatorRawVolume<u64>>| v@,
            ),
            goods_data: self.goods_data@.map_values(|g: GoodsOracle<Did, u64>| g@),
            goods_update_pool: self.goods_update_pool@,
            goods_owners_update_pool: self.goods_owners_update_pool@,
        }
    }
}

/// Stamps each reading with `now`.
fn stamp_readings(raw: &Vec<RawVolume>, now: u64) -> (r: Vec<GoodsOperatorRawVolume<u64>>)
    ensures
        r@ == stamped(raw@, now),
{
    let mut gorvs: Vec<GoodsOperatorRawVolume<u64>> = Vec::new();
    let mut j: usize = 0;
    while j < raw.len()
        invariant
            0 <= j <= raw.len(),
            gorvs@ =~= stamped(raw@.take(j as int), now),
        decreases raw.len() - j,
    {
        let timestamped = TimestampedVolume { volume: raw[j].volume, timestamp: now };
        let gorv = GoodsOperatorRawVolume { volume_type: raw[j].volume_type, timestamed_volume: timestamped };
        gorvs.push(gorv);
        j = j + 1;
        assert(gorvs@ =~= stamped(raw@.take(j as int), now));
    }
    assert(raw@.take(raw.len() as int) =~= raw@);
    gorvs
}

/// The record of a first feed.
fn first_record(gorvs: &Vec<GoodsOperatorRawVolume<u64>>) -> (r: Vec<GoodsOperatorVolume<u64>>)
    ensures
        r@ == first_volumes(gorvs@),
{
    let mut govs: Vec<GoodsOperatorVolume<u64>> = Vec::new();
    let mut k: usize = 0;
    while k < gorvs.len()
        invariant
            0 <= k <= gorvs.len(),
            govs@ =~= first_volumes(gorvs@.take(k as int)),
        decreases gorvs.len() - k,
    {
        let gov = GoodsOperatorVolume {
            volume_type: gorvs[k].volume_type,
            init_volume: gorvs[k].timestamed_volume,
            current_volume: gorvs[k].timestamed_volume,
        };
        govs.push(gov);
        k = k + 1;
        assert(govs@ =~= first_volumes(gorvs@.take(k as int)));
    }
    assert(gorvs@.take(gorvs.len() as int) =~= gorvs@);
    govs
}

/// Collects the fed readings against a record: the refreshed record and the
/// readings it reports.
fn collect_readings(gov0: &Vec<GoodsOperatorVolume<u64>>, gorvs: &Vec<GoodsOperatorRawVolume<u64>>) -> (r: (
    Vec<GoodsOperatorVolume<u64>>,
    Vec<RawVolume>,
))
    requires
        readings_ordered(gov0@, gorvs@),
    ensures
        r.0@ == refreshed_volumes(gov0@, gorvs@),
        r.1@ == collected_readings(gov0@, gorvs@),
{
    let mut gov = copy_list(gov0);
    let mut rvs: Vec<RawVolume> = Vec::new();
    let mut i: usize = 0;
    assert(gov@ =~= refreshed_volumes(gov0@, gorvs@.take(0)));
    assert(rvs@ =~= collected_readings(gov0@, gorvs@.take(0)));
    while i < gorvs.len()
        invariant
            0 <= i <= gorvs@.len(),
            readings_ordered(gov0@, gorvs@),
            gov@ == refreshed_volumes(gov0@, gorvs@.take(i as int)),
            rvs@ == collected_readings(gov0@, gorvs@.take(i as int)),
        decreases gorvs@.len() - i,
    {
        let r = gorvs[i];
        assert(gorvs@.take(i + 1).drop_last() =~= gorvs@.take(i as int));
        assert(matched_readings(gov0@.take(0), r) =~= Seq::<RawVolume>::empty());
        assert(rvs@ =~= collected_readings(gov0@, gorvs@.take(i as int)) + matched_readings(gov0@.take(0), r));
        let mut j: usize = 0;
        while j < gov.len()
            invariant
                0 <= i < gorvs@.len(),
                r == gorvs@[i as int],
                0 <= j <= gov@.len(),
                gov@.len() == gov0@.len(),
                readings_ordered(gov0@, gorvs@),
                gorvs@.take(i + 1).drop_last() == gorvs@.take(i as int),
                forall|k: int| 0 <= k < j ==> #[trigger] gov@[k] == refreshed_volume(gov0@[k], gorvs@.take(i + 1)),
                forall|k: int|
                    j <= k < gov@.len() ==> #[trigger] gov@[k] == refreshed_volume(gov0@[k], gorvs@.take(i as int)),
                rvs@ == collected_readings(gov0@, gorvs@.take(i as int)) + matched_readings(gov0@.take(j as int), r),
            decreases gov@.len() - j,
        {
            let g = gov[j];
            assert(gov0@.take(j + 1).drop_last() =~= gov0@.take(j as int));
            assert(gov0@.take(j + 1).last() == gov0@[j as int]);
            assert(g.volume_type == gov0@[j as int].volume_type && g.init_volume == gov0@[j as int].init_volume);
            assert(gorvs@.take(i + 1).last() == r);
            if r.volume_type == g.volume_type {
                assert(gorvs@[i as int].volume_type == gov0@[j as int].volume_type);
                let updated = GoodsOperatorVolume { current_volume: r.timestamed_volume, ..g };
                gov.set(j, updated);
                let rv = RawVolume {
                    volume_type: r.volume_type,
                    volume: r.timestamed_volume.volume - g.init_volume.volume,
                };
                rvs.push(rv);
                assert(rvs@ =~= collected_readings(gov0@, gorvs@.take(i as int)) + matched_readings(
                    gov0@.take(j + 1),
                    r,
                ));
            } else {
                assert(rvs@ =~= collected_readings(gov0@, gorvs@.take(i as int)) + matched_readings(
                    gov0@.take(j + 1),
                    r,
                ));
            }
            j = j + 1;
        }
        assert(gov0@.take(gov0@.len() as int) =~= gov0@);
        assert(gov@ =~= refreshed_volumes(gov0@, gorvs@.take(i + 1)));
        assert(rvs@ =~= collected_readings(gov0@, gorvs@.take(i + 1)));
        i = i + 1;
    }
    assert(gorvs@.take(gorvs@.len() as int) =~= gorvs@);
    (gov, rvs)
}

/// Whether no fed volume is below the first volume of its period.
fn readings_ordered_check(gov: &Vec<GoodsOperatorVolume<u64>>, raws: &Vec<GoodsOperatorRawVolume<u64>>) -> (r: bool)
    ensures
        r == readings_ordered(gov@, raws@),
{
    let mut i: usize = 0;
    while i < raws.len()
        invariant
            0 <= i <= raws@.len(),
            forall|a: int, b: int|
                0 <= a < i && 0 <= b < gov@.len() && #[trigger] raws@[a].volume_type == #[trigger] gov@[b].volume_type
                    ==> raws@[a].timestamed_volume.volume >= gov@[b].init_volume.volume,
        decreases raws@.len() - i,
    {
        let mut j: usize = 0;
        while j < gov.len()
            invariant
                0 <= i < raws@.len(),
                0 <= j <= gov@.len(),
                forall|a: int, b: int|
                    0 <= a < i && 0 <= b < gov@.len() && #[trigger] raws@[a].volume_type == #[trigger] gov@[b].volume_type
                        ==> raws@[a].timestamed_volume.volume >= gov@[b].init_volume.volume,
                forall|b: int|
                    0 <= b < j && raws@[i as int].volume_type == #[trigger] gov@[b].volume_type
                        ==> raws@[i as int].timestamed_volume.volume >= gov@[b].init_volume.volume,
            decreases gov@.len() - j,
        {
            if raws[i].volume_type == gov[j].volume_type
                && raws[i].timestamed_volume.volume < gov[j].init_volume.volume {
                return false;
            }
            j = j + 1;
        }
        i = i + 1;
    }
    true
}

impl GoodsOracleModule {
    pub open spec fn wf(&self) -> bool {
        goods_inv(self@)
    }

    /// An empty goods oracle.
    pub fn new() -> (m: Self)
        ensures
            m.wf(),
            m@ == goods_genesis(),
    {
        let m = GoodsOracleModule {
            goods_data_raw_values: StorageMap::new(),
            goods_data: StorageMap::new(),
            goods_update_pool: Vec::new(),
            goods_owners_update_pool: Vec::new(),
        };
        assert(m@ =~= goods_genesis());
        m
    }

    /// Whether the readings of the operators in `ids` can be measured, so
    /// that collecting them is defined.
    pub fn readings_in_order_for_ids(&self, ids: &Vec<Did>) -> (r: bool)
        ensures
            r == readings_in_order_for(self@, ids@),
    {
        let mut k: usize = 0;
        while k < ids.len()
            invariant
                0 <= k <= ids@.len(),
                forall|x: int|
                    0 <= x < k && #[trigger] self@.goods_data.contains_key(ids@[x]) ==> readings_ordered(
                        self@.goods_data[ids@[x]].goods_operator_volume,
                        raw_of(self@.raw_values, ids@[x]),
                    ),
            decreases ids@.len() - k,
        {
            let id = ids[k];
            match self.goods_data.get(&id) {
                Some(record) => {
                    let raws = self.goods_data_raw_values(id);
                    if !readings_ordered_check(&record.goods_operator_volume, &raws) {
                        assert(ids@.contains(id)) by {
                            assert(ids@[k as int] == id);
                        }
                        return false;
                    }
                },
                None => {},
            }
            k = k + 1;
        }
        assert forall|id: Did|
            #![trigger ids@.contains(id)]
            ids@.contains(id) && self@.goods_data.contains_key(id) implies readings_ordered(
                self@.goods_data[id].goods_operator_volume,
                raw_of(self@.raw_values, id),
            ) by {
            let x = choose|x: int| 0 <= x < ids@.len() && ids@[x] == id;
            assert(self@.goods_data.contains_key(ids@[x]));
        }
        true
    }

    /// The readings fed for operator `id`; none when it was never fed.
    pub fn goods_data_raw_values(&self, id: Did) -> (r: Vec<GoodsOperatorRawVolume<u64>>)
        ensures
            r@ == raw_of(self@.raw_values, id),
    {
        match self.goods_data_raw_values.get(&id) {
            Some(v) => copy_list(v),
            None => Vec::new(),
        }
    }

    /// The record of operator `id`, if it was ever fed.
    pub fn goods_data(&self, id: Did) -> (r: Option<GoodsOracle<Did, u64>>)
        ensures
            match r {
                Some(g) => self@.goods_data.contains_key(id) && self@.goods_data[id] == g@,
                None => !self@.goods_data.contains_key(id),
            },
    {
        match self.goods_data.get(&id) {
            Some(g) => Some(GoodsOracle {
                oracle_operator_id: g.oracle_operator_id,
                goods_operator_volume: copy_list(&g.goods_operator_volume),
            }),
            None => None,
        }
    }

    /// The operators fed since they were last collected.
    pub fn goods_in_update_pool(&self) -> (r: Vec<Did>)
        ensures
            r@ == self@.goods_update_pool,
    {
        copy_list(&self.goods_update_pool)
    }

    /// The accounts fed since they were last collected.
    pub fn goods_owners_in_update_pool(&self) -> (r: Vec<u64>)
        ensures
            r@ == self@.goods_owners_update_pool,
    {
        copy_list(&self.goods_owners_update_pool)
    }

    /// Adds operator `id` to the update pool, unless it is there.
    pub fn _add_goods_to_goods_update_pool(&mut self, id: Did)
        requires
            old(self).wf(),
        ensures
            final(self).wf(),
            final(self)@ == (GoodsState { goods_update_pool: push_if_absent(old(self)@.goods_update_pool, id), ..old(self)@ }),
    {
        proof {
            lemma_push_absent_keeps_distinct(self@.goods_update_pool, id);
        }
        push_absent(&mut self.goods_update_pool, id);
    }

    /// Takes operator `id` out of the update pool.
    pub fn _remove_goods_from_goods_update_pool(&mut self, id: Did)
        requires
            old(self).wf(),
        ensures
            final(self).wf(),
            final(self)@ == (GoodsState { goods_update_pool: without(old(self)@.goods_update_pool, id), ..old(self)@ }),
    {
        proof {
            lemma_filter_distinct(self@.goods_update_pool, differs_from(id));
        }
        retain_other(&mut self.goods_update_pool, &id);
    }

    /// Adds account `id` to the owners pool, unless it is there.
    pub fn _add_goods_owner_to_goods_owners_update_pool(&mut self, id: u64)
        requires
            old(self).wf(),
        ensures
            final(self).wf(),
            final(self)@ == (GoodsState {
                goods_owners_update_pool: push_if_absent(old(self)@.goods_owners_update_pool, id),
                ..old(self)@
            }),
    {
        proof {
            lemma_push_absent_keeps_distinct(self@.goods_owners_update_pool, id);
        }
        push_absent(&mut self.goods_owners_update_pool, id);
    }

    /// Takes account `owner` out of the owners pool.
    pub fn _remove_goods_owner_from_goods_owners_update_pool(&mut self, owner: u64)
        requires
            old(self).wf(),
        ensures
            final(self).wf(),
            final(self)@ == (GoodsState {
                goods_owners_update_pool: without(old(self)@.goods_owners_update_pool, owner),
                ..old(self)@
            }),
    {
        proof {
            lemma_filter_distinct(self@.goods_owners_update_pool, differs_from(owner));
        }
        retain_other(&mut self.goods_owners_update_pool, &owner);
    }

    /// Feeds the readings of one operator.
    fn feed_one(&mut self, id: Did, raw: &Vec<RawVolume>, owner: u64, now: u64)
        requires
            old(self).wf(),
        ensures
            final(self).wf(),
            final(self)@ == fed_one(old(self)@, id, raw@, owner, now),
    {
        let ghost pre = self@;
        let goods_data_exist = match self.goods_data_raw_values.get(&id) {
            Some(v) => v.len() > 0,
            None => false,
        };
        let gorvs = stamp_readings(raw, now);
        if !goods_data_exist {
            let govs = first_record(&gorvs);
            let new_goods_data = GoodsOracle { oracle_operator_id: id, goods_operator_volume: govs };
            self.goods_data.insert(id, new_goods_data);
        }
        self.goods_data_raw_values.insert(id, gorvs);
        self._add_goods_to_goods_update_pool(id);
        self._add_goods_owner_to_goods_owners_update_pool(owner);
        assert(self@ =~= fed_one(pre, id, raw@, owner, now));
    }

    /// Feeds readings for several operators on behalf of the legal operator
    /// `feed_operator_id`. The readings of each operator replace its previous
    /// ones. The first operator in `values` that is not registered stops
    /// the feed with `UnknownOperator`; what was fed before it stays.
    pub fn feed_data(
        &mut self,
        operators: &OperatorModule,
        feed_operator_id: Did,
        values: Vec<OperatorVolume<Did>>,
        now: u64,
    ) -> (r: Result<(), Error>)
        requires
            old(self).wf(),
        ensures
            final(self).wf(),
            match operators@.operators.get(feed_operator_id) {
                None => r == Err::<(), Error>(Error::UnknownOperator) && final(self)@ == old(self)@,
                Some(op) => if !op.is_legal {
                    r == Err::<(), Error>(Error::NoPermission) && final(self)@ == old(self)@
                } else if all_known(operators@, values@) {
                    r is Ok && final(self)@ == fed_all(old(self)@, operators@, values@, now)
                } else {
                    &&& r == Err::<(), Error>(Error::UnknownOperator)
                    &&& exists|k: int|
                        0 <= k < values@.len() && !operators@.operators.contains_key(#[trigger] values@[k].operator_id)
                            && all_known(operators@, values@.take(k)) && final(self)@ == fed_all(
                            old(self)@,
                            operators@,
                            values@.take(k),
                            now,
                        )
                },
            },
    {
        let operator = match operators.get_operator(feed_operator_id) {
            Some(op) => op,
            None => {
                return Err(Error::UnknownOperator);
            },
        };
        if !operator.is_legal {
            return Err(Error::NoPermission);
        }
        let ghost pre = self@;
        let mut i: usize = 0;
        while i < values.len()
            invariant
                0 <= i <= values@.len(),
                self.wf(),
                pre == old(self)@,
                operators@.operators.get(feed_operator_id) == Some(operator),
                operator.is_legal,
                all_known(operators@, values@.take(i as int)),
                self@ == fed_all(pre, operators@, values@.take(i as int), now),
            decreases values@.len() - i,
        {
            let v = &values[i];
            let operator_temp = match operators.get_operator(v.operator_id) {
                Some(op) => op,
                None => {
                    assert(!operators@.operators.contains_key(values@[i as int].operator_id));
                    assert(!all_known(operators@, values@));
                    assert(pre == old(self)@);
                    assert(self@ == fed_all(old(self)@, operators@, values@.take(i as int), now));
                    return Err(Error::UnknownOperator);
                },
            };
            self.feed_one(v.operator_id, &v.operator_raw_volume, operator_temp.owner, now);
            assert(values@.take(i + 1).drop_last() =~= values@.take(i as int));
            i = i + 1;
        }
        assert(values@.take(values@.len() as int) =~= values@);
        Ok(())
    }

    /// Collects the readings of operator `key`: they are measured against its
    /// record, the record keeps the latest volume of each period, and `key`
    /// leaves the update pool.
    pub fn _get_goods_data_update_value(&mut self, key: Did) -> (r: Vec<RawVolume>)
        requires
            old(self).wf(),
            old(self)@.goods_data.contains_key(key) ==> readings_ordered(
                old(self)@.goods_data[key].goods_operator_volume,
                raw_of(old(self)@.raw_values, key),
            ),
        ensures
            final(self).wf(),
            r@ == update_readings(old(self)@, key),
            final(self)@ == collected_operators(old(self)@, seq![key]),
    {
        let ghost pre = self@;
        self._remove_goods_from_goods_update_pool(key);
        let mut rvs: Vec<RawVolume> = Vec::new();
        let gorvs = match self.goods_data_raw_values.get(&key) {
            Some(v) => copy_list(v),
            None => Vec::new(),
        };
        assert(gorvs@ == raw_of(pre.raw_values, key));
        if gorvs.len() > 0 {
            let found = match self.goods_data.get(&key) {
                Some(goods_data) => {
                    let (gov, readings) = collect_readings(&goods_data.goods_operator_volume, &gorvs);
                    Some((goods_data.oracle_operator_id, gov, readings))
                },
                None => None,
            };
            match found {
                Some((oracle_operator_id, gov, readings)) => {
                    rvs = readings;
                    let refreshed = GoodsOracle { oracle_operator_id, goods_operator_volume: gov };
                    self.goods_data.insert(key, refreshed);
                },
                None => {},
            }
        }
        proof {
            lemma_refreshed_for_one(pre, key);
            assert(self@.goods_update_pool =~= collected_operators(pre, seq![key]).goods_update_pool) by {
                assert forall|x: Did| differs_from(key)(x) == !#[trigger] seq![key].contains(x) by {
                    if x == key {
                        assert(seq![key][0] == x);
                    }
                }
                lemma_filter_same(pre.goods_update_pool, differs_from(key), not_in(seq![key]));
            }
        }
        assert(self@ =~= collected_operators(pre, seq![key]));
        rvs
    }

    /// Collects account `key`: it leaves the owners pool, each operator it
    /// owns is collected, and the report holds, for each goods role, the
    /// readings of the last such operator with readings. Nothing is reported
    /// when none of its registered operators has readings.
    pub fn _get_goods_data_value(&mut self, operators: &OperatorModule, key: u64) -> (r: Option<GoodsOracleData<u64>>)
        requires
            old(self).wf(),
            readings_in_order_for(old(self)@, owned_of(operators@.owned_operators, key)),
        ensures
            final(self).wf(),
            match r {
                Some(d) => goods_report(old(self)@, operators@, key) == Some(d@),
                None => goods_report(old(self)@, operators@, key) is None,
            },
            final(self)@ == collected_owner(old(self)@, operators@, key),
    {
        let ghost pre = self@;
        self._remove_goods_owner_from_goods_owners_update_pool(key);
        let ghost p0 = self@;
        assert(p0 == GoodsState { goods_owners_update_pool: without(pre.goods_owners_update_pool, key), ..pre });
        let mut data = GoodsOracleData {
            owner: key,
            public_consumer_volume: Vec::new(),
            public_producer_volume: Vec::new(),
            private_consumer_volume: Vec::new(),
            private_producer_volume: Vec::new(),
        };
        let mut changed = false;
        let ids = operators.get_owned_operators(key);
        proof {
            lemma_collect_none(p0);
            assert(ids@.take(0) =~= Seq::<Did>::empty());
            assert(!reports_any(pre, operators@, ids@.take(0)));
        }
        let mut k: usize = 0;
        while k < ids.len()
            invariant
                0 <= k <= ids@.len(),
                ids@ == owned_of(operators@.owned_operators, key),
                self.wf(),
                p0 == (GoodsState { goods_owners_update_pool: without(pre.goods_owners_update_pool, key), ..pre }),
                self@ == collected_operators(p0, ids@.take(k as int)),
                readings_in_order_for(pre, ids@),
                data.owner == key,
                data.public_consumer_volume@ == role_readings(pre, operators@, ids@.take(k as int), OperatorRole::PublicConsumer),
                data.public_producer_volume@ == role_readings(pre, operators@, ids@.take(k as int), OperatorRole::PublicProducer),
                data.private_consumer_volume@ == role_readings(pre, operators@, ids@.take(k as int), OperatorRole::PrivateConsumer),
                data.private_producer_volume@ == role_readings(pre, operators@, ids@.take(k as int), OperatorRole::PrivateProducer),
                changed == reports_any(pre, operators@, ids@.take(k as int)),
            decreases ids@.len() - k,
        {
            let id = ids[k];
            proof {
                lemma_collected_basis_state(p0, ids@.take(k as int));
                assert(same_readings_basis(self@, pre));
                lemma_readings_by_basis(self@, pre, id);
                assert(ids@.contains(id)) by {
                    assert(ids@[k as int] == id);
                }
            }
            let rvs = self._get_goods_data_update_value(id);
            proof {
                lemma_collect_compose(p0, ids@.take(k as int), seq![id]);
                assert(ids@.take(k as int) + seq![id] =~= ids@.take(k + 1));
                lemma_report_step(pre, operators@, ids@, k as int);
            }
            if rvs.len() > 0 {
                match operators.get_operator(id) {
                    Some(info) => {
                        match info.role {
                            OperatorRole::PublicProducer => {
                                data.public_producer_volume = rvs;
                            },
                            OperatorRole::PublicConsumer => {
                                data.public_consumer_volume = rvs;
                            },
                            OperatorRole::PrivateProducer => {
                                data.private_producer_volume = rvs;
                            },
                            OperatorRole::PrivateConsumer => {
                                data.private_consumer_volume = rvs;
                            },
                            _ => {},
                        }
                        changed = true;
                    },
                    None => {},
                }
            }
            k = k + 1;
        }
        assert(ids@.take(ids@.len() as int) =~= ids@);
        if changed {
            Some(data)
        } else {
            None
        }
    }

    /// Feeds readings on behalf of the signer of the call, through the legal
    /// operator `feed_operator_id`.
    pub fn feed_goods_data(
        &mut self,
        operators: &OperatorModule,
        origin: Origin,
        feed_operator_id: Did,
        operator_volumes: Vec<OperatorVolume<Did>>,
        now: u64,
    ) -> (r: Result<Event, DispatchError>)
        requires
            old(self).wf(),
        ensures
            final(self).wf(),
            match origin {
                Origin::Signed(who) => match operators@.operators.get(feed_operator_id) {
                    None => r == Err::<Event, DispatchError>(DispatchError::Module(Error::UnknownOperator))
                        && final(self)@ == old(self)@,
                    Some(op) => if !op.is_legal {
                        r == Err::<Event, DispatchError>(DispatchError::Module(Error::NoPermission))
                            && final(self)@ == old(self)@
                    } else if all_known(operators@, operator_volumes@) {
                        r == Ok::<Event, DispatchError>(Event::NewFeedGoodsItemData(who, feed_operator_id))
                            && final(self)@ == fed_all(old(self)@, operators@, operator_volumes@, now)
                    } else {
                        &&& r == Err::<Event, DispatchError>(DispatchError::Module(Error::UnknownOperator))
                        &&& exists|k: int|
                            0 <= k < operator_volumes@.len() && !operators@.operators.contains_key(
                                #[trigger] operator_volumes@[k].operator_id,
                            ) && all_known(operators@, operator_volumes@.take(k)) && final(self)@
                                == fed_all(old(self)@, operators@, operator_volumes@.take(k), now)
                    },
                },
                _ => r == Err::<Event, DispatchError>(DispatchError::BadOrigin) && final(self)@ == old(self)@,
            },
    {
        let who = ensure_signed(origin)?;
        let operator = match operators.get_operator(feed_operator_id) {
            Some(op) => op,
            None => {
                return Err(DispatchError::Module(Error::UnknownOperator));
            },
        };
        if !operator.is_legal {
            return Err(DispatchError::Module(Error::NoPermission));
        }
        match self.feed_data(operators, feed_operator_id, operator_volumes, now) {
            Ok(()) => Ok(Event::NewFeedGoodsItemData(who, feed_operator_id)),
            Err(e) => Err(DispatchError::Module(e)),
        }
    }
}

impl GoodsDataProvider<u64, OperatorModule> for GoodsOracleModule {
    open spec fn inv(&self) -> bool {
        self.wf()
    }

    open spec fn can_collect(&self, registry: &OperatorModule, id: u64) -> bool {
        readings_in_order_for(self@, owned_of(registry@.owned_operators, id))
    }

    open spec fn owners_in_pool(&self) -> Seq<u64> {
        self@.goods_owners_update_pool
    }

    fn get_goods_data(&mut self, registry: &OperatorModule, id: u64) -> (r: Option<GoodsOracleData<u64>>)
        ensures
            match r {
                Some(d) => goods_report(old(self)@, registry@, id) == Some(d@),
                None => goods_report(old(self)@, registry@, id) is None,
            },
            final(self)@ == collected_owner(old(self)@, registry@, id),
    {
        self._get_goods_data_value(registry, id)
    }

    fn get_goods_owners_in_update_pool(&self) -> (r: Vec<u64>)
        ensures
            r@ == self@.goods_owners_update_pool,
    {
        copy_list(&self.goods_owners_update_pool)
    }
}

} // verus!
