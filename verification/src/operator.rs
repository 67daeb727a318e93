//! The operator registry: registers the meters and charging points that may
//! feed the oracles, and closes them.
use crate::hashing::{blake2_256, blake2_256_of, encode_registration, registration_encoding};
use crate::storage_map::{
    copy_list, first_position, lemma_push_absent_keeps_distinct, lemma_remove_first,
    lemma_remove_keeps_distinct, list_contains, push_absent, push_if_absent, StorageMap,
};
use crate::utilities::{
    ensure_signed, DispatchError, Did, Error, Operator, OperatorCategory, OperatorManager, OperatorRecord,
    OperatorRole, Origin,
};
use vstd::prelude::*;

verus! {

/// What the registry stores.
#[verifier::ext_equal]
pub struct OperatorState {
    pub operators: Map<Did, OperatorRecord>,
    pub operators_count: u64,
    pub operators_index: Map<u64, Did>,
    pub nonce: u64,
    /// Every account that owns an operator of a goods role.
    pub all_goods_operators: Seq<u64>,
    /// Every account that owns an operator of the payer role.
    pub all_pay_operators: Seq<u64>,
    pub owned_operators: Map<u64, Seq<Did>>,
}

/// The operators that `who` owns; no entry reads as none.
pub open spec fn owned_of(m: Map<u64, Seq<Did>>, who: u64) -> Seq<Did> {
    if m.contains_key(who) {
        m[who]
    } else {
        Seq::empty()
    }
}

/// The owned lists after `id` joins those of `who`, unless it is there.
pub open spec fn with_owned(m: Map<u64, Seq<Did>>, who: u64, id: Did) -> Map<u64, Seq<Did>> {
    if owned_of(m, who).contains(id) {
        m
    } else {
        m.insert(who, owned_of(m, who).push(id))
    }
}

/// The owned lists after the first `id` leaves those of `who`.
pub open spec fn without_owned(m: Map<u64, Seq<Did>>, who: u64, id: Did) -> Map<u64, Seq<Did>> {
    if owned_of(m, who).contains(id) {
        m.insert(who, owned_of(m, who).remove_value(id))
    } else {
        m
    }
}

/// No account is listed twice, and no account owns an operator twice.
pub open spec fn state_inv(s: OperatorState) -> bool {
    &&& s.all_goods_operators.no_duplicates()
    &&& s.all_pay_operators.no_duplicates()
    &&& forall|a: u64| #[trigger] s.owned_operators.contains_key(a) ==> s.owned_operators[a].no_duplicates()
}

/// The registry before anything was registered.
pub open spec fn genesis_state() -> OperatorState {
    OperatorState {
        operators: Map::empty(),
        operators_count: 0,
        operators_index: Map::empty(),
        nonce: 0,
        all_goods_operators: Seq::empty(),
        all_pay_operators: Seq::empty(),
        owned_operators: Map::empty(),
    }
}

/// The registry after `who` gets the legal operator `id`.
pub open spec fn with_new_operator(
    s: OperatorState,
    who: u64,
    id: Did,
    role: OperatorRole,
    category: OperatorCategory,
) -> OperatorState {
    OperatorState {
        operators: s.operators.insert(id, Operator { owner: who, role, category, is_legal: true }),
        owned_operators: with_owned(s.owned_operators, who, id),
        all_pay_operators: if role is Payer {
            push_if_absent(s.all_pay_operators, who)
        } else {
            s.all_pay_operators
        },
        all_goods_operators: if role is Payer {
            s.all_goods_operators
        } else {
            push_if_absent(s.all_goods_operators, who)
        },
        ..s
    }
}

/// The registry after the registration numbered `nonce` gave `id` to `who`.
pub open spec fn with_registration(
    s: OperatorState,
    who: u64,
    id: Did,
    nonce: u64,
    role: OperatorRole,
    category: OperatorCategory,
) -> OperatorState
    recommends
        nonce < u64::MAX,
{
    OperatorState {
        operators_count: (nonce + 1) as u64,
        operators_index: s.operators_index.insert(nonce, id),
        ..with_new_operator(s, who, id, role, category)
    }
}

/// The identifier given to `who` by the registration numbered `nonce`: the
/// BLAKE2b-256 hash of the SCALE encoding of `(random_seed, who, nonce)`.
pub open spec fn registration_id(random_seed: Seq<u8>, who: u64, nonce: u64) -> Seq<u8> {
    blake2_256_of(registration_encoding(random_seed, who, nonce))
}

/// The events of the registry.
#[derive(Clone, Copy, Debug, PartialEq, Eq, Structural)]
pub enum Event {
    /// A new operator has been registered.
    OperatorRegistered(u64),
    /// An existing operator has been unregistered.
    OperatorUnregistered(u64),
}

/// The storage of the registry.
pub struct OperatorModule {
    operators: StorageMap<Did, OperatorRecord>,
    operators_count: u64,
    operators_index: StorageMap<u64, Did>,
    nonce: u64,
    all_goods_operators: Vec<u64>,
    all_pay_operators: Vec<u64>,
    owned_operators: StorageMap<u64, Vec<Did>>,
}

impl View for OperatorModule {
    type V = OperatorState;

    closed spec fn view(&self) -> OperatorState {
        OperatorState {
            operators: self.operators@,
            operators_count: self.operators_count,
            operators_index: self.operators_index@,
            nonce: self.nonce,
            all_goods_operators: self.all_goods_operators@,
            all_pay_operators: self.all_pay_operators@,
            owned_operators: self.owned_operators@.map_values(|v: Vec<Did>| v@),
        }
    }
}

impl OperatorModule {
    pub open spec fn wf(&self) -> bool {
        state_inv(self@)
    }

    /// An empty registry.
    pub fn new() -> (m: Self)
        ensures
            m.wf(),
            m@ == genesis_state(),
    {
        let m = OperatorModule {
            operators: StorageMap::new(),
            operators_count: 0,
            operators_index: StorageMap::new(),
            nonce: 0,
            all_goods_operators: Vec::new(),
            all_pay_operators: Vec::new(),
            owned_operators: StorageMap::new(),
        };
        assert(m@.owned_operators =~= Map::empty());
        assert(m@ =~= genesis_state());
        m
    }

    /// The record of operator `id`, if it is registered.
    pub fn operator(&self, id: Did) -> (r: Option<OperatorRecord>)
        ensures
            r == self@.operators.get(id),
    {
        match self.operators.get(&id) {
            Some(op) => Some(*op),
            None => None,
        }
    }

    /// How many registrations have been stored.
    pub fn operators_count(&self) -> (r: u64)
        ensures
            r == self@.operators_count,
    {
        self.operators_count
    }

    /// The identifier given by registration `index`, if there was one.
    pub fn operators_index(&self, index: u64) -> (r: Option<Did>)
        ensures
            r == self@.operators_index.get(index),
    {
        match self.operators_index.get(&index) {
            Some(id) => Some(*id),
            None => None,
        }
    }

    /// The number of the next registration.
    pub fn nonce(&self) -> (r: u64)
        ensures
            r == self@.nonce,
    {
        self.nonce
    }

    /// The accounts that own an operator of a goods role.
    pub fn all_goods_operators(&self) -> (r: Vec<u64>)
        ensures
            r@ == self@.all_goods_operators,
    {
        copy_list(&self.all_goods_operators)
    }

    /// The accounts that own an operator of the payer role.
    pub fn all_pay_operators(&self) -> (r: Vec<u64>)
        ensures
            r@ == self@.all_pay_operators,
    {
        copy_list(&self.all_pay_operators)
    }

    /// The operators that `who` owns.
    pub fn owned_operators_in_pool(&self, who: u64) -> (r: Vec<Did>)
        ensures
            r@ == owned_of(self@.owned_operators, who),
    {
        self.owned_list(who)
    }

    /// The operators that `owner` owns.
    fn owned_list(&self, owner: u64) -> (r: Vec<Did>)
        ensures
            r@ == owned_of(self@.owned_operators, owner),
    {
        match self.owned_operators.get(&owner) {
            Some(list) => copy_list(list),
            None => Vec::new(),
        }
    }

    /// Adds `id` to the operators that `owner` owns, unless it is there.
    pub fn _add_operator_to_owned_operators_pool(&mut self, owner: u64, id: Did)
        requires
            old(self).wf(),
        ensures
            final(self).wf(),
            final(self)@ == (OperatorState {
                owned_operators: with_owned(old(self)@.owned_operators, owner, id),
                ..old(self)@
            }),
    {
        let ghost pre = self@;
        let mut owned = self.owned_list(owner);
        if !list_contains(&owned, &id) {
            owned.push(id);
            self.owned_operators.insert(owner, owned);
            proof {
                lemma_push_absent_keeps_distinct(owned_of(pre.owned_operators, owner), id);
                assert(self@.owned_operators =~= with_owned(pre.owned_operators, owner, id));
            }
        }
        assert(self@ =~= OperatorState {
            owned_operators: with_owned(pre.owned_operators, owner, id),
            ..pre
        });
    }

    /// Takes the first `id` out of the operators that `owner` owns.
    pub fn _remove_operator_from_owned_operators_pool(&mut self, owner: u64, id: Did)
        requires
            old(self).wf(),
        ensures
            final(self).wf(),
            final(self)@ == (OperatorState {
                owned_operators: without_owned(old(self)@.owned_operators, owner, id),
                ..old(self)@
            }),
    {
        let ghost pre = self@;
        let mut owned = self.owned_list(owner);
        match first_position(&owned, &id) {
            Some(j) => {
                proof {
                    lemma_remove_first(owned@, id, j as int);
                    lemma_remove_keeps_distinct(owned@, j as int);
                }
                owned.remove(j);
                self.owned_operators.insert(owner, owned);
                assert(self@.owned_operators =~= without_owned(pre.owned_operators, owner, id));
            },
            None => {},
        }
        assert(self@ =~= OperatorState {
            owned_operators: without_owned(pre.owned_operators, owner, id),
            ..pre
        });
    }

    /// Hands out the next registration number.
    pub fn get_nonce(&mut self) -> (n: u64)
        requires
            old(self).wf(),
            old(self)@.nonce < u64::MAX,
        ensures
            final(self).wf(),
            n == old(self)@.nonce,
            final(self)@ == (OperatorState { nonce: (n + 1) as u64, ..old(self)@ }),
    {
        let n = self.nonce;
        self.nonce = n + 1;
        n
    }

    /// Stores the legal operator `id` of `who`. Registering an identifier
    /// again replaces its record.
    pub fn new_operator(
        &mut self,
        who: u64,
        id: Did,
        role: OperatorRole,
        category: OperatorCategory,
    ) -> (r: Result<(), Error>)
        requires
            old(self).wf(),
        ensures
            final(self).wf(),
            r is Ok,
            final(self)@ == with_new_operator(old(self)@, who, id, role, category),
    {
        let ghost pre = self@;
        let new_operator = Operator { owner: who, role, category, is_legal: true };
        self.operators.insert(id, new_operator);
        assert(self@.owned_operators == pre.owned_operators);
        assert(self.wf());
        self._add_operator_to_owned_operators_pool(who, id);
        proof {
            lemma_push_absent_keeps_distinct(pre.all_pay_operators, who);
            lemma_push_absent_keeps_distinct(pre.all_goods_operators, who);
        }
        match role {
            OperatorRole::Payer => {
                push_absent(&mut self.all_pay_operators, who);
            },
            _ => {
                push_absent(&mut self.all_goods_operators, who);
            },
        }
        assert(self@ =~= with_new_operator(pre, who, id, role, category));
        Ok(())
    }

    /// Stores a registration once its identifier is known: the new operator,
    /// the count of registrations and the identifier under its number.
    pub fn store_registration(
        &mut self,
        who: u64,
        id: Did,
        nonce: u64,
        role: OperatorRole,
        category: OperatorCategory,
    ) -> (r: Result<(), Error>)
        requires
            old(self).wf(),
            nonce < u64::MAX,
        ensures
            final(self).wf(),
            r is Ok,
            final(self)@ == with_registration(old(self)@, who, id, nonce, role, category),
    {
        let ghost pre = self@;
        let r = self.new_operator(who, id, role, category);
        self.operators_count = nonce + 1;
        self.operators_index.insert(nonce, id);
        assert(self@ =~= with_registration(pre, who, id, nonce, role, category));
        r
    }

    /// Registers a legal operator for `who`. Its identifier is the hash of
    /// `(random_seed, who, nonce)`, the nonce counting registrations.
    pub fn _register_operator(
        &mut self,
        who: u64,
        role: OperatorRole,
        category: OperatorCategory,
        random_seed: [u8; 32],
    ) -> (r: Result<(), Error>)
        requires
            old(self).wf(),
            old(self)@.nonce < u64::MAX,
        ensures
            final(self).wf(),
            r is Ok,
            ({
                let n = old(self)@.nonce;
                let id = final(self)@.operators_index[n];
                &&& id.did@ == registration_id(random_seed@, who, n)
                &&& final(self)@ == with_registration(
                    OperatorState { nonce: (n + 1) as u64, ..old(self)@ },
                    who,
                    id,
                    n,
                    role,
                    category,
                )
            }),
    {
        let nonce = self.get_nonce();
        let encoded = encode_registration(&random_seed, who, nonce);
        let did = blake2_256(encoded.as_slice());
        let new_operator_id = Did { did };
        self.store_registration(who, new_operator_id, nonce, role, category)
    }

    /// Replaces the record of a registered operator.
    pub fn update_operator(&mut self, id: Did, new_operator: OperatorRecord) -> (r: Result<(), Error>)
        requires
            old(self).wf(),
        ensures
            final(self).wf(),
            r == (if old(self)@.operators.contains_key(id) {
                Ok(())
            } else {
                Err(Error::UnknownOperator)
            }),
            final(self)@ == (if r is Ok {
                OperatorState { operators: old(self)@.operators.insert(id, new_operator), ..old(self)@ }
            } else {
                old(self)@
            }),
    {
        if !self.operators.contains_key(&id) {
            return Err(Error::UnknownOperator);
        }
        let ghost pre = self@;
        self.operators.insert(id, new_operator);
        assert(self@ =~= OperatorState { operators: pre.operators.insert(id, new_operator), ..pre });
        Ok(())
    }

    /// Closes an operator: it stays registered, no longer legal, and leaves
    /// the operators that `who` owns.
    pub fn _close_operator(&mut self, who: u64, operator_id: Did) -> (r: Result<(), Error>)
        requires
            old(self).wf(),
        ensures
            final(self).wf(),
            r == (if old(self)@.operators.contains_key(operator_id) {
                Ok(())
            } else {
                Err(Error::UnknownOperator)
            }),
            final(self)@ == (if r is Ok {
                closed_state(old(self)@, who, operator_id)
            } else {
                old(self)@
            }),
    {
        let operator = match self.operators.get(&operator_id) {
            Some(op) => *op,
            None => {
                return Err(Error::UnknownOperator);
            },
        };
        let ghost pre = self@;
        let closed = Operator { is_legal: false, ..operator };
        self._remove_operator_from_owned_operators_pool(who, operator_id);
        let r = self.update_operator(operator_id, closed);
        assert(self@ =~= closed_state(pre, who, operator_id));
        r
    }

    /// Registers a legal operator for the signer of the call.
    pub fn call_register_operator(
        &mut self,
        origin: Origin,
        role: OperatorRole,
        category: OperatorCategory,
        random_seed: [u8; 32],
    ) -> (r: Result<Event, DispatchError>)
        requires
            old(self).wf(),
            origin is Signed ==> old(self)@.nonce < u64::MAX,
        ensures
            final(self).wf(),
            match origin {
                Origin::Signed(who) => {
                    let n = old(self)@.nonce;
                    let id = final(self)@.operators_index[n];
                    &&& r == Ok::<Event, DispatchError>(Event::OperatorRegistered(who))
                    &&& id.did@ == registration_id(random_seed@, who, n)
                    &&& final(self)@ == with_registration(
                        OperatorState { nonce: (n + 1) as u64, ..old(self)@ },
                        who,
                        id,
                        n,
                        role,
                        category,
                    )
                },
                _ => r == Err::<Event, DispatchError>(DispatchError::BadOrigin) && final(self)@ == old(self)@,
            },
    {
        let who = ensure_signed(origin)?;
        match self._register_operator(who, role, category, random_seed) {
            Ok(()) => Ok(Event::OperatorRegistered(who)),
            Err(e) => Err(DispatchError::Module(e)),
        }
    }

    /// Closes an operator on behalf of the signer of the call.
    pub fn close_operator(&mut self, origin: Origin, operator_id: Did) -> (r: Result<Event, DispatchError>)
        requires
            old(self).wf(),
        ensures
            final(self).wf(),
            match origin {
                Origin::Signed(who) => if old(self)@.operators.contains_key(operator_id) {
                    &&& r == Ok::<Event, DispatchError>(Event::OperatorUnregistered(who))
                    &&& final(self)@ == closed_state(old(self)@, who, operator_id)
                } else {
                    &&& r == Err::<Event, DispatchError>(DispatchError::Module(Error::UnknownOperator))
                    &&& final(self)@ == old(self)@
                },
                _ => r == Err::<Event, DispatchError>(DispatchError::BadOrigin) && final(self)@ == old(self)@,
            },
    {
        let who = ensure_signed(origin)?;
        match self._close_operator(who, operator_id) {
            Ok(()) => Ok(Event::OperatorUnregistered(who)),
            Err(e) => Err(DispatchError::Module(e)),
        }
    }
}

impl OperatorManager<Did, u64, OperatorRole, OperatorCategory> for OperatorModule {
    open spec fn inv(&self) -> bool {
        self.wf()
    }

    open spec fn can_register(&self) -> bool {
        self@.nonce < u64::MAX
    }

    open spec fn operator_record(&self, id: Did) -> Option<OperatorRecord> {
        self@.operators.get(id)
    }

    open spec fn owned_by(&self, id: u64) -> Seq<Did> {
        owned_of(self@.owned_operators, id)
    }

    fn register_operator(
        &mut self,
        who: u64,
        role: OperatorRole,
        category: OperatorCategory,
        random_seed: [u8; 32],
    ) -> (r: Result<(), Error>)
        ensures
            r is Ok,
            ({
                let n = old(self)@.nonce;
                let id = final(self)@.operators_index[n];
                &&& id.did@ == registration_id(random_seed@, who, n)
                &&& final(self)@ == with_registration(
                    OperatorState { nonce: (n + 1) as u64, ..old(self)@ },
                    who,
                    id,
                    n,
                    role,
                    category,
                )
            }),
    {
        self._register_operator(who, role, category, random_seed)
    }

    fn get_operator(&self, id: Did) -> (r: Option<OperatorRecord>)
        ensures
            r == self@.operators.get(id),
    {
        match self.operators.get(&id) {
            Some(op) => Some(*op),
            None => None,
        }
    }

    fn get_owned_operators(&self, who: u64) -> (r: Vec<Did>)
        ensures
            r@ == owned_of(self@.owned_operators, who),
    {
        self.owned_list(who)
    }
}

/// The registry after `who` closed `id`: its record is no longer legal and
/// it has left the operators that `who` owns.
pub open spec fn closed_state(s: OperatorState, who: u64, id: Did) -> OperatorState {
    OperatorState {
        operators: s.operators.insert(id, Operator { is_legal: false, ..s.operators[id] }),
        owned_operators: without_owned(s.owned_operators, who, id),
        ..s
    }
}

} // verus!
