//! The runtime's side of a transition, made explicit: a store of occupied
//! slots keyed by derived address, the allocation rule (an address can be
//! created only once), the loading rule (mutate and delete need a live
//! record, and loading a counter for mutation authorizes the caller), and
//! the persisting of what a handler returns. Each `process_*` method runs
//! one whole transition atomically: on any error the store is left exactly
//! as it was.

use vstd::prelude::*;
use vstd::string::StrSliceExecFns;
use vstd::utf8::encode_utf8;

use crate::address::{
    counter_address, counter_address_of, subscription_address, subscription_address_of, Address,
};
use crate::entity::{CounterCompressedAccount, DummyStruct, Identity, KEY_LEN};
use crate::handlers;
use crate::handlers::{Create, Delete, Increment, InitAndIncrement};

verus! {

/// A record held at a derived address.
pub enum Record {
    Counter(CounterCompressedAccount),
    Subscription(DummyStruct),
}

/// One occupied storage slot: a derived address and the record living there.
pub struct Slot {
    pub address: Address,
    pub record: Record,
}

impl Slot {
    pub open spec fn wf(self) -> bool {
        &&& self.address.wf()
        &&& (self.record matches Record::Counter(c) ==> c.wf())
    }
}

/// How a whole transition can end. `Unauthorized` is the core's own
/// rejection; the others are the runtime rules (allocation, loading, and an
/// explicit fail policy at the counter's 64-bit boundary).
#[derive(Clone, Copy, Debug, PartialEq, Eq, Structural)]
pub enum TransitionError {
    /// The caller's identity does not match the entity's owner.
    Unauthorized,
    /// Create would allocate an address that is already occupied.
    AddressOccupied,
    /// Mutation or deletion names an address with no live counter entity.
    NotFound,
    /// The counter stands at the 64-bit boundary; the transition fails
    /// rather than wrapping or saturating.
    CounterOverflow,
}

/// The persisted account space: the program's immutable identity and the
/// occupied slots, at most one per derived address.
pub struct Ledger {
    pub program_id: Vec<u8>,
    pub slots: Vec<Slot>,
}

impl Ledger {
    /// Well-formed: a 32-byte program id, well-formed slots, and no derived
    /// address occupied twice.
    pub open spec fn wf(self) -> bool {
        &&& self.program_id@.len() == KEY_LEN
        &&& (forall|i: int| 0 <= i < self.slots@.len() ==> (#[trigger] self.slots@[i]).wf())
        &&& (forall|i: int, j: int|
            0 <= i < j < self.slots@.len() ==> self.slots@[i].address@ != self.slots@[j].address@)
    }

    /// Whether a live record sits at the given address.
    pub open spec fn occupied(self, addr: Seq<u8>) -> bool {
        exists|i: int| 0 <= i < self.slots@.len() && (#[trigger] self.slots@[i]).address@ == addr
    }

    /// The slot index of an occupied address.
    pub open spec fn index_of(self, addr: Seq<u8>) -> int {
        choose|i: int| 0 <= i < self.slots@.len() && (#[trigger] self.slots@[i]).address@ == addr
    }

    /// The record at an occupied address.
    pub open spec fn record_at(self, addr: Seq<u8>) -> Record {
        self.slots@[self.index_of(addr)].record
    }

    /// The derived address of an owner's counter entity in this ledger.
    pub open spec fn counter_addr(self, owner: Seq<u8>) -> Seq<u8> {
        counter_address_of(self.program_id@, owner)
    }

    /// The counter entity an owner has, if any: the record at the owner's
    /// derived counter address, when that record is a counter.
    pub open spec fn counter_of(self, owner: Seq<u8>) -> Option<CounterCompressedAccount> {
        if self.occupied(self.counter_addr(owner)) {
            match self.record_at(self.counter_addr(owner)) {
                Record::Counter(c) => Some(c),
                Record::Subscription(_) => None,
            }
        } else {
            None
        }
    }

    /// An occupied address has exactly one slot, so any index holding it is
    /// the index `index_of` denotes.
    proof fn lemma_index_is(self, addr: Seq<u8>, i: int)
        requires
            self.wf(),
            0 <= i < self.slots@.len(),
            self.slots@[i].address@ == addr,
        ensures
            self.occupied(addr),
            self.index_of(addr) == i,
    {
        assert(self.occupied(addr));
        let j = self.index_of(addr);
        assert(0 <= j < self.slots@.len() && self.slots@[j].address@ == addr);
        if i < j {
            assert(self.slots@[i].address@ != self.slots@[j].address@);
        } else if j < i {
            assert(self.slots@[j].address@ != self.slots@[i].address@);
        }
    }

    /// An empty ledger: nothing is occupied.
    pub fn new(program_id: Vec<u8>) -> (r: Ledger)
        requires
            program_id@.len() == KEY_LEN,
        ensures
            r.wf(),
            r.program_id@ == program_id@,
            forall|a: Seq<u8>| !(#[trigger] r.occupied(a)),
    {
        Ledger { program_id, slots: Vec::new() }
    }

    /// Find the slot of an address, if it is occupied.
    fn find_slot(&self, addr: &Address) -> (r: Option<usize>)
        requires
            self.wf(),
        ensures
            match r {
                Some(i) => i < self.slots@.len() && self.slots@[i as int].address@ == addr@
                    && self.occupied(addr@) && self.index_of(addr@) == i,
                None => !self.occupied(addr@),
            },
    {
        let n = self.slots.len();
        let mut k: usize = 0;
        while k < n
            invariant
                n == self.slots@.len(),
                k <= n,
                self.wf(),
                forall|j: int| 0 <= j < k ==> (#[trigger] self.slots@[j]).address@ != addr@,
            decreases n - k,
        {
            if self.slots[k].address.addr_eq(addr) {
                proof {
                    self.lemma_index_is(addr@, k as int);
                }
                return Some(k);
            }
            k += 1;
        }
        None
    }

    /// The create transition, whole: derive the caller's counter address,
    /// refuse it if occupied, otherwise allocate the handler's fresh entity
    /// there.
    pub fn process_create(&mut self, caller: &Identity) -> (r: Result<(), TransitionError>)
        requires
            old(self).wf(),
            caller.wf(),
        ensures
            final(self).wf(),
            final(self).program_id@ == old(self).program_id@,
            ({
                let addr = old(self).counter_addr(caller@);
                if old(self).occupied(addr) {
                    (r matches Err(e) && e == TransitionError::AddressOccupied) && *final(self)
                        == *old(self)
                } else {
                    r is Ok && final(self).occupied(addr) && (final(self).record_at(addr) matches
                    Record::Counter(c) && c.owner@ == caller@ && c.counter == 0) && (forall|
                        a: Seq<u8>,
                    |
                        a != addr ==> (#[trigger] final(self).occupied(a)) == old(self).occupied(
                            a,
                        )) && (forall|a: Seq<u8>|
                        a != addr && old(self).occupied(a) ==> (#[trigger] final(self).record_at(
                            a,
                        )) == old(self).record_at(a))
                }
            }),
    {
        let addr = counter_address(&self.program_id, caller);
        match self.find_slot(&addr) {
            Some(_) => Err(TransitionError::AddressOccupied),
            None => {
                let entity = handlers::create(Create { signer: caller.clone() });
                let ghost pre = *self;
                let ghost n = self.slots@.len() as int;
                self.slots.push(Slot { address: addr, record: Record::Counter(entity) });
                proof {
                    assert forall|i: int, j: int|
                        0 <= i < j < self.slots@.len() implies self.slots@[i].address@
                        != self.slots@[j].address@ by {
                        if j == n {
                            assert(pre.slots@[i].address@ != addr@);
                        }
                    }
                    assert forall|k: int|
                        0 <= k < self.slots@.len() implies (#[trigger] self.slots@[k]).wf() by {
                        if k < n {
                            assert(pre.slots@[k].wf());
                        }
                    }
                    assert(self.wf());
                    self.lemma_index_is(addr@, n);
                    assert forall|a: Seq<u8>| a != addr@ implies (#[trigger] self.occupied(a))
                        == pre.occupied(a) by {
                        if self.occupied(a) {
                            let w = choose|i: int|
                                0 <= i < self.slots@.len() && (#[trigger] self.slots@[i]).address@
                                    == a;
                            assert(w != n);
                            assert(pre.slots@[w].address@ == a);
                        }
                        if pre.occupied(a) {
                            let w = choose|i: int|
                                0 <= i < pre.slots@.len() && (#[trigger] pre.slots@[i]).address@
                                    == a;
                            assert(self.slots@[w].address@ == a);
                        }
                    }
                    assert forall|a: Seq<u8>| a != addr@ && pre.occupied(a) implies (
                    #[trigger] self.record_at(a)) == pre.record_at(a) by {
                        let w = choose|i: int|
                            0 <= i < pre.slots@.len() && (#[trigger] pre.slots@[i]).address@ == a;
                        pre.lemma_index_is(a, w);
                        self.lemma_index_is(a, w);
                    }
                }
                Ok(())
            },
        }
    }

    /// The increment transition, whole: load the caller's counter entity
    /// (authorizing the caller is part of loading it for mutation), refuse
    /// the 64-bit boundary, let the handler step the counter, and persist
    /// the result. Returns the new counter value.
    pub fn process_increment(&mut self, caller: &Identity) -> (r: Result<u64, TransitionError>)
        requires
            old(self).wf(),
        ensures
            final(self).wf(),
            final(self).program_id@ == old(self).program_id@,
            ({
                let addr = old(self).counter_addr(caller@);
                match old(self).counter_of(caller@) {
                    Option::None => (r matches Err(e) && e == TransitionError::NotFound) && *final(self) == *old(self),
                    Option::Some(c) => if c.owner@ != caller@ {
                        (r matches Err(e) && e == TransitionError::Unauthorized) && *final(self)
                            == *old(self)
                    } else if c.counter == u64::MAX {
                        (r matches Err(e) && e == TransitionError::CounterOverflow) && *final(self)
                            == *old(self)
                    } else {
                        (r matches Ok(v) && v == c.counter + 1) && (final(self).counter_of(caller@)
                            matches Some(c2) && c2.owner@ == c.owner@ && c2.counter == c.counter
                            + 1) && (forall|a: Seq<u8>| (#[trigger] final(self).occupied(a)) == old(self).occupied(a)) && (forall|a: Seq<u8>|
                            a != addr && old(self).occupied(a) ==> (#[trigger] final(self).record_at(a)) == old(self).record_at(a))
                    },
                }
            }),
    {
        let addr = counter_address(&self.program_id, caller);
        let found = self.find_slot(&addr);
        match found {
            None => Err(TransitionError::NotFound),
            Some(i) => {
                let stored: CounterCompressedAccount = match &self.slots[i].record {
                    Record::Counter(c) => c.clone(),
                    Record::Subscription(_) => {
                        return Err(TransitionError::NotFound);
                    },
                };
                if handlers::authorize(&stored.owner, caller).is_err() {
                    return Err(TransitionError::Unauthorized);
                }
                if stored.counter == u64::MAX {
                    return Err(TransitionError::CounterOverflow);
                }
                let ghost pre = *self;
                match handlers::increment(Increment { signer: caller.clone(), counter: stored }) {
                    Err(_) => Err(TransitionError::Unauthorized),
                    Ok(c2) => {
                        let v = c2.counter;
                        self.slots[i] = Slot { address: addr, record: Record::Counter(c2) };
                        proof {
                            lemma_same_addresses_frame(pre, *self);
                            assert forall|k: int|
                                0 <= k < self.slots@.len() implies (
                            #[trigger] self.slots@[k]).wf() by {
                                if k != i as int {
                                    assert(self.slots@[k] == pre.slots@[k]);
                                    assert(pre.slots@[k].wf());
                                }
                            }
                            assert(self.wf());
                            self.lemma_index_is(pre.counter_addr(caller@), i as int);
                            assert forall|a: Seq<u8>|
                                a != pre.counter_addr(caller@) && pre.occupied(a) implies (
                            #[trigger] self.record_at(a)) == pre.record_at(a) by {
                                let w = choose|k: int|
                                    0 <= k < pre.slots@.len() && (#[trigger] pre.slots@[k]).address@
                                        == a;
                                assert(w != i as int);
                                pre.lemma_index_is(a, w);
                                self.lemma_index_is(a, w);
                            }
                        }
                        Ok(v)
                    },
                }
            },
        }
    }

    /// The create-plus-increment transition, whole: load the caller's
    /// counter entity (authorizing the caller is part of loading it for
    /// mutation), derive the subscription address from the reference
    /// identity and the identifier's bytes, refuse it if occupied, refuse
    /// the 64-bit boundary, then let the handler create the subscription
    /// record and step the counter; persist both or nothing. Returns the
    /// new counter value.
    pub fn process_init_and_increment(
        &mut self,
        caller: &Identity,
        dummy_account: &Identity,
        subscription_id: String,
    ) -> (r: Result<u64, TransitionError>)
        requires
            old(self).wf(),
        ensures
            final(self).wf(),
            final(self).program_id@ == old(self).program_id@,
            ({
                let addr = old(self).counter_addr(caller@);
                let sub_addr = subscription_address_of(
                    old(self).program_id@,
                    dummy_account@,
                    encode_utf8(subscription_id@),
                );
                match old(self).counter_of(caller@) {
                    Option::None => (r matches Err(e) && e == TransitionError::NotFound) && *final(self) == *old(self),
                    Option::Some(c) => if c.owner@ != caller@ {
                        (r matches Err(e) && e == TransitionError::Unauthorized) && *final(self)
                            == *old(self)
                    } else if old(self).occupied(sub_addr) {
                        (r matches Err(e) && e == TransitionError::AddressOccupied) && *final(self)
                            == *old(self)
                    } else if c.counter == u64::MAX {
                        (r matches Err(e) && e == TransitionError::CounterOverflow) && *final(self)
                            == *old(self)
                    } else {
                        (r matches Ok(v) && v == c.counter + 1) && (final(self).counter_of(caller@)
                            matches Some(c2) && c2.owner@ == c.owner@ && c2.counter == c.counter
                            + 1) && final(self).occupied(sub_addr) && (final(self).record_at(
                            sub_addr,
                        ) matches Record::Subscription(d) && d.subscription_id@
                            == subscription_id@) && (forall|a: Seq<u8>|
                            a != sub_addr ==> (#[trigger] final(self).occupied(a)) == old(self).occupied(a)) && (forall|a: Seq<u8>|
                            a != addr && a != sub_addr && old(self).occupied(a) ==> (
                            #[trigger] final(self).record_at(a)) == old(self).record_at(a))
                    },
                }
            }),
    {
        let addr = counter_address(&self.program_id, caller);
        let found = self.find_slot(&addr);
        match found {
            None => Err(TransitionError::NotFound),
            Some(i) => {
                let stored: CounterCompressedAccount = match &self.slots[i].record {
                    Record::Counter(c) => c.clone(),
                    Record::Subscription(_) => {
                        return Err(TransitionError::NotFound);
                    },
                };
                if handlers::authorize(&stored.owner, caller).is_err() {
                    return Err(TransitionError::Unauthorized);
                }
                let id_bytes = subscription_id.as_str().as_bytes_vec();
                let sub_addr = subscription_address(&self.program_id, dummy_account, &id_bytes);
                if self.find_slot(&sub_addr).is_some() {
                    return Err(TransitionError::AddressOccupied);
                }
                if stored.counter == u64::MAX {
                    return Err(TransitionError::CounterOverflow);
                }
                let ghost pre = *self;
                let ghost n = self.slots@.len() as int;
                let ctx = InitAndIncrement {
                    signer: caller.clone(),
                    dummy_account: dummy_account.clone(),
                    counter: stored,
                };
                match handlers::init_and_increment(ctx, subscription_id) {
                    Err(_) => Err(TransitionError::Unauthorized),
                    Ok((c2, d)) => {
                        let v = c2.counter;
                        self.slots[i] = Slot { address: addr, record: Record::Counter(c2) };
                        let ghost mid = *self;
                        self.slots.push(
                            Slot { address: sub_addr, record: Record::Subscription(d) },
                        );
                        proof {
                            lemma_same_addresses_frame(pre, mid);
                            assert forall|k: int|
                                0 <= k < mid.slots@.len() implies (#[trigger] mid.slots@[k]).wf() by {
                                if k != i as int {
                                    assert(mid.slots@[k] == pre.slots@[k]);
                                    assert(pre.slots@[k].wf());
                                }
                            }
                            assert(mid.wf());
                            assert forall|k: int, j: int|
                                0 <= k < j < self.slots@.len() implies self.slots@[k].address@
                                != self.slots@[j].address@ by {
                                if j == n {
                                    assert(mid.slots@[k].address@ == pre.slots@[k].address@);
                                    pre.lemma_index_is(self.slots@[k].address@, k);
                                }
                            }
                            assert forall|k: int|
                                0 <= k < self.slots@.len() implies (
                            #[trigger] self.slots@[k]).wf() by {
                                if k < n {
                                    assert(mid.slots@[k].wf());
                                }
                            }
                            assert(self.wf());
                            self.lemma_index_is(sub_addr@, n);
                            mid.lemma_index_is(pre.counter_addr(caller@), i as int);
                            self.lemma_index_is(pre.counter_addr(caller@), i as int);
                            assert forall|a: Seq<u8>| a != sub_addr@ implies (
                            #[trigger] self.occupied(a)) == pre.occupied(a) by {
                                if self.occupied(a) {
                                    let w = choose|k: int|
                                        0 <= k < self.slots@.len() && (#[trigger] self.slots@[k]).address@
                                            == a;
                                    assert(w != n);
                                    assert(mid.slots@[w].address@ == a);
                                    assert(pre.slots@[w].address@ == a);
                                }
                                if pre.occupied(a) {
                                    let w = choose|k: int|
                                        0 <= k < pre.slots@.len() && (#[trigger] pre.slots@[k]).address@
                                            == a;
                                    assert(mid.slots@[w].address@ == a);
                                    assert(self.slots@[w].address@ == a);
                                }
                            }
                            assert forall|a: Seq<u8>|
                                a != pre.counter_addr(caller@) && a != sub_addr@ && pre.occupied(
                                    a,
                                ) implies (#[trigger] self.record_at(a)) == pre.record_at(a) by {
                                let w = choose|k: int|
                                    0 <= k < pre.slots@.len() && (#[trigger] pre.slots@[k]).address@
                                        == a;
                                assert(w != i as int);
                                pre.lemma_index_is(a, w);
                                self.lemma_index_is(a, w);
                            }
                        }
                        Ok(v)
                    },
                }
            },
        }
    }

    /// The delete transition, whole: load the caller's counter entity, let
    /// the handler authorize, and on success release the slot.
    pub fn process_delete(&mut self, caller: &Identity) -> (r: Result<(), TransitionError>)
        requires
            old(self).wf(),
        ensures
            final(self).wf(),
            final(self).program_id@ == old(self).program_id@,
            ({
                let addr = old(self).counter_addr(caller@);
                match old(self).counter_of(caller@) {
                    Option::None => (r matches Err(e) && e == TransitionError::NotFound) && *final(self) == *old(self),
                    Option::Some(c) => if c.owner@ != caller@ {
                        (r matches Err(e) && e == TransitionError::Unauthorized) && *final(self)
                            == *old(self)
                    } else {
                        r is Ok && !final(self).occupied(addr) && (forall|a: Seq<u8>|
                            a != addr ==> (#[trigger] final(self).occupied(a)) == old(self).occupied(a)) && (forall|a: Seq<u8>|
                            a != addr && old(self).occupied(a) ==> (#[trigger] final(self).record_at(a)) == old(self).record_at(a))
                    },
                }
            }),
    {
        let addr = counter_address(&self.program_id, caller);
        let found = self.find_slot(&addr);
        match found {
            None => Err(TransitionError::NotFound),
            Some(i) => {
                let stored: CounterCompressedAccount = match &self.slots[i].record {
                    Record::Counter(c) => c.clone(),
                    Record::Subscription(_) => {
                        return Err(TransitionError::NotFound);
                    },
                };
                let ghost pre = *self;
                match handlers::delete(Delete { signer: caller.clone(), counter: stored }) {
                    Err(_) => Err(TransitionError::Unauthorized),
                    Ok(()) => {
                        self.slots.remove(i);
                        proof {
                            assert forall|k: int, j: int|
                                0 <= k < j < self.slots@.len() implies self.slots@[k].address@
                                != self.slots@[j].address@ by {
                                let pk: int = if k < i as int {
                                    k
                                } else {
                                    k + 1
                                };
                                let pj: int = if j < i as int {
                                    j
                                } else {
                                    j + 1
                                };
                                assert(self.slots@[k] == pre.slots@[pk]);
                                assert(self.slots@[j] == pre.slots@[pj]);
                            }
                            assert forall|k: int|
                                0 <= k < self.slots@.len() implies (
                            #[trigger] self.slots@[k]).wf() by {
                                let pk: int = if k < i as int {
                                    k
                                } else {
                                    k + 1
                                };
                                assert(self.slots@[k] == pre.slots@[pk]);
                                assert(pre.slots@[pk].wf());
                            }
                            assert(self.wf());
                            assert(!self.occupied(addr@)) by {
                                if self.occupied(addr@) {
                                    let w = choose|k: int|
                                        0 <= k < self.slots@.len() && (#[trigger] self.slots@[k]).address@
                                            == addr@;
                                    let pw: int = if w < i as int {
                                        w
                                    } else {
                                        w + 1
                                    };
                                    assert(pre.slots@[pw].address@ == addr@);
                                    pre.lemma_index_is(addr@, pw);
                                }
                            }
                            assert forall|a: Seq<u8>| a != addr@ implies (#[trigger] self.occupied(
                                a,
                            )) == pre.occupied(a) by {
                                if self.occupied(a) {
                                    let w = choose|k: int|
                                        0 <= k < self.slots@.len() && (#[trigger] self.slots@[k]).address@
                                            == a;
                                    let pw: int = if w < i as int {
                                        w
                                    } else {
                                        w + 1
                                    };
                                    assert(pre.slots@[pw].address@ == a);
                                }
                                if pre.occupied(a) {
                                    let w = choose|k: int|
                                        0 <= k < pre.slots@.len() && (#[trigger] pre.slots@[k]).address@
                                            == a;
                                    assert(w != i as int);
                                    let nw: int = if w < i as int {
                                        w
                                    } else {
                                        w - 1
                                    };
                                    assert(self.slots@[nw].address@ == a);
                                }
                            }
                            assert forall|a: Seq<u8>| a != addr@ && pre.occupied(a) implies (
                            #[trigger] self.record_at(a)) == pre.record_at(a) by {
                                let w = choose|k: int|
                                    0 <= k < pre.slots@.len() && (#[trigger] pre.slots@[k]).address@
                                        == a;
                                assert(w != i as int);
                                let nw: int = if w < i as int {
                                    w
                                } else {
                                    w - 1
                                };
                                assert(self.slots@[nw] == pre.slots@[w]);
                                pre.lemma_index_is(a, w);
                                self.lemma_index_is(a, nw);
                            }
                        }
                        Ok(())
                    },
                }
            },
        }
    }

    /// Observe an owner's counter value, if the owner has a counter entity.
    pub fn counter_value(&self, owner: &Identity) -> (r: Option<u64>)
        requires
            self.wf(),
        ensures
            match self.counter_of(owner@) {
                Option::Some(c) => r == Some(c.counter),
                Option::None => r is None,
            },
    {
        let addr = counter_address(&self.program_id, owner);
        match self.find_slot(&addr) {
            None => None,
            Some(i) => match &self.slots[i].record {
                Record::Counter(c) => Some(c.counter),
                Record::Subscription(_) => None,
            },
        }
    }

    /// Observe the subscription record at the address derived from a
    /// reference identity and an identifier, if one lives there.
    pub fn subscription_id_at(&self, reference: &Identity, subscription_id: &String) -> (r: Option<
        String,
    >)
        requires
            self.wf(),
        ensures
            ({
                let sub_addr = subscription_address_of(
                    self.program_id@,
                    reference@,
                    encode_utf8(subscription_id@),
                );
                match r {
                    Option::Some(s) => self.occupied(sub_addr) && (self.record_at(sub_addr) matches
                    Record::Subscription(d) && s@ == d.subscription_id@),
                    Option::None => !self.occupied(sub_addr) || !(self.record_at(sub_addr) matches
                    Record::Subscription(_)),
                }
            }),
    {
        let id_bytes = subscription_id.as_str().as_bytes_vec();
        let sub_addr = subscription_address(&self.program_id, reference, &id_bytes);
        match self.find_slot(&sub_addr) {
            None => None,
            Some(i) => match &self.slots[i].record {
                Record::Counter(_) => None,
                Record::Subscription(d) => Some(d.subscription_id.clone()),
            },
        }
    }
}

/// When an update keeps every slot's address, occupancy is untouched
/// everywhere and every occupied address keeps its slot index.
proof fn lemma_same_addresses_frame(pre: Ledger, post: Ledger)
    requires
        pre.wf(),
        post.slots@.len() == pre.slots@.len(),
        forall|i: int|
            0 <= i < pre.slots@.len() ==> (#[trigger] post.slots@[i]).address@
                == pre.slots@[i].address@,
    ensures
        forall|a: Seq<u8>| (#[trigger] post.occupied(a)) == pre.occupied(a),
        forall|a: Seq<u8>| #[trigger] pre.occupied(a) ==> post.index_of(a) == pre.index_of(a),
        forall|i: int, j: int|
            0 <= i < j < post.slots@.len() ==> post.slots@[i].address@ != post.slots@[j].address@,
{
    assert forall|a: Seq<u8>| (#[trigger] post.occupied(a)) == pre.occupied(a) by {
        if post.occupied(a) {
            let w = choose|i: int|
                0 <= i < post.slots@.len() && (#[trigger] post.slots@[i]).address@ == a;
            assert(pre.slots@[w].address@ == a);
        }
        if pre.occupied(a) {
            let w = choose|i: int|
                0 <= i < pre.slots@.len() && (#[trigger] pre.slots@[i]).address@ == a;
            assert(post.slots@[w].address@ == a);
        }
    }
    assert forall|a: Seq<u8>| #[trigger] pre.occupied(a) implies post.index_of(a) == pre.index_of(
        a,
    ) by {
        let w = pre.index_of(a);
        assert(0 <= w < pre.slots@.len() && pre.slots@[w].address@ == a);
        assert(post.slots@[w].address@ == a);
        assert(post.occupied(a));
        let w2 = post.index_of(a);
        assert(0 <= w2 < post.slots@.len() && post.slots@[w2].address@ == a);
        if w < w2 {
            assert(pre.slots@[w].address@ != pre.slots@[w2].address@);
        } else if w2 < w {
            assert(pre.slots@[w2].address@ != pre.slots@[w].address@);
        }
    }
}

/// Law: after a successful create for an owner, that owner's counter
/// address is occupied — which is exactly the state in which a second
/// create for the same owner is refused as already allocated.
pub proof fn lemma_create_is_exclusive(after_create: Ledger, owner: Seq<u8>)
    requires
        after_create.counter_of(owner) is Some,
    ensures
        after_create.occupied(counter_address_of(after_create.program_id@, owner)),
{
}

/// Law: for any owner, a successful create followed by a successful
/// increment by that same owner leaves the owner's counter at exactly 1,
/// with the owner unchanged.
pub proof fn lemma_create_then_increment(
    after_create: Ledger,
    after_increment: Ledger,
    owner: Seq<u8>,
)
    requires
        after_create.counter_of(owner) matches Some(c) && c.owner@ == owner && c.counter == 0,
        ({
            let c = after_create.counter_of(owner)->Some_0;
            after_increment.counter_of(owner) matches Some(b) && b.owner@ == c.owner@ && b.counter
                == c.counter + 1
        }),
    ensures
        after_increment.counter_of(owner) matches Some(b) && b.owner@ == owner && b.counter == 1,
{
}

/// Law: once an owner's counter address is no longer occupied — the state a
/// successful delete leaves — the owner has no counter entity, so a
/// subsequent increment finds nothing to mutate.
pub proof fn lemma_delete_removes(after_delete: Ledger, owner: Seq<u8>)
    requires
        !after_delete.occupied(counter_address_of(after_delete.program_id@, owner)),
    ensures
        after_delete.counter_of(owner) is None,
{
}

} // verus!

