//! The entity schema: caller identities and the two record kinds that the
//! transitions create and mutate.

use vstd::prelude::*;
use vstd::slice::slice_to_vec;

verus! {

/// Number of bytes in a caller identity and in a derived address.
pub const KEY_LEN: usize = 32;

/// The identity of an account taking part in a transition: the public key
/// the runtime has already authenticated, held as its raw bytes.
#[derive(Debug)]
pub struct Identity {
    pub bytes: Vec<u8>,
}

impl View for Identity {
    type V = Seq<u8>;

    open spec fn view(&self) -> Seq<u8> {
        self.bytes@
    }
}

impl Identity {
    /// A well-formed identity holds exactly `KEY_LEN` bytes.
    pub open spec fn wf(self) -> bool {
        self@.len() == KEY_LEN
    }

    pub fn new(bytes: Vec<u8>) -> (r: Identity)
        requires
            bytes@.len() == KEY_LEN,
        ensures
            r@ == bytes@,
            r.wf(),
    {
        Identity { bytes }
    }

    /// Exact byte-for-byte equality; the authorization policy relies on it.
    pub fn key_eq(&self, other: &Identity) -> (r: bool)
        ensures
            r == (self@ == other@),
    {
        let r = self.bytes == other.bytes;
        proof {
            if self@ =~= other@ {
                assert(self@ == other@);
            }
        }
        r
    }
}

impl Clone for Identity {
    fn clone(&self) -> (r: Self)
        ensures
            r@ == self@,
    {
        Identity { bytes: slice_to_vec(self.bytes.as_slice()) }
    }
}

/// The counter record: an owner that never changes after creation and a
/// counter that only ever grows by one per increment-class transition.
#[derive(Debug)]
pub struct CounterCompressedAccount {
    pub owner: Identity,
    pub counter: u64,
}

impl CounterCompressedAccount {
    pub open spec fn wf(self) -> bool {
        self.owner.wf()
    }
}

impl Clone for CounterCompressedAccount {
    fn clone(&self) -> (r: Self)
        ensures
            r.owner@ == self.owner@,
            r.counter == self.counter,
    {
        CounterCompressedAccount { owner: self.owner.clone(), counter: self.counter }
    }
}

/// The auxiliary subscription record: a caller-supplied identifier, set once
/// at creation and never mutated afterwards.
#[derive(Debug)]
pub struct DummyStruct {
    pub subscription_id: String,
}

impl Clone for DummyStruct {
    fn clone(&self) -> (r: Self)
        ensures
            r.subscription_id@ == self.subscription_id@,
    {
        DummyStruct { subscription_id: self.subscription_id.clone() }
    }
}

} // verus!
