//! Deterministic address derivation: a fixed domain-separation tag plus
//! request-specific seed bytes map to a unique account address. The digest
//! itself comes from the ledger SDK; everything stated about it here is that
//! it is a function of the program id and the seed list alone.

use vstd::prelude::*;
use vstd::slice::slice_to_vec;
use light_sdk::PubkeyTrait;

use crate::entity::{Identity, KEY_LEN};

verus! {

/// A derived account address: the digest of a seed tuple, held as raw bytes.
pub struct Address {
    pub bytes: Vec<u8>,
}

impl View for Address {
    type V = Seq<u8>;

    open spec fn view(&self) -> Seq<u8> {
        self.bytes@
    }
}

impl Address {
    /// A well-formed address holds exactly `KEY_LEN` bytes.
    pub open spec fn wf(self) -> bool {
        self@.len() == KEY_LEN
    }

    /// Exact byte-for-byte equality; the occupancy check relies on it.
    pub fn addr_eq(&self, other: &Address) -> (r: bool)
        ensures
            r == (self@ == other@),
    {
        let r = self.bytes == other.bytes;
        proof {
            if self@ =~= other@ {
                assert(self@ == other@);
            }
        }
        r
    }
}

impl Clone for Address {
    fn clone(&self) -> (r: Self)
        ensures
            r@ == self@,
    {
        Address { bytes: slice_to_vec(self.bytes.as_slice()) }
    }
}

/// The address that the given program id and seed list derive. The digest is
/// a function of exactly these inputs: nothing else enters it.
pub uninterp spec fn derived_address_of(program_id: Seq<u8>, seeds: Seq<Seq<u8>>) -> Seq<u8>;

/// The byte sequences carried by a list of seed buffers.
pub open spec fn views_of(seeds: Seq<Vec<u8>>) -> Seq<Seq<u8>> {
    seeds.map_values(|v: Vec<u8>| v@)
}

/// The greatest number of seeds a single derivation accepts.
pub const MAX_SEEDS: usize = 15;

/// Relies on `light_sdk::address::v1::derive_address_seed`: the returned
/// 32-byte digest is computed from the program id and the seed list alone,
/// and the call accepts at most `MAX_SEEDS` seeds.
#[verifier::external_body]
fn derive_raw(program_id: &Vec<u8>, seeds: &Vec<Vec<u8>>) -> (r: Vec<u8>)
    requires
        program_id@.len() == KEY_LEN,
        seeds@.len() <= MAX_SEEDS,
    ensures
        r@ == derived_address_of(program_id@, views_of(seeds@)),
        r@.len() == KEY_LEN,
{
    let mut id = [0u8; 32];
    id.copy_from_slice(program_id.as_slice());
    let seed_refs: Vec<&[u8]> = seeds.iter().map(|s| s.as_slice()).collect();
    let seed = light_sdk::address::v1::derive_address_seed(&seed_refs, &id.to_solana_pubkey());
    seed.0.to_vec()
}

/// Domain-separation tag of the counter entity: the bytes of `"counter"`.
pub open spec fn counter_tag() -> Seq<u8> {
    seq![99u8, 111u8, 117u8, 110u8, 116u8, 101u8, 114u8]
}

/// Domain-separation tag of the subscription record: the bytes of `"ds"`.
pub open spec fn dummy_tag() -> Seq<u8> {
    seq![100u8, 115u8]
}

fn counter_tag_bytes() -> (r: Vec<u8>)
    ensures
        r@ == counter_tag(),
{
    let mut v: Vec<u8> = Vec::new();
    v.push(99);
    v.push(111);
    v.push(117);
    v.push(110);
    v.push(116);
    v.push(101);
    v.push(114);
    proof {
        assert(v@ =~= counter_tag());
    }
    v
}

fn dummy_tag_bytes() -> (r: Vec<u8>)
    ensures
        r@ == dummy_tag(),
{
    let mut v: Vec<u8> = Vec::new();
    v.push(100);
    v.push(115);
    proof {
        assert(v@ =~= dummy_tag());
    }
    v
}

/// The address of an owner's counter entity: derived from the counter tag
/// and the owner identity.
pub open spec fn counter_address_of(program_id: Seq<u8>, owner: Seq<u8>) -> Seq<u8> {
    derived_address_of(program_id, seq![counter_tag(), owner])
}

/// The address of a subscription record: derived from the subscription tag,
/// the auxiliary reference identity, and the identifier's bytes.
pub open spec fn subscription_address_of(
    program_id: Seq<u8>,
    reference: Seq<u8>,
    id_bytes: Seq<u8>,
) -> Seq<u8> {
    derived_address_of(program_id, seq![dummy_tag(), reference, id_bytes])
}

/// Derive the counter entity's address for the given owner.
pub fn counter_address(program_id: &Vec<u8>, owner: &Identity) -> (r: Address)
    requires
        program_id@.len() == KEY_LEN,
    ensures
        r@ == counter_address_of(program_id@, owner@),
        r.wf(),
{
    let mut seeds: Vec<Vec<u8>> = Vec::new();
    seeds.push(counter_tag_bytes());
    seeds.push(slice_to_vec(owner.bytes.as_slice()));
    proof {
        assert(views_of(seeds@) =~= seq![counter_tag(), owner@]);
    }
    Address { bytes: derive_raw(program_id, &seeds) }
}

/// Derive a subscription record's address from the auxiliary reference
/// identity and the identifier's bytes.
pub fn subscription_address(program_id: &Vec<u8>, reference: &Identity, id_bytes: &Vec<u8>) -> (r:
    Address)
    requires
        program_id@.len() == KEY_LEN,
    ensures
        r@ == subscription_address_of(program_id@, reference@, id_bytes@),
        r.wf(),
{
    let mut seeds: Vec<Vec<u8>> = Vec::new();
    seeds.push(dummy_tag_bytes());
    seeds.push(slice_to_vec(reference.bytes.as_slice()));
    seeds.push(slice_to_vec(id_bytes.as_slice()));
    proof {
        assert(views_of(seeds@) =~= seq![dummy_tag(), reference@, id_bytes@]);
    }
    Address { bytes: derive_raw(program_id, &seeds) }
}

/// Law: address derivation is a pure function of its seed material. Two
/// derivations over the same program id and the same seed list yield the
/// identical address.
pub proof fn lemma_derivation_deterministic(
    program_id_a: Seq<u8>,
    seeds_a: Seq<Seq<u8>>,
    program_id_b: Seq<u8>,
    seeds_b: Seq<Seq<u8>>,
)
    requires
        program_id_a == program_id_b,
        seeds_a == seeds_b,
    ensures
        derived_address_of(program_id_a, seeds_a) == derived_address_of(program_id_b, seeds_b),
{
}

} // verus!
