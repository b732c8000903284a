//! Storage addresses and signer identities, and the derivation of a record's
//! address from a namespace tag and the record's identifiers.

use anchor_lang::prelude::Pubkey;
use vstd::prelude::*;
use vstd::std_specs::cmp::PartialEqSpecImpl;
use vstd::utf8::encode_utf8;

verus! {

/// A 32-byte key. It names the storage slot of a record, and it names a
/// signer: creators and attendees are known by their keys.
#[derive(Clone, Copy, Debug)]
pub struct Address {
    pub bytes: [u8; 32],
}

impl View for Address {
    type V = Seq<u8>;

    open spec fn view(&self) -> Seq<u8> {
        self.bytes@
    }
}

impl Address {
    /// The address with the given bytes.
    pub fn new(bytes: [u8; 32]) -> (a: Address)
        ensures
            a@ == bytes@,
            a.bytes == bytes,
    {
        Address { bytes }
    }

    /// The bytes of the address.
    pub fn to_bytes(&self) -> (bytes: [u8; 32])
        ensures
            bytes == self.bytes,
    {
        self.bytes
    }

    /// Whether two addresses hold the same bytes.
    pub fn same(&self, other: &Address) -> (b: bool)
        ensures
            b == (self@ == other@),
    {
        let mut i: usize = 0;
        while i < 32
            invariant
                i <= 32,
                forall|j: int| 0 <= j < i ==> self.bytes[j] == other.bytes[j],
            decreases 32 - i,
        {
            if self.bytes[i] != other.bytes[i] {
                return false;
            }
            i += 1;
        }
        assert(self@ =~= other@);
        true
    }
}

impl PartialEq for Address {
    fn eq(&self, other: &Address) -> (b: bool) {
        self.same(other)
    }
}

impl PartialEqSpecImpl for Address {
    open spec fn obeys_eq_spec() -> bool {
        true
    }

    open spec fn eq_spec(&self, other: &Address) -> bool {
        self@ == other@
    }
}

impl Eq for Address {

}

/// What `Pubkey::try_find_program_address` yields for a list of seeds and a
/// program id: the bytes of the derived address and the bump seed that gave
/// it, or nothing where no address can be derived from these seeds.
pub uninterp spec fn program_address(seeds: Seq<Seq<u8>>, program_id: Seq<u8>) -> Option<(Seq<u8>, u8)>;

/// The bytes of each seed of a list.
pub open spec fn seeds_view(seeds: Seq<&[u8]>) -> Seq<Seq<u8>> {
    Seq::new(seeds.len(), |i: int| seeds[i]@)
}

/// The bytes of what the derivation found.
pub open spec fn found_view(found: Option<([u8; 32], u8)>) -> Option<(Seq<u8>, u8)> {
    match found {
        Some(pair) => Some((pair.0@, pair.1)),
        None => None,
    }
}

/// Calls `Pubkey::try_find_program_address` of the `solana-program` crate,
/// which `anchor-lang` hands on. The call hashes the seeds, a bump seed and
/// the program id, and tries the bump seeds from 255 downwards until the hash
/// is no point of the curve. The contract claims only that the outcome is a
/// function of the seeds and the program id; it claims nothing about which
/// address comes out.
#[verifier::external_body]
fn find_program_address(seeds: &Vec<&[u8]>, program_id: &[u8; 32]) -> (found: Option<([u8; 32], u8)>)
    ensures
        found_view(found) == program_address(seeds_view(seeds@), program_id@),
{
    let key = Pubkey::new_from_array(*program_id);
    match Pubkey::try_find_program_address(seeds.as_slice(), &key) {
        Some((address, bump)) => Some((address.to_bytes(), bump)),
        None => None,
    }
}

/// The namespace tag of event records: the bytes of `event`.
pub open spec fn event_tag() -> Seq<u8> {
    seq![101u8, 118u8, 101u8, 110u8, 116u8]
}

/// The namespace tag of claim records: the bytes of `claim`.
pub open spec fn claim_tag() -> Seq<u8> {
    seq![99u8, 108u8, 97u8, 105u8, 109u8]
}

/// The address of the event with this identifier in the registry of
/// `program`, if one can be derived.
pub open spec fn spec_event_address(program: Seq<u8>, event_id: Seq<char>) -> Option<Seq<u8>> {
    match program_address(seq![event_tag(), encode_utf8(event_id)], program) {
        Some(pair) => Some(pair.0),
        None => None,
    }
}

/// The address of the claim of `attendee` on the event with this identifier
/// in the registry of `program`, if one can be derived.
pub open spec fn spec_claim_address(program: Seq<u8>, event_id: Seq<char>, attendee: Seq<u8>) -> Option<Seq<u8>> {
    match program_address(seq![claim_tag(), encode_utf8(event_id), attendee], program) {
        Some(pair) => Some(pair.0),
        None => None,
    }
}

/// The view of an address that may be missing.
pub open spec fn address_view(address: Option<Address>) -> Option<Seq<u8>> {
    match address {
        Some(a) => Some(a@),
        None => None,
    }
}

/// Derives the address of the event with this identifier in the registry of
/// `program`.
pub fn event_address(program: &Address, event_id: &str) -> (address: Option<Address>)
    ensures
        address_view(address) == spec_event_address(program@, event_id@),
{
    let tag: [u8; 5] = [101, 118, 101, 110, 116];
    let mut seeds: Vec<&[u8]> = Vec::new();
    seeds.push(tag.as_slice());
    seeds.push(event_id.as_bytes());
    assert(seeds_view(seeds@) =~= seq![event_tag(), encode_utf8(event_id@)]);
    match find_program_address(&seeds, &program.bytes) {
        Some(pair) => Some(Address { bytes: pair.0 }),
        None => None,
    }
}

/// Derives the address of the claim of `attendee` on the event with this
/// identifier in the registry of `program`.
pub fn claim_address(program: &Address, event_id: &str, attendee: &Address) -> (address: Option<Address>)
    ensures
        address_view(address) == spec_claim_address(program@, event_id@, attendee@),
{
    let tag: [u8; 5] = [99, 108, 97, 105, 109];
    let mut seeds: Vec<&[u8]> = Vec::new();
    seeds.push(tag.as_slice());
    seeds.push(event_id.as_bytes());
    seeds.push(attendee.bytes.as_slice());
    assert(seeds_view(seeds@) =~= seq![claim_tag(), encode_utf8(event_id@), attendee@]);
    match find_program_address(&seeds, &program.bytes) {
        Some(pair) => Some(Address { bytes: pair.0 }),
        None => None,
    }
}

} // verus!
