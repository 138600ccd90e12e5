//! Deterministic record addressing. Every record of the engine lives at an
//! address derived from a namespace tag and key material, together with a
//! disambiguation bump that is persisted so later operations can re-derive
//! and verify the same address.

use vstd::prelude::*;
use vstd::slice::slice_to_vec;

verus! {

/// A 32-byte identifier: an identity (a public key) or the derived address
/// of a record.
#[derive(Clone, Copy, Debug)]
pub struct Address {
    pub bytes: [u8; 32],
}

impl View for Address {
    type V = Seq<u8>;

    open spec fn view(&self) -> Seq<u8> {
        self.bytes@
    }
}

impl Address {
    /// Reads an identifier from raw bytes; rejects material that is not
    /// exactly 32 bytes long.
    pub fn from_bytes(bytes: &Vec<u8>) -> (r: Option<Address>)
        ensures
            match r {
                Some(a) => bytes@.len() == 32 && a@ == bytes@,
                None => bytes@.len() != 32,
            },
    {
        if bytes.len() != 32 {
            return None;
        }
        let mut raw: [u8; 32] = [0u8; 32];
        let mut i: usize = 0;
        while i < 32
            invariant
                i <= 32,
                bytes@.len() == 32,
                forall|j: int| 0 <= j < i ==> raw@[j] == bytes@[j],
            decreases 32 - i,
        {
            raw[i] = bytes[i];
            i += 1;
        }
        let address = Address { bytes: raw };
        proof {
            assert(address@ =~= bytes@);
        }
        Some(address)
    }
}

impl PartialEq for Address {
    fn eq(&self, other: &Address) -> (r: bool) {
        let mut i: usize = 0;
        while i < 32
            invariant
                i <= 32,
                forall|j: int| 0 <= j < i ==> self.bytes@[j] == other.bytes@[j],
            decreases 32 - i,
        {
            if self.bytes[i] != other.bytes[i] {
                return false;
            }
            i += 1;
        }
        proof {
            assert(self.bytes@ =~= other.bytes@);
        }
        true
    }
}

impl vstd::std_specs::cmp::PartialEqSpecImpl for Address {
    open spec fn obeys_eq_spec() -> bool {
        true
    }

    open spec fn eq_spec(&self, other: &Address) -> bool {
        self.bytes@ == other.bytes@
    }
}

/// The namespace tag of a pool's treasury account: the bytes of
/// "vesting_treasury".
pub open spec fn spec_treasury_tag() -> Seq<u8> {
    seq![
        118u8, 101u8, 115u8, 116u8, 105u8, 110u8, 103u8, 95u8,
        116u8, 114u8, 101u8, 97u8, 115u8, 117u8, 114u8, 121u8,
    ]
}

/// The namespace tag of a grant record: the bytes of "employee_vesting".
pub open spec fn spec_grant_tag() -> Seq<u8> {
    seq![
        101u8, 109u8, 112u8, 108u8, 111u8, 121u8, 101u8, 101u8,
        95u8, 118u8, 101u8, 115u8, 116u8, 105u8, 110u8, 103u8,
    ]
}

/// The seed material of a pool record: the company name alone.
pub open spec fn spec_pool_seeds(company_name: Seq<u8>) -> Seq<Seq<u8>> {
    seq![company_name]
}

/// The seed material of a pool's treasury account: the treasury tag and the
/// company name.
pub open spec fn spec_treasury_seeds(company_name: Seq<u8>) -> Seq<Seq<u8>> {
    seq![spec_treasury_tag(), company_name]
}

/// The seed material of a grant record: the grant tag, the beneficiary
/// identity and the owning pool's address, as separate components, so that
/// no two distinct key pairs can run together into the same material.
pub open spec fn spec_grant_seeds(beneficiary: Seq<u8>, pool_address: Seq<u8>) -> Seq<Seq<u8>> {
    seq![spec_grant_tag(), beneficiary, pool_address]
}

/// The address and disambiguation bump that the environment's derivation
/// search yields for a program identity and seed material, or `None` when
/// the search space is exhausted. The result depends on the arguments alone.
pub uninterp spec fn spec_derived(program: Seq<u8>, seeds: Seq<Seq<u8>>) -> Option<(Seq<u8>, u8)>;

/// Relies on `Pubkey::try_find_program_address`: a deterministic,
/// collision-resistant hash-to-address search over the program identity and
/// the seed material, returning the first valid address together with the
/// bump it was found at, or `None` when no bump yields a valid address.
#[verifier::external_body]
pub(crate) fn derive_address(program: &Address, seeds: &Vec<Vec<u8>>) -> (r: Option<(Address, u8)>)
    ensures
        match r {
            Some(ab) => spec_derived(program@, seeds.deep_view()) == Some((ab.0@, ab.1)),
            None => spec_derived(program@, seeds.deep_view()) is None,
        },
{
    let program_id = anchor_lang::prelude::Pubkey::new_from_array(program.bytes);
    let seed_slices: Vec<&[u8]> = seeds.iter().map(|s| s.as_slice()).collect();
    anchor_lang::prelude::Pubkey::try_find_program_address(&seed_slices, &program_id).map(
        |found: (anchor_lang::prelude::Pubkey, u8)| (Address { bytes: found.0.to_bytes() }, found.1),
    )
}

/// Builds the treasury namespace tag, byte for byte.
fn treasury_tag() -> (r: Vec<u8>)
    ensures
        r@ == spec_treasury_tag(),
{
    let mut tag: Vec<u8> = Vec::new();
    tag.push(118u8);
    tag.push(101u8);
    tag.push(115u8);
    tag.push(116u8);
    tag.push(105u8);
    tag.push(110u8);
    tag.push(103u8);
    tag.push(95u8);
    tag.push(116u8);
    tag.push(114u8);
    tag.push(101u8);
    tag.push(97u8);
    tag.push(115u8);
    tag.push(117u8);
    tag.push(114u8);
    tag.push(121u8);
    proof {
        assert(tag@ =~= spec_treasury_tag());
    }
    tag
}

/// Builds the grant namespace tag, byte for byte.
fn grant_tag() -> (r: Vec<u8>)
    ensures
        r@ == spec_grant_tag(),
{
    let mut tag: Vec<u8> = Vec::new();
    tag.push(101u8);
    tag.push(109u8);
    tag.push(112u8);
    tag.push(108u8);
    tag.push(111u8);
    tag.push(121u8);
    tag.push(101u8);
    tag.push(101u8);
    tag.push(95u8);
    tag.push(118u8);
    tag.push(101u8);
    tag.push(115u8);
    tag.push(116u8);
    tag.push(105u8);
    tag.push(110u8);
    tag.push(103u8);
    proof {
        assert(tag@ =~= spec_grant_tag());
    }
    tag
}

/// Copies a byte sequence into seed material of its own.
fn copy_bytes(src: &Vec<u8>) -> (r: Vec<u8>)
    ensures
        r@ == src@,
{
    slice_to_vec(src.as_slice())
}

/// Builds the seed material of a pool record.
pub(crate) fn pool_seeds(company_name: &Vec<u8>) -> (r: Vec<Vec<u8>>)
    ensures
        r.deep_view() == spec_pool_seeds(company_name@),
{
    let mut seeds: Vec<Vec<u8>> = Vec::new();
    seeds.push(copy_bytes(company_name));
    proof {
        assert(seeds.deep_view() =~~= spec_pool_seeds(company_name@));
    }
    seeds
}

/// Builds the seed material of a pool's treasury account.
pub(crate) fn treasury_seeds(company_name: &Vec<u8>) -> (r: Vec<Vec<u8>>)
    ensures
        r.deep_view() == spec_treasury_seeds(company_name@),
{
    let mut seeds: Vec<Vec<u8>> = Vec::new();
    seeds.push(treasury_tag());
    seeds.push(copy_bytes(company_name));
    proof {
        assert(seeds.deep_view() =~~= spec_treasury_seeds(company_name@));
    }
    seeds
}

/// Builds the seed material of a grant record.
pub(crate) fn grant_seeds(beneficiary: &Address, pool_address: &Address) -> (r: Vec<Vec<u8>>)
    ensures
        r.deep_view() == spec_grant_seeds(beneficiary@, pool_address@),
{
    let mut seeds: Vec<Vec<u8>> = Vec::new();
    seeds.push(grant_tag());
    seeds.push(slice_to_vec(beneficiary.bytes.as_slice()));
    seeds.push(slice_to_vec(pool_address.bytes.as_slice()));
    proof {
        assert(seeds.deep_view() =~~= spec_grant_seeds(beneficiary@, pool_address@));
    }
    seeds
}

} // verus!
