//! Account addresses and the derivation of program-controlled addresses.

use anchor_lang::prelude::Pubkey;
use vstd::prelude::*;

verus! {

/// A 32-byte account address.
#[derive(Clone, Copy, Debug, Eq)]
pub struct Address {
    pub bytes: [u8; 32],
}

impl PartialEq for Address {
    fn eq(&self, other: &Address) -> (r: bool) {
        let mut i: usize = 0;
        while i < 32
            invariant
                i <= 32,
                forall|j: int| 0 <= j < i ==> self.bytes[j] == other.bytes[j],
            decreases 32 - i,
        {
            if self.bytes[i] != other.bytes[i] {
                return false;
            }
            i += 1;
        }
        proof {
            assert(self.bytes =~= other.bytes);
        }
        true
    }
}

impl vstd::std_specs::cmp::PartialEqSpecImpl for Address {
    open spec fn obeys_eq_spec() -> bool {
        true
    }

    open spec fn eq_spec(&self, other: &Address) -> bool {
        *self == *other
    }
}

impl View for Address {
    type V = Seq<u8>;

    open spec fn view(&self) -> Seq<u8> {
        self.bytes@
    }
}

impl Address {
    /// The address whose bytes are those of `bytes`, where there are 32.
    pub fn from_slice(bytes: &[u8]) -> (r: Option<Address>)
        ensures
            r == (if bytes@.len() == 32 {
                Some(address_of(bytes@))
            } else {
                None
            }),
    {
        if bytes.len() != 32 {
            return None;
        }
        let mut a = Address { bytes: [0u8; 32] };
        let mut i: usize = 0;
        while i < 32
            invariant
                i <= 32,
                bytes@.len() == 32,
                forall|j: int| 0 <= j < i ==> a.bytes[j] == bytes@[j],
            decreases 32 - i,
        {
            a.bytes[i] = bytes[i];
            i += 1;
        }
        proof {
            assert(a@ =~= bytes@);
            lemma_address_of(a);
        }
        Some(a)
    }

    /// The bytes of the address as a vector.
    pub fn to_vec(&self) -> (r: Vec<u8>)
        ensures
            r@ == self@,
    {
        let mut r: Vec<u8> = Vec::new();
        let mut i: usize = 0;
        while i < 32
            invariant
                i <= 32,
                r@.len() == i,
                forall|j: int| 0 <= j < i ==> r@[j] == self.bytes[j],
            decreases 32 - i,
        {
            r.push(self.bytes[i]);
            i += 1;
        }
        proof {
            assert(r@ =~= self@);
        }
        r
    }
}

/// The address whose bytes are `bytes`.
pub open spec fn address_of(bytes: Seq<u8>) -> Address {
    choose|a: Address| a@ == bytes
}

/// Two addresses are equal exactly when their bytes are.
pub proof fn lemma_address_view(a: Address, b: Address)
    ensures
        (a@ == b@) <==> (a == b),
{
    if a@ == b@ {
        assert forall|i: int| 0 <= i < 32 implies a.bytes[i] == b.bytes[i] by {
            assert(a.bytes[i] == a@[i]);
            assert(b.bytes[i] == b@[i]);
        }
        assert(a.bytes =~= b.bytes);
    }
}

/// `address_of` gives back the address whose bytes it is handed.
pub proof fn lemma_address_of(a: Address)
    ensures
        address_of(a@) == a,
{
    lemma_address_view(address_of(a@), a);
}

/// An array that holds the first `n` of `bytes`.
spec fn array_of(bytes: Seq<u8>, n: nat) -> [u8; 32]
    decreases n,
{
    if n == 0 {
        arbitrary()
    } else {
        vstd::array::spec_array_update(array_of(bytes, (n - 1) as nat), n - 1, bytes[n - 1])
    }
}

proof fn lemma_array_of(bytes: Seq<u8>, n: nat)
    requires
        n <= 32,
        bytes.len() == 32,
    ensures
        forall|i: int| 0 <= i < n ==> array_of(bytes, n)@[i] == bytes[i],
    decreases n,
{
    if n > 0 {
        lemma_array_of(bytes, (n - 1) as nat);
    }
}

/// Every 32 bytes are the bytes of an address.
pub proof fn lemma_address_of_bytes(bytes: Seq<u8>)
    requires
        bytes.len() == 32,
    ensures
        address_of(bytes)@ == bytes,
{
    lemma_array_of(bytes, 32);
    let a = Address { bytes: array_of(bytes, 32) };
    assert(a@ =~= bytes);
}

/// The address that `Pubkey::create_program_address` derives for a program
/// from a list of seeds, or `None` where it reports an error.
pub uninterp spec fn program_address(seeds: Seq<Seq<u8>>, program: Seq<u8>) -> Option<Seq<u8>>;

/// The address and bump seed that `Pubkey::try_find_program_address` finds
/// for a program and a list of seeds, or `None` where it finds none.
pub uninterp spec fn found_program_address(seeds: Seq<Seq<u8>>, program: Seq<u8>) -> Option<
    (Seq<u8>, u8),
>;

/// The views of a list of seeds.
pub open spec fn seeds_view(seeds: Seq<Vec<u8>>) -> Seq<Seq<u8>> {
    seeds.map_values(|s: Vec<u8>| s@)
}

/// Calls `Pubkey::create_program_address`. The result is a function of the
/// seeds and the program alone: it is `program_address` of them, and an
/// error of the outside function is handed on as `None`.
#[verifier::external_body]
pub(crate) fn create_program_address(seeds: &Vec<Vec<u8>>, program: &Address) -> (r: Option<Address>)
    ensures
        program_address(seeds_view(seeds@), program@) == match r {
            Some(a) => Some(a@),
            None => None,
        },
{
    let slices: Vec<&[u8]> = seeds.iter().map(|s| s.as_slice()).collect();
    let program = Pubkey::new_from_array(program.bytes);
    match Pubkey::create_program_address(&slices, &program) {
        Ok(key) => Some(Address { bytes: key.to_bytes() }),
        Err(_) => None,
    }
}

/// Calls `Pubkey::try_find_program_address`. The result is
/// `found_program_address` of the seeds and the program. Where an address is
/// found with a bump seed, `Pubkey::create_program_address` derives the same
/// address from the seeds followed by the bump seed as a last seed of one
/// byte: the search returns the first bump seed for which that call succeeds.
#[verifier::external_body]
pub(crate) fn try_find_program_address(seeds: &Vec<Vec<u8>>, program: &Address) -> (r: Option<
    (Address, u8),
>)
    ensures
        found_program_address(seeds_view(seeds@), program@) == match r {
            Some((a, bump)) => Some((a@, bump)),
            None => None,
        },
        r matches Some((a, bump)) ==> program_address(
            seeds_view(seeds@).push(seq![bump]),
            program@,
        ) == Some(a@),
{
    let slices: Vec<&[u8]> = seeds.iter().map(|s| s.as_slice()).collect();
    let program = Pubkey::new_from_array(program.bytes);
    match Pubkey::try_find_program_address(&slices, &program) {
        Some((key, bump)) => Some((Address { bytes: key.to_bytes() }, bump)),
        None => None,
    }
}

/// The address that a program controls under a list of seeds, as
/// `Pubkey::create_program_address` derives it.
pub open spec fn derived_address(seeds: Seq<Seq<u8>>, program: Address) -> Option<Address> {
    match program_address(seeds, program@) {
        Some(bytes) => Some(address_of(bytes)),
        None => None,
    }
}

/// The address and bump seed that `Pubkey::try_find_program_address` finds
/// for a program and a list of seeds.
pub open spec fn found_address(seeds: Seq<Seq<u8>>, program: Address) -> Option<(Address, u8)> {
    match found_program_address(seeds, program@) {
        Some((bytes, bump)) => Some((address_of(bytes), bump)),
        None => None,
    }
}

/// Derives the address that `program` controls under `seeds`, without a
/// search for a bump seed.
pub fn derive_address(seeds: &Vec<Vec<u8>>, program: &Address) -> (r: Option<Address>)
    ensures
        r == derived_address(seeds_view(seeds@), *program),
{
    let r = create_program_address(seeds, program);
    proof {
        if let Some(a) = r {
            lemma_address_of(a);
        }
    }
    r
}

/// Searches for the bump seed with which `program` controls an address under
/// `seeds`, and gives the address and the bump seed.
pub fn find_address(seeds: &Vec<Vec<u8>>, program: &Address) -> (r: Option<(Address, u8)>)
    ensures
        r == found_address(seeds_view(seeds@), *program),
        r matches Some((a, bump)) ==> derived_address(
            seeds_view(seeds@).push(seq![bump]),
            *program,
        ) == Some(a),
{
    let r = try_find_program_address(seeds, program);
    proof {
        if let Some((a, bump)) = r {
            lemma_address_of(a);
        }
    }
    r
}

} // verus!
