use vstd::prelude::*;
use anchor_lang::prelude::Pubkey;
use vstd::slice::slice_to_vec;
use vstd::utf8::encode_utf8;

verus! {

/// Largest number of bytes in one seed of a derived address.
pub const MAX_SEED_LEN: usize = 32;

/// A 32-byte account identity.
#[derive(Clone, Copy, Debug)]
pub struct Address {
    pub bytes: [u8; 32],
}

impl View for Address {
    type V = Seq<u8>;

    open spec fn view(&self) -> Seq<u8> {
        self.bytes@
    }
}

impl Address {
    pub fn new(bytes: [u8; 32]) -> (r: Address)
        ensures
            r@ == bytes@,
    {
        Address { bytes }
    }

    /// Byte-wise equality of two identities.
    pub fn same_as(&self, other: &Address) -> (r: bool)
        ensures
            r == (self@ == other@),
    {
        let mut i: usize = 0;
        while i < 32
            invariant
                i <= 32,
                self@.len() == 32,
                other@.len() == 32,
                forall|j: int| 0 <= j < i ==> self@[j] == other@[j],
            decreases 32 - i,
        {
            if self.bytes[i] != other.bytes[i] {
                return false;
            }
            i = i + 1;
        }
        assert(self@ =~= other@);
        true
    }
}

/// The address and bump seed that the runtime derives from `seeds` for the
/// program `program_id`, or `None` where no derivation exists.
pub uninterp spec fn program_address(seeds: Seq<Seq<u8>>, program_id: Seq<u8>) -> Option<(Seq<u8>, u8)>;

/// Seeds that the runtime rejects: too many of them once the bump seed is
/// appended, or one that is too long.
pub open spec fn seeds_out_of_bounds(seeds: Seq<Seq<u8>>) -> bool {
    seeds.len() >= 16 || exists|i: int| 0 <= i < seeds.len() && seeds[i].len() > MAX_SEED_LEN
}

/// Relies on `Pubkey::try_find_program_address` (anchor_lang, from
/// solana_program): a function of the seeds and the program id alone, which
/// yields `None` when the seeds with the bump seed appended are more than
/// sixteen or when one seed is longer than thirty-two bytes.
#[verifier::external_body]
pub(crate) fn find_program_address(seeds: &Vec<Vec<u8>>, program_id: &Address) -> (r: Option<(Address, u8)>)
    ensures
        match r {
            Some((a, bump)) => program_address(seeds.deep_view(), program_id@) == Some((a@, bump)),
            None => program_address(seeds.deep_view(), program_id@) is None,
        },
        seeds_out_of_bounds(seeds.deep_view()) ==> r is None,
{
    let slices: Vec<&[u8]> = seeds.iter().map(|s| s.as_slice()).collect();
    let id = Pubkey::new_from_array(program_id.bytes);
    Pubkey::try_find_program_address(&slices, &id).map(|(k, bump)| (Address { bytes: k.to_bytes() }, bump))
}

/// ASCII `treasury`.
pub open spec fn treasury_tag() -> Seq<u8> {
    seq![116u8, 114, 101, 97, 115, 117, 114, 121]
}

/// ASCII `subscription`.
pub open spec fn subscription_tag() -> Seq<u8> {
    seq![115u8, 117, 98, 115, 99, 114, 105, 112, 116, 105, 111, 110]
}

/// ASCII `signal`.
pub open spec fn signal_tag() -> Seq<u8> {
    seq![115u8, 105, 103, 110, 97, 108]
}

/// Seeds of the treasury singleton: its tag alone.
pub open spec fn treasury_seeds() -> Seq<Seq<u8>> {
    seq![treasury_tag()]
}

/// Seeds of the subscription of `subscriber`.
pub open spec fn subscription_seeds(subscriber: Seq<u8>) -> Seq<Seq<u8>> {
    seq![subscription_tag(), subscriber]
}

/// Seeds of the signal record of `signal_id`.
pub open spec fn signal_seeds(signal_id: Seq<u8>) -> Seq<Seq<u8>> {
    seq![signal_tag(), signal_id]
}

/// Derives the address of the treasury singleton.
pub fn derive_treasury(program_id: &Address) -> (r: Option<(Address, u8)>)
    ensures
        match r {
            Some((a, bump)) => program_address(treasury_seeds(), program_id@) == Some((a@, bump)),
            None => program_address(treasury_seeds(), program_id@) is None,
        },
{
    let seeds: Vec<Vec<u8>> = vec![vec![116u8, 114, 101, 97, 115, 117, 114, 121]];
    assert(seeds.deep_view()[0] =~= treasury_tag());
    assert(seeds.deep_view() =~= treasury_seeds());
    find_program_address(&seeds, program_id)
}

/// Derives the address of the subscription of `subscriber`.
pub fn derive_subscription(subscriber: &Address, program_id: &Address) -> (r: Option<(Address, u8)>)
    ensures
        match r {
            Some((a, bump)) => program_address(subscription_seeds(subscriber@), program_id@) == Some((a@, bump)),
            None => program_address(subscription_seeds(subscriber@), program_id@) is None,
        },
{
    let tag: Vec<u8> = vec![115u8, 117, 98, 115, 99, 114, 105, 112, 116, 105, 111, 110];
    let key: Vec<u8> = slice_to_vec(subscriber.bytes.as_slice());
    let seeds: Vec<Vec<u8>> = vec![tag, key];
    assert(seeds.deep_view()[0] =~= subscription_tag());
    assert(seeds.deep_view()[1] =~= subscriber@);
    assert(seeds.deep_view() =~= subscription_seeds(subscriber@));
    find_program_address(&seeds, program_id)
}

/// Derives the address of the signal record of `signal_id`; `None` as well
/// when the identifier is longer than a seed may be.
pub fn derive_signal(signal_id: &String, program_id: &Address) -> (r: Option<(Address, u8)>)
    ensures
        match r {
            Some((a, bump)) => program_address(signal_seeds(encode_utf8(signal_id@)), program_id@) == Some((a@, bump)),
            None => program_address(signal_seeds(encode_utf8(signal_id@)), program_id@) is None,
        },
{
    let tag: Vec<u8> = vec![115u8, 105, 103, 110, 97, 108];
    let key: Vec<u8> = slice_to_vec(signal_id.as_str().as_bytes());
    let seeds: Vec<Vec<u8>> = vec![tag, key];
    assert(seeds.deep_view()[0] =~= signal_tag());
    assert(seeds.deep_view()[1] =~= encode_utf8(signal_id@));
    assert(seeds.deep_view() =~= signal_seeds(encode_utf8(signal_id@)));
    find_program_address(&seeds, program_id)
}

} // verus!
