//! Account and contract addresses, and the zero-address sentinel.

use vstd::prelude::*;

verus! {

/// Strkey of the well-known Stellar "null" account: an ed25519 public key
/// whose 32-byte payload is all zeros. No private key can ever sign for it,
/// so it must never hold a role.
pub const ZERO_ADDRESS_STRKEY: &'static str = "GAAAAAAAAAAAAAAAAAAAAAAAAAAAAAAAAAAAAAAAAAAAAAAAAAAAAWHF";

/// A Stellar address (account `G...` or contract `C...`), held by its strkey.
pub struct Address {
    strkey: String,
}

impl View for Address {
    type V = Seq<char>;

    open spec fn view(&self) -> Seq<char> {
        self.spec_strkey()
    }
}

/// The strkey of the zero-address sentinel, as a sequence of characters.
pub open spec fn zero_address_view() -> Seq<char> {
    ZERO_ADDRESS_STRKEY@
}

impl Address {
    /// The strkey that identifies this address.
    pub closed spec fn spec_strkey(&self) -> Seq<char> {
        self.strkey@
    }

    /// Wraps a strkey as an address.
    pub fn new(strkey: String) -> (r: Address)
        ensures
            r@ == strkey@,
    {
        Address { strkey }
    }

    /// Returns the strkey of this address.
    pub fn strkey(&self) -> (r: &String)
        ensures
            r@ == self@,
    {
        &self.strkey
    }

    /// Whether two addresses are the same address.
    pub fn same(&self, other: &Address) -> (r: bool)
        ensures
            r == (self@ == other@),
    {
        self.strkey == other.strkey
    }

    /// Returns a copy of this address.
    pub fn duplicate(&self) -> (r: Address)
        ensures
            r@ == self@,
    {
        Address { strkey: self.strkey.clone() }
    }

    /// The zero-address sentinel.
    pub fn zero() -> (r: Address)
        ensures
            r@ == zero_address_view(),
    {
        Address { strkey: ZERO_ADDRESS_STRKEY.to_owned() }
    }
}

/// The strkeys of a list of addresses.
pub open spec fn addr_seq(addresses: Seq<Address>) -> Seq<Seq<char>> {
    addresses.map_values(|a: Address| a@)
}

/// Returns `true` if `address` is the canonical zero-address sentinel.
pub fn is_zero_address(address: &Address) -> (r: bool)
    ensures
        r == (address@ == zero_address_view()),
{
    let zero = Address::zero();
    address.same(&zero)
}

/// Whether `addresses` holds `address`.
pub fn contains_address(addresses: &Vec<Address>, address: &Address) -> (r: bool)
    ensures
        r == addr_seq(addresses@).contains(address@),
{
    let mut i: usize = 0;
    while i < addresses.len()
        invariant
            i <= addresses.len(),
            forall|j: int| 0 <= j < i ==> addresses@[j]@ != address@,
        decreases addresses.len() - i,
    {
        if addresses[i].same(address) {
            proof {
                assert(addr_seq(addresses@)[i as int] == address@);
            }
            return true;
        }
        i = i + 1;
    }
    proof {
        let views = addr_seq(addresses@);
        if views.contains(address@) {
            let k = choose|k: int| 0 <= k < views.len() && #[trigger] views[k] == address@;
            assert(addresses@[k]@ == address@);
        }
    }
    false
}

/// Copies a list of addresses.
pub fn duplicate_addresses(addresses: &Vec<Address>) -> (r: Vec<Address>)
    ensures
        addr_seq(r@) == addr_seq(addresses@),
{
    let mut out: Vec<Address> = Vec::new();
    let mut i: usize = 0;
    while i < addresses.len()
        invariant
            i <= addresses.len(),
            out@.len() == i,
            forall|j: int| 0 <= j < i ==> out@[j]@ == addresses@[j]@,
        decreases addresses.len() - i,
    {
        out.push(addresses[i].duplicate());
        i = i + 1;
    }
    assert(addr_seq(out@) =~= addr_seq(addresses@));
    out
}

} // verus!
