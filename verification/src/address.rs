//! Account addresses, held as their 32 bytes.

use vstd::prelude::*;

verus! {

/// A 32-byte account address.
#[derive(Clone, Copy, Debug, PartialEq, Eq)]
pub struct Address(pub [u8; 32]);

impl View for Address {
    type V = Seq<u8>;

    open spec fn view(&self) -> Seq<u8> {
        self.0@
    }
}

/// True when every byte is zero.
pub open spec fn is_zero(s: Seq<u8>) -> bool {
    forall|i: int| 0 <= i < s.len() ==> s[i] == 0
}

impl Address {
    /// The address with the given bytes.
    pub fn new_from_array(bytes: [u8; 32]) -> (a: Address)
        ensures
            a@ == bytes@,
    {
        Address(bytes)
    }

    /// The bytes of the address.
    pub fn to_bytes(&self) -> (b: [u8; 32])
        ensures
            b@ == self@,
    {
        self.0
    }
}

/// An optional address that takes no extra space: the all-zero address
/// stands for "none".
#[derive(Clone, Copy, Debug, PartialEq, Eq)]
pub struct MaybeNullAddress(Address);

impl View for MaybeNullAddress {
    type V = Seq<u8>;

    closed spec fn view(&self) -> Seq<u8> {
        self.0@
    }
}

/// An optional address always holds 32 bytes.
pub broadcast proof fn lemma_maybe_null_address_len(m: MaybeNullAddress)
    ensures
        #[trigger] m@.len() == 32,
{
}

impl MaybeNullAddress {
    /// Wraps an address; the all-zero address wraps to "none".
    pub fn new(address: Address) -> (m: MaybeNullAddress)
        ensures
            m@ == address@,
    {
        MaybeNullAddress(address)
    }

    /// The address held, whether or not it is the null address.
    pub fn address(&self) -> (a: Address)
        ensures
            a@ == self@,
    {
        self.0
    }

    /// The address, or `None` when it is the all-zero address.
    pub fn get(self) -> (r: Option<Address>)
        ensures
            r is None <==> is_zero(self@),
            r matches Some(a) ==> a@ == self@,
    {
        let bytes = self.0.to_bytes();
        let mut i: usize = 0;
        while i < 32
            invariant
                i <= 32,
                bytes@ == self@,
                forall|j: int| 0 <= j < i ==> bytes@[j] == 0,
            decreases 32 - i,
        {
            if bytes[i] != 0 {
                return Some(self.0);
            }
            i = i + 1;
        }
        None
    }
}

impl Default for MaybeNullAddress {
    /// The "none" value: the all-zero address.
    fn default() -> (m: MaybeNullAddress)
        ensures
            m@.len() == 32,
            is_zero(m@),
    {
        MaybeNullAddress(Address([0u8; 32]))
    }
}

} // verus!
