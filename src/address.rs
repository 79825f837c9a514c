use vstd::prelude::*;

verus! {

/// Number of bytes in an address identifier.
pub const IDENTIFIER_LEN: usize = 20;

/// The kind of party an address names.
#[derive(Clone, Copy, Debug, PartialEq, Eq, Structural)]
pub enum AddressType {
    Account,
    SystemContract,
    PublicContract,
    ZkContract,
}

/// A blockchain address: a kind and a 20-byte identifier.
#[derive(Clone, Copy, Debug)]
pub struct Address {
    pub address_type: AddressType,
    pub identifier: [u8; 20],
}

impl Address {
    /// The placeholder address: every identifier byte is zero.
    pub open spec fn is_blank(self) -> bool {
        forall|i: int| 0 <= i < IDENTIFIER_LEN ==> #[trigger] self.identifier@[i] == 0u8
    }

    /// The account address whose identifier is all zeros.
    pub fn blank() -> (r: Address)
        ensures
            r.is_blank(),
            r.address_type == AddressType::Account,
    {
        let r = Address { address_type: AddressType::Account, identifier: [0u8; 20] };
        assert(r.identifier@.len() == IDENTIFIER_LEN);
        r
    }

    /// Whether every byte of the identifier is zero.
    pub fn is_placeholder(&self) -> (r: bool)
        ensures
            r == self.is_blank(),
    {
        let mut i: usize = 0;
        while i < IDENTIFIER_LEN
            invariant
                i <= IDENTIFIER_LEN,
                forall|j: int| 0 <= j < i ==> #[trigger] self.identifier@[j] == 0u8,
            decreases IDENTIFIER_LEN - i,
        {
            if self.identifier[i] != 0 {
                return false;
            }
            i = i + 1;
        }
        true
    }
}

impl PartialEq for Address {
    /// Two addresses are equal when both their kind and their bytes agree.
    fn eq(&self, other: &Address) -> (r: bool) {
        if self.address_type != other.address_type {
            return false;
        }
        let mut i: usize = 0;
        while i < IDENTIFIER_LEN
            invariant
                i <= IDENTIFIER_LEN,
                forall|j: int| 0 <= j < i ==> #[trigger] self.identifier@[j] == other.identifier@[j],
            decreases IDENTIFIER_LEN - i,
        {
            if self.identifier[i] != other.identifier[i] {
                return false;
            }
            i = i + 1;
        }
        assert(self.identifier =~= other.identifier);
        true
    }
}

impl vstd::std_specs::cmp::PartialEqSpecImpl for Address {
    open spec fn obeys_eq_spec() -> bool {
        true
    }

    open spec fn eq_spec(&self, other: &Address) -> bool {
        *self == *other
    }
}

impl Eq for Address {
}

} // verus!
