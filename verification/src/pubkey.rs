use vstd::prelude::*;

verus! {

/// A 32-byte account address.
#[derive(Clone, Copy, Debug)]
pub struct Pubkey {
    pub bytes: [u8; 32],
}

/// The 32 zero bytes of the default address.
pub open spec fn zero_bytes() -> Seq<u8> {
    Seq::new(32, |i: int| 0u8)
}

impl Pubkey {
    /// Builds an address from its 32 bytes.
    pub fn new_from_array(bytes: [u8; 32]) -> (r: Pubkey)
        ensures
            r.bytes@ == bytes@,
    {
        Pubkey { bytes }
    }

    /// The all-zero address, the "unset" value.
    pub fn default_key() -> (r: Pubkey)
        ensures
            r.bytes@ == zero_bytes(),
    {
        let r = Pubkey { bytes: [0u8; 32] };
        assert(r.bytes@ =~= zero_bytes());
        r
    }

    /// The 32 bytes of the address.
    pub fn to_bytes_vec(&self) -> (r: Vec<u8>)
        ensures
            r@ == self.bytes@,
    {
        let mut r: Vec<u8> = Vec::new();
        let mut i: usize = 0;
        while i < 32
            invariant
                i <= 32,
                r@ == self.bytes@.take(i as int),
            decreases 32 - i,
        {
            r.push(self.bytes[i]);
            assert(r@ =~= self.bytes@.take(i + 1));
            i += 1;
        }
        assert(self.bytes@.take(32) =~= self.bytes@);
        r
    }

    /// Whether this address is the all-zero default address.
    pub fn is_default(&self) -> (r: bool)
        ensures
            r == (self.bytes@ == zero_bytes()),
    {
        let mut i: usize = 0;
        while i < 32
            invariant
                i <= 32,
                forall|j: int| 0 <= j < i ==> self.bytes@[j] == 0u8,
            decreases 32 - i,
        {
            if self.bytes[i] != 0 {
                return false;
            }
            i += 1;
        }
        assert(self.bytes@ =~= zero_bytes());
        true
    }
}

impl PartialEq for Pubkey {
    fn eq(&self, other: &Self) -> (r: bool) {
        let mut i: usize = 0;
        while i < 32
            invariant
                i <= 32,
                forall|j: int| 0 <= j < i ==> self.bytes@[j] == other.bytes@[j],
            decreases 32 - i,
        {
            if self.bytes[i] != other.bytes[i] {
                return false;
            }
            i += 1;
        }
        assert(self.bytes@ =~= other.bytes@);
        true
    }
}

impl vstd::std_specs::cmp::PartialEqSpecImpl for Pubkey {
    open spec fn obeys_eq_spec() -> bool {
        true
    }

    open spec fn eq_spec(&self, other: &Self) -> bool {
        self.bytes@ == other.bytes@
    }
}

impl Eq for Pubkey {}

} // verus!
