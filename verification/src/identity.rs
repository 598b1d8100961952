use vstd::prelude::*;

verus! {

/// The address of a ledger record: a caller, an owner, a subscriber, a winner or a treasury.
#[derive(Clone, Copy, Debug, Hash)]
pub struct Identity {
    pub bytes: [u8; 32],
}

/// The bytes of `anchor_lang::prelude::Pubkey::default()`, the key that stands for "nobody".
/// `Pubkey` is a tuple struct over `[u8; 32]` with a derived `Default`, and `to_bytes` hands
/// that array out, so all 32 bytes are zero. Nothing here proves it.
#[verifier::external_body]
fn default_key_bytes() -> (bytes: [u8; 32])
    ensures
        forall|i: int| 0 <= i < 32 ==> bytes[i] == 0u8,
{
    anchor_lang::prelude::Pubkey::default().to_bytes()
}

/// The bytes of `anchor_lang::system_program::ID`, the address of the program that holds
/// every plain record. The crate declares it as the base-58 text of 32 ones, and each one
/// stands for a zero byte, so all 32 bytes are zero. Nothing here proves it.
#[verifier::external_body]
fn system_program_key_bytes() -> (bytes: [u8; 32])
    ensures
        forall|i: int| 0 <= i < 32 ==> bytes[i] == 0u8,
{
    anchor_lang::system_program::ID.to_bytes()
}

impl Identity {
    /// Whether every byte of this identity is zero.
    pub open spec fn is_zero(self) -> bool {
        forall|i: int| 0 <= i < 32 ==> self.bytes[i] == 0u8
    }

    /// Whether this is the default identity, which names nobody.
    pub open spec fn is_default(self) -> bool {
        self.is_zero()
    }

    /// Whether this is the address of the system program.
    pub open spec fn is_system_program(self) -> bool {
        self.is_zero()
    }

    /// Two identities whose bytes are all zero are the same identity.
    pub proof fn lemma_zero_is_unique(a: Identity, b: Identity)
        requires
            a.is_zero(),
            b.is_zero(),
        ensures
            a == b,
    {
        assert(a.bytes =~= b.bytes);
    }

    /// The identity made of the given 32 bytes.
    pub fn new(bytes: [u8; 32]) -> (id: Identity)
        ensures
            id.bytes == bytes,
    {
        Identity { bytes }
    }

    /// The address of the system program.
    pub fn system_program() -> (id: Identity)
        ensures
            id.is_system_program(),
    {
        Identity { bytes: system_program_key_bytes() }
    }

    /// Tells whether this is the default identity.
    pub fn check_default(&self) -> (r: bool)
        ensures
            r == self.is_default(),
    {
        let nobody = Identity::default();
        proof {
            if self.is_default() {
                Identity::lemma_zero_is_unique(*self, nobody);
            }
        }
        *self == nobody
    }
}

impl Default for Identity {
    fn default() -> (id: Identity)
        ensures
            id.is_default(),
    {
        Identity { bytes: default_key_bytes() }
    }
}

impl PartialEq for Identity {
    fn eq(&self, other: &Identity) -> (r: bool) {
        let mut i: usize = 0;
        while i < 32
            invariant
                i <= 32,
                forall|k: int| 0 <= k < i ==> self.bytes[k] == other.bytes[k],
            decreases 32 - i,
        {
            if self.bytes[i] != other.bytes[i] {
                return false;
            }
            i += 1;
        }
        assert(self.bytes =~= other.bytes);
        true
    }
}

impl Eq for Identity {}

impl vstd::std_specs::cmp::PartialEqSpecImpl for Identity {
    open spec fn obeys_eq_spec() -> bool {
        true
    }

    open spec fn eq_spec(&self, other: &Identity) -> bool {
        *self == *other
    }
}

} // verus!
