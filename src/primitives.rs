//! Plain values shared by the whole node: hashes, addresses, account kinds and networks.

use vstd::prelude::*;

verus! {

/// Byte-wise equality of two byte strings.
pub fn bytes_equal(a: &[u8], b: &[u8]) -> (r: bool)
    ensures
        r == (a@ == b@),
{
    if a.len() != b.len() {
        return false;
    }
    let mut i: usize = 0;
    while i < a.len()
        invariant
            a@.len() == b@.len(),
            0 <= i <= a@.len(),
            forall|j: int| 0 <= j < i ==> a@[j] == b@[j],
        decreases a@.len() - i,
    {
        if a[i] != b[i] {
            return false;
        }
        i += 1;
    }
    assert(a@ =~= b@);
    true
}

/// A 20-byte account address.
#[derive(Clone, Copy, Debug)]
pub struct Address(pub [u8; 20]);

impl View for Address {
    type V = Seq<u8>;

    open spec fn view(&self) -> Seq<u8> {
        self.0@
    }
}

impl PartialEq for Address {
    fn eq(&self, other: &Address) -> (r: bool) {
        bytes_equal(&self.0, &other.0)
    }
}

impl vstd::std_specs::cmp::PartialEqSpecImpl for Address {
    open spec fn obeys_eq_spec() -> bool {
        true
    }

    open spec fn eq_spec(&self, other: &Address) -> bool {
        self@ == other@
    }
}

/// A 32-byte BLAKE2b-256 digest.
#[derive(Clone, Copy, Debug)]
pub struct Blake2bHash(pub [u8; 32]);

impl View for Blake2bHash {
    type V = Seq<u8>;

    open spec fn view(&self) -> Seq<u8> {
        self.0@
    }
}

impl PartialEq for Blake2bHash {
    fn eq(&self, other: &Blake2bHash) -> (r: bool) {
        bytes_equal(&self.0, &other.0)
    }
}

impl vstd::std_specs::cmp::PartialEqSpecImpl for Blake2bHash {
    open spec fn obeys_eq_spec() -> bool {
        true
    }

    open spec fn eq_spec(&self, other: &Blake2bHash) -> bool {
        self@ == other@
    }
}

/// The BLAKE2b-256 digest of a byte string.
pub uninterp spec fn blake2b_of(data: Seq<u8>) -> Seq<u8>;

/// Relies on `blake2b_simd::Params::hash` with a digest length of 32 bytes: the BLAKE2b-256
/// digest of `data`, which depends on `data` alone.
#[verifier::external_body]
pub(crate) fn blake2b(data: &[u8]) -> (r: Blake2bHash)
    ensures
        r@ == blake2b_of(data@),
{
    let digest = blake2b_simd::Params::new().hash_length(32).hash(data);
    let mut out = [0u8; 32];
    out.copy_from_slice(digest.as_bytes());
    Blake2bHash(out)
}

impl Address {
    /// The address that a digest stands for: its first 20 bytes.
    pub open spec fn of_digest(digest: Seq<u8>) -> Seq<u8> {
        digest.subrange(0, 20)
    }

    /// The address made of the first 20 bytes of a digest.
    pub fn from_hash(hash: &Blake2bHash) -> (r: Address)
        ensures
            r@ == Self::of_digest(hash@),
    {
        let mut out = [0u8; 20];
        let mut i: usize = 0;
        while i < 20
            invariant
                0 <= i <= 20,
                out@.len() == 20,
                hash@.len() == 32,
                forall|j: int| 0 <= j < i ==> out@[j] == hash@[j],
            decreases 20 - i,
        {
            out[i] = hash.0[i];
            i += 1;
        }
        assert(out@ =~= hash@.subrange(0, 20));
        Address(out)
    }

    /// The all-zero address.
    pub fn zero() -> (r: Address)
        ensures
            r@ == Seq::new(20, |_i: int| 0u8),
    {
        let r = Address([0u8; 20]);
        assert(r@ =~= Seq::new(20, |_i: int| 0u8));
        r
    }
}

/// The kinds of account.
#[derive(Clone, Copy, Debug, PartialEq, Eq, Structural)]
pub enum AccountType {
    Basic,
    Vesting,
    HTLC,
    Staking,
}

impl AccountType {
    /// The byte that encodes the account kind.
    pub open spec fn code(self) -> u8 {
        match self {
            AccountType::Basic => 0,
            AccountType::Vesting => 1,
            AccountType::HTLC => 2,
            AccountType::Staking => 3,
        }
    }

    /// The account kind a byte encodes, if any.
    pub open spec fn of_code(code: u8) -> Option<AccountType> {
        if code == 0 {
            Some(AccountType::Basic)
        } else if code == 1 {
            Some(AccountType::Vesting)
        } else if code == 2 {
            Some(AccountType::HTLC)
        } else if code == 3 {
            Some(AccountType::Staking)
        } else {
            None
        }
    }

    /// The account kind a byte encodes, if any.
    pub fn from_u8(code: u8) -> (r: Option<AccountType>)
        ensures
            r == Self::of_code(code),
    {
        if code == 0 {
            Some(AccountType::Basic)
        } else if code == 1 {
            Some(AccountType::Vesting)
        } else if code == 2 {
            Some(AccountType::HTLC)
        } else if code == 3 {
            Some(AccountType::Staking)
        } else {
            None
        }
    }

    /// The byte that encodes the account kind.
    pub fn to_u8(&self) -> (r: u8)
        ensures
            r == self.code(),
    {
        match self {
            AccountType::Basic => 0,
            AccountType::Vesting => 1,
            AccountType::HTLC => 2,
            AccountType::Staking => 3,
        }
    }
}

/// The networks a node can take part in.
#[derive(Clone, Copy, Debug, PartialEq, Eq, Structural)]
pub enum NetworkId {
    Test,
    Dev,
    Bounty,
    Dummy,
    Main,
    TestAlbatross,
    DevAlbatross,
    UnitAlbatross,
    MainAlbatross,
}

impl NetworkId {
    /// The byte that encodes the network.
    pub open spec fn code(self) -> u8 {
        match self {
            NetworkId::Test => 1,
            NetworkId::Dev => 2,
            NetworkId::Bounty => 3,
            NetworkId::Dummy => 4,
            NetworkId::TestAlbatross => 5,
            NetworkId::DevAlbatross => 6,
            NetworkId::UnitAlbatross => 7,
            NetworkId::MainAlbatross => 24,
            NetworkId::Main => 42,
        }
    }

    /// Whether the network runs proof-of-stake (Albatross) consensus.
    pub open spec fn spec_is_albatross(self) -> bool {
        match self {
            NetworkId::TestAlbatross
            | NetworkId::DevAlbatross
            | NetworkId::UnitAlbatross
            | NetworkId::MainAlbatross => true,
            _ => false,
        }
    }

    /// The byte that encodes the network.
    pub fn to_u8(&self) -> (r: u8)
        ensures
            r == self.code(),
    {
        match self {
            NetworkId::Test => 1,
            NetworkId::Dev => 2,
            NetworkId::Bounty => 3,
            NetworkId::Dummy => 4,
            NetworkId::TestAlbatross => 5,
            NetworkId::DevAlbatross => 6,
            NetworkId::UnitAlbatross => 7,
            NetworkId::MainAlbatross => 24,
            NetworkId::Main => 42,
        }
    }

    /// The network a byte encodes, if any.
    pub open spec fn of_code(code: u8) -> Option<NetworkId> {
        if code == 1 {
            Some(NetworkId::Test)
        } else if code == 2 {
            Some(NetworkId::Dev)
        } else if code == 3 {
            Some(NetworkId::Bounty)
        } else if code == 4 {
            Some(NetworkId::Dummy)
        } else if code == 5 {
            Some(NetworkId::TestAlbatross)
        } else if code == 6 {
            Some(NetworkId::DevAlbatross)
        } else if code == 7 {
            Some(NetworkId::UnitAlbatross)
        } else if code == 24 {
            Some(NetworkId::MainAlbatross)
        } else if code == 42 {
            Some(NetworkId::Main)
        } else {
            None
        }
    }

    /// The network a byte encodes, if any.
    pub fn from_u8(code: u8) -> (r: Option<NetworkId>)
        ensures
            r == Self::of_code(code),
    {
        if code == 1 {
            Some(NetworkId::Test)
        } else if code == 2 {
            Some(NetworkId::Dev)
        } else if code == 3 {
            Some(NetworkId::Bounty)
        } else if code == 4 {
            Some(NetworkId::Dummy)
        } else if code == 5 {
            Some(NetworkId::TestAlbatross)
        } else if code == 6 {
            Some(NetworkId::DevAlbatross)
        } else if code == 7 {
            Some(NetworkId::UnitAlbatross)
        } else if code == 24 {
            Some(NetworkId::MainAlbatross)
        } else if code == 42 {
            Some(NetworkId::Main)
        } else {
            None
        }
    }

    /// Whether the network runs proof-of-stake (Albatross) consensus.
    pub fn is_albatross(&self) -> (r: bool)
        ensures
            r == self.spec_is_albatross(),
    {
        match self {
            NetworkId::TestAlbatross
            | NetworkId::DevAlbatross
            | NetworkId::UnitAlbatross
            | NetworkId::MainAlbatross => true,
            _ => false,
        }
    }
}

} // verus!
