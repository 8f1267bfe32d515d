use vstd::prelude::*;

verus! {

/// The length in bytes of an account identity (a public key).
pub const PUBKEY_LEN: usize = 32;

/// The identity of an account: an opaque 32-byte public key. The program
/// never interprets the bytes; it only compares identities for equality.
#[derive(Clone, Debug, PartialEq, Eq)]
pub struct Pubkey {
    pub bytes: Vec<u8>,
}

impl View for Pubkey {
    type V = Seq<u8>;

    open spec fn view(&self) -> Seq<u8> {
        self.bytes@
    }
}

impl Pubkey {
    /// A well-formed identity is exactly `PUBKEY_LEN` bytes long.
    pub open spec fn wf(&self) -> bool {
        self@.len() == PUBKEY_LEN
    }

    /// Builds an identity from raw bytes; rejects any length but `PUBKEY_LEN`.
    pub fn from_bytes(bytes: Vec<u8>) -> (r: Option<Pubkey>)
        ensures
            match r {
                Some(k) => k.wf() && k@ == bytes@,
                None => bytes@.len() != PUBKEY_LEN,
            },
    {
        if bytes.len() == PUBKEY_LEN {
            Some(Pubkey { bytes })
        } else {
            None
        }
    }
}

/// Byte-for-byte equality of two byte vectors.
pub fn bytes_eq(a: &Vec<u8>, b: &Vec<u8>) -> (r: bool)
    ensures
        r == (a@ == b@),
{
    if a.len() != b.len() {
        return false;
    }
    let n = a.len();
    let mut i: usize = 0;
    while i < n
        invariant
            n == a@.len(),
            a@.len() == b@.len(),
            i <= n,
            forall|j: int| 0 <= j < i ==> a@[j] == b@[j],
        decreases n - i,
    {
        if a[i] != b[i] {
            return false;
        }
        i += 1;
    }
    proof {
        assert(a@ =~= b@);
    }
    true
}

/// Equality of two account identities.
pub fn key_eq(a: &Pubkey, b: &Pubkey) -> (r: bool)
    ensures
        r == (a@ == b@),
{
    bytes_eq(&a.bytes, &b.bytes)
}

/// The mathematical model of an account: what one invocation can observe
/// of a caller-supplied storage slot.
#[verifier::ext_equal]
pub ghost struct AccountModel {
    /// The account's identity.
    pub key: Seq<u8>,
    /// Whether this account cryptographically co-authorized the invocation.
    pub is_signer: bool,
    /// The identity of the program that owns the account's data.
    pub owner: Seq<u8>,
    /// The account's balance, in the host's native unit of value.
    pub lamports: u64,
    /// The account's raw data region.
    pub data: Seq<u8>,
}

/// An account as the host supplies it for one invocation: an explicit value,
/// never ambient state. The host guarantees exclusive access to every
/// writable account for the duration of the invocation, so a call is a pure
/// function of its account snapshot.
#[derive(Clone, Debug)]
pub struct AccountContext {
    pub key: Pubkey,
    pub is_signer: bool,
    pub owner: Pubkey,
    pub lamports: u64,
    pub data: Vec<u8>,
}

impl View for AccountContext {
    type V = AccountModel;

    open spec fn view(&self) -> AccountModel {
        AccountModel {
            key: self.key@,
            is_signer: self.is_signer,
            owner: self.owner@,
            lamports: self.lamports,
            data: self.data@,
        }
    }
}

impl AccountContext {
    /// A well-formed account carries well-formed identities.
    pub open spec fn wf(&self) -> bool {
        self.key.wf() && self.owner.wf()
    }
}

} // verus!
