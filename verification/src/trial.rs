use vstd::prelude::*;

use solana_sdk::signer::keypair::Keypair;
use solana_sdk::signer::Signer;

verus! {

/// A byte of the Bitcoin base58 alphabet
/// (`1`-`9`, `A`-`Z` without `I` and `O`, `a`-`z` without `l`).
pub open spec fn is_base58_byte(b: u8) -> bool {
    &&& (0x31 <= b <= 0x39) || (0x41 <= b <= 0x5a) || (0x61 <= b <= 0x7a)
    &&& b != 0x49
    &&& b != 0x4f
    &&& b != 0x6c
}

pub open spec fn all_base58(s: Seq<u8>) -> bool {
    forall|i: int| 0 <= i < s.len() ==> is_base58_byte(s[i])
}

/// The textual address that a 64-byte keypair encoding derives: the base58
/// rendering of its public half. A function of the bytes alone.
pub uninterp spec fn address_of(secret: Seq<u8>) -> Seq<u8>;

/// The base58 rendering (Bitcoin alphabet) of a byte string. A function of
/// the bytes alone.
pub uninterp spec fn base58_of(bytes: Seq<u8>) -> Seq<u8>;

/// One trial of the generator: a fresh keypair held as its stable 64-byte
/// encoding, together with the textual address it derives.
pub struct TrialKey {
    /// The keypair's 64-byte encoding: secret half then public half.
    pub secret: Vec<u8>,
    /// The derived address: base58 text of the public half.
    pub address: Vec<u8>,
}

impl TrialKey {
    /// The address is exactly what the secret derives, and is base58 text.
    pub open spec fn wf(self) -> bool {
        &&& self.secret@.len() == 64
        &&& self.address@ == address_of(self.secret@)
        &&& all_base58(self.address@)
        &&& self.address@.len() >= 1
    }
}

/// Relies on `solana_sdk`'s `Keypair::new` (a fresh random ed25519 keypair),
/// `Keypair::to_bytes` (its 64-byte encoding: 32 secret-key bytes then the 32
/// public-key bytes), and `Signer::pubkey` with the address's `Display` (the
/// base58 text of those same 32 public-key bytes). The address is therefore a
/// function of the 64 bytes alone, nonempty, and drawn from the base58
/// alphabet; nothing is promised about which keypair comes back.
#[verifier::external_body]
pub fn generate_trial() -> (t: TrialKey)
    ensures
        t.secret@.len() == 64,
        t.address@ == address_of(t.secret@),
        all_base58(t.address@),
        t.address@.len() >= 1,
{
    let keypair = Keypair::new();
    let address = keypair.pubkey().to_string().into_bytes();
    TrialKey { secret: keypair.to_bytes().to_vec(), address }
}

/// Relies on `bs58::encode(..).into_vec()`: the base58 text (Bitcoin
/// alphabet, the default) of the input bytes, a function of the input alone;
/// empty input encodes to the empty string.
#[verifier::external_body]
pub fn bs58_encode(bytes: &Vec<u8>) -> (r: Vec<u8>)
    ensures
        r@ == base58_of(bytes@),
        all_base58(r@),
        bytes@.len() == 0 ==> r@.len() == 0,
{
    bs58::encode(bytes.as_slice()).into_vec()
}

} // verus!
