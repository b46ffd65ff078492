//! Feature identifiers: 32-byte keys, written as base-58 text outside.

use vstd::prelude::*;

verus! {

/// Why a text is not the base-58 form of a 32-byte key.
#[derive(Clone, Copy, Debug, PartialEq, Eq, Structural)]
pub enum IdError {
    /// The text does not stand for exactly 32 bytes.
    WrongSize,
    /// The text holds a character outside the base-58 alphabet.
    Invalid,
}

/// What `solana_sdk::pubkey::Pubkey::try_from` makes of a text: the 32 bytes
/// of the key, or the reason for which the text is refused.
pub uninterp spec fn pubkey_from_text(text: Seq<char>) -> Result<Seq<u8>, IdError>;

/// The identifier of a feature.
#[derive(Clone, Copy, Debug)]
pub struct FeatureId {
    pub bytes: [u8; 32],
}

impl View for FeatureId {
    type V = Seq<u8>;

    open spec fn view(&self) -> Seq<u8> {
        self.bytes@
    }
}

/// Calls `solana_sdk::pubkey::Pubkey::try_from` on a text and hands back the
/// key's bytes, or which of the crate's two errors came. The contract only
/// gives that outcome its name, `pubkey_from_text`.
#[verifier::external_body]
fn pubkey_try_from(text: &str) -> (r: Result<[u8; 32], IdError>)
    ensures
        match r {
            Ok(bytes) => pubkey_from_text(text@) == Ok::<Seq<u8>, IdError>(bytes@),
            Err(e) => pubkey_from_text(text@) == Err::<Seq<u8>, IdError>(e),
        },
{
    match solana_sdk::pubkey::Pubkey::try_from(text) {
        Ok(key) => Ok(key.to_bytes()),
        Err(solana_sdk::pubkey::ParsePubkeyError::WrongSize) => Err(IdError::WrongSize),
        Err(solana_sdk::pubkey::ParsePubkeyError::Invalid) => Err(IdError::Invalid),
    }
}

/// The text that the `Display` of `solana_sdk::pubkey::Pubkey` writes for
/// the key with the given bytes.
pub uninterp spec fn pubkey_to_text(bytes: Seq<u8>) -> Seq<char>;

/// Makes a `solana_sdk::pubkey::Pubkey` of the bytes with `new_from_array`
/// and hands back what its `Display` writes, by `to_string`. The contract
/// gives that text its name, `pubkey_to_text`, and claims what the
/// encoding is for: `Pubkey::try_from` reads the text back as the same
/// 32 bytes.
#[verifier::external_body]
fn pubkey_to_string(bytes: &[u8; 32]) -> (r: String)
    ensures
        r@ == pubkey_to_text(bytes@),
        match pubkey_from_text(r@) {
            Ok(read) => read == bytes@,
            Err(_) => false,
        },
{
    solana_sdk::pubkey::Pubkey::new_from_array(*bytes).to_string()
}

impl FeatureId {
    /// The base-58 form of an identifier.
    pub open spec fn spec_text(id: Seq<u8>) -> Seq<char> {
        pubkey_to_text(id)
    }

    /// Writes the base-58 form of the identifier. Parsing it gives the
    /// identifier back.
    pub fn text(&self) -> (r: String)
        ensures
            r@ == Self::spec_text(self@),
            Self::spec_parse(r@) == Ok::<Seq<u8>, IdError>(self@),
    {
        pubkey_to_string(&self.bytes)
    }

    /// What a text decodes to, as an identifier's view.
    pub open spec fn spec_parse(text: Seq<char>) -> Result<Seq<u8>, IdError> {
        pubkey_from_text(text)
    }

    /// Decodes the base-58 form of an identifier.
    pub fn parse(text: &str) -> (r: Result<FeatureId, IdError>)
        ensures
            match r {
                Ok(id) => Self::spec_parse(text@) == Ok::<Seq<u8>, IdError>(id@),
                Err(e) => Self::spec_parse(text@) == Err::<Seq<u8>, IdError>(e),
            },
    {
        match pubkey_try_from(text) {
            Ok(bytes) => Ok(FeatureId { bytes }),
            Err(e) => Err(e),
        }
    }

    /// Whether two identifiers hold the same bytes.
    pub fn same(&self, other: &FeatureId) -> (r: bool)
        ensures
            r == (self@ == other@),
    {
        let mut i: usize = 0;
        while i < 32
            invariant
                i <= 32,
                forall|j: int| 0 <= j < i ==> self.bytes@[j] == other.bytes@[j],
            decreases 32 - i,
        {
            if self.bytes[i] != other.bytes[i] {
                return false;
            }
            i += 1;
        }
        assert(self.bytes@ =~= other.bytes@);
        true
    }
}

} // verus!
