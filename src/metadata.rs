use vstd::prelude::*;

verus! {

/// The standard name that a fungible token's metadata must carry.
pub const FT_METADATA_SPEC: &'static str = "ft-1.0.0";

/// The length in bytes of a reference hash.
pub const REFERENCE_HASH_LEN: usize = 32;

/// The metadata that a fungible-token account reports about itself.
#[derive(Clone, Debug)]
pub struct MetadataRecord {
    pub spec: String,
    pub name: String,
    pub symbol: String,
    pub icon: Option<String>,
    pub reference: Option<String>,
    pub reference_hash: Option<Vec<u8>>,
    pub decimals: u8,
}

impl MetadataRecord {
    /// The record names the expected standard, has a reference exactly when it
    /// has a reference hash, and its hash, if any, is 32 bytes long.
    pub open spec fn valid(&self) -> bool {
        &&& self.spec@ == FT_METADATA_SPEC@
        &&& self.reference.is_some() == self.reference_hash.is_some()
        &&& (self.reference_hash matches Some(h) ==> h@.len() == REFERENCE_HASH_LEN)
    }

    /// Whether the record passes validation.
    pub fn is_valid(&self) -> (r: bool)
        ensures
            r == self.valid(),
    {
        if self.spec != FT_METADATA_SPEC.to_owned() {
            return false;
        }
        if self.reference.is_some() != self.reference_hash.is_some() {
            return false;
        }
        match &self.reference_hash {
            Some(h) => h.len() == REFERENCE_HASH_LEN,
            None => true,
        }
    }
}

} // verus!
