//! A registry of fungible-token accounts. An account joins the registry only
//! after two remote queries about it (its balance for the requester and its
//! token metadata) have both answered and the metadata has passed validation.
//!
//! The remote calls themselves are made by the host; the library decides which
//! calls to make, judges what they returned, and keeps the registry.

pub mod laws;
pub mod metadata;
mod storage;
pub mod token_list;

pub use metadata::{MetadataRecord, FT_METADATA_SPEC, REFERENCE_HASH_LEN};
pub use token_list::{AddTokensError, Dispatch, TokenList, VerificationRequest};
