//! A self-describing data envelope: a payload bound to a content-derived
//! identifier, optionally sealed for a list of recipients.
//!
//! An envelope starts empty. It takes a payload once, by `encode` or by
//! `encrypt`, and from then on only gives it back, by `decode` or by
//! `decrypt`; both check what they recovered against the identifier.
//!
//! - [`cipher`]: digest, random bytes, sealing and opening with AES-256-GCM.
//! - [`codec`]: the structured-encoding codecs.
//! - [`identifier`]: content identifiers.
//! - [`identity`]: identities, resolved keys and key agreement.
//! - [`wire`]: the list of sealed buffers that an encrypted envelope holds.
//! - [`model`]: what each operation on an envelope returns.
//! - [`envelope`]: the envelope and its operations.
//! - [`laws`]: what holds of the operations taken together.
//!
//! The calls into other crates are made by private functions marked
//! `external_body`; their doc comments say what is taken on trust of each.
//! What such a call returns has a name in contracts (`sha256`,
//! `aes256gcm_sealed`, `codec_encoded`, ...), and nothing is known of a name
//! but what those functions state.

pub mod cipher;
pub mod clock;
pub mod codec;
pub mod dag_jose;
pub mod envelope;
pub mod error;
pub mod errors;
pub mod identifier;
pub mod identity;
pub mod laws;
pub mod model;
pub mod state;
pub mod traits;
pub mod wire;

pub use crate::codec::Codec;
pub use crate::envelope::Sata;
pub use crate::error::Error;
pub use crate::identifier::ContentId;
pub use crate::identity::Identity;
pub use crate::identity::ResolvedKey;
pub use crate::model::SataView;
pub use crate::state::Kind;
pub use crate::state::State;
