//! A verified decoder for EPUB package documents.
//!
//! A package document is the root metadata file of an EPUB publication. This
//! crate turns a stream of markup tokens into a validated, strongly typed
//! `PackageDocument`: it materializes a random-access element tree from the
//! forward-only token stream, then walks that tree with schema-aware decoders
//! for the metadata, manifest (with fallback-chain validation) and spine
//! sections, enforcing every structural invariant the format requires.

pub mod error;
pub mod events;
pub mod markup;
pub mod manifest;
pub mod media_type;
pub mod meta_data;
pub mod package_document;
pub mod spine;
pub mod tree;

pub use error::{EPUBError, FallbackFault, MissingAttribute, MissingElement};
pub use markup::{Attribute, QName, Token};
pub use manifest::{Item, Manifest, ManifestItemProperty};
pub use media_type::{ApplicationType, AudioType, ImageType, MediaType, TextType};
pub use meta_data::{Identifier, Language, MetaDataProperty, MetaElem, Metadata, OptionalElement, OptionalElementName, Title};
pub use package_document::{Dir, PackageDocument};
pub use spine::{ItemRef, Linear, PageProgressionDirection, Spine};
pub use tree::{Xml, XmlElement};
