//! The classified failures a decode can surface. Every sub-decoder fails
//! fast: any failure aborts the whole package-document construction, and no
//! partially valid document is ever returned.

use vstd::prelude::*;

verus! {

/// A required element that was absent.
#[derive(Debug, Clone, Copy, PartialEq, Eq, Hash, Structural)]
pub enum MissingElement {
    Package,
    Metadata,
    Manifest,
    Spine,
    Title,
    Language,
    NavItem,
}

/// A required attribute that was absent.
#[derive(Debug, Clone, Copy, PartialEq, Eq, Hash, Structural)]
pub enum MissingAttribute {
    UniqueIdentifier,
    Version,
    ItemId,
    ItemHref,
    ItemRefIdref,
}

/// How a fallback chain was broken.
#[derive(Debug, Clone, Copy, PartialEq, Eq, Hash, Structural)]
pub enum FallbackFault {
    /// An item of a non-core media type names no fallback at all.
    MissingFallback,
    /// A fallback reference targets an id absent from the manifest.
    MissingTarget,
    /// A fallback walk revisits an id: the chain is circular.
    Circular,
}

/// A classified decode failure. All are non-fatal to the host process; the
/// caller is responsible for user-facing reporting.
#[derive(Debug, Clone, Copy, PartialEq, Eq, Hash, Structural)]
pub enum EPUBError {
    /// A required element is absent.
    StructuralError(MissingElement),
    /// A required attribute is absent.
    AttributeError(MissingAttribute),
    /// The unique-identifier attribute matches no identifier element's id.
    ReferenceError,
    /// A fallback reference targets a missing id, or a fallback walk
    /// revisits an id.
    FallbackChainError(FallbackFault),
    /// Two manifest items share an id.
    DuplicateIdError,
    /// Reserved for the media-type classification tables; the decoders
    /// themselves never fail on an unrecognized media type.
    MediaTypeError,
}


/// Model of a decode outcome: the value's model on success, the classified
/// failure itself otherwise.
pub open spec fn res_view<T: View>(r: Result<T, EPUBError>) -> Result<T::V, EPUBError> {
    match r {
        Ok(x) => Ok(x@),
        Err(e) => Err(e),
    }
}

} // verus!
