//! The write-path option records of the decorator.
//!
//! A write request carries, besides its attribute set, option fields that
//! the decorator forwards untouched: the put mode, the object's tags and
//! the implementation-specific extensions. Those three are values of the
//! wrapped store's own types; the decorator never reads them, so they are
//! declared opaque and only carried through.

use vstd::prelude::*;

use crate::attributes::AttributeSet;

verus! {

/// Relies on object_store::PutMode: the conditional-write mode of a put
/// request. Carried through unread.
#[verifier::external_type_specification]
#[verifier::external_body]
pub struct ExPutMode(object_store::PutMode);

/// Relies on object_store::TagSet: the tags attached to an object.
/// Carried through unread.
#[verifier::external_type_specification]
#[verifier::external_body]
pub struct ExTagSet(object_store::TagSet);

/// Relies on http::Extensions: implementation-specific request extensions.
/// Carried through unread.
#[verifier::external_type_specification]
#[verifier::external_body]
pub struct ExExtensions(http::Extensions);

/// The options of a single-shot put request.
pub struct PutOpts {
    /// The conditional-write mode, forwarded untouched.
    pub mode: object_store::PutMode,
    /// The object's tags, forwarded untouched.
    pub tags: object_store::TagSet,
    /// The attribute set, into which the decorator merges its label.
    pub attributes: AttributeSet,
    /// Implementation-specific extensions, forwarded untouched.
    pub extensions: http::Extensions,
}

/// The options of a multipart-upload request.
pub struct MultipartOpts {
    /// The object's tags, forwarded untouched.
    pub tags: object_store::TagSet,
    /// The attribute set, into which the decorator merges its label.
    pub attributes: AttributeSet,
    /// Implementation-specific extensions, forwarded untouched.
    pub extensions: http::Extensions,
}

} // verus!
