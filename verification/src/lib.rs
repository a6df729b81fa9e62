//! A storage-class decorator for object stores.
//!
//! The crate models the write-path options of an object store and proves
//! that decorating a write request injects the configured storage-class
//! attribute while leaving every other attribute, and every other option
//! field, untouched.

pub mod attributes;
pub mod options;
pub mod store;

pub use attributes::Attribute;
pub use attributes::AttributeSet;
pub use attributes::AttrKey;
pub use options::MultipartOpts;
pub use options::PutOpts;
pub use store::StorageClassObjectStore;
