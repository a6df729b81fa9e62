//! The storage-class decorator: a fixed label merged into the attribute
//! set of every write request, and the laws that merge obeys.

use vstd::prelude::*;
use vstd::string::StringExecFns;

use crate::attributes::AttrKey;
use crate::attributes::Attribute;
use crate::options::MultipartOpts;
use crate::options::PutOpts;

verus! {

/// The map a write request's attributes become once the decorator has
/// merged its label in: the storage-class entry is set to the label and
/// every other entry is kept.
pub open spec fn with_storage_class(attrs: Map<AttrKey, Seq<char>>, label: Seq<char>) -> Map<AttrKey, Seq<char>> {
    attrs.insert(AttrKey::StorageClass, label)
}

/// A decorator configuration: the storage-class label merged into every
/// write request. The wrapped store itself stays outside this crate; the
/// decorator's logic is a pure function of the request alone.
pub struct StorageClassObjectStore {
    storage_class: String,
}

impl StorageClassObjectStore {
    /// The configured storage-class label.
    pub closed spec fn storage_class_spec(&self) -> Seq<char> {
        self.storage_class@
    }

    /// Builds a decorator configuration carrying the given label; the
    /// label is stored untouched and never validated.
    pub fn new(storage_class: String) -> (r: Self)
        ensures
            r.storage_class_spec() == storage_class@,
    {
        StorageClassObjectStore { storage_class }
    }

    /// The configured storage-class label, for diagnostics and for
    /// delegation layers outside this crate.
    pub fn storage_class(&self) -> (r: &String)
        ensures
            r@ == self.storage_class_spec(),
    {
        &self.storage_class
    }

    /// Merges the storage-class entry into the options of a put request:
    /// the attribute set gains (or has overwritten) the storage-class
    /// entry, and the mode, tags and extensions are returned untouched.
    pub fn add_storage_class_to_put(&self, opts: PutOpts) -> (r: PutOpts)
        ensures
            r.attributes@ == with_storage_class(opts.attributes@, self.storage_class_spec()),
            r.mode == opts.mode,
            r.tags == opts.tags,
            r.extensions == opts.extensions,
    {
        let mut opts = opts;
        opts.attributes.insert(Attribute::StorageClass, self.storage_class.clone());
        opts
    }

    /// Merges the storage-class entry into the options of a multipart
    /// upload, under the same policy as [`Self::add_storage_class_to_put`].
    pub fn add_storage_class_to_multipart(&self, opts: MultipartOpts) -> (r: MultipartOpts)
        ensures
            r.attributes@ == with_storage_class(opts.attributes@, self.storage_class_spec()),
            r.tags == opts.tags,
            r.extensions == opts.extensions,
    {
        let mut opts = opts;
        opts.attributes.insert(Attribute::StorageClass, self.storage_class.clone());
        opts
    }

    /// The decorator's textual form: the wrapped store's own textual form
    /// and the configured label, embedded in a fixed frame.
    pub fn describe(&self, inner: &str) -> (r: String)
        ensures
            r@ == description_of(inner@, self.storage_class_spec()),
    {
        let mut s = "StorageClassObjectStore(".to_owned();
        s.append(inner);
        s.append(", class=");
        s.append(self.storage_class.as_str());
        s.append(")");
        s
    }
}

/// The textual form the decorator reports for itself, given the wrapped
/// store's textual form and the configured label.
pub open spec fn description_of(inner: Seq<char>, label: Seq<char>) -> Seq<char> {
    "StorageClassObjectStore("@ + inner + ", class="@ + label + ")"@
}

/// Law: the merged attribute set always carries the storage-class entry,
/// set to the decorator's label, whether or not the caller supplied one.
pub proof fn lemma_storage_class_overridden(attrs: Map<AttrKey, Seq<char>>, label: Seq<char>)
    ensures
        with_storage_class(attrs, label).contains_key(AttrKey::StorageClass),
        with_storage_class(attrs, label)[AttrKey::StorageClass] == label,
{
}

/// Law: merging is non-destructive — every attribute other than the
/// storage class is present in the merged set exactly when the caller
/// supplied it, with its value unchanged.
pub proof fn lemma_merge_preserves_other_attributes(attrs: Map<AttrKey, Seq<char>>, label: Seq<char>)
    ensures
        forall|k: AttrKey| k != AttrKey::StorageClass ==> (#[trigger] with_storage_class(attrs, label).contains_key(k) <==> attrs.contains_key(k)),
        forall|k: AttrKey| k != AttrKey::StorageClass && attrs.contains_key(k) ==> #[trigger] with_storage_class(attrs, label)[k] == attrs[k],
{
}

/// Law: decoration is idempotent — merging the label into a request that
/// already went through the decorator changes nothing, so repeating a
/// write sends the backend the same attribute set both times.
pub proof fn lemma_decoration_idempotent(attrs: Map<AttrKey, Seq<char>>, label: Seq<char>)
    ensures
        with_storage_class(with_storage_class(attrs, label), label) == with_storage_class(attrs, label),
{
    assert(with_storage_class(with_storage_class(attrs, label), label) =~= with_storage_class(attrs, label));
}

/// Law: the decorator's textual form contains the wrapped store's own
/// textual form, and the configured label, each as a contiguous segment.
pub proof fn lemma_description_contains_parts(inner: Seq<char>, label: Seq<char>)
    ensures
        description_of(inner, label).subrange(
            "StorageClassObjectStore("@.len() as int,
            ("StorageClassObjectStore("@.len() + inner.len()) as int,
        ) == inner,
        description_of(inner, label).subrange(
            ("StorageClassObjectStore("@.len() + inner.len() + ", class="@.len()) as int,
            ("StorageClassObjectStore("@.len() + inner.len() + ", class="@.len() + label.len()) as int,
        ) == label,
{
    let d = description_of(inner, label);
    let p = "StorageClassObjectStore("@;
    let m = ", class="@;
    assert(d.subrange(p.len() as int, (p.len() + inner.len()) as int) =~= inner);
    assert(d.subrange((p.len() + inner.len() + m.len()) as int, (p.len() + inner.len() + m.len() + label.len()) as int) =~= label);
}

} // verus!
