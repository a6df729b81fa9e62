use object_store::PutMode;
use object_store::TagSet;
use storage_class_store::Attribute;
use storage_class_store::AttributeSet;
use storage_class_store::MultipartOpts;
use storage_class_store::PutOpts;
use storage_class_store::StorageClassObjectStore;

fn empty_put_opts() -> PutOpts {
    PutOpts {
        mode: PutMode::default(),
        tags: TagSet::default(),
        attributes: AttributeSet::new(),
        extensions: http::Extensions::new(),
    }
}

#[test]
fn put_without_options_carries_only_the_label() {
    let store = StorageClassObjectStore::new("GLACIER".to_string());
    let merged = store.add_storage_class_to_put(empty_put_opts());
    assert_eq!(merged.attributes.len(), 1);
    assert_eq!(
        merged.attributes.get(&Attribute::StorageClass).map(String::as_str),
        Some("GLACIER")
    );
    assert_eq!(merged.mode, PutMode::Overwrite);
    assert_eq!(merged.tags, TagSet::default());
}

#[test]
fn put_with_options_preserves_content_type() {
    let store = StorageClassObjectStore::new("ARCHIVE".to_string());
    let mut opts = empty_put_opts();
    opts.attributes.insert(Attribute::ContentType, "text/plain".to_string());
    let merged = store.add_storage_class_to_put(opts);
    assert_eq!(merged.attributes.len(), 2);
    assert_eq!(
        merged.attributes.get(&Attribute::ContentType).map(String::as_str),
        Some("text/plain")
    );
    assert_eq!(
        merged.attributes.get(&Attribute::StorageClass).map(String::as_str),
        Some("ARCHIVE")
    );
}

#[test]
fn caller_supplied_storage_class_is_overwritten() {
    let store = StorageClassObjectStore::new("COLD".to_string());
    let mut opts = empty_put_opts();
    opts.attributes.insert(Attribute::StorageClass, "HOT".to_string());
    let merged = store.add_storage_class_to_put(opts);
    assert_eq!(merged.attributes.len(), 1);
    assert_eq!(
        merged.attributes.get(&Attribute::StorageClass).map(String::as_str),
        Some("COLD")
    );
}

#[test]
fn other_put_option_fields_are_forwarded_untouched() {
    let store = StorageClassObjectStore::new("COLD".to_string());
    let mut tags = TagSet::default();
    tags.push("team", "storage");
    let mut extensions = http::Extensions::new();
    extensions.insert(7_u32);
    let opts = PutOpts {
        mode: PutMode::Create,
        tags: tags.clone(),
        attributes: AttributeSet::new(),
        extensions,
    };
    let merged = store.add_storage_class_to_put(opts);
    assert_eq!(merged.mode, PutMode::Create);
    assert_eq!(merged.tags, tags);
    assert_eq!(merged.extensions.get::<u32>(), Some(&7));
}

#[test]
fn multipart_options_gain_the_label() {
    let store = StorageClassObjectStore::new("NEARLINE".to_string());
    let mut opts = MultipartOpts {
        tags: TagSet::default(),
        attributes: AttributeSet::new(),
        extensions: http::Extensions::new(),
    };
    opts.attributes.insert(Attribute::CacheControl, "no-cache".to_string());
    let merged = store.add_storage_class_to_multipart(opts);
    assert_eq!(merged.attributes.len(), 2);
    assert_eq!(
        merged.attributes.get(&Attribute::StorageClass).map(String::as_str),
        Some("NEARLINE")
    );
    assert_eq!(
        merged.attributes.get(&Attribute::CacheControl).map(String::as_str),
        Some("no-cache")
    );
}

#[test]
fn decoration_is_deterministic_and_idempotent() {
    let store = StorageClassObjectStore::new("GLACIER".to_string());
    let mut opts_a = empty_put_opts();
    opts_a.attributes.insert(Attribute::ContentEncoding, "gzip".to_string());
    let mut opts_b = empty_put_opts();
    opts_b.attributes.insert(Attribute::ContentEncoding, "gzip".to_string());

    let once = store.add_storage_class_to_put(opts_a);
    let again = store.add_storage_class_to_put(opts_b);
    assert_eq!(once.attributes.len(), again.attributes.len());
    for (key, value) in once.attributes.entries() {
        assert_eq!(again.attributes.get(key), Some(value));
    }

    let twice = store.add_storage_class_to_put(again);
    assert_eq!(once.attributes.len(), twice.attributes.len());
    for (key, value) in once.attributes.entries() {
        assert_eq!(twice.attributes.get(key), Some(value));
    }
}

#[test]
fn description_contains_backend_and_label() {
    let store = StorageClassObjectStore::new("ARCHIVE".to_string());
    let text = store.describe("InMemory");
    assert!(text.contains("InMemory"));
    assert!(text.contains("ARCHIVE"));
    assert_eq!(text, "StorageClassObjectStore(InMemory, class=ARCHIVE)");
}

#[test]
fn label_is_kept_verbatim() {
    let store = StorageClassObjectStore::new("".to_string());
    assert_eq!(store.storage_class(), "");
    let store = StorageClassObjectStore::new("weird label / not validated".to_string());
    assert_eq!(store.storage_class(), "weird label / not validated");
}
