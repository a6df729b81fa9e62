//! The attribute set attached to a write request: a map from attribute
//! kind to string value, with a verified insert-or-overwrite operation.

use vstd::prelude::*;

verus! {

/// The kinds of attribute a write request can carry, mirroring the
/// vocabulary of the wrapped object store.
pub enum Attribute {
    /// How the object should be handled by a browser.
    ContentDisposition,
    /// The encodings applied to the object.
    ContentEncoding,
    /// The language of the object.
    ContentLanguage,
    /// The MIME type of the object.
    ContentType,
    /// The cache control policy of the object.
    CacheControl,
    /// The storage class (tier) of the object.
    StorageClass,
    /// A user-defined metadata field; the string is the user-defined key.
    Metadata(String),
}

/// The mathematical identity of an [`Attribute`]: what two keys must agree
/// on for a map to treat them as the same entry.
pub ghost enum AttrKey {
    ContentDisposition,
    ContentEncoding,
    ContentLanguage,
    ContentType,
    CacheControl,
    StorageClass,
    Metadata(Seq<char>),
}

impl View for Attribute {
    type V = AttrKey;

    open spec fn view(&self) -> AttrKey {
        match self {
            Attribute::ContentDisposition => AttrKey::ContentDisposition,
            Attribute::ContentEncoding => AttrKey::ContentEncoding,
            Attribute::ContentLanguage => AttrKey::ContentLanguage,
            Attribute::ContentType => AttrKey::ContentType,
            Attribute::CacheControl => AttrKey::CacheControl,
            Attribute::StorageClass => AttrKey::StorageClass,
            Attribute::Metadata(s) => AttrKey::Metadata(s@),
        }
    }
}

/// Decides whether two attribute keys denote the same map entry.
pub fn key_eq(a: &Attribute, b: &Attribute) -> (r: bool)
    ensures
        r == (a@ == b@),
{
    match (a, b) {
        (Attribute::ContentDisposition, Attribute::ContentDisposition) => true,
        (Attribute::ContentEncoding, Attribute::ContentEncoding) => true,
        (Attribute::ContentLanguage, Attribute::ContentLanguage) => true,
        (Attribute::ContentType, Attribute::ContentType) => true,
        (Attribute::CacheControl, Attribute::CacheControl) => true,
        (Attribute::StorageClass, Attribute::StorageClass) => true,
        (Attribute::Metadata(x), Attribute::Metadata(y)) => *x == *y,
        _ => false,
    }
}

/// The attribute set of a write request: a finite map from attribute key
/// to string value, stored as an association vector with pairwise
/// distinct keys.
pub struct AttributeSet {
    entries: Vec<(Attribute, String)>,
}

/// Whether the keys of an association vector are pairwise distinct.
pub open spec fn unique_keys(s: Seq<(Attribute, String)>) -> bool {
    forall|i: int, j: int| 0 <= i < j < s.len() ==> (#[trigger] s[i]).0@ != (#[trigger] s[j]).0@
}

/// The map an association vector denotes; a later entry overrides an
/// earlier one with the same key.
pub open spec fn map_of(s: Seq<(Attribute, String)>) -> Map<AttrKey, Seq<char>>
    decreases s.len(),
{
    if s.len() == 0 {
        Map::empty()
    } else {
        map_of(s.drop_last()).insert(s.last().0@, s.last().1@)
    }
}

/// A key is in the denoted map exactly when some entry carries it.
pub proof fn lemma_map_of_contains(s: Seq<(Attribute, String)>, k: AttrKey)
    ensures
        map_of(s).contains_key(k) <==> exists|i: int| 0 <= i < s.len() && (#[trigger] s[i]).0@ == k,
    decreases s.len(),
{
    if s.len() > 0 {
        lemma_map_of_contains(s.drop_last(), k);
        if map_of(s).contains_key(k) {
            if s.last().0@ == k {
                assert(s[s.len() - 1].0@ == k);
            } else {
                let i = choose|i: int| 0 <= i < s.drop_last().len() && (#[trigger] s.drop_last()[i]).0@ == k;
                assert(s[i].0@ == k);
            }
        }
        if exists|i: int| 0 <= i < s.len() && (#[trigger] s[i]).0@ == k {
            let i = choose|i: int| 0 <= i < s.len() && (#[trigger] s[i]).0@ == k;
            if i < s.len() - 1 {
                assert(s.drop_last()[i].0@ == k);
            }
        }
    }
}

/// Under distinct keys, the denoted map sends each entry's key to that
/// entry's value.
pub proof fn lemma_map_of_get(s: Seq<(Attribute, String)>, i: int)
    requires
        unique_keys(s),
        0 <= i < s.len(),
    ensures
        map_of(s).contains_key(s[i].0@),
        map_of(s)[s[i].0@] == s[i].1@,
    decreases s.len(),
{
    if i < s.len() - 1 {
        assert(unique_keys(s.drop_last())) by {
            assert forall|p: int, q: int| 0 <= p < q < s.drop_last().len() implies (#[trigger] s.drop_last()[p]).0@ != (#[trigger] s.drop_last()[q]).0@ by {
                assert(s[p].0@ != s[q].0@);
            }
        }
        lemma_map_of_get(s.drop_last(), i);
        assert(s.drop_last()[i] == s[i]);
        assert(s[i].0@ != s.last().0@);
    }
}

/// Under distinct keys, the denoted map has exactly one entry per vector
/// element, and its domain is finite.
pub proof fn lemma_map_of_len(s: Seq<(Attribute, String)>)
    requires
        unique_keys(s),
    ensures
        map_of(s).dom().finite(),
        map_of(s).dom().len() == s.len(),
    decreases s.len(),
{
    if s.len() == 0 {
        assert(map_of(s).dom() =~= Set::<AttrKey>::empty());
    } else {
        let t = s.drop_last();
        assert(unique_keys(t)) by {
            assert forall|p: int, q: int| 0 <= p < q < t.len() implies (#[trigger] t[p]).0@ != (#[trigger] t[q]).0@ by {
                assert(s[p].0@ != s[q].0@);
            }
        }
        lemma_map_of_len(t);
        lemma_map_of_contains(t, s.last().0@);
        assert(!map_of(t).contains_key(s.last().0@)) by {
            if exists|i: int| 0 <= i < t.len() && (#[trigger] t[i]).0@ == s.last().0@ {
                let i = choose|i: int| 0 <= i < t.len() && (#[trigger] t[i]).0@ == s.last().0@;
                assert(s[i].0@ == s[s.len() - 1].0@);
            }
        }
        assert(map_of(s).dom() =~= map_of(t).dom().insert(s.last().0@));
    }
}

/// Removing an entry removes exactly its key from the denoted map, when
/// keys are pairwise distinct.
pub proof fn lemma_map_of_remove(s: Seq<(Attribute, String)>, i: int)
    requires
        unique_keys(s),
        0 <= i < s.len(),
    ensures
        map_of(s.remove(i)) == map_of(s).remove(s[i].0@),
    decreases s.len(),
{
    let k = s[i].0@;
    if i == s.len() - 1 {
        assert(s.remove(i) =~= s.drop_last());
        lemma_map_of_contains(s.drop_last(), k);
        assert(!map_of(s.drop_last()).contains_key(k)) by {
            if exists|j: int| 0 <= j < s.drop_last().len() && (#[trigger] s.drop_last()[j]).0@ == k {
                let j = choose|j: int| 0 <= j < s.drop_last().len() && (#[trigger] s.drop_last()[j]).0@ == k;
                assert(s[j].0@ == s[i].0@);
            }
        }
        assert(map_of(s).remove(k) =~= map_of(s.drop_last()));
    } else {
        let t = s.drop_last();
        assert(unique_keys(t)) by {
            assert forall|p: int, q: int| 0 <= p < q < t.len() implies (#[trigger] t[p]).0@ != (#[trigger] t[q]).0@ by {
                assert(s[p].0@ != s[q].0@);
            }
        }
        lemma_map_of_remove(t, i);
        assert(s.remove(i) =~= t.remove(i).push(s.last()));
        assert(t.remove(i).push(s.last()).drop_last() =~= t.remove(i));
        assert(map_of(s.remove(i)) == map_of(t.remove(i)).insert(s.last().0@, s.last().1@));
        assert(s.last().0@ != k);
        assert(map_of(t).remove(k).insert(s.last().0@, s.last().1@)
            =~= map_of(t).insert(s.last().0@, s.last().1@).remove(k));
    }
}

impl AttributeSet {
    /// The map this attribute set denotes.
    pub closed spec fn view(&self) -> Map<AttrKey, Seq<char>> {
        map_of(self.entries@)
    }

    #[verifier::type_invariant]
    spec fn wf(&self) -> bool {
        unique_keys(self.entries@)
    }

    /// The empty attribute set.
    pub fn new() -> (r: Self)
        ensures
            r@ == Map::<AttrKey, Seq<char>>::empty(),
    {
        AttributeSet { entries: Vec::new() }
    }

    /// Inserts a value under a key, overwriting any value the key held.
    pub fn insert(&mut self, key: Attribute, value: String)
        ensures
            final(self)@ == old(self)@.insert(key@, value@),
    {
        proof {
            use_type_invariant(&*self);
        }
        let ghost s0 = self.entries@;
        let mut entries: Vec<(Attribute, String)> = Vec::new();
        std::mem::swap(&mut entries, &mut self.entries);
        let mut idx: usize = 0;
        while idx < entries.len()
            invariant
                entries@ == s0,
                unique_keys(s0),
                old(self)@ == map_of(s0),
                idx <= s0.len(),
                forall|j: int| 0 <= j < idx ==> (#[trigger] s0[j]).0@ != key@,
            decreases s0.len() - idx,
        {
            if key_eq(&entries[idx].0, &key) {
                proof {
                    lemma_map_of_remove(s0, idx as int);
                }
                let _replaced = entries.remove(idx);
                entries.push((key, value));
                proof {
                    let ghost s1 = s0.remove(idx as int);
                    assert forall|p: int, q: int| 0 <= p < q < s1.len() implies (#[trigger] s1[p]).0@ != (#[trigger] s1[q]).0@ by {
                        if q < idx {
                            assert(s0[p].0@ != s0[q].0@);
                        } else if p < idx {
                            assert(s0[p].0@ != s0[q + 1].0@);
                        } else {
                            assert(s0[p + 1].0@ != s0[q + 1].0@);
                        }
                    }
                    assert forall|j: int| 0 <= j < s1.len() implies (#[trigger] s1[j]).0@ != key@ by {
                        if j < idx {
                            assert(s0[j].0@ != s0[idx as int].0@);
                        } else {
                            assert(s0[j + 1].0@ != s0[idx as int].0@);
                        }
                    }
                    assert(entries@.drop_last() =~= s1);
                    assert(map_of(entries@) == map_of(s1).insert(key@, value@));
                    assert(map_of(s0).remove(key@).insert(key@, value@) =~= map_of(s0).insert(key@, value@));
                }
                self.entries = entries;
                return;
            }
            idx += 1;
        }
        entries.push((key, value));
        proof {
            assert(entries@.drop_last() =~= s0);
            assert(map_of(entries@) == map_of(s0).insert(key@, value@));
        }
        self.entries = entries;
    }

    /// Looks a key up, returning its value exactly when the set holds one.
    pub fn get<'a>(&'a self, key: &Attribute) -> (r: Option<&'a String>)
        ensures
            match r {
                Some(v) => self@.contains_key(key@) && v@ == self@[key@],
                None => !self@.contains_key(key@),
            },
    {
        proof {
            use_type_invariant(&*self);
        }
        let mut idx: usize = 0;
        while idx < self.entries.len()
            invariant
                unique_keys(self.entries@),
                self@ == map_of(self.entries@),
                idx <= self.entries@.len(),
                forall|j: int| 0 <= j < idx ==> (#[trigger] self.entries@[j]).0@ != key@,
            decreases self.entries@.len() - idx,
        {
            if key_eq(&self.entries[idx].0, key) {
                proof {
                    lemma_map_of_get(self.entries@, idx as int);
                }
                return Some(&self.entries[idx].1);
            }
            idx += 1;
        }
        proof {
            lemma_map_of_contains(self.entries@, key@);
        }
        None
    }

    /// The number of attributes in the set.
    pub fn len(&self) -> (n: usize)
        ensures
            n == self@.dom().len(),
    {
        proof {
            use_type_invariant(&*self);
            lemma_map_of_len(self.entries@);
        }
        self.entries.len()
    }

    /// The entries of the set, one per key the denoted map holds.
    pub fn entries(&self) -> (r: &Vec<(Attribute, String)>)
        ensures
            r@.len() == self@.dom().len(),
            forall|i: int| 0 <= i < r@.len() ==> self@.contains_key((#[trigger] r@[i]).0@) && self@[r@[i].0@] == r@[i].1@,
            forall|k: AttrKey| self@.contains_key(k) ==> exists|i: int| 0 <= i < r@.len() && (#[trigger] r@[i]).0@ == k,
    {
        proof {
            use_type_invariant(&*self);
            lemma_map_of_len(self.entries@);
            assert forall|i: int| 0 <= i < self.entries@.len() implies self@.contains_key((#[trigger] self.entries@[i]).0@) && self@[self.entries@[i].0@] == self.entries@[i].1@ by {
                lemma_map_of_get(self.entries@, i);
            }
            assert forall|k: AttrKey| self@.contains_key(k) implies exists|i: int| 0 <= i < self.entries@.len() && (#[trigger] self.entries@[i]).0@ == k by {
                lemma_map_of_contains(self.entries@, k);
            }
        }
        &self.entries
    }
}

} // verus!
