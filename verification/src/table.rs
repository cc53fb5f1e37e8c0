//! Small keyed tables of text: the plain-value form in which the library holds
//! what it reads about companies, documents and other stored rows.

use vstd::prelude::*;

verus! {

/// One `key -> value` row.
#[derive(Debug, Clone, PartialEq, Eq)]
pub struct TextEntry {
    pub key: String,
    pub value: String,
}

/// The value of the first row whose key is `key`, if any.
pub open spec fn text_lookup(entries: Seq<TextEntry>, key: Seq<char>) -> Option<Seq<char>>
    decreases entries.len(),
{
    if entries.len() == 0 {
        None
    } else if entries[0].key@ == key {
        Some(entries[0].value@)
    } else {
        text_lookup(entries.drop_first(), key)
    }
}

/// Skipping rows whose key is not `key` does not change the lookup.
pub proof fn lemma_lookup_skip(entries: Seq<TextEntry>, key: Seq<char>, i: int)
    requires
        0 <= i <= entries.len(),
        forall|k: int| 0 <= k < i ==> #[trigger] entries[k].key@ != key,
    ensures
        text_lookup(entries, key) == text_lookup(entries.skip(i), key),
    decreases i,
{
    if i > 0 {
        assert(entries[0].key@ != key);
        let rest = entries.drop_first();
        assert forall|k: int| 0 <= k < i - 1 implies #[trigger] rest[k].key@ != key by {
            assert(rest[k] == entries[k + 1]);
        }
        lemma_lookup_skip(rest, key, i - 1);
        assert(rest.skip(i - 1) =~= entries.skip(i));
    } else {
        assert(entries.skip(0) =~= entries);
    }
}

/// The value of the first row whose key is `key`.
pub fn find_text(entries: &Vec<TextEntry>, key: &str) -> (r: Option<String>)
    ensures
        r is Some <==> text_lookup(entries@, key@) is Some,
        r is Some ==> r->0@ == text_lookup(entries@, key@)->0,
{
    let mut i: usize = 0;
    while i < entries.len()
        invariant
            i <= entries@.len(),
            forall|k: int| 0 <= k < i ==> #[trigger] entries@[k].key@ != key@,
        decreases entries.len() - i,
    {
        if crate::text::str_eq(entries[i].key.as_str(), key) {
            proof {
                lemma_lookup_skip(entries@, key@, i as int);
                assert(entries@.skip(i as int)[0] == entries@[i as int]);
            }
            return Some(entries[i].value.clone());
        }
        i = i + 1;
    }
    proof {
        lemma_lookup_skip(entries@, key@, i as int);
    }
    None
}

/// The value for `key`, or `key` itself when no row names it.
pub open spec fn lookup_or_key(entries: Seq<TextEntry>, key: Seq<char>) -> Seq<char> {
    match text_lookup(entries, key) {
        Some(v) => v,
        None => key,
    }
}

/// The value for `key`, or `key` itself when no row names it.
pub fn find_text_or_key(entries: &Vec<TextEntry>, key: &str) -> (r: String)
    ensures
        r@ == lookup_or_key(entries@, key@),
{
    match find_text(entries, key) {
        Some(v) => v,
        None => crate::text::owned(key),
    }
}

} // verus!
