//! The named-key namespace as a mathematical value: a list of names with
//! their keys, in the order in which the names were first put.

use crate::key::Key;
use vstd::prelude::*;

verus! {

/// A namespace: each entry is a name (as text) and the key stored under it.
pub type Entries = Seq<(Seq<char>, Key)>;

/// The key under `name`: that of the first entry with this name, if any.
pub open spec fn lookup(keys: Entries, name: Seq<char>) -> Option<Key>
    decreases keys.len(),
{
    if keys.len() == 0 {
        None
    } else if keys[0].0 == name {
        Some(keys[0].1)
    } else {
        lookup(keys.drop_first(), name)
    }
}

/// The namespace after `key` is put under `name`: the first entry with this
/// name is replaced where it stands; without such an entry a new one is added
/// at the end.
pub open spec fn upsert(keys: Entries, name: Seq<char>, key: Key) -> Entries
    decreases keys.len(),
{
    if keys.len() == 0 {
        seq![(name, key)]
    } else if keys[0].0 == name {
        seq![(name, key)] + keys.drop_first()
    } else {
        seq![keys[0]] + upsert(keys.drop_first(), name, key)
    }
}

/// The namespace without any entry under `name`.
pub open spec fn without(keys: Entries, name: Seq<char>) -> Entries
    decreases keys.len(),
{
    if keys.len() == 0 {
        Seq::empty()
    } else if keys[0].0 == name {
        without(keys.drop_first(), name)
    } else {
        seq![keys[0]] + without(keys.drop_first(), name)
    }
}

/// Whether no name occurs twice.
pub open spec fn unique_names(keys: Entries) -> bool {
    forall|i: int, j: int|
        0 <= i < j < keys.len() ==> (#[trigger] keys[i]).0 != (#[trigger] keys[j]).0
}

/// No entry of the first `n` has the name.
pub open spec fn absent_before(keys: Entries, name: Seq<char>, n: int) -> bool {
    forall|j: int| 0 <= j < n ==> (#[trigger] keys[j]).0 != name
}

/// Where the first entry under `name` stands at `i`, the lookup finds its key,
/// and putting a key replaces exactly that entry.
pub proof fn lemma_first_match(keys: Entries, name: Seq<char>, key: Key, i: int)
    requires
        0 <= i < keys.len(),
        keys[i].0 == name,
        absent_before(keys, name, i),
    ensures
        lookup(keys, name) == Some(keys[i].1),
        upsert(keys, name, key) == keys.update(i, (name, key)),
    decreases i,
{
    if i == 0 {
        assert(upsert(keys, name, key) =~= keys.update(0, (name, key)));
    } else {
        assert(keys[0].0 != name);
        let rest = keys.drop_first();
        assert forall|j: int| 0 <= j < i - 1 implies (#[trigger] rest[j]).0 != name by {
            assert(rest[j] == keys[j + 1]);
        }
        lemma_first_match(rest, name, key, i - 1);
        assert(upsert(keys, name, key) =~= keys.update(i, (name, key)));
    }
}

/// Where no entry stands under `name`, the lookup finds nothing, putting a key
/// adds an entry at the end, and removing changes nothing.
pub proof fn lemma_no_match(keys: Entries, name: Seq<char>, key: Key)
    requires
        absent_before(keys, name, keys.len() as int),
    ensures
        lookup(keys, name) is None,
        upsert(keys, name, key) == keys.push((name, key)),
        without(keys, name) == keys,
    decreases keys.len(),
{
    if keys.len() == 0 {
        assert(upsert(keys, name, key) =~= keys.push((name, key)));
        assert(without(keys, name) =~= keys);
    } else {
        assert(keys[0].0 != name);
        let rest = keys.drop_first();
        assert forall|j: int| 0 <= j < rest.len() implies (#[trigger] rest[j]).0 != name by {
            assert(rest[j] == keys[j + 1]);
        }
        lemma_no_match(rest, name, key);
        assert(upsert(keys, name, key) =~= keys.push((name, key)));
        assert(without(keys, name) =~= keys);
    }
}

/// Removing a name from a list that grew by one entry: the entry stays unless
/// it stands under that name.
pub proof fn lemma_without_push(keys: Entries, entry: (Seq<char>, Key), name: Seq<char>)
    ensures
        without(keys.push(entry), name) == if entry.0 == name {
            without(keys, name)
        } else {
            without(keys, name).push(entry)
        },
    decreases keys.len(),
{
    let grown = keys.push(entry);
    if keys.len() == 0 {
        assert(grown.drop_first() =~= Seq::<(Seq<char>, Key)>::empty());
        assert(without(grown.drop_first(), name) =~= Seq::<(Seq<char>, Key)>::empty());
        if entry.0 != name {
            assert(without(grown, name) =~= without(keys, name).push(entry));
        }
    } else {
        assert(grown[0] == keys[0]);
        assert(grown.drop_first() =~= keys.drop_first().push(entry));
        lemma_without_push(keys.drop_first(), entry, name);
        if keys[0].0 != name {
            if entry.0 == name {
            } else {
                assert(without(grown, name) =~= without(keys, name).push(entry));
            }
        }
    }
}

/// A key that was put under a name is what the lookup of that name finds.
pub proof fn lemma_lookup_after_upsert(keys: Entries, name: Seq<char>, key: Key)
    ensures
        lookup(upsert(keys, name, key), name) == Some(key),
    decreases keys.len(),
{
    if keys.len() == 0 {
    } else if keys[0].0 == name {
    } else {
        let put = upsert(keys, name, key);
        assert(put.drop_first() =~= upsert(keys.drop_first(), name, key));
        lemma_lookup_after_upsert(keys.drop_first(), name, key);
    }
}

/// Putting a key under one name leaves what stands under every other name.
pub proof fn lemma_lookup_other_after_upsert(
    keys: Entries,
    name: Seq<char>,
    key: Key,
    other: Seq<char>,
)
    requires
        other != name,
    ensures
        lookup(upsert(keys, name, key), other) == lookup(keys, other),
    decreases keys.len(),
{
    let put = upsert(keys, name, key);
    if keys.len() == 0 {
        assert(put.len() == 1);
        assert(put[0].0 == name);
        assert(put.drop_first().len() == 0);
        assert(lookup(put.drop_first(), other) is None);
        assert(lookup(put, other) == lookup(put.drop_first(), other));
    } else if keys[0].0 == name {
        assert(put[0].0 == name);
        assert(put.drop_first() =~= keys.drop_first());
        assert(lookup(put, other) == lookup(put.drop_first(), other));
        assert(lookup(keys, other) == lookup(keys.drop_first(), other));
    } else {
        assert(put[0] == keys[0]);
        assert(put.drop_first() =~= upsert(keys.drop_first(), name, key));
        lemma_lookup_other_after_upsert(keys.drop_first(), name, key, other);
    }
}

/// After a name is removed, its lookup finds nothing.
pub proof fn lemma_lookup_after_without(keys: Entries, name: Seq<char>)
    ensures
        lookup(without(keys, name), name) is None,
    decreases keys.len(),
{
    if keys.len() == 0 {
    } else if keys[0].0 == name {
        lemma_lookup_after_without(keys.drop_first(), name);
    } else {
        let cut = without(keys, name);
        assert(cut.drop_first() =~= without(keys.drop_first(), name));
        lemma_lookup_after_without(keys.drop_first(), name);
    }
}

/// Removing one name leaves what stands under every other name.
pub proof fn lemma_lookup_other_after_without(keys: Entries, name: Seq<char>, other: Seq<char>)
    requires
        other != name,
    ensures
        lookup(without(keys, name), other) == lookup(keys, other),
    decreases keys.len(),
{
    if keys.len() == 0 {
    } else if keys[0].0 == name {
        lemma_lookup_other_after_without(keys.drop_first(), name, other);
    } else {
        let cut = without(keys, name);
        assert(cut.drop_first() =~= without(keys.drop_first(), name));
        lemma_lookup_other_after_without(keys.drop_first(), name, other);
    }
}

/// Either no entry stands under `name`, or there is a first one.
pub proof fn lemma_first_or_absent(keys: Entries, name: Seq<char>) -> (i: int)
    ensures
        0 <= i <= keys.len(),
        absent_before(keys, name, i),
        i < keys.len() ==> keys[i].0 == name,
    decreases keys.len(),
{
    if keys.len() == 0 {
        0
    } else if keys[0].0 == name {
        0
    } else {
        let rest = keys.drop_first();
        let j = lemma_first_or_absent(rest, name);
        assert forall|k: int| 0 <= k < j + 1 implies (#[trigger] keys[k]).0 != name by {
            if k > 0 {
                assert(keys[k] == rest[k - 1]);
            }
        }
        if j < rest.len() {
            assert(keys[j + 1] == rest[j]);
        }
        j + 1
    }
}

/// In a namespace without repeated names, removing the name of the entry at
/// `i` removes exactly that entry.
pub proof fn lemma_without_unique(keys: Entries, name: Seq<char>, i: int)
    requires
        unique_names(keys),
        0 <= i < keys.len(),
        keys[i].0 == name,
    ensures
        without(keys, name) == keys.remove(i),
    decreases i,
{
    let rest = keys.drop_first();
    assert forall|a: int, b: int| 0 <= a < b < rest.len() implies (#[trigger] rest[a]).0 != (
    #[trigger] rest[b]).0 by {
        assert(rest[a] == keys[a + 1]);
        assert(rest[b] == keys[b + 1]);
    }
    if i == 0 {
        assert forall|j: int| 0 <= j < rest.len() implies (#[trigger] rest[j]).0 != name by {
            assert(rest[j] == keys[j + 1]);
        }
        lemma_no_match(rest, name, keys[0].1);
        assert(keys.remove(0) =~= rest);
    } else {
        assert(keys[0].0 != keys[i].0);
        assert(rest[i - 1] == keys[i]);
        lemma_without_unique(rest, name, i - 1);
        assert(keys.remove(i) =~= seq![keys[0]] + rest.remove(i - 1));
    }
}

/// Names stay unique: in a namespace in which no name occurs twice, putting
/// a key and removing a name leave no name occurring twice.
pub proof fn lemma_unique_names_kept(keys: Entries, name: Seq<char>, key: Key)
    requires
        unique_names(keys),
    ensures
        unique_names(upsert(keys, name, key)),
        unique_names(without(keys, name)),
{
    let i = lemma_first_or_absent(keys, name);
    let put = upsert(keys, name, key);
    let cut = without(keys, name);
    if i < keys.len() {
        lemma_first_match(keys, name, key, i);
        lemma_without_unique(keys, name, i);
        assert forall|a: int, b: int| 0 <= a < b < put.len() implies (#[trigger] put[a]).0 != (
        #[trigger] put[b]).0 by {
            assert(put[a].0 == keys[a].0);
            assert(put[b].0 == keys[b].0);
        }
        assert forall|a: int, b: int| 0 <= a < b < cut.len() implies (#[trigger] cut[a]).0 != (
        #[trigger] cut[b]).0 by {
            let x = if a < i { a } else { a + 1 };
            let y = if b < i { b } else { b + 1 };
            assert(cut[a] == keys[x]);
            assert(cut[b] == keys[y]);
        }
    } else {
        lemma_no_match(keys, name, key);
        assert forall|a: int, b: int| 0 <= a < b < put.len() implies (#[trigger] put[a]).0 != (
        #[trigger] put[b]).0 by {
            assert(put[a] == keys[a]);
            if b < keys.len() {
                assert(put[b] == keys[b]);
            }
        }
    }
}

/// A name that no entry stands under is not found: absence is an answer, not
/// a failure.
pub proof fn lemma_lookup_empty(name: Seq<char>)
    ensures
        lookup(Seq::empty(), name) is None,
{
}

} // verus!
