//! Settings that fall back on other settings.

use vstd::prelude::*;
use crate::text::same_name;

verus! {

/// Settings that can be merged with others of their kind: what `self` leaves
/// open is taken from `other`.
pub trait MergeWith: Sized {
    /// Whether `merged` is what `self` gives when it is merged with `other`.
    spec fn merges_to(&self, other: &Self, merged: &Self) -> bool;

    /// Merges `self` with `other`.
    fn merge_with(&self, other: &Self) -> (r: Self)
        ensures
            self.merges_to(other, &r),
    ;
}

impl<T: Clone> MergeWith for Option<T> {
    /// A setting that is given stands; one that is not is taken from `other`.
    open spec fn merges_to(&self, other: &Self, merged: &Self) -> bool {
        match (self, other) {
            (Some(mine), _) => merged matches Some(m) && cloned(*mine, *m),
            (None, Some(theirs)) => merged matches Some(m) && cloned(*theirs, *m),
            (None, None) => merged is None,
        }
    }

    fn merge_with(&self, other: &Self) -> (r: Self) {
        match (self, other) {
            (Some(mine), _) => Some(mine.clone()),
            (None, Some(theirs)) => Some(theirs.clone()),
            (None, None) => None,
        }
    }
}

/// Whether a table of settings, held as a list of keys and values, has an entry
/// under `key`.
pub open spec fn has_key<V>(entries: Seq<(String, V)>, key: Seq<char>) -> bool {
    exists|i: int| 0 <= i < entries.len() && (#[trigger] entries[i]).0@ == key
}

/// The entries of `theirs` under keys that `mine` does not have, in their order.
pub open spec fn missing<V>(mine: Seq<(String, V)>, theirs: Seq<(String, V)>) -> Seq<(String, V)>
    decreases theirs.len(),
{
    if theirs.len() == 0 {
        Seq::empty()
    } else {
        let front = missing(mine, theirs.drop_last());
        if has_key(mine, theirs.last().0@) {
            front
        } else {
            front.push(theirs.last())
        }
    }
}

/// Whether `to` holds a copy of each entry of `from`, in the same order.
pub open spec fn copies<V: Clone>(from: Seq<(String, V)>, to: Seq<(String, V)>) -> bool {
    &&& to.len() == from.len()
    &&& forall|i: int|
        0 <= i < from.len() ==> (#[trigger] to[i]).0@ == from[i].0@ && cloned(from[i].1, to[i].1)
}

/// Whether no two entries of a table of settings stand under the same key.
pub open spec fn keys_apart<V>(entries: Seq<(String, V)>) -> bool {
    forall|i: int, j: int|
        0 <= i < j < entries.len() ==> (#[trigger] entries[i]).0@ != (#[trigger] entries[j]).0@
}

/// What the entries are that one table lacks of another: entries of the other,
/// under keys that the one does not have, each key of that sort among them, and
/// no key twice where the other has no key twice.
pub proof fn lemma_missing<V>(mine: Seq<(String, V)>, theirs: Seq<(String, V)>)
    ensures
        forall|i: int|
            0 <= i < missing(mine, theirs).len() ==> has_key(
                theirs,
                (#[trigger] missing(mine, theirs)[i]).0@,
            ) && !has_key(mine, missing(mine, theirs)[i].0@),
        forall|k: Seq<char>|
            has_key(theirs, k) && !has_key(mine, k) ==> #[trigger] has_key(
                missing(mine, theirs),
                k,
            ),
        keys_apart(theirs) ==> keys_apart(missing(mine, theirs)),
    decreases theirs.len(),
{
    if theirs.len() > 0 {
        let front_of = theirs.drop_last();
        let last = theirs.last();
        let front = missing(mine, front_of);
        let all = missing(mine, theirs);
        lemma_missing(mine, front_of);
        assert forall|i: int| 0 <= i < all.len() implies has_key(theirs, (#[trigger] all[i]).0@)
            && !has_key(mine, all[i].0@) by {
            if i < front.len() {
                assert(all[i] == front[i]);
                assert(has_key(front_of, front[i].0@));
                let j = choose|j: int|
                    0 <= j < front_of.len() && (#[trigger] front_of[j]).0@ == front[i].0@;
                assert(theirs[j].0@ == all[i].0@);
            } else {
                assert(all[i] == last);
                assert(theirs[theirs.len() - 1].0@ == all[i].0@);
            }
        }
        assert forall|k: Seq<char>| has_key(theirs, k) && !has_key(mine, k) implies #[trigger] has_key(
            all,
            k,
        ) by {
            let j = choose|j: int| 0 <= j < theirs.len() && (#[trigger] theirs[j]).0@ == k;
            if j < front_of.len() {
                assert(front_of[j].0@ == k);
                assert(has_key(front_of, k));
                assert(has_key(front, k));
                let i = choose|i: int| 0 <= i < front.len() && (#[trigger] front[i]).0@ == k;
                assert(all[i].0@ == k);
            } else {
                assert(all[all.len() - 1].0@ == k);
            }
        }
        if keys_apart(theirs) {
            assert(keys_apart(front_of)) by {
                assert forall|i: int, j: int| 0 <= i < j < front_of.len() implies (
                #[trigger] front_of[i]).0@ != (#[trigger] front_of[j]).0@ by {
                    assert(front_of[i] == theirs[i]);
                    assert(front_of[j] == theirs[j]);
                }
            }
            assert forall|i: int, j: int| 0 <= i < j < all.len() implies (#[trigger] all[i]).0@
                != (#[trigger] all[j]).0@ by {
                if j < front.len() {
                    assert(all[i] == front[i]);
                    assert(all[j] == front[j]);
                } else {
                    assert(all[i] == front[i]);
                    assert(has_key(front_of, front[i].0@));
                    let x = choose|x: int|
                        0 <= x < front_of.len() && (#[trigger] front_of[x]).0@ == front[i].0@;
                    assert(theirs[x].0@ == all[i].0@);
                    assert(theirs[theirs.len() - 1].0@ == all[j].0@);
                }
            }
        }
    }
}

/// Merged tables hold every key of either table and no other; and where neither
/// table has a key twice, the merged table has none twice.
pub proof fn law_merged_keys<V>(mine: Seq<(String, V)>, theirs: Seq<(String, V)>)
    ensures
        forall|k: Seq<char>| #[trigger]
            has_key(mine + missing(mine, theirs), k) <==> has_key(mine, k) || has_key(theirs, k),
        keys_apart(mine) && keys_apart(theirs) ==> keys_apart(mine + missing(mine, theirs)),
{
    let rest = missing(mine, theirs);
    let all = mine + rest;
    lemma_missing(mine, theirs);
    assert forall|k: Seq<char>| #[trigger]
        has_key(all, k) <==> has_key(mine, k) || has_key(theirs, k) by {
        if has_key(all, k) {
            let i = choose|i: int| 0 <= i < all.len() && (#[trigger] all[i]).0@ == k;
            if i < mine.len() {
                assert(mine[i].0@ == k);
            } else {
                assert(rest[i - mine.len()].0@ == k);
            }
        }
        if has_key(mine, k) {
            let i = choose|i: int| 0 <= i < mine.len() && (#[trigger] mine[i]).0@ == k;
            assert(all[i].0@ == k);
        } else if has_key(theirs, k) {
            assert(has_key(rest, k));
            let i = choose|i: int| 0 <= i < rest.len() && (#[trigger] rest[i]).0@ == k;
            assert(all[mine.len() + i].0@ == k);
        }
    }
    if keys_apart(mine) && keys_apart(theirs) {
        assert forall|i: int, j: int| 0 <= i < j < all.len() implies (#[trigger] all[i]).0@ != (
        #[trigger] all[j]).0@ by {
            if j < mine.len() {
                assert(all[i] == mine[i] && all[j] == mine[j]);
            } else if i < mine.len() {
                assert(all[i] == mine[i]);
                assert(all[j] == rest[j - mine.len()]);
                assert(!has_key(mine, rest[j - mine.len()].0@));
            } else {
                assert(all[i] == rest[i - mine.len()]);
                assert(all[j] == rest[j - mine.len()]);
            }
        }
    }
}

/// Whether a table of settings has an entry under `key`.
pub fn contains_key<V>(entries: &Vec<(String, V)>, key: &str) -> (r: bool)
    ensures
        r == has_key(entries@, key@),
{
    let mut i: usize = 0;
    while i < entries.len()
        invariant
            i <= entries@.len(),
            forall|j: int| 0 <= j < i ==> (#[trigger] entries@[j]).0@ != key@,
        decreases entries@.len() - i,
    {
        if same_name(&entries[i].0, key) {
            return true;
        }
        i += 1;
    }
    false
}

impl<V: Clone> MergeWith for Vec<(String, V)> {
    /// A table of settings by key, held as a list of keys and values: every
    /// entry of `self` stands, and the entries of `other` follow whose keys
    /// `self` does not have.
    open spec fn merges_to(&self, other: &Self, merged: &Self) -> bool {
        copies(self@ + missing(self@, other@), merged@)
    }

    fn merge_with(&self, other: &Self) -> (r: Self) {
        let mut out: Vec<(String, V)> = Vec::new();
        let mut i: usize = 0;
        while i < self.len()
            invariant
                i <= self@.len(),
                copies(self@.take(i as int), out@),
            decreases self@.len() - i,
        {
            out.push((self[i].0.clone(), self[i].1.clone()));
            i += 1;
        }
        assert(self@.take(i as int) =~= self@);
        let mut k: usize = 0;
        assert(other@.take(0) =~= Seq::<(String, V)>::empty());
        assert(self@ + missing(self@, other@.take(0)) =~= self@);
        while k < other.len()
            invariant
                k <= other@.len(),
                copies(self@ + missing(self@, other@.take(k as int)), out@),
            decreases other@.len() - k,
        {
            let ghost before = self@ + missing(self@, other@.take(k as int));
            proof {
                assert(other@.take(k as int + 1).drop_last() =~= other@.take(k as int));
                assert(other@.take(k as int + 1).last() == other@[k as int]);
            }
            if !contains_key(self, other[k].0.as_str()) {
                out.push((other[k].0.clone(), other[k].1.clone()));
                assert(self@ + missing(self@, other@.take(k as int + 1)) =~= before.push(
                    other@[k as int],
                ));
            }
            k += 1;
        }
        assert(other@.take(k as int) =~= other@);
        out
    }
}

/// The settings of a binding generator without settings.
#[derive(Debug, Clone, Copy, PartialEq, Eq, PartialOrd, Ord, Hash)]
pub struct EmptyBindingGeneratorConfig;

/// A table of settings, as `toml` holds it. Nothing of its inside is known here
/// but what [`table_entries`] names.
#[verifier::external_type_specification]
#[verifier::external_body]
#[verifier::reject_recursive_types(K)]
#[verifier::reject_recursive_types(V)]
pub struct ExTable<K, V>(toml::map::Map<K, V>);

/// A setting, as `toml` holds it. Nothing of its inside is known here.
#[verifier::external_type_specification]
#[verifier::external_body]
pub struct ExValue(toml::Value);

/// The entries of a table: the setting under each key.
pub uninterp spec fn table_entries(table: toml::map::Map<String, toml::Value>) -> Map<
    Seq<char>,
    toml::Value,
>;

/// The entries of a table after a default was given for a key: as they were,
/// where the table has the key; with the default under the key, where it has not.
pub open spec fn with_default(
    entries: Map<Seq<char>, toml::Value>,
    key: Seq<char>,
    value: toml::Value,
) -> Map<Seq<char>, toml::Value> {
    if entries.contains_key(key) {
        entries
    } else {
        entries.insert(key, value)
    }
}

/// The entries of a table after defaults were given, one after the other.
pub open spec fn with_defaults(
    entries: Map<Seq<char>, toml::Value>,
    defaults: Seq<(String, toml::Value)>,
) -> Map<Seq<char>, toml::Value>
    decreases defaults.len(),
{
    if defaults.len() == 0 {
        entries
    } else {
        with_default(
            with_defaults(entries, defaults.drop_last()),
            defaults.last().0@,
            defaults.last().1,
        )
    }
}

/// Puts `value` under `key` unless the table has the key. Wraps
/// `toml::map::Map::entry` and `toml::map::Entry::or_insert`: the entry of a key
/// that the table has is left as it is, and a key that it has not is inserted
/// with the value given; no other entry is touched.
#[verifier::external_body]
fn insert_if_absent(
    table: &mut toml::map::Map<String, toml::Value>,
    key: String,
    value: toml::Value,
)
    ensures
        table_entries(*final(table)) == with_default(table_entries(*old(table)), key@, value),
{
    table.entry(key).or_insert(value);
}

/// Fills the settings that a table leaves open with defaults: each default is
/// put under its key unless the table has the key by then.
pub fn fill_defaults(
    table: &mut toml::map::Map<String, toml::Value>,
    defaults: Vec<(String, toml::Value)>,
)
    ensures
        table_entries(*final(table)) == with_defaults(table_entries(*old(table)), defaults@),
{
    let ghost all = defaults@;
    let ghost start = table_entries(*table);
    let mut rest = defaults;
    proof {
        assert(all.take(0) =~= Seq::<(String, toml::Value)>::empty());
        assert(all.skip(0) =~= all);
    }
    while rest.len() > 0
        invariant
            start == table_entries(*old(table)),
            rest@.len() <= all.len(),
            rest@ == all.skip(all.len() - rest@.len()),
            table_entries(*table) == with_defaults(start, all.take(all.len() - rest@.len())),
        decreases rest@.len(),
    {
        let ghost done = all.len() - rest@.len();
        let (key, value) = rest.remove(0);
        proof {
            assert(all[done] == (key, value));
            assert(all.take(done + 1).drop_last() =~= all.take(done));
            assert(all.take(done + 1).last() == all[done]);
            assert(rest@ =~= all.skip(done + 1));
        }
        insert_if_absent(table, key, value);
    }
    proof {
        assert(all.take(all.len() as int) =~= all);
    }
}


} // verus!
