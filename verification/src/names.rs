//! Names as keys: equality of names, and a table from names to values.

use vstd::prelude::*;
use vstd::utf8::{encode_utf8, encode_utf8_decode_utf8};

verus! {

/// Whether two names consist of the same characters.
///
/// Names are compared by their UTF-8 bytes; since the encoding can be
/// decoded again, equal bytes mean equal characters.
pub fn same_name(a: &str, b: &str) -> (same: bool)
    ensures
        same == (a@ == b@),
{
    let x = a.as_bytes();
    let y = b.as_bytes();
    proof {
        encode_utf8_decode_utf8(a@);
        encode_utf8_decode_utf8(b@);
    }
    if x.len() != y.len() {
        return false;
    }
    let mut i: usize = 0;
    while i < x.len()
        invariant
            x@ == encode_utf8(a@),
            y@ == encode_utf8(b@),
            x@.len() == y@.len(),
            i <= x@.len(),
            forall|j: int| 0 <= j < i ==> x@[j] == y@[j],
        decreases x@.len() - i,
    {
        if x[i] != y[i] {
            return false;
        }
        i += 1;
    }
    assert(x@ =~= y@);
    true
}

/// The map that results from binding each name of `entries` to its value,
/// first entry first, a later binding of a name replacing an earlier one.
spec fn bindings<V>(entries: Seq<(&'static str, V)>) -> Map<Seq<char>, V>
    decreases entries.len(),
{
    if entries.len() == 0 {
        Map::empty()
    } else {
        bindings(entries.drop_last()).insert(entries.last().0@, entries.last().1)
    }
}

/// A name that no entry after the `k`-th carries is bound to the value of
/// the `k`-th entry, if that entry carries it.
proof fn lemma_last_entry_binds<V>(entries: Seq<(&'static str, V)>, name: Seq<char>, k: int)
    requires
        0 <= k < entries.len(),
        entries[k].0@ == name,
        forall|j: int| k < j < entries.len() ==> (#[trigger] entries[j]).0@ != name,
    ensures
        bindings(entries).contains_key(name),
        bindings(entries)[name] == entries[k].1,
    decreases entries.len(),
{
    if k < entries.len() - 1 {
        assert(entries[entries.len() - 1].0@ != name);
        lemma_last_entry_binds(entries.drop_last(), name, k);
    }
}

/// A name that no entry carries is not bound.
proof fn lemma_no_entry_binds<V>(entries: Seq<(&'static str, V)>, name: Seq<char>)
    requires
        forall|j: int| 0 <= j < entries.len() ==> (#[trigger] entries[j]).0@ != name,
    ensures
        !bindings(entries).contains_key(name),
    decreases entries.len(),
{
    if entries.len() > 0 {
        assert(entries[entries.len() - 1].0@ != name);
        lemma_no_entry_binds(entries.drop_last(), name);
    }
}

/// A table from names to values.
///
/// Its view is the map from each bound name to its value. Binding a name
/// again replaces the value that the name had.
pub struct NameTable<V> {
    entries: Vec<(&'static str, V)>,
}

impl<V> View for NameTable<V> {
    type V = Map<Seq<char>, V>;

    closed spec fn view(&self) -> Map<Seq<char>, V> {
        bindings(self.entries@)
    }
}

impl<V> NameTable<V> {
    /// The table that binds no name.
    pub fn new() -> (table: Self)
        ensures
            table@ == Map::<Seq<char>, V>::empty(),
    {
        NameTable { entries: Vec::new() }
    }

    /// Binds `name` to `value`, in place of any value that it was bound to.
    pub fn insert(&mut self, name: &'static str, value: V)
        ensures
            final(self)@ == old(self)@.insert(name@, value),
    {
        self.entries.push((name, value));
        assert(self.entries@.drop_last() == old(self).entries@);
    }

    /// The value that `name` is bound to, if it is bound.
    pub fn get(&self, name: &str) -> (found: Option<V>) where V: Copy
        ensures
            found == (if self@.contains_key(name@) {
                Some(self@[name@])
            } else {
                None
            }),
    {
        let mut i: usize = self.entries.len();
        while i > 0
            invariant
                i <= self.entries@.len(),
                forall|j: int| i <= j < self.entries@.len() ==> (#[trigger] self.entries@[j]).0@ != name@,
            decreases i,
        {
            i -= 1;
            if same_name(self.entries[i].0, name) {
                proof {
                    lemma_last_entry_binds(self.entries@, name@, i as int);
                }
                return Some(self.entries[i].1);
            }
        }
        proof {
            lemma_no_entry_binds(self.entries@, name@);
        }
        None
    }
}

} // verus!
