//! Header lists: pairs of a name and a value in which no name occurs twice,
//! read as a mapping from names to values.

use vstd::prelude::*;
use crate::text::str_eq;

verus! {

/// No two entries of `list` carry the same name.
pub open spec fn distinct_names<V>(list: Seq<(String, V)>) -> bool {
    forall|i: int, j: int| 0 <= i < j < list.len() ==> list[i].0@ != list[j].0@
}

/// Some entry of `list` carries `name`.
pub open spec fn has_name<V>(list: Seq<(String, V)>, name: Seq<char>) -> bool {
    exists|i: int| 0 <= i < list.len() && #[trigger] list[i].0@ == name
}

/// The position of an entry of `list` that carries `name`.
pub open spec fn index_of_name<V>(list: Seq<(String, V)>, name: Seq<char>) -> int {
    choose|i: int| 0 <= i < list.len() && #[trigger] list[i].0@ == name
}

/// The mapping that a header list stands for. Where no name occurs twice it sends each
/// name to the value listed beside it.
pub open spec fn as_map<V: View>(list: Seq<(String, V)>) -> Map<Seq<char>, V::V> {
    Map::new(
        |name: Seq<char>| has_name(list, name),
        |name: Seq<char>| list[index_of_name(list, name)].1@,
    )
}

/// In a list without repeated names, every entry is found under its own name.
pub proof fn lemma_entry_is_mapped<V: View>(list: Seq<(String, V)>, i: int)
    requires
        distinct_names(list),
        0 <= i < list.len(),
    ensures
        as_map(list).dom().contains(list[i].0@),
        as_map(list)[list[i].0@] == list[i].1@,
{
    let name = list[i].0@;
    assert(has_name(list, name));
    let k = index_of_name(list, name);
    assert(0 <= k < list.len() && list[k].0@ == name);
    assert(k == i);
}

/// Appending an entry under a new name adds it to the mapping.
pub proof fn lemma_push_inserts<V: View>(list: Seq<(String, V)>, entry: (String, V))
    requires
        distinct_names(list),
        !has_name(list, entry.0@),
    ensures
        distinct_names(list.push(entry)),
        as_map(list.push(entry)) == as_map(list).insert(entry.0@, entry.1@),
{
    let after = list.push(entry);
    assert forall|i: int, j: int| 0 <= i < j < after.len() implies after[i].0@ != after[j].0@ by {
        if j == list.len() {
            assert(list[i].0@ == after[i].0@);
        }
    }
    assert forall|name: Seq<char>| has_name(after, name) <==> (has_name(list, name) || name
        == entry.0@) by {
        if has_name(after, name) {
            let k = index_of_name(after, name);
            if k < list.len() {
                assert(list[k].0@ == name);
            }
        }
        if has_name(list, name) {
            let k = index_of_name(list, name);
            assert(after[k].0@ == name);
        }
        if name == entry.0@ {
            assert(after[list.len() as int].0@ == name);
        }
    }
    assert forall|name: Seq<char>| has_name(after, name) implies #[trigger] as_map(after)[name]
        == as_map(list).insert(entry.0@, entry.1@)[name] by {
        let k = index_of_name(after, name);
        lemma_entry_is_mapped(after, k);
        if k < list.len() {
            assert(list[k].0@ == name);
            lemma_entry_is_mapped(list, k);
        }
    }
    assert(as_map(after) =~= as_map(list).insert(entry.0@, entry.1@));
}

/// Replacing the value beside a name replaces it in the mapping.
pub proof fn lemma_update_inserts<V: View>(list: Seq<(String, V)>, i: int, entry: (String, V))
    requires
        distinct_names(list),
        0 <= i < list.len(),
        list[i].0@ == entry.0@,
    ensures
        distinct_names(list.update(i, entry)),
        as_map(list.update(i, entry)) == as_map(list).insert(entry.0@, entry.1@),
{
    let after = list.update(i, entry);
    assert forall|a: int, b: int| 0 <= a < b < after.len() implies after[a].0@ != after[b].0@ by {
        assert(after[a].0@ == list[a].0@);
        assert(after[b].0@ == list[b].0@);
    }
    assert forall|name: Seq<char>| has_name(after, name) <==> has_name(list, name) by {
        if has_name(after, name) {
            let k = index_of_name(after, name);
            assert(list[k].0@ == name);
        }
        if has_name(list, name) {
            let k = index_of_name(list, name);
            assert(after[k].0@ == name);
        }
    }
    assert(has_name(list, entry.0@));
    assert forall|name: Seq<char>| has_name(after, name) implies #[trigger] as_map(after)[name]
        == as_map(list).insert(entry.0@, entry.1@)[name] by {
        let k = index_of_name(after, name);
        lemma_entry_is_mapped(after, k);
        assert(list[k].0@ == name);
        lemma_entry_is_mapped(list, k);
    }
    assert(as_map(after) =~= as_map(list).insert(entry.0@, entry.1@));
}

/// The entries of a header list as plain values.
pub open spec fn plain<V: View>(list: Seq<(String, V)>) -> Seq<(Seq<char>, V::V)> {
    Seq::new(list.len(), |i: int| (list[i].0@, list[i].1@))
}

/// The mapping that a run of fields stands for: they are taken in order, and a later
/// field replaces an earlier one of the same name.
pub open spec fn merged<V>(fields: Seq<(Seq<char>, V)>) -> Map<Seq<char>, V>
    decreases fields.len(),
{
    if fields.len() == 0 {
        Map::empty()
    } else {
        merged(fields.drop_last()).insert(fields.last().0, fields.last().1)
    }
}

/// Of several fields with one name the last one counts.
pub proof fn lemma_merged_last_wins<V>(fields: Seq<(Seq<char>, V)>, i: int)
    requires
        0 <= i < fields.len(),
        forall|j: int| i < j < fields.len() ==> fields[j].0 != fields[i].0,
    ensures
        merged(fields).dom().contains(fields[i].0),
        merged(fields)[fields[i].0] == fields[i].1,
    decreases fields.len(),
{
    if i < fields.len() - 1 {
        let before = fields.drop_last();
        assert(before[i] == fields[i]);
        assert forall|j: int| i < j < before.len() implies before[j].0 != before[i].0 by {
            assert(before[j] == fields[j]);
        }
        lemma_merged_last_wins(before, i);
    }
}

/// A header list without repeated names stands for the mapping that its entries merge to.
pub proof fn lemma_merged_of_distinct<V: View>(list: Seq<(String, V)>)
    requires
        distinct_names(list),
    ensures
        merged(plain(list)) == as_map(list),
    decreases list.len(),
{
    if list.len() == 0 {
        assert(as_map(list) =~= Map::empty());
    } else {
        let before = list.drop_last();
        assert forall|i: int, j: int| 0 <= i < j < before.len() implies before[i].0@
            != before[j].0@ by {
            assert(before[i] == list[i] && before[j] == list[j]);
        }
        lemma_merged_of_distinct(before);
        assert(plain(list).drop_last() =~= plain(before));
        if has_name(before, list.last().0@) {
            let k = index_of_name(before, list.last().0@);
            assert(list[k].0@ == list[list.len() - 1].0@);
        }
        lemma_push_inserts(before, list.last());
        assert(before.push(list.last()) =~= list);
    }
}

/// The position of the entry named `name`, if there is one.
pub fn find<V>(list: &Vec<(String, V)>, name: &str) -> (at: Option<usize>)
    ensures
        match at {
            Some(i) => i < list@.len() && list@[i as int].0@ == name@ && forall|k: int|
                0 <= k < i ==> list@[k].0@ != name@,
            None => !has_name(list@, name@),
        },
{
    let mut i: usize = 0;
    while i < list.len()
        invariant
            i <= list@.len(),
            forall|k: int| 0 <= k < i ==> list@[k].0@ != name@,
        decreases list@.len() - i,
    {
        if str_eq(list[i].0.as_str(), name) {
            return Some(i);
        }
        i += 1;
    }
    None
}

/// Sets the value of `name`: in place where the name is listed already, at the end otherwise.
pub fn upsert<V: View>(list: &mut Vec<(String, V)>, name: String, value: V)
    requires
        distinct_names(old(list)@),
    ensures
        distinct_names(final(list)@),
        as_map(final(list)@) == as_map(old(list)@).insert(name@, value@),
        has_name(old(list)@, name@) ==> final(list)@ == old(list)@.update(
            index_of_name(old(list)@, name@),
            (name, value),
        ),
        !has_name(old(list)@, name@) ==> final(list)@ == old(list)@.push((name, value)),
{
    match find(list, name.as_str()) {
        Some(i) => {
            proof {
                lemma_update_inserts(list@, i as int, (name, value));
                assert(has_name(list@, name@));
                let k = index_of_name(list@, name@);
                assert(list@[k].0@ == name@);
                assert(k == i);
            }
            list.set(i, (name, value));
        },
        None => {
            proof {
                lemma_push_inserts(list@, (name, value));
            }
            list.push((name, value));
        },
    }
}

/// Values that can be compared by their content.
pub trait Comparable: View + Sized {
    /// Whether `self` and `other` have the same content.
    fn same(&self, other: &Self) -> (r: bool)
        ensures
            r == (self@ == other@),
    ;
}

impl Comparable for String {
    fn same(&self, other: &String) -> (r: bool) {
        str_eq(self.as_str(), other.as_str())
    }
}

impl Comparable for Vec<u8> {
    fn same(&self, other: &Vec<u8>) -> (r: bool) {
        crate::text::bytes_eq(self.as_slice(), other.as_slice())
    }
}

/// Every entry of `list` stands in `other` with the same value.
pub open spec fn within<V: View>(list: Seq<(String, V)>, other: Seq<(String, V)>) -> bool {
    forall|i: int|
        0 <= i < list.len() ==> as_map(other).dom().contains(#[trigger] list[i].0@) && as_map(
            other,
        )[list[i].0@] == list[i].1@
}

/// Every name of `list` occurs in `other`.
pub open spec fn names_within<V>(list: Seq<(String, V)>, other: Seq<(String, V)>) -> bool {
    forall|i: int| 0 <= i < list.len() ==> has_name(other, #[trigger] list[i].0@)
}

/// Two lists of which each holds the other's names, and the second the first's values,
/// stand for the same mapping.
pub proof fn lemma_same_mapping<V: View>(a: Seq<(String, V)>, b: Seq<(String, V)>)
    requires
        within(a, b),
        names_within(b, a),
    ensures
        as_map(a) == as_map(b),
{
    assert forall|name: Seq<char>| as_map(a).dom().contains(name) <==> as_map(b).dom().contains(
        name,
    ) by {
        if has_name(a, name) {
            let i = index_of_name(a, name);
            assert(as_map(b).dom().contains(a[i].0@));
        }
        if has_name(b, name) {
            let j = index_of_name(b, name);
            assert(has_name(a, b[j].0@));
        }
    }
    assert forall|name: Seq<char>| as_map(a).dom().contains(name) implies #[trigger] as_map(a)[name]
        == as_map(b)[name] by {
        let i = index_of_name(a, name);
        assert(as_map(b)[a[i].0@] == a[i].1@);
    }
    assert(as_map(a) =~= as_map(b));
}

/// Two lists without repeated names that stand for the same mapping hold each other's
/// entries.
pub proof fn lemma_mapping_is_shared<V: View>(a: Seq<(String, V)>, b: Seq<(String, V)>)
    requires
        distinct_names(a),
        as_map(a) == as_map(b),
    ensures
        within(a, b),
        names_within(b, a),
{
    assert forall|i: int| 0 <= i < a.len() implies as_map(b).dom().contains(#[trigger] a[i].0@)
        && as_map(b)[a[i].0@] == a[i].1@ by {
        lemma_entry_is_mapped(a, i);
    }
    assert forall|j: int| 0 <= j < b.len() implies has_name(a, #[trigger] b[j].0@) by {
        assert(has_name(b, b[j].0@));
        assert(as_map(b).dom().contains(b[j].0@));
    }
}

/// Whether every entry of `list` stands in `other` with the same value.
pub fn is_within<V: Comparable>(list: &Vec<(String, V)>, other: &Vec<(String, V)>) -> (r: bool)
    requires
        distinct_names(other@),
    ensures
        r == within(list@, other@),
{
    let mut i: usize = 0;
    while i < list.len()
        invariant
            i <= list@.len(),
            distinct_names(other@),
            forall|k: int|
                0 <= k < i ==> as_map(other@).dom().contains(#[trigger] list@[k].0@) && as_map(
                    other@,
                )[list@[k].0@] == list@[k].1@,
        decreases list@.len() - i,
    {
        match find(other, list[i].0.as_str()) {
            Some(j) => {
                proof {
                    lemma_entry_is_mapped(other@, j as int);
                }
                if !list[i].1.same(&other[j].1) {
                    assert(as_map(other@)[list@[i as int].0@] != list@[i as int].1@);
                    return false;
                }
            },
            None => {
                assert(!as_map(other@).dom().contains(list@[i as int].0@));
                return false;
            },
        }
        i += 1;
    }
    true
}

/// Whether every name of `list` occurs in `other`.
pub fn has_names_of<V>(other: &Vec<(String, V)>, list: &Vec<(String, V)>) -> (r: bool)
    ensures
        r == names_within(list@, other@),
{
    let mut i: usize = 0;
    while i < list.len()
        invariant
            i <= list@.len(),
            forall|k: int| 0 <= k < i ==> has_name(other@, #[trigger] list@[k].0@),
        decreases list@.len() - i,
    {
        match find(other, list[i].0.as_str()) {
            Some(j) => {
                assert(has_name(other@, list@[i as int].0@));
            },
            None => {
                return false;
            },
        }
        i += 1;
    }
    true
}

/// Whether two header lists stand for the same mapping, where the second has no
/// repeated names. For a first list that has none either the answer is exact.
pub fn same_mapping<V: Comparable>(a: &Vec<(String, V)>, b: &Vec<(String, V)>) -> (r: bool)
    requires
        distinct_names(b@),
    ensures
        r ==> as_map(a@) == as_map(b@),
        distinct_names(a@) ==> r == (as_map(a@) == as_map(b@)),
{
    let r = is_within(a, b) && has_names_of(a, b);
    proof {
        if r {
            lemma_same_mapping(a@, b@);
        }
        if distinct_names(a@) && as_map(a@) == as_map(b@) {
            lemma_mapping_is_shared(a@, b@);
        }
    }
    r
}

} // verus!
