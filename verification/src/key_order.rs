//! The order of `String` keys in a `BTreeMap`: lexicographic by Unicode
//! scalar value (the same as byte order of the UTF-8 encoding), and
//! sorted keyed vectors built on it.

use vstd::prelude::*;

verus! {

/// `a` sorts strictly before `b`.
pub open spec fn key_less(a: Seq<char>, b: Seq<char>) -> bool
    decreases a.len(),
{
    if a.len() == 0 {
        b.len() > 0
    } else if b.len() == 0 {
        false
    } else if a[0] != b[0] {
        (a[0] as u32) < (b[0] as u32)
    } else {
        key_less(a.skip(1), b.skip(1))
    }
}

/// Keys strictly increase along the vector, so no key repeats.
pub open spec fn keys_sorted<X>(entries: Seq<(String, X)>) -> bool {
    forall|i: int, j: int|
        0 <= i < j < entries.len() ==> key_less(#[trigger] entries[i].0@, #[trigger] entries[j].0@)
}

/// Position of `key` among the entries, if present.
pub open spec fn key_position<X>(entries: Seq<(String, X)>, key: Seq<char>) -> Option<int> {
    if exists|i: int| 0 <= i < entries.len() && entries[i].0@ == key {
        Some(choose|i: int| 0 <= i < entries.len() && entries[i].0@ == key)
    } else {
        None
    }
}

/// In a sorted keyed sequence, an entry's key leads back to that entry.
pub proof fn lemma_sorted_key_position<X>(entries: Seq<(String, X)>, index: int)
    requires
        keys_sorted(entries),
        0 <= index < entries.len(),
    ensures
        key_position(entries, entries[index].0@) == Some(index),
{
    let key = entries[index].0@;
    if let Some(found) = key_position(entries, key) {
        if found < index {
            assert(key_less(entries[found].0@, entries[index].0@));
            lemma_key_less_irreflexive(key);
        } else if found > index {
            assert(key_less(entries[index].0@, entries[found].0@));
            lemma_key_less_irreflexive(key);
        }
    } else {
        assert(entries[index].0@ == key);
    }
}

/// Result of comparing two keys.
pub enum KeyOrder {
    Before,
    Same,
    After,
}

pub proof fn lemma_key_less_irreflexive(a: Seq<char>)
    ensures
        !key_less(a, a),
    decreases a.len(),
{
    if a.len() > 0 {
        lemma_key_less_irreflexive(a.skip(1));
    }
}

pub proof fn lemma_key_less_asymmetric(a: Seq<char>, b: Seq<char>)
    requires
        key_less(a, b),
    ensures
        !key_less(b, a),
    decreases a.len(),
{
    if a.len() > 0 && b.len() > 0 && a[0] == b[0] {
        lemma_key_less_asymmetric(a.skip(1), b.skip(1));
    }
}

pub proof fn lemma_key_less_transitive(a: Seq<char>, b: Seq<char>, c: Seq<char>)
    requires
        key_less(a, b),
        key_less(b, c),
    ensures
        key_less(a, c),
    decreases a.len(),
{
    if a.len() > 0 && b.len() > 0 && c.len() > 0 && a[0] == b[0] && b[0] == c[0] {
        lemma_key_less_transitive(a.skip(1), b.skip(1), c.skip(1));
    }
}

pub proof fn lemma_key_less_total(a: Seq<char>, b: Seq<char>)
    requires
        a != b,
    ensures
        key_less(a, b) || key_less(b, a),
    decreases a.len(),
{
    if a.len() > 0 && b.len() > 0 && a[0] == b[0] {
        if a.skip(1) == b.skip(1) {
            assert(a =~= seq![a[0]] + a.skip(1));
            assert(b =~= seq![b[0]] + b.skip(1));
        }
        lemma_key_less_total(a.skip(1), b.skip(1));
    } else if a.len() == 0 && b.len() == 0 {
        assert(a =~= b);
    } else if a.len() > 0 && b.len() > 0 {
        lemma_char_code_injective(a[0], b[0]);
    }
}

/// Distinct characters have distinct code points.
pub proof fn lemma_char_code_injective(x: char, y: char)
    requires
        x != y,
    ensures
        x as u32 != y as u32,
{
    vstd::utf8::char_u32_cast(x, x as u32);
    vstd::utf8::char_u32_cast(y, y as u32);
}

/// Compares two keys in map order.
pub fn compare_keys(a: &str, b: &str) -> (order: KeyOrder)
    ensures
        order is Before <==> key_less(a@, b@),
        order is Same <==> a@ == b@,
        order is After <==> key_less(b@, a@),
{
    let a_length = a.unicode_len();
    let b_length = b.unicode_len();
    let mut index: usize = 0;
    assert(a@.skip(0) =~= a@);
    assert(b@.skip(0) =~= b@);
    while index < a_length && index < b_length && a.get_char(index) == b.get_char(index)
        invariant
            a_length == a@.len(),
            b_length == b@.len(),
            index <= a_length,
            index <= b_length,
            a@.subrange(0, index as int) == b@.subrange(0, index as int),
            key_less(a@, b@) == key_less(a@.skip(index as int), b@.skip(index as int)),
            key_less(b@, a@) == key_less(b@.skip(index as int), a@.skip(index as int)),
        decreases a_length - index,
    {
        proof {
            let rest_a = a@.skip(index as int);
            let rest_b = b@.skip(index as int);
            assert(rest_a.skip(1) =~= a@.skip(index + 1));
            assert(rest_b.skip(1) =~= b@.skip(index + 1));
            assert(rest_a[0] == a@[index as int]);
            assert(rest_b[0] == b@[index as int]);
            assert(a@.subrange(0, index + 1) =~= a@.subrange(0, index as int).push(a@[index as int]));
            assert(b@.subrange(0, index + 1) =~= b@.subrange(0, index as int).push(b@[index as int]));
        }
        index = index + 1;
    }
    let ghost rest_a = a@.skip(index as int);
    let ghost rest_b = b@.skip(index as int);
    if index == a_length && index == b_length {
        assert(a@ =~= a@.subrange(0, index as int));
        assert(b@ =~= b@.subrange(0, index as int));
        proof {
            lemma_key_less_irreflexive(a@);
        }
        return KeyOrder::Same;
    }
    if index == a_length {
        assert(rest_a.len() == 0 && rest_b.len() > 0);
        proof {
            lemma_key_less_asymmetric(a@, b@);
        }
        assert(a@ != b@) by {
            assert(a@.len() != b@.len());
        }
        return KeyOrder::Before;
    }
    if index == b_length {
        assert(rest_b.len() == 0 && rest_a.len() > 0);
        proof {
            lemma_key_less_asymmetric(b@, a@);
        }
        assert(a@ != b@) by {
            assert(a@.len() != b@.len());
        }
        return KeyOrder::After;
    }
    let a_char = a.get_char(index);
    let b_char = b.get_char(index);
    assert(rest_a[0] == a_char && rest_b[0] == b_char);
    assert(a@ != b@) by {
        assert(a@[index as int] != b@[index as int]);
    }
    if (a_char as u32) < (b_char as u32) {
        proof {
            lemma_key_less_asymmetric(a@, b@);
        }
        KeyOrder::Before
    } else {
        assert((b_char as u32) < (a_char as u32)) by {
            assert(a_char != b_char);
            lemma_char_code_injective(a_char, b_char);
        }
        proof {
            lemma_key_less_asymmetric(b@, a@);
        }
        KeyOrder::After
    }
}

/// Index of the entry whose key equals `key`, found by scanning.
pub fn find_key<X>(entries: &Vec<(String, X)>, key: &str) -> (found: Option<usize>)
    ensures
        found matches Some(index) ==> index < entries@.len() && entries@[index as int].0@ == key@,
        found is None ==> forall|i: int| 0 <= i < entries@.len() ==> entries@[i].0@ != key@,
        keys_sorted(entries@) ==> (found matches Some(index) ==> key_position(entries@, key@)
            == Some(index as int)),
        found is None ==> key_position(entries@, key@) is None,
{
    let mut index: usize = 0;
    while index < entries.len()
        invariant
            index <= entries@.len(),
            forall|i: int| 0 <= i < index ==> entries@[i].0@ != key@,
        decreases entries@.len() - index,
    {
        if let KeyOrder::Same = compare_keys(entries[index].0.as_str(), key) {
            proof {
                if keys_sorted(entries@) {
                    let chosen = choose|i: int| 0 <= i < entries@.len() && entries@[i].0@ == key@;
                    if chosen != index {
                        if chosen < index {
                            lemma_key_less_irreflexive(key@);
                        } else {
                            assert(key_less(entries@[index as int].0@, entries@[chosen].0@));
                            lemma_key_less_irreflexive(key@);
                        }
                    }
                }
            }
            return Some(index);
        }
        index = index + 1;
    }
    None
}

/// Inserts `value` under `key` at the position that keeps keys sorted;
/// hands the value back when the key is already present.
pub fn insert_sorted<X>(entries: &mut Vec<(String, X)>, key: String, value: X) -> (outcome:
    Result<usize, X>)
    requires
        keys_sorted(old(entries)@),
    ensures
        keys_sorted(final(entries)@),
        outcome matches Err(returned) ==> returned == value && final(entries)@ == old(entries)@
            && exists|i: int| 0 <= i < old(entries)@.len() && old(entries)@[i].0@ == key@,
        outcome matches Ok(position) ==> position <= old(entries)@.len() && final(entries)@
            == old(entries)@.insert(position as int, (key, value)) && forall|i: int|
            0 <= i < old(entries)@.len() ==> old(entries)@[i].0@ != key@,
{
    let mut position: usize = 0;
    let mut stopped = false;
    while position < entries.len() && !stopped
        invariant
            position <= entries@.len(),
            entries@ == old(entries)@,
            keys_sorted(entries@),
            forall|i: int| 0 <= i < position ==> key_less(#[trigger] entries@[i].0@, key@),
            stopped ==> position < entries@.len() && key_less(key@, entries@[position as int].0@),
        decreases entries@.len() - position + if stopped {
            0int
        } else {
            1int
        },
    {
        match compare_keys(entries[position].0.as_str(), key.as_str()) {
            KeyOrder::Before => {
                position = position + 1;
            },
            KeyOrder::Same => {
                proof {
                    assert(old(entries)@[position as int].0@ == key@);
                }
                return Err(value);
            },
            KeyOrder::After => {
                stopped = true;
            },
        }
    }
    let ghost before = entries@;
    proof {
        assert forall|j: int| position <= j < before.len() implies key_less(
            key@,
            #[trigger] before[j].0@,
        ) by {
            if j > position {
                assert(key_less(before[position as int].0@, before[j].0@));
                lemma_key_less_transitive(key@, before[position as int].0@, before[j].0@);
            }
        }
        assert forall|i: int| 0 <= i < before.len() implies before[i].0@ != key@ by {
            if i < position {
                lemma_key_less_irreflexive(key@);
            } else {
                lemma_key_less_irreflexive(key@);
            }
        }
    }
    entries.insert(position, (key, value));
    proof {
        let after = entries@;
        assert forall|i: int, j: int| 0 <= i < j < after.len() implies key_less(
            #[trigger] after[i].0@,
            #[trigger] after[j].0@,
        ) by {
            if i < position && j < position {
                assert(after[i] == before[i] && after[j] == before[j]);
            } else if i < position && j == position {
            } else if i < position && j > position {
                assert(after[j] == before[j - 1]);
                lemma_key_less_transitive(before[i].0@, key@, before[j - 1].0@);
            } else if i == position {
                assert(after[j] == before[j - 1]);
            } else {
                assert(after[i] == before[i - 1] && after[j] == before[j - 1]);
            }
        }
    }
    Ok(position)
}

/// Removes the entry stored under `key`.
pub fn remove_key<X>(entries: &mut Vec<(String, X)>, key: &str) -> (removed: Option<X>)
    requires
        keys_sorted(old(entries)@),
    ensures
        keys_sorted(final(entries)@),
        removed is None ==> final(entries)@ == old(entries)@ && forall|i: int|
            0 <= i < old(entries)@.len() ==> old(entries)@[i].0@ != key@,
        removed matches Some(value) ==> exists|i: int|
            0 <= i < old(entries)@.len() && old(entries)@[i].0@ == key@ && old(entries)@[i].1
                == value && final(entries)@ == old(entries)@.remove(i),
        forall|i: int| 0 <= i < final(entries)@.len() ==> final(entries)@[i].0@ != key@,
{
    match find_key(entries, key) {
        None => None,
        Some(index) => {
            let ghost before = entries@;
            let (_removed_key, value) = entries.remove(index);
            proof {
                let after = entries@;
                assert forall|i: int, j: int| 0 <= i < j < after.len() implies key_less(
                    #[trigger] after[i].0@,
                    #[trigger] after[j].0@,
                ) by {
                    if i < index && j < index {
                        assert(after[i] == before[i] && after[j] == before[j]);
                    } else if i < index {
                        assert(after[i] == before[i] && after[j] == before[j + 1]);
                    } else {
                        assert(after[i] == before[i + 1] && after[j] == before[j + 1]);
                    }
                }
                assert forall|i: int| 0 <= i < after.len() implies after[i].0@ != key@ by {
                    if i < index {
                        assert(after[i] == before[i]);
                        assert(key_less(before[i].0@, before[index as int].0@));
                        lemma_key_less_irreflexive(key@);
                    } else {
                        assert(after[i] == before[i + 1]);
                        assert(key_less(before[index as int].0@, before[i + 1].0@));
                        lemma_key_less_irreflexive(key@);
                    }
                }
            }
            Some(value)
        },
    }
}

} // verus!
