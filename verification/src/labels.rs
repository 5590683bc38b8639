//! Labels: texts filed under text keys.

use crate::error::DecodeError;
use crate::value::{Value, ValueView};
use crate::wire::Wire;
use vstd::prelude::*;
use vstd::set_lib::lemma_subset_equality;
use vstd::std_specs::cmp::PartialEqSpecImpl;

verus! {

/// Whether the pair at index `i` of `pairs` has the key `key`.
pub open spec fn keyed(pairs: Seq<(Seq<char>, Seq<char>)>, key: Seq<char>, i: int) -> bool {
    0 <= i < pairs.len() && pairs[i].0 == key
}

/// Whether the pair at index `i` is the last of `pairs` that has the key `key`.
pub open spec fn settles(pairs: Seq<(Seq<char>, Seq<char>)>, key: Seq<char>, i: int) -> bool {
    keyed(pairs, key, i) && forall|j: int| i < j ==> !keyed(pairs, key, j)
}

/// The mapping that a sequence of pairs stands for: a key maps to the value of the last pair
/// that has it.
pub open spec fn mapping(pairs: Seq<(Seq<char>, Seq<char>)>) -> Map<Seq<char>, Seq<char>> {
    Map::new(
        |key: Seq<char>| exists|i: int| keyed(pairs, key, i),
        |key: Seq<char>| pairs[choose|i: int| settles(pairs, key, i)].1,
    )
}

/// Whether no two pairs have the same key.
pub open spec fn distinct_keys(pairs: Seq<(Seq<char>, Seq<char>)>) -> bool {
    forall|i: int, j: int| 0 <= i < j < pairs.len() ==> pairs[i].0 != pairs[j].0
}

/// The keys and values of stored pairs, as plain texts.
pub open spec fn pairs_of(entries: Seq<(String, String)>) -> Seq<(Seq<char>, Seq<char>)> {
    Seq::new(entries.len(), |i: int| (entries[i].0@, entries[i].1@))
}

/// Whether each field of a record holds a text.
pub open spec fn all_texts(fields: Seq<(Seq<char>, ValueView)>) -> bool {
    forall|i: int| 0 <= i < fields.len() ==> (#[trigger] fields[i]).1 is Text
}

/// The names of a record's fields, each with the text that the field holds.
pub open spec fn texts_of(fields: Seq<(Seq<char>, ValueView)>) -> Seq<(Seq<char>, Seq<char>)> {
    Seq::new(fields.len(), |i: int| (fields[i].0, fields[i].1->Text_0))
}

/// A key that occurs among the pairs has a last occurrence.
pub proof fn lemma_settled(pairs: Seq<(Seq<char>, Seq<char>)>, key: Seq<char>, at: int)
    requires
        keyed(pairs, key, at),
    ensures
        exists|i: int| settles(pairs, key, i),
    decreases pairs.len() - at,
{
    if exists|j: int| at < j && keyed(pairs, key, j) {
        let j = choose|j: int| at < j && keyed(pairs, key, j);
        lemma_settled(pairs, key, j);
    } else {
        assert(settles(pairs, key, at));
    }
}

/// The mapping holds each key under the value of the key's last pair.
pub proof fn lemma_mapping_at(pairs: Seq<(Seq<char>, Seq<char>)>, key: Seq<char>, i: int)
    requires
        settles(pairs, key, i),
    ensures
        mapping(pairs).contains_key(key),
        mapping(pairs)[key] == pairs[i].1,
{
    let chosen = choose|c: int| settles(pairs, key, c);
    assert(keyed(pairs, key, chosen));
    assert(keyed(pairs, key, i));
    assert(chosen == i);
}

/// A pair added at the end sets its key to its value and leaves the other keys as they were.
pub proof fn lemma_mapping_push(pairs: Seq<(Seq<char>, Seq<char>)>, pair: (Seq<char>, Seq<char>))
    ensures
        mapping(pairs.push(pair)) == mapping(pairs).insert(pair.0, pair.1),
{
    let longer = pairs.push(pair);
    let end = pairs.len() as int;
    assert forall|key: Seq<char>|
        mapping(longer).contains_key(key) == #[trigger] mapping(pairs).insert(
            pair.0,
            pair.1,
        ).contains_key(key) by {
        if key == pair.0 {
            assert(keyed(longer, key, end));
        } else {
            if mapping(longer).contains_key(key) {
                let i = choose|i: int| keyed(longer, key, i);
                assert(keyed(pairs, key, i));
            }
            if mapping(pairs).contains_key(key) {
                let i = choose|i: int| keyed(pairs, key, i);
                assert(keyed(longer, key, i));
            }
        }
    }
    assert forall|key: Seq<char>| #[trigger] mapping(longer).contains_key(key) implies mapping(
        longer,
    )[key] == mapping(pairs).insert(pair.0, pair.1)[key] by {
        if key == pair.0 {
            assert(settles(longer, key, end));
            lemma_mapping_at(longer, key, end);
        } else {
            let i = choose|i: int| keyed(longer, key, i);
            assert(keyed(pairs, key, i));
            lemma_settled(pairs, key, i);
            let last = choose|l: int| settles(pairs, key, l);
            lemma_mapping_at(pairs, key, last);
            assert(settles(longer, key, last)) by {
                assert(keyed(longer, key, last));
                assert forall|j: int| last < j implies !keyed(longer, key, j) by {
                    if j < end {
                        assert(!keyed(pairs, key, j));
                    }
                }
            }
            lemma_mapping_at(longer, key, last);
        }
    }
    assert(mapping(longer) =~= mapping(pairs).insert(pair.0, pair.1));
}

/// The mapping holds finitely many keys, and as many as there are pairs where no two pairs
/// have the same key.
pub proof fn lemma_mapping_len(pairs: Seq<(Seq<char>, Seq<char>)>)
    ensures
        mapping(pairs).dom().finite(),
        mapping(pairs).len() <= pairs.len(),
        distinct_keys(pairs) ==> mapping(pairs).len() == pairs.len(),
    decreases pairs.len(),
{
    if pairs.len() == 0 {
        assert(mapping(pairs) =~= Map::<Seq<char>, Seq<char>>::empty());
    } else {
        let front = pairs.drop_last();
        let pair = pairs.last();
        lemma_mapping_len(front);
        lemma_mapping_push(front, pair);
        assert(front.push(pair) =~= pairs);
        if distinct_keys(pairs) {
            assert(distinct_keys(front));
            if mapping(front).contains_key(pair.0) {
                let i = choose|i: int| keyed(front, pair.0, i);
                assert(pairs[i].0 == pairs[pairs.len() - 1].0);
            }
        }
    }
}

/// Where no two pairs have the same key, the mapping holds each pair's key under its value.
pub proof fn lemma_mapping_distinct(pairs: Seq<(Seq<char>, Seq<char>)>, i: int)
    requires
        distinct_keys(pairs),
        0 <= i < pairs.len(),
    ensures
        mapping(pairs).contains_key(pairs[i].0),
        mapping(pairs)[pairs[i].0] == pairs[i].1,
{
    assert(settles(pairs, pairs[i].0, i)) by {
        assert forall|j: int| i < j implies !keyed(pairs, pairs[i].0, j) by {}
    }
    lemma_mapping_at(pairs, pairs[i].0, i);
}

/// Texts filed under text keys, each key once and in no particular order.
#[derive(Debug)]
pub struct Labels {
    entries: Vec<(String, String)>,
}

impl View for Labels {
    type V = Map<Seq<char>, Seq<char>>;

    closed spec fn view(&self) -> Map<Seq<char>, Seq<char>> {
        mapping(pairs_of(self.entries@))
    }
}

impl Labels {
    #[verifier::type_invariant]
    spec fn well_formed(self) -> bool {
        distinct_keys(pairs_of(self.entries@))
    }

    /// No labels.
    pub fn new() -> (made: Labels)
        ensures
            made@ == Map::<Seq<char>, Seq<char>>::empty(),
    {
        let made = Labels { entries: Vec::new() };
        assert(made@ =~= Map::<Seq<char>, Seq<char>>::empty());
        made
    }

    /// The number of labels.
    pub fn len(&self) -> (n: usize)
        ensures
            self@.dom().finite(),
            n == self@.len(),
    {
        proof {
            use_type_invariant(self);
            lemma_mapping_len(pairs_of(self.entries@));
        }
        self.entries.len()
    }

    /// Whether there is no label.
    pub fn is_empty(&self) -> (none: bool)
        ensures
            none == (self@ == Map::<Seq<char>, Seq<char>>::empty()),
    {
        proof {
            if self.entries.len() == 0 {
                assert(self@ =~= Map::<Seq<char>, Seq<char>>::empty());
            } else {
                assert(keyed(pairs_of(self.entries@), self.entries[0].0@, 0));
                assert(self@.contains_key(self.entries[0].0@));
            }
        }
        self.entries.len() == 0
    }

    /// Where among the entries a key stands.
    fn position(&self, key: &str) -> (at: Option<usize>)
        ensures
            at matches Some(i) ==> keyed(pairs_of(self.entries@), key@, i as int),
            at is None ==> forall|i: int| !keyed(pairs_of(self.entries@), key@, i),
    {
        let mut i: usize = 0;
        while i < self.entries.len()
            invariant
                i <= self.entries.len(),
                forall|k: int| 0 <= k < i ==> !keyed(pairs_of(self.entries@), key@, k),
            decreases self.entries.len() - i,
        {
            if key.eq(self.entries[i].0.as_str()) {
                return Some(i);
            }
            i += 1;
        }
        None
    }

    /// Whether a label goes by the key.
    pub fn contains_key(&self, key: &str) -> (held: bool)
        ensures
            held == self@.contains_key(key@),
    {
        let at = self.position(key);
        at.is_some()
    }

    /// The text filed under a key.
    pub fn get(&self, key: &str) -> (found: Option<&String>)
        ensures
            found matches Some(text) ==> self@.contains_key(key@) && self@[key@] == text@,
            found is None ==> !self@.contains_key(key@),
    {
        match self.position(key) {
            Some(i) => {
                proof {
                    use_type_invariant(self);
                    lemma_mapping_distinct(pairs_of(self.entries@), i as int);
                }
                Some(&self.entries[i].1)
            },
            None => None,
        }
    }

    /// The labels as pairs of key and text, each key once.
    pub fn entries(&self) -> (held: &Vec<(String, String)>)
        ensures
            distinct_keys(pairs_of(held@)),
            mapping(pairs_of(held@)) == self@,
    {
        proof {
            use_type_invariant(self);
        }
        &self.entries
    }

    /// Files a text under a key, and hands back the text that the key held before.
    pub fn insert(&mut self, key: String, value: String) -> (before: Option<String>)
        ensures
            final(self)@ == old(self)@.insert(key@, value@),
            before matches Some(text) ==> old(self)@.contains_key(key@) && old(self)@[key@]
                == text@,
            before is None ==> !old(self)@.contains_key(key@),
    {
        proof {
            use_type_invariant(&*self);
        }
        let ghost pairs = pairs_of(self.entries@);
        let at = self.position(key.as_str());
        // The entries are changed outside the value, which holds none meanwhile.
        let mut entries: Vec<(String, String)> = Vec::new();
        std::mem::swap(&mut self.entries, &mut entries);
        match at {
            Some(i) => {
                let before = entries[i].1.clone();
                proof {
                    lemma_mapping_distinct(pairs, i as int);
                }
                entries.set(i, (key, value));
                proof {
                    let changed = pairs_of(entries@);
                    assert(changed =~= pairs.update(i as int, (key@, value@)));
                    assert(distinct_keys(changed));
                    assert forall|k: Seq<char>|
                        mapping(changed).contains_key(k) == #[trigger] mapping(pairs).insert(
                            key@,
                            value@,
                        ).contains_key(k) by {
                        if mapping(changed).contains_key(k) {
                            let j = choose|j: int| keyed(changed, k, j);
                            assert(keyed(pairs, k, j));
                        }
                        if mapping(pairs).contains_key(k) {
                            let j = choose|j: int| keyed(pairs, k, j);
                            assert(keyed(changed, k, j));
                        }
                        assert(keyed(changed, key@, i as int));
                    }
                    assert forall|k: Seq<char>| #[trigger]
                        mapping(changed).contains_key(k) implies mapping(changed)[k] == mapping(
                        pairs,
                    ).insert(key@, value@)[k] by {
                        let j = choose|j: int| keyed(changed, k, j);
                        lemma_mapping_distinct(changed, j);
                        if k != key@ {
                            lemma_mapping_distinct(pairs, j);
                        } else {
                            assert(j == i);
                        }
                    }
                    assert(mapping(changed) =~= mapping(pairs).insert(key@, value@));
                }
                self.entries = entries;
                Some(before)
            },
            None => {
                entries.push((key, value));
                proof {
                    lemma_mapping_push(pairs, (key@, value@));
                    assert(pairs_of(entries@) =~= pairs.push((key@, value@)));
                    assert(distinct_keys(pairs_of(entries@))) by {
                        assert forall|a: int, b: int|
                            0 <= a < b < entries.len() implies pairs_of(entries@)[a].0
                            != pairs_of(entries@)[b].0 by {
                            if b == entries.len() - 1 {
                                assert(!keyed(pairs, key@, a));
                            }
                        }
                    }
                }
                self.entries = entries;
                None
            },
        }
    }
}

impl Clone for Labels {
    fn clone(&self) -> (copy: Labels)
        ensures
            copy@ == self@,
    {
        proof {
            use_type_invariant(self);
        }
        let mut entries: Vec<(String, String)> = Vec::new();
        let mut i: usize = 0;
        while i < self.entries.len()
            invariant
                i <= self.entries.len(),
                entries.len() == i,
                forall|k: int|
                    0 <= k < i ==> (#[trigger] entries[k]).0@ == self.entries[k].0@ && entries[k].1@
                        == self.entries[k].1@,
            decreases self.entries.len() - i,
        {
            entries.push((self.entries[i].0.clone(), self.entries[i].1.clone()));
            i += 1;
        }
        assert(pairs_of(entries@) =~= pairs_of(self.entries@));
        Labels { entries }
    }
}

/// Labels are equal where they hold the same texts under the same keys, in whatever order.
impl PartialEq for Labels {
    fn eq(&self, other: &Labels) -> (same: bool) {
        proof {
            use_type_invariant(self);
            use_type_invariant(other);
            lemma_mapping_len(pairs_of(self.entries@));
            lemma_mapping_len(pairs_of(other.entries@));
        }
        if self.entries.len() != other.entries.len() {
            return false;
        }
        let mut i: usize = 0;
        while i < self.entries.len()
            invariant
                i <= self.entries.len(),
                distinct_keys(pairs_of(self.entries@)),
                forall|k: int|
                    0 <= k < i ==> other@.contains_key(#[trigger] pairs_of(self.entries@)[k].0)
                        && other@[pairs_of(self.entries@)[k].0] == pairs_of(self.entries@)[k].1,
            decreases self.entries.len() - i,
        {
            proof {
                lemma_mapping_distinct(pairs_of(self.entries@), i as int);
            }
            match other.get(self.entries[i].0.as_str()) {
                Some(text) => {
                    if !text.as_str().eq(self.entries[i].1.as_str()) {
                        return false;
                    }
                },
                None => {
                    return false;
                },
            }
            i += 1;
        }
        proof {
            let pairs = pairs_of(self.entries@);
            assert forall|key: Seq<char>| self@.contains_key(key) implies other@.contains_key(key)
                && other@[key] == self@[key] by {
                let k = choose|k: int| keyed(pairs, key, k);
                lemma_mapping_distinct(pairs, k);
            }
            assert(self@.dom().subset_of(other@.dom()));
            lemma_subset_equality(self@.dom(), other@.dom());
            assert(self@ =~= other@);
        }
        true
    }
}

impl PartialEqSpecImpl for Labels {
    open spec fn obeys_eq_spec() -> bool {
        true
    }

    open spec fn eq_spec(&self, other: &Labels) -> bool {
        self@ == other@
    }
}

impl Default for Labels {
    fn default() -> (made: Labels)
        ensures
            made@ == Map::<Seq<char>, Seq<char>>::empty(),
    {
        Labels::new()
    }
}

/// Labels are written as a record with one text field for each label, in some order. They are
/// read from any record of text fields; of fields with the same name the last one counts.
impl Wire for Labels {
    open spec fn encodes(value: Map<Seq<char>, Seq<char>>, datum: ValueView) -> bool {
        &&& datum matches ValueView::Record(fields)
        &&& all_texts(fields)
        &&& distinct_keys(texts_of(fields))
        &&& mapping(texts_of(fields)) == value
    }

    open spec fn decoded(datum: ValueView) -> Result<Map<Seq<char>, Seq<char>>, DecodeError> {
        match datum {
            ValueView::Record(fields) => if all_texts(fields) {
                Ok(mapping(texts_of(fields)))
            } else {
                Err(DecodeError::Mismatch)
            },
            _ => Err(DecodeError::Mismatch),
        }
    }

    proof fn law_round_trip(value: Map<Seq<char>, Seq<char>>, datum: ValueView) {
    }

    fn encode(&self) -> (datum: Value) {
        proof {
            use_type_invariant(self);
        }
        let mut fields: Vec<(String, Value)> = Vec::new();
        let mut i: usize = 0;
        while i < self.entries.len()
            invariant
                i <= self.entries.len(),
                fields.len() == i,
                forall|k: int|
                    0 <= k < i ==> (#[trigger] fields[k]).0@ == self.entries[k].0@ && fields[k].1
                        == Value::Text(self.entries[k].1),
            decreases self.entries.len() - i,
        {
            fields.push((self.entries[i].0.clone(), Value::Text(self.entries[i].1.clone())));
            i += 1;
        }
        proof {
            Value::lemma_record_view(fields);
            let seen = Value::Record(fields)@->Record_0;
            assert(texts_of(seen) =~= pairs_of(self.entries@));
        }
        Value::Record(fields)
    }

    fn decode(datum: &Value) -> (read: Result<Labels, DecodeError>) {
        match datum {
            Value::Record(fields) => {
                let ghost seen = datum@->Record_0;
                proof {
                    Value::lemma_record_view(*fields);
                }
                let mut labels = Labels::new();
                let mut i: usize = 0;
                while i < fields.len()
                    invariant
                        i <= fields.len(),
                        datum@ == ValueView::Record(seen),
                        seen.len() == fields.len(),
                        forall|k: int|
                            0 <= k < fields.len() ==> seen[k] == (
                                (#[trigger] fields[k]).0@,
                                fields[k].1@,
                            ),
                        forall|k: int| 0 <= k < i ==> (#[trigger] seen[k]).1 is Text,
                        labels@ == mapping(texts_of(seen).take(i as int)),
                    decreases fields.len() - i,
                {
                    match &fields[i].1 {
                        Value::Text(text) => {
                            proof {
                                let texts = texts_of(seen);
                                lemma_mapping_push(texts.take(i as int), texts[i as int]);
                                assert(texts.take(i as int).push(texts[i as int]) =~= texts.take(
                                    i + 1,
                                ));
                            }
                            labels.insert(fields[i].0.clone(), text.clone());
                        },
                        _ => {
                            assert(!(seen[i as int].1 is Text));
                            return Err(DecodeError::Mismatch);
                        },
                    }
                    i += 1;
                }
                assert(texts_of(seen).take(i as int) =~= texts_of(seen));
                Ok(labels)
            },
            _ => Err(DecodeError::Mismatch),
        }
    }
}

} // verus!
