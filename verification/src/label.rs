//! Container labels: key and value pairs, and the label map of a container.

use crate::text::{chars_of, find_char, position, str_eq};
use vstd::prelude::*;
use vstd::string::*;

verus! {

/// A label: a key and its value.
#[derive(Clone, Debug, PartialEq, Eq)]
pub struct Label {
    pub key: String,
    pub value: String,
}

/// Why a `key=value` text was not read as a label.
#[derive(Clone, Copy, Debug, PartialEq, Eq, Structural)]
pub enum LabelError {
    /// The text holds no `=`, so it names no value.
    MissingValue,
}

/// A label as a plain value: key, then value.
pub type LabelView = (Seq<char>, Seq<char>);

impl View for Label {
    type V = LabelView;

    open spec fn view(&self) -> LabelView {
        (self.key@, self.value@)
    }
}

/// The label that a `key=value` text names: the key is what stands before
/// the first `=`, the value all that follows it.
pub open spec fn parsed_label(text: Seq<char>) -> Option<LabelView> {
    let i = position(text, '=');
    if i < text.len() {
        Some((text.take(i), text.skip(i + 1)))
    } else {
        None
    }
}

impl Label {
    /// Reads a label selector of the form `key=value`.
    pub fn from_str(s: &str) -> (r: Result<Label, LabelError>)
        ensures
            match r {
                Ok(label) => parsed_label(s@) == Some(label@),
                Err(e) => parsed_label(s@) is None && e == LabelError::MissingValue,
            },
    {
        let chars = chars_of(s);
        let n = chars.len();
        let i = find_char(&chars, '=');
        if i >= n {
            return Err(LabelError::MissingValue);
        }
        let key = s.substring_char(0, i);
        let value = s.substring_char(i + 1, n);
        assert(s@.subrange(0, i as int) =~= s@.take(i as int));
        assert(s@.subrange(i + 1, n as int) =~= s@.skip(i + 1));
        Ok(Label { key: key.to_owned(), value: value.to_owned() })
    }
}

/// A selector as a plain value.
pub open spec fn selector_view(selector: Option<Label>) -> Option<LabelView> {
    match selector {
        Some(label) => Some(label@),
        None => None,
    }
}

/// The position of the first label of `labels` whose key is `key`, or the
/// length of `labels` where no label has it.
pub open spec fn key_index(labels: Seq<LabelView>, key: Seq<char>) -> int
    decreases labels.len(),
{
    if labels.len() == 0 || labels.first().0 == key {
        0
    } else {
        1 + key_index(labels.drop_first(), key)
    }
}

/// The value of the first label of `labels` whose key is `key`.
pub open spec fn lookup(labels: Seq<LabelView>, key: Seq<char>) -> Option<Seq<char>> {
    let i = key_index(labels, key);
    if i < labels.len() {
        Some(labels[i].1)
    } else {
        None
    }
}

/// No two labels of `labels` share a key.
pub open spec fn distinct_keys(labels: Seq<LabelView>) -> bool {
    forall|i: int, j: int|
        0 <= i < j < labels.len() ==> (#[trigger] labels[i]).0 != (#[trigger] labels[j]).0
}

/// `key_index` is in range, points at a label with the key unless it is the
/// length, and no label before it has the key.
pub proof fn lemma_key_index(labels: Seq<LabelView>, key: Seq<char>)
    ensures
        0 <= key_index(labels, key) <= labels.len(),
        key_index(labels, key) < labels.len() ==> labels[key_index(labels, key)].0 == key,
        forall|k: int| 0 <= k < key_index(labels, key) ==> (#[trigger] labels[k]).0 != key,
    decreases labels.len(),
{
    if labels.len() == 0 || labels.first().0 == key {
    } else {
        let t = labels.drop_first();
        lemma_key_index(t, key);
        assert forall|k: int| 0 <= k < key_index(labels, key) implies (#[trigger] labels[k]).0
            != key by {
            if k > 0 {
                assert(labels[k] == t[k - 1]);
            }
        }
    }
}

/// An index whose label has the key, with no such label before it, is the
/// `key_index` of the key.
pub proof fn lemma_key_index_unique(labels: Seq<LabelView>, key: Seq<char>, i: int)
    requires
        0 <= i <= labels.len(),
        forall|k: int| 0 <= k < i ==> (#[trigger] labels[k]).0 != key,
        i < labels.len() ==> labels[i].0 == key,
    ensures
        key_index(labels, key) == i,
{
    lemma_key_index(labels, key);
    let p = key_index(labels, key);
    if p < i {
        assert(labels[p].0 != key);
    }
}

/// The labels of a container, each key at most once, in the order in which
/// the keys were first inserted.
#[derive(Clone, Debug, PartialEq, Eq)]
pub struct LabelMap {
    pub entries: Vec<Label>,
}

impl View for LabelMap {
    type V = Seq<LabelView>;

    open spec fn view(&self) -> Seq<LabelView> {
        self.entries@.map_values(|l: Label| l@)
    }
}

impl LabelMap {
    /// No key occurs twice.
    pub open spec fn wf(&self) -> bool {
        distinct_keys(self@)
    }

    /// A map without labels.
    pub fn new() -> (m: LabelMap)
        ensures
            m@ == Seq::<LabelView>::empty(),
            m.wf(),
    {
        let m = LabelMap { entries: Vec::new() };
        assert(m@ =~= Seq::<LabelView>::empty());
        m
    }

    /// The number of labels.
    pub fn len(&self) -> (n: usize)
        ensures
            n == self@.len(),
    {
        self.entries.len()
    }

    /// The position of the label with the given key, or the number of labels
    /// where there is none.
    pub fn find(&self, key: &str) -> (i: usize)
        ensures
            i == key_index(self@, key@),
            i <= self@.len(),
    {
        let mut i: usize = 0;
        while i < self.entries.len() && !str_eq(self.entries[i].key.as_str(), key)
            invariant
                i <= self.entries@.len(),
                forall|k: int| 0 <= k < i ==> (#[trigger] self@[k]).0 != key@,
            decreases self.entries.len() - i,
        {
            i += 1;
        }
        proof {
            lemma_key_index_unique(self@, key@, i as int);
        }
        i
    }

    /// The value of the label with the given key.
    pub fn get(&self, key: &str) -> (r: Option<&str>)
        ensures
            match r {
                Some(v) => lookup(self@, key@) == Some(v@),
                None => lookup(self@, key@) is None,
            },
    {
        let i = self.find(key);
        if i < self.entries.len() {
            Some(self.entries[i].value.as_str())
        } else {
            None
        }
    }

    /// Sets the value of `key`: in place where the key is present already,
    /// at the end where it is new.
    pub fn insert(&mut self, key: String, value: String)
        requires
            old(self).wf(),
        ensures
            final(self).wf(),
            lookup(final(self)@, key@) == Some(value@),
            final(self)@ == ({
                let before = old(self)@;
                let i = key_index(before, key@);
                if i < before.len() {
                    before.update(i, (key@, value@))
                } else {
                    before.push((key@, value@))
                }
            }),
    {
        let i = self.find(key.as_str());
        let ghost before = self@;
        let ghost entry = (key@, value@);
        proof {
            lemma_key_index(before, entry.0);
        }
        if i < self.entries.len() {
            self.entries.set(i, Label { key, value });
            assert(self@ =~= before.update(i as int, entry));
        } else {
            self.entries.push(Label { key, value });
            assert(self@ =~= before.push(entry));
        }
        proof {
            assert forall|a: int, b: int| 0 <= a < b < self@.len() implies (#[trigger] self@[a]).0
                != (#[trigger] self@[b]).0 by {
                if b < before.len() {
                    assert(before[a].0 != before[b].0);
                } else {
                    assert(before[a].0 != entry.0);
                }
            }
            lemma_key_index_unique(self@, entry.0, i as int);
        }
    }
}

} // verus!
