//! The document: a keyed mapping from field names to values, built one part
//! at a time, with the array grouping rule.
use vstd::prelude::*;
use crate::text::same_text;
use crate::value::{Datum, Value};

verus! {

/// One key of a document with its value.
#[derive(Debug)]
pub struct Entry {
    pub key: String,
    pub value: Value,
}

impl View for Entry {
    type V = (Seq<char>, Datum);

    open spec fn view(&self) -> (Seq<char>, Datum) {
        (self.key@, self.value@)
    }
}

/// The mathematical model of a document: its entries in insertion order.
pub type DocModel = Seq<(Seq<char>, Datum)>;

pub open spec fn keys_unique(d: DocModel) -> bool {
    forall|i: int, j: int| 0 <= i < d.len() && 0 <= j < d.len() && i != j ==> d[i].0 != d[j].0
}

pub open spec fn has_key(d: DocModel, k: Seq<char>) -> bool {
    exists|i: int| 0 <= i < d.len() && #[trigger] d[i].0 == k
}

/// The position of key `k` in `d`, when it is there.
pub open spec fn key_index(d: DocModel, k: Seq<char>) -> int {
    choose|i: int| 0 <= i < d.len() && #[trigger] d[i].0 == k
}

/// The value bound to `k`, if any.
pub open spec fn lookup(d: DocModel, k: Seq<char>) -> Option<Datum> {
    if has_key(d, k) {
        Some(d[key_index(d, k)].1)
    } else {
        None
    }
}

/// `d` with `k` bound to `v`: in place when `k` is present, else at the end.
pub open spec fn assign(d: DocModel, k: Seq<char>, v: Datum) -> DocModel {
    if has_key(d, k) {
        d.update(key_index(d, k), (k, v))
    } else {
        d.push((k, v))
    }
}

/// A field name that ends in `[]` asks for its values to be grouped.
pub open spec fn is_grouped_name(name: Seq<char>) -> bool {
    name.len() >= 2 && name[name.len() - 2] == '[' && name[name.len() - 1] == ']'
}

/// The document key of a field name: the name without a trailing `[]`.
pub open spec fn key_of(name: Seq<char>) -> Seq<char> {
    if is_grouped_name(name) {
        name.subrange(0, name.len() - 2)
    } else {
        name
    }
}

/// The grouping rule. A value joins an existing sequence under its key; a
/// grouped name with a new key starts a one-element sequence; any other name
/// with a new key binds the value itself. A key that is already bound to
/// something other than a sequence is a naming-convention violation: `None`.
pub open spec fn merge(d: DocModel, name: Seq<char>, v: Datum) -> Option<DocModel> {
    let k = key_of(name);
    if has_key(d, k) {
        match d[key_index(d, k)].1 {
            Datum::Sequence(items) => Some(d.update(key_index(d, k), (k, Datum::Sequence(items.push(v))))),
            _ => None,
        }
    } else if is_grouped_name(name) {
        Some(d.push((k, Datum::Sequence(seq![v]))))
    } else {
        Some(d.push((k, v)))
    }
}

proof fn lemma_key_index(d: DocModel, k: Seq<char>, i: int)
    requires
        keys_unique(d),
        0 <= i < d.len(),
        d[i].0 == k,
    ensures
        has_key(d, k),
        key_index(d, k) == i,
{
    assert(has_key(d, k));
}

proof fn lemma_assign_unique(d: DocModel, k: Seq<char>, v: Datum)
    requires
        keys_unique(d),
    ensures
        keys_unique(assign(d, k, v)),
{
    if has_key(d, k) {
        let i = key_index(d, k);
        assert(0 <= i < d.len() && d[i].0 == k);
    }
}

/// Merging values one after another, all sent under one field name.
pub open spec fn merge_all(d: DocModel, name: Seq<char>, vs: Seq<Datum>) -> Option<DocModel>
    decreases vs.len(),
{
    if vs.len() == 0 {
        Some(d)
    } else {
        match merge_all(d, name, vs.drop_last()) {
            Some(d1) => merge(d1, name, vs.last()),
            None => None,
        }
    }
}

/// Values sent under a grouped name (`tag[]`) whose key is new bind, in
/// arrival order, to one sequence; a single such value binds to a
/// one-element sequence, never to the bare value.
pub proof fn lemma_grouped_values(d: DocModel, name: Seq<char>, vs: Seq<Datum>)
    requires
        keys_unique(d),
        is_grouped_name(name),
        !has_key(d, key_of(name)),
        vs.len() >= 1,
    ensures
        merge_all(d, name, vs) is Some,
        keys_unique(merge_all(d, name, vs).unwrap()),
        lookup(merge_all(d, name, vs).unwrap(), key_of(name)) == Some(Datum::Sequence(vs)),
    decreases vs.len(),
{
    let k = key_of(name);
    if vs.len() == 1 {
        assert(merge_all(d, name, vs.drop_last()) == Some(d));
        let d1 = d.push((k, Datum::Sequence(seq![vs.last()])));
        assert(merge_all(d, name, vs) == Some(d1));
        assert(keys_unique(d1));
        lemma_key_index(d1, k, d.len() as int);
        assert(seq![vs.last()] == vs);
    } else {
        lemma_grouped_values(d, name, vs.drop_last());
        let d1 = merge_all(d, name, vs.drop_last()).unwrap();
        let i = key_index(d1, k);
        assert(has_key(d1, k));
        assert(0 <= i < d1.len() && d1[i].0 == k);
        let d2 = d1.update(i, (k, Datum::Sequence(vs.drop_last().push(vs.last()))));
        assert(merge(d1, name, vs.last()) == Some(d2));
        assert(keys_unique(d2));
        lemma_key_index(d2, k, i);
        assert(vs.drop_last().push(vs.last()) == vs);
    }
}

/// Splits a field name into its document key and whether it is grouped.
pub fn split_field_name(name: &str) -> (r: (String, bool))
    ensures
        r.0@ == key_of(name@),
        r.1 == is_grouped_name(name@),
{
    let n = name.unicode_len();
    if n >= 2 && name.get_char(n - 2) == '[' && name.get_char(n - 1) == ']' {
        let key = name.substring_char(0, n - 2);
        (key.to_owned(), true)
    } else {
        (name.to_owned(), false)
    }
}

/// A keyed mapping from field names to values; keys are unique and kept in
/// the order in which they were first bound.
#[derive(Debug)]
pub struct Document {
    entries: Vec<Entry>,
}

impl View for Document {
    type V = DocModel;

    closed spec fn view(&self) -> DocModel {
        self.entries@.map_values(|e: Entry| e@)
    }
}

impl Document {
    pub open spec fn wf(&self) -> bool {
        keys_unique(self@)
    }

    /// An empty document.
    pub fn new() -> (r: Document)
        ensures
            r@ == Seq::<(Seq<char>, Datum)>::empty(),
            r.wf(),
    {
        Document { entries: Vec::new() }
    }

    /// The entries, in insertion order.
    pub fn entries(&self) -> (r: &[Entry])
        ensures
            r@.map_values(|e: Entry| e@) == self@,
    {
        self.entries.as_slice()
    }

    /// The number of keys.
    pub fn len(&self) -> (r: usize)
        ensures
            r == self@.len(),
    {
        self.entries.len()
    }

    /// Where `key` stands, if it is bound.
    fn position(&self, key: &str) -> (r: Option<usize>)
        requires
            self.wf(),
        ensures
            r is Some ==> r.unwrap() < self@.len() && self@[r.unwrap() as int].0 == key@
                && key_index(self@, key@) == r.unwrap(),
            r is Some <==> has_key(self@, key@),
    {
        let mut i: usize = 0;
        while i < self.entries.len()
            invariant
                0 <= i <= self.entries@.len(),
                self.wf(),
                forall|j: int| 0 <= j < i ==> self@[j].0 != key@,
            decreases self.entries@.len() - i,
        {
            if same_text(self.entries[i].key.as_str(), key) {
                proof {
                    lemma_key_index(self@, key@, i as int);
                }
                return Some(i);
            }
            i = i + 1;
        }
        None
    }

    /// The value bound to `key`, if any.
    pub fn get(&self, key: &str) -> (r: Option<&Value>)
        requires
            self.wf(),
        ensures
            r is Some <==> lookup(self@, key@) is Some,
            r is Some ==> r.unwrap()@ == lookup(self@, key@).unwrap(),
    {
        match self.position(key) {
            Some(i) => Some(&self.entries[i].value),
            None => None,
        }
    }

    /// Binds `key` to `value`, replacing what it held.
    pub fn assign(&mut self, key: String, value: Value)
        requires
            old(self).wf(),
        ensures
            final(self).wf(),
            final(self)@ == assign(old(self)@, key@, value@),
    {
        proof {
            lemma_assign_unique(self@, key@, value@);
        }
        match self.position(key.as_str()) {
            Some(i) => {
                self.entries[i] = Entry { key, value };
            }
            None => {
                self.entries.push(Entry { key, value });
            }
        }
        assert(self@ =~= assign(old(self)@, key@, value@));
    }

    /// Merges the value of one part, sent under field name `name`, by the
    /// grouping rule. Returns `false`, leaving the document as it was, on a
    /// naming-convention violation.
    pub fn merge(&mut self, name: &str, value: Value) -> (ok: bool)
        requires
            old(self).wf(),
        ensures
            final(self).wf(),
            ok == merge(old(self)@, name@, value@) is Some,
            ok ==> final(self)@ == merge(old(self)@, name@, value@).unwrap(),
            !ok ==> final(self)@ == old(self)@,
    {
        let ghost v = value@;
        let (key, grouped) = split_field_name(name);
        match self.position(key.as_str()) {
            Some(i) => {
                let mut slot = Entry { key: String::new(), value: Value::Null };
                std::mem::swap(&mut self.entries[i], &mut slot);
                match slot.value {
                    Value::Sequence(mut items) => {
                        let ghost before = items@;
                        items.push(value);
                        let ghost item_views = before.map_values(|x: Value| x@);
                        let e = Entry { key: slot.key, value: Value::Sequence(items) };
                        assert(e.value@ == Datum::Sequence(item_views.push(v))) by {
                            if let Datum::Sequence(s) = e.value@ {
                                assert(s =~= item_views.push(v));
                            }
                        }
                        self.entries[i] = e;
                        assert(self@ =~= merge(old(self)@, name@, v).unwrap()) by {
                            if let Datum::Sequence(s) = old(self)@[i as int].1 {
                                assert(s =~= item_views);
                            }
                        }
                        true
                    },
                    other => {
                        self.entries[i] = Entry { key: slot.key, value: other };
                        assert(self@ =~= old(self)@);
                        false
                    },
                }
            },
            None => {
                if grouped {
                    let mut items: Vec<Value> = Vec::new();
                    items.push(value);
                    let e = Entry { key, value: Value::Sequence(items) };
                    assert(e.value@ == Datum::Sequence(seq![v])) by {
                        if let Datum::Sequence(s) = e.value@ {
                            assert(s =~= seq![v]);
                        }
                    }
                    self.entries.push(e);
                } else {
                    self.entries.push(Entry { key, value });
                }
                assert(self@ =~= merge(old(self)@, name@, v).unwrap());
                true
            },
        }
    }
}

} // verus!
