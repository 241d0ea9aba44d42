//! Flattening a value into its event stream.
use vstd::prelude::*;
use crate::event::Event;
use crate::value::{entries_of, tree_of, trees_of, Tree, Value};

verus! {

/// The events of a tree, in pre-order: a container's start, its children,
/// then its end; each dictionary value preceded by its key.
pub open spec fn flatten(t: Tree) -> Seq<Event>
    decreases t, 0nat,
{
    match t {
        Tree::Array(a) => seq![Event::StartArray(Some(a.len() as u64))] + flatten_items(a) + seq![
            Event::EndArray,
        ],
        Tree::Dictionary(d) => seq![Event::StartDictionary(Some(d.len() as u64))]
            + flatten_entries(d) + seq![Event::EndDictionary],
        Tree::Boolean(b) => seq![Event::BooleanValue(b)],
        Tree::Data(d) => seq![Event::DataValue(d)],
        Tree::Date(d) => seq![Event::DateValue(d)],
        Tree::Real(r) => seq![Event::RealValue(r)],
        Tree::Integer(i) => seq![Event::IntegerValue(i)],
        Tree::String(s) => seq![Event::StringValue(s)],
    }
}

/// The events of a list of trees, one after the other.
pub open spec fn flatten_items(s: Seq<Tree>) -> Seq<Event>
    decreases s, s.len(),
{
    if s.len() == 0 {
        Seq::empty()
    } else {
        flatten_items(s.drop_last()) + flatten(s.last())
    }
}

/// The events of a list of dictionary entries: for each, its key as a
/// `StringValue`, then the events of its value.
pub open spec fn flatten_entries(s: Seq<(String, Tree)>) -> Seq<Event>
    decreases s, s.len(),
{
    if s.len() == 0 {
        Seq::empty()
    } else {
        flatten_entries(s.drop_last()) + seq![Event::StringValue(s.last().0)] + flatten(
            s.last().1,
        )
    }
}

proof fn lemma_trees_of(s: Seq<Value>)
    ensures
        trees_of(s).len() == s.len(),
        forall|i: int| 0 <= i < s.len() ==> #[trigger] trees_of(s)[i] == tree_of(s[i]),
    decreases s.len(),
{
    if s.len() > 0 {
        lemma_trees_of(s.drop_last());
    }
}

proof fn lemma_entries_of(s: Seq<(String, Value)>)
    ensures
        entries_of(s).len() == s.len(),
        forall|i: int|
            0 <= i < s.len() ==> #[trigger] entries_of(s)[i] == (s[i].0, tree_of(s[i].1)),
    decreases s.len(),
{
    if s.len() > 0 {
        lemma_entries_of(s.drop_last());
    }
}

/// The elements of `v` in the opposite order.
fn reversed<T>(v: Vec<T>) -> (r: Vec<T>)
    ensures
        r@.len() == v@.len(),
        forall|i: int| 0 <= i < v@.len() ==> #[trigger] r@[i] == v@[v@.len() - 1 - i],
{
    let ghost orig = v@;
    let mut v = v;
    let mut r: Vec<T> = Vec::new();
    while v.len() > 0
        invariant
            v@.len() + r@.len() == orig.len(),
            v@ == orig.subrange(0, v@.len() as int),
            forall|i: int| 0 <= i < r@.len() ==> #[trigger] r@[i] == orig[orig.len() - 1 - i],
        decreases v@.len(),
    {
        let x = v.pop().unwrap();
        r.push(x);
    }
    r
}

/// Appends the events of `value` to `events`.
fn push_events(value: Value, events: &mut Vec<Event>)
    ensures
        final(events)@ == old(events)@ + flatten(value@),
    decreases value,
{
    let ghost whole = value;
    match value {
        Value::Array(array) => {
            let ghost items = array@;
            let ghost trees = trees_of(items);
            proof {
                lemma_trees_of(items);
            }
            events.push(Event::StartArray(Some(array.len() as u64)));
            let ghost start = events@;
            let n: usize = array.len();
            let mut pending = reversed(array);
            let mut k: usize = 0;
            while k < n
                invariant
                    n == items.len(),
                    trees.len() == n,
                    k <= n,
                    pending@.len() == n - k,
                    forall|j: int| 0 <= j < n - k ==> #[trigger] pending@[j] == items[n - 1 - j],
                    forall|j: int| 0 <= j < n ==> #[trigger] trees[j] == tree_of(items[j]),
                    whole == Value::Array(array),
                    whole == value,
                    items == array@,
                    events@ == start + flatten_items(trees.take(k as int)),
                decreases n - k,
            {
                let item = pending.pop().unwrap();
                proof {
                    assert(item == items[k as int]);
                    assert(decreases_to!(whole => whole->Array_0));
                    assert(decreases_to!(whole->Array_0 => whole->Array_0[k as int]));
                    assert(trees.take(k + 1).drop_last() == trees.take(k as int));
                    assert(decreases_to!(whole => item));
                }
                push_events(item, events);
                proof {
                    assert(events@ == start + flatten_items(trees.take(k + 1)));
                }
                k = k + 1;
            }
            proof {
                assert(trees.take(n as int) == trees);
            }
            events.push(Event::EndArray);
        },
        Value::Dictionary(dict) => {
            let ghost entries = dict@;
            let ghost trees = entries_of(entries);
            proof {
                lemma_entries_of(entries);
            }
            events.push(Event::StartDictionary(Some(dict.len() as u64)));
            let ghost start = events@;
            let n: usize = dict.len();
            let mut pending = reversed(dict);
            let mut k: usize = 0;
            while k < n
                invariant
                    n == entries.len(),
                    trees.len() == n,
                    k <= n,
                    pending@.len() == n - k,
                    forall|j: int| 0 <= j < n - k ==> #[trigger] pending@[j] == entries[n - 1 - j],
                    forall|j: int|
                        0 <= j < n ==> #[trigger] trees[j] == (entries[j].0, tree_of(entries[j].1)),
                    whole == Value::Dictionary(dict),
                    whole == value,
                    entries == dict@,
                    events@ == start + flatten_entries(trees.take(k as int)),
                decreases n - k,
            {
                let (key, item) = pending.pop().unwrap();
                proof {
                    assert(decreases_to!(whole => whole->Dictionary_0));
                    assert(decreases_to!(whole->Dictionary_0 => whole->Dictionary_0[k as int]));
                    assert(decreases_to!(whole->Dictionary_0[k as int] => whole->Dictionary_0[k as int].1));
                    assert(trees.take(k + 1).drop_last() == trees.take(k as int));
                    assert(decreases_to!(whole => item));
                }
                events.push(Event::StringValue(key));
                push_events(item, events);
                proof {
                    assert(events@ == start + flatten_entries(trees.take(k + 1)));
                }
                k = k + 1;
            }
            proof {
                assert(trees.take(n as int) == trees);
            }
            events.push(Event::EndDictionary);
        },
        Value::Boolean(b) => events.push(Event::BooleanValue(b)),
        Value::Data(d) => events.push(Event::DataValue(d)),
        Value::Date(d) => events.push(Event::DateValue(d)),
        Value::Real(r) => events.push(Event::RealValue(r)),
        Value::Integer(i) => events.push(Event::IntegerValue(i)),
        Value::String(s) => events.push(Event::StringValue(s)),
    }
}

/// The events of a value, handed out one at a time.
///
/// Made by [`IntoEvents::new`]; once every event has been handed out it stays
/// exhausted.
pub struct IntoEvents {
    /// The events still to come, last one first.
    pending: Vec<Event>,
}

impl View for IntoEvents {
    type V = Seq<Event>;

    /// The events still to come, in order.
    closed spec fn view(&self) -> Seq<Event> {
        Seq::new(self.pending@.len(), |i: int| self.pending@[self.pending@.len() - 1 - i])
    }
}

impl IntoEvents {
    /// The events of `value`, in pre-order.
    pub fn new(value: Value) -> (r: IntoEvents)
        ensures
            r@ == flatten(value@),
    {
        let mut events: Vec<Event> = Vec::new();
        push_events(value, &mut events);
        assert(events@ == flatten(value@));
        let r = IntoEvents { pending: reversed(events) };
        assert(r@ == flatten(value@));
        r
    }

    /// The next event, or `None` once all have been handed out.
    pub fn next(&mut self) -> (r: Option<Event>)
        ensures
            old(self)@.len() == 0 ==> r is None && final(self)@ == old(self)@,
            old(self)@.len() > 0 ==> r == Some(old(self)@[0]) && final(self)@ == old(
                self,
            )@.drop_first(),
    {
        let r = self.pending.pop();
        proof {
            if old(self)@.len() > 0 {
                assert(self@ == old(self)@.drop_first());
            } else {
                assert(self@ == old(self)@);
            }
        }
        r
    }
}

impl Value {
    /// The events of this value, in pre-order.
    pub fn into_events(self) -> (r: IntoEvents)
        ensures
            r@ == flatten(self@),
    {
        IntoEvents::new(self)
    }
}

} // verus!
