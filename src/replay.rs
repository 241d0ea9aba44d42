//! What a consumer of an event stream sees: nesting, and the tree that the
//! events rebuild.
use vstd::prelude::*;
use crate::event::Event;
use crate::events::{flatten, flatten_entries, flatten_items};
use crate::value::{Tree, Value};

verus! {

/// Walks `s` with `open` the containers still open (`true` for a
/// dictionary, innermost last): the containers open at the end, or `None`
/// if an end event does not close the innermost open container.
pub open spec fn nesting(s: Seq<Event>, open: Seq<bool>) -> Option<Seq<bool>>
    decreases s.len(),
{
    if s.len() == 0 {
        Some(open)
    } else {
        match s[0] {
            Event::StartArray(_) => nesting(s.drop_first(), open.push(false)),
            Event::StartDictionary(_) => nesting(s.drop_first(), open.push(true)),
            Event::EndArray => if open.len() > 0 && !open.last() {
                nesting(s.drop_first(), open.drop_last())
            } else {
                None
            },
            Event::EndDictionary => if open.len() > 0 && open.last() {
                nesting(s.drop_first(), open.drop_last())
            } else {
                None
            },
            _ => nesting(s.drop_first(), open),
        }
    }
}

/// Every start event in `s` is closed by one end event of its kind, with
/// correct nesting.
pub open spec fn balanced(s: Seq<Event>) -> bool {
    nesting(s, Seq::empty()) == Some(Seq::<bool>::empty())
}

proof fn lemma_flatten_first(t: Tree)
    ensures
        flatten(t).len() > 0,
        !(flatten(t)[0] is EndArray),
        !(flatten(t)[0] is EndDictionary),
{
}

proof fn lemma_nesting_flatten(t: Tree, rest: Seq<Event>, open: Seq<bool>)
    ensures
        nesting(flatten(t) + rest, open) == nesting(rest, open),
    decreases t, 0nat,
{
    match t {
        Tree::Array(a) => {
            let s = flatten(t) + rest;
            let inner = flatten_items(a) + (seq![Event::EndArray] + rest);
            assert(s.drop_first() =~= inner);
            lemma_nesting_items(a, seq![Event::EndArray] + rest, open.push(false));
            assert((seq![Event::EndArray] + rest).drop_first() =~= rest);
            assert(open.push(false).drop_last() =~= open);
        },
        Tree::Dictionary(d) => {
            let s = flatten(t) + rest;
            let inner = flatten_entries(d) + (seq![Event::EndDictionary] + rest);
            assert(s.drop_first() =~= inner);
            lemma_nesting_entries(d, seq![Event::EndDictionary] + rest, open.push(true));
            assert((seq![Event::EndDictionary] + rest).drop_first() =~= rest);
            assert(open.push(true).drop_last() =~= open);
        },
        _ => {
            assert((flatten(t) + rest).drop_first() =~= rest);
        },
    }
}

proof fn lemma_nesting_items(a: Seq<Tree>, rest: Seq<Event>, open: Seq<bool>)
    ensures
        nesting(flatten_items(a) + rest, open) == nesting(rest, open),
    decreases a, a.len(),
{
    if a.len() > 0 {
        let last = flatten(a.last());
        assert(flatten_items(a) + rest =~= flatten_items(a.drop_last()) + (last + rest));
        lemma_nesting_items(a.drop_last(), last + rest, open);
        lemma_nesting_flatten(a.last(), rest, open);
    } else {
        assert(flatten_items(a) + rest =~= rest);
    }
}

proof fn lemma_nesting_entries(d: Seq<(String, Tree)>, rest: Seq<Event>, open: Seq<bool>)
    ensures
        nesting(flatten_entries(d) + rest, open) == nesting(rest, open),
    decreases d, d.len(),
{
    if d.len() > 0 {
        let key = seq![Event::StringValue(d.last().0)];
        let last = flatten(d.last().1);
        assert(flatten_entries(d) + rest =~= flatten_entries(d.drop_last()) + (key + (last
            + rest)));
        lemma_nesting_entries(d.drop_last(), key + (last + rest), open);
        assert((key + (last + rest)).drop_first() =~= last + rest);
        lemma_nesting_flatten(d.last().1, rest, open);
    } else {
        assert(flatten_entries(d) + rest =~= rest);
    }
}

/// The events of any value are balanced: each container's start is closed
/// by exactly one end of its kind, at the right depth, empty and deeply
/// nested containers included.
pub proof fn lemma_events_balanced(v: Value)
    ensures
        balanced(flatten(v@)),
{
    lemma_nesting_flatten(v@, Seq::empty(), Seq::empty());
    assert(flatten(v@) + Seq::<Event>::empty() =~= flatten(v@));
}

/// Rebuilds a tree from the front of `s`, as a sink that reconstructs
/// values does: the tree and the events after it, or `None` if the front of
/// `s` is not the events of a tree.
pub open spec fn rebuild(s: Seq<Event>) -> Option<(Tree, Seq<Event>)>
    decreases s.len(), 0nat,
{
    if s.len() == 0 {
        None
    } else {
        match s[0] {
            Event::StartArray(_) => match rebuild_items(s.drop_first()) {
                Some((items, rest)) => Some((Tree::Array(items), rest)),
                None => None,
            },
            Event::StartDictionary(_) => match rebuild_entries(s.drop_first()) {
                Some((entries, rest)) => Some((Tree::Dictionary(entries), rest)),
                None => None,
            },
            Event::EndArray => None,
            Event::EndDictionary => None,
            Event::BooleanValue(b) => Some((Tree::Boolean(b), s.drop_first())),
            Event::DataValue(d) => Some((Tree::Data(d), s.drop_first())),
            Event::DateValue(d) => Some((Tree::Date(d), s.drop_first())),
            Event::IntegerValue(i) => Some((Tree::Integer(i), s.drop_first())),
            Event::RealValue(r) => Some((Tree::Real(r), s.drop_first())),
            Event::StringValue(t) => Some((Tree::String(t), s.drop_first())),
        }
    }
}

/// Rebuilds the elements of an array up to its `EndArray`: the elements
/// and the events after that end.
pub open spec fn rebuild_items(s: Seq<Event>) -> Option<(Seq<Tree>, Seq<Event>)>
    decreases s.len(), 1nat,
{
    if s.len() == 0 {
        None
    } else if s[0] is EndArray {
        Some((Seq::empty(), s.drop_first()))
    } else {
        match rebuild(s) {
            Some((t, rest)) => if rest.len() < s.len() {
                match rebuild_items(rest) {
                    Some((ts, after)) => Some((seq![t] + ts, after)),
                    None => None,
                }
            } else {
                None
            },
            None => None,
        }
    }
}

/// Rebuilds the entries of a dictionary up to its `EndDictionary`, each a
/// `StringValue` key followed by the events of its value: the entries and
/// the events after that end.
pub open spec fn rebuild_entries(s: Seq<Event>) -> Option<(Seq<(String, Tree)>, Seq<Event>)>
    decreases s.len(), 1nat,
{
    if s.len() == 0 {
        None
    } else if s[0] is EndDictionary {
        Some((Seq::empty(), s.drop_first()))
    } else {
        match s[0] {
            Event::StringValue(k) => match rebuild(s.drop_first()) {
                Some((t, rest)) => if rest.len() < s.len() {
                    match rebuild_entries(rest) {
                        Some((es, after)) => Some((seq![(k, t)] + es, after)),
                        None => None,
                    }
                } else {
                    None
                },
                None => None,
            },
            _ => None,
        }
    }
}

proof fn lemma_items_front(a: Seq<Tree>)
    requires
        a.len() > 0,
    ensures
        flatten_items(a) == flatten(a[0]) + flatten_items(a.drop_first()),
    decreases a.len(),
{
    if a.len() > 1 {
        lemma_items_front(a.drop_last());
        assert(a.drop_last().drop_first() =~= a.drop_first().drop_last());
        assert(a.drop_first().last() == a.last());
        assert(flatten_items(a) =~= flatten(a[0]) + flatten_items(a.drop_first()));
    } else {
        assert(a.drop_last() =~= Seq::<Tree>::empty());
        assert(a.drop_first() =~= Seq::<Tree>::empty());
        assert(flatten_items(a) =~= flatten(a[0]) + flatten_items(a.drop_first()));
    }
}

proof fn lemma_entries_front(d: Seq<(String, Tree)>)
    requires
        d.len() > 0,
    ensures
        flatten_entries(d) == seq![Event::StringValue(d[0].0)] + flatten(d[0].1)
            + flatten_entries(d.drop_first()),
    decreases d.len(),
{
    if d.len() > 1 {
        lemma_entries_front(d.drop_last());
        assert(d.drop_last().drop_first() =~= d.drop_first().drop_last());
        assert(d.drop_first().last() == d.last());
        assert(flatten_entries(d) =~= seq![Event::StringValue(d[0].0)] + flatten(d[0].1)
            + flatten_entries(d.drop_first()));
    } else {
        assert(d.drop_last() =~= Seq::<(String, Tree)>::empty());
        assert(d.drop_first() =~= Seq::<(String, Tree)>::empty());
        assert(flatten_entries(d) =~= seq![Event::StringValue(d[0].0)] + flatten(d[0].1)
            + flatten_entries(d.drop_first()));
    }
}

proof fn lemma_rebuild_flatten(t: Tree, rest: Seq<Event>)
    ensures
        rebuild(flatten(t) + rest) == Some((t, rest)),
    decreases t, 0nat,
{
    let s = flatten(t) + rest;
    match t {
        Tree::Array(a) => {
            assert(s.drop_first() =~= flatten_items(a) + seq![Event::EndArray] + rest);
            lemma_rebuild_items(a, rest);
        },
        Tree::Dictionary(d) => {
            assert(s.drop_first() =~= flatten_entries(d) + seq![Event::EndDictionary] + rest);
            lemma_rebuild_entries(d, rest);
        },
        _ => {
            assert(s.drop_first() =~= rest);
        },
    }
}

proof fn lemma_rebuild_items(a: Seq<Tree>, rest: Seq<Event>)
    ensures
        rebuild_items(flatten_items(a) + seq![Event::EndArray] + rest) == Some((a, rest)),
    decreases a, a.len(),
{
    let s = flatten_items(a) + seq![Event::EndArray] + rest;
    if a.len() == 0 {
        assert(s =~= seq![Event::EndArray] + rest);
        assert(s.drop_first() =~= rest);
        assert(a =~= Seq::<Tree>::empty());
    } else {
        lemma_items_front(a);
        let after = flatten_items(a.drop_first()) + seq![Event::EndArray] + rest;
        assert(s =~= flatten(a[0]) + after);
        lemma_flatten_first(a[0]);
        lemma_rebuild_flatten(a[0], after);
        lemma_rebuild_items(a.drop_first(), rest);
        assert(seq![a[0]] + a.drop_first() =~= a);
    }
}

proof fn lemma_rebuild_entries(d: Seq<(String, Tree)>, rest: Seq<Event>)
    ensures
        rebuild_entries(flatten_entries(d) + seq![Event::EndDictionary] + rest) == Some(
            (d, rest),
        ),
    decreases d, d.len(),
{
    let s = flatten_entries(d) + seq![Event::EndDictionary] + rest;
    if d.len() == 0 {
        assert(s =~= seq![Event::EndDictionary] + rest);
        assert(s.drop_first() =~= rest);
        assert(d =~= Seq::<(String, Tree)>::empty());
    } else {
        lemma_entries_front(d);
        let after = flatten_entries(d.drop_first()) + seq![Event::EndDictionary] + rest;
        assert(s =~= seq![Event::StringValue(d[0].0)] + (flatten(d[0].1) + after));
        assert(s.drop_first() =~= flatten(d[0].1) + after);
        lemma_rebuild_flatten(d[0].1, after);
        lemma_rebuild_entries(d.drop_first(), rest);
        assert(seq![(d[0].0, d[0].1)] + d.drop_first() =~= d);
    }
}

/// Rebuilding from the events of a value gives back that value's tree, with
/// no event left over.
pub proof fn lemma_round_trip(v: Value)
    ensures
        rebuild(flatten(v@)) == Some((v@, Seq::<Event>::empty())),
{
    lemma_rebuild_flatten(v@, Seq::empty());
    assert(flatten(v@) + Seq::<Event>::empty() =~= flatten(v@));
}

proof fn lemma_entries_concat(a: Seq<(String, Tree)>, b: Seq<(String, Tree)>)
    ensures
        flatten_entries(a + b) == flatten_entries(a) + flatten_entries(b),
    decreases b.len(),
{
    if b.len() == 0 {
        assert(a + b =~= a);
        assert(flatten_entries(a) + flatten_entries(b) =~= flatten_entries(a));
    } else {
        lemma_entries_concat(a, b.drop_last());
        assert((a + b).drop_last() =~= a + b.drop_last());
        assert((a + b).last() == b.last());
        assert(flatten_entries(a + b) =~= flatten_entries(a) + flatten_entries(b));
    }
}

/// The events of a dictionary: its start, whose length is the number of
/// entries, then for each entry in order its key as a `StringValue`
/// immediately followed by the events of its value, then its end.
pub proof fn lemma_dictionary_events(d: Seq<(String, Tree)>, i: int)
    requires
        0 <= i < d.len(),
    ensures
        flatten(Tree::Dictionary(d)) == seq![Event::StartDictionary(Some(d.len() as u64))]
            + flatten_entries(d) + seq![Event::EndDictionary],
        flatten_entries(d) == flatten_entries(d.take(i)) + seq![Event::StringValue(d[i].0)]
            + flatten(d[i].1) + flatten_entries(d.skip(i + 1)),
{
    let one = seq![d[i]];
    assert(d =~= d.take(i) + (one + d.skip(i + 1)));
    lemma_entries_concat(d.take(i), one + d.skip(i + 1));
    lemma_entries_concat(one, d.skip(i + 1));
    assert(one.drop_last() =~= Seq::<(String, Tree)>::empty());
    assert(one.last() == d[i]);
    assert(flatten_entries(one.drop_last()) == Seq::<Event>::empty());
    assert(flatten_entries(one) =~= seq![Event::StringValue(d[i].0)] + flatten(d[i].1));
    assert(flatten_entries(d) =~= flatten_entries(d.take(i)) + seq![Event::StringValue(d[i].0)]
        + flatten(d[i].1) + flatten_entries(d.skip(i + 1)));
}

} // verus!
