//! Orderings of collection items and events, and the sorts that establish
//! them.
use vstd::prelude::*;
use crate::record::{CollectionItem, EventEntry, ItemModel, EventModel, items_model, events_model};
use crate::text::{seq_lt, str_lt, str_eq};

verus! {

broadcast use vstd::seq_lib::group_to_multiset_ensures;

pub proof fn lemma_seq_lt_irreflexive(a: Seq<char>)
    ensures
        !seq_lt(a, a),
    decreases a.len(),
{
    if a.len() > 0 {
        lemma_seq_lt_irreflexive(a.drop_first());
    }
}

pub proof fn lemma_seq_lt_asymmetric(a: Seq<char>, b: Seq<char>)
    requires
        seq_lt(a, b),
    ensures
        !seq_lt(b, a),
    decreases a.len(),
{
    if a.len() > 0 && b.len() > 0 && a[0] == b[0] {
        lemma_seq_lt_asymmetric(a.drop_first(), b.drop_first());
    }
}

pub proof fn lemma_seq_lt_transitive(a: Seq<char>, b: Seq<char>, c: Seq<char>)
    requires
        seq_lt(a, b),
        seq_lt(b, c),
    ensures
        seq_lt(a, c),
    decreases a.len(),
{
    if a.len() > 0 && b.len() > 0 && c.len() > 0 {
        if a[0] == b[0] && b[0] == c[0] {
            lemma_seq_lt_transitive(a.drop_first(), b.drop_first(), c.drop_first());
        }
    }
}

pub proof fn lemma_seq_lt_total(a: Seq<char>, b: Seq<char>)
    requires
        a != b,
    ensures
        seq_lt(a, b) || seq_lt(b, a),
    decreases a.len(),
{
    if a.len() > 0 && b.len() > 0 && a[0] == b[0] {
        if a.drop_first() == b.drop_first() {
            assert(a =~= seq![a[0]] + a.drop_first());
            assert(b =~= seq![b[0]] + b.drop_first());
        }
        lemma_seq_lt_total(a.drop_first(), b.drop_first());
    } else if a.len() == 0 && b.len() == 0 {
        assert(a =~= b);
    } else if a.len() > 0 && b.len() > 0 {
    }
}

/// Items ordered by identifier.
pub open spec fn items_sorted(s: Seq<ItemModel>) -> bool {
    forall|i: int, j: int| 0 <= i < j < s.len() ==> !seq_lt(#[trigger] s[j].id@, #[trigger] s[i].id@)
}

/// Events ordered by occurrence time, then by identifier.
pub open spec fn event_lt(a: EventModel, b: EventModel) -> bool {
    seq_lt(a.occurred_at@, b.occurred_at@) || (a.occurred_at@ == b.occurred_at@ && seq_lt(a.id@, b.id@))
}

pub open spec fn events_sorted(s: Seq<EventModel>) -> bool {
    forall|i: int, j: int| 0 <= i < j < s.len() ==> !event_lt(#[trigger] s[j], #[trigger] s[i])
}

pub proof fn lemma_event_lt_transitive(a: EventModel, b: EventModel, c: EventModel)
    requires
        event_lt(a, b),
        event_lt(b, c),
    ensures
        event_lt(a, c),
{
    if seq_lt(a.occurred_at@, b.occurred_at@) {
        if seq_lt(b.occurred_at@, c.occurred_at@) {
            lemma_seq_lt_transitive(a.occurred_at@, b.occurred_at@, c.occurred_at@);
        }
    } else {
        if seq_lt(b.occurred_at@, c.occurred_at@) {
        } else {
            lemma_seq_lt_transitive(a.id@, b.id@, c.id@);
        }
    }
}

/// Sort items by identifier.
pub fn sort_items(v: Vec<CollectionItem>) -> (r: Vec<CollectionItem>)
    ensures
        items_sorted(items_model(r@)),
        items_model(r@).to_multiset() == items_model(v@).to_multiset(),
{
    let mut rest = v;
    let ghost orig = items_model(rest@);
    let mut out: Vec<CollectionItem> = Vec::new();
    while rest.len() > 0
        invariant
            items_sorted(items_model(out@)),
            items_model(out@).to_multiset().add(items_model(rest@).to_multiset()) == orig.to_multiset(),
        decreases rest.len(),
    {
        let ghost before_rest = items_model(rest@);
        let x = rest.pop().unwrap();
        proof {
            assert(items_model(rest@) =~= before_rest.drop_last());
            assert(before_rest =~= items_model(rest@).push(x@));
        }
        let mut p: usize = 0;
        while p < out.len() && !str_lt(x.id.as_str(), out[p].id.as_str())
            invariant
                p <= out@.len(),
                forall|k: int| 0 <= k < p ==> !seq_lt(x.id@, #[trigger] out@[k].id@),
            decreases out.len() - p,
        {
            p = p + 1;
        }
        let ghost before = items_model(out@);
        out.insert(p, x);
        proof {
            assert(items_model(out@) =~= before.insert(p as int, x@));
            assert forall|i: int, j: int| 0 <= i < j < items_model(out@).len() implies
                !seq_lt(#[trigger] items_model(out@)[j].id@, #[trigger] items_model(out@)[i].id@) by {
                let s = items_model(out@);
                if j < p {
                    assert(s[i] == before[i] && s[j] == before[j]);
                } else if j == p {
                    assert(s[i] == before[i]);
                    assert(s[j] == x@);
                } else if i == p {
                    assert(s[j] == before[j - 1]);
                    // x.id < before[p].id <= before[j-1].id
                    assert(seq_lt(x.id@, before[p as int].id@));
                    if seq_lt(before[j - 1].id@, x.id@) {
                        if j - 1 > p {
                            assert(!seq_lt(before[j - 1].id@, before[p as int].id@));
                            lemma_seq_lt_transitive(before[j - 1].id@, x.id@, before[p as int].id@);
                        } else {
                            lemma_seq_lt_asymmetric(x.id@, before[p as int].id@);
                        }
                    }
                } else if i < p {
                    assert(s[i] == before[i] && s[j] == before[j - 1]);
                } else {
                    assert(s[i] == before[i - 1] && s[j] == before[j - 1]);
                }
            }
            vstd::seq_lib::to_multiset_insert(before, p as int, x@);
            assert(items_model(rest@).push(x@).to_multiset() =~= items_model(rest@).to_multiset().insert(x@));
        }
    }
    proof {
        assert(items_model(rest@).to_multiset() =~= vstd::multiset::Multiset::empty());
    }
    out
}

/// Exec form of `event_lt`.
pub fn event_entry_lt(a: &EventEntry, b: &EventEntry) -> (r: bool)
    ensures
        r == event_lt(a@, b@),
{
    if str_lt(a.occurred_at.as_str(), b.occurred_at.as_str()) {
        true
    } else if str_eq(a.occurred_at.as_str(), b.occurred_at.as_str()) {
        str_lt(a.id.as_str(), b.id.as_str())
    } else {
        false
    }
}

/// Sort events by occurrence time, then by identifier.
pub fn sort_events(v: Vec<EventEntry>) -> (r: Vec<EventEntry>)
    ensures
        events_sorted(events_model(r@)),
        events_model(r@).to_multiset() == events_model(v@).to_multiset(),
{
    let mut rest = v;
    let ghost orig = events_model(rest@);
    let mut out: Vec<EventEntry> = Vec::new();
    while rest.len() > 0
        invariant
            events_sorted(events_model(out@)),
            events_model(out@).to_multiset().add(events_model(rest@).to_multiset()) == orig.to_multiset(),
        decreases rest.len(),
    {
        let ghost before_rest = events_model(rest@);
        let x = rest.pop().unwrap();
        proof {
            assert(events_model(rest@) =~= before_rest.drop_last());
            assert(before_rest =~= events_model(rest@).push(x@));
        }
        let mut p: usize = 0;
        while p < out.len() && !event_entry_lt(&x, &out[p])
            invariant
                p <= out@.len(),
                forall|k: int| 0 <= k < p ==> !event_lt(x@, #[trigger] out@[k]@),
            decreases out.len() - p,
        {
            p = p + 1;
        }
        let ghost before = events_model(out@);
        out.insert(p, x);
        proof {
            assert(events_model(out@) =~= before.insert(p as int, x@));
            assert forall|i: int, j: int| 0 <= i < j < events_model(out@).len() implies
                !event_lt(#[trigger] events_model(out@)[j], #[trigger] events_model(out@)[i]) by {
                let s = events_model(out@);
                if j < p {
                    assert(s[i] == before[i] && s[j] == before[j]);
                } else if j == p {
                    assert(s[i] == before[i]);
                    assert(s[j] == x@);
                } else if i == p {
                    assert(s[j] == before[j - 1]);
                    assert(event_lt(x@, before[p as int]));
                    if event_lt(before[j - 1], x@) {
                        if j - 1 > p {
                            assert(!event_lt(before[j - 1], before[p as int]));
                            lemma_event_lt_transitive(before[j - 1], x@, before[p as int]);
                        } else {
                            lemma_event_lt_asymmetric(x@, before[p as int]);
                        }
                    }
                } else if i < p {
                    assert(s[i] == before[i] && s[j] == before[j - 1]);
                } else {
                    assert(s[i] == before[i - 1] && s[j] == before[j - 1]);
                }
            }
            vstd::seq_lib::to_multiset_insert(before, p as int, x@);
            assert(events_model(rest@).push(x@).to_multiset() =~= events_model(rest@).to_multiset().insert(x@));
        }
    }
    proof {
        assert(events_model(rest@).to_multiset() =~= vstd::multiset::Multiset::empty());
    }
    out
}

pub proof fn lemma_event_lt_asymmetric(a: EventModel, b: EventModel)
    requires
        event_lt(a, b),
    ensures
        !event_lt(b, a),
{
    if seq_lt(a.occurred_at@, b.occurred_at@) {
        lemma_seq_lt_asymmetric(a.occurred_at@, b.occurred_at@);
    } else {
        lemma_seq_lt_asymmetric(a.id@, b.id@);
        lemma_seq_lt_irreflexive(a.occurred_at@);
    }
}

} // verus!
