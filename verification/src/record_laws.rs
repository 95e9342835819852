//! Laws on what the Record commands store: the value a scalar is set to,
//! the item or event that joins, is corrected or leaves a Record, and that
//! every stored Record is what a read of its definition then gives.
use vstd::prelude::*;
use crate::commands::mutation_commands::scalar_of;
use crate::commands::record_commands::{
    add_item_holds, append_event_holds, correct_event_holds, correct_item_spec, delete_event_spec, events_without,
    items_without, outcome_holds, put_record_spec, remove_item_spec, store_spec, AddCollectionItem, AppendEvent,
    CorrectCollectionItem, CorrectEvent, SetScalarRecord,
};
use crate::error::{RepositoryError, RepositoryErrorCode};
use crate::laws::law_read_after_write;
use crate::record::{EventModel, ItemModel, Record, RecordModel};
use crate::repository::{record_is, RepositoryModel};
use crate::seqs::lemma_first_match_some;

verus! {

/// A stored Record is the one reported, and a read of its definition then
/// gives it.
proof fn lemma_stored(m: RepositoryModel, rec: RecordModel, r: Result<Record, RepositoryError>, fm: RepositoryModel)
    requires
        outcome_holds(store_spec(m, rec), r, m, fm),
        r is Ok,
    ensures
        r matches Ok(x) && x@ == rec,
        fm.record(rec.definition_id()@) == Some(rec),
{
    assert(store_spec(m, rec) is Ok);
    assert(put_record_spec(m, rec) is Ok);
    law_read_after_write(m, rec, put_record_spec(m, rec)->Ok_0);
}

/// A Record read by its definition belongs to that definition.
proof fn lemma_record_of(m: RepositoryModel, id: Seq<char>)
    requires
        m.record(id) is Some,
    ensures
        m.record(id)->0.definition_id()@ == id,
{
    lemma_first_match_some(m.records, record_is(id));
}

/// The items other than those with an identifier: exactly the items
/// without it.
proof fn lemma_items_without(items: Seq<ItemModel>, id: Seq<char>)
    ensures
        forall|k: int| 0 <= k < items_without(items, id).len()
            ==> (#[trigger] items_without(items, id)[k]).id@ != id && items.contains(items_without(items, id)[k]),
        forall|it: ItemModel| #[trigger] items.contains(it) && it.id@ != id ==> items_without(items, id).contains(it),
    decreases items.len(),
{
    if items.len() > 0 {
        let p = items.drop_last();
        lemma_items_without(p, id);
        let out = items_without(items, id);
        let po = items_without(p, id);
        assert forall|k: int| 0 <= k < out.len() implies (#[trigger] out[k]).id@ != id && items.contains(out[k]) by {
            if k < po.len() {
                assert(out[k] == po[k]);
                let j = choose|j: int| 0 <= j < p.len() && p[j] == po[k];
                assert(items[j] == p[j]);
            } else {
                assert(out[k] == items.last());
                assert(items[items.len() - 1] == items.last());
            }
        }
        assert forall|it: ItemModel| #[trigger] items.contains(it) && it.id@ != id implies out.contains(it) by {
            let j = choose|j: int| 0 <= j < items.len() && items[j] == it;
            if j < items.len() - 1 {
                assert(p[j] == it);
                assert(p.contains(it));
                let k = choose|k: int| 0 <= k < po.len() && po[k] == it;
                assert(out[k] == po[k]);
            } else {
                assert(out[po.len() as int] == items.last());
            }
        }
    }
}

/// The events other than those with an identifier: exactly the events
/// without it.
proof fn lemma_events_without(events: Seq<EventModel>, id: Seq<char>)
    ensures
        forall|k: int| 0 <= k < events_without(events, id).len()
            ==> (#[trigger] events_without(events, id)[k]).id@ != id && events.contains(events_without(events, id)[k]),
        forall|e: EventModel| #[trigger] events.contains(e) && e.id@ != id ==> events_without(events, id).contains(e),
    decreases events.len(),
{
    if events.len() > 0 {
        let p = events.drop_last();
        lemma_events_without(p, id);
        let out = events_without(events, id);
        let po = events_without(p, id);
        assert forall|k: int| 0 <= k < out.len() implies (#[trigger] out[k]).id@ != id && events.contains(out[k]) by {
            if k < po.len() {
                assert(out[k] == po[k]);
                let j = choose|j: int| 0 <= j < p.len() && p[j] == po[k];
                assert(events[j] == p[j]);
            } else {
                assert(out[k] == events.last());
                assert(events[events.len() - 1] == events.last());
            }
        }
        assert forall|e: EventModel| #[trigger] events.contains(e) && e.id@ != id implies out.contains(e) by {
            let j = choose|j: int| 0 <= j < events.len() && events[j] == e;
            if j < events.len() - 1 {
                assert(p[j] == e);
                assert(p.contains(e));
                let k = choose|k: int| 0 <= k < po.len() && po[k] == e;
                assert(out[k] == po[k]);
            } else {
                assert(out[po.len() as int] == events.last());
            }
        }
    }
}

/// Setting or correcting a scalar stores the command's value and effective
/// time, stamped with the recording time, and a read then gives it.
pub proof fn law_set_scalar_stores_value(
    m: RepositoryModel,
    c: SetScalarRecord,
    at: String,
    r: Result<Record, RepositoryError>,
    fm: RepositoryModel,
)
    requires
        outcome_holds(store_spec(m, scalar_of(c, at)), r, m, fm),
        r is Ok,
    ensures
        r matches Ok(x) && x@ matches RecordModel::Scalar(s) && s.value == c.value && s.definition_id == c.definition_id
            && s.effective_at == c.effective_at && s.recorded_at == at
            && fm.record(c.definition_id@) == Some(x@),
{
    lemma_stored(m, scalar_of(c, at), r, fm);
}

/// Removing an item leaves the collection without any item of that
/// identifier and with every other item it had, and nothing else; a read
/// then gives it.
pub proof fn law_removed_item_leaves(
    m: RepositoryModel,
    definition_id: Seq<char>,
    item_id: Seq<char>,
    r: Result<Record, RepositoryError>,
    fm: RepositoryModel,
)
    requires
        outcome_holds(remove_item_spec(m, definition_id, item_id), r, m, fm),
        m.record(definition_id) matches Some(RecordModel::Collection { .. }),
    ensures
        ({
            let items = m.record(definition_id)->0->Collection_items;
            &&& r is Ok ==> exists|k: int| 0 <= k < items.len() && (#[trigger] items[k]).id@ == item_id
            &&& !(exists|k: int| 0 <= k < items.len() && (#[trigger] items[k]).id@ == item_id) ==> r is Err
            &&& r matches Ok(x) ==> (x@ matches RecordModel::Collection { items: kept, .. }
                && (forall|k: int| 0 <= k < kept.len() ==> (#[trigger] kept[k]).id@ != item_id && items.contains(kept[k]))
                && (forall|it: ItemModel| #[trigger] items.contains(it) && it.id@ != item_id ==> kept.contains(it))
                && fm.record(definition_id) == Some(x@))
        }),
{
    let items = m.record(definition_id)->0->Collection_items;
    lemma_record_of(m, definition_id);
    lemma_items_without(items, item_id);
    lemma_items_without_len(items, item_id);
    let kept = items_without(items, item_id);
    if r is Ok {
        let rec = RecordModel::Collection { definition_id: m.record(definition_id)->0->Collection_definition_id, items: kept };
        lemma_stored(m, rec, r, fm);
    }
}

/// Dropping the items of an identifier shortens the list exactly when one
/// has it.
proof fn lemma_items_without_len(items: Seq<ItemModel>, id: Seq<char>)
    ensures
        items_without(items, id).len() <= items.len(),
        (exists|k: int| 0 <= k < items.len() && (#[trigger] items[k]).id@ == id)
            <==> items_without(items, id).len() < items.len(),
    decreases items.len(),
{
    if items.len() > 0 {
        let p = items.drop_last();
        lemma_items_without_len(p, id);
        if exists|k: int| 0 <= k < p.len() && (#[trigger] p[k]).id@ == id {
            let k = choose|k: int| 0 <= k < p.len() && (#[trigger] p[k]).id@ == id;
            assert(items[k] == p[k]);
        }
        if exists|k: int| 0 <= k < items.len() && (#[trigger] items[k]).id@ == id {
            let k = choose|k: int| 0 <= k < items.len() && (#[trigger] items[k]).id@ == id;
            if k < items.len() - 1 {
                assert(p[k] == items[k]);
            }
        }
    }
}

/// Dropping the events of an identifier shortens the list exactly when one
/// has it.
proof fn lemma_events_without_len(events: Seq<EventModel>, id: Seq<char>)
    ensures
        events_without(events, id).len() <= events.len(),
        (exists|k: int| 0 <= k < events.len() && (#[trigger] events[k]).id@ == id)
            <==> events_without(events, id).len() < events.len(),
    decreases events.len(),
{
    if events.len() > 0 {
        let p = events.drop_last();
        lemma_events_without_len(p, id);
        if exists|k: int| 0 <= k < p.len() && (#[trigger] p[k]).id@ == id {
            let k = choose|k: int| 0 <= k < p.len() && (#[trigger] p[k]).id@ == id;
            assert(events[k] == p[k]);
        }
        if exists|k: int| 0 <= k < events.len() && (#[trigger] events[k]).id@ == id {
            let k = choose|k: int| 0 <= k < events.len() && (#[trigger] events[k]).id@ == id;
            if k < events.len() - 1 {
                assert(p[k] == events[k]);
            }
        }
    }
}

/// Deleting an event leaves the Record without any event of that
/// identifier and with every other event it had, and nothing else; a read
/// then gives it.
pub proof fn law_deleted_event_leaves(
    m: RepositoryModel,
    definition_id: Seq<char>,
    event_id: Seq<char>,
    r: Result<Record, RepositoryError>,
    fm: RepositoryModel,
)
    requires
        outcome_holds(delete_event_spec(m, definition_id, event_id), r, m, fm),
        m.record(definition_id) matches Some(RecordModel::Event { .. }),
    ensures
        ({
            let events = m.record(definition_id)->0->Event_events;
            &&& r is Ok ==> exists|k: int| 0 <= k < events.len() && (#[trigger] events[k]).id@ == event_id
            &&& !(exists|k: int| 0 <= k < events.len() && (#[trigger] events[k]).id@ == event_id) ==> r is Err
            &&& r matches Ok(x) ==> (x@ matches RecordModel::Event { events: kept, .. }
                && (forall|k: int| 0 <= k < kept.len() ==> (#[trigger] kept[k]).id@ != event_id && events.contains(kept[k]))
                && (forall|e: EventModel| #[trigger] events.contains(e) && e.id@ != event_id ==> kept.contains(e))
                && fm.record(definition_id) == Some(x@))
        }),
{
    let events = m.record(definition_id)->0->Event_events;
    lemma_record_of(m, definition_id);
    lemma_events_without(events, event_id);
    lemma_events_without_len(events, event_id);
    if r is Ok {
        let kept = events_without(events, event_id);
        let rec = RecordModel::Event { definition_id: m.record(definition_id)->0->Event_definition_id, events: kept };
        lemma_stored(m, rec, r, fm);
    }
}

/// Adding an item to a collection keeps every item it had and adds one with
/// the command's identifier and fields, stamped with the recording time; an
/// identifier already there is refused.  A read then gives the collection.
pub proof fn law_added_item_joins(
    m: RepositoryModel,
    c: AddCollectionItem,
    at: String,
    r: Result<Record, RepositoryError>,
    fm: RepositoryModel,
)
    requires
        add_item_holds(m, c, at, r, fm),
    ensures
        r matches Ok(x) ==> (x@ matches RecordModel::Collection { items: now, .. }
            && now.contains(ItemModel { id: c.item_id, fields: c.fields@, recorded_at: at })
            && fm.record(c.definition_id@) == Some(x@)
            && (m.record(c.definition_id@) matches Some(RecordModel::Collection { items, .. }) ==>
                now.len() == items.len() + 1 && forall|it: ItemModel| #[trigger] items.contains(it) ==> now.contains(it))),
        m.record(c.definition_id@) matches Some(RecordModel::Collection { items, .. })
            && (exists|k: int| 0 <= k < items.len() && (#[trigger] items[k]).id@ == c.item_id@) ==> r is Err,
{
    let item = ItemModel { id: c.item_id, fields: c.fields@, recorded_at: at };
    if r is Ok {
        let (stored, all) = match m.record(c.definition_id@) {
            Some(RecordModel::Collection { definition_id: stored, items }) => (stored, items.push(item)),
            _ => (c.definition_id, seq![item]),
        };
        if m.record(c.definition_id@) is Some {
            lemma_record_of(m, c.definition_id@);
        }
        let sorted = choose|sorted: Seq<ItemModel>|
            crate::order::items_sorted(sorted) && sorted.to_multiset() == all.to_multiset()
                && outcome_holds(store_spec(m, RecordModel::Collection { definition_id: stored, items: sorted }), r, m, fm);
        let rec = RecordModel::Collection { definition_id: stored, items: sorted };
        lemma_stored(m, rec, r, fm);
        sorted.to_multiset_ensures();
        all.to_multiset_ensures();
        assert(all[all.len() - 1] == item);
        assert(all.to_multiset().count(item) > 0);
        assert(sorted.to_multiset().count(item) > 0);
        assert forall|it: ItemModel| #[trigger] all.contains(it) implies sorted.contains(it) by {
            assert(all.to_multiset().count(it) > 0);
            assert(sorted.to_multiset().count(it) > 0);
        }
        if let Some(RecordModel::Collection { items, .. }) = m.record(c.definition_id@) {
            assert forall|it: ItemModel| #[trigger] items.contains(it) implies sorted.contains(it) by {
                let j = choose|j: int| 0 <= j < items.len() && items[j] == it;
                assert(all[j] == it);
                assert(all.contains(it));
            }
            assert(sorted.len() == sorted.to_multiset().len());
            assert(all.len() == all.to_multiset().len());
        }
    }
}

/// Appending an event keeps every event the Record had and adds one with
/// the command's identifier, time and fields, stamped with the recording
/// time; an identifier already there is refused.  A read then gives it.
pub proof fn law_appended_event_joins(
    m: RepositoryModel,
    c: AppendEvent,
    at: String,
    r: Result<Record, RepositoryError>,
    fm: RepositoryModel,
)
    requires
        append_event_holds(m, c, at, r, fm),
    ensures
        r matches Ok(x) ==> (x@ matches RecordModel::Event { events: now, .. }
            && now.contains(EventModel { id: c.event_id, occurred_at: c.occurred_at, fields: c.fields@, recorded_at: at })
            && fm.record(c.definition_id@) == Some(x@)
            && (m.record(c.definition_id@) matches Some(RecordModel::Event { events, .. }) ==>
                now.len() == events.len() + 1 && forall|e: EventModel| #[trigger] events.contains(e) ==> now.contains(e))),
        m.record(c.definition_id@) matches Some(RecordModel::Event { events, .. })
            && (exists|k: int| 0 <= k < events.len() && (#[trigger] events[k]).id@ == c.event_id@) ==> r is Err,
{
    let event = EventModel { id: c.event_id, occurred_at: c.occurred_at, fields: c.fields@, recorded_at: at };
    if r is Ok {
        let (stored, all) = match m.record(c.definition_id@) {
            Some(RecordModel::Event { definition_id: stored, events }) => (stored, events.push(event)),
            _ => (c.definition_id, seq![event]),
        };
        if m.record(c.definition_id@) is Some {
            lemma_record_of(m, c.definition_id@);
        }
        let sorted = choose|sorted: Seq<EventModel>|
            crate::order::events_sorted(sorted) && sorted.to_multiset() == all.to_multiset()
                && outcome_holds(store_spec(m, RecordModel::Event { definition_id: stored, events: sorted }), r, m, fm);
        let rec = RecordModel::Event { definition_id: stored, events: sorted };
        lemma_stored(m, rec, r, fm);
        sorted.to_multiset_ensures();
        all.to_multiset_ensures();
        assert(all[all.len() - 1] == event);
        assert(all.to_multiset().count(event) > 0);
        assert(sorted.to_multiset().count(event) > 0);
        if let Some(RecordModel::Event { events, .. }) = m.record(c.definition_id@) {
            assert forall|e: EventModel| #[trigger] events.contains(e) implies sorted.contains(e) by {
                let j = choose|j: int| 0 <= j < events.len() && events[j] == e;
                assert(all[j] == e);
                assert(all.to_multiset().count(e) > 0);
                assert(sorted.to_multiset().count(e) > 0);
            }
            assert(sorted.len() == sorted.to_multiset().len());
            assert(all.len() == all.to_multiset().len());
        }
    }
}

/// Correcting an item replaces the fields of the item with the identifier
/// and stamps it with the recording time; every other item stays where it
/// was.  A read then gives the collection.
pub proof fn law_corrected_item_fields(
    m: RepositoryModel,
    c: CorrectCollectionItem,
    at: String,
    r: Result<Record, RepositoryError>,
    fm: RepositoryModel,
)
    requires
        outcome_holds(correct_item_spec(m, c, at), r, m, fm),
        m.record(c.definition_id@) matches Some(RecordModel::Collection { .. }),
        r is Ok,
    ensures
        ({
            let items = m.record(c.definition_id@)->0->Collection_items;
            r matches Ok(x) && x@ matches RecordModel::Collection { items: now, .. }
                && now.len() == items.len()
                && (exists|k: int| 0 <= k < now.len() && now[k].id@ == c.item_id@ && now[k].id == items[k].id
                    && now[k].fields == c.fields@ && now[k].recorded_at == at
                    && forall|j: int| 0 <= j < now.len() && j != k ==> #[trigger] now[j] == items[j])
                && fm.record(c.definition_id@) == Some(x@)
        }),
{
    lemma_record_of(m, c.definition_id@);
    let items = m.record(c.definition_id@)->0->Collection_items;
    let k = crate::seqs::first_match(items, crate::commands::record_commands::item_is(c.item_id@))->0;
    lemma_first_match_some(items, crate::commands::record_commands::item_is(c.item_id@));
    let rec = RecordModel::Collection {
        definition_id: m.record(c.definition_id@)->0->Collection_definition_id,
        items: items.update(k, ItemModel { id: items[k].id, fields: c.fields@, recorded_at: at }),
    };
    lemma_stored(m, rec, r, fm);
    let now = rec->Collection_items;
    assert(now[k].id@ == c.item_id@);
}

/// Correcting an event gives the event with the identifier the command's
/// time and fields, stamped with the recording time; the Record keeps as
/// many events.  A read then gives it.
pub proof fn law_corrected_event_fields(
    m: RepositoryModel,
    c: CorrectEvent,
    at: String,
    r: Result<Record, RepositoryError>,
    fm: RepositoryModel,
)
    requires
        correct_event_holds(m, c, at, r, fm),
        m.record(c.definition_id@) matches Some(RecordModel::Event { .. }),
        r is Ok,
    ensures
        ({
            let events = m.record(c.definition_id@)->0->Event_events;
            r matches Ok(x) && x@ matches RecordModel::Event { events: now, .. }
                && now.len() == events.len()
                && (exists|e: EventModel| #[trigger] now.contains(e) && e.id@ == c.event_id@
                    && e.occurred_at == c.occurred_at && e.fields == c.fields@ && e.recorded_at == at)
                && fm.record(c.definition_id@) == Some(x@)
        }),
{
    lemma_record_of(m, c.definition_id@);
    let events = m.record(c.definition_id@)->0->Event_events;
    let stored = m.record(c.definition_id@)->0->Event_definition_id;
    let k = crate::seqs::first_match(events, crate::commands::record_commands::event_is(c.event_id@))->0;
    lemma_first_match_some(events, crate::commands::record_commands::event_is(c.event_id@));
    let fixed = EventModel { id: events[k].id, occurred_at: c.occurred_at, fields: c.fields@, recorded_at: at };
    let all = events.update(k, fixed);
    assert(crate::commands::record_commands::stored_sorted_events(m, stored, all, r, fm));
    let sorted = choose|sorted: Seq<EventModel>|
        crate::order::events_sorted(sorted) && sorted.to_multiset() == all.to_multiset()
            && outcome_holds(store_spec(m, RecordModel::Event { definition_id: stored, events: sorted }), r, m, fm);
    let rec = RecordModel::Event { definition_id: stored, events: sorted };
    lemma_stored(m, rec, r, fm);
    sorted.to_multiset_ensures();
    all.to_multiset_ensures();
    assert(all[k] == fixed);
    assert(all.to_multiset().count(fixed) > 0);
    assert(sorted.to_multiset().count(fixed) > 0);
    assert(sorted.contains(fixed));
    assert(sorted.len() == sorted.to_multiset().len());
    assert(all.len() == all.to_multiset().len());
    assert(all.len() == events.len());
    assert(fixed.id@ == c.event_id@);
    assert(exists|e: EventModel| #[trigger] sorted.contains(e) && e.id@ == c.event_id@
        && e.occurred_at == c.occurred_at && e.fields == c.fields@ && e.recorded_at == at);
    assert(r matches Ok(x) && x@ == rec);
    assert(sorted.len() == events.len());
    assert(rec.definition_id()@ == c.definition_id@);
    assert(fm.record(c.definition_id@) == Some(rec));
}

} // verus!
