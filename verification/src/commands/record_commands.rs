//! Record commands: set, correct, increment, collection and event upkeep.
use vstd::prelude::*;
use crate::catalog::{registry_definition};
use crate::error::{
    RepositoryError, RepositoryErrorCode, child_conflict, child_missing_message, child_not_found,
    command_error, kind_conflict, kind_conflict_message, record_missing_message, record_not_found,
};
use crate::json::{JsonValue, exact_integer, exact_integer_spec, integer_json_value, integer_value_spec};
use crate::order::{events_sorted, items_sorted, sort_events, sort_items};
use crate::record::{
    FieldDefinition, CollectionItem, CollectionRecord, EventEntry, EventModel, EventRecord, ItemModel, Record,
    RecordDefinition, RecordDefinitionModel, RecordModel, ScalarRecord, ValueType, events_model,
    items_model,
};
use crate::repository::{Repository, RepositoryModel, records_model};
use crate::seqs::replace_or_push;
use crate::text::{concat3, str_eq};
use crate::clock::{is_clock_time, now_rfc3339};
use vstd::string::*;

verus! {

// ---------------------------------------------------------------------------
// Storing Records
// ---------------------------------------------------------------------------

/// Whether a JSON value is of a scalar value type.
pub open spec fn value_matches(t: ValueType, v: JsonValue) -> bool {
    match t {
        ValueType::String => v is Str,
        ValueType::Integer => v is NegInt || v is PosInt,
        ValueType::Number => v is NegInt || v is PosInt || v is Float,
        ValueType::Boolean => v is Bool,
        ValueType::Date => v is Str,
    }
}

/// Named values fit named field definitions: no name twice, every value
/// named by a field definition and of its type, every required field present.
pub open spec fn fields_fit(defs: Seq<(String, FieldDefinition)>, vals: Seq<(String, JsonValue)>) -> bool {
    &&& forall|i: int, j: int| 0 <= i < j < vals.len() ==> (#[trigger] vals[i]).0@ != (#[trigger] vals[j]).0@
    &&& forall|i: int| 0 <= i < vals.len() ==> field_allows(defs, #[trigger] vals[i])
    &&& forall|j: int| 0 <= j < defs.len() && (#[trigger] defs[j]).1.required ==> has_value_named(vals, defs[j].0@)
}

/// Some field definition names the value and admits its type.
pub open spec fn field_allows(defs: Seq<(String, FieldDefinition)>, v: (String, JsonValue)) -> bool {
    exists|j: int| 0 <= j < defs.len() && (#[trigger] defs[j]).0@ == v.0@ && value_matches(defs[j].1.value_type, v.1)
}

pub open spec fn has_value_named(vals: Seq<(String, JsonValue)>, name: Seq<char>) -> bool {
    exists|i: int| 0 <= i < vals.len() && (#[trigger] vals[i]).0@ == name
}

/// Whether a Record has the shape its definition prescribes.
pub open spec fn record_fits(d: RecordDefinitionModel, r: RecordModel) -> bool {
    match d {
        RecordDefinitionModel::Scalar(sd) => r matches RecordModel::Scalar(sr) && value_matches(sd.value_type, sr.value),
        RecordDefinitionModel::Collection(cd) => r matches RecordModel::Collection { items, .. }
            && forall|k: int| 0 <= k < items.len() ==> fields_fit(cd.fields, (#[trigger] items[k]).fields),
        RecordDefinitionModel::Event(ed) => r matches RecordModel::Event { events, .. }
            && forall|k: int| 0 <= k < events.len() ==> fields_fit(ed.fields, (#[trigger] events[k]).fields),
    }
}

/// The repository with `r` as the current Record of its definition.
pub open spec fn with_record(m: RepositoryModel, r: RecordModel) -> RepositoryModel {
    RepositoryModel {
        records: replace_or_push(m.records, m.record_index(r.definition_id()@), r),
        ..m
    }
}

/// Storing a Record: the enabled Packs must supply its definition and the
/// Record must fit it.
pub open spec fn put_record_spec(m: RepositoryModel, r: RecordModel) -> Result<RepositoryModel, RepositoryErrorCode> {
    match registry_definition(m, r.definition_id()@) {
        None => Err(RepositoryErrorCode::Unresolved),
        Some(d) => if record_fits(d, r) {
            Ok(with_record(m, r))
        } else {
            Err(RepositoryErrorCode::ValidationFailed)
        },
    }
}

pub fn value_matches_exec(t: ValueType, v: &JsonValue) -> (r: bool)
    ensures
        r == value_matches(t, *v),
{
    match t {
        ValueType::String => v.is_str(),
        ValueType::Integer => matches!(v, JsonValue::NegInt(_) | JsonValue::PosInt(_)),
        ValueType::Number => matches!(v, JsonValue::NegInt(_) | JsonValue::PosInt(_) | JsonValue::Float(_)),
        ValueType::Boolean => matches!(v, JsonValue::Bool(_)),
        ValueType::Date => v.is_str(),
    }
}

fn field_allows_exec(defs: &Vec<(String, FieldDefinition)>, v: &(String, JsonValue)) -> (r: bool)
    ensures
        r == field_allows(defs@, *v),
{
    let mut j: usize = 0;
    while j < defs.len()
        invariant
            j <= defs@.len(),
            forall|k: int| 0 <= k < j ==> !((#[trigger] defs@[k]).0@ == v.0@ && value_matches(defs@[k].1.value_type, v.1)),
        decreases defs.len() - j,
    {
        if str_eq(defs[j].0.as_str(), v.0.as_str()) && value_matches_exec(defs[j].1.value_type, &v.1) {
            return true;
        }
        j = j + 1;
    }
    false
}

fn has_value_named_exec(vals: &Vec<(String, JsonValue)>, name: &str) -> (r: bool)
    ensures
        r == has_value_named(vals@, name@),
{
    let mut i: usize = 0;
    while i < vals.len()
        invariant
            i <= vals@.len(),
            forall|k: int| 0 <= k < i ==> (#[trigger] vals@[k]).0@ != name@,
        decreases vals.len() - i,
    {
        if str_eq(vals[i].0.as_str(), name) {
            return true;
        }
        i = i + 1;
    }
    false
}

pub fn fields_fit_exec(defs: &Vec<(String, FieldDefinition)>, vals: &Vec<(String, JsonValue)>) -> (r: bool)
    ensures
        r == fields_fit(defs@, vals@),
{
    let mut i: usize = 0;
    while i < vals.len()
        invariant
            i <= vals@.len(),
            forall|a: int, b: int| 0 <= a < b < i ==> (#[trigger] vals@[a]).0@ != (#[trigger] vals@[b]).0@,
            forall|a: int| 0 <= a < i ==> field_allows(defs@, #[trigger] vals@[a]),
        decreases vals.len() - i,
    {
        if !field_allows_exec(defs, &vals[i]) {
            return false;
        }
        let mut j: usize = 0;
        while j < i
            invariant
                j <= i,
                i < vals@.len(),
                forall|a: int| 0 <= a < j ==> (#[trigger] vals@[a]).0@ != vals@[i as int].0@,
            decreases i - j,
        {
            if str_eq(vals[j].0.as_str(), vals[i].0.as_str()) {
                return false;
            }
            j = j + 1;
        }
        i = i + 1;
    }
    let mut j: usize = 0;
    while j < defs.len()
        invariant
            j <= defs@.len(),
            forall|a: int, b: int| 0 <= a < b < vals@.len() ==> (#[trigger] vals@[a]).0@ != (#[trigger] vals@[b]).0@,
            forall|a: int| 0 <= a < vals@.len() ==> field_allows(defs@, #[trigger] vals@[a]),
            forall|b: int| 0 <= b < j && (#[trigger] defs@[b]).1.required ==> has_value_named(vals@, defs@[b].0@),
        decreases defs.len() - j,
    {
        if defs[j].1.required && !has_value_named_exec(vals, defs[j].0.as_str()) {
            return false;
        }
        j = j + 1;
    }
    true
}

#[verifier::loop_isolation(false)]
pub fn record_fits_exec(d: &RecordDefinition, r: &Record) -> (b: bool)
    ensures
        b == record_fits(d@, r@),
{
    match (d, r) {
        (RecordDefinition::Scalar(sd), Record::Scalar(sr)) => value_matches_exec(sd.value_type, &sr.value),
        (RecordDefinition::Collection(cd), Record::Collection(cr)) => {
            let mut k: usize = 0;
            while k < cr.items.len()
                invariant
                    k <= cr.items@.len(),
                    forall|j: int| 0 <= j < k ==> fields_fit(cd.fields@, (#[trigger] cr.items@[j]).fields@),
                decreases cr.items.len() - k,
            {
                if !fields_fit_exec(&cd.fields, &cr.items[k].fields) {
                    proof {
                        assert(items_model(cr.items@)[k as int] == cr.items@[k as int]@);
                        assert(!fields_fit(cd@.fields, items_model(cr.items@)[k as int].fields));
                        assert(r@ == (RecordModel::Collection { definition_id: cr.definition_id, items: items_model(cr.items@) }));
                        assert(d@ == RecordDefinitionModel::Collection(cd@));
                        let im = items_model(cr.items@);
                        assert(0 <= k < im.len() && !fields_fit(cd@.fields, im[k as int].fields));
                        assert(!(forall|j: int| 0 <= j < im.len() ==> fields_fit(cd@.fields, (#[trigger] im[j]).fields)));
                        assert(r@->items == im);
                        assert(d@->Collection_0 == cd@);
                    }
                    return false;
                }
                k = k + 1;
            }
            proof {
                assert forall|j: int| 0 <= j < items_model(cr.items@).len()
                    implies fields_fit(cd.fields@, (#[trigger] items_model(cr.items@)[j]).fields) by {
                    assert(items_model(cr.items@)[j] == cr.items@[j]@);
                }
            }
            true
        }
        (RecordDefinition::Event(ed), Record::Event(er)) => {
            let mut k: usize = 0;
            while k < er.events.len()
                invariant
                    k <= er.events@.len(),
                    forall|j: int| 0 <= j < k ==> fields_fit(ed.fields@, (#[trigger] er.events@[j]).fields@),
                decreases er.events.len() - k,
            {
                if !fields_fit_exec(&ed.fields, &er.events[k].fields) {
                    proof {
                        assert(events_model(er.events@)[k as int] == er.events@[k as int]@);
                        assert(!fields_fit(ed@.fields, events_model(er.events@)[k as int].fields));
                        assert(r@ == (RecordModel::Event { definition_id: er.definition_id, events: events_model(er.events@) }));
                        assert(d@ == RecordDefinitionModel::Event(ed@));
                        let em = events_model(er.events@);
                        assert(0 <= k < em.len() && !fields_fit(ed@.fields, em[k as int].fields));
                        assert(!(forall|j: int| 0 <= j < em.len() ==> fields_fit(ed@.fields, (#[trigger] em[j]).fields)));
                        assert(r@->events == em);
                        assert(d@->Event_0 == ed@);
                    }
                    return false;
                }
                k = k + 1;
            }
            proof {
                assert forall|j: int| 0 <= j < events_model(er.events@).len()
                    implies fields_fit(ed.fields@, (#[trigger] events_model(er.events@)[j]).fields) by {
                    assert(events_model(er.events@)[j] == er.events@[j]@);
                }
            }
            true
        }
        _ => false,
    }
}

impl Repository {
    /// Validate a Record against the enabled Packs and store it.
    pub fn put_record(&mut self, record: Record) -> (r: Result<(), RepositoryError>)
        ensures
            match put_record_spec(old(self)@, record@) {
                Ok(m) => r is Ok && final(self)@ == m,
                Err(c) => r matches Err(e) && e.code == c && final(self)@ == old(self)@,
            },
    {
        let definition = self.registry_definition(record.definition_id().as_str());
        match definition {
            None => {
                proof {
                    reveal_strlit("RecordDefinition '");
                    reveal_strlit("' is not supplied by an enabled Pack");
                }
                Err(RepositoryError::new(
                    RepositoryErrorCode::Unresolved,
                    concat3("RecordDefinition '", record.definition_id().as_str(), "' is not supplied by an enabled Pack"),
                ))
            }
            Some(d) => {
                if !record_fits_exec(&d, &record) {
                    return Err(command_error(concat3("Record '", record.definition_id().as_str(), "' does not fit its RecordDefinition")));
                }
                let ghost old_records = self.records@;
                let index = self.find_record(record.definition_id().as_str());
                match index {
                    Some(i) => {
                        self.records.set(i, record);
                    }
                    None => {
                        self.records.push(record);
                    }
                }
                proof {
                    assert(records_model(self.records@) =~= replace_or_push(records_model(old_records), old(self)@.record_index(record@.definition_id()@), record@));
                }
                Ok(())
            }
        }
    }

    /// Remove the current Record of a definition.
    pub fn delete_record(&mut self, definition_id: &str) -> (r: Result<(), RepositoryError>)
        ensures
            match old(self)@.record_index(definition_id@) {
                Some(i) => r is Ok && final(self)@ == RepositoryModel { records: old(self)@.records.remove(i), ..old(self)@ },
                None => r matches Err(e) && e.code == RepositoryErrorCode::NotFound && e.message@ == record_missing_message(definition_id@) && final(self)@ == old(self)@,
            },
    {
        match self.find_record(definition_id) {
            Some(i) => {
                let ghost old_records = self.records@;
                let _removed = self.records.remove(i);
                proof {
                    assert(records_model(self.records@) =~= records_model(old_records).remove(i as int));
                }
                Ok(())
            }
            None => Err(record_not_found(definition_id)),
        }
    }
}

impl JsonValue {
    pub fn is_str(&self) -> (r: bool)
        ensures
            r == (*self is Str),
    {
        matches!(self, JsonValue::Str(_))
    }
}

// ---------------------------------------------------------------------------
// Commands
// ---------------------------------------------------------------------------

#[derive(Debug, Clone, PartialEq, Eq)]
pub struct SetScalarRecord {
    pub definition_id: String,
    pub value: JsonValue,
    pub effective_at: Option<String>,
}

#[derive(Debug, Clone, PartialEq, Eq)]
pub struct IncrementScalarRecord {
    pub definition_id: String,
    pub delta: JsonValue,
    pub effective_at: Option<String>,
}

#[derive(Debug, Clone, PartialEq, Eq)]
pub struct CreateEmptyRecord {
    pub definition_id: String,
}

#[derive(Debug, Clone, PartialEq, Eq)]
pub struct AddCollectionItem {
    pub definition_id: String,
    pub item_id: String,
    pub fields: Vec<(String, JsonValue)>,
}

#[derive(Debug, Clone, PartialEq, Eq)]
pub struct CorrectCollectionItem {
    pub definition_id: String,
    pub item_id: String,
    pub fields: Vec<(String, JsonValue)>,
}

#[derive(Debug, Clone, PartialEq, Eq)]
pub struct RemoveCollectionItem {
    pub definition_id: String,
    pub item_id: String,
}

#[derive(Debug, Clone, PartialEq, Eq)]
pub struct AppendEvent {
    pub definition_id: String,
    pub event_id: String,
    pub occurred_at: String,
    pub fields: Vec<(String, JsonValue)>,
}

#[derive(Debug, Clone, PartialEq, Eq)]
pub struct CorrectEvent {
    pub definition_id: String,
    pub event_id: String,
    pub occurred_at: String,
    pub fields: Vec<(String, JsonValue)>,
}

#[derive(Debug, Clone, PartialEq, Eq)]
pub struct DeleteEvent {
    pub definition_id: String,
    pub event_id: String,
}

/// How a command's specification relates its result to the repository.
pub open spec fn outcome_holds(
    spec: Result<(RecordModel, RepositoryModel), RepositoryErrorCode>,
    r: Result<Record, RepositoryError>,
    old_m: RepositoryModel,
    new_m: RepositoryModel,
) -> bool {
    match spec {
        Ok((rec, m)) => r matches Ok(x) && x@ == rec && new_m == m,
        Err(c) => r matches Err(e) && e.code == c && new_m == old_m,
    }
}

/// Store `rec` as a command's result.
pub open spec fn store_spec(m: RepositoryModel, rec: RecordModel) -> Result<(RecordModel, RepositoryModel), RepositoryErrorCode> {
    match put_record_spec(m, rec) {
        Ok(m2) => Ok((rec, m2)),
        Err(c) => Err(c),
    }
}

/// A Record may only be created where none exists.
pub open spec fn create_record_spec(m: RepositoryModel, rec: RecordModel) -> Result<(RecordModel, RepositoryModel), RepositoryErrorCode> {
    if m.record_index(rec.definition_id()@) is Some {
        Err(RepositoryErrorCode::Conflict)
    } else {
        store_spec(m, rec)
    }
}

/// Items of a collection other than those with the given identifier.
pub open spec fn items_without(items: Seq<ItemModel>, id: Seq<char>) -> Seq<ItemModel>
    decreases items.len(),
{
    if items.len() == 0 {
        Seq::empty()
    } else {
        let prev = items_without(items.drop_last(), id);
        if items.last().id@ == id {
            prev
        } else {
            prev.push(items.last())
        }
    }
}

/// Events other than those with the given identifier.
pub open spec fn events_without(events: Seq<EventModel>, id: Seq<char>) -> Seq<EventModel>
    decreases events.len(),
{
    if events.len() == 0 {
        Seq::empty()
    } else {
        let prev = events_without(events.drop_last(), id);
        if events.last().id@ == id {
            prev
        } else {
            prev.push(events.last())
        }
    }
}

pub open spec fn remove_item_spec(m: RepositoryModel, definition_id: Seq<char>, item_id: Seq<char>) -> Result<(RecordModel, RepositoryModel), RepositoryErrorCode> {
    match m.record(definition_id) {
        None => Err(RepositoryErrorCode::NotFound),
        Some(RecordModel::Collection { definition_id: stored, items }) => {
            let kept = items_without(items, item_id);
            if kept.len() == items.len() {
                Err(RepositoryErrorCode::NotFound)
            } else {
                store_spec(m, RecordModel::Collection { definition_id: stored, items: kept })
            }
        },
        Some(_) => Err(RepositoryErrorCode::Conflict),
    }
}

pub open spec fn delete_event_spec(m: RepositoryModel, definition_id: Seq<char>, event_id: Seq<char>) -> Result<(RecordModel, RepositoryModel), RepositoryErrorCode> {
    match m.record(definition_id) {
        None => Err(RepositoryErrorCode::NotFound),
        Some(RecordModel::Event { definition_id: stored, events }) => {
            let kept = events_without(events, event_id);
            if kept.len() == events.len() {
                Err(RepositoryErrorCode::NotFound)
            } else {
                store_spec(m, RecordModel::Event { definition_id: stored, events: kept })
            }
        },
        Some(_) => Err(RepositoryErrorCode::Conflict),
    }
}

pub fn items_without_exec(items: Vec<CollectionItem>, id: &str) -> (r: Vec<CollectionItem>)
    ensures
        items_model(r@) == items_without(items_model(items@), id@),
{
    let mut out: Vec<CollectionItem> = Vec::new();
    let mut i: usize = 0;
    let ghost all = items_model(items@);
    while i < items.len()
        invariant
            i <= items@.len(),
            all == items_model(items@),
            items_model(out@) == items_without(all.take(i as int), id@),
        decreases items.len() - i,
    {
        proof {
            assert(all.take(i + 1).drop_last() =~= all.take(i as int));
        }
        if !str_eq(items[i].id.as_str(), id) {
            let ghost before = items_model(out@);
            out.push(items[i].copied());
            proof {
                assert(items_model(out@) =~= before.push(all[i as int]));
            }
        }
        i = i + 1;
    }
    proof {
        assert(all.take(items@.len() as int) =~= all);
    }
    out
}

pub fn events_without_exec(events: Vec<EventEntry>, id: &str) -> (r: Vec<EventEntry>)
    ensures
        events_model(r@) == events_without(events_model(events@), id@),
{
    let mut out: Vec<EventEntry> = Vec::new();
    let mut i: usize = 0;
    let ghost all = events_model(events@);
    while i < events.len()
        invariant
            i <= events@.len(),
            all == events_model(events@),
            events_model(out@) == events_without(all.take(i as int), id@),
        decreases events.len() - i,
    {
        proof {
            assert(all.take(i + 1).drop_last() =~= all.take(i as int));
        }
        if !str_eq(events[i].id.as_str(), id) {
            let ghost before = events_model(out@);
            out.push(events[i].copied());
            proof {
                assert(events_model(out@) =~= before.push(all[i as int]));
            }
        }
        i = i + 1;
    }
    proof {
        assert(all.take(events@.len() as int) =~= all);
    }
    out
}

// ---------------------------------------------------------------------------
// Increments
// ---------------------------------------------------------------------------

/// The incremented value: integers add exactly and must stay in the JSON
/// integer range; a number's sum is the one the floating-point adder gave.
pub open spec fn incremented_value(t: ValueType, current: JsonValue, delta: JsonValue, number_sum: Option<JsonValue>) -> Option<JsonValue> {
    if t == ValueType::Integer {
        match (exact_integer_spec(current), exact_integer_spec(delta)) {
            (Some(a), Some(b)) => integer_value_spec(a + b),
            _ => None,
        }
    } else {
        number_sum
    }
}

/// The operands handed to the floating-point adder, when it is consulted.
pub open spec fn number_operands(m: RepositoryModel, command: IncrementScalarRecord) -> Option<(JsonValue, JsonValue)> {
    match (registry_definition(m, command.definition_id@), m.record(command.definition_id@)) {
        (Some(RecordDefinitionModel::Scalar(d)), Some(RecordModel::Scalar(e))) =>
            if d.value_type == ValueType::Number { Some((e.value, command.delta)) } else { None },
        _ => None,
    }
}

/// Add a delta to a numeric scalar Record, keeping its
/// effective time unless the command gives one.
pub open spec fn increment_spec(m: RepositoryModel, command: IncrementScalarRecord, recorded_at: String, number_sum: Option<JsonValue>) -> Result<(RecordModel, RepositoryModel), RepositoryErrorCode> {
    match registry_definition(m, command.definition_id@) {
        None => Err(RepositoryErrorCode::Unresolved),
        Some(RecordDefinitionModel::Scalar(d)) => if !(d.value_type == ValueType::Number || d.value_type == ValueType::Integer) {
            Err(RepositoryErrorCode::ValidationFailed)
        } else {
            match m.record(command.definition_id@) {
                None => Err(RepositoryErrorCode::NotFound),
                Some(RecordModel::Scalar(existing)) => match incremented_value(d.value_type, existing.value, command.delta, number_sum) {
                    None => Err(RepositoryErrorCode::ValidationFailed),
                    Some(v) => store_spec(m, RecordModel::Scalar(ScalarRecord {
                        definition_id: command.definition_id,
                        value: v,
                        effective_at: if command.effective_at is Some { command.effective_at } else { existing.effective_at },
                        recorded_at,
                    })),
                },
                Some(_) => Err(RepositoryErrorCode::Conflict),
            }
        },
        Some(_) => Err(RepositoryErrorCode::ValidationFailed),
    }
}

pub fn first_item_index(items: &Vec<CollectionItem>, id: &str) -> (r: Option<usize>)
    ensures
        r matches Some(k) ==> k < items@.len() && crate::seqs::first_match(items_model(items@), item_is(id@)) == Some(k as int),
        r is None ==> crate::seqs::first_match(items_model(items@), item_is(id@)) is None,
{
    let ghost all = items_model(items@);
    let mut k: usize = 0;
    while k < items.len()
        invariant
            k <= items@.len(),
            all == items_model(items@),
            forall|j: int| 0 <= j < k ==> !item_is(id@)(#[trigger] all[j]),
        decreases items.len() - k,
    {
        if str_eq(items[k].id.as_str(), id) {
            proof {
                assert(crate::seqs::is_first_match(all, item_is(id@), k as int));
                crate::seqs::lemma_first_match_is(all, item_is(id@), k as int);
            }
            return Some(k);
        }
        k = k + 1;
    }
    proof {
        crate::seqs::lemma_first_match_none(all, item_is(id@));
    }
    None
}

pub fn first_event_index(events: &Vec<EventEntry>, id: &str) -> (r: Option<usize>)
    ensures
        r matches Some(k) ==> k < events@.len() && crate::seqs::first_match(events_model(events@), event_is(id@)) == Some(k as int),
        r is None ==> crate::seqs::first_match(events_model(events@), event_is(id@)) is None,
{
    let ghost all = events_model(events@);
    let mut k: usize = 0;
    while k < events.len()
        invariant
            k <= events@.len(),
            all == events_model(events@),
            forall|j: int| 0 <= j < k ==> !event_is(id@)(#[trigger] all[j]),
        decreases events.len() - k,
    {
        if str_eq(events[k].id.as_str(), id) {
            proof {
                assert(crate::seqs::is_first_match(all, event_is(id@), k as int));
                crate::seqs::lemma_first_match_is(all, event_is(id@), k as int);
            }
            return Some(k);
        }
        k = k + 1;
    }
    proof {
        crate::seqs::lemma_first_match_none(all, event_is(id@));
    }
    None
}

/// Commands over the Records of a repository.
pub struct RecordCommands<'repository> {
    pub repository: &'repository mut Repository,
}

impl Repository {
    /// Store a Record, returning a copy of what was stored.
    fn store(&mut self, record: Record) -> (r: Result<Record, RepositoryError>)
        ensures
            outcome_holds(store_spec(old(self)@, record@), r, old(self)@, final(self)@),
    {
        let copy = record.copied();
        match self.put_record(record) {
            Ok(()) => Ok(copy),
            Err(e) => Err(e),
        }
    }

    /// Store a Record where none exists yet.
    fn create_record(&mut self, record: Record) -> (r: Result<Record, RepositoryError>)
        ensures
            outcome_holds(create_record_spec(old(self)@, record@), r, old(self)@, final(self)@),
    {
        if self.find_record(record.definition_id().as_str()).is_some() {
            proof {
                reveal_strlit("Record '");
            }
            return Err(RepositoryError::new(
                RepositoryErrorCode::Conflict,
                concat3("Record '", record.definition_id().as_str(), "' already exists"),
            ));
        }
        self.store(record)
    }

    /// Set a scalar Record, recording when it was written.
    pub fn set_scalar_at(&mut self, command: SetScalarRecord, recorded_at: String) -> (r: Result<Record, RepositoryError>)
        ensures
            outcome_holds(
                store_spec(old(self)@, RecordModel::Scalar(ScalarRecord {
                    definition_id: command.definition_id,
                    value: command.value,
                    effective_at: command.effective_at,
                    recorded_at,
                })),
                r, old(self)@, final(self)@),
    {
        let record = Record::Scalar(ScalarRecord {
            definition_id: command.definition_id,
            value: command.value,
            effective_at: command.effective_at,
            recorded_at,
        });
        self.store(record)
    }

    /// Create an explicitly empty collection Record; an existing Record is
    /// never cleared.
    pub fn create_empty_collection(&mut self, command: CreateEmptyRecord) -> (r: Result<Record, RepositoryError>)
        ensures
            outcome_holds(
                create_record_spec(old(self)@, RecordModel::Collection {
                    definition_id: command.definition_id,
                    items: Seq::empty(),
                }),
                r, old(self)@, final(self)@),
    {
        let record = Record::Collection(CollectionRecord { definition_id: command.definition_id, items: Vec::new() });
        proof {
            assert(items_model(Seq::<CollectionItem>::empty()) =~= Seq::<ItemModel>::empty());
        }
        self.create_record(record)
    }

    /// Create an explicitly empty event Record; an existing Record is never
    /// cleared.
    pub fn create_empty_event(&mut self, command: CreateEmptyRecord) -> (r: Result<Record, RepositoryError>)
        ensures
            outcome_holds(
                create_record_spec(old(self)@, RecordModel::Event {
                    definition_id: command.definition_id,
                    events: Seq::empty(),
                }),
                r, old(self)@, final(self)@),
    {
        let record = Record::Event(EventRecord { definition_id: command.definition_id, events: Vec::new() });
        proof {
            assert(events_model(Seq::<EventEntry>::empty()) =~= Seq::<EventModel>::empty());
        }
        self.create_record(record)
    }

    /// Remove a collection item by identifier.
    pub fn remove_collection_item(&mut self, command: RemoveCollectionItem) -> (r: Result<Record, RepositoryError>)
        ensures
            outcome_holds(remove_item_spec(old(self)@, command.definition_id@, command.item_id@),
                r, old(self)@, final(self)@),
    {
        let index = self.find_record(command.definition_id.as_str());
        let i = match index {
            Some(i) => i,
            None => return Err(record_not_found(command.definition_id.as_str())),
        };
        let (stored, items) = match &self.records[i] {
            Record::Collection(c) => (c.definition_id.clone(), crate::record::copy_items(&c.items)),
            _ => return Err(kind_conflict(command.definition_id.as_str(), "collection")),
        };
        let original_len = items.len();
        let kept = items_without_exec(items, command.item_id.as_str());
        if kept.len() == original_len {
            return Err(child_not_found("collection item", command.item_id.as_str(), command.definition_id.as_str()));
        }
        self.store(Record::Collection(CollectionRecord { definition_id: stored, items: kept }))
    }

    /// Delete an event by identifier.
    pub fn delete_event(&mut self, command: DeleteEvent) -> (r: Result<Record, RepositoryError>)
        ensures
            outcome_holds(delete_event_spec(old(self)@, command.definition_id@, command.event_id@),
                r, old(self)@, final(self)@),
    {
        let index = self.find_record(command.definition_id.as_str());
        let i = match index {
            Some(i) => i,
            None => return Err(record_not_found(command.definition_id.as_str())),
        };
        let (stored, events) = match &self.records[i] {
            Record::Event(e) => (e.definition_id.clone(), crate::record::copy_events(&e.events)),
            _ => return Err(kind_conflict(command.definition_id.as_str(), "event")),
        };
        let original_len = events.len();
        let kept = events_without_exec(events, command.event_id.as_str());
        if kept.len() == original_len {
            return Err(child_not_found("event", command.event_id.as_str(), command.definition_id.as_str()));
        }
        self.store(Record::Event(EventRecord { definition_id: stored, events: kept }))
    }

    /// Add an item to a collection Record.
    #[verifier::loop_isolation(false)]

    pub fn add_collection_item_at(&mut self, command: AddCollectionItem, recorded_at: String) -> (r: Result<Record, RepositoryError>)
        ensures
            add_item_holds(old(self)@, command, recorded_at, r, final(self)@),
    {
        let ghost m = self@;
        let found = self.find_record(command.definition_id.as_str());
        proof {
            if let Some(i) = found {
                assert(m.record(command.definition_id@) == Some(self.records@[i as int]@));
            }
        }
        let (stored, mut items) = match found {
            Some(i) => match &self.records[i] {
                Record::Collection(c) => (c.definition_id.clone(), crate::record::copy_items(&c.items)),
                _ => return Err(kind_conflict(command.definition_id.as_str(), "collection")),
            },
            None => (command.definition_id.clone(), Vec::new()),
        };
        let mut k: usize = 0;
        while k < items.len()
            invariant
                k <= items@.len(),
                forall|j: int| 0 <= j < k ==> (#[trigger] items@[j]).id@ != command.item_id@,
            decreases items.len() - k,
        {
            if str_eq(items[k].id.as_str(), command.item_id.as_str()) {
                proof {
                    assert(items_model(items@)[k as int].id@ == command.item_id@);
                    assert(has_item(items_model(items@), command.item_id@));
                }
                return Err(child_conflict("collection item", command.item_id.as_str(), command.definition_id.as_str()));
            }
            k = k + 1;
        }
        let ghost before = items_model(items@);
        proof {
            assert(!crate::commands::record_commands::has_item(before, command.item_id@)) by {
                assert forall|j: int| 0 <= j < before.len() implies (#[trigger] before[j]).id@ != command.item_id@ by {
                    assert(before[j] == items@[j]@);
                }
            }
            if m.record(command.definition_id@) is None {
                assert(before =~= Seq::<ItemModel>::empty());
            }
        }
        items.push(CollectionItem { id: command.item_id, fields: command.fields, recorded_at });
        let ghost all = items_model(items@);
        proof {
            assert(all =~= before.push(items@.last()@));
        }
        let sorted = sort_items(items);
        let result = self.store(Record::Collection(CollectionRecord { definition_id: stored, items: sorted }));
        proof {
            assert(stored_sorted_items(m, stored, all, result, self@)) by {
                assert(items_sorted(items_model(sorted@)) && items_model(sorted@).to_multiset() == all.to_multiset());
            }
        }
        result
    }

    /// Replace the fields of a collection item.
    #[verifier::loop_isolation(false)]

    pub fn correct_collection_item_at(&mut self, command: CorrectCollectionItem, recorded_at: String) -> (r: Result<Record, RepositoryError>)
        ensures
            outcome_holds(correct_item_spec(old(self)@, command, recorded_at), r, old(self)@, final(self)@),
    {
        let index = self.find_record(command.definition_id.as_str());
        let i = match index {
            Some(i) => i,
            None => return Err(record_not_found(command.definition_id.as_str())),
        };
        proof {
            assert(self@.record(command.definition_id@) == Some(self.records@[i as int]@));
        }
        let (stored, mut items) = match &self.records[i] {
            Record::Collection(c) => (c.definition_id.clone(), crate::record::copy_items(&c.items)),
            _ => return Err(kind_conflict(command.definition_id.as_str(), "collection")),
        };
        let ghost before = items_model(items@);
        match first_item_index(&items, command.item_id.as_str()) {
            Some(k) => {
                let id = items[k].id.clone();
                items.set(k, CollectionItem { id, fields: command.fields, recorded_at });
                proof {
                    assert(items_model(items@) =~= before.update(k as int, items@[k as int]@));
                }
                self.store(Record::Collection(CollectionRecord { definition_id: stored, items }))
            }
            None => Err(child_not_found("collection item", command.item_id.as_str(), command.definition_id.as_str())),
        }
    }

    /// Append an event to an event Record.
    #[verifier::loop_isolation(false)]

    pub fn append_event_at(&mut self, command: AppendEvent, recorded_at: String) -> (r: Result<Record, RepositoryError>)
        ensures
            append_event_holds(old(self)@, command, recorded_at, r, final(self)@),
    {
        let ghost m = self@;
        let found = self.find_record(command.definition_id.as_str());
        proof {
            if let Some(i) = found {
                assert(m.record(command.definition_id@) == Some(self.records@[i as int]@));
            }
        }
        let (stored, mut events) = match found {
            Some(i) => match &self.records[i] {
                Record::Event(e) => (e.definition_id.clone(), crate::record::copy_events(&e.events)),
                _ => return Err(kind_conflict(command.definition_id.as_str(), "event")),
            },
            None => (command.definition_id.clone(), Vec::new()),
        };
        let mut k: usize = 0;
        while k < events.len()
            invariant
                k <= events@.len(),
                forall|j: int| 0 <= j < k ==> (#[trigger] events@[j]).id@ != command.event_id@,
            decreases events.len() - k,
        {
            if str_eq(events[k].id.as_str(), command.event_id.as_str()) {
                proof {
                    assert(events_model(events@)[k as int].id@ == command.event_id@);
                    assert(has_event(events_model(events@), command.event_id@));
                }
                return Err(child_conflict("event", command.event_id.as_str(), command.definition_id.as_str()));
            }
            k = k + 1;
        }
        let ghost before = events_model(events@);
        proof {
            assert(!crate::commands::record_commands::has_event(before, command.event_id@)) by {
                assert forall|j: int| 0 <= j < before.len() implies (#[trigger] before[j]).id@ != command.event_id@ by {
                    assert(before[j] == events@[j]@);
                }
            }
            if m.record(command.definition_id@) is None {
                assert(before =~= Seq::<EventModel>::empty());
            }
        }
        events.push(EventEntry { id: command.event_id, occurred_at: command.occurred_at, fields: command.fields, recorded_at });
        let ghost all = events_model(events@);
        proof {
            assert(all =~= before.push(events@.last()@));
        }
        let sorted = sort_events(events);
        let result = self.store(Record::Event(EventRecord { definition_id: stored, events: sorted }));
        proof {
            assert(stored_sorted_events(m, stored, all, result, self@)) by {
                assert(events_sorted(events_model(sorted@)) && events_model(sorted@).to_multiset() == all.to_multiset());
            }
        }
        result
    }

    /// Replace the time and fields of an event.
    #[verifier::loop_isolation(false)]

    pub fn correct_event_at(&mut self, command: CorrectEvent, recorded_at: String) -> (r: Result<Record, RepositoryError>)
        ensures
            correct_event_holds(old(self)@, command, recorded_at, r, final(self)@),
    {
        let ghost m = self@;
        let index = self.find_record(command.definition_id.as_str());
        let i = match index {
            Some(i) => i,
            None => return Err(record_not_found(command.definition_id.as_str())),
        };
        proof {
            assert(self@.record(command.definition_id@) == Some(self.records@[i as int]@));
        }
        let (stored, mut events) = match &self.records[i] {
            Record::Event(e) => (e.definition_id.clone(), crate::record::copy_events(&e.events)),
            _ => return Err(kind_conflict(command.definition_id.as_str(), "event")),
        };
        let ghost before = events_model(events@);
        match first_event_index(&events, command.event_id.as_str()) {
            Some(k) => {
                let id = events[k].id.clone();
                events.set(k, EventEntry { id, occurred_at: command.occurred_at, fields: command.fields, recorded_at });
                let ghost all = events_model(events@);
                proof {
                    assert(all =~= before.update(k as int, events@[k as int]@));
                }
                let sorted = sort_events(events);
                let result = self.store(Record::Event(EventRecord { definition_id: stored, events: sorted }));
                proof {
                    assert(stored_sorted_events(m, stored, all, result, self@)) by {
                        assert(events_sorted(events_model(sorted@)) && events_model(sorted@).to_multiset() == all.to_multiset());
                    }
                }
                result
            }
            None => Err(child_not_found("event", command.event_id.as_str(), command.definition_id.as_str())),
        }
    }

    /// Increment a numeric scalar Record.  Integers are added exactly here;
    /// the sum of two numbers that are not both integers is floating-point
    /// arithmetic, which `add_numbers` performs.
    pub fn increment_scalar_at<F: Fn(&JsonValue, &JsonValue) -> Option<JsonValue>>(
        &mut self,
        command: IncrementScalarRecord,
        recorded_at: String,
        add_numbers: F,
    ) -> (r: Result<Record, RepositoryError>)
        requires
            forall|a: &JsonValue, b: &JsonValue| add_numbers.requires((a, b)),
        ensures
            exists|ns: Option<JsonValue>|
                (match number_operands(old(self)@, command) {
                    Some((a, b)) => add_numbers.ensures((&a, &b), ns),
                    None => true,
                }) && outcome_holds(increment_spec(old(self)@, command, recorded_at, ns), r, old(self)@, final(self)@),
    {
        let ghost m = self@;
        let definition = self.registry_definition(command.definition_id.as_str());
        let value_type = match definition {
            Some(RecordDefinition::Scalar(d)) => d.value_type,
            Some(_) => {
                let e = command_error(concat3("Record '", command.definition_id.as_str(), "' is not scalar and cannot be incremented"));
                proof { assert(outcome_holds(increment_spec(m, command, recorded_at, None), Err::<Record, RepositoryError>(e), m, self@)); }
                return Err(e);
            }
            None => {
                let e = RepositoryError::new(
                    RepositoryErrorCode::Unresolved,
                    concat3("RecordDefinition '", command.definition_id.as_str(), "' is not supplied by an enabled Pack"),
                );
                proof { assert(outcome_holds(increment_spec(m, command, recorded_at, None), Err::<Record, RepositoryError>(e), m, self@)); }
                return Err(e);
            }
        };
        if !(value_type == ValueType::Number || value_type == ValueType::Integer) {
            let e = command_error(concat3("Record '", command.definition_id.as_str(), "' has a non-numeric type"));
            proof { assert(outcome_holds(increment_spec(m, command, recorded_at, None), Err::<Record, RepositoryError>(e), m, self@)); }
            return Err(e);
        }
        let found = self.find_record(command.definition_id.as_str());
        let i = match found {
            Some(i) => i,
            None => {
                let e = RepositoryError::new(
                    RepositoryErrorCode::NotFound,
                    concat3("Record '", command.definition_id.as_str(), "' has no current value"),
                );
                proof { assert(outcome_holds(increment_spec(m, command, recorded_at, None), Err::<Record, RepositoryError>(e), m, self@)); }
                return Err(e);
            }
        };
        proof {
            assert(m.record(command.definition_id@) == Some(self.records@[i as int]@));
        }
        let existing = match &self.records[i] {
            Record::Scalar(s) => s.copied(),
            _ => {
                let e = RepositoryError::new(
                    RepositoryErrorCode::Conflict,
                    concat3("Record '", command.definition_id.as_str(), "' is not stored as scalar"),
                );
                proof { assert(outcome_holds(increment_spec(m, command, recorded_at, None), Err::<Record, RepositoryError>(e), m, self@)); }
                return Err(e);
            }
        };
        let ghost mut ns: Option<JsonValue> = None;
        let value = if value_type == ValueType::Integer {
            match (exact_integer(&existing.value), exact_integer(&command.delta)) {
                (Some(a), Some(b)) => integer_json_value(a + b),
                _ => None,
            }
        } else {
            let sum = add_numbers(&existing.value, &command.delta);
            proof { ns = sum; }
            sum
        };
        proof {
            assert(value == incremented_value(value_type, existing.value, command.delta, ns));
        }
        let value = match value {
            Some(v) => v,
            None => {
                let e = command_error(concat3("Record '", command.definition_id.as_str(), "' cannot be incremented by this delta"));
                proof { assert(outcome_holds(increment_spec(m, command, recorded_at, ns), Err::<Record, RepositoryError>(e), m, self@)); }
                return Err(e);
            }
        };
        let effective_at = match command.effective_at {
            Some(t) => Some(t),
            None => existing.effective_at,
        };
        let result = self.store(Record::Scalar(ScalarRecord {
            definition_id: command.definition_id,
            value,
            effective_at,
            recorded_at,
        }));
        result
    }

    /// Set a scalar Record now.
    pub fn set_scalar(&mut self, command: SetScalarRecord) -> (r: Result<Record, RepositoryError>)
        ensures
            exists|at: String| is_clock_time(at@) && outcome_holds(
                store_spec(old(self)@, RecordModel::Scalar(ScalarRecord {
                    definition_id: command.definition_id,
                    value: command.value,
                    effective_at: command.effective_at,
                    recorded_at: at,
                })),
                r, old(self)@, final(self)@),
    {
        let at = now_rfc3339();
        self.set_scalar_at(command, at)
    }

    /// Correct a scalar Record: a correction is a new value recorded now.
    pub fn correct_scalar(&mut self, command: SetScalarRecord) -> (r: Result<Record, RepositoryError>)
        ensures
            exists|at: String| is_clock_time(at@) && outcome_holds(
                store_spec(old(self)@, RecordModel::Scalar(ScalarRecord {
                    definition_id: command.definition_id,
                    value: command.value,
                    effective_at: command.effective_at,
                    recorded_at: at,
                })),
                r, old(self)@, final(self)@),
    {
        self.set_scalar(command)
    }

    /// Increment a numeric scalar Record now.
    pub fn increment_scalar<F: Fn(&JsonValue, &JsonValue) -> Option<JsonValue>>(
        &mut self,
        command: IncrementScalarRecord,
        add_numbers: F,
    ) -> (r: Result<Record, RepositoryError>)
        requires
            forall|a: &JsonValue, b: &JsonValue| add_numbers.requires((a, b)),
        ensures
            exists|at: String, ns: Option<JsonValue>|
                is_clock_time(at@) && (match number_operands(old(self)@, command) {
                    Some((a, b)) => add_numbers.ensures((&a, &b), ns),
                    None => true,
                }) && outcome_holds(increment_spec(old(self)@, command, at, ns), r, old(self)@, final(self)@),
    {
        let at = now_rfc3339();
        self.increment_scalar_at(command, at, add_numbers)
    }

    /// Add a collection item now.
    pub fn add_collection_item(&mut self, command: AddCollectionItem) -> (r: Result<Record, RepositoryError>)
        ensures
            exists|at: String| is_clock_time(at@) && add_item_holds(old(self)@, command, at, r, final(self)@),
    {
        let at = now_rfc3339();
        self.add_collection_item_at(command, at)
    }

    /// Correct a collection item now.
    pub fn correct_collection_item(&mut self, command: CorrectCollectionItem) -> (r: Result<Record, RepositoryError>)
        ensures
            exists|at: String| is_clock_time(at@) && outcome_holds(correct_item_spec(old(self)@, command, at), r, old(self)@, final(self)@),
    {
        let at = now_rfc3339();
        self.correct_collection_item_at(command, at)
    }

    /// Append an event now.
    pub fn append_event(&mut self, command: AppendEvent) -> (r: Result<Record, RepositoryError>)
        ensures
            exists|at: String| is_clock_time(at@) && append_event_holds(old(self)@, command, at, r, final(self)@),
    {
        let at = now_rfc3339();
        self.append_event_at(command, at)
    }

    /// Correct an event now.
    pub fn correct_event(&mut self, command: CorrectEvent) -> (r: Result<Record, RepositoryError>)
        ensures
            exists|at: String| is_clock_time(at@) && correct_event_holds(old(self)@, command, at, r, final(self)@),
    {
        let at = now_rfc3339();
        self.correct_event_at(command, at)
    }
}

impl<'repository> RecordCommands<'repository> {
    pub fn new(repository: &'repository mut Repository) -> (r: Self)
        ensures
            r.repository@ == old(repository)@,
    {
        RecordCommands { repository }
    }

    /// The current Record of a definition, if any.
    pub fn get(&self, definition_id: &str) -> (r: Result<Option<Record>, RepositoryError>)
        ensures
            r matches Ok(o) && match o {
                Some(rec) => old(self.repository)@.record(definition_id@) == Some(rec@),
                None => old(self.repository)@.record(definition_id@) is None,
            },
    {
        match self.repository.find_record(definition_id) {
            Some(i) => Ok(Some(self.repository.records[i].copied())),
            None => Ok(None),
        }
    }

    /// Delete the current Record while retaining its definition.
    pub fn delete(&mut self, definition_id: &str) -> (r: Result<(), RepositoryError>)
        ensures
            match old(self).repository@.record_index(definition_id@) {
                Some(i) => r is Ok && final(self).repository@ == RepositoryModel {
                    records: old(self).repository@.records.remove(i),
                    ..old(self).repository@
                },
                None => r matches Err(e) && e.code == RepositoryErrorCode::NotFound
                    && final(self).repository@ == old(self).repository@,
            },
    {
        self.repository.delete_record(definition_id)
    }

    /// Set a scalar Record, recording when it was written.
    pub fn set_scalar_at(&mut self, command: SetScalarRecord, recorded_at: String) -> (r: Result<Record, RepositoryError>)
        ensures
            outcome_holds(
                store_spec(old(self).repository@, RecordModel::Scalar(ScalarRecord {
                    definition_id: command.definition_id,
                    value: command.value,
                    effective_at: command.effective_at,
                    recorded_at,
                })),
                r, old(self).repository@, final(self).repository@),
    {
        self.repository.set_scalar_at(command, recorded_at)
    }

    /// Create an explicitly empty collection Record; an existing Record is
    /// never cleared.
    pub fn create_empty_collection(&mut self, command: CreateEmptyRecord) -> (r: Result<Record, RepositoryError>)
        ensures
            outcome_holds(
                create_record_spec(old(self).repository@, RecordModel::Collection {
                    definition_id: command.definition_id,
                    items: Seq::empty(),
                }),
                r, old(self).repository@, final(self).repository@),
    {
        self.repository.create_empty_collection(command)
    }

    /// Create an explicitly empty event Record; an existing Record is never
    /// cleared.
    pub fn create_empty_event(&mut self, command: CreateEmptyRecord) -> (r: Result<Record, RepositoryError>)
        ensures
            outcome_holds(
                create_record_spec(old(self).repository@, RecordModel::Event {
                    definition_id: command.definition_id,
                    events: Seq::empty(),
                }),
                r, old(self).repository@, final(self).repository@),
    {
        self.repository.create_empty_event(command)
    }

    /// Remove a collection item by identifier.
    pub fn remove_collection_item(&mut self, command: RemoveCollectionItem) -> (r: Result<Record, RepositoryError>)
        ensures
            outcome_holds(remove_item_spec(old(self).repository@, command.definition_id@, command.item_id@),
                r, old(self).repository@, final(self).repository@),
    {
        self.repository.remove_collection_item(command)
    }

    /// Delete an event by identifier.
    pub fn delete_event(&mut self, command: DeleteEvent) -> (r: Result<Record, RepositoryError>)
        ensures
            outcome_holds(delete_event_spec(old(self).repository@, command.definition_id@, command.event_id@),
                r, old(self).repository@, final(self).repository@),
    {
        self.repository.delete_event(command)
    }

    pub fn add_collection_item_at(&mut self, command: AddCollectionItem, recorded_at: String) -> (r: Result<Record, RepositoryError>)
        ensures
            add_item_holds(old(self).repository@, command, recorded_at, r, final(self).repository@),
    {
        self.repository.add_collection_item_at(command, recorded_at)
    }

    pub fn correct_collection_item_at(&mut self, command: CorrectCollectionItem, recorded_at: String) -> (r: Result<Record, RepositoryError>)
        ensures
            outcome_holds(correct_item_spec(old(self).repository@, command, recorded_at), r, old(self).repository@, final(self).repository@),
    {
        self.repository.correct_collection_item_at(command, recorded_at)
    }

    pub fn append_event_at(&mut self, command: AppendEvent, recorded_at: String) -> (r: Result<Record, RepositoryError>)
        ensures
            append_event_holds(old(self).repository@, command, recorded_at, r, final(self).repository@),
    {
        self.repository.append_event_at(command, recorded_at)
    }

    pub fn correct_event_at(&mut self, command: CorrectEvent, recorded_at: String) -> (r: Result<Record, RepositoryError>)
        ensures
            correct_event_holds(old(self).repository@, command, recorded_at, r, final(self).repository@),
    {
        self.repository.correct_event_at(command, recorded_at)
    }

    /// Increment a numeric scalar Record.  Integers are added exactly here;
    /// the sum of two numbers that are not both integers is floating-point
    /// arithmetic, which `add_numbers` performs.
    pub fn increment_scalar_at<F: Fn(&JsonValue, &JsonValue) -> Option<JsonValue>>(
        &mut self,
        command: IncrementScalarRecord,
        recorded_at: String,
        add_numbers: F,
    ) -> (r: Result<Record, RepositoryError>)
        requires
            forall|a: &JsonValue, b: &JsonValue| add_numbers.requires((a, b)),
        ensures
            exists|ns: Option<JsonValue>|
                (match number_operands(old(self).repository@, command) {
                    Some((a, b)) => add_numbers.ensures((&a, &b), ns),
                    None => true,
                }) && outcome_holds(increment_spec(old(self).repository@, command, recorded_at, ns), r, old(self).repository@, final(self).repository@),
    {
        self.repository.increment_scalar_at(command, recorded_at, add_numbers)
    }

    /// Set a scalar Record now.
    pub fn set_scalar(&mut self, command: SetScalarRecord) -> (r: Result<Record, RepositoryError>)
        ensures
            exists|at: String| is_clock_time(at@) && outcome_holds(
                store_spec(old(self).repository@, RecordModel::Scalar(ScalarRecord {
                    definition_id: command.definition_id,
                    value: command.value,
                    effective_at: command.effective_at,
                    recorded_at: at,
                })),
                r, old(self).repository@, final(self).repository@),
    {
        self.repository.set_scalar(command)
    }

    /// Correct a scalar Record: a correction is a new value recorded now.
    pub fn correct_scalar(&mut self, command: SetScalarRecord) -> (r: Result<Record, RepositoryError>)
        ensures
            exists|at: String| is_clock_time(at@) && outcome_holds(
                store_spec(old(self).repository@, RecordModel::Scalar(ScalarRecord {
                    definition_id: command.definition_id,
                    value: command.value,
                    effective_at: command.effective_at,
                    recorded_at: at,
                })),
                r, old(self).repository@, final(self).repository@),
    {
        self.repository.correct_scalar(command)
    }

    /// Increment a numeric scalar Record now.
    pub fn increment_scalar<F: Fn(&JsonValue, &JsonValue) -> Option<JsonValue>>(
        &mut self,
        command: IncrementScalarRecord,
        add_numbers: F,
    ) -> (r: Result<Record, RepositoryError>)
        requires
            forall|a: &JsonValue, b: &JsonValue| add_numbers.requires((a, b)),
        ensures
            exists|at: String, ns: Option<JsonValue>|
                is_clock_time(at@) && (match number_operands(old(self).repository@, command) {
                    Some((a, b)) => add_numbers.ensures((&a, &b), ns),
                    None => true,
                }) && outcome_holds(increment_spec(old(self).repository@, command, at, ns), r, old(self).repository@, final(self).repository@),
    {
        self.repository.increment_scalar(command, add_numbers)
    }

    /// Add a collection item now.
    pub fn add_collection_item(&mut self, command: AddCollectionItem) -> (r: Result<Record, RepositoryError>)
        ensures
            exists|at: String| is_clock_time(at@) && add_item_holds(old(self).repository@, command, at, r, final(self).repository@),
    {
        let ghost before = self.repository@;
        let r = self.repository.add_collection_item(command);
        proof {
            let at = choose|at: String| add_item_holds(before, command, at, r, self.repository@);
            assert(add_item_holds(before, command, at, r, self.repository@));
        }
        r
    }

    /// Correct a collection item now.
    pub fn correct_collection_item(&mut self, command: CorrectCollectionItem) -> (r: Result<Record, RepositoryError>)
        ensures
            exists|at: String| is_clock_time(at@) && outcome_holds(correct_item_spec(old(self).repository@, command, at), r, old(self).repository@, final(self).repository@),
    {
        self.repository.correct_collection_item(command)
    }

    /// Append an event now.
    pub fn append_event(&mut self, command: AppendEvent) -> (r: Result<Record, RepositoryError>)
        ensures
            exists|at: String| is_clock_time(at@) && append_event_holds(old(self).repository@, command, at, r, final(self).repository@),
    {
        let ghost before = self.repository@;
        let r = self.repository.append_event(command);
        proof {
            let at = choose|at: String| append_event_holds(before, command, at, r, self.repository@);
            assert(append_event_holds(before, command, at, r, self.repository@));
        }
        r
    }

    /// Correct an event now.
    pub fn correct_event(&mut self, command: CorrectEvent) -> (r: Result<Record, RepositoryError>)
        ensures
            exists|at: String| is_clock_time(at@) && correct_event_holds(old(self).repository@, command, at, r, final(self).repository@),
    {
        let ghost before = self.repository@;
        let r = self.repository.correct_event(command);
        proof {
            let at = choose|at: String| correct_event_holds(before, command, at, r, self.repository@);
            assert(correct_event_holds(before, command, at, r, self.repository@));
        }
        r
    }
}

// ---------------------------------------------------------------------------
// Items and events that keep their order
// ---------------------------------------------------------------------------

/// Whether some item has the identifier.
pub open spec fn has_item(items: Seq<ItemModel>, id: Seq<char>) -> bool {
    exists|k: int| 0 <= k < items.len() && (#[trigger] items[k]).id@ == id
}

pub open spec fn has_event(events: Seq<EventModel>, id: Seq<char>) -> bool {
    exists|k: int| 0 <= k < events.len() && (#[trigger] events[k]).id@ == id
}

/// Storing a collection whose items are `all` in identifier order.
pub open spec fn stored_sorted_items(m: RepositoryModel, stored: String, all: Seq<ItemModel>, r: Result<Record, RepositoryError>, new_m: RepositoryModel) -> bool {
    exists|sorted: Seq<ItemModel>|
        items_sorted(sorted) && sorted.to_multiset() == all.to_multiset()
            && outcome_holds(store_spec(m, RecordModel::Collection { definition_id: stored, items: sorted }), r, m, new_m)
}

/// Storing an event Record whose events are `all` in time order.
pub open spec fn stored_sorted_events(m: RepositoryModel, stored: String, all: Seq<EventModel>, r: Result<Record, RepositoryError>, new_m: RepositoryModel) -> bool {
    exists|sorted: Seq<EventModel>|
        events_sorted(sorted) && sorted.to_multiset() == all.to_multiset()
            && outcome_holds(store_spec(m, RecordModel::Event { definition_id: stored, events: sorted }), r, m, new_m)
}

pub open spec fn failed_with(c: RepositoryErrorCode, r: Result<Record, RepositoryError>, old_m: RepositoryModel, new_m: RepositoryModel) -> bool {
    r matches Err(e) && e.code == c && new_m == old_m
}

/// The item joins the collection (created when
/// absent) unless its identifier is taken; items stay in identifier order.
pub open spec fn add_item_holds(m: RepositoryModel, command: AddCollectionItem, recorded_at: String, r: Result<Record, RepositoryError>, new_m: RepositoryModel) -> bool {
    let item = ItemModel { id: command.item_id, fields: command.fields@, recorded_at };
    match m.record(command.definition_id@) {
        Some(RecordModel::Collection { definition_id: stored, items }) => if has_item(items, command.item_id@) {
            failed_with(RepositoryErrorCode::Conflict, r, m, new_m)
        } else {
            stored_sorted_items(m, stored, items.push(item), r, new_m)
        },
        Some(_) => failed_with(RepositoryErrorCode::Conflict, r, m, new_m),
        None => stored_sorted_items(m, command.definition_id, seq![item], r, new_m),
    }
}

/// The event joins the Record (created when absent) unless
/// its identifier is taken; events stay in time order.
pub open spec fn append_event_holds(m: RepositoryModel, command: AppendEvent, recorded_at: String, r: Result<Record, RepositoryError>, new_m: RepositoryModel) -> bool {
    let event = EventModel { id: command.event_id, occurred_at: command.occurred_at, fields: command.fields@, recorded_at };
    match m.record(command.definition_id@) {
        Some(RecordModel::Event { definition_id: stored, events }) => if has_event(events, command.event_id@) {
            failed_with(RepositoryErrorCode::Conflict, r, m, new_m)
        } else {
            stored_sorted_events(m, stored, events.push(event), r, new_m)
        },
        Some(_) => failed_with(RepositoryErrorCode::Conflict, r, m, new_m),
        None => stored_sorted_events(m, command.definition_id, seq![event], r, new_m),
    }
}

pub open spec fn item_is(id: Seq<char>) -> spec_fn(ItemModel) -> bool {
    |i: ItemModel| i.id@ == id
}

pub open spec fn event_is(id: Seq<char>) -> spec_fn(EventModel) -> bool {
    |e: EventModel| e.id@ == id
}

/// Replace the fields of the first item with the
/// identifier and stamp it.
pub open spec fn correct_item_spec(m: RepositoryModel, command: CorrectCollectionItem, recorded_at: String) -> Result<(RecordModel, RepositoryModel), RepositoryErrorCode> {
    match m.record(command.definition_id@) {
        None => Err(RepositoryErrorCode::NotFound),
        Some(RecordModel::Collection { definition_id: stored, items }) => match crate::seqs::first_match(items, item_is(command.item_id@)) {
            None => Err(RepositoryErrorCode::NotFound),
            Some(k) => store_spec(m, RecordModel::Collection {
                definition_id: stored,
                items: items.update(k, ItemModel { id: items[k].id, fields: command.fields@, recorded_at }),
            }),
        },
        Some(_) => Err(RepositoryErrorCode::Conflict),
    }
}

/// Replace time and fields of the first event with the
/// identifier and stamp it; events stay in time order.
pub open spec fn correct_event_holds(m: RepositoryModel, command: CorrectEvent, recorded_at: String, r: Result<Record, RepositoryError>, new_m: RepositoryModel) -> bool {
    match m.record(command.definition_id@) {
        None => failed_with(RepositoryErrorCode::NotFound, r, m, new_m),
        Some(RecordModel::Event { definition_id: stored, events }) => match crate::seqs::first_match(events, event_is(command.event_id@)) {
            None => failed_with(RepositoryErrorCode::NotFound, r, m, new_m),
            Some(k) => stored_sorted_events(m, stored,
                events.update(k, EventModel { id: events[k].id, occurred_at: command.occurred_at, fields: command.fields@, recorded_at }),
                r, new_m),
        },
        Some(_) => failed_with(RepositoryErrorCode::Conflict, r, m, new_m),
    }
}

} // verus!
