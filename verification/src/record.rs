//! Records: the flat fact layer shared by Status and Achievement evaluation.
use vstd::prelude::*;
use crate::json::JsonValue;

verus! {

/// The type of a scalar value or of a structured field.
#[derive(Debug, Clone, Copy, PartialEq, Eq, Structural)]
pub enum ValueType {
    String,
    Integer,
    Number,
    Boolean,
    Date,
}

/// The shape of a Record.
#[derive(Debug, Clone, Copy, PartialEq, Eq, Structural)]
pub enum RecordKind {
    Scalar,
    Collection,
    Event,
}

#[derive(Debug, Clone, PartialEq, Eq)]
pub struct FieldDefinition {
    pub value_type: ValueType,
    pub required: bool,
    pub unit: Option<String>,
}

#[derive(Debug, Clone, PartialEq, Eq)]
pub struct ScalarRecordDefinition {
    pub id: String,
    pub name: String,
    pub description: Option<String>,
    pub value_type: ValueType,
    pub unit: Option<String>,
}

#[derive(Debug, Clone, PartialEq, Eq)]
pub struct StructuredRecordDefinition {
    pub id: String,
    pub name: String,
    pub description: Option<String>,
    pub fields: Vec<(String, FieldDefinition)>,
}

/// The definition that a Pack supplies for one Record.
#[derive(Debug, Clone, PartialEq, Eq)]
pub enum RecordDefinition {
    Scalar(ScalarRecordDefinition),
    Collection(StructuredRecordDefinition),
    Event(StructuredRecordDefinition),
}

#[derive(Debug, Clone, PartialEq, Eq)]
pub struct ScalarRecord {
    pub definition_id: String,
    pub value: JsonValue,
    pub effective_at: Option<String>,
    pub recorded_at: String,
}

#[derive(Debug, Clone, PartialEq, Eq)]
pub struct CollectionItem {
    pub id: String,
    pub fields: Vec<(String, JsonValue)>,
    pub recorded_at: String,
}

#[derive(Debug, Clone, PartialEq, Eq)]
pub struct CollectionRecord {
    pub definition_id: String,
    pub items: Vec<CollectionItem>,
}

#[derive(Debug, Clone, PartialEq, Eq)]
pub struct EventEntry {
    pub id: String,
    pub occurred_at: String,
    pub fields: Vec<(String, JsonValue)>,
    pub recorded_at: String,
}

#[derive(Debug, Clone, PartialEq, Eq)]
pub struct EventRecord {
    pub definition_id: String,
    pub events: Vec<EventEntry>,
}

/// The current value of one RecordDefinition.
#[derive(Debug, Clone, PartialEq, Eq)]
pub enum Record {
    Scalar(ScalarRecord),
    Collection(CollectionRecord),
    Event(EventRecord),
}

// ---------------------------------------------------------------------------
// Mathematical models
// ---------------------------------------------------------------------------

pub struct ItemModel {
    pub id: String,
    pub fields: Seq<(String, JsonValue)>,
    pub recorded_at: String,
}

pub struct EventModel {
    pub id: String,
    pub occurred_at: String,
    pub fields: Seq<(String, JsonValue)>,
    pub recorded_at: String,
}

pub enum RecordModel {
    Scalar(ScalarRecord),
    Collection { definition_id: String, items: Seq<ItemModel> },
    Event { definition_id: String, events: Seq<EventModel> },
}

impl View for CollectionItem {
    type V = ItemModel;

    open spec fn view(&self) -> ItemModel {
        ItemModel { id: self.id, fields: self.fields@, recorded_at: self.recorded_at }
    }
}

impl View for EventEntry {
    type V = EventModel;

    open spec fn view(&self) -> EventModel {
        EventModel {
            id: self.id,
            occurred_at: self.occurred_at,
            fields: self.fields@,
            recorded_at: self.recorded_at,
        }
    }
}

pub open spec fn items_model(items: Seq<CollectionItem>) -> Seq<ItemModel> {
    items.map_values(|i: CollectionItem| i@)
}

pub open spec fn events_model(events: Seq<EventEntry>) -> Seq<EventModel> {
    events.map_values(|e: EventEntry| e@)
}

impl View for Record {
    type V = RecordModel;

    open spec fn view(&self) -> RecordModel {
        match self {
            Record::Scalar(s) => RecordModel::Scalar(*s),
            Record::Collection(c) => RecordModel::Collection {
                definition_id: c.definition_id,
                items: items_model(c.items@),
            },
            Record::Event(e) => RecordModel::Event {
                definition_id: e.definition_id,
                events: events_model(e.events@),
            },
        }
    }
}

impl RecordModel {
    pub open spec fn definition_id(self) -> String {
        match self {
            RecordModel::Scalar(s) => s.definition_id,
            RecordModel::Collection { definition_id, .. } => definition_id,
            RecordModel::Event { definition_id, .. } => definition_id,
        }
    }
}

impl Record {
    pub open spec fn spec_definition_id(&self) -> String {
        match self {
            Record::Scalar(s) => s.definition_id,
            Record::Collection(c) => c.definition_id,
            Record::Event(e) => e.definition_id,
        }
    }

    /// The RecordDefinition identifier this Record belongs to.
    pub fn definition_id(&self) -> (r: &String)
        ensures
            *r == self.spec_definition_id(),
    {
        match self {
            Record::Scalar(s) => &s.definition_id,
            Record::Collection(c) => &c.definition_id,
            Record::Event(e) => &e.definition_id,
        }
    }

    /// The shape of this Record.
    pub fn kind(&self) -> (r: RecordKind)
        ensures
            r == (match self {
                Record::Scalar(_) => RecordKind::Scalar,
                Record::Collection(_) => RecordKind::Collection,
                Record::Event(_) => RecordKind::Event,
            }),
    {
        match self {
            Record::Scalar(_) => RecordKind::Scalar,
            Record::Collection(_) => RecordKind::Collection,
            Record::Event(_) => RecordKind::Event,
        }
    }
}

// ---------------------------------------------------------------------------
// Copies
// ---------------------------------------------------------------------------

pub fn copy_opt_string(s: &Option<String>) -> (r: Option<String>)
    ensures
        r == *s,
{
    match s {
        Some(t) => Some(t.clone()),
        None => None,
    }
}

impl FieldDefinition {
    pub fn copied(&self) -> (r: Self)
        ensures
            r == *self,
    {
        FieldDefinition { value_type: self.value_type, required: self.required, unit: copy_opt_string(&self.unit) }
    }
}

/// A copy of named values.
pub fn copy_values(v: &Vec<(String, JsonValue)>) -> (r: Vec<(String, JsonValue)>)
    ensures
        r@ == v@,
{
    let mut out: Vec<(String, JsonValue)> = Vec::new();
    let mut i: usize = 0;
    while i < v.len()
        invariant
            i <= v@.len(),
            out@ == v@.take(i as int),
        decreases v.len() - i,
    {
        out.push((v[i].0.clone(), v[i].1.copied()));
        proof { assert(out@ =~= v@.take(i + 1)); }
        i = i + 1;
    }
    proof { assert(v@.take(v@.len() as int) =~= v@); }
    out
}

/// A copy of named field definitions.
pub fn copy_field_definitions(v: &Vec<(String, FieldDefinition)>) -> (r: Vec<(String, FieldDefinition)>)
    ensures
        r@ == v@,
{
    let mut out: Vec<(String, FieldDefinition)> = Vec::new();
    let mut i: usize = 0;
    while i < v.len()
        invariant
            i <= v@.len(),
            out@ == v@.take(i as int),
        decreases v.len() - i,
    {
        out.push((v[i].0.clone(), v[i].1.copied()));
        proof { assert(out@ =~= v@.take(i + 1)); }
        i = i + 1;
    }
    proof { assert(v@.take(v@.len() as int) =~= v@); }
    out
}

impl ScalarRecord {
    pub fn copied(&self) -> (r: Self)
        ensures
            r == *self,
    {
        ScalarRecord {
            definition_id: self.definition_id.clone(),
            value: self.value.copied(),
            effective_at: copy_opt_string(&self.effective_at),
            recorded_at: self.recorded_at.clone(),
        }
    }
}

impl CollectionItem {
    pub fn copied(&self) -> (r: Self)
        ensures
            r@ == self@,
    {
        CollectionItem {
            id: self.id.clone(),
            fields: copy_values(&self.fields),
            recorded_at: self.recorded_at.clone(),
        }
    }
}

impl EventEntry {
    pub fn copied(&self) -> (r: Self)
        ensures
            r@ == self@,
    {
        EventEntry {
            id: self.id.clone(),
            occurred_at: self.occurred_at.clone(),
            fields: copy_values(&self.fields),
            recorded_at: self.recorded_at.clone(),
        }
    }
}

pub fn copy_items(items: &Vec<CollectionItem>) -> (r: Vec<CollectionItem>)
    ensures
        items_model(r@) == items_model(items@),
{
    let mut out: Vec<CollectionItem> = Vec::new();
    let mut i: usize = 0;
    while i < items.len()
        invariant
            i <= items.len(),
            out@.len() == i,
            forall|k: int| 0 <= k < i ==> out@[k]@ == items@[k]@,
        decreases items.len() - i,
    {
        out.push(items[i].copied());
        i = i + 1;
    }
    assert(items_model(out@) =~= items_model(items@));
    out
}

pub fn copy_events(events: &Vec<EventEntry>) -> (r: Vec<EventEntry>)
    ensures
        events_model(r@) == events_model(events@),
{
    let mut out: Vec<EventEntry> = Vec::new();
    let mut i: usize = 0;
    while i < events.len()
        invariant
            i <= events.len(),
            out@.len() == i,
            forall|k: int| 0 <= k < i ==> out@[k]@ == events@[k]@,
        decreases events.len() - i,
    {
        out.push(events[i].copied());
        i = i + 1;
    }
    assert(events_model(out@) =~= events_model(events@));
    out
}

impl Record {
    pub fn copied(&self) -> (r: Self)
        ensures
            r@ == self@,
    {
        match self {
            Record::Scalar(s) => Record::Scalar(s.copied()),
            Record::Collection(c) => Record::Collection(CollectionRecord {
                definition_id: c.definition_id.clone(),
                items: copy_items(&c.items),
            }),
            Record::Event(e) => Record::Event(EventRecord {
                definition_id: e.definition_id.clone(),
                events: copy_events(&e.events),
            }),
        }
    }
}

pub struct StructuredDefinitionModel {
    pub id: String,
    pub name: String,
    pub description: Option<String>,
    pub fields: Seq<(String, FieldDefinition)>,
}

pub enum RecordDefinitionModel {
    Scalar(ScalarRecordDefinition),
    Collection(StructuredDefinitionModel),
    Event(StructuredDefinitionModel),
}

impl View for StructuredRecordDefinition {
    type V = StructuredDefinitionModel;

    open spec fn view(&self) -> StructuredDefinitionModel {
        StructuredDefinitionModel {
            id: self.id,
            name: self.name,
            description: self.description,
            fields: self.fields@,
        }
    }
}

impl View for RecordDefinition {
    type V = RecordDefinitionModel;

    open spec fn view(&self) -> RecordDefinitionModel {
        match self {
            RecordDefinition::Scalar(d) => RecordDefinitionModel::Scalar(*d),
            RecordDefinition::Collection(d) => RecordDefinitionModel::Collection(d@),
            RecordDefinition::Event(d) => RecordDefinitionModel::Event(d@),
        }
    }
}

pub open spec fn definitions_model(v: Seq<RecordDefinition>) -> Seq<RecordDefinitionModel> {
    v.map_values(|d: RecordDefinition| d@)
}

impl RecordDefinition {
    pub open spec fn spec_id(&self) -> String {
        match self {
            RecordDefinition::Scalar(d) => d.id,
            RecordDefinition::Collection(d) => d.id,
            RecordDefinition::Event(d) => d.id,
        }
    }

    /// The identifier of the defined Record.
    pub fn id(&self) -> (r: &String)
        ensures
            *r == self.spec_id(),
    {
        match self {
            RecordDefinition::Scalar(d) => &d.id,
            RecordDefinition::Collection(d) => &d.id,
            RecordDefinition::Event(d) => &d.id,
        }
    }

    pub fn copied(&self) -> (r: Self)
        ensures
            r@ == self@,
    {
        match self {
            RecordDefinition::Scalar(d) => RecordDefinition::Scalar(ScalarRecordDefinition {
                id: d.id.clone(),
                name: d.name.clone(),
                description: copy_opt_string(&d.description),
                value_type: d.value_type,
                unit: copy_opt_string(&d.unit),
            }),
            RecordDefinition::Collection(d) => RecordDefinition::Collection(StructuredRecordDefinition {
                id: d.id.clone(),
                name: d.name.clone(),
                description: copy_opt_string(&d.description),
                fields: copy_field_definitions(&d.fields),
            }),
            RecordDefinition::Event(d) => RecordDefinition::Event(StructuredRecordDefinition {
                id: d.id.clone(),
                name: d.name.clone(),
                description: copy_opt_string(&d.description),
                fields: copy_field_definitions(&d.fields),
            }),
        }
    }
}

pub fn copy_definitions(v: &Vec<RecordDefinition>) -> (r: Vec<RecordDefinition>)
    ensures
        definitions_model(r@) == definitions_model(v@),
{
    let mut out: Vec<RecordDefinition> = Vec::new();
    let mut i: usize = 0;
    while i < v.len()
        invariant
            i <= v.len(),
            out@.len() == i,
            forall|k: int| 0 <= k < i ==> out@[k]@ == v@[k]@,
        decreases v.len() - i,
    {
        out.push(v[i].copied());
        i = i + 1;
    }
    assert(definitions_model(out@) =~= definitions_model(v@));
    out
}

} // verus!
