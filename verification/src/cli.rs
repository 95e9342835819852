//! The command-line grammar of the data operations tool.
//!
//! A command line is the program name followed by tokens.  `--compact` may
//! stand anywhere; `--help` or `-h` asks for help; `--<name> <value>` sets a
//! named option at most once; every other token that does not start with `-`
//! is a positional word.  The positional words choose the command and its
//! action, and each action accepts its own set of options.  `--dry-run` and
//! `--clear` are flags that take no value.
use vstd::prelude::*;
use vstd::string::*;
use crate::text::str_eq;
use crate::command_groups::{
    AchievementAction, BatchAction, ContextAction, DerivedAction, MemoryAction, MissionAction, SkillAction, StatusAction,
};
use crate::group_grammar::{
    achievement_action, achievement_action_exec, batch_action, batch_action_exec, context_action, context_action_exec,
    derived_action, derived_action_exec, memory_action, memory_action_exec, mission_action, mission_action_exec,
    skill_action, skill_action_exec, status_action, status_action_exec,
};

verus! {

// ---------------------------------------------------------------------------
// Parsed commands
// ---------------------------------------------------------------------------

/// The Record kind filter of `record query`.
#[derive(Debug, Clone, Copy, PartialEq, Eq, Structural)]
pub enum RecordKindArg {
    Scalar,
    Collection,
    Event,
}

#[derive(Debug)]
pub enum RecordAction<S> {
    Get { definition_id: S },
    Query {
        definition_id: Option<S>,
        namespace: Option<S>,
        pack: Option<S>,
        kind: Option<RecordKindArg>,
        has_value: Option<bool>,
    },
    SetScalar { file: Option<S> },
    Increment { file: Option<S> },
    Correct { file: Option<S> },
    CreateEmptyCollection { definition_id: S },
    CreateEmptyEvent { definition_id: S },
    AddItem { file: Option<S> },
    CorrectItem { file: Option<S> },
    RemoveItem { file: Option<S> },
    AppendEvent { file: Option<S> },
    CorrectEvent { file: Option<S> },
    DeleteEvent { file: Option<S> },
    Delete { definition_id: S },
}

#[derive(Debug)]
pub enum PackAction<S> {
    List,
    Show { pack_id: S },
    Scaffold { pack_id: S, name: S },
    Validate { file: Option<S> },
    Write { file: Option<S> },
    AssetPut { pack_id: S, asset_path: S, file: S },
    AssetDelete { pack_id: S, asset_path: S },
    Enable { pack_id: S },
    Disable { pack_id: S },
}

#[derive(Debug)]
pub enum JsonAction<S> {
    Export { output: S, runtime: Option<S> },
    Import { input: S, runtime: Option<S> },
}

#[derive(Debug)]
pub enum Commands<S> {
    Capabilities,
    Init { runtime: Option<S> },
    Record { runtime: Option<S>, action: RecordAction<S> },
    Pack { runtime: Option<S>, action: PackAction<S> },
    Json { action: JsonAction<S> },
    Mission { runtime: Option<S>, action: MissionAction<S>, dry_run: bool },
    Memory { runtime: Option<S>, action: MemoryAction<S>, dry_run: bool },
    Achievement { runtime: Option<S>, action: AchievementAction<S> },
    Skill { runtime: Option<S>, action: SkillAction<S> },
    Status { runtime: Option<S>, action: StatusAction<S>, dry_run: bool },
    Context { runtime: Option<S>, action: ContextAction },
    Derived { runtime: Option<S>, action: DerivedAction<S> },
    Batch { runtime: Option<S>, action: BatchAction<S>, dry_run: bool },
}

/// A parsed command line.
#[derive(Debug)]
pub struct Cli {
    pub compact: bool,
    pub command: Commands<String>,
}

/// Why a command line was not turned into a command.
#[derive(Debug, Clone, Copy, PartialEq, Eq, Structural)]
pub enum CliParseError {
    /// Help was asked for.
    DisplayHelp,
    /// The tokens do not form a command.
    InvalidInvocation,
}

/// The values of the named options, each set at most once, and the two
/// flags `--dry-run` and `--clear`.
#[derive(Debug)]
pub struct OptionValues<S> {
    pub runtime: Option<S>,
    pub file: Option<S>,
    pub name: Option<S>,
    pub definition_id: Option<S>,
    pub namespace: Option<S>,
    pub pack: Option<S>,
    pub kind: Option<S>,
    pub has_value: Option<S>,
    pub output: Option<S>,
    pub input: Option<S>,
    pub mission_id: Option<S>,
    pub status: Option<S>,
    pub parent_id: Option<S>,
    pub suggestion_id: Option<S>,
    pub memory_id: Option<S>,
    pub achievement_id: Option<S>,
    pub related_record_definition_id: Option<S>,
    pub skill_id: Option<S>,
    pub as_of: Option<S>,
    pub dry_run: bool,
    pub clear: bool,
}

/// The tokens of a command line sorted into flags, options and words.
pub struct Scan<S> {
    pub compact: bool,
    pub help: bool,
    pub positionals: Seq<S>,
    pub options: OptionValues<S>,
}

// ---------------------------------------------------------------------------
// Views
// ---------------------------------------------------------------------------

pub open spec fn opt_view(o: Option<String>) -> Option<Seq<char>> {
    match o {
        Some(s) => Some(s@),
        None => None,
    }
}

impl View for RecordAction<String> {
    type V = RecordAction<Seq<char>>;

    open spec fn view(&self) -> RecordAction<Seq<char>> {
        match self {
            RecordAction::Get { definition_id } => RecordAction::Get { definition_id: definition_id@ },
            RecordAction::Query { definition_id, namespace, pack, kind, has_value } => RecordAction::Query {
                definition_id: opt_view(*definition_id),
                namespace: opt_view(*namespace),
                pack: opt_view(*pack),
                kind: *kind,
                has_value: *has_value,
            },
            RecordAction::SetScalar { file } => RecordAction::SetScalar { file: opt_view(*file) },
            RecordAction::Increment { file } => RecordAction::Increment { file: opt_view(*file) },
            RecordAction::Correct { file } => RecordAction::Correct { file: opt_view(*file) },
            RecordAction::CreateEmptyCollection { definition_id } => RecordAction::CreateEmptyCollection { definition_id: definition_id@ },
            RecordAction::CreateEmptyEvent { definition_id } => RecordAction::CreateEmptyEvent { definition_id: definition_id@ },
            RecordAction::AddItem { file } => RecordAction::AddItem { file: opt_view(*file) },
            RecordAction::CorrectItem { file } => RecordAction::CorrectItem { file: opt_view(*file) },
            RecordAction::RemoveItem { file } => RecordAction::RemoveItem { file: opt_view(*file) },
            RecordAction::AppendEvent { file } => RecordAction::AppendEvent { file: opt_view(*file) },
            RecordAction::CorrectEvent { file } => RecordAction::CorrectEvent { file: opt_view(*file) },
            RecordAction::DeleteEvent { file } => RecordAction::DeleteEvent { file: opt_view(*file) },
            RecordAction::Delete { definition_id } => RecordAction::Delete { definition_id: definition_id@ },
        }
    }
}

impl View for PackAction<String> {
    type V = PackAction<Seq<char>>;

    open spec fn view(&self) -> PackAction<Seq<char>> {
        match self {
            PackAction::List => PackAction::List,
            PackAction::Show { pack_id } => PackAction::Show { pack_id: pack_id@ },
            PackAction::Scaffold { pack_id, name } => PackAction::Scaffold { pack_id: pack_id@, name: name@ },
            PackAction::Validate { file } => PackAction::Validate { file: opt_view(*file) },
            PackAction::Write { file } => PackAction::Write { file: opt_view(*file) },
            PackAction::AssetPut { pack_id, asset_path, file } => PackAction::AssetPut {
                pack_id: pack_id@,
                asset_path: asset_path@,
                file: file@,
            },
            PackAction::AssetDelete { pack_id, asset_path } => PackAction::AssetDelete { pack_id: pack_id@, asset_path: asset_path@ },
            PackAction::Enable { pack_id } => PackAction::Enable { pack_id: pack_id@ },
            PackAction::Disable { pack_id } => PackAction::Disable { pack_id: pack_id@ },
        }
    }
}

impl View for JsonAction<String> {
    type V = JsonAction<Seq<char>>;

    open spec fn view(&self) -> JsonAction<Seq<char>> {
        match self {
            JsonAction::Export { output, runtime } => JsonAction::Export { output: output@, runtime: opt_view(*runtime) },
            JsonAction::Import { input, runtime } => JsonAction::Import { input: input@, runtime: opt_view(*runtime) },
        }
    }
}

impl View for Commands<String> {
    type V = Commands<Seq<char>>;

    open spec fn view(&self) -> Commands<Seq<char>> {
        match self {
            Commands::Capabilities => Commands::Capabilities,
            Commands::Init { runtime } => Commands::Init { runtime: opt_view(*runtime) },
            Commands::Record { runtime, action } => Commands::Record { runtime: opt_view(*runtime), action: action@ },
            Commands::Pack { runtime, action } => Commands::Pack { runtime: opt_view(*runtime), action: action@ },
            Commands::Json { action } => Commands::Json { action: action@ },
            Commands::Mission { runtime, action, dry_run } => Commands::Mission {
                runtime: opt_view(*runtime), action: action@, dry_run: *dry_run,
            },
            Commands::Memory { runtime, action, dry_run } => Commands::Memory {
                runtime: opt_view(*runtime), action: action@, dry_run: *dry_run,
            },
            Commands::Achievement { runtime, action } => Commands::Achievement { runtime: opt_view(*runtime), action: action@ },
            Commands::Skill { runtime, action } => Commands::Skill { runtime: opt_view(*runtime), action: action@ },
            Commands::Status { runtime, action, dry_run } => Commands::Status {
                runtime: opt_view(*runtime), action: action@, dry_run: *dry_run,
            },
            Commands::Context { runtime, action } => Commands::Context { runtime: opt_view(*runtime), action: *action },
            Commands::Derived { runtime, action } => Commands::Derived { runtime: opt_view(*runtime), action: action@ },
            Commands::Batch { runtime, action, dry_run } => Commands::Batch {
                runtime: opt_view(*runtime), action: action@, dry_run: *dry_run,
            },
        }
    }
}

impl View for OptionValues<String> {
    type V = OptionValues<Seq<char>>;

    open spec fn view(&self) -> OptionValues<Seq<char>> {
        OptionValues {
            runtime: opt_view(self.runtime),
            file: opt_view(self.file),
            name: opt_view(self.name),
            definition_id: opt_view(self.definition_id),
            namespace: opt_view(self.namespace),
            pack: opt_view(self.pack),
            kind: opt_view(self.kind),
            has_value: opt_view(self.has_value),
            output: opt_view(self.output),
            input: opt_view(self.input),
            mission_id: opt_view(self.mission_id),
            status: opt_view(self.status),
            parent_id: opt_view(self.parent_id),
            suggestion_id: opt_view(self.suggestion_id),
            memory_id: opt_view(self.memory_id),
            achievement_id: opt_view(self.achievement_id),
            related_record_definition_id: opt_view(self.related_record_definition_id),
            skill_id: opt_view(self.skill_id),
            as_of: opt_view(self.as_of),
            dry_run: self.dry_run,
            clear: self.clear,
        }
    }
}

// ---------------------------------------------------------------------------
// The grammar
// ---------------------------------------------------------------------------

pub open spec fn no_options() -> OptionValues<Seq<char>> {
    OptionValues {
        runtime: None,
        file: None,
        name: None,
        definition_id: None,
        namespace: None,
        pack: None,
        kind: None,
        has_value: None,
        output: None,
        input: None,
        mission_id: None,
        status: None,
        parent_id: None,
        suggestion_id: None,
        memory_id: None,
        achievement_id: None,
        related_record_definition_id: None,
        skill_id: None,
        as_of: None,
        dry_run: false,
        clear: false,
    }
}

/// The current value of a known option, or `None` for an unknown name.
pub open spec fn option_slot(o: OptionValues<Seq<char>>, name: Seq<char>) -> Option<Option<Seq<char>>> {
    if name == "runtime"@ { Some(o.runtime) }
    else if name == "file"@ { Some(o.file) }
    else if name == "name"@ { Some(o.name) }
    else if name == "definition-id"@ { Some(o.definition_id) }
    else if name == "namespace"@ { Some(o.namespace) }
    else if name == "pack"@ { Some(o.pack) }
    else if name == "kind"@ { Some(o.kind) }
    else if name == "has-value"@ { Some(o.has_value) }
    else if name == "output"@ { Some(o.output) }
    else if name == "input"@ { Some(o.input) }
    else if name == "mission-id"@ { Some(o.mission_id) }
    else if name == "status"@ { Some(o.status) }
    else if name == "parent-id"@ { Some(o.parent_id) }
    else if name == "suggestion-id"@ { Some(o.suggestion_id) }
    else if name == "memory-id"@ { Some(o.memory_id) }
    else if name == "achievement-id"@ { Some(o.achievement_id) }
    else if name == "related-record-definition-id"@ { Some(o.related_record_definition_id) }
    else if name == "skill-id"@ { Some(o.skill_id) }
    else if name == "as-of"@ { Some(o.as_of) }
    else { None }
}

/// The options with the known option `name` set to `v`.
pub open spec fn set_option(o: OptionValues<Seq<char>>, name: Seq<char>, v: Seq<char>) -> OptionValues<Seq<char>> {
    if name == "runtime"@ { OptionValues { runtime: Some(v), ..o } }
    else if name == "file"@ { OptionValues { file: Some(v), ..o } }
    else if name == "name"@ { OptionValues { name: Some(v), ..o } }
    else if name == "definition-id"@ { OptionValues { definition_id: Some(v), ..o } }
    else if name == "namespace"@ { OptionValues { namespace: Some(v), ..o } }
    else if name == "pack"@ { OptionValues { pack: Some(v), ..o } }
    else if name == "kind"@ { OptionValues { kind: Some(v), ..o } }
    else if name == "has-value"@ { OptionValues { has_value: Some(v), ..o } }
    else if name == "output"@ { OptionValues { output: Some(v), ..o } }
    else if name == "input"@ { OptionValues { input: Some(v), ..o } }
    else if name == "mission-id"@ { OptionValues { mission_id: Some(v), ..o } }
    else if name == "status"@ { OptionValues { status: Some(v), ..o } }
    else if name == "parent-id"@ { OptionValues { parent_id: Some(v), ..o } }
    else if name == "suggestion-id"@ { OptionValues { suggestion_id: Some(v), ..o } }
    else if name == "memory-id"@ { OptionValues { memory_id: Some(v), ..o } }
    else if name == "achievement-id"@ { OptionValues { achievement_id: Some(v), ..o } }
    else if name == "related-record-definition-id"@ { OptionValues { related_record_definition_id: Some(v), ..o } }
    else if name == "skill-id"@ { OptionValues { skill_id: Some(v), ..o } }
    else { OptionValues { as_of: Some(v), ..o } }
}

/// A token of the form `--<name>`.
pub open spec fn is_long_option(t: Seq<char>) -> bool {
    t.len() >= 3 && t[0] == '-' && t[1] == '-'
}

/// Sort the tokens into flags, options and positional words.  An unknown or
/// repeated option, an option without a value, or any other token that
/// starts with `-` makes the tokens unusable.
pub open spec fn scan(ts: Seq<Seq<char>>) -> Option<Scan<Seq<char>>>
    decreases ts.len(),
{
    if ts.len() == 0 {
        Some(Scan { compact: false, help: false, positionals: Seq::empty(), options: no_options() })
    } else {
        let t = ts[0];
        if t == "--compact"@ {
            match scan(ts.drop_first()) {
                Some(s) => Some(Scan { compact: true, ..s }),
                None => None,
            }
        } else if t == "--help"@ || t == "-h"@ {
            match scan(ts.drop_first()) {
                Some(s) => Some(Scan { help: true, ..s }),
                None => None,
            }
        } else if t == "--dry-run"@ {
            match scan(ts.drop_first()) {
                Some(s) => Some(Scan { options: OptionValues { dry_run: true, ..s.options }, ..s }),
                None => None,
            }
        } else if t == "--clear"@ {
            match scan(ts.drop_first()) {
                Some(s) => Some(Scan { options: OptionValues { clear: true, ..s.options }, ..s }),
                None => None,
            }
        } else if is_long_option(t) {
            if ts.len() < 2 {
                None
            } else {
                match scan(ts.skip(2)) {
                    Some(s) => match option_slot(s.options, t.skip(2)) {
                        Some(None) => Some(Scan { options: set_option(s.options, t.skip(2), ts[1]), ..s }),
                        _ => None,
                    },
                    None => None,
                }
            }
        } else if t.len() > 0 && t[0] == '-' {
            None
        } else {
            match scan(ts.drop_first()) {
                Some(s) => Some(Scan { positionals: seq![t] + s.positionals, ..s }),
                None => None,
            }
        }
    }
}

/// None of the options and flags that only the command groups take is set.
pub open spec fn group_options_unset(o: OptionValues<Seq<char>>) -> bool {
    &&& o.mission_id is None && o.status is None && o.parent_id is None && o.suggestion_id is None
    &&& o.memory_id is None && o.achievement_id is None && o.related_record_definition_id is None
    &&& o.skill_id is None && o.as_of is None && !o.dry_run && !o.clear
}

/// Only the options marked allowed are set, and none of the command groups'.
pub open spec fn only_options(o: OptionValues<Seq<char>>, runtime: bool, file: bool, name: bool, query: bool, json: bool) -> bool {
    &&& group_options_unset(o)
    &&& (!runtime ==> o.runtime is None)
    &&& (!file ==> o.file is None)
    &&& (!name ==> o.name is None)
    &&& (!query ==> o.definition_id is None && o.namespace is None && o.pack is None && o.kind is None && o.has_value is None)
    &&& (!json ==> o.output is None && o.input is None)
}

pub open spec fn kind_arg(v: Seq<char>) -> Option<RecordKindArg> {
    if v == "scalar"@ { Some(RecordKindArg::Scalar) }
    else if v == "collection"@ { Some(RecordKindArg::Collection) }
    else if v == "event"@ { Some(RecordKindArg::Event) }
    else { None }
}

pub open spec fn bool_arg(v: Seq<char>) -> Option<bool> {
    if v == "true"@ { Some(true) }
    else if v == "false"@ { Some(false) }
    else { None }
}

/// A `record` action that reads its input from `--file` or standard input.
pub open spec fn record_file_action(a: Seq<char>, file: Option<Seq<char>>) -> Option<RecordAction<Seq<char>>> {
    if a == "set"@ { Some(RecordAction::SetScalar { file }) }
    else if a == "increment"@ { Some(RecordAction::Increment { file }) }
    else if a == "correct"@ { Some(RecordAction::Correct { file }) }
    else if a == "add-item"@ { Some(RecordAction::AddItem { file }) }
    else if a == "correct-item"@ { Some(RecordAction::CorrectItem { file }) }
    else if a == "remove-item"@ { Some(RecordAction::RemoveItem { file }) }
    else if a == "append-event"@ { Some(RecordAction::AppendEvent { file }) }
    else if a == "correct-event"@ { Some(RecordAction::CorrectEvent { file }) }
    else if a == "delete-event"@ { Some(RecordAction::DeleteEvent { file }) }
    else { None }
}

/// A `record` action that names one definition.
pub open spec fn record_id_action(a: Seq<char>, id: Seq<char>) -> Option<RecordAction<Seq<char>>> {
    if a == "get"@ { Some(RecordAction::Get { definition_id: id }) }
    else if a == "create-empty-collection"@ { Some(RecordAction::CreateEmptyCollection { definition_id: id }) }
    else if a == "create-empty-event"@ { Some(RecordAction::CreateEmptyEvent { definition_id: id }) }
    else if a == "delete"@ { Some(RecordAction::Delete { definition_id: id }) }
    else { None }
}

/// The `record` action of the words after `record`.
pub open spec fn record_action(p: Seq<Seq<char>>, o: OptionValues<Seq<char>>) -> Option<RecordAction<Seq<char>>> {
    if p.len() == 1 && p[0] == "query"@ && only_options(o, true, false, false, true, false) {
        let kind_ok = match o.kind { Some(k) => kind_arg(k) is Some, None => true };
        let value_ok = match o.has_value { Some(b) => bool_arg(b) is Some, None => true };
        if kind_ok && value_ok {
            Some(RecordAction::Query {
                definition_id: o.definition_id,
                namespace: o.namespace,
                pack: o.pack,
                kind: match o.kind { Some(k) => kind_arg(k), None => None },
                has_value: match o.has_value { Some(b) => bool_arg(b), None => None },
            })
        } else {
            None
        }
    } else if p.len() == 1 && only_options(o, true, true, false, false, false) {
        record_file_action(p[0], o.file)
    } else if p.len() == 2 && only_options(o, true, false, false, false, false) {
        record_id_action(p[0], p[1])
    } else {
        None
    }
}

/// The `pack` action of the words after `pack`.
pub open spec fn pack_action(p: Seq<Seq<char>>, o: OptionValues<Seq<char>>) -> Option<PackAction<Seq<char>>> {
    if p.len() == 0 {
        None
    } else {
        let a = p[0];
        if a == "list"@ && p.len() == 1 && only_options(o, true, false, false, false, false) {
            Some(PackAction::List)
        } else if a == "show"@ && p.len() == 2 && only_options(o, true, false, false, false, false) {
            Some(PackAction::Show { pack_id: p[1] })
        } else if a == "scaffold"@ && p.len() == 2 && only_options(o, true, false, true, false, false) && o.name is Some {
            Some(PackAction::Scaffold { pack_id: p[1], name: o.name->0 })
        } else if a == "validate"@ && p.len() == 1 && only_options(o, true, true, false, false, false) {
            Some(PackAction::Validate { file: o.file })
        } else if a == "write"@ && p.len() == 1 && only_options(o, true, true, false, false, false) {
            Some(PackAction::Write { file: o.file })
        } else if a == "asset-put"@ && p.len() == 3 && only_options(o, true, true, false, false, false) && o.file is Some {
            Some(PackAction::AssetPut { pack_id: p[1], asset_path: p[2], file: o.file->0 })
        } else if a == "asset-delete"@ && p.len() == 3 && only_options(o, true, false, false, false, false) {
            Some(PackAction::AssetDelete { pack_id: p[1], asset_path: p[2] })
        } else if a == "enable"@ && p.len() == 2 && only_options(o, true, false, false, false, false) {
            Some(PackAction::Enable { pack_id: p[1] })
        } else if a == "disable"@ && p.len() == 2 && only_options(o, true, false, false, false, false) {
            Some(PackAction::Disable { pack_id: p[1] })
        } else {
            None
        }
    }
}

/// The `json` action of the words after `json`.
pub open spec fn json_action(p: Seq<Seq<char>>, o: OptionValues<Seq<char>>) -> Option<JsonAction<Seq<char>>> {
    if p.len() == 1 && p[0] == "export"@ && only_options(o, true, false, false, false, true)
        && o.output is Some && o.input is None {
        Some(JsonAction::Export { output: o.output->0, runtime: o.runtime })
    } else if p.len() == 1 && p[0] == "import"@ && only_options(o, true, false, false, false, true)
        && o.input is Some && o.output is None {
        Some(JsonAction::Import { input: o.input->0, runtime: o.runtime })
    } else {
        None
    }
}

/// The command that positional words and options name, if any.
pub open spec fn command_of(p: Seq<Seq<char>>, o: OptionValues<Seq<char>>) -> Option<Commands<Seq<char>>> {
    if p.len() == 0 {
        None
    } else if p[0] == "capabilities"@ {
        if p.len() == 1 && only_options(o, false, false, false, false, false) { Some(Commands::Capabilities) } else { None }
    } else if p[0] == "init"@ {
        if p.len() == 1 && only_options(o, true, false, false, false, false) { Some(Commands::Init { runtime: o.runtime }) } else { None }
    } else if p[0] == "record"@ {
        match record_action(p.drop_first(), o) {
            Some(action) => Some(Commands::Record { runtime: o.runtime, action }),
            None => None,
        }
    } else if p[0] == "pack"@ {
        match pack_action(p.drop_first(), o) {
            Some(action) => Some(Commands::Pack { runtime: o.runtime, action }),
            None => None,
        }
    } else if p[0] == "json"@ {
        match json_action(p.drop_first(), o) {
            Some(action) => Some(Commands::Json { action }),
            None => None,
        }
    } else {
        group_command_of(p, o)
    }
}

/// The command of one of the groups beyond Records, Packs and JSON.
pub open spec fn group_command_of(p: Seq<Seq<char>>, o: OptionValues<Seq<char>>) -> Option<Commands<Seq<char>>> {
    let rest = p.drop_first();
    if p[0] == "mission"@ {
        match mission_action(rest, o) {
            Some(action) => Some(Commands::Mission { runtime: o.runtime, action, dry_run: o.dry_run }),
            None => None,
        }
    } else if p[0] == "memory"@ {
        match memory_action(rest, o) {
            Some(action) => Some(Commands::Memory { runtime: o.runtime, action, dry_run: o.dry_run }),
            None => None,
        }
    } else if p[0] == "achievement"@ {
        match achievement_action(rest, o) {
            Some(action) => Some(Commands::Achievement { runtime: o.runtime, action }),
            None => None,
        }
    } else if p[0] == "skill"@ {
        match skill_action(rest, o) {
            Some(action) => Some(Commands::Skill { runtime: o.runtime, action }),
            None => None,
        }
    } else if p[0] == "status"@ {
        match status_action(rest, o) {
            Some(action) => Some(Commands::Status { runtime: o.runtime, action, dry_run: o.dry_run }),
            None => None,
        }
    } else if p[0] == "context"@ {
        match context_action(rest, o) {
            Some(action) => Some(Commands::Context { runtime: o.runtime, action }),
            None => None,
        }
    } else if p[0] == "derived"@ {
        match derived_action(rest, o) {
            Some(action) => Some(Commands::Derived { runtime: o.runtime, action }),
            None => None,
        }
    } else if p[0] == "batch"@ {
        match batch_action(rest, o) {
            Some(action) => Some(Commands::Batch { runtime: o.runtime, action, dry_run: o.dry_run }),
            None => None,
        }
    } else {
        None
    }
}

/// The tokens of a command line, the program name left out.
pub open spec fn tokens(args: Seq<&str>) -> Seq<Seq<char>> {
    args.drop_first().map_values(|a: &str| a@)
}

/// What a command line parses to: help when asked for, else the command its
/// tokens name, else an invalid invocation.
pub open spec fn parse_outcome(args: Seq<&str>) -> Result<(bool, Commands<Seq<char>>), CliParseError> {
    if args.len() == 0 {
        Err(CliParseError::InvalidInvocation)
    } else {
        match scan(tokens(args)) {
            None => Err(CliParseError::InvalidInvocation),
            Some(s) => if s.help {
                Err(CliParseError::DisplayHelp)
            } else {
                match command_of(s.positionals, s.options) {
                    Some(c) => Ok((s.compact, c)),
                    None => Err(CliParseError::InvalidInvocation),
                }
            },
        }
    }
}


// ---------------------------------------------------------------------------
// Parsing
// ---------------------------------------------------------------------------

/// Sorted tokens, as built while parsing.
pub struct ScanResult {
    pub compact: bool,
    pub help: bool,
    pub positionals: Vec<String>,
    pub options: OptionValues<String>,
}

pub open spec fn words_view(v: Seq<String>) -> Seq<Seq<char>> {
    v.map_values(|s: String| s@)
}

impl View for ScanResult {
    type V = Scan<Seq<char>>;

    open spec fn view(&self) -> Scan<Seq<char>> {
        Scan {
            compact: self.compact,
            help: self.help,
            positionals: words_view(self.positionals@),
            options: self.options@,
        }
    }
}

fn set_option_exec(o: OptionValues<String>, name: &str, v: String) -> (r: Option<OptionValues<String>>)
    ensures
        match option_slot(o@, name@) {
            Some(None) => r matches Some(n) && n@ == set_option(o@, name@, v@),
            _ => r is None,
        },
{
    if str_eq(name, "runtime") {
        if o.runtime.is_some() { None } else { Some(OptionValues { runtime: Some(v), ..o }) }
    } else if str_eq(name, "file") {
        if o.file.is_some() { None } else { Some(OptionValues { file: Some(v), ..o }) }
    } else if str_eq(name, "name") {
        if o.name.is_some() { None } else { Some(OptionValues { name: Some(v), ..o }) }
    } else if str_eq(name, "definition-id") {
        if o.definition_id.is_some() { None } else { Some(OptionValues { definition_id: Some(v), ..o }) }
    } else if str_eq(name, "namespace") {
        if o.namespace.is_some() { None } else { Some(OptionValues { namespace: Some(v), ..o }) }
    } else if str_eq(name, "pack") {
        if o.pack.is_some() { None } else { Some(OptionValues { pack: Some(v), ..o }) }
    } else if str_eq(name, "kind") {
        if o.kind.is_some() { None } else { Some(OptionValues { kind: Some(v), ..o }) }
    } else if str_eq(name, "has-value") {
        if o.has_value.is_some() { None } else { Some(OptionValues { has_value: Some(v), ..o }) }
    } else if str_eq(name, "output") {
        if o.output.is_some() { None } else { Some(OptionValues { output: Some(v), ..o }) }
    } else if str_eq(name, "input") {
        if o.input.is_some() { None } else { Some(OptionValues { input: Some(v), ..o }) }
    } else if str_eq(name, "mission-id") {
        if o.mission_id.is_some() { None } else { Some(OptionValues { mission_id: Some(v), ..o }) }
    } else if str_eq(name, "status") {
        if o.status.is_some() { None } else { Some(OptionValues { status: Some(v), ..o }) }
    } else if str_eq(name, "parent-id") {
        if o.parent_id.is_some() { None } else { Some(OptionValues { parent_id: Some(v), ..o }) }
    } else if str_eq(name, "suggestion-id") {
        if o.suggestion_id.is_some() { None } else { Some(OptionValues { suggestion_id: Some(v), ..o }) }
    } else if str_eq(name, "memory-id") {
        if o.memory_id.is_some() { None } else { Some(OptionValues { memory_id: Some(v), ..o }) }
    } else if str_eq(name, "achievement-id") {
        if o.achievement_id.is_some() { None } else { Some(OptionValues { achievement_id: Some(v), ..o }) }
    } else if str_eq(name, "related-record-definition-id") {
        if o.related_record_definition_id.is_some() {
            None
        } else {
            Some(OptionValues { related_record_definition_id: Some(v), ..o })
        }
    } else if str_eq(name, "skill-id") {
        if o.skill_id.is_some() { None } else { Some(OptionValues { skill_id: Some(v), ..o }) }
    } else if str_eq(name, "as-of") {
        if o.as_of.is_some() { None } else { Some(OptionValues { as_of: Some(v), ..o }) }
    } else {
        None
    }
}

/// Sort the tokens from position `i` on.
fn scan_from(args: &[&str], i: usize) -> (r: Option<ScanResult>)
    requires
        1 <= i <= args@.len(),
    ensures
        match r {
            Some(s) => scan(tokens(args@).skip(i - 1)) == Some(s@),
            None => scan(tokens(args@).skip(i - 1)) is None,
        },
    decreases args@.len() - i,
{
    let ghost ts = tokens(args@).skip(i - 1);
    if i == args.len() {
        proof { assert(ts.len() == 0); }
        let options = OptionValues {
            runtime: None, file: None, name: None, definition_id: None, namespace: None,
            pack: None, kind: None, has_value: None, output: None, input: None,
            mission_id: None, status: None, parent_id: None, suggestion_id: None, memory_id: None,
            achievement_id: None, related_record_definition_id: None, skill_id: None, as_of: None,
            dry_run: false, clear: false,
        };
        let empty: Vec<String> = Vec::new();
        proof { assert(words_view(empty@) =~= Seq::<Seq<char>>::empty()); }
        return Some(ScanResult { compact: false, help: false, positionals: empty, options });
    }
    let t: &str = args[i];
    proof {
        assert(ts[0] == t@);
        assert(ts.drop_first() =~= tokens(args@).skip(i as int));
    }
    if str_eq(t, "--compact") {
        match scan_from(args, i + 1) {
            Some(s) => Some(ScanResult { compact: true, ..s }),
            None => None,
        }
    } else if str_eq(t, "--help") || str_eq(t, "-h") {
        match scan_from(args, i + 1) {
            Some(s) => Some(ScanResult { help: true, ..s }),
            None => None,
        }
    } else if str_eq(t, "--dry-run") {
        match scan_from(args, i + 1) {
            Some(s) => Some(ScanResult {
                compact: s.compact,
                help: s.help,
                positionals: s.positionals,
                options: OptionValues { dry_run: true, ..s.options },
            }),
            None => None,
        }
    } else if str_eq(t, "--clear") {
        match scan_from(args, i + 1) {
            Some(s) => Some(ScanResult {
                compact: s.compact,
                help: s.help,
                positionals: s.positionals,
                options: OptionValues { clear: true, ..s.options },
            }),
            None => None,
        }
    } else if t.unicode_len() >= 3 && t.get_char(0) == '-' && t.get_char(1) == '-' {
        if i + 1 >= args.len() {
            return None;
        }
        proof {
            assert(ts.skip(2) =~= tokens(args@).skip(i + 1));
            assert(ts[1] == args@[i + 1]@);
        }
        let name = t.substring_char(2, t.unicode_len());
        proof { assert(name@ =~= t@.skip(2)); }
        let value = args[i + 1].to_string();
        match scan_from(args, i + 2) {
            Some(s) => match set_option_exec(s.options, name, value) {
                Some(options) => Some(ScanResult { compact: s.compact, help: s.help, positionals: s.positionals, options }),
                None => None,
            },
            None => None,
        }
    } else if t.unicode_len() > 0 && t.get_char(0) == '-' {
        None
    } else {
        match scan_from(args, i + 1) {
            Some(s) => {
                let mut positionals = s.positionals;
                let ghost before = words_view(positionals@);
                positionals.insert(0, t.to_string());
                proof { assert(words_view(positionals@) =~= seq![t@] + before); }
                Some(ScanResult { compact: s.compact, help: s.help, positionals, options: s.options })
            }
            None => None,
        }
    }
}

fn only_options_exec(o: &OptionValues<String>, runtime: bool, file: bool, name: bool, query: bool, json: bool) -> (r: bool)
    ensures
        r == only_options(o@, runtime, file, name, query, json),
{
    o.mission_id.is_none() && o.status.is_none() && o.parent_id.is_none() && o.suggestion_id.is_none()
        && o.memory_id.is_none() && o.achievement_id.is_none() && o.related_record_definition_id.is_none()
        && o.skill_id.is_none() && o.as_of.is_none() && !o.dry_run && !o.clear
        && (runtime || o.runtime.is_none())
        && (file || o.file.is_none())
        && (name || o.name.is_none())
        && (query || (o.definition_id.is_none() && o.namespace.is_none() && o.pack.is_none() && o.kind.is_none() && o.has_value.is_none()))
        && (json || (o.output.is_none() && o.input.is_none()))
}

fn kind_arg_exec(v: &str) -> (r: Option<RecordKindArg>)
    ensures
        r == kind_arg(v@),
{
    if str_eq(v, "scalar") { Some(RecordKindArg::Scalar) }
    else if str_eq(v, "collection") { Some(RecordKindArg::Collection) }
    else if str_eq(v, "event") { Some(RecordKindArg::Event) }
    else { None }
}

fn bool_arg_exec(v: &str) -> (r: Option<bool>)
    ensures
        r == bool_arg(v@),
{
    if str_eq(v, "true") { Some(true) }
    else if str_eq(v, "false") { Some(false) }
    else { None }
}

pub fn copy_opt(o: &Option<String>) -> (r: Option<String>)
    ensures
        opt_view(r) == opt_view(*o),
{
    match o {
        Some(s) => Some(s.clone()),
        None => None,
    }
}

fn record_file_action_exec(a: &str, file: Option<String>) -> (r: Option<RecordAction<String>>)
    ensures
        match r {
            Some(x) => record_file_action(a@, opt_view(file)) == Some(x@),
            None => record_file_action(a@, opt_view(file)) is None,
        },
{
    if str_eq(a, "set") { Some(RecordAction::SetScalar { file }) }
    else if str_eq(a, "increment") { Some(RecordAction::Increment { file }) }
    else if str_eq(a, "correct") { Some(RecordAction::Correct { file }) }
    else if str_eq(a, "add-item") { Some(RecordAction::AddItem { file }) }
    else if str_eq(a, "correct-item") { Some(RecordAction::CorrectItem { file }) }
    else if str_eq(a, "remove-item") { Some(RecordAction::RemoveItem { file }) }
    else if str_eq(a, "append-event") { Some(RecordAction::AppendEvent { file }) }
    else if str_eq(a, "correct-event") { Some(RecordAction::CorrectEvent { file }) }
    else if str_eq(a, "delete-event") { Some(RecordAction::DeleteEvent { file }) }
    else { None }
}

fn record_id_action_exec(a: &str, id: String) -> (r: Option<RecordAction<String>>)
    ensures
        match r {
            Some(x) => record_id_action(a@, id@) == Some(x@),
            None => record_id_action(a@, id@) is None,
        },
{
    if str_eq(a, "get") { Some(RecordAction::Get { definition_id: id }) }
    else if str_eq(a, "create-empty-collection") { Some(RecordAction::CreateEmptyCollection { definition_id: id }) }
    else if str_eq(a, "create-empty-event") { Some(RecordAction::CreateEmptyEvent { definition_id: id }) }
    else if str_eq(a, "delete") { Some(RecordAction::Delete { definition_id: id }) }
    else { None }
}

fn record_action_exec(words: &Vec<String>, o: &OptionValues<String>) -> (r: Option<RecordAction<String>>)
    requires
        words@.len() >= 1,
    ensures
        match r {
            Some(x) => record_action(words_view(words@).drop_first(), o@) == Some(x@),
            None => record_action(words_view(words@).drop_first(), o@) is None,
        },
{
    let ghost p = words_view(words@).drop_first();
    let n = words.len() - 1;
    proof { assert(p.len() == n); }
    if n >= 1 {
        proof { assert(p[0] == words@[1]@); }
    }
    if n >= 2 {
        proof { assert(p[1] == words@[2]@); }
    }
    if n == 1 && str_eq(words[1].as_str(), "query") && only_options_exec(o, true, false, false, true, false) {
        let kind = match &o.kind {
            Some(k) => match kind_arg_exec(k.as_str()) {
                Some(k) => Some(k),
                None => return None,
            },
            None => None,
        };
        let has_value = match &o.has_value {
            Some(b) => match bool_arg_exec(b.as_str()) {
                Some(b) => Some(b),
                None => return None,
            },
            None => None,
        };
        Some(RecordAction::Query {
            definition_id: copy_opt(&o.definition_id),
            namespace: copy_opt(&o.namespace),
            pack: copy_opt(&o.pack),
            kind,
            has_value,
        })
    } else if n == 1 && only_options_exec(o, true, true, false, false, false) {
        record_file_action_exec(words[1].as_str(), copy_opt(&o.file))
    } else if n == 2 && only_options_exec(o, true, false, false, false, false) {
        record_id_action_exec(words[1].as_str(), words[2].clone())
    } else {
        None
    }
}

fn pack_action_exec(words: &Vec<String>, o: &OptionValues<String>) -> (r: Option<PackAction<String>>)
    requires
        words@.len() >= 1,
    ensures
        match r {
            Some(x) => pack_action(words_view(words@).drop_first(), o@) == Some(x@),
            None => pack_action(words_view(words@).drop_first(), o@) is None,
        },
{
    let ghost p = words_view(words@).drop_first();
    let n = words.len() - 1;
    proof { assert(p.len() == n); }
    if n == 0 {
        return None;
    }
    proof { assert(p[0] == words@[1]@); }
    if n >= 2 {
        proof { assert(p[1] == words@[2]@); }
    }
    if n >= 3 {
        proof { assert(p[2] == words@[3]@); }
    }
    let a = words[1].as_str();
    let only_runtime = only_options_exec(o, true, false, false, false, false);
    let with_file = only_options_exec(o, true, true, false, false, false);
    if str_eq(a, "list") && n == 1 && only_runtime {
        Some(PackAction::List)
    } else if str_eq(a, "show") && n == 2 && only_runtime {
        Some(PackAction::Show { pack_id: words[2].clone() })
    } else if str_eq(a, "scaffold") && n == 2 && only_options_exec(o, true, false, true, false, false) && o.name.is_some() {
        let name = match &o.name {
            Some(v) => v.clone(),
            None => return None,
        };
        Some(PackAction::Scaffold { pack_id: words[2].clone(), name })
    } else if str_eq(a, "validate") && n == 1 && with_file {
        Some(PackAction::Validate { file: copy_opt(&o.file) })
    } else if str_eq(a, "write") && n == 1 && with_file {
        Some(PackAction::Write { file: copy_opt(&o.file) })
    } else if str_eq(a, "asset-put") && n == 3 && with_file && o.file.is_some() {
        let file = match &o.file {
            Some(v) => v.clone(),
            None => return None,
        };
        Some(PackAction::AssetPut { pack_id: words[2].clone(), asset_path: words[3].clone(), file })
    } else if str_eq(a, "asset-delete") && n == 3 && only_runtime {
        Some(PackAction::AssetDelete { pack_id: words[2].clone(), asset_path: words[3].clone() })
    } else if str_eq(a, "enable") && n == 2 && only_runtime {
        Some(PackAction::Enable { pack_id: words[2].clone() })
    } else if str_eq(a, "disable") && n == 2 && only_runtime {
        Some(PackAction::Disable { pack_id: words[2].clone() })
    } else {
        None
    }
}

fn json_action_exec(words: &Vec<String>, o: &OptionValues<String>) -> (r: Option<JsonAction<String>>)
    requires
        words@.len() >= 1,
    ensures
        match r {
            Some(x) => json_action(words_view(words@).drop_first(), o@) == Some(x@),
            None => json_action(words_view(words@).drop_first(), o@) is None,
        },
{
    let ghost p = words_view(words@).drop_first();
    let n = words.len() - 1;
    proof { assert(p.len() == n); }
    if n != 1 || !only_options_exec(o, true, false, false, false, true) {
        return None;
    }
    proof {
        assert(p[0] == words@[1]@);
        reveal_strlit("export");
        reveal_strlit("import");
        assert("export"@[0] != "import"@[0]);
        assert("export"@ != "import"@);
    }
    if str_eq(words[1].as_str(), "export") {
        if o.input.is_some() {
            return None;
        }
        match &o.output {
            Some(output) => Some(JsonAction::Export { output: output.clone(), runtime: copy_opt(&o.runtime) }),
            None => None,
        }
    } else if str_eq(words[1].as_str(), "import") {
        if o.output.is_some() {
            return None;
        }
        match &o.input {
            Some(input) => Some(JsonAction::Import { input: input.clone(), runtime: copy_opt(&o.runtime) }),
            None => None,
        }
    } else {
        None
    }
}

fn command_of_exec(words: &Vec<String>, o: &OptionValues<String>) -> (r: Option<Commands<String>>)
    ensures
        match r {
            Some(c) => command_of(words_view(words@), o@) == Some(c@),
            None => command_of(words_view(words@), o@) is None,
        },
{
    let ghost p = words_view(words@);
    if words.len() == 0 {
        return None;
    }
    proof { assert(p[0] == words@[0]@); }
    let first = words[0].as_str();
    if str_eq(first, "capabilities") {
        if words.len() == 1 && only_options_exec(o, false, false, false, false, false) { Some(Commands::Capabilities) } else { None }
    } else if str_eq(first, "init") {
        if words.len() == 1 && only_options_exec(o, true, false, false, false, false) {
            Some(Commands::Init { runtime: copy_opt(&o.runtime) })
        } else {
            None
        }
    } else if str_eq(first, "record") {
        match record_action_exec(words, o) {
            Some(action) => Some(Commands::Record { runtime: copy_opt(&o.runtime), action }),
            None => None,
        }
    } else if str_eq(first, "pack") {
        match pack_action_exec(words, o) {
            Some(action) => Some(Commands::Pack { runtime: copy_opt(&o.runtime), action }),
            None => None,
        }
    } else if str_eq(first, "json") {
        match json_action_exec(words, o) {
            Some(action) => Some(Commands::Json { action }),
            None => None,
        }
    } else {
        group_command_of_exec(words, o)
    }
}

fn group_command_of_exec(words: &Vec<String>, o: &OptionValues<String>) -> (r: Option<Commands<String>>)
    requires
        words@.len() >= 1,
    ensures
        match r {
            Some(c) => group_command_of(words_view(words@), o@) == Some(c@),
            None => group_command_of(words_view(words@), o@) is None,
        },
{
    let ghost p = words_view(words@);
    proof { assert(p[0] == words@[0]@); }
    let first = words[0].as_str();
    if str_eq(first, "mission") {
        match mission_action_exec(words, o) {
            Some(action) => Some(Commands::Mission { runtime: copy_opt(&o.runtime), action, dry_run: o.dry_run }),
            None => None,
        }
    } else if str_eq(first, "memory") {
        match memory_action_exec(words, o) {
            Some(action) => Some(Commands::Memory { runtime: copy_opt(&o.runtime), action, dry_run: o.dry_run }),
            None => None,
        }
    } else if str_eq(first, "achievement") {
        match achievement_action_exec(words, o) {
            Some(action) => Some(Commands::Achievement { runtime: copy_opt(&o.runtime), action }),
            None => None,
        }
    } else if str_eq(first, "skill") {
        match skill_action_exec(words, o) {
            Some(action) => Some(Commands::Skill { runtime: copy_opt(&o.runtime), action }),
            None => None,
        }
    } else if str_eq(first, "status") {
        match status_action_exec(words, o) {
            Some(action) => Some(Commands::Status { runtime: copy_opt(&o.runtime), action, dry_run: o.dry_run }),
            None => None,
        }
    } else if str_eq(first, "context") {
        match context_action_exec(words, o) {
            Some(action) => Some(Commands::Context { runtime: copy_opt(&o.runtime), action }),
            None => None,
        }
    } else if str_eq(first, "derived") {
        match derived_action_exec(words, o) {
            Some(action) => Some(Commands::Derived { runtime: copy_opt(&o.runtime), action }),
            None => None,
        }
    } else if str_eq(first, "batch") {
        match batch_action_exec(words, o) {
            Some(action) => Some(Commands::Batch { runtime: copy_opt(&o.runtime), action, dry_run: o.dry_run }),
            None => None,
        }
    } else {
        None
    }
}

impl Cli {
    /// Parse a command line whose first element is the program name.
    pub fn try_parse_from(args: &[&str]) -> (r: Result<Cli, CliParseError>)
        ensures
            match r {
                Ok(cli) => parse_outcome(args@) == Ok::<(bool, Commands<Seq<char>>), CliParseError>((cli.compact, cli.command@)),
                Err(e) => parse_outcome(args@) == Err::<(bool, Commands<Seq<char>>), CliParseError>(e),
            },
    {
        if args.len() == 0 {
            return Err(CliParseError::InvalidInvocation);
        }
        proof { assert(tokens(args@).skip(0) =~= tokens(args@)); }
        let s = match scan_from(args, 1) {
            Some(s) => s,
            None => return Err(CliParseError::InvalidInvocation),
        };
        if s.help {
            return Err(CliParseError::DisplayHelp);
        }
        match command_of_exec(&s.positionals, &s.options) {
            Some(command) => Ok(Cli { compact: s.compact, command }),
            None => Err(CliParseError::InvalidInvocation),
        }
    }
}

} // verus!
