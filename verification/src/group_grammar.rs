//! The words and options of the command groups beyond Records, Packs and
//! JSON: `mission`, `memory`, `achievement`, `skill`, `status`, `context`,
//! `derived` and `batch`.  Each group takes `--runtime`; the groups that
//! change data (`mission`, `memory`, `status`, `batch`) also take the
//! `--dry-run` flag; each action accepts its own filters besides.
use vstd::prelude::*;
use vstd::string::*;
use crate::cli::{copy_opt, opt_view, words_view, OptionValues};
use crate::command_groups::{
    AchievementAction, AchievementStatusArg, AssistantMemoryKindArg, BatchAction, ContextAction, DerivedAction,
    MemoryAction, MissionAction, MissionStatusArg, MissionSuggestionStatusArg, SkillAction, StatusAction,
};
use crate::text::{parse_unsigned, parse_unsigned_spec, str_eq};

verus! {

// ---------------------------------------------------------------------------
// Which options an action accepts
// ---------------------------------------------------------------------------

/// The options, besides `--runtime`, that a group action accepts.
#[derive(Debug, Clone, Copy, PartialEq, Eq, Structural)]
pub struct GroupMask {
    pub file: bool,
    pub kind: bool,
    pub pack: bool,
    pub mission_id: bool,
    pub status: bool,
    pub parent_id: bool,
    pub suggestion_id: bool,
    pub memory_id: bool,
    pub achievement_id: bool,
    pub related_record_definition_id: bool,
    pub skill_id: bool,
    pub as_of: bool,
    pub dry_run: bool,
    pub clear: bool,
}

/// Nothing but `--runtime`, and `--dry-run` where `dry_run` is set.
pub open spec fn bare_mask(dry_run: bool) -> GroupMask {
    GroupMask {
        file: false,
        kind: false,
        pack: false,
        mission_id: false,
        status: false,
        parent_id: false,
        suggestion_id: false,
        memory_id: false,
        achievement_id: false,
        related_record_definition_id: false,
        skill_id: false,
        as_of: false,
        dry_run,
        clear: false,
    }
}

fn bare_mask_exec(dry_run: bool) -> (m: GroupMask)
    ensures
        m == bare_mask(dry_run),
{
    GroupMask {
        file: false,
        kind: false,
        pack: false,
        mission_id: false,
        status: false,
        parent_id: false,
        suggestion_id: false,
        memory_id: false,
        achievement_id: false,
        related_record_definition_id: false,
        skill_id: false,
        as_of: false,
        dry_run,
        clear: false,
    }
}

/// Only the options that `m` marks are set; the options of the Record, Pack
/// and JSON commands never are.
pub open spec fn group_options(o: OptionValues<Seq<char>>, m: GroupMask) -> bool {
    &&& o.name is None && o.definition_id is None && o.namespace is None
    &&& o.has_value is None && o.output is None && o.input is None
    &&& (!m.file ==> o.file is None)
    &&& (!m.kind ==> o.kind is None)
    &&& (!m.pack ==> o.pack is None)
    &&& (!m.mission_id ==> o.mission_id is None)
    &&& (!m.status ==> o.status is None)
    &&& (!m.parent_id ==> o.parent_id is None)
    &&& (!m.suggestion_id ==> o.suggestion_id is None)
    &&& (!m.memory_id ==> o.memory_id is None)
    &&& (!m.achievement_id ==> o.achievement_id is None)
    &&& (!m.related_record_definition_id ==> o.related_record_definition_id is None)
    &&& (!m.skill_id ==> o.skill_id is None)
    &&& (!m.as_of ==> o.as_of is None)
    &&& (!m.dry_run ==> !o.dry_run)
    &&& (!m.clear ==> !o.clear)
}

fn group_options_exec(o: &OptionValues<String>, m: GroupMask) -> (r: bool)
    ensures
        r == group_options(o@, m),
{
    o.name.is_none() && o.definition_id.is_none() && o.namespace.is_none()
        && o.has_value.is_none() && o.output.is_none() && o.input.is_none()
        && (m.file || o.file.is_none())
        && (m.kind || o.kind.is_none())
        && (m.pack || o.pack.is_none())
        && (m.mission_id || o.mission_id.is_none())
        && (m.status || o.status.is_none())
        && (m.parent_id || o.parent_id.is_none())
        && (m.suggestion_id || o.suggestion_id.is_none())
        && (m.memory_id || o.memory_id.is_none())
        && (m.achievement_id || o.achievement_id.is_none())
        && (m.related_record_definition_id || o.related_record_definition_id.is_none())
        && (m.skill_id || o.skill_id.is_none())
        && (m.as_of || o.as_of.is_none())
        && (m.dry_run || !o.dry_run)
        && (m.clear || !o.clear)
}

// ---------------------------------------------------------------------------
// Filter values
// ---------------------------------------------------------------------------

pub open spec fn mission_status_arg(v: Seq<char>) -> Option<MissionStatusArg> {
    if v == "active"@ { Some(MissionStatusArg::Active) }
    else if v == "completed"@ { Some(MissionStatusArg::Completed) }
    else if v == "archived"@ { Some(MissionStatusArg::Archived) }
    else { None }
}

fn mission_status_arg_exec(v: &str) -> (r: Option<MissionStatusArg>)
    ensures
        r == mission_status_arg(v@),
{
    if str_eq(v, "active") { Some(MissionStatusArg::Active) }
    else if str_eq(v, "completed") { Some(MissionStatusArg::Completed) }
    else if str_eq(v, "archived") { Some(MissionStatusArg::Archived) }
    else { None }
}

pub open spec fn suggestion_status_arg(v: Seq<char>) -> Option<MissionSuggestionStatusArg> {
    if v == "pending"@ { Some(MissionSuggestionStatusArg::Pending) }
    else if v == "rejected"@ { Some(MissionSuggestionStatusArg::Rejected) }
    else { None }
}

fn suggestion_status_arg_exec(v: &str) -> (r: Option<MissionSuggestionStatusArg>)
    ensures
        r == suggestion_status_arg(v@),
{
    if str_eq(v, "pending") { Some(MissionSuggestionStatusArg::Pending) }
    else if str_eq(v, "rejected") { Some(MissionSuggestionStatusArg::Rejected) }
    else { None }
}

pub open spec fn memory_kind_arg(v: Seq<char>) -> Option<AssistantMemoryKindArg> {
    if v == "focus"@ { Some(AssistantMemoryKindArg::Focus) }
    else if v == "preference"@ { Some(AssistantMemoryKindArg::Preference) }
    else if v == "constraint"@ { Some(AssistantMemoryKindArg::Constraint) }
    else if v == "habit"@ { Some(AssistantMemoryKindArg::Habit) }
    else if v == "summary"@ { Some(AssistantMemoryKindArg::Summary) }
    else if v == "reminder"@ { Some(AssistantMemoryKindArg::Reminder) }
    else if v == "observation"@ { Some(AssistantMemoryKindArg::Observation) }
    else { None }
}

fn memory_kind_arg_exec(v: &str) -> (r: Option<AssistantMemoryKindArg>)
    ensures
        r == memory_kind_arg(v@),
{
    if str_eq(v, "focus") { Some(AssistantMemoryKindArg::Focus) }
    else if str_eq(v, "preference") { Some(AssistantMemoryKindArg::Preference) }
    else if str_eq(v, "constraint") { Some(AssistantMemoryKindArg::Constraint) }
    else if str_eq(v, "habit") { Some(AssistantMemoryKindArg::Habit) }
    else if str_eq(v, "summary") { Some(AssistantMemoryKindArg::Summary) }
    else if str_eq(v, "reminder") { Some(AssistantMemoryKindArg::Reminder) }
    else if str_eq(v, "observation") { Some(AssistantMemoryKindArg::Observation) }
    else { None }
}

/// `tracked` and `achieved`, the persisted states of an Achievement.
pub open spec fn achievement_status_arg(v: Seq<char>) -> Option<AchievementStatusArg> {
    if v == "tracked"@ { Some(AchievementStatusArg::Tracking) }
    else if v == "achieved"@ { Some(AchievementStatusArg::Achieved) }
    else { None }
}

fn achievement_status_arg_exec(v: &str) -> (r: Option<AchievementStatusArg>)
    ensures
        r == achievement_status_arg(v@),
{
    if str_eq(v, "tracked") { Some(AchievementStatusArg::Tracking) }
    else if str_eq(v, "achieved") { Some(AchievementStatusArg::Achieved) }
    else { None }
}

/// A filter value read by `f`: absent stays absent, a value `f` refuses
/// refuses the command.
pub open spec fn read_filter<A>(v: Option<Seq<char>>, f: spec_fn(Seq<char>) -> Option<A>) -> Option<Option<A>> {
    match v {
        None => Some(None),
        Some(t) => match f(t) {
            Some(a) => Some(Some(a)),
            None => None,
        },
    }
}

// ---------------------------------------------------------------------------
// Views
// ---------------------------------------------------------------------------

impl View for MissionAction<String> {
    type V = MissionAction<Seq<char>>;

    open spec fn view(&self) -> MissionAction<Seq<char>> {
        match self {
            MissionAction::List { mission_id, status, parent_id } => MissionAction::List {
                mission_id: opt_view(*mission_id),
                status: *status,
                parent_id: opt_view(*parent_id),
            },
            MissionAction::Create { file } => MissionAction::Create { file: opt_view(*file) },
            MissionAction::Update { file } => MissionAction::Update { file: opt_view(*file) },
            MissionAction::Complete { mission_id } => MissionAction::Complete { mission_id: mission_id@ },
            MissionAction::Archive { mission_id } => MissionAction::Archive { mission_id: mission_id@ },
            MissionAction::Delete { mission_id } => MissionAction::Delete { mission_id: mission_id@ },
            MissionAction::SuggestionList { suggestion_id, status } => MissionAction::SuggestionList {
                suggestion_id: opt_view(*suggestion_id),
                status: *status,
            },
            MissionAction::Suggest { file } => MissionAction::Suggest { file: opt_view(*file) },
            MissionAction::Accept { suggestion_id } => MissionAction::Accept { suggestion_id: suggestion_id@ },
            MissionAction::Reject { suggestion_id } => MissionAction::Reject { suggestion_id: suggestion_id@ },
            MissionAction::SuggestionDelete { suggestion_id } => MissionAction::SuggestionDelete {
                suggestion_id: suggestion_id@,
            },
        }
    }
}

impl View for MemoryAction<String> {
    type V = MemoryAction<Seq<char>>;

    open spec fn view(&self) -> MemoryAction<Seq<char>> {
        match self {
            MemoryAction::List { memory_id, kind } => MemoryAction::List { memory_id: opt_view(*memory_id), kind: *kind },
            MemoryAction::Create { file } => MemoryAction::Create { file: opt_view(*file) },
            MemoryAction::Update { file } => MemoryAction::Update { file: opt_view(*file) },
            MemoryAction::Delete { memory_id } => MemoryAction::Delete { memory_id: memory_id@ },
        }
    }
}

impl View for AchievementAction<String> {
    type V = AchievementAction<Seq<char>>;

    open spec fn view(&self) -> AchievementAction<Seq<char>> {
        match self {
            AchievementAction::List { achievement_id, pack, status, related_record_definition_id } => AchievementAction::List {
                achievement_id: opt_view(*achievement_id),
                pack: opt_view(*pack),
                status: *status,
                related_record_definition_id: opt_view(*related_record_definition_id),
            },
            AchievementAction::StateSet { file } => AchievementAction::StateSet { file: opt_view(*file) },
            AchievementAction::StateRevoke { achievement_id } => AchievementAction::StateRevoke {
                achievement_id: achievement_id@,
            },
        }
    }
}

impl View for SkillAction<String> {
    type V = SkillAction<Seq<char>>;

    open spec fn view(&self) -> SkillAction<Seq<char>> {
        match self {
            SkillAction::List { skill_id, pack } => SkillAction::List { skill_id: opt_view(*skill_id), pack: opt_view(*pack) },
        }
    }
}

impl View for StatusAction<String> {
    type V = StatusAction<Seq<char>>;

    open spec fn view(&self) -> StatusAction<Seq<char>> {
        match self {
            StatusAction::ListDimensions => StatusAction::ListDimensions,
            StatusAction::Evaluate { dimension_id } => StatusAction::Evaluate { dimension_id: opt_view(*dimension_id) },
            StatusAction::Select { position, dimension_id, clear } => StatusAction::Select {
                position: *position,
                dimension_id: opt_view(*dimension_id),
                clear: *clear,
            },
        }
    }
}

impl View for DerivedAction<String> {
    type V = DerivedAction<Seq<char>>;

    open spec fn view(&self) -> DerivedAction<Seq<char>> {
        match self {
            DerivedAction::List { as_of } => DerivedAction::List { as_of: opt_view(*as_of) },
            DerivedAction::Evaluate { id, as_of } => DerivedAction::Evaluate { id: id@, as_of: opt_view(*as_of) },
        }
    }
}

impl View for BatchAction<String> {
    type V = BatchAction<Seq<char>>;

    open spec fn view(&self) -> BatchAction<Seq<char>> {
        match self {
            BatchAction::Apply { file } => BatchAction::Apply { file: opt_view(*file) },
        }
    }
}

// ---------------------------------------------------------------------------
// The actions of each group
// ---------------------------------------------------------------------------

/// The `mission` action of the words after `mission`.
pub open spec fn mission_action(p: Seq<Seq<char>>, o: OptionValues<Seq<char>>) -> Option<MissionAction<Seq<char>>> {
    if p.len() == 0 {
        None
    } else {
        let a = p[0];
        let with_file = GroupMask { file: true, ..bare_mask(true) };
        if a == "list"@ && p.len() == 1
            && group_options(o, GroupMask { mission_id: true, status: true, parent_id: true, ..bare_mask(true) }) {
            match read_filter(o.status, |t: Seq<char>| mission_status_arg(t)) {
                Some(status) => Some(MissionAction::List { mission_id: o.mission_id, status, parent_id: o.parent_id }),
                None => None,
            }
        } else if a == "create"@ && p.len() == 1 && group_options(o, with_file) {
            Some(MissionAction::Create { file: o.file })
        } else if a == "update"@ && p.len() == 1 && group_options(o, with_file) {
            Some(MissionAction::Update { file: o.file })
        } else if a == "complete"@ && p.len() == 2 && group_options(o, bare_mask(true)) {
            Some(MissionAction::Complete { mission_id: p[1] })
        } else if a == "archive"@ && p.len() == 2 && group_options(o, bare_mask(true)) {
            Some(MissionAction::Archive { mission_id: p[1] })
        } else if a == "delete"@ && p.len() == 2 && group_options(o, bare_mask(true)) {
            Some(MissionAction::Delete { mission_id: p[1] })
        } else if a == "suggestion-list"@ && p.len() == 1
            && group_options(o, GroupMask { suggestion_id: true, status: true, ..bare_mask(true) }) {
            match read_filter(o.status, |t: Seq<char>| suggestion_status_arg(t)) {
                Some(status) => Some(MissionAction::SuggestionList { suggestion_id: o.suggestion_id, status }),
                None => None,
            }
        } else if a == "suggest"@ && p.len() == 1 && group_options(o, with_file) {
            Some(MissionAction::Suggest { file: o.file })
        } else if a == "accept"@ && p.len() == 2 && group_options(o, bare_mask(true)) {
            Some(MissionAction::Accept { suggestion_id: p[1] })
        } else if a == "reject"@ && p.len() == 2 && group_options(o, bare_mask(true)) {
            Some(MissionAction::Reject { suggestion_id: p[1] })
        } else if a == "suggestion-delete"@ && p.len() == 2 && group_options(o, bare_mask(true)) {
            Some(MissionAction::SuggestionDelete { suggestion_id: p[1] })
        } else {
            None
        }
    }
}

/// The `memory` action of the words after `memory`.
pub open spec fn memory_action(p: Seq<Seq<char>>, o: OptionValues<Seq<char>>) -> Option<MemoryAction<Seq<char>>> {
    if p.len() == 0 {
        None
    } else {
        let a = p[0];
        let with_file = GroupMask { file: true, ..bare_mask(true) };
        if a == "list"@ && p.len() == 1 && group_options(o, GroupMask { memory_id: true, kind: true, ..bare_mask(true) }) {
            match read_filter(o.kind, |t: Seq<char>| memory_kind_arg(t)) {
                Some(kind) => Some(MemoryAction::List { memory_id: o.memory_id, kind }),
                None => None,
            }
        } else if a == "create"@ && p.len() == 1 && group_options(o, with_file) {
            Some(MemoryAction::Create { file: o.file })
        } else if a == "update"@ && p.len() == 1 && group_options(o, with_file) {
            Some(MemoryAction::Update { file: o.file })
        } else if a == "delete"@ && p.len() == 2 && group_options(o, bare_mask(true)) {
            Some(MemoryAction::Delete { memory_id: p[1] })
        } else {
            None
        }
    }
}

/// The `achievement` action of the words after `achievement`.
pub open spec fn achievement_action(p: Seq<Seq<char>>, o: OptionValues<Seq<char>>) -> Option<AchievementAction<Seq<char>>> {
    if p.len() == 0 {
        None
    } else {
        let a = p[0];
        if a == "list"@ && p.len() == 1 && group_options(o, GroupMask {
            achievement_id: true, pack: true, status: true, related_record_definition_id: true, ..bare_mask(false)
        }) {
            match read_filter(o.status, |t: Seq<char>| achievement_status_arg(t)) {
                Some(status) => Some(AchievementAction::List {
                    achievement_id: o.achievement_id,
                    pack: o.pack,
                    status,
                    related_record_definition_id: o.related_record_definition_id,
                }),
                None => None,
            }
        } else if a == "state-set"@ && p.len() == 1 && group_options(o, GroupMask { file: true, ..bare_mask(false) }) {
            Some(AchievementAction::StateSet { file: o.file })
        } else if a == "state-revoke"@ && p.len() == 2 && group_options(o, bare_mask(false)) {
            Some(AchievementAction::StateRevoke { achievement_id: p[1] })
        } else {
            None
        }
    }
}

/// The `skill` action of the words after `skill`.
pub open spec fn skill_action(p: Seq<Seq<char>>, o: OptionValues<Seq<char>>) -> Option<SkillAction<Seq<char>>> {
    if p.len() == 1 && p[0] == "list"@ && group_options(o, GroupMask { skill_id: true, pack: true, ..bare_mask(false) }) {
        Some(SkillAction::List { skill_id: o.skill_id, pack: o.pack })
    } else {
        None
    }
}

/// The `status` action of the words after `status`.  A display position is
/// a number from 0 to 255, written as Rust reads a `u8`.
pub open spec fn status_action(p: Seq<Seq<char>>, o: OptionValues<Seq<char>>) -> Option<StatusAction<Seq<char>>> {
    if p.len() == 0 {
        None
    } else {
        let a = p[0];
        if a == "list-dimensions"@ && p.len() == 1 && group_options(o, bare_mask(true)) {
            Some(StatusAction::ListDimensions)
        } else if a == "evaluate"@ && (p.len() == 1 || p.len() == 2) && group_options(o, bare_mask(true)) {
            Some(StatusAction::Evaluate { dimension_id: if p.len() == 2 { Some(p[1]) } else { None } })
        } else if a == "select"@ && (p.len() == 2 || p.len() == 3) && group_options(o, GroupMask { clear: true, ..bare_mask(true) }) {
            match parse_unsigned_spec(p[1], 255) {
                Some(v) => Some(StatusAction::Select {
                    position: v as u8,
                    dimension_id: if p.len() == 3 { Some(p[2]) } else { None },
                    clear: o.clear,
                }),
                None => None,
            }
        } else {
            None
        }
    }
}

/// The `context` action of the words after `context`.
pub open spec fn context_action(p: Seq<Seq<char>>, o: OptionValues<Seq<char>>) -> Option<ContextAction> {
    if p.len() == 1 && p[0] == "summary"@ && group_options(o, bare_mask(false)) {
        Some(ContextAction::Summary)
    } else {
        None
    }
}

/// The `derived` action of the words after `derived`.
pub open spec fn derived_action(p: Seq<Seq<char>>, o: OptionValues<Seq<char>>) -> Option<DerivedAction<Seq<char>>> {
    let with_date = GroupMask { as_of: true, ..bare_mask(false) };
    if p.len() == 1 && p[0] == "list"@ && group_options(o, with_date) {
        Some(DerivedAction::List { as_of: o.as_of })
    } else if p.len() == 2 && p[0] == "evaluate"@ && group_options(o, with_date) {
        Some(DerivedAction::Evaluate { id: p[1], as_of: o.as_of })
    } else {
        None
    }
}

/// The `batch` action of the words after `batch`.
pub open spec fn batch_action(p: Seq<Seq<char>>, o: OptionValues<Seq<char>>) -> Option<BatchAction<Seq<char>>> {
    if p.len() == 1 && p[0] == "apply"@ && group_options(o, GroupMask { file: true, ..bare_mask(true) }) {
        Some(BatchAction::Apply { file: o.file })
    } else {
        None
    }
}

// ---------------------------------------------------------------------------
// Reading the actions
// ---------------------------------------------------------------------------

pub(crate) fn mission_action_exec(words: &Vec<String>, o: &OptionValues<String>) -> (r: Option<MissionAction<String>>)
    requires
        words@.len() >= 1,
    ensures
        match r {
            Some(x) => mission_action(words_view(words@).drop_first(), o@) == Some(x@),
            None => mission_action(words_view(words@).drop_first(), o@) is None,
        },
{
    let ghost p = words_view(words@).drop_first();
    let n = words.len() - 1;
    proof { assert(p.len() == n); }
    if n == 0 {
        return None;
    }
    proof { assert(p[0] == words@[1]@); }
    if n >= 2 {
        proof { assert(p[1] == words@[2]@); }
    }
    let a = words[1].as_str();
    let with_file = group_options_exec(o, GroupMask { file: true, ..bare_mask_exec(true) });
    let bare = group_options_exec(o, bare_mask_exec(true));
    if str_eq(a, "list") && n == 1
        && group_options_exec(o, GroupMask { mission_id: true, status: true, parent_id: true, ..bare_mask_exec(true) }) {
        let status = match &o.status {
            Some(t) => match mission_status_arg_exec(t.as_str()) {
                Some(s) => Some(s),
                None => return None,
            },
            None => None,
        };
        Some(MissionAction::List { mission_id: copy_opt(&o.mission_id), status, parent_id: copy_opt(&o.parent_id) })
    } else if str_eq(a, "create") && n == 1 && with_file {
        Some(MissionAction::Create { file: copy_opt(&o.file) })
    } else if str_eq(a, "update") && n == 1 && with_file {
        Some(MissionAction::Update { file: copy_opt(&o.file) })
    } else if str_eq(a, "complete") && n == 2 && bare {
        Some(MissionAction::Complete { mission_id: words[2].clone() })
    } else if str_eq(a, "archive") && n == 2 && bare {
        Some(MissionAction::Archive { mission_id: words[2].clone() })
    } else if str_eq(a, "delete") && n == 2 && bare {
        Some(MissionAction::Delete { mission_id: words[2].clone() })
    } else if str_eq(a, "suggestion-list") && n == 1
        && group_options_exec(o, GroupMask { suggestion_id: true, status: true, ..bare_mask_exec(true) }) {
        let status = match &o.status {
            Some(t) => match suggestion_status_arg_exec(t.as_str()) {
                Some(s) => Some(s),
                None => return None,
            },
            None => None,
        };
        Some(MissionAction::SuggestionList { suggestion_id: copy_opt(&o.suggestion_id), status })
    } else if str_eq(a, "suggest") && n == 1 && with_file {
        Some(MissionAction::Suggest { file: copy_opt(&o.file) })
    } else if str_eq(a, "accept") && n == 2 && bare {
        Some(MissionAction::Accept { suggestion_id: words[2].clone() })
    } else if str_eq(a, "reject") && n == 2 && bare {
        Some(MissionAction::Reject { suggestion_id: words[2].clone() })
    } else if str_eq(a, "suggestion-delete") && n == 2 && bare {
        Some(MissionAction::SuggestionDelete { suggestion_id: words[2].clone() })
    } else {
        None
    }
}

pub(crate) fn memory_action_exec(words: &Vec<String>, o: &OptionValues<String>) -> (r: Option<MemoryAction<String>>)
    requires
        words@.len() >= 1,
    ensures
        match r {
            Some(x) => memory_action(words_view(words@).drop_first(), o@) == Some(x@),
            None => memory_action(words_view(words@).drop_first(), o@) is None,
        },
{
    let ghost p = words_view(words@).drop_first();
    let n = words.len() - 1;
    proof { assert(p.len() == n); }
    if n == 0 {
        return None;
    }
    proof { assert(p[0] == words@[1]@); }
    if n >= 2 {
        proof { assert(p[1] == words@[2]@); }
    }
    let a = words[1].as_str();
    let with_file = group_options_exec(o, GroupMask { file: true, ..bare_mask_exec(true) });
    if str_eq(a, "list") && n == 1 && group_options_exec(o, GroupMask { memory_id: true, kind: true, ..bare_mask_exec(true) }) {
        let kind = match &o.kind {
            Some(t) => match memory_kind_arg_exec(t.as_str()) {
                Some(k) => Some(k),
                None => return None,
            },
            None => None,
        };
        Some(MemoryAction::List { memory_id: copy_opt(&o.memory_id), kind })
    } else if str_eq(a, "create") && n == 1 && with_file {
        Some(MemoryAction::Create { file: copy_opt(&o.file) })
    } else if str_eq(a, "update") && n == 1 && with_file {
        Some(MemoryAction::Update { file: copy_opt(&o.file) })
    } else if str_eq(a, "delete") && n == 2 && group_options_exec(o, bare_mask_exec(true)) {
        Some(MemoryAction::Delete { memory_id: words[2].clone() })
    } else {
        None
    }
}

pub(crate) fn achievement_action_exec(words: &Vec<String>, o: &OptionValues<String>) -> (r: Option<AchievementAction<String>>)
    requires
        words@.len() >= 1,
    ensures
        match r {
            Some(x) => achievement_action(words_view(words@).drop_first(), o@) == Some(x@),
            None => achievement_action(words_view(words@).drop_first(), o@) is None,
        },
{
    let ghost p = words_view(words@).drop_first();
    let n = words.len() - 1;
    proof { assert(p.len() == n); }
    if n == 0 {
        return None;
    }
    proof { assert(p[0] == words@[1]@); }
    if n >= 2 {
        proof { assert(p[1] == words@[2]@); }
    }
    let a = words[1].as_str();
    if str_eq(a, "list") && n == 1 && group_options_exec(o, GroupMask {
        achievement_id: true, pack: true, status: true, related_record_definition_id: true, ..bare_mask_exec(false)
    }) {
        let status = match &o.status {
            Some(t) => match achievement_status_arg_exec(t.as_str()) {
                Some(s) => Some(s),
                None => return None,
            },
            None => None,
        };
        Some(AchievementAction::List {
            achievement_id: copy_opt(&o.achievement_id),
            pack: copy_opt(&o.pack),
            status,
            related_record_definition_id: copy_opt(&o.related_record_definition_id),
        })
    } else if str_eq(a, "state-set") && n == 1 && group_options_exec(o, GroupMask { file: true, ..bare_mask_exec(false) }) {
        Some(AchievementAction::StateSet { file: copy_opt(&o.file) })
    } else if str_eq(a, "state-revoke") && n == 2 && group_options_exec(o, bare_mask_exec(false)) {
        Some(AchievementAction::StateRevoke { achievement_id: words[2].clone() })
    } else {
        None
    }
}

pub(crate) fn skill_action_exec(words: &Vec<String>, o: &OptionValues<String>) -> (r: Option<SkillAction<String>>)
    requires
        words@.len() >= 1,
    ensures
        match r {
            Some(x) => skill_action(words_view(words@).drop_first(), o@) == Some(x@),
            None => skill_action(words_view(words@).drop_first(), o@) is None,
        },
{
    let ghost p = words_view(words@).drop_first();
    let n = words.len() - 1;
    proof { assert(p.len() == n); }
    if n != 1 {
        return None;
    }
    proof { assert(p[0] == words@[1]@); }
    if str_eq(words[1].as_str(), "list") && group_options_exec(o, GroupMask { skill_id: true, pack: true, ..bare_mask_exec(false) }) {
        Some(SkillAction::List { skill_id: copy_opt(&o.skill_id), pack: copy_opt(&o.pack) })
    } else {
        None
    }
}

pub(crate) fn status_action_exec(words: &Vec<String>, o: &OptionValues<String>) -> (r: Option<StatusAction<String>>)
    requires
        words@.len() >= 1,
    ensures
        match r {
            Some(x) => status_action(words_view(words@).drop_first(), o@) == Some(x@),
            None => status_action(words_view(words@).drop_first(), o@) is None,
        },
{
    let ghost p = words_view(words@).drop_first();
    let n = words.len() - 1;
    proof { assert(p.len() == n); }
    if n == 0 {
        return None;
    }
    proof { assert(p[0] == words@[1]@); }
    if n >= 2 {
        proof { assert(p[1] == words@[2]@); }
    }
    if n >= 3 {
        proof { assert(p[2] == words@[3]@); }
    }
    let a = words[1].as_str();
    let bare = group_options_exec(o, bare_mask_exec(true));
    if str_eq(a, "list-dimensions") && n == 1 && bare {
        Some(StatusAction::ListDimensions)
    } else if str_eq(a, "evaluate") && (n == 1 || n == 2) && bare {
        let dimension_id = if n == 2 { Some(words[2].clone()) } else { None };
        Some(StatusAction::Evaluate { dimension_id })
    } else if str_eq(a, "select") && (n == 2 || n == 3) && group_options_exec(o, GroupMask { clear: true, ..bare_mask_exec(true) }) {
        match parse_unsigned(words[2].as_str(), 255) {
            Some(v) => {
                let dimension_id = if n == 3 { Some(words[3].clone()) } else { None };
                Some(StatusAction::Select { position: v as u8, dimension_id, clear: o.clear })
            },
            None => None,
        }
    } else {
        None
    }
}

pub(crate) fn context_action_exec(words: &Vec<String>, o: &OptionValues<String>) -> (r: Option<ContextAction>)
    requires
        words@.len() >= 1,
    ensures
        r == context_action(words_view(words@).drop_first(), o@),
{
    let ghost p = words_view(words@).drop_first();
    let n = words.len() - 1;
    proof { assert(p.len() == n); }
    if n != 1 {
        return None;
    }
    proof { assert(p[0] == words@[1]@); }
    if str_eq(words[1].as_str(), "summary") && group_options_exec(o, bare_mask_exec(false)) {
        Some(ContextAction::Summary)
    } else {
        None
    }
}

pub(crate) fn derived_action_exec(words: &Vec<String>, o: &OptionValues<String>) -> (r: Option<DerivedAction<String>>)
    requires
        words@.len() >= 1,
    ensures
        match r {
            Some(x) => derived_action(words_view(words@).drop_first(), o@) == Some(x@),
            None => derived_action(words_view(words@).drop_first(), o@) is None,
        },
{
    let ghost p = words_view(words@).drop_first();
    let n = words.len() - 1;
    proof { assert(p.len() == n); }
    if n == 0 {
        return None;
    }
    proof { assert(p[0] == words@[1]@); }
    if n >= 2 {
        proof { assert(p[1] == words@[2]@); }
    }
    let with_date = group_options_exec(o, GroupMask { as_of: true, ..bare_mask_exec(false) });
    if n == 1 && str_eq(words[1].as_str(), "list") && with_date {
        Some(DerivedAction::List { as_of: copy_opt(&o.as_of) })
    } else if n == 2 && str_eq(words[1].as_str(), "evaluate") && with_date {
        Some(DerivedAction::Evaluate { id: words[2].clone(), as_of: copy_opt(&o.as_of) })
    } else {
        None
    }
}

pub(crate) fn batch_action_exec(words: &Vec<String>, o: &OptionValues<String>) -> (r: Option<BatchAction<String>>)
    requires
        words@.len() >= 1,
    ensures
        match r {
            Some(x) => batch_action(words_view(words@).drop_first(), o@) == Some(x@),
            None => batch_action(words_view(words@).drop_first(), o@) is None,
        },
{
    let ghost p = words_view(words@).drop_first();
    let n = words.len() - 1;
    proof { assert(p.len() == n); }
    if n != 1 {
        return None;
    }
    proof { assert(p[0] == words@[1]@); }
    if str_eq(words[1].as_str(), "apply") && group_options_exec(o, GroupMask { file: true, ..bare_mask_exec(true) }) {
        Some(BatchAction::Apply { file: copy_opt(&o.file) })
    } else {
        None
    }
}

} // verus!
