//! The Mission dashboards shown by the application: every Mission and
//! pending suggestion with the days left to its deadline, and the main-menu
//! dashboard built from the four device-local slot selections.
use vstd::prelude::*;
use crate::clock::today_utc;
use crate::date::{days_from_civil, epoch_day, parse_date, parse_date_spec, CalendarDate};
use crate::json::JsonValue;
use crate::record::{Record, RecordModel};
use crate::repository::{Repository, RepositoryModel};
use crate::state::{
    DashboardMissionSelection, DashboardMissionSelections, DashboardMissionSlot, Mission, MissionStatus,
    MissionSuggestion, MissionSuggestionStatus,
};

verus! {

#[derive(Debug, Clone, PartialEq, Eq)]
pub struct MissionDashboardItem {
    pub mission: Mission,
    pub days_remaining: Option<i64>,
}

#[derive(Debug, Clone, PartialEq, Eq)]
pub struct MissionSuggestionDashboardItem {
    pub suggestion: MissionSuggestion,
    pub days_remaining: Option<i64>,
}

#[derive(Debug, Clone, PartialEq, Eq)]
pub struct MissionDashboardData {
    pub missions: Vec<MissionDashboardItem>,
    pub suggestions: Vec<MissionSuggestionDashboardItem>,
}

#[derive(Debug, Clone, PartialEq, Eq)]
pub struct CountdownDisplay {
    pub label: String,
    pub short_desc: String,
    pub days_remaining: i64,
}

#[derive(Debug, Clone, PartialEq, Eq)]
pub struct HintDisplay {
    pub short_desc: String,
}

#[derive(Debug, Clone, PartialEq, Eq)]
pub struct ProgressDisplay {
    pub label: String,
    pub progress: u8,
}

#[derive(Debug, Clone, PartialEq, Eq)]
pub struct MissionMenuDashboardData {
    pub countdown: Option<CountdownDisplay>,
    pub hints: Vec<HintDisplay>,
    pub progress: Option<ProgressDisplay>,
    pub selections: DashboardMissionSelections,
    pub unresolved_slots: Vec<DashboardMissionSlot>,
}

/// The label a countdown shows when its selection names none.
pub open spec fn default_countdown_label() -> Seq<char> {
    "任务期限"@
}

/// Days from `today` to a deadline written `YYYY-MM-DD`; nothing when there
/// is no deadline or it is not such a date.
pub open spec fn days_remaining_spec(deadline: Option<String>, today: CalendarDate) -> Option<int> {
    match deadline {
        Some(t) => match parse_date_spec(t@) {
            Some((y, m, d)) => Some(epoch_day(y, m, d) - epoch_day(today.year as int, today.month as int, today.day as int)),
            None => None,
        },
        None => None,
    }
}

/// The days from `today` to the deadline.
pub fn deadline_days_remaining(deadline: &Option<String>, today: CalendarDate) -> (r: Option<i64>)
    requires
        today.is_valid(),
    ensures
        r matches Some(v) ==> days_remaining_spec(*deadline, today) == Some(v as int),
        r is None ==> days_remaining_spec(*deadline, today) is None,
{
    match deadline {
        Some(text) => match parse_date(text.as_str()) {
            Some(date) => {
                let deadline_days = days_from_civil(date.year, date.month, date.day);
                let today_days = days_from_civil(today.year, today.month, today.day);
                Some(deadline_days - today_days)
            },
            None => None,
        },
        None => None,
    }
}

// ---------------------------------------------------------------------------
// The list dashboard
// ---------------------------------------------------------------------------

pub open spec fn is_pending(s: MissionSuggestion) -> bool {
    s.status == MissionSuggestionStatus::Pending
}

pub open spec fn pending_filter() -> spec_fn(MissionSuggestion) -> bool {
    |s: MissionSuggestion| is_pending(s)
}

/// Every Mission in stored order and every pending suggestion in stored
/// order, each with the days left to its deadline.
pub open spec fn mission_dashboard_holds(m: RepositoryModel, today: CalendarDate, r: MissionDashboardData) -> bool {
    let pending = m.suggestions.filter(pending_filter());
    &&& r.missions@.len() == m.missions.len()
    &&& forall|i: int| 0 <= i < m.missions.len() ==> {
        &&& (#[trigger] r.missions@[i]).mission == m.missions[i]
        &&& match r.missions@[i].days_remaining {
            Some(v) => days_remaining_spec(m.missions[i].deadline, today) == Some(v as int),
            None => days_remaining_spec(m.missions[i].deadline, today) is None,
        }
    }
    &&& r.suggestions@.len() == pending.len()
    &&& forall|i: int| 0 <= i < pending.len() ==> {
        &&& (#[trigger] r.suggestions@[i]).suggestion == pending[i]
        &&& match r.suggestions@[i].days_remaining {
            Some(v) => days_remaining_spec(pending[i].deadline, today) == Some(v as int),
            None => days_remaining_spec(pending[i].deadline, today) is None,
        }
    }
}

/// `build_mission_dashboard` on a given day.
pub fn build_mission_dashboard_on(repository: &Repository, today: CalendarDate) -> (r: MissionDashboardData)
    requires
        today.is_valid(),
    ensures
        mission_dashboard_holds(repository@, today, r),
{
    let ghost m = repository@;
    let mut missions: Vec<MissionDashboardItem> = Vec::new();
    let mut k: usize = 0;
    while k < repository.missions.len()
        invariant
            k <= repository.missions@.len(),
            m == repository@,
            today.is_valid(),
            missions@.len() == k,
            forall|i: int| 0 <= i < k ==> {
                &&& (#[trigger] missions@[i]).mission == m.missions[i]
                &&& match missions@[i].days_remaining {
                    Some(v) => days_remaining_spec(m.missions[i].deadline, today) == Some(v as int),
                    None => days_remaining_spec(m.missions[i].deadline, today) is None,
                }
            },
        decreases repository.missions.len() - k,
    {
        let mission = repository.missions[k].copied();
        let days = deadline_days_remaining(&mission.deadline, today);
        missions.push(MissionDashboardItem { mission, days_remaining: days });
        k = k + 1;
    }
    let ghost s = m.suggestions;
    proof { crate::seqs::lemma_filter_ends(s, pending_filter()); }
    let mut suggestions: Vec<MissionSuggestionDashboardItem> = Vec::new();
    let ghost mut chosen: Seq<MissionSuggestion> = Seq::empty();
    let mut j: usize = 0;
    while j < repository.suggestions.len()
        invariant
            j <= s.len(),
            s == repository@.suggestions,
            today.is_valid(),
            chosen == s.take(j as int).filter(pending_filter()),
            suggestions@.len() == chosen.len(),
            forall|i: int| 0 <= i < chosen.len() ==> {
                &&& (#[trigger] suggestions@[i]).suggestion == chosen[i]
                &&& match suggestions@[i].days_remaining {
                    Some(v) => days_remaining_spec(chosen[i].deadline, today) == Some(v as int),
                    None => days_remaining_spec(chosen[i].deadline, today) is None,
                }
            },
        decreases repository.suggestions.len() - j,
    {
        proof { crate::seqs::lemma_filter_step(s, pending_filter(), j as int); }
        if repository.suggestions[j].status == MissionSuggestionStatus::Pending {
            let suggestion = repository.suggestions[j].copied();
            let days = deadline_days_remaining(&suggestion.deadline, today);
            proof { chosen = chosen.push(suggestion); }
            suggestions.push(MissionSuggestionDashboardItem { suggestion, days_remaining: days });
        }
        j = j + 1;
    }
    MissionDashboardData { missions, suggestions }
}

/// The dashboard as of today.
pub fn build_mission_dashboard(repository: &Repository) -> (r: MissionDashboardData)
    ensures
        exists|today: CalendarDate| today.is_valid() && mission_dashboard_holds(repository@, today, r),
{
    let today = today_utc();
    build_mission_dashboard_on(repository, today)
}

// ---------------------------------------------------------------------------
// The main-menu dashboard
// ---------------------------------------------------------------------------

/// The Mission a slot shows: `Ok(None)` when the slot is empty,
/// `Err(())` when the selected Mission is missing or no longer active.
pub open spec fn slot_choice(m: RepositoryModel, slot: DashboardMissionSlot) -> Result<Option<(DashboardMissionSelection, Mission)>, ()> {
    match m.dashboard_selections.slot(slot) {
        None => Ok(None),
        Some(sel) => match m.mission_index(sel.mission_id@) {
            None => Err(()),
            Some(i) => if m.missions[i].status == MissionStatus::Active {
                Ok(Some((sel, m.missions[i])))
            } else {
                Err(())
            },
        },
    }
}

pub open spec fn label_or(label: Option<String>, fallback: Seq<char>) -> Seq<char> {
    match label {
        Some(l) => l@,
        None => fallback,
    }
}

/// The countdown shown, as (label, short description, days), and whether
/// the slot is unresolved: a selected active Mission is shown when its
/// deadline is between 0 and 99 days away.
pub open spec fn countdown_spec(m: RepositoryModel, today: CalendarDate) -> (Option<(Seq<char>, Seq<char>, int)>, bool) {
    match slot_choice(m, DashboardMissionSlot::Countdown) {
        Err(_) => (None, true),
        Ok(None) => (None, false),
        Ok(Some((sel, mission))) => match days_remaining_spec(mission.deadline, today) {
            Some(d) => if 0 <= d <= 99 {
                (Some((label_or(sel.label, default_countdown_label()), mission.title@, d)), false)
            } else {
                (None, true)
            },
            None => (None, true),
        },
    }
}

/// The progress shown, as (label, progress), and whether the slot is
/// unresolved.
pub open spec fn progress_spec(m: RepositoryModel) -> (Option<(Seq<char>, u8)>, bool) {
    match slot_choice(m, DashboardMissionSlot::Progress) {
        Err(_) => (None, true),
        Ok(None) => (None, false),
        Ok(Some((sel, mission))) => (Some((
            label_or(sel.label, mission.title@),
            match mission.progress { Some(p) => p, None => 0u8 },
        )), false),
    }
}

/// The hint a slot shows, if any.
pub open spec fn hint_spec(m: RepositoryModel, slot: DashboardMissionSlot) -> Seq<Seq<char>> {
    match slot_choice(m, slot) {
        Ok(Some((_sel, mission))) => seq![mission.title@],
        _ => Seq::empty(),
    }
}

pub open spec fn unresolved_if(b: bool, slot: DashboardMissionSlot) -> Seq<DashboardMissionSlot> {
    if b { seq![slot] } else { Seq::empty() }
}

/// The slots that name a Mission that cannot be shown, in slot order.
pub open spec fn unresolved_spec(m: RepositoryModel, today: CalendarDate) -> Seq<DashboardMissionSlot> {
    unresolved_if(countdown_spec(m, today).1, DashboardMissionSlot::Countdown)
        + unresolved_if(progress_spec(m).1, DashboardMissionSlot::Progress)
        + unresolved_if(slot_choice(m, DashboardMissionSlot::Hint1) is Err, DashboardMissionSlot::Hint1)
        + unresolved_if(slot_choice(m, DashboardMissionSlot::Hint2) is Err, DashboardMissionSlot::Hint2)
}

pub open spec fn countdown_view(c: Option<CountdownDisplay>) -> Option<(Seq<char>, Seq<char>, int)> {
    match c {
        Some(c) => Some((c.label@, c.short_desc@, c.days_remaining as int)),
        None => None,
    }
}

pub open spec fn progress_view(p: Option<ProgressDisplay>) -> Option<(Seq<char>, u8)> {
    match p {
        Some(p) => Some((p.label@, p.progress)),
        None => None,
    }
}

pub open spec fn hints_view(h: Seq<HintDisplay>) -> Seq<Seq<char>> {
    h.map_values(|d: HintDisplay| d.short_desc@)
}

/// The main-menu dashboard of `m` on `today`.
pub open spec fn menu_dashboard_holds(m: RepositoryModel, today: CalendarDate, r: MissionMenuDashboardData) -> bool {
    &&& countdown_view(r.countdown) == countdown_spec(m, today).0
    &&& progress_view(r.progress) == progress_spec(m).0
    &&& hints_view(r.hints@) == hint_spec(m, DashboardMissionSlot::Hint1) + hint_spec(m, DashboardMissionSlot::Hint2)
    &&& r.selections == m.dashboard_selections
    &&& r.unresolved_slots@ == unresolved_spec(m, today)
}

/// The position of the active Mission a slot
/// selects.
fn selected_active_mission(repository: &Repository, slot: DashboardMissionSlot) -> (r: Result<Option<usize>, ()>)
    ensures
        match slot_choice(repository@, slot) {
            Err(_) => r is Err,
            Ok(None) => r == Ok::<Option<usize>, ()>(None),
            Ok(Some((_sel, mission))) => r matches Ok(Some(i)) && i < repository.missions@.len()
                && repository@.missions[i as int] == mission
                && repository@.mission_index(repository@.dashboard_selections.slot(slot).unwrap().mission_id@) == Some(i as int),
        },
{
    match repository.dashboard_selections.get(slot) {
        None => Ok(None),
        Some(selection) => match repository.find_mission(selection.mission_id.as_str()) {
            None => Err(()),
            Some(i) => {
                if repository.missions[i].status == MissionStatus::Active {
                    Ok(Some(i))
                } else {
                    Err(())
                }
            },
        },
    }
}

fn copy_label(label: &Option<String>, fallback: &str) -> (r: String)
    ensures
        r@ == label_or(*label, fallback@),
{
    match label {
        Some(l) => l.clone(),
        None => String::from_str(fallback),
    }
}

/// `build_mission_menu_dashboard` on a given day.
pub fn build_mission_menu_dashboard_on(repository: &Repository, today: CalendarDate) -> (r: MissionMenuDashboardData)
    requires
        today.is_valid(),
    ensures
        menu_dashboard_holds(repository@, today, r),
{
    let ghost m = repository@;
    let selections = repository.dashboard_selections.copied();
    let mut unresolved_slots: Vec<DashboardMissionSlot> = Vec::new();

    let countdown = match selected_active_mission(repository, DashboardMissionSlot::Countdown) {
        Ok(Some(i)) => {
            let mission = &repository.missions[i];
            let selection = repository.dashboard_selections.get(DashboardMissionSlot::Countdown).unwrap();
            match deadline_days_remaining(&mission.deadline, today) {
                Some(days) => {
                    if 0 <= days && days <= 99 {
                        Some(CountdownDisplay {
                            label: copy_label(&selection.label, "任务期限"),
                            short_desc: mission.title.clone(),
                            days_remaining: days,
                        })
                    } else {
                        unresolved_slots.push(DashboardMissionSlot::Countdown);
                        None
                    }
                },
                None => {
                    unresolved_slots.push(DashboardMissionSlot::Countdown);
                    None
                },
            }
        },
        Ok(None) => None,
        Err(()) => {
            unresolved_slots.push(DashboardMissionSlot::Countdown);
            None
        },
    };
    proof {
        assert(unresolved_slots@ == unresolved_if(countdown_spec(m, today).1, DashboardMissionSlot::Countdown));
    }

    let progress = match selected_active_mission(repository, DashboardMissionSlot::Progress) {
        Ok(Some(i)) => {
            let mission = &repository.missions[i];
            let selection = repository.dashboard_selections.get(DashboardMissionSlot::Progress).unwrap();
            Some(ProgressDisplay {
                label: copy_label(&selection.label, mission.title.as_str()),
                progress: match mission.progress {
                    Some(p) => p,
                    None => 0,
                },
            })
        },
        Ok(None) => None,
        Err(()) => {
            unresolved_slots.push(DashboardMissionSlot::Progress);
            None
        },
    };
    let ghost after_progress = unresolved_slots@;
    proof {
        assert(after_progress == unresolved_if(countdown_spec(m, today).1, DashboardMissionSlot::Countdown)
            + unresolved_if(progress_spec(m).1, DashboardMissionSlot::Progress));
    }

    let mut hints: Vec<HintDisplay> = Vec::new();
    match selected_active_mission(repository, DashboardMissionSlot::Hint1) {
        Ok(Some(i)) => hints.push(HintDisplay { short_desc: repository.missions[i].title.clone() }),
        Ok(None) => {},
        Err(()) => unresolved_slots.push(DashboardMissionSlot::Hint1),
    }
    let ghost after_hint1 = unresolved_slots@;
    proof {
        assert(hints_view(hints@) == hint_spec(m, DashboardMissionSlot::Hint1));
        assert(after_hint1 == after_progress + unresolved_if(slot_choice(m, DashboardMissionSlot::Hint1) is Err, DashboardMissionSlot::Hint1));
    }
    let ghost hints1 = hints@;
    match selected_active_mission(repository, DashboardMissionSlot::Hint2) {
        Ok(Some(i)) => hints.push(HintDisplay { short_desc: repository.missions[i].title.clone() }),
        Ok(None) => {},
        Err(()) => unresolved_slots.push(DashboardMissionSlot::Hint2),
    }
    proof {
        assert(hints_view(hints@) == hints_view(hints1) + hint_spec(m, DashboardMissionSlot::Hint2));
        assert(unresolved_slots@ == after_hint1 + unresolved_if(slot_choice(m, DashboardMissionSlot::Hint2) is Err, DashboardMissionSlot::Hint2));
    }

    MissionMenuDashboardData { countdown, hints, progress, selections, unresolved_slots }
}

/// The main-menu dashboard as of today.
pub fn build_mission_menu_dashboard(repository: &Repository) -> (r: MissionMenuDashboardData)
    ensures
        exists|today: CalendarDate| today.is_valid() && menu_dashboard_holds(repository@, today, r),
{
    let today = today_utc();
    build_mission_menu_dashboard_on(repository, today)
}

// ---------------------------------------------------------------------------
// The status dashboard's identity
// ---------------------------------------------------------------------------

/// The name shown when the user has given none.
pub const DEFAULT_USERNAME: &'static str = "Trickster";

/// Rust's `char::is_whitespace`: the Unicode `White_Space` characters.
pub open spec fn is_unicode_whitespace(c: char) -> bool {
    ||| ('\u{9}' <= c && c <= '\u{d}')
    ||| c == ' '
    ||| c == '\u{85}'
    ||| c == '\u{a0}'
    ||| c == '\u{1680}'
    ||| ('\u{2000}' <= c && c <= '\u{200a}')
    ||| c == '\u{2028}'
    ||| c == '\u{2029}'
    ||| c == '\u{202f}'
    ||| c == '\u{205f}'
    ||| c == '\u{3000}'
}

/// Nothing but whitespace: what trims to nothing.
pub open spec fn blank(s: Seq<char>) -> bool {
    forall|i: int| 0 <= i < s.len() ==> is_unicode_whitespace(#[trigger] s[i])
}

pub fn is_whitespace_char(c: char) -> (r: bool)
    ensures
        r == is_unicode_whitespace(c),
{
    ('\u{9}' <= c && c <= '\u{d}') || c == ' ' || c == '\u{85}' || c == '\u{a0}' || c == '\u{1680}'
        || ('\u{2000}' <= c && c <= '\u{200a}') || c == '\u{2028}' || c == '\u{2029}' || c == '\u{202f}'
        || c == '\u{205f}' || c == '\u{3000}'
}

fn is_blank(s: &str) -> (r: bool)
    ensures
        r == blank(s@),
{
    let n = s.unicode_len();
    let mut k: usize = 0;
    while k < n
        invariant
            n == s@.len(),
            k <= n,
            forall|i: int| 0 <= i < k ==> is_unicode_whitespace(#[trigger] s@[i]),
        decreases n - k,
    {
        if !is_whitespace_char(s.get_char(k)) {
            return false;
        }
        k = k + 1;
    }
    true
}

/// The text of a scalar Record holding a JSON string.
pub open spec fn scalar_text(m: RepositoryModel, id: Seq<char>) -> Option<Seq<char>> {
    match m.record(id) {
        Some(RecordModel::Scalar(s)) => match s.value {
            JsonValue::Str(t) => Some(t@),
            _ => None,
        },
        _ => None,
    }
}

fn scalar_text_exec<'a>(repository: &'a Repository, id: &str) -> (r: Option<&'a str>)
    ensures
        match scalar_text(repository@, id@) {
            Some(t) => r matches Some(u) && u@ == t,
            None => r is None,
        },
{
    match repository.find_record(id) {
        Some(i) => {
            proof { assert(repository@.records[i as int] == repository.records@[i as int]@); }
            match &repository.records[i] {
                Record::Scalar(s) => s.value.as_str(),
                _ => None,
            }
        },
        None => None,
    }
}

/// The name shown: the nickname unless it is blank.
pub open spec fn username_spec(m: RepositoryModel) -> Seq<char> {
    match scalar_text(m, "identity.nickname"@) {
        Some(t) => if blank(t) { DEFAULT_USERNAME@ } else { t },
        None => DEFAULT_USERNAME@,
    }
}

/// Days since the birth date, when it is a date no later than `today`.
pub open spec fn game_days_spec(m: RepositoryModel, today: CalendarDate) -> Option<int> {
    match scalar_text(m, "identity.birth_date"@) {
        Some(t) => match parse_date_spec(t) {
            Some((y, mo, d)) => {
                let n = epoch_day(today.year as int, today.month as int, today.day as int) - epoch_day(y, mo, d);
                if n >= 0 { Some(n) } else { None }
            },
            None => None,
        },
        None => None,
    }
}

/// The identity the status dashboard shows.
#[derive(Debug, Clone, PartialEq, Eq)]
pub struct StatusIdentity {
    pub username: String,
    pub game_days: Option<u64>,
}

/// The days from a `YYYY-MM-DD` date to `today`.
pub fn days_since(date: &str, today: CalendarDate) -> (r: Option<u64>)
    requires
        today.is_valid(),
    ensures
        match parse_date_spec(date@) {
            Some((y, mo, d)) => {
                let n = epoch_day(today.year as int, today.month as int, today.day as int) - epoch_day(y, mo, d);
                if n >= 0 { r == Some(n as u64) } else { r is None }
            },
            None => r is None,
        },
{
    match parse_date(date) {
        Some(born) => {
            let then = days_from_civil(born.year, born.month, born.day);
            let now = days_from_civil(today.year, today.month, today.day);
            if now >= then {
                Some((now - then) as u64)
            } else {
                None
            }
        },
        None => None,
    }
}

/// The status dashboard's name and game days on a given day.
pub fn status_identity_on(repository: &Repository, today: CalendarDate) -> (r: StatusIdentity)
    requires
        today.is_valid(),
    ensures
        r.username@ == username_spec(repository@),
        match game_days_spec(repository@, today) {
            Some(n) => r.game_days == Some(n as u64),
            None => r.game_days is None,
        },
{
    let username = match scalar_text_exec(repository, "identity.nickname") {
        Some(t) => if is_blank(t) { String::from_str(DEFAULT_USERNAME) } else { String::from_str(t) },
        None => String::from_str(DEFAULT_USERNAME),
    };
    let game_days = match scalar_text_exec(repository, "identity.birth_date") {
        Some(t) => days_since(t, today),
        None => None,
    };
    StatusIdentity { username, game_days }
}

/// The status dashboard's name and game days as of today.
pub fn status_identity(repository: &Repository) -> (r: StatusIdentity)
    ensures
        exists|today: CalendarDate| today.is_valid() && r.username@ == username_spec(repository@)
            && match game_days_spec(repository@, today) {
                Some(n) => r.game_days == Some(n as u64),
                None => r.game_days is None,
            },
{
    let today = today_utc();
    status_identity_on(repository, today)
}

} // verus!
