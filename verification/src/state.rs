//! User-owned state besides Records: Achievement states, Missions, Mission
//! suggestions, assistant memory, and the device-local display selections.
use vstd::prelude::*;
use crate::record::copy_opt_string;

verus! {

#[derive(Debug, Clone, Copy, PartialEq, Eq, Structural)]
pub enum AchievementStatus {
    Tracking,
    Achieved,
}

#[derive(Debug, Clone, PartialEq, Eq)]
pub struct AchievementState {
    pub status: AchievementStatus,
    pub achieved_at: Option<String>,
}

impl AchievementState {
    pub open spec fn spec_is_achieved(&self) -> bool {
        self.status == AchievementStatus::Achieved
    }

    /// Only achieved milestones unlock prerequisites and contribute points.
    pub fn is_achieved(&self) -> (r: bool)
        ensures
            r == self.spec_is_achieved(),
    {
        self.status == AchievementStatus::Achieved
    }

    pub fn copied(&self) -> (r: Self)
        ensures
            r == *self,
    {
        AchievementState { status: self.status, achieved_at: copy_opt_string(&self.achieved_at) }
    }
}

#[derive(Debug, Clone, Copy, PartialEq, Eq, Structural)]
pub enum MissionStatus {
    Active,
    Completed,
    Archived,
}

#[derive(Debug, Clone, Copy, PartialEq, Eq, Structural)]
pub enum MissionDifficulty {
    S,
    A,
    B,
    C,
    D,
}

#[derive(Debug, Clone, PartialEq, Eq)]
pub struct Mission {
    pub id: String,
    pub title: String,
    pub description: Option<String>,
    pub status: MissionStatus,
    pub progress: Option<u8>,
    pub difficulty: Option<MissionDifficulty>,
    pub deadline: Option<String>,
    pub parent_id: Option<String>,
    pub created_at: String,
    pub completed_at: Option<String>,
}

impl Mission {
    pub fn copied(&self) -> (r: Self)
        ensures
            r == *self,
    {
        Mission {
            id: self.id.clone(),
            title: self.title.clone(),
            description: copy_opt_string(&self.description),
            status: self.status,
            progress: self.progress,
            difficulty: self.difficulty,
            deadline: copy_opt_string(&self.deadline),
            parent_id: copy_opt_string(&self.parent_id),
            created_at: self.created_at.clone(),
            completed_at: copy_opt_string(&self.completed_at),
        }
    }
}

#[derive(Debug, Clone, Copy, PartialEq, Eq, Structural)]
pub enum MissionSuggestionStatus {
    Pending,
    Rejected,
}

#[derive(Debug, Clone, PartialEq, Eq)]
pub struct MissionSuggestion {
    pub id: String,
    pub title: String,
    pub description: Option<String>,
    pub difficulty: Option<MissionDifficulty>,
    pub deadline: Option<String>,
    pub parent_mission_id: Option<String>,
    pub reason: Option<String>,
    pub generated_at: String,
    pub status: MissionSuggestionStatus,
}

impl MissionSuggestion {
    pub fn copied(&self) -> (r: Self)
        ensures
            r == *self,
    {
        MissionSuggestion {
            id: self.id.clone(),
            title: self.title.clone(),
            description: copy_opt_string(&self.description),
            difficulty: self.difficulty,
            deadline: copy_opt_string(&self.deadline),
            parent_mission_id: copy_opt_string(&self.parent_mission_id),
            reason: copy_opt_string(&self.reason),
            generated_at: self.generated_at.clone(),
            status: self.status,
        }
    }
}

#[derive(Debug, Clone, Copy, PartialEq, Eq, Structural)]
pub enum AssistantMemoryKind {
    Focus,
    Preference,
    Constraint,
    Habit,
    Summary,
    Reminder,
    Observation,
}

#[derive(Debug, Clone, PartialEq, Eq)]
pub struct AssistantMemory {
    pub id: String,
    pub kind: AssistantMemoryKind,
    pub content: String,
    pub created_at: String,
    pub updated_at: String,
}

impl AssistantMemory {
    pub fn copied(&self) -> (r: Self)
        ensures
            r == *self,
    {
        AssistantMemory {
            id: self.id.clone(),
            kind: self.kind,
            content: self.content.clone(),
            created_at: self.created_at.clone(),
            updated_at: self.updated_at.clone(),
        }
    }
}

/// A device-local assignment of a Status Dimension to one of the five display
/// positions.
#[derive(Debug, Clone, PartialEq, Eq)]
pub struct StatusDimensionSelection {
    pub position: u8,
    pub dimension_id: String,
}

impl StatusDimensionSelection {
    pub fn copied(&self) -> (r: Self)
        ensures
            r == *self,
    {
        StatusDimensionSelection { position: self.position, dimension_id: self.dimension_id.clone() }
    }
}

/// The number of Status display positions.
pub const STATUS_POSITION_COUNT: u8 = 5;

#[derive(Debug, Clone, Copy, PartialEq, Eq, Structural)]
pub enum DashboardMissionSlot {
    Countdown,
    Progress,
    Hint1,
    Hint2,
}

#[derive(Debug, Clone, PartialEq, Eq)]
pub struct DashboardMissionSelection {
    pub mission_id: String,
    pub label: Option<String>,
}

impl DashboardMissionSelection {
    pub fn copied(&self) -> (r: Self)
        ensures
            r == *self,
    {
        DashboardMissionSelection { mission_id: self.mission_id.clone(), label: copy_opt_string(&self.label) }
    }
}

pub fn copy_opt_selection(s: &Option<DashboardMissionSelection>) -> (r: Option<DashboardMissionSelection>)
    ensures
        r == *s,
{
    match s {
        Some(t) => Some(t.copied()),
        None => None,
    }
}

/// The device-local Mission selections of the four dashboard slots.
#[derive(Debug, Clone, PartialEq, Eq)]
pub struct DashboardMissionSelections {
    pub countdown: Option<DashboardMissionSelection>,
    pub progress: Option<DashboardMissionSelection>,
    pub hint1: Option<DashboardMissionSelection>,
    pub hint2: Option<DashboardMissionSelection>,
}

impl DashboardMissionSelections {
    pub open spec fn slot(&self, slot: DashboardMissionSlot) -> Option<DashboardMissionSelection> {
        match slot {
            DashboardMissionSlot::Countdown => self.countdown,
            DashboardMissionSlot::Progress => self.progress,
            DashboardMissionSlot::Hint1 => self.hint1,
            DashboardMissionSlot::Hint2 => self.hint2,
        }
    }

    pub open spec fn with_slot(self, slot: DashboardMissionSlot, value: Option<DashboardMissionSelection>) -> Self {
        match slot {
            DashboardMissionSlot::Countdown => DashboardMissionSelections { countdown: value, ..self },
            DashboardMissionSlot::Progress => DashboardMissionSelections { progress: value, ..self },
            DashboardMissionSlot::Hint1 => DashboardMissionSelections { hint1: value, ..self },
            DashboardMissionSlot::Hint2 => DashboardMissionSelections { hint2: value, ..self },
        }
    }

    pub open spec fn empty_spec() -> Self {
        DashboardMissionSelections { countdown: None, progress: None, hint1: None, hint2: None }
    }

    /// No slot selected.
    pub fn empty() -> (r: Self)
        ensures
            r == Self::empty_spec(),
    {
        DashboardMissionSelections { countdown: None, progress: None, hint1: None, hint2: None }
    }

    /// The selection of one slot.
    pub fn get(&self, slot: DashboardMissionSlot) -> (r: Option<&DashboardMissionSelection>)
        ensures
            r matches Some(s) ==> self.slot(slot) == Some(*s),
            r is None ==> self.slot(slot) is None,
    {
        match slot {
            DashboardMissionSlot::Countdown => self.countdown.as_ref(),
            DashboardMissionSlot::Progress => self.progress.as_ref(),
            DashboardMissionSlot::Hint1 => self.hint1.as_ref(),
            DashboardMissionSlot::Hint2 => self.hint2.as_ref(),
        }
    }

    /// The number of slots that hold a selection.
    pub open spec fn spec_len(&self) -> nat {
        (if self.countdown is Some { 1nat } else { 0nat }) + (if self.progress is Some { 1nat } else { 0nat })
            + (if self.hint1 is Some { 1nat } else { 0nat }) + (if self.hint2 is Some { 1nat } else { 0nat })
    }

    /// The number of slots that hold a selection.
    pub fn len(&self) -> (r: usize)
        ensures
            r == self.spec_len(),
    {
        let mut n: usize = 0;
        if self.countdown.is_some() { n = n + 1; }
        if self.progress.is_some() { n = n + 1; }
        if self.hint1.is_some() { n = n + 1; }
        if self.hint2.is_some() { n = n + 1; }
        n
    }

    /// Whether a slot holds a selection.
    pub fn contains_key(&self, slot: DashboardMissionSlot) -> (r: bool)
        ensures
            r == self.slot(slot) is Some,
    {
        self.get(slot).is_some()
    }

    pub fn set(&mut self, slot: DashboardMissionSlot, value: Option<DashboardMissionSelection>)
        ensures
            *final(self) == old(self).with_slot(slot, value),
    {
        match slot {
            DashboardMissionSlot::Countdown => self.countdown = value,
            DashboardMissionSlot::Progress => self.progress = value,
            DashboardMissionSlot::Hint1 => self.hint1 = value,
            DashboardMissionSlot::Hint2 => self.hint2 = value,
        }
    }

    pub fn copied(&self) -> (r: Self)
        ensures
            r == *self,
    {
        DashboardMissionSelections {
            countdown: copy_opt_selection(&self.countdown),
            progress: copy_opt_selection(&self.progress),
            hint1: copy_opt_selection(&self.hint1),
            hint2: copy_opt_selection(&self.hint2),
        }
    }
}

} // verus!
