//! Device-local Mission choices for the four dashboard slots.
use vstd::prelude::*;
use crate::commands::mission_commands::opt_str_view;
use crate::error::{RepositoryError, RepositoryErrorCode, RepositoryResult};
use crate::repository::{Repository, RepositoryModel};
use crate::state::{DashboardMissionSelection, DashboardMissionSelections, DashboardMissionSlot, MissionStatus};
use crate::text::{concat3, str_eq};

verus! {

#[derive(Debug, Clone, PartialEq, Eq)]
pub struct DashboardMissionSelectionResult {
    pub slot: DashboardMissionSlot,
    pub selection: Option<DashboardMissionSelection>,
    pub changed: bool,
}

/// Two selections name the same Mission with the same label.
pub open spec fn same_selection(a: DashboardMissionSelection, b: DashboardMissionSelection) -> bool {
    a.mission_id@ == b.mission_id@ && opt_str_view(a.label) == opt_str_view(b.label)
}

/// The outcome of selecting Mission `id` with `label` for `slot`: the Mission
/// must exist and be active; selecting what the slot already holds changes
/// nothing.
pub open spec fn select_outcome(
    m: RepositoryModel,
    slot: DashboardMissionSlot,
    id: String,
    label: Option<String>,
    r: RepositoryResult<DashboardMissionSelectionResult>,
    fm: RepositoryModel,
) -> bool {
    let selection = DashboardMissionSelection { mission_id: id, label: label };
    match m.mission_index(id@) {
        None => r matches Err(e) && e.code == RepositoryErrorCode::NotFound && fm == m,
        Some(i) => if m.missions[i].status != MissionStatus::Active {
            r matches Err(e) && e.code == RepositoryErrorCode::Conflict && fm == m
        } else if m.dashboard_selections.slot(slot) matches Some(cur) && same_selection(cur, selection) {
            r matches Ok(res) && res.slot == slot && res.selection == Some(selection) && !res.changed && fm == m
        } else {
            r matches Ok(res) && res.slot == slot && res.selection == Some(selection) && res.changed
                && fm == (RepositoryModel {
                    dashboard_selections: m.dashboard_selections.with_slot(slot, Some(selection)),
                    ..m
                })
        },
    }
}

pub struct MissionDashboardCommands<'repository> {
    pub repository: &'repository mut Repository,
}

impl<'repository> MissionDashboardCommands<'repository> {
    pub fn new(repository: &'repository mut Repository) -> (r: Self)
        ensures
            r.repository@ == old(repository)@,
    {
        MissionDashboardCommands { repository }
    }

    /// The current selections.
    pub fn list(&self) -> (r: RepositoryResult<DashboardMissionSelections>)
        ensures
            r matches Ok(s) && s == old(self.repository)@.dashboard_selections,
    {
        Ok(self.repository.dashboard_selections.copied())
    }

    /// Select an active Mission for a slot.
    pub fn select(&mut self, slot: DashboardMissionSlot, mission_id: String, label: Option<String>) -> (r: RepositoryResult<DashboardMissionSelectionResult>)
        ensures
            select_outcome(old(self).repository@, slot, mission_id, label, r, final(self).repository@),
    {
        let i = match self.repository.find_mission(mission_id.as_str()) {
            Some(i) => i,
            None => {
                return Err(RepositoryError::new(
                    RepositoryErrorCode::NotFound,
                    concat3("Mission '", mission_id.as_str(), "' was not found"),
                ));
            }
        };
        if self.repository.missions[i].status != MissionStatus::Active {
            return Err(RepositoryError::new(
                RepositoryErrorCode::Conflict,
                concat3("only an active Mission can be selected for a Dashboard slot; '", mission_id.as_str(), "' is not active"),
            ));
        }
        let same = match self.repository.dashboard_selections.get(slot) {
            Some(cur) => str_eq(cur.mission_id.as_str(), mission_id.as_str()) && match (&cur.label, &label) {
                (Some(a), Some(b)) => str_eq(a.as_str(), b.as_str()),
                (None, None) => true,
                _ => false,
            },
            None => false,
        };
        let selection = DashboardMissionSelection { mission_id, label };
        if same {
            return Ok(DashboardMissionSelectionResult { slot, selection: Some(selection), changed: false });
        }
        self.repository.dashboard_selections.set(slot, Some(selection.copied()));
        Ok(DashboardMissionSelectionResult { slot, selection: Some(selection), changed: true })
    }

    /// Clear a slot; clearing an empty slot changes nothing.
    pub fn clear(&mut self, slot: DashboardMissionSlot) -> (r: RepositoryResult<DashboardMissionSelectionResult>)
        ensures
            r matches Ok(res) && res.slot == slot && res.selection is None
                && res.changed == old(self).repository@.dashboard_selections.slot(slot) is Some,
            final(self).repository@ == (RepositoryModel {
                dashboard_selections: old(self).repository@.dashboard_selections.with_slot(slot, None),
                ..old(self).repository@
            }),
    {
        if !self.repository.dashboard_selections.contains_key(slot) {
            proof {
                assert(self.repository@.dashboard_selections.with_slot(slot, None) == self.repository@.dashboard_selections);
            }
            return Ok(DashboardMissionSelectionResult { slot, selection: None, changed: false });
        }
        self.repository.dashboard_selections.set(slot, None);
        Ok(DashboardMissionSelectionResult { slot, selection: None, changed: true })
    }
}

} // verus!
