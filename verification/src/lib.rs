//! Verified application core of the Arcana life-management data platform.
//!
//! The library holds the domain model (Records, Packs, Achievements, Skills,
//! Missions, assistant memory, local display selections), an in-memory
//! repository with transactional semantics, and the commands that read and
//! change it.  Every command states in its contract what it returns and how the
//! repository changes, and that a refused command leaves the repository
//! exactly as it was.
#![allow(unused_imports)]

pub mod text;
pub mod error;
pub mod json;
pub mod record;
pub mod pack;
pub mod state;
pub mod seqs;
pub mod repository;
pub mod catalog;
pub mod order;
pub mod commands;
pub mod clock;
pub mod date;
pub mod dashboard;
pub mod frontmatter;
pub mod notes;
pub mod agent;
pub mod pack_store;
pub mod cli;
pub mod contract;
pub mod laws;
pub mod legacy_skills;
pub mod legacy_achievements;
pub mod weather;
pub mod standard_packs;
pub mod command_groups;
pub mod group_grammar;
pub mod outcome_laws;
pub mod lifecycle_laws;
pub mod record_laws;
