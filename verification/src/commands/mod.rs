pub mod record_commands;
pub mod pack_commands;
pub mod mission_commands;
pub mod memory_commands;
pub mod mission_dashboard_commands;
pub mod status_commands;
pub mod achievement_commands;
pub mod skill_commands;
pub mod mutation_commands;
pub mod context_commands;
pub mod record_query;
