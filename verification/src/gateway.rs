//! The gateway: what happens to one message between the channel and the agent.

pub mod attachments;
pub mod clock;
pub mod command_laws;
pub mod commands;
pub mod delivery;
pub mod delivery_laws;
pub mod duration;
pub mod duration_laws;
pub mod file_laws;
pub mod files;
pub mod job_laws;
pub mod jobs;
pub mod reminder_laws;
pub mod reminders;
pub mod run;
pub mod run_laws;
pub mod turn;
pub mod turn_laws;
pub mod turn_orders;
pub mod voice;
pub mod worker;
