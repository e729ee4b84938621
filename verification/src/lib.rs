pub mod action;
pub mod auto_bots;
pub mod bees;
pub mod bots;
pub mod briefing;
pub mod commands;
pub mod config;
pub mod context_bot;
pub mod conversations;
pub mod coordinator;
pub mod docs;
pub mod doctor;
pub mod followups;
pub mod git_safety;
pub mod init;
pub mod json;
pub mod mcp;
pub mod morning_brief;
pub mod notify;
pub mod order;
pub mod poll;
pub mod process;
pub mod repos;
pub mod routing;
pub mod shells;
pub mod signal;
pub mod task;
pub mod text;
pub mod textmap;
pub mod time;
pub mod toml_doc;
pub mod web;
pub mod widgets;
pub mod worker;
pub mod worker_actions;
pub mod worker_events;
pub mod worker_manager;
pub mod worker_view;
pub mod workflow;
pub mod workflow_run;
