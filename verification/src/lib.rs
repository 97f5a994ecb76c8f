pub mod text;
pub mod update_channel;
pub mod update_distribution;
pub mod update_discovery;
pub mod paths;
pub mod update_agent_flow;
pub mod updates;
pub mod access;
pub mod logs;
pub mod mobile;
pub mod pc_backups;
pub mod config;
pub mod storage;
pub mod backups;
pub mod backup_progress;
pub mod system;
pub mod setup;
pub mod notifications;
pub mod update_workflow;
pub mod digest;
pub mod performance;
pub mod disk_health;
pub mod users;
pub mod storage_history;
pub mod session;
pub mod dashboard;
pub mod raid;
pub mod agent_transport;
pub mod storage_monitor;
pub mod photos;
pub mod system_info;
pub mod albums;
pub mod devices;
