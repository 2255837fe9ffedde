//! The verified logic of the Wazuh agent installer.
pub mod command;
pub mod component;
pub mod config;
pub mod enrollment;
pub mod launcher;
pub mod logs;
pub mod netbird;
pub mod outcome;
pub mod platform;
pub mod privilege;
pub mod text;
pub mod tray;
pub mod version;
