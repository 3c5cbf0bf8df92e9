//! Verified core of a firewall-rule updater for the Vultr API.

pub mod text;
pub mod addr;
pub mod vultr;
pub mod error;
pub mod outside;
pub mod ip_detect;
pub mod planner;
pub mod host_planner;
pub mod mobile;
pub mod cli;
