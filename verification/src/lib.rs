//! Verified decision logic of the Akri DRA controllers, agent and shared
//! Kubernetes resource types.

pub mod action;
pub mod claim_controller;
pub mod allocation;
pub mod cdi;
pub mod dc_controller;
pub mod discovery_configuration;
pub mod dra_plugin;
pub mod instance;
pub mod instance_filter;
pub mod meta;
pub mod node_set;
pub mod ownership;
pub mod parse;
pub mod pod_scheduling;
pub mod resource;
pub mod retry;
pub mod spore;
pub mod spore_controller;
pub mod spore_refs;
pub mod string_map;
pub mod strings;
