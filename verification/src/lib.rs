pub mod strategy;
pub mod text;
pub mod net;
pub mod config;
pub mod system_dns;
pub mod recording;
pub mod privileged_udp;
pub mod commands;
pub mod rewrite_business;
pub mod runtime;
