//! Verified core of the Moalog retrospective service: subscription plans,
//! invite codes, answer validation, response paging and report layout.

pub mod plan;
pub mod text;
pub mod error;
pub mod responses;
pub mod method;
pub mod time;
pub mod model;
pub mod report;
pub mod analysis;
pub mod invite;
pub mod service;
pub mod validate;
pub mod rooms;
pub mod participation;
pub mod social;
pub mod payment;
pub mod assistant;
pub mod storage;
pub mod detail;
pub mod rate_limit;
pub mod config;
pub mod deletion;
pub mod params;
