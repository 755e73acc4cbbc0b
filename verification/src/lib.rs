//! A front-end driver for the Debug Adapter Protocol (DAP): wire framing,
//! request/response correlation, the session model, and the controller's
//! transition rules, each stated and proved as a contract.

pub mod adapter;
pub mod codec;
pub mod config;
pub mod controller;
pub mod kakoune;
pub mod msg;
pub mod text;
pub mod ui;
