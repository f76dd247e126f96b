//! Print-service core: print commands and their validation, HTML page
//! assembly, print planning, the print queue's state machine, service
//! status and configuration handling.

pub mod text;
pub mod models;
pub mod clock;
pub mod config;
pub mod paper;
pub mod html;
pub mod printer;
pub mod queue;
pub mod worker;
pub mod service;
pub mod printers;
