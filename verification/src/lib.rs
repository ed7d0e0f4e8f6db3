//! The decision logic of the `openasr` command line: evidence and trace
//! validation, live captioning, memory-pressure planning, request shaping and
//! the text the commands produce. Every function states what it returns and is
//! proved against that statement.

pub mod backend;
pub mod calendar;
pub mod capture;
pub mod commands;
pub mod doctor;
pub mod flight;
pub mod formats;
pub mod json;
pub mod live_options;
pub mod logits;
pub mod note;
pub mod ownership;
pub mod pipeline;
pub mod plugin;
pub mod pressure;
pub mod receipt;
pub mod receipt_run;
pub mod serve;
pub mod session;
pub mod sinks;
pub mod source;
pub mod table;
pub mod text;
pub mod trace;
pub mod transcribe;
pub mod wav;
pub mod worker;
