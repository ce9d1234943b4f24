//! Open requests and the performance profiler of the editor.
pub mod cli;
pub mod codec;
pub mod escapes;
pub mod open_laws;
pub mod open_paths;
pub mod open_request;
pub mod parse;
pub mod parse_laws;
pub mod prefixes;
pub mod profiler;
pub mod profiler_laws;
pub mod remote;
pub mod step_laws;
pub mod text;
pub mod text_laws;
pub mod timings;
pub mod view_laws;
pub mod whole_reading;
