//! Verified core of the PDL pipeline data language toolchain: source spans,
//! diagnostics and their rendering, data-format decisions, driver planning
//! records, and the small pure helpers that the command-line tools share.

pub mod aggregate;
pub mod assoc;
pub mod bench;
pub mod cache;
pub mod cli;
pub mod codes;
pub mod compare;
pub mod complete;
pub mod context;
pub mod diagnostic;
pub mod engine;
pub mod exec_plan;
pub mod expr;
pub mod facts;
pub mod format;
pub mod frame;
pub mod geo;
pub mod io;
pub mod json;
pub mod measure;
pub mod mutate;
pub mod origin;
pub mod path;
pub mod pivot;
pub mod plan;
pub mod prepare;
pub mod readers;
pub mod render;
pub mod report;
pub mod report_render;
pub mod serve;
pub mod scalar;
pub mod row_union;
pub mod schema;
pub mod severity;
pub mod source;
pub mod span;
pub mod temporal;
pub mod text;
pub mod topojson;
pub mod value;
