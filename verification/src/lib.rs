//! Extraction of per-function optimization-pass pipelines from a raw,
//! line-oriented compiler dump.
//!
//! The library turns the interleaved textual dump of intermediate-representation
//! snapshots emitted by a compiler's "print IR before/after every pass"
//! instrumentation into a structured result: for each function, in first-seen
//! order, the ordered sequence of passes that ran on it, each pass holding the
//! exact "before" and "after" text of its snapshot.

pub mod assembler;
pub mod display;
pub mod laws;
pub mod pipeline;
pub mod scanner;

pub use assembler::assemble;
pub use assembler::process;
pub use display::ColorChoice;
pub use display::color_enabled;
pub use pipeline::FuncPipeline;
pub use pipeline::Pass;
pub use pipeline::PipelineSet;
pub use scanner::Direction;
pub use scanner::Event;
pub use scanner::scan;
