//! Personal tasks kept as structured-text documents, one document for each
//! task.
//!
//! - [`task`]: the task, its to-dos and their states, and what is derived
//!   from them: counts, the share of completed to-dos, the workflow column.
//! - [`grammar`]: the meaning of a document text, and the canonical text of
//!   a document.
//! - [`parser`]: reading a text into a task and writing a task as text.
//! - [`round_trip`]: the canonical text of what was read reads back the same.
//! - [`syntax`]: documents handed over as syntax trees.
//! - [`task_manager`]: the tasks in memory, and what is to be written for
//!   them.
//! - [`app`]: the rules of the interactive front end.
//! - [`text`] and [`text_proofs`]: character sequences and facts about them.

pub mod app;
pub mod grammar;
pub mod parser;
pub mod round_trip;
pub mod syntax;
pub mod task;
pub mod task_manager;
pub mod text;
pub mod text_proofs;
