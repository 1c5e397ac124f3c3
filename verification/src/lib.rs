//! Core logic of the Rawk project-template tool.
//!
//! The library decides where templates live, how a template name is
//! resolved to a directory, how a template directory becomes a `Template`
//! and how its layout is checked, which templates a search or a category
//! listing shows and in what order, and which variables a new project is
//! rendered with.  What touches the disk is done by the caller, who hands
//! the library the facts it read.

pub mod config;
pub mod listing;
pub mod paths;
pub mod project;
pub mod render;
pub mod template;
pub mod text;

pub use config::Config;
pub use render::{render_template, ContextValue, RenderContext, RenderError};
pub use template::{
    CategoryEntry, CategoryProbe, DirProbe, Listing, PathProbe, Question, Requirements, Skipped,
    Template, TemplateConfig, TemplateEntry, TemplateError, TemplateMetadata, TemplateWarning,
};
