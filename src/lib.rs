//! Assembly of styled documents: a content model, an inline markup parser,
//! the decisions of the two-pass page-resolution pipeline, and the construction
//! of a flat bookmark outline inside an already rendered artifact.
pub mod bookmarks;
pub mod builder;
pub mod model;
pub mod richtext;
