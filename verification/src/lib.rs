//! A feed reader's core: the article model, the parse-and-merge pipeline that
//! turns fetched feed documents into one article list, and the session state
//! that sorts, filters and marks articles as read.

pub mod aggregator;
pub mod model;
pub mod nesting;
pub mod parser;
pub mod read_state;
pub mod sorting;
pub mod store;
pub mod text;
