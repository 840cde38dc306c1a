//! What the parts of the command promise, stated over what goes in and what
//! comes out.

pub mod arguments;
pub mod batches;
pub mod calls;
pub mod copies;
pub mod flows;
pub mod requests;
pub mod services;
pub mod statuses;
pub mod values;
pub mod words;
