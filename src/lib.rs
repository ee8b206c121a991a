//! A cached, hierarchically organised collection of quotes: a parser from a
//! JSON document into years, months and quotes, a refresh engine gated by a
//! time-to-live, and a uniform selection over every quote held.

pub mod cache;
pub mod json;
pub mod ordered;
pub mod payload;
pub mod quotes;
pub mod select;
