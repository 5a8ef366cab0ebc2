//! Request resolution for a small markdown site: percent-decoding of request
//! paths, title validation, prefix routing, page lookup and a minimal
//! `{{name}}` template engine.

pub mod cmark;
pub mod fetched;
pub mod jinja2;
pub mod pages;
pub mod percent;
pub mod response;
pub mod router;
pub mod rskr;
pub mod text;
pub mod title;
