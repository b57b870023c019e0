//! A queueing-network simulator: the element types, the bookkeeping of each
//! element's counters and scheduled times, the routing between elements and
//! the parsing of element descriptions.

pub mod consts;
pub mod names;
pub mod schedule;
pub mod text;
pub mod element;
pub mod create;
pub mod process;
pub mod dispose;
pub mod routing;
pub mod log;
pub mod model;
pub mod shortcuts;
pub mod element_parser;
pub mod pages;
pub mod report;
