//! Goal extraction from a rendered page that offers no interface of its
//! own: find the section of current goals in the page's text or layout, keep
//! what can be a goal, clean the titles, drop repeated ones, work out which
//! goal is whose child, and hand the result on as one payload.

pub mod chars;
pub mod dedupe;
pub mod emit;
pub mod filter;
pub mod hierarchy;
pub mod ident;
pub mod laws;
pub mod markers;
pub mod model;
pub mod normalize;
pub mod pass;
pub mod readiness;
pub mod section;
pub mod strategy;
pub mod transport;
pub mod window;
pub mod wire;
