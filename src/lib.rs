//! A remote-debugging bridge between a developer-tools client and the pages of a
//! browser: it resolves pages by pipeline, addresses DOM nodes by stable per-page
//! identifiers, classifies script evaluation results into a closed value set and
//! forwards console messages to an attached debugger.
pub mod types;
pub mod evaluation;
pub mod document;
pub mod pages;
pub mod devtools;
pub mod errorevent;
