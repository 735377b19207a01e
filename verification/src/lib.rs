//! Verified construction of filter-graph arguments for a broadcast playout
//! engine.
//!
//! The library lowers per-stream processing directives (deinterlace, scale,
//! fades, logo overlay, audio synthesis, hardware bridging, multi-output
//! splitting) into a single textual filter-graph description plus matching
//! stream-mapping arguments for an external media-processing tool.  Chains
//! are `,`-joined filters, independent chains are `;`-joined, and bracketed
//! labels name links between chains.
//!
//! [`chain`] holds the mathematical model of the graph state and its
//! transition under one append; [`filters`] the executable state with the
//! central append operation and the two finalisers; [`hw`] the hardware
//! upload/download lowering helpers; [`stages`] the effect stage generators;
//! [`merge`] the custom-template splice; [`orchestrate`] the per-item
//! sequencing and its diagnostics; [`laws`] the global theorems (balanced
//! chains, label/map accounting, bridge non-redundancy, finaliser
//! behaviour).  [`config`] and [`media`] are the read-only inputs, and
//! [`text`], [`scan`] and [`parse`] the verified string and number
//! toolkits underneath.

pub mod chain;
pub mod config;
pub mod filters;
pub mod hw;
pub mod laws;
pub mod media;
pub mod merge;
pub mod orchestrate;
pub mod parse;
pub mod scan;
pub mod stages;
pub mod text;
