//! A verified declaration rewriter for delegate directives.
//!
//! A programmer writes one concrete method inside a type's inherent impl
//! block and attaches a directive naming an external trait method that the
//! method should satisfy.  This library scans such an owning block, strips
//! the directives, and synthesizes, for every directive, a trait
//! implementation whose single method forwards to the original method.
//!
//! The library works on its own model of the host language's declarations
//! (paths, generic arguments, signatures), stated in [`model`].  Parsing the
//! host language's surface syntax into the model and rendering the model
//! back out are left to an unverified shell around the library.

pub mod model;
pub mod reconcile;
pub mod synthesize;
pub mod rewrite;
pub mod laws;
