//! Randomised course generation for the FSX practice challenge format:
//! fixed-point length units, a gap-constrained placement sampler, and the
//! builder that turns twenty sampled distances into a named challenge.
pub mod challenge;
pub mod naming;
pub mod sampler;
pub mod units;
