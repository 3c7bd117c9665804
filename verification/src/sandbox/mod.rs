//! The boundary a confined command runs behind: what a backend can enforce,
//! the authority a policy grants, the inert plan staged before it starts, and
//! the words its guardrails and audit are reported in.

pub mod audit;
pub mod capability;
pub mod digest;
pub mod finish;
pub mod guardrail;
pub mod heard;
pub mod manifest;
pub mod path;
pub mod policy;
pub mod service;
