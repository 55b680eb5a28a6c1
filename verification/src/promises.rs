//! What the portal promises of its operations, said in terms of what goes in
//! and what comes out.

pub mod answers;
pub mod editing;
pub mod formats;
pub mod requests;
pub mod signing_in;
pub mod views;
