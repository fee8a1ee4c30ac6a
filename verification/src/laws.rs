//! What the library promises, said of what goes into its functions and what comes out.

pub mod answers;
pub mod chip;
pub mod frames;
pub mod memory;
pub mod requests;
pub mod text;
