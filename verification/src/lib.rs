pub mod avr;
pub mod board;
pub mod bytes;
pub mod command;
pub mod dialogue;
pub mod errors;
pub mod isp;
pub mod laws;
pub mod message;
pub mod pages;
pub mod param;
pub mod port;
pub mod programmer;
pub mod sequence;
pub mod status;
pub mod text;
