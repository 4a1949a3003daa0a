//! An interpreter core for the register-machine assembly language of
//! Stationeers integrated circuits.

pub mod alias;
pub mod device;
pub mod driver;
pub mod error;
pub mod execute;
pub mod ic;
pub mod instruction;
pub mod laws;
pub mod lexer;
pub mod model;
pub mod opcode;
pub mod table;
pub mod text;
pub mod unit;
pub mod value;
