//! Building blocks shared by the other modules.

pub mod bytes;
pub mod clock;
pub mod hexadecimal;
pub mod idset;
pub mod paths;
pub mod prom;
pub mod seqs;
pub mod sums;
pub mod table;
pub mod text;
