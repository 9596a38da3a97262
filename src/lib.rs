pub mod compose;
pub mod memo;

pub use compose::{composition, id};
pub use memo::{memoized, Memoized};
