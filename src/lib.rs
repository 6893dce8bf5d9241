pub mod flexver;
pub mod laws;
pub mod order;
pub mod token;
pub mod tokenize;

pub use flexver::FlexVer;
pub use order::{compare, try_compare};
pub use tokenize::decompose;
