pub use super::Disj;
pub use super::Disj::{
    A,
    B,
};
