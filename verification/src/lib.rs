pub mod parse;
pub mod script;
pub mod text;
pub mod token;
pub mod xc;
pub mod xr;
pub mod xr_dyn;
