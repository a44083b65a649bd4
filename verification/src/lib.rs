//! A typed dependency registry: a store that holds values of a closed set of
//! shapes under string keys, constructs new values from previously stored
//! ones, and hands back results whose shape the caller states up front.

pub mod assoc;
pub mod capability;
pub mod closure;
pub mod factory;
pub mod pattern;
pub mod raw;
pub mod registry;
pub mod stringly;
pub mod text;
pub mod traits;
pub mod traits_macro;
pub mod url;
pub mod value;
