pub mod expand;
pub mod name_resolve;
