pub mod distribution;
pub mod whitespaces;
