pub mod decision;
pub mod simple;
