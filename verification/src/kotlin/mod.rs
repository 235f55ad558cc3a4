pub mod ir;
pub mod consts;
pub mod generator;
