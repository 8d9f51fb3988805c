pub mod model;
pub mod parameters;
pub mod vector;
