pub mod axis;
pub mod broad;
pub mod narrow;
