pub mod math;
pub mod os;
pub mod random;
pub mod string;
pub mod time;
