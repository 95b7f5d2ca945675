pub mod bit;
pub mod rgb;
pub mod rgba;
