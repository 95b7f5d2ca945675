pub mod invert;
pub mod mirror;
pub mod mono;
pub mod rotate;
pub mod transparency;
pub mod truncate;

pub use self::invert::InvertingFilter;
pub use self::mirror::{MirrorMode, MirroringFilter};
pub use self::mono::MonoFilter;
pub use self::rotate::{RotatingFilter, Rotation};
pub use self::transparency::TransparencyFilter;
pub use self::truncate::TruncatingFilter;
