pub mod annotation;
pub mod interval;
pub mod meaning;
pub mod numeric;
pub mod zone;
