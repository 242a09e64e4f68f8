pub mod dpkg;
pub mod resolver;
pub mod rpm;
pub mod utils;
