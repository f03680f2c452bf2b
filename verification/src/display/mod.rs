pub mod bits;
pub mod driver;
pub mod refresh;
pub mod render;
pub mod scene;
pub mod ssd1677;
pub mod transport;
