pub mod pixel;
pub mod image_buf;
pub mod regions;
pub mod compose;
pub mod resample;
pub mod codec;
pub mod pipeline;

pub use pixel::Pixel;
pub use image_buf::Image;
pub use image_buf::ImageView;
