//! Driver for Waveshare SPI e-ink displays and a monochrome rasterizer for
//! their frame buffers.
pub mod drawing;
pub mod epd2in9;
pub mod epd4in2;
pub mod font;
pub mod lut;
