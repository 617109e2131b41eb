pub mod bitmap;
pub mod bitmap_compression_method;
pub mod bitmap_header;
pub mod bitmap_info_header;
pub mod bitmap_text;
pub mod bitmap_write;
pub mod le;

pub use bitmap_compression_method::BitmapCompressionMethod;
pub use bitmap_header::BitmapHeader;
pub use bitmap_info_header::BitmapInfoHeader;
