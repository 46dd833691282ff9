use vstd::prelude::*;

verus! {

/// A raw pixel buffer carried by an `image-data` style hint.
#[derive(Debug)]
pub struct ImageData {
    pub width: i32,
    pub height: i32,
    pub rowstride: i32,
    pub has_alpha: bool,
    pub bits_per_sample: i32,
    pub channels: i32,
    pub data: Vec<u8>,
}

impl ImageData {
    pub fn new(
        width: i32,
        height: i32,
        rowstride: i32,
        has_alpha: bool,
        bits_per_sample: i32,
        channels: i32,
        data: Vec<u8>,
    ) -> (r: ImageData)
        ensures
            r.width == width,
            r.height == height,
            r.rowstride == rowstride,
            r.has_alpha == has_alpha,
            r.bits_per_sample == bits_per_sample,
            r.channels == channels,
            r.data@ == data@,
    {
        ImageData { width, height, rowstride, has_alpha, bits_per_sample, channels, data }
    }
}

/// One notification request as received over the bus, after its hints were decoded.
#[derive(Debug)]
pub struct Notification {
    pub app_name: String,
    pub replaces_id: u32,
    pub app_icon: String,
    pub summary: String,
    pub body: String,
    pub actions: Vec<String>,
    pub image_data: Option<ImageData>,
    pub image_path: Option<String>,
    pub expire_timeout: i32,
    pub notification_id: u32,
    pub desktop_entry: String,
}

/// Which image a pop-up shows beside its text.
#[derive(Debug)]
pub enum ImageSource {
    NoImage,
    Raw(ImageData),
    Path(String),
}

/// The pixel layout of a raw image buffer.
#[derive(Debug, Clone, Copy, PartialEq, Eq, Structural)]
pub enum PixelFormat {
    /// Four bytes per pixel: red, green, blue, alpha.
    Rgba8888,
    /// Three bytes per pixel: red, green, blue.
    Rgb888,
}

impl ImageData {
    /// The pixel layout of this buffer: with an alpha channel four bytes per pixel, else
    /// three.
    pub fn pixel_format(&self) -> (r: PixelFormat)
        ensures
            r == (if self.has_alpha {
                PixelFormat::Rgba8888
            } else {
                PixelFormat::Rgb888
            }),
    {
        if self.has_alpha {
            PixelFormat::Rgba8888
        } else {
            PixelFormat::Rgb888
        }
    }
}

/// The image a pop-up shows: raw data wins over a path.
pub open spec fn image_source_of(image_data: Option<ImageData>, image_path: Option<String>) -> ImageSource {
    match image_data {
        Some(d) => ImageSource::Raw(d),
        None => match image_path {
            Some(p) => ImageSource::Path(p),
            None => ImageSource::NoImage,
        },
    }
}

/// Picks the image a pop-up shows: raw data if any, else the path if any, else none.
pub fn image_source(image_data: Option<ImageData>, image_path: Option<String>) -> (r: ImageSource)
    ensures
        r == image_source_of(image_data, image_path),
{
    match image_data {
        Some(d) => ImageSource::Raw(d),
        None => match image_path {
            Some(p) => ImageSource::Path(p),
            None => ImageSource::NoImage,
        },
    }
}

} // verus!
