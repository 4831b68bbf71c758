use vstd::prelude::*;

verus! {

/// Size of the full-screen canvas.
pub const CANVAS_WIDTH: u32 = 3840;
pub const CANVAS_HEIGHT: u32 = 2160;

/// A decoded artwork: `width * height` pixels, row-major, four bytes
/// (red, green, blue, alpha) per pixel.
pub struct BaseImage {
    pub width: u32,
    pub height: u32,
    pub rgba: Vec<u8>,
}

/// Why an artwork could not be loaded.
#[derive(Debug)]
pub enum LoadError {
    /// The bytes are not an image in a format the decoder knows.
    Decode(image::ImageError),
    /// The image is larger than the canvas.
    TooLarge { width: u32, height: u32 },
}

#[verifier::external_type_specification]
#[verifier::external_body]
pub struct ExImageError(image::ImageError);

/// An opaque output image: `width * height` pixels, row-major, three bytes
/// (red, green, blue) per pixel.
pub struct Canvas {
    pub width: u32,
    pub height: u32,
    pub rgb: Vec<u8>,
}

impl BaseImage {
    pub open spec fn pixel_count(&self) -> int {
        self.width * self.height
    }

    /// The buffer holds exactly one RGBA quadruple per pixel.
    pub open spec fn wf(&self) -> bool {
        self.rgba@.len() == 4 * self.pixel_count()
    }

    /// Wraps a row-major RGBA buffer; `None` when its length is not four
    /// bytes per pixel.
    pub fn new(width: u32, height: u32, rgba: Vec<u8>) -> (r: Option<BaseImage>)
        ensures
            rgba@.len() == 4 * (width * height) <==> r.is_some(),
            r matches Some(b) ==> b.width == width && b.height == height && b.rgba@ == rgba@ && b.wf(),
    {
        let w = width as u128;
        let h = height as u128;
        assert(w * h <= 0xffff_ffff * 0xffff_ffff) by (nonlinear_arith)
            requires
                w <= 0xffff_ffff,
                h <= 0xffff_ffff,
        ;
        let expected = 4 * (w * h);
        if rgba.len() as u128 == expected {
            Some(BaseImage { width, height, rgba })
        } else {
            None
        }
    }
}

/// The image fits on the canvas.
pub open spec fn fits_canvas(b: BaseImage) -> bool {
    b.width <= CANVAS_WIDTH && b.height <= CANVAS_HEIGHT
}

/// What the decoder makes of an encoded artwork: its width, height and RGBA
/// bytes, or `None` when the bytes do not decode.
pub uninterp spec fn decoded_rgba(bytes: Seq<u8>) -> Option<(u32, u32, Seq<u8>)>;

/// Relies on image::load_from_memory, which guesses the format from the
/// bytes and decodes them, and on `DynamicImage::to_rgba8`, whose result is a
/// freshly allocated buffer of exactly four bytes per pixel.
#[verifier::external_body]
fn decode_rgba(bytes: &Vec<u8>) -> (r: Result<BaseImage, image::ImageError>)
    ensures
        r is Ok <==> decoded_rgba(bytes@) is Some,
        r matches Ok(b) ==> decoded_rgba(bytes@) == Some((b.width, b.height, b.rgba@)) && b.wf(),
{
    let rgba = image::load_from_memory(bytes.as_slice())?.to_rgba8();
    let (width, height) = rgba.dimensions();
    Ok(BaseImage { width, height, rgba: rgba.into_raw() })
}

/// Accepts a decoded artwork if it fits on the canvas; passes a decoding
/// error on.
pub fn check_base_image(decoded: Result<BaseImage, image::ImageError>) -> (r: Result<
    BaseImage,
    LoadError,
>)
    requires
        decoded matches Ok(b) ==> b.wf(),
    ensures
        match decoded {
            Ok(b) => if fits_canvas(b) {
                r == Ok::<BaseImage, LoadError>(b)
            } else {
                r == Err::<BaseImage, LoadError>(
                    LoadError::TooLarge { width: b.width, height: b.height },
                )
            },
            Err(e) => r == Err::<BaseImage, LoadError>(LoadError::Decode(e)),
        },
{
    match decoded {
        Ok(b) => {
            if b.width <= CANVAS_WIDTH && b.height <= CANVAS_HEIGHT {
                Ok(b)
            } else {
                let width = b.width;
                let height = b.height;
                Err(LoadError::TooLarge { width, height })
            }
        },
        Err(e) => Err(LoadError::Decode(e)),
    }
}

/// Decodes an encoded artwork (PNG) into a base image that fits the canvas.
pub fn load_base_image(bytes: &Vec<u8>) -> (r: Result<BaseImage, LoadError>)
    ensures
        r is Ok <==> (decoded_rgba(bytes@) matches Some(d) && d.0 <= CANVAS_WIDTH && d.1
            <= CANVAS_HEIGHT),
        r matches Ok(b) ==> decoded_rgba(bytes@) == Some((b.width, b.height, b.rgba@)) && b.wf()
            && fits_canvas(b),
        decoded_rgba(bytes@) is None ==> r matches Err(LoadError::Decode(_)),
        decoded_rgba(bytes@) matches Some(d) ==> (d.0 > CANVAS_WIDTH || d.1 > CANVAS_HEIGHT) ==> r
            == Err::<BaseImage, LoadError>(LoadError::TooLarge { width: d.0, height: d.1 }),
{
    check_base_image(decode_rgba(bytes))
}

/// The RGBA quadruple of pixel `i` in a four-channel buffer.
pub open spec fn rgba_at(data: Seq<u8>, i: int) -> (u8, u8, u8, u8) {
    (data[4 * i], data[4 * i + 1], data[4 * i + 2], data[4 * i + 3])
}

/// The RGB triple of pixel `i` in a three-channel buffer.
pub open spec fn rgb_at(data: Seq<u8>, i: int) -> (u8, u8, u8) {
    (data[3 * i], data[3 * i + 1], data[3 * i + 2])
}

pub open spec fn triple(c: [u8; 3]) -> (u8, u8, u8) {
    (c[0], c[1], c[2])
}

} // verus!
