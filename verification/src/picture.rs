//! Pictures as the launcher keeps them: decoded, turned upside down for the
//! engine's texture layout, and held as rows of RGBA bytes.

use crate::text::{decimal, decimal_digits};
use vstd::prelude::*;
use vstd::string::*;

verus! {

/// Width and height that a modpack's icon must have.
pub const ICON_WIDTH: u32 = 250;

pub const ICON_HEIGHT: u32 = 250;

/// Width and height that a modpack's splash image must have.
pub const SPLASH_WIDTH: u32 = 1280;

pub const SPLASH_HEIGHT: u32 = 720;

/// Width and height that the icon of the unmodified game must have.
pub const VANILLA_ICON_SIZE: u32 = 256;

/// A decoded picture: four bytes per pixel, red, green, blue and alpha, row
/// after row.
#[derive(Debug, Clone, PartialEq, Eq)]
pub struct Image {
    pub width: u32,
    pub height: u32,
    pub pixels: Vec<u8>,
}

/// A picture as a mathematical value.
pub struct ImageView {
    pub width: u32,
    pub height: u32,
    pub pixels: Seq<u8>,
}

impl View for Image {
    type V = ImageView;

    open spec fn view(&self) -> ImageView {
        ImageView { width: self.width, height: self.height, pixels: self.pixels@ }
    }
}

/// Why a picture could not be had.
#[derive(Debug, Clone, PartialEq, Eq)]
pub enum ImageLoadError {
    /// The file could not be read; the message says why.
    Unreadable(String),
    /// The bytes are no picture that the decoder accepts; the message is the
    /// decoder's.
    Undecodable(String),
    /// The picture does not have the size that its place in the launcher
    /// demands.
    WrongDimensions { expected_width: u32, expected_height: u32 },
}

/// An `ImageLoadError` as a mathematical value.
pub enum ImageLoadErrorView {
    Unreadable(Seq<char>),
    Undecodable(Seq<char>),
    WrongDimensions { expected_width: u32, expected_height: u32 },
}

impl View for ImageLoadError {
    type V = ImageLoadErrorView;

    open spec fn view(&self) -> ImageLoadErrorView {
        match self {
            ImageLoadError::Unreadable(m) => ImageLoadErrorView::Unreadable(m@),
            ImageLoadError::Undecodable(m) => ImageLoadErrorView::Undecodable(m@),
            ImageLoadError::WrongDimensions { expected_width, expected_height } =>
                ImageLoadErrorView::WrongDimensions {
                    expected_width: *expected_width,
                    expected_height: *expected_height,
                },
        }
    }
}

impl ImageLoadErrorView {
    /// The error in words.
    pub open spec fn message_text(self) -> Seq<char> {
        match self {
            ImageLoadErrorView::Unreadable(m) => m,
            ImageLoadErrorView::Undecodable(m) => m,
            ImageLoadErrorView::WrongDimensions { expected_width, expected_height } =>
                "Wrong image dimensions, expected "@ + decimal_digits(expected_width as nat)
                    + seq!['x'] + decimal_digits(expected_height as nat),
        }
    }
}

impl ImageLoadError {
    /// The error in words.
    pub fn message(&self) -> (r: String)
        ensures
            r@ == self@.message_text(),
    {
        match self {
            ImageLoadError::Unreadable(m) => m.clone(),
            ImageLoadError::Undecodable(m) => m.clone(),
            ImageLoadError::WrongDimensions { expected_width, expected_height } => {
                proof {
                    reveal_strlit("x");
                }
                let mut r = String::from_str("Wrong image dimensions, expected ");
                let width = decimal(*expected_width as u64);
                r.append(width.as_str());
                r.append("x");
                let height = decimal(*expected_height as u64);
                r.append(height.as_str());
                assert(r@ =~= self@.message_text());
                r
            },
        }
    }
}

/// `image::DynamicImage`, a decoded picture in whatever layout its file had.
/// Nothing is known of what it holds.
#[verifier::external_type_specification]
#[verifier::external_body]
pub struct ExDynamicImage(image::DynamicImage);

/// `image::ImageError`, the decoder's error. Nothing is known of what it
/// holds.
#[verifier::external_type_specification]
#[verifier::external_body]
pub struct ExImageError(image::ImageError);

/// What `image::load_from_memory_with_format` makes of `bytes` as a PNG file:
/// the width and the height of the picture it decoded, and the picture's
/// pixels as RGBA bytes, row after row from the top; `None` where it reported
/// an error.
pub uninterp spec fn png_decoded(bytes: Seq<u8>) -> Option<(u32, u32, Seq<u8>)>;

/// The width and the height of a decoded picture, as `image` reports them.
pub uninterp spec fn picture_size(picture: image::DynamicImage) -> (u32, u32);

/// The pixels of a decoded picture as RGBA bytes, row after row from the top,
/// as `image::DynamicImage::to_rgba8` gives them.
pub uninterp spec fn picture_rgba(picture: image::DynamicImage) -> Seq<u8>;

/// The RGBA bytes of a picture of `width` by `height` with its rows in
/// reverse order: the last row first.
pub open spec fn flipped_rows(pixels: Seq<u8>, width: u32, height: u32) -> Seq<u8> {
    let row = width * 4;
    Seq::new(
        pixels.len(),
        |i: int|
            if row > 0 {
                pixels[(height - 1 - i / row) * row + i % row]
            } else {
                pixels[i]
            },
    )
}

/// Whether a picture of this size, at four bytes to the pixel, fits into a
/// buffer on this machine.
pub open spec fn fits_in_memory(width: u32, height: u32) -> bool {
    width * height * 4 <= usize::MAX
}

/// Calls `image::load_from_memory_with_format` for the PNG format. The result
/// is the one that `png_decoded` names: a picture of that size with those
/// pixels, or an error.
#[verifier::external_body]
fn decode_png(bytes: &[u8]) -> (r: Result<image::DynamicImage, image::ImageError>)
    ensures
        match r {
            Ok(picture) => png_decoded(bytes@) == Some(
                (picture_size(picture).0, picture_size(picture).1, picture_rgba(picture)),
            ),
            Err(_) => png_decoded(bytes@) is None,
        },
{
    image::load_from_memory_with_format(bytes, image::ImageFormat::Png)
}

/// Calls `image::DynamicImage::flipv`, which builds a picture of the same
/// width and height with the rows in reverse order.
#[verifier::external_body]
fn flip_vertically(picture: &image::DynamicImage) -> (r: image::DynamicImage)
    ensures
        picture_size(r) == picture_size(*picture),
        fits_in_memory(picture_size(*picture).0, picture_size(*picture).1) ==> picture_rgba(r)
            == flipped_rows(
            picture_rgba(*picture),
            picture_size(*picture).0,
            picture_size(*picture).1,
        ),
{
    picture.flipv()
}

/// Calls `image::DynamicImage::width`.
#[verifier::external_body]
fn picture_width(picture: &image::DynamicImage) -> (r: u32)
    ensures
        r == picture_size(*picture).0,
{
    picture.width()
}

/// Calls `image::DynamicImage::height`.
#[verifier::external_body]
fn picture_height(picture: &image::DynamicImage) -> (r: u32)
    ensures
        r == picture_size(*picture).1,
{
    picture.height()
}

/// Calls `image::DynamicImage::to_rgba8` and takes the buffer apart. The
/// buffer that `image` hands out has the picture's width and height and holds
/// the picture's pixels, four bytes for each. `image` panics where that many
/// bytes are more than a buffer can hold, so such a picture is not to be
/// handed in.
#[verifier::external_body]
fn rgba_pixels(picture: &image::DynamicImage) -> (r: Image)
    requires
        fits_in_memory(picture_size(*picture).0, picture_size(*picture).1),
    ensures
        r.width == picture_size(*picture).0,
        r.height == picture_size(*picture).1,
        r.pixels@ == picture_rgba(*picture),
        r.pixels@.len() == r.width * r.height * 4,
{
    let buffer = picture.to_rgba8();
    Image { width: buffer.width(), height: buffer.height(), pixels: buffer.into_raw() }
}

/// The text of an `image::ImageError`, by its `Display`.
#[verifier::external_body]
fn decode_error_text(error: &image::ImageError) -> String {
    error.to_string()
}

/// What `check_dimensions` returns.
pub open spec fn checked_dimensions(
    width: u32,
    height: u32,
    expected_width: u32,
    expected_height: u32,
) -> Result<(), ImageLoadErrorView> {
    if width == expected_width && height == expected_height {
        Ok(())
    } else {
        Err(ImageLoadErrorView::WrongDimensions { expected_width, expected_height })
    }
}

/// Accepts a picture of exactly the expected size and rejects any other: a
/// picture of another size is an error, it is never scaled.
pub fn check_dimensions(width: u32, height: u32, expected_width: u32, expected_height: u32) -> (r:
    Result<(), ImageLoadError>)
    ensures
        match r {
            Ok(_) => checked_dimensions(width, height, expected_width, expected_height) is Ok,
            Err(error) => checked_dimensions(width, height, expected_width, expected_height)
                == Err::<(), ImageLoadErrorView>(error@),
        },
{
    if width == expected_width && height == expected_height {
        Ok(())
    } else {
        Err(ImageLoadError::WrongDimensions { expected_width, expected_height })
    }
}

/// The view of the outcome of loading a picture.
pub open spec fn result_view(r: Result<Image, ImageLoadError>) -> Result<
    ImageView,
    ImageLoadErrorView,
> {
    match r {
        Ok(image) => Ok(image@),
        Err(error) => Err(error@),
    }
}

/// Whether `outcome` is what a picture of `width` by `height` is decoded to,
/// where `decoded` is what the decoder made of the file. Where the decoder
/// refused the file, the outcome is that refusal. Where it decoded a picture
/// of exactly that size, the outcome is that picture with its rows in reverse
/// order. Where it decoded a picture of any other size, the outcome is the
/// error of a wrong size.
pub open spec fn decoded_as(
    decoded: Option<(u32, u32, Seq<u8>)>,
    width: u32,
    height: u32,
    outcome: Result<Image, ImageLoadError>,
) -> bool {
    match decoded {
        None => outcome is Err && outcome->Err_0 is Undecodable,
        Some((found_width, found_height, pixels)) => if found_width == width && found_height
            == height {
            &&& outcome is Ok
            &&& outcome->Ok_0@ == (ImageView {
                width,
                height,
                pixels: flipped_rows(pixels, width, height),
            })
            &&& outcome->Ok_0.pixels@.len() == width * height * 4
        } else {
            &&& outcome is Err
            &&& outcome->Err_0@ == (ImageLoadErrorView::WrongDimensions {
                expected_width: width,
                expected_height: height,
            })
        },
    }
}

/// Decodes the bytes of a PNG file into a picture of the expected size.
///
/// The picture is flipped vertically, as the engine's textures want it. A
/// picture is handed out exactly where the decoder accepts the bytes and the
/// picture it decodes has the expected size; it is never scaled.
pub fn decode_image(bytes: &[u8], expected_width: u32, expected_height: u32) -> (r: Result<
    Image,
    ImageLoadError,
>)
    requires
        fits_in_memory(expected_width, expected_height),
    ensures
        decoded_as(png_decoded(bytes@), expected_width, expected_height, r),
{
    match decode_png(bytes) {
        Ok(decoded) => {
            let flipped = flip_vertically(&decoded);
            let width = picture_width(&flipped);
            let height = picture_height(&flipped);
            match check_dimensions(width, height, expected_width, expected_height) {
                Ok(_) => Ok(rgba_pixels(&flipped)),
                Err(error) => Err(error),
            }
        },
        Err(error) => Err(ImageLoadError::Undecodable(decode_error_text(&error))),
    }
}

/// What reading a file gives: its bytes, or why it could not be read.
pub type FileContent = Result<Vec<u8>, String>;

/// Whether `outcome` is what loading a picture of `width` by `height` from a
/// file with content `content` gives. A file that could not be read gives
/// that error, message and all. A file that was read gives what its bytes
/// are decoded to, as `decoded_as` says.
pub open spec fn picture_outcome(
    content: FileContent,
    width: u32,
    height: u32,
    outcome: Result<Image, ImageLoadError>,
) -> bool {
    match content {
        Err(message) => result_view(outcome) == Err::<ImageView, ImageLoadErrorView>(
            ImageLoadErrorView::Unreadable(message@),
        ),
        Ok(bytes) => decoded_as(png_decoded(bytes@), width, height, outcome),
    }
}

/// Whether the file's bytes are a picture of exactly `width` by `height` to
/// the decoder.
pub open spec fn holds_picture_of(content: FileContent, width: u32, height: u32) -> bool {
    match content {
        Ok(bytes) => match png_decoded(bytes@) {
            Some((found_width, found_height, _)) => found_width == width && found_height
                == height,
            None => false,
        },
        Err(_) => false,
    }
}

/// A picture is owed exactly where the file was read, the decoder accepted
/// its bytes, and the picture it decoded has the expected size. A file that
/// the decoder accepted with any other size gives the error of a wrong size,
/// which names the expected one.
pub proof fn lemma_picture_owed(
    content: FileContent,
    width: u32,
    height: u32,
    outcome: Result<Image, ImageLoadError>,
)
    requires
        picture_outcome(content, width, height, outcome),
    ensures
        outcome is Ok <==> holds_picture_of(content, width, height),
        outcome is Ok ==> outcome->Ok_0.width == width && outcome->Ok_0.height == height
            && outcome->Ok_0.pixels@.len() == width * height * 4,
        content is Ok && png_decoded(content->Ok_0@) is Some && !holds_picture_of(
            content,
            width,
            height,
        ) ==> outcome is Err && outcome->Err_0@ == (ImageLoadErrorView::WrongDimensions {
            expected_width: width,
            expected_height: height,
        }),
        content is Ok && png_decoded(content->Ok_0@) is None ==> outcome is Err
            && outcome->Err_0 is Undecodable,
        content is Err ==> outcome is Err && outcome->Err_0@ == ImageLoadErrorView::Unreadable(
            content->Err_0@,
        ),
{
}

/// Whether `read`, asked for the file at `path`, can have answered `content`.
pub open spec fn was_read<F: FnOnce(&str) -> FileContent>(
    read: F,
    path: Seq<char>,
    content: FileContent,
) -> bool {
    exists|p: &str| p@ == path && read.ensures((p,), content)
}

/// Whether `read` may be asked for the file at `path`.
pub open spec fn may_read<F: FnOnce(&str) -> FileContent>(read: F, path: Seq<char>) -> bool {
    forall|p: &str| p@ == path ==> read.requires((p,))
}

/// Reads the picture at `path` through `read` and decodes it to the given
/// size.
pub fn load_picture<F: FnOnce(&str) -> FileContent>(
    path: &str,
    width: u32,
    height: u32,
    read: F,
) -> (r: Result<Image, ImageLoadError>)
    requires
        may_read(read, path@),
        fits_in_memory(width, height),
    ensures
        exists|content: FileContent| was_read(read, path@, content) && picture_outcome(
            content,
            width,
            height,
            r,
        ),
{
    let content = read(path);
    let r = match &content {
        Ok(bytes) => decode_image(bytes.as_slice(), width, height),
        Err(message) => Err(ImageLoadError::Unreadable(message.clone())),
    };
    assert(was_read(read, path@, content));
    assert(picture_outcome(content, width, height, r));
    r
}

} // verus!
