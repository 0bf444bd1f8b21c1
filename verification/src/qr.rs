//! QR codes of secrets, as an image and as text.

use vstd::prelude::*;

verus! {

/// The PNG image that `qrcode` and `image` make of `data`, or the message of
/// the error when they make none.
pub uninterp spec fn qr_png(data: Seq<u8>) -> Result<Seq<u8>, Seq<char>>;

/// The text that `qrcode` makes of `data` with `dark` for a dark module, a
/// space for a light one, and modules `width` characters wide and `height`
/// lines high, or the message of the error.
pub uninterp spec fn qr_ascii(data: Seq<u8>, dark: char, width: u32, height: u32) -> Result<
    Seq<char>,
    Seq<char>,
>;

/// The character that stands for a dark module in a code of plain characters.
pub const DARK_MODULE: char = '#';

/// How many characters wide a module is in a code of plain characters: two,
/// since a character is about twice as high as it is wide.
pub const MODULE_WIDTH: u32 = 2;

/// How many lines high a module is in a code of plain characters.
pub const MODULE_HEIGHT: u32 = 1;

/// The QR code of `data` in plain characters, or the message of the error.
pub open spec fn ascii_code(data: Seq<u8>) -> Result<Seq<char>, Seq<char>> {
    qr_ascii(data, DARK_MODULE, MODULE_WIDTH, MODULE_HEIGHT)
}

/// The text that `qrcode` makes of `data` with half-block characters, dark
/// and light exchanged, or the message of the error.
pub uninterp spec fn qr_unicode(data: Seq<u8>) -> Result<Seq<char>, Seq<char>>;

/// `qrcode::QrCode::new`, rendered as grey pixels by `Renderer::build` and
/// written as PNG by `image::ImageBuffer::write_to`. An error of either
/// crate comes back as its message. The result depends on `data` alone.
#[verifier::external_body]
fn png_of(data: &[u8]) -> (png: Result<Vec<u8>, String>)
    ensures
        qr_png(data@) == match png {
            Ok(bytes) => Ok::<Seq<u8>, Seq<char>>(bytes@),
            Err(message) => Err::<Seq<u8>, Seq<char>>(message@),
        },
{
    let code = qrcode::QrCode::new(data).map_err(|e| e.to_string())?;
    let image = code.render::<image::Luma<u8>>().build();
    let mut bytes = Vec::new();
    let mut writer = std::io::Cursor::new(&mut bytes);
    image.write_to(&mut writer, image::ImageFormat::Png).map_err(|e| e.to_string())?;
    Ok(bytes)
}

/// `qrcode::QrCode::new`, rendered as characters by `Renderer::build` with
/// `dark` for a dark module and modules of `width` by `height` characters.
/// An error comes back as its message. The result depends on the arguments
/// alone. The module's size is kept small, so that the size of the text
/// stays far from what a machine word can count.
#[verifier::external_body]
fn ascii_of(data: &[u8], dark: char, width: u32, height: u32) -> (text: Result<String, String>)
    requires
        0 < width <= 16,
        0 < height <= 16,
    ensures
        qr_ascii(data@, dark, width, height) == match text {
            Ok(t) => Ok::<Seq<char>, Seq<char>>(t@),
            Err(message) => Err::<Seq<char>, Seq<char>>(message@),
        },
{
    let code = qrcode::QrCode::new(data).map_err(|e| e.to_string())?;
    Ok(code.render::<char>().dark_color(dark).module_dimensions(width, height).build())
}

/// `qrcode::QrCode::new`, rendered by `Renderer::build` as half-block
/// characters that hold two modules each, with dark and light exchanged so
/// that the code reads on a dark terminal. An error comes back as its
/// message. The result depends on `data` alone.
#[verifier::external_body]
fn unicode_of(data: &[u8]) -> (text: Result<String, String>)
    ensures
        qr_unicode(data@) == match text {
            Ok(t) => Ok::<Seq<char>, Seq<char>>(t@),
            Err(message) => Err::<Seq<char>, Seq<char>>(message@),
        },
{
    let code = qrcode::QrCode::new(data).map_err(|e| e.to_string())?;
    let dark = qrcode::render::unicode::Dense1x2::Light;
    let light = qrcode::render::unicode::Dense1x2::Dark;
    Ok(code.render::<qrcode::render::unicode::Dense1x2>().dark_color(dark).light_color(light).build())
}

/// Why a secret could not be shown as a QR code.
#[derive(Debug)]
pub struct QrError {
    /// What the encoder said.
    pub message: String,
}

/// The QR code of a secret as a PNG image.
pub fn encode_png(data: &[u8]) -> (png: Result<Vec<u8>, QrError>)
    ensures
        qr_png(data@) == match png {
            Ok(bytes) => Ok::<Seq<u8>, Seq<char>>(bytes@),
            Err(e) => Err::<Seq<u8>, Seq<char>>(e.message@),
        },
{
    match png_of(data) {
        Ok(bytes) => Ok(bytes),
        Err(message) => Err(QrError { message }),
    }
}

/// The QR code of a secret as text in plain characters.
pub fn encode_ascii(data: &[u8]) -> (text: Result<String, QrError>)
    ensures
        ascii_code(data@) == match text {
            Ok(t) => Ok::<Seq<char>, Seq<char>>(t@),
            Err(e) => Err::<Seq<char>, Seq<char>>(e.message@),
        },
{
    match ascii_of(data, DARK_MODULE, MODULE_WIDTH, MODULE_HEIGHT) {
        Ok(text) => Ok(text),
        Err(message) => Err(QrError { message }),
    }
}

/// The QR code of a secret as text in half-block characters.
pub fn encode_unicode(data: &[u8]) -> (text: Result<String, QrError>)
    ensures
        qr_unicode(data@) == match text {
            Ok(t) => Ok::<Seq<char>, Seq<char>>(t@),
            Err(e) => Err::<Seq<char>, Seq<char>>(e.message@),
        },
{
    match unicode_of(data) {
        Ok(text) => Ok(text),
        Err(message) => Err(QrError { message }),
    }
}

} // verus!
