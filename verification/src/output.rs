//! How a decrypted secret is handed to the user.
//!
//! The caller does the writing; what is written, and where to, is decided
//! here.

use vstd::prelude::*;

use crate::qr::encode_ascii;
use crate::qr::encode_png;
use crate::qr::encode_unicode;
use crate::qr::ascii_code;
use crate::qr::qr_png;
use crate::qr::qr_unicode;
use crate::qr::QrError;
use crate::text::bytes_to_string;
use crate::text::text_of;

verus! {

/// How `get` is to hand out a secret.
#[derive(Clone, Copy, Debug, PartialEq, Eq, Structural)]
pub enum OutputMode {
    /// Write the secret to standard output as it is.
    Plain,
    /// Copy the secret to the clipboard.
    Copy,
    /// Write a QR code of the secret to standard output as a PNG image.
    Qr,
    /// Print a QR code of the secret in plain characters.
    QrAscii,
    /// Print a QR code of the secret in half-block characters.
    QrUnicode,
}

/// How the interactive picker hands out a secret.
#[derive(Clone, Copy, Debug, PartialEq, Eq, Structural)]
pub enum LookupMode {
    /// Copy the secret to the clipboard.
    Copy,
    /// Print a QR code in half-block characters.
    QrCodeUnicode,
    /// Print a QR code in plain characters.
    QrCodeAscii,
    /// Write the secret to the terminal.
    Get,
    /// Let the user ask for single characters of the secret.
    Characters,
}

/// What the caller has to do with a secret.
#[derive(Debug)]
pub enum Output {
    /// Put these bytes on the clipboard.
    Clipboard(Vec<u8>),
    /// Write these bytes to standard output, and nothing after them.
    Bytes(Vec<u8>),
    /// Write these bytes to standard output, and a line break after them.
    BytesLine(Vec<u8>),
    /// Print this text as one line.
    Line(String),
    /// Ask which characters of this text are wanted, and show them.
    Characters(String),
}

/// What the interactive picker does with a secret.
#[derive(Debug)]
pub struct Shown {
    /// What the caller has to do with the secret.
    pub output: Output,
    /// Whether the user must confirm before the picker comes back.
    pub wait_for_user_ready: bool,
}

/// Why a secret could not be handed out.
#[derive(Debug)]
pub enum OutputError {
    /// The QR encoder failed, with this message.
    QrCode(String),
    /// The secret is not UTF-8 text.
    NotUtf8,
}

/// The mode that the flags of `get` ask for. The command line admits at
/// most one flag; were there several, the first of copy, PNG, plain
/// characters, half-blocks counts.
pub fn output_mode(copy: bool, qr: bool, qr_ascii: bool, qr_unicode: bool) -> (mode: OutputMode)
    ensures
        mode == if copy {
            OutputMode::Copy
        } else if qr {
            OutputMode::Qr
        } else if qr_ascii {
            OutputMode::QrAscii
        } else if qr_unicode {
            OutputMode::QrUnicode
        } else {
            OutputMode::Plain
        },
{
    if copy {
        OutputMode::Copy
    } else if qr {
        OutputMode::Qr
    } else if qr_ascii {
        OutputMode::QrAscii
    } else if qr_unicode {
        OutputMode::QrUnicode
    } else {
        OutputMode::Plain
    }
}

/// What `get` does with a secret in `mode`, given what the QR encoders
/// make of the secret.
pub open spec fn rendered(
    secret: Seq<u8>,
    mode: OutputMode,
    png: Result<Seq<u8>, Seq<char>>,
    ascii: Result<Seq<char>, Seq<char>>,
    unicode: Result<Seq<char>, Seq<char>>,
) -> Result<OutputView, Seq<char>> {
    match mode {
        OutputMode::Plain => Ok(OutputView::Bytes(secret)),
        OutputMode::Copy => Ok(OutputView::Clipboard(secret)),
        OutputMode::Qr => match png {
            Ok(bytes) => Ok(OutputView::Bytes(bytes)),
            Err(message) => Err(message),
        },
        OutputMode::QrAscii => match ascii {
            Ok(text) => Ok(OutputView::Line(text)),
            Err(message) => Err(message),
        },
        OutputMode::QrUnicode => match unicode {
            Ok(text) => Ok(OutputView::Line(text)),
            Err(message) => Err(message),
        },
    }
}

/// What an `Output` is, as mathematics.
pub enum OutputView {
    /// Bytes for the clipboard.
    Clipboard(Seq<u8>),
    /// Bytes for standard output.
    Bytes(Seq<u8>),
    /// Bytes for standard output, with a line break after them.
    BytesLine(Seq<u8>),
    /// A line of text.
    Line(Seq<char>),
    /// Text to pick characters from.
    Characters(Seq<char>),
}

impl View for Output {
    type V = OutputView;

    open spec fn view(&self) -> OutputView {
        match self {
            Output::Clipboard(b) => OutputView::Clipboard(b@),
            Output::Bytes(b) => OutputView::Bytes(b@),
            Output::BytesLine(b) => OutputView::BytesLine(b@),
            Output::Line(t) => OutputView::Line(t@),
            Output::Characters(t) => OutputView::Characters(t@),
        }
    }
}

/// What `get` does with a secret in `mode`. Only the QR encoders can fail.
pub fn render(secret: Vec<u8>, mode: OutputMode) -> (result: Result<Output, QrError>)
    ensures
        match result {
            Ok(output) => Ok(output@),
            Err(e) => Err(e.message@),
        } == rendered(secret@, mode, qr_png(secret@), ascii_code(secret@), qr_unicode(secret@)),
{
    match mode {
        OutputMode::Plain => Ok(Output::Bytes(secret)),
        OutputMode::Copy => Ok(Output::Clipboard(secret)),
        OutputMode::Qr => match encode_png(secret.as_slice()) {
            Ok(png) => Ok(Output::Bytes(png)),
            Err(e) => Err(e),
        },
        OutputMode::QrAscii => match encode_ascii(secret.as_slice()) {
            Ok(text) => Ok(Output::Line(text)),
            Err(e) => Err(e),
        },
        OutputMode::QrUnicode => match encode_unicode(secret.as_slice()) {
            Ok(text) => Ok(Output::Line(text)),
            Err(e) => Err(e),
        },
    }
}

impl LookupMode {
    /// Every mode, in the order in which the picker offers them.
    pub fn all() -> (modes: Vec<LookupMode>)
        ensures
            modes@ == seq![
                LookupMode::Copy,
                LookupMode::QrCodeUnicode,
                LookupMode::QrCodeAscii,
                LookupMode::Get,
                LookupMode::Characters,
            ],
    {
        let mut modes: Vec<LookupMode> = Vec::new();
        modes.push(LookupMode::Copy);
        modes.push(LookupMode::QrCodeUnicode);
        modes.push(LookupMode::QrCodeAscii);
        modes.push(LookupMode::Get);
        modes.push(LookupMode::Characters);
        modes
    }

    /// The line under which the picker offers this mode.
    pub fn text(&self) -> (text: &'static str)
        ensures
            text@ == match self {
                LookupMode::Copy => "Copy to clipboard"@,
                LookupMode::QrCodeUnicode => "Generate Unicode QR code"@,
                LookupMode::QrCodeAscii => "Generate ASCII QR code"@,
                LookupMode::Get => "Get and output to termainl"@,
                LookupMode::Characters =>
                    "Choose specific characters from a string and output to terminal"@,
            },
    {
        match self {
            LookupMode::Copy => "Copy to clipboard",
            LookupMode::QrCodeUnicode => "Generate Unicode QR code",
            LookupMode::QrCodeAscii => "Generate ASCII QR code",
            LookupMode::Get => "Get and output to termainl",
            LookupMode::Characters =>
                "Choose specific characters from a string and output to terminal",
        }
    }

    /// Whether the user must confirm before the picker comes back: after
    /// something was printed that the picker would paint over.
    pub fn waits_for_user(&self) -> (waits: bool)
        ensures
            waits == (self == LookupMode::QrCodeAscii || self == LookupMode::QrCodeUnicode || self
                == LookupMode::Get),
    {
        match self {
            LookupMode::Copy => false,
            LookupMode::QrCodeAscii => true,
            LookupMode::QrCodeUnicode => true,
            LookupMode::Get => true,
            LookupMode::Characters => false,
        }
    }
}

/// What the picker does with a secret in mode `lookup`, given what the QR
/// encoders make of the secret.
pub open spec fn queried(
    secret: Seq<u8>,
    lookup: LookupMode,
    ascii: Result<Seq<char>, Seq<char>>,
    unicode: Result<Seq<char>, Seq<char>>,
) -> Result<OutputView, Option<Seq<char>>> {
    match lookup {
        LookupMode::Copy => Ok(OutputView::Clipboard(secret)),
        LookupMode::QrCodeAscii => match ascii {
            Ok(text) => Ok(OutputView::Line(text)),
            Err(message) => Err(Some(message)),
        },
        LookupMode::QrCodeUnicode => match unicode {
            Ok(text) => Ok(OutputView::Line(text)),
            Err(message) => Err(Some(message)),
        },
        LookupMode::Get => Ok(OutputView::BytesLine(secret)),
        LookupMode::Characters => match text_of(secret) {
            Some(text) => Ok(OutputView::Characters(text)),
            None => Err(None),
        },
    }
}

/// What the picker does with a secret, after any transformation, in mode
/// `lookup`. Picking characters needs the secret to be UTF-8 text.
pub fn do_query(secret: Vec<u8>, lookup: LookupMode) -> (result: Result<Shown, OutputError>)
    ensures
        match result {
            Ok(shown) => Ok(shown.output@),
            Err(OutputError::QrCode(message)) => Err(Some(message@)),
            Err(OutputError::NotUtf8) => Err(None),
        } == queried(secret@, lookup, ascii_code(secret@), qr_unicode(secret@)),
        result matches Ok(shown) ==> shown.wait_for_user_ready == (lookup
            == LookupMode::QrCodeAscii || lookup == LookupMode::QrCodeUnicode || lookup
            == LookupMode::Get),
{
    let wait_for_user_ready = lookup.waits_for_user();
    let output = match lookup {
        LookupMode::Copy => Output::Clipboard(secret),
        LookupMode::QrCodeAscii => match encode_ascii(secret.as_slice()) {
            Ok(text) => Output::Line(text),
            Err(e) => {
                return Err(OutputError::QrCode(e.message));
            },
        },
        LookupMode::QrCodeUnicode => match encode_unicode(secret.as_slice()) {
            Ok(text) => Output::Line(text),
            Err(e) => {
                return Err(OutputError::QrCode(e.message));
            },
        },
        LookupMode::Get => Output::BytesLine(secret),
        LookupMode::Characters => match bytes_to_string(secret.as_slice()) {
            Some(text) => Output::Characters(text),
            None => {
                return Err(OutputError::NotUtf8);
            },
        },
    };
    Ok(Shown { output, wait_for_user_ready })
}

} // verus!
