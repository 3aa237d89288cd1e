//! The enumerated media-type classification tables: the core media types an
//! EPUB reader must render natively, plus an unrecognized escape hatch. A
//! manifest item's media type is classified, never rejected: an unknown type
//! stays `Unrecognized` and decoding continues.

use vstd::prelude::*;

use crate::error::EPUBError;

verus! {

#[derive(Debug, Clone, Copy, PartialEq, Eq, Hash, Structural)]
pub enum ImageType {
    GIF,
    JPEG,
    PNG,
    SVG,
}

#[derive(Debug, Clone, Copy, PartialEq, Eq, Hash, Structural)]
pub enum ApplicationType {
    /// XHTML content documents and the navigation document.
    XHTML,
    /// OpenType fonts.
    OpenType,
    /// WOFF fonts.
    WOFF,
    /// Media overlay documents.
    MediaOverlays,
    /// Text-to-speech pronunciation lexicons.
    PLS,
}

#[derive(Debug, Clone, Copy, PartialEq, Eq, Hash, Structural)]
pub enum AudioType {
    /// MP3 audio.
    MPEG,
    /// AAC LC audio in an MP4 container.
    MP4,
}

#[derive(Debug, Clone, Copy, PartialEq, Eq, Hash, Structural)]
pub enum TextType {
    CSS,
    JS,
}

/// A manifest item's media type: one of the enumerated core media types, or
/// `Unrecognized` carrying the type string as given.
#[derive(Debug, Clone, PartialEq, Eq, Hash)]
pub enum MediaType {
    Image(ImageType),
    Application(ApplicationType),
    Audio(AudioType),
    Text(TextType),
    Unrecognized(String),
}

/// Mathematical model of a `MediaType`.
pub enum MediaTypeV {
    Image(ImageType),
    Application(ApplicationType),
    Audio(AudioType),
    Text(TextType),
    Unrecognized(Seq<char>),
}

impl View for MediaType {
    type V = MediaTypeV;

    open spec fn view(&self) -> MediaTypeV {
        match self {
            MediaType::Image(t) => MediaTypeV::Image(*t),
            MediaType::Application(t) => MediaTypeV::Application(*t),
            MediaType::Audio(t) => MediaTypeV::Audio(*t),
            MediaType::Text(t) => MediaTypeV::Text(*t),
            MediaType::Unrecognized(s) => MediaTypeV::Unrecognized(s@),
        }
    }
}

/// The classification of a media-type string: the core type it names, or
/// `Unrecognized` carrying the string itself.
pub open spec fn sp_classify(s: Seq<char>) -> MediaTypeV {
    if s == "image/gif"@ {
        MediaTypeV::Image(ImageType::GIF)
    } else if s == "image/jpeg"@ {
        MediaTypeV::Image(ImageType::JPEG)
    } else if s == "image/png"@ {
        MediaTypeV::Image(ImageType::PNG)
    } else if s == "image/svg+xml"@ {
        MediaTypeV::Image(ImageType::SVG)
    } else if s == "application/xhtml+xml"@ {
        MediaTypeV::Application(ApplicationType::XHTML)
    } else if s == "application/vnd.ms-opentype"@ {
        MediaTypeV::Application(ApplicationType::OpenType)
    } else if s == "application/font-woff"@ {
        MediaTypeV::Application(ApplicationType::WOFF)
    } else if s == "application/smil+xml"@ {
        MediaTypeV::Application(ApplicationType::MediaOverlays)
    } else if s == "application/pls+xml"@ {
        MediaTypeV::Application(ApplicationType::PLS)
    } else if s == "audio/mpeg"@ {
        MediaTypeV::Audio(AudioType::MPEG)
    } else if s == "audio/mp4"@ {
        MediaTypeV::Audio(AudioType::MP4)
    } else if s == "text/css"@ {
        MediaTypeV::Text(TextType::CSS)
    } else if s == "text/javascript"@ {
        MediaTypeV::Text(TextType::JS)
    } else {
        MediaTypeV::Unrecognized(s)
    }
}

/// The media-type string of a classified type; for `Unrecognized`, the
/// string as given.
pub open spec fn sp_mime(m: MediaTypeV) -> Seq<char> {
    match m {
        MediaTypeV::Image(ImageType::GIF) => "image/gif"@,
        MediaTypeV::Image(ImageType::JPEG) => "image/jpeg"@,
        MediaTypeV::Image(ImageType::PNG) => "image/png"@,
        MediaTypeV::Image(ImageType::SVG) => "image/svg+xml"@,
        MediaTypeV::Application(ApplicationType::XHTML) => "application/xhtml+xml"@,
        MediaTypeV::Application(ApplicationType::OpenType) => "application/vnd.ms-opentype"@,
        MediaTypeV::Application(ApplicationType::WOFF) => "application/font-woff"@,
        MediaTypeV::Application(ApplicationType::MediaOverlays) => "application/smil+xml"@,
        MediaTypeV::Application(ApplicationType::PLS) => "application/pls+xml"@,
        MediaTypeV::Audio(AudioType::MPEG) => "audio/mpeg"@,
        MediaTypeV::Audio(AudioType::MP4) => "audio/mp4"@,
        MediaTypeV::Text(TextType::CSS) => "text/css"@,
        MediaTypeV::Text(TextType::JS) => "text/javascript"@,
        MediaTypeV::Unrecognized(s) => s,
    }
}

/// The image type a file-name extension names, if any.
pub open spec fn sp_image_ext(s: Seq<char>) -> Option<ImageType> {
    if s == "gif"@ {
        Some(ImageType::GIF)
    } else if s == "jpeg"@ || s == "jpg"@ || s == "jpe"@ {
        Some(ImageType::JPEG)
    } else if s == "png"@ {
        Some(ImageType::PNG)
    } else if s == "svg"@ || s == "svgz"@ {
        Some(ImageType::SVG)
    } else {
        None
    }
}

/// The application type a file-name extension names, if any.
pub open spec fn sp_application_ext(s: Seq<char>) -> Option<ApplicationType> {
    if s == "xhtml"@ || s == "xht"@ {
        Some(ApplicationType::XHTML)
    } else if s == "otf"@ || s == "otc"@ || s == "ttf"@ || s == "ttc"@ {
        Some(ApplicationType::OpenType)
    } else if s == "woff"@ || s == "woff2"@ {
        Some(ApplicationType::WOFF)
    } else if s == "smil"@ {
        Some(ApplicationType::MediaOverlays)
    } else if s == "pls"@ {
        Some(ApplicationType::PLS)
    } else {
        None
    }
}

/// The audio type a file-name extension names, if any.
pub open spec fn sp_audio_ext(s: Seq<char>) -> Option<AudioType> {
    if s == "mp3"@ {
        Some(AudioType::MPEG)
    } else if s == "aac"@ || s == "mp4"@ {
        Some(AudioType::MP4)
    } else {
        None
    }
}

/// The text type a file-name extension names, if any.
pub open spec fn sp_text_ext(s: Seq<char>) -> Option<TextType> {
    if s == "css"@ {
        Some(TextType::CSS)
    } else if s == "js"@ {
        Some(TextType::JS)
    } else {
        None
    }
}

/// The core media type a file-name extension names, if any: the image,
/// application, audio and text tables consulted in that order.
pub open spec fn sp_of_extension(s: Seq<char>) -> Option<MediaTypeV> {
    match sp_image_ext(s) {
        Some(t) => Some(MediaTypeV::Image(t)),
        None => match sp_application_ext(s) {
            Some(t) => Some(MediaTypeV::Application(t)),
            None => match sp_audio_ext(s) {
                Some(t) => Some(MediaTypeV::Audio(t)),
                None => match sp_text_ext(s) {
                    Some(t) => Some(MediaTypeV::Text(t)),
                    None => None,
                },
            },
        },
    }
}

impl MediaType {
    /// Classifies a media-type string: a table lookup with an unrecognized
    /// escape hatch, never a failure.
    pub fn from_mime(s: &str) -> (r: MediaType)
        ensures
            r@ == sp_classify(s@),
    {
        if crate::markup::str_eq(s, "image/gif") {
            MediaType::Image(ImageType::GIF)
        } else if crate::markup::str_eq(s, "image/jpeg") {
            MediaType::Image(ImageType::JPEG)
        } else if crate::markup::str_eq(s, "image/png") {
            MediaType::Image(ImageType::PNG)
        } else if crate::markup::str_eq(s, "image/svg+xml") {
            MediaType::Image(ImageType::SVG)
        } else if crate::markup::str_eq(s, "application/xhtml+xml") {
            MediaType::Application(ApplicationType::XHTML)
        } else if crate::markup::str_eq(s, "application/vnd.ms-opentype") {
            MediaType::Application(ApplicationType::OpenType)
        } else if crate::markup::str_eq(s, "application/font-woff") {
            MediaType::Application(ApplicationType::WOFF)
        } else if crate::markup::str_eq(s, "application/smil+xml") {
            MediaType::Application(ApplicationType::MediaOverlays)
        } else if crate::markup::str_eq(s, "application/pls+xml") {
            MediaType::Application(ApplicationType::PLS)
        } else if crate::markup::str_eq(s, "audio/mpeg") {
            MediaType::Audio(AudioType::MPEG)
        } else if crate::markup::str_eq(s, "audio/mp4") {
            MediaType::Audio(AudioType::MP4)
        } else if crate::markup::str_eq(s, "text/css") {
            MediaType::Text(TextType::CSS)
        } else if crate::markup::str_eq(s, "text/javascript") {
            MediaType::Text(TextType::JS)
        } else {
            MediaType::Unrecognized(s.to_owned())
        }
    }

    /// The core media type a file-name extension names, or `MediaTypeError`
    /// for an extension outside the tables.
    pub fn from_str(s: &str) -> (r: Result<MediaType, EPUBError>)
        ensures
            (match r {
                Ok(m) => sp_of_extension(s@) == Some(m@),
                Err(e) => sp_of_extension(s@) is None && e == EPUBError::MediaTypeError,
            }),
    {
        match ImageType::from_str(s) {
            Ok(t) => Ok(MediaType::Image(t)),
            Err(_) => match ApplicationType::from_str(s) {
                Ok(t) => Ok(MediaType::Application(t)),
                Err(_) => match AudioType::from_str(s) {
                    Ok(t) => Ok(MediaType::Audio(t)),
                    Err(_) => match TextType::from_str(s) {
                        Ok(t) => Ok(MediaType::Text(t)),
                        Err(_) => Err(EPUBError::MediaTypeError),
                    },
                },
            },
        }
    }

    /// Whether this is a core media type: one a reader renders natively,
    /// needing no fallback.
    pub fn is_core_media_type(&self) -> (r: bool)
        ensures
            r == !(self@ is Unrecognized),
    {
        match self {
            MediaType::Unrecognized(_) => false,
            _ => true,
        }
    }

    /// The media-type string of this classification.
    pub fn to_string(&self) -> (r: String)
        ensures
            r@ == sp_mime(self@),
    {
        match self {
            MediaType::Image(ImageType::GIF) => String::from_str("image/gif"),
            MediaType::Image(ImageType::JPEG) => String::from_str("image/jpeg"),
            MediaType::Image(ImageType::PNG) => String::from_str("image/png"),
            MediaType::Image(ImageType::SVG) => String::from_str("image/svg+xml"),
            MediaType::Application(ApplicationType::XHTML) => String::from_str(
                "application/xhtml+xml",
            ),
            MediaType::Application(ApplicationType::OpenType) => String::from_str(
                "application/vnd.ms-opentype",
            ),
            MediaType::Application(ApplicationType::WOFF) => String::from_str(
                "application/font-woff",
            ),
            MediaType::Application(ApplicationType::MediaOverlays) => String::from_str(
                "application/smil+xml",
            ),
            MediaType::Application(ApplicationType::PLS) => String::from_str(
                "application/pls+xml",
            ),
            MediaType::Audio(AudioType::MPEG) => String::from_str("audio/mpeg"),
            MediaType::Audio(AudioType::MP4) => String::from_str("audio/mp4"),
            MediaType::Text(TextType::CSS) => String::from_str("text/css"),
            MediaType::Text(TextType::JS) => String::from_str("text/javascript"),
            MediaType::Unrecognized(s) => s.clone(),
        }
    }
}

impl Default for MediaType {
    /// The media type assumed when a manifest item names none: an XHTML
    /// content document.
    fn default() -> (r: MediaType)
        ensures
            r@ == MediaTypeV::Application(ApplicationType::XHTML),
    {
        MediaType::Application(ApplicationType::XHTML)
    }
}

impl ImageType {
    /// The image type a file-name extension names.
    pub fn from_str(s: &str) -> (r: Result<ImageType, EPUBError>)
        ensures
            (match r {
                Ok(t) => sp_image_ext(s@) == Some(t),
                Err(e) => sp_image_ext(s@) is None && e == EPUBError::MediaTypeError,
            }),
    {
        if crate::markup::str_eq(s, "gif") {
            Ok(ImageType::GIF)
        } else if crate::markup::str_eq(s, "jpeg") || crate::markup::str_eq(s, "jpg")
            || crate::markup::str_eq(s, "jpe") {
            Ok(ImageType::JPEG)
        } else if crate::markup::str_eq(s, "png") {
            Ok(ImageType::PNG)
        } else if crate::markup::str_eq(s, "svg") || crate::markup::str_eq(s, "svgz") {
            Ok(ImageType::SVG)
        } else {
            Err(EPUBError::MediaTypeError)
        }
    }

    /// The subtype part of the image type's media-type string.
    pub fn to_string(&self) -> (r: String)
        ensures
            (match self {
                ImageType::GIF => r@ == "gif"@,
                ImageType::JPEG => r@ == "jpeg"@,
                ImageType::PNG => r@ == "png"@,
                ImageType::SVG => r@ == "svg+xml"@,
            }),
    {
        match self {
            ImageType::GIF => String::from_str("gif"),
            ImageType::JPEG => String::from_str("jpeg"),
            ImageType::PNG => String::from_str("png"),
            ImageType::SVG => String::from_str("svg+xml"),
        }
    }
}

impl ApplicationType {
    /// The application type a file-name extension names.
    pub fn from_str(s: &str) -> (r: Result<ApplicationType, EPUBError>)
        ensures
            (match r {
                Ok(t) => sp_application_ext(s@) == Some(t),
                Err(e) => sp_application_ext(s@) is None && e == EPUBError::MediaTypeError,
            }),
    {
        if crate::markup::str_eq(s, "xhtml") || crate::markup::str_eq(s, "xht") {
            Ok(ApplicationType::XHTML)
        } else if crate::markup::str_eq(s, "otf") || crate::markup::str_eq(s, "otc")
            || crate::markup::str_eq(s, "ttf") || crate::markup::str_eq(s, "ttc") {
            Ok(ApplicationType::OpenType)
        } else if crate::markup::str_eq(s, "woff") || crate::markup::str_eq(s, "woff2") {
            Ok(ApplicationType::WOFF)
        } else if crate::markup::str_eq(s, "smil") {
            Ok(ApplicationType::MediaOverlays)
        } else if crate::markup::str_eq(s, "pls") {
            Ok(ApplicationType::PLS)
        } else {
            Err(EPUBError::MediaTypeError)
        }
    }

    /// The subtype part of the application type's media-type string.
    pub fn to_string(&self) -> (r: String)
        ensures
            (match self {
                ApplicationType::XHTML => r@ == "xhtml+xml"@,
                ApplicationType::OpenType => r@ == "vnd.ms-opentype"@,
                ApplicationType::WOFF => r@ == "font-woff"@,
                ApplicationType::MediaOverlays => r@ == "smil+xml"@,
                ApplicationType::PLS => r@ == "pls+xml"@,
            }),
    {
        match self {
            ApplicationType::XHTML => String::from_str("xhtml+xml"),
            ApplicationType::OpenType => String::from_str("vnd.ms-opentype"),
            ApplicationType::WOFF => String::from_str("font-woff"),
            ApplicationType::MediaOverlays => String::from_str("smil+xml"),
            ApplicationType::PLS => String::from_str("pls+xml"),
        }
    }
}

impl AudioType {
    /// The audio type a file-name extension names.
    pub fn from_str(s: &str) -> (r: Result<AudioType, EPUBError>)
        ensures
            (match r {
                Ok(t) => sp_audio_ext(s@) == Some(t),
                Err(e) => sp_audio_ext(s@) is None && e == EPUBError::MediaTypeError,
            }),
    {
        if crate::markup::str_eq(s, "mp3") {
            Ok(AudioType::MPEG)
        } else if crate::markup::str_eq(s, "aac") || crate::markup::str_eq(s, "mp4") {
            Ok(AudioType::MP4)
        } else {
            Err(EPUBError::MediaTypeError)
        }
    }

    /// The subtype part of the audio type's media-type string.
    pub fn to_string(&self) -> (r: String)
        ensures
            (match self {
                AudioType::MPEG => r@ == "mpeg"@,
                AudioType::MP4 => r@ == "mp4"@,
            }),
    {
        match self {
            AudioType::MPEG => String::from_str("mpeg"),
            AudioType::MP4 => String::from_str("mp4"),
        }
    }
}

impl TextType {
    /// The text type a file-name extension names.
    pub fn from_str(s: &str) -> (r: Result<TextType, EPUBError>)
        ensures
            (match r {
                Ok(t) => sp_text_ext(s@) == Some(t),
                Err(e) => sp_text_ext(s@) is None && e == EPUBError::MediaTypeError,
            }),
    {
        if crate::markup::str_eq(s, "css") {
            Ok(TextType::CSS)
        } else if crate::markup::str_eq(s, "js") {
            Ok(TextType::JS)
        } else {
            Err(EPUBError::MediaTypeError)
        }
    }

    /// The subtype part of the text type's media-type string.
    pub fn to_string(&self) -> (r: String)
        ensures
            (match self {
                TextType::CSS => r@ == "css"@,
                TextType::JS => r@ == "javascript"@,
            }),
    {
        match self {
            TextType::CSS => String::from_str("css"),
            TextType::JS => String::from_str("javascript"),
        }
    }
}

} // verus!
