//! Deciding how a page is exported, the errors that exporting reports, and
//! the size of pixel buffers.

use vstd::prelude::*;
use crate::dpi::ImageFormat;

verus! {

/// How a page is turned into bytes.
#[derive(Clone, Copy, Debug, PartialEq, Eq, Structural)]
pub enum ExportPlan {
    /// Rasterise, then encode in this format.
    Encode(ImageFormat),
    /// Rasterise, then hand out the unencoded pixels.
    RawPixels,
    /// Record into a one-page PDF document.
    Pdf,
    /// Record into an SVG document.
    Svg,
}

/// The errors that exporting reports.
#[derive(Clone, Debug)]
pub enum ExportError {
    /// The page could not be rendered to a bitmap.
    NoBitmap,
    /// The page's layers could not be composed into a picture.
    NoPicture,
    /// The page has no area to draw an image into.
    EmptyImage,
    /// A page of a PDF document has no area.
    EmptyPdfPage,
    /// The encoder failed for the named format.
    EncodeFailed(String),
    /// The named format is not one the exporter knows.
    UnsupportedFormat(String),
}

/// The raster format that a format name selects; `raw` selects BMP, which
/// only marks the raster path and is never encoded.
pub open spec fn raster_format_of(format: Seq<char>) -> Option<ImageFormat> {
    if format == "jpg"@ || format == "jpeg"@ {
        Some(ImageFormat::Jpeg)
    } else if format == "png"@ {
        Some(ImageFormat::Png)
    } else if format == "webp"@ {
        Some(ImageFormat::Webp)
    } else if format == "raw"@ {
        Some(ImageFormat::Bmp)
    } else {
        None
    }
}

/// How a format name is exported, if the exporter knows it.
pub open spec fn plan_of(format: Seq<char>) -> Option<ExportPlan> {
    match raster_format_of(format) {
        Some(f) => if format == "raw"@ {
            Some(ExportPlan::RawPixels)
        } else {
            Some(ExportPlan::Encode(f))
        },
        None => if format == "pdf"@ {
            Some(ExportPlan::Pdf)
        } else if format == "svg"@ {
            Some(ExportPlan::Svg)
        } else {
            None
        },
    }
}

/// The text of an export error.
pub open spec fn message_text(e: ExportError) -> Seq<char> {
    match e {
        ExportError::NoBitmap => "Could not render bitmap"@,
        ExportError::NoPicture => "Could not generate an image"@,
        ExportError::EmptyImage => "Width and height must be non-zero to generate an image"@,
        ExportError::EmptyPdfPage => "Width and height must be non-zero to generate a PDF page"@,
        ExportError::EncodeFailed(f) => "Could not encode as "@ + f@,
        ExportError::UnsupportedFormat(f) => "Unsupported file format "@ + f@,
    }
}

/// Whether two strings hold the same characters.
pub fn same_text(a: &str, b: &str) -> (r: bool)
    ensures
        r == (a@ == b@),
{
    let n = a.unicode_len();
    if n != b.unicode_len() {
        return false;
    }
    let mut i: usize = 0;
    while i < n
        invariant
            n == a@.len() == b@.len(),
            i <= n,
            forall|j: int| 0 <= j < i ==> a@[j] == b@[j],
        decreases n - i,
    {
        if a.get_char(i) != b.get_char(i) {
            return false;
        }
        i = i + 1;
    }
    assert(a@ =~= b@);
    true
}

/// The raster format that a format name selects, as `raster_format_of`.
pub fn raster_format(format: &str) -> (r: Option<ImageFormat>)
    ensures
        r == raster_format_of(format@),
{
    if same_text(format, "jpg") || same_text(format, "jpeg") {
        Some(ImageFormat::Jpeg)
    } else if same_text(format, "png") {
        Some(ImageFormat::Png)
    } else if same_text(format, "webp") {
        Some(ImageFormat::Webp)
    } else if same_text(format, "raw") {
        Some(ImageFormat::Bmp)
    } else {
        None
    }
}

/// Decides how a page is exported: a page without a picture or without
/// area is refused (in that order), a known format gets its plan, and any
/// other format name is refused as unsupported.
pub fn plan_export(format: &str, has_picture: bool, is_empty: bool) -> (r: Result<ExportPlan, ExportError>)
    ensures
        !has_picture ==> r matches Err(ExportError::NoPicture),
        has_picture && is_empty ==> r matches Err(ExportError::EmptyImage),
        has_picture && !is_empty ==> match plan_of(format@) {
            Some(p) => r == Ok::<ExportPlan, ExportError>(p),
            None => r matches Err(ExportError::UnsupportedFormat(f)) && f@ == format@,
        },
{
    if !has_picture {
        return Err(ExportError::NoPicture);
    }
    if is_empty {
        return Err(ExportError::EmptyImage);
    }
    match raster_format(format) {
        Some(f) => if same_text(format, "raw") {
            Ok(ExportPlan::RawPixels)
        } else {
            Ok(ExportPlan::Encode(f))
        },
        None => if same_text(format, "pdf") {
            Ok(ExportPlan::Pdf)
        } else if same_text(format, "svg") {
            Ok(ExportPlan::Svg)
        } else {
            Err(ExportError::UnsupportedFormat(String::from_str(format)))
        },
    }
}

impl ExportError {
    /// The text of the error, as the exporter reports it.
    pub fn message(&self) -> (m: String)
        ensures
            m@ == message_text(*self),
    {
        match self {
            ExportError::NoBitmap => String::from_str("Could not render bitmap"),
            ExportError::NoPicture => String::from_str("Could not generate an image"),
            ExportError::EmptyImage => String::from_str(
                "Width and height must be non-zero to generate an image",
            ),
            ExportError::EmptyPdfPage => String::from_str(
                "Width and height must be non-zero to generate a PDF page",
            ),
            ExportError::EncodeFailed(f) => {
                let mut m = String::from_str("Could not encode as ");
                m.append(f.as_str());
                m
            },
            ExportError::UnsupportedFormat(f) => {
                let mut m = String::from_str("Unsupported file format ");
                m.append(f.as_str());
                m
            },
        }
    }
}

/// The number of bytes a pixel buffer of `width` by `height` pixels takes,
/// computed as `bytes_per_pixel * (width * height) as usize`.
pub fn pixel_buffer_len(bytes_per_pixel: usize, width: i32, height: i32) -> (n: usize)
    requires
        i32::MIN <= width * height <= i32::MAX,
        bytes_per_pixel * ((width * height) as usize) <= usize::MAX,
    ensures
        n == bytes_per_pixel * ((width * height) as usize),
{
    let area = width * height;
    bytes_per_pixel * (area as usize)
}

/// The first page of a PDF sequence that has no area: the pages before it
/// are appended to the document, and the document fails there.
pub fn first_empty_page(empty: &Vec<bool>) -> (r: Option<usize>)
    ensures
        r matches Some(i) ==> i < empty.len() && empty[i as int] && forall|j: int|
            0 <= j < i ==> !empty[j],
        r is None ==> forall|j: int| 0 <= j < empty.len() ==> !empty[j],
{
    let mut i: usize = 0;
    while i < empty.len()
        invariant
            i <= empty.len(),
            forall|j: int| 0 <= j < i ==> !empty[j],
        decreases empty.len() - i,
    {
        if empty[i] {
            return Some(i);
        }
        i = i + 1;
    }
    None
}

} // verus!
