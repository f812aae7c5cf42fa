//! File names and extensions: which inputs qualify, what an output is
//! called, where it is staged, and in which format it is encoded.

use crate::text::{eq_ignore_ascii_case, same_ignoring_case};
use vstd::prelude::*;
use vstd::string::StringExecFns;

verus! {

/// Format in which a result is encoded.
#[derive(Clone, Copy, Debug, PartialEq, Eq, Structural)]
pub enum OutputFormat {
    /// Lossy, with a quality from 1 to 100.
    Jpeg,
    /// Lossless.
    Png,
    /// Lossless.
    WebP,
}

/// What to do with a directory entry while collecting inputs.
#[derive(Clone, Copy, Debug, PartialEq, Eq, Structural)]
pub enum EntryAction {
    /// Collect the entries below this directory.
    Descend,
    /// Take the entry as an input.
    Take,
    /// Leave the entry alone.
    Skip,
}

/// Whether an extension names a supported raster format, in any case.
pub open spec fn supported_extension(ext: Seq<char>) -> bool {
    ||| same_ignoring_case(ext, "jpg"@)
    ||| same_ignoring_case(ext, "jpeg"@)
    ||| same_ignoring_case(ext, "png"@)
    ||| same_ignoring_case(ext, "webp"@)
    ||| same_ignoring_case(ext, "bmp"@)
    ||| same_ignoring_case(ext, "tiff"@)
    ||| same_ignoring_case(ext, "gif"@)
}

/// Whether an extension names a PDF document, in any case.
pub open spec fn pdf_extension(ext: Seq<char>) -> bool {
    same_ignoring_case(ext, "pdf"@)
}

/// The format for an extension: JPEG for `jpg` and `jpeg`, WebP for `webp`,
/// PNG for `png`, for any other extension and for none.
pub open spec fn format_of(ext: Option<Seq<char>>) -> OutputFormat {
    match ext {
        Some(e) => if same_ignoring_case(e, "jpg"@) || same_ignoring_case(e, "jpeg"@) {
            OutputFormat::Jpeg
        } else if same_ignoring_case(e, "webp"@) {
            OutputFormat::WebP
        } else {
            OutputFormat::Png
        },
        None => OutputFormat::Png,
    }
}

/// What becomes of a directory entry: a directory is descended into when
/// recursion is on and skipped when it is off, whatever its name; a file is
/// taken when its extension is supported; the rest is skipped.
pub open spec fn entry_action(is_dir: bool, recursive: bool, ext: Option<Seq<char>>) -> EntryAction {
    if is_dir {
        if recursive {
            EntryAction::Descend
        } else {
            EntryAction::Skip
        }
    } else if ext matches Some(e) && supported_extension(e) {
        EntryAction::Take
    } else {
        EntryAction::Skip
    }
}

/// The views of an optional text.
pub open spec fn text_of(text: Option<&str>) -> Option<Seq<char>> {
    match text {
        Some(t) => Some(t@),
        None => None,
    }
}

/// Name of the output for an input with the given stem and extension:
/// `stem_watermark.ext`, with `output` for a missing stem and `jpeg` for a
/// missing extension.
pub open spec fn output_name(stem: Option<Seq<char>>, ext: Option<Seq<char>>) -> Seq<char> {
    let s = match stem {
        Some(s) => s,
        None => "output"@,
    };
    let e = match ext {
        Some(e) => e,
        None => "jpeg"@,
    };
    s + "_watermark."@ + e
}

/// Tells whether an extension names a supported raster format.
pub fn is_supported_extension(ext: &str) -> (supported: bool)
    ensures
        supported == supported_extension(ext@),
{
    eq_ignore_ascii_case(ext, "jpg") || eq_ignore_ascii_case(ext, "jpeg") || eq_ignore_ascii_case(
        ext,
        "png",
    ) || eq_ignore_ascii_case(ext, "webp") || eq_ignore_ascii_case(ext, "bmp")
        || eq_ignore_ascii_case(ext, "tiff") || eq_ignore_ascii_case(ext, "gif")
}

/// Tells whether an extension names a PDF document.
pub fn is_pdf_extension(ext: &str) -> (pdf: bool)
    ensures
        pdf == pdf_extension(ext@),
{
    eq_ignore_ascii_case(ext, "pdf")
}

/// Chooses the output format from a file extension.
pub fn output_format(ext: Option<&str>) -> (format: OutputFormat)
    ensures
        format == format_of(text_of(ext)),
{
    match ext {
        Some(e) => {
            if eq_ignore_ascii_case(e, "jpg") || eq_ignore_ascii_case(e, "jpeg") {
                OutputFormat::Jpeg
            } else if eq_ignore_ascii_case(e, "webp") {
                OutputFormat::WebP
            } else {
                OutputFormat::Png
            }
        },
        None => OutputFormat::Png,
    }
}

/// Whether an entry is taken does not depend on recursion: the inputs found
/// without recursion are among those found with it, and a directory is
/// never an input.
pub proof fn lemma_taken_whatever_recursion(is_dir: bool, ext: Option<Seq<char>>)
    ensures
        entry_action(is_dir, false, ext) == EntryAction::Take <==> entry_action(is_dir, true, ext)
            == EntryAction::Take,
        entry_action(is_dir, false, ext) == EntryAction::Take ==> !is_dir,
        entry_action(is_dir, false, ext) != EntryAction::Descend,
{
}

/// Decides what to do with a directory entry.
pub fn classify_entry(is_dir: bool, recursive: bool, ext: Option<&str>) -> (action: EntryAction)
    ensures
        action == entry_action(is_dir, recursive, text_of(ext)),
{
    if is_dir {
        return if recursive {
            EntryAction::Descend
        } else {
            EntryAction::Skip
        };
    }
    match ext {
        Some(e) => {
            if is_supported_extension(e) {
                EntryAction::Take
            } else {
                EntryAction::Skip
            }
        },
        None => EntryAction::Skip,
    }
}

/// Builds the name of the output for an input.
pub fn watermarked_name(stem: Option<&str>, ext: Option<&str>) -> (name: String)
    ensures
        name@ == output_name(text_of(stem), text_of(ext)),
{
    let s: &str = match stem {
        Some(s) => s,
        None => "output",
    };
    let e: &str = match ext {
        Some(e) => e,
        None => "jpeg",
    };
    let mut name = String::from_str(s);
    name.append("_watermark.");
    name.append(e);
    name
}

/// Name under which an output is staged before it is published: the
/// destination with `.part` added.
pub fn staging_name(destination: &str) -> (name: String)
    ensures
        name@ == destination@ + ".part"@,
{
    let mut name = String::from_str(destination);
    name.append(".part");
    name
}

} // verus!
