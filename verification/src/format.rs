//! Telling the format of a subtitle file from its name and first bytes.

use vstd::prelude::*;

verus! {

/// The subtitle formats that can be told apart.
#[derive(Clone, Copy, Debug, PartialEq, Eq, Structural)]
pub enum SubtitleFormat {
    /// `.srt`
    SubRip,
    /// `.ssa` and `.ass`
    SubStationAlpha,
    /// `.idx`
    VobSubIdx,
    /// `.sub` with binary content
    VobSubSub,
    /// `.sub` with text content
    MicroDVD,
}

/// Why a subtitle file was not loaded.
#[derive(Clone, Copy, Debug, PartialEq, Eq, Structural)]
pub enum LoadError {
    /// Neither the extension nor the content says which format the file has.
    UnsupportedFormat,
}

/// Whether `content` begins with the four bytes that open a binary `.sub`
/// file.
pub open spec fn has_vobsub_magic(content: Seq<u8>) -> bool {
    content.len() >= 4 && content[0] == 0x00 && content[1] == 0x00 && content[2] == 0x01
        && content[3] == 0xba
}

/// The format that a file with the extension `extension`, written without
/// its dot, and the content `content` has. The extension decides; only for
/// `sub` the content is looked at.
pub open spec fn format_of(extension: Option<Seq<char>>, content: Seq<u8>) -> Option<
    SubtitleFormat,
> {
    if extension == Some("sub"@) {
        if has_vobsub_magic(content) {
            Some(SubtitleFormat::VobSubSub)
        } else {
            Some(SubtitleFormat::MicroDVD)
        }
    } else if extension == Some("srt"@) {
        Some(SubtitleFormat::SubRip)
    } else if extension == Some("ssa"@) || extension == Some("ass"@) {
        Some(SubtitleFormat::SubStationAlpha)
    } else if extension == Some("idx"@) {
        Some(SubtitleFormat::VobSubIdx)
    } else {
        None
    }
}

pub open spec fn extension_view(extension: Option<&str>) -> Option<Seq<char>> {
    match extension {
        Some(e) => Some(e@),
        None => None,
    }
}

/// Calls `subparse::get_subtitle_format`. That function compares the
/// extension with `sub`, `srt`, `ssa`, `ass` and `idx`, in that order and
/// letter for letter; for `sub` it compares the first four bytes of the
/// content with 00 00 01 ba; every other extension, and none, gives nothing.
#[verifier::external_body]
fn detect_format(extension: Option<&str>, content: &[u8]) -> (format: Option<SubtitleFormat>)
    ensures
        format == format_of(extension_view(extension), content@),
{
    let ext = match extension {
        Some(e) => Some(std::path::Path::new(e).as_os_str()),
        None => None,
    };
    match subparse::get_subtitle_format(ext, content) {
        Some(subparse::SubtitleFormat::SubRip) => Some(SubtitleFormat::SubRip),
        Some(subparse::SubtitleFormat::SubStationAlpha) => Some(SubtitleFormat::SubStationAlpha),
        Some(subparse::SubtitleFormat::VobSubIdx) => Some(SubtitleFormat::VobSubIdx),
        Some(subparse::SubtitleFormat::VobSubSub) => Some(SubtitleFormat::VobSubSub),
        Some(subparse::SubtitleFormat::MicroDVD) => Some(SubtitleFormat::MicroDVD),
        None => None,
    }
}

/// The format of a subtitle file, or `UnsupportedFormat` where neither its
/// extension nor its content tells.
pub fn subtitle_format(extension: Option<&str>, content: &[u8]) -> (r: Result<
    SubtitleFormat,
    LoadError,
>)
    ensures
        r == match format_of(extension_view(extension), content@) {
            Some(format) => Ok::<SubtitleFormat, LoadError>(format),
            None => Err(LoadError::UnsupportedFormat),
        },
{
    match detect_format(extension, content) {
        Some(format) => Ok(format),
        None => Err(LoadError::UnsupportedFormat),
    }
}

/// Whether a file of this format is text that can be read into lines.
/// A binary `.sub` file is not.
pub fn is_text_format(format: SubtitleFormat) -> (text: bool)
    ensures
        text == (format != SubtitleFormat::VobSubSub),
{
    match format {
        SubtitleFormat::VobSubSub => false,
        _ => true,
    }
}

} // verus!
