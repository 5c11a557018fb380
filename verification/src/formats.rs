//! The subtitle formats, how the format of a file is told from its name and
//! its content, and the rule that a track is written in the format in which
//! it was read.

use crate::errors::{Error, ErrorView};
use vstd::prelude::*;

verus! {

/// The subtitle formats that can be read and written.
#[derive(Clone, Copy, Debug, PartialEq, Eq, Hash, Structural)]
pub enum SubtitleFormat {
    /// `.srt`
    SubRip,
    /// `.ssa` and `.ass`
    SubStationAlpha,
    /// `.idx`: holds the start of each line only
    VobSubIdx,
    /// `.sub` with images
    VobSubSub,
    /// `.sub` with text and frame numbers
    MicroDVD,
}

/// Whether `path` ends with the characters of `ending`.
pub open spec fn has_ending(path: Seq<char>, ending: Seq<char>) -> bool {
    path.len() >= ending.len() && path.subrange(path.len() - ending.len(), path.len() as int)
        == ending
}

/// Whether `content` begins with the four bytes that open a VobSub `.sub`
/// file.
pub open spec fn has_vobsub_magic(content: Seq<u8>) -> bool {
    content.len() >= 4 && content[0] == 0x00 && content[1] == 0x00 && content[2] == 0x01
        && content[3] == 0xba
}

/// The format of the file `path` with the bytes `content`, where the two
/// tell one. The ending decides, but for `.sub`, which two formats share.
pub open spec fn detected_format(path: Seq<char>, content: Seq<u8>) -> Option<SubtitleFormat> {
    if has_ending(path, seq!['.', 's', 'u', 'b']) {
        if has_vobsub_magic(content) {
            Some(SubtitleFormat::VobSubSub)
        } else {
            Some(SubtitleFormat::MicroDVD)
        }
    } else if has_ending(path, seq!['.', 's', 'r', 't']) {
        Some(SubtitleFormat::SubRip)
    } else if has_ending(path, seq!['.', 's', 's', 'a']) || has_ending(
        path,
        seq!['.', 'a', 's', 's'],
    ) {
        Some(SubtitleFormat::SubStationAlpha)
    } else if has_ending(path, seq!['.', 'i', 'd', 'x']) {
        Some(SubtitleFormat::VobSubIdx)
    } else {
        None
    }
}

/// Calls `subparse::get_subtitle_format`. That function goes by the ending
/// of `path`: `.srt`, `.ssa` or `.ass`, `.idx`; for `.sub` it looks for the
/// bytes 00 00 01 ba at the start of `content` to tell VobSub from MicroDVD.
/// It knows no other ending. Not proved: it is assumed that it returns the
/// format that `detected_format` states.
#[verifier::external_body]
fn subparse_format(path: &str, content: &[u8]) -> (detected: Option<SubtitleFormat>)
    ensures
        detected == detected_format(path@, content@),
{
    match subparse::get_subtitle_format(path, content) {
        Some(subparse::SubtitleFormat::SubRip) => Some(SubtitleFormat::SubRip),
        Some(subparse::SubtitleFormat::SubStationAlpha) => Some(SubtitleFormat::SubStationAlpha),
        Some(subparse::SubtitleFormat::VobSubIdx) => Some(SubtitleFormat::VobSubIdx),
        Some(subparse::SubtitleFormat::VobSubSub) => Some(SubtitleFormat::VobSubSub),
        Some(subparse::SubtitleFormat::MicroDVD) => Some(SubtitleFormat::MicroDVD),
        None => None,
    }
}

/// The format of the file `path` with the bytes `content`.
pub fn get_subtitle_format_err(path: &str, content: &[u8]) -> (format: Result<
    SubtitleFormat,
    Error,
>)
    ensures
        match detected_format(path@, content@) {
            Some(detected) => format == Ok::<SubtitleFormat, Error>(detected),
            None => format.is_err() && format.unwrap_err()@ == (ErrorView::UnknownFileFormat {
                file: path@,
            }),
        },
{
    match subparse_format(path, content) {
        Some(format) => Ok(format),
        None => Err(Error::UnknownFileFormat { file: path.to_owned() }),
    }
}

/// What the check of the formats of a retiming gives: the formats of the
/// reference track and of the track to correct, or the first failure. The
/// format of the output is told from its name and the content of the track
/// to correct, and must be the format of that track.
pub open spec fn checked_formats(
    reference_path: Seq<char>,
    reference_content: Seq<u8>,
    incorrect_path: Seq<char>,
    incorrect_content: Seq<u8>,
    output_path: Seq<char>,
) -> Result<(SubtitleFormat, SubtitleFormat), ErrorView> {
    let reference = detected_format(reference_path, reference_content);
    let incorrect = detected_format(incorrect_path, incorrect_content);
    let output = detected_format(output_path, incorrect_content);
    if reference.is_none() {
        Err(ErrorView::UnknownFileFormat { file: reference_path })
    } else if incorrect.is_none() {
        Err(ErrorView::UnknownFileFormat { file: incorrect_path })
    } else if output.is_none() {
        Err(ErrorView::UnknownFileFormat { file: output_path })
    } else if incorrect.unwrap() != output.unwrap() {
        Err(
            ErrorView::DifferentOutputFormat {
                input_file: incorrect_path,
                output_file: output_path,
            },
        )
    } else {
        Ok((reference.unwrap(), incorrect.unwrap()))
    }
}

/// Tells the formats of the reference track and of the track to correct, and
/// refuses an output file whose name asks for another format than that of
/// the track to correct.
pub fn check_formats(
    reference_path: &str,
    reference_content: &[u8],
    incorrect_path: &str,
    incorrect_content: &[u8],
    output_path: &str,
) -> (formats: Result<(SubtitleFormat, SubtitleFormat), Error>)
    ensures
        match checked_formats(
            reference_path@,
            reference_content@,
            incorrect_path@,
            incorrect_content@,
            output_path@,
        ) {
            Ok(expected) => formats == Ok::<(SubtitleFormat, SubtitleFormat), Error>(expected),
            Err(expected) => formats.is_err() && formats.unwrap_err()@ == expected,
        },
{
    let reference = match get_subtitle_format_err(reference_path, reference_content) {
        Ok(format) => format,
        Err(e) => {
            return Err(e);
        },
    };
    let incorrect = match get_subtitle_format_err(incorrect_path, incorrect_content) {
        Ok(format) => format,
        Err(e) => {
            return Err(e);
        },
    };
    let output = match get_subtitle_format_err(output_path, incorrect_content) {
        Ok(format) => format,
        Err(e) => {
            return Err(e);
        },
    };
    if incorrect != output {
        return Err(
            Error::DifferentOutputFormat {
                input_file: incorrect_path.to_owned(),
                output_file: output_path.to_owned(),
            },
        );
    }
    Ok((reference, incorrect))
}

/// An output file whose name asks for another format than that of the track
/// to correct is refused, whatever the reference track is.
pub proof fn lemma_different_output_format_is_refused(
    reference_path: Seq<char>,
    reference_content: Seq<u8>,
    incorrect_path: Seq<char>,
    incorrect_content: Seq<u8>,
    output_path: Seq<char>,
)
    requires
        detected_format(incorrect_path, incorrect_content).is_some(),
        detected_format(output_path, incorrect_content).is_some(),
        detected_format(incorrect_path, incorrect_content) != detected_format(
            output_path,
            incorrect_content,
        ),
    ensures
        checked_formats(
            reference_path,
            reference_content,
            incorrect_path,
            incorrect_content,
            output_path,
        ).is_err(),
        detected_format(reference_path, reference_content).is_some() ==> checked_formats(
            reference_path,
            reference_content,
            incorrect_path,
            incorrect_content,
            output_path,
        ) == Err::<(SubtitleFormat, SubtitleFormat), ErrorView>(
            ErrorView::DifferentOutputFormat {
                input_file: incorrect_path,
                output_file: output_path,
            },
        ),
{
}

/// Whether a retimed track may be wrong in `format`: a format that holds
/// the start of each line only shows a line until the next one starts, so
/// new gaps between the lines are lost.
pub fn retiming_is_lossy(format: SubtitleFormat) -> (lossy: bool)
    ensures
        lossy == (format == SubtitleFormat::VobSubIdx),
{
    format == SubtitleFormat::VobSubIdx
}

} // verus!
