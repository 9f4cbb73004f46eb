//! What is reported while archives are fetched and packages are installed.
//!
//! The library composes the lines; the caller prints them, in the colour
//! that the style of a line stands for.

use vstd::prelude::*;
use vstd::string::*;
use crate::text::{decimal, spec_decimal};

verus! {

/// The report of the fetching of archives.
#[derive(Debug)]
pub struct MistAcquireProgress {}

/// The report of the installation of packages.
#[derive(Debug)]
pub struct MistInstallProgress {}

/// How a line of the report is shown.
#[derive(Clone, Copy, Debug, PartialEq, Eq, Structural)]
pub enum LineStyle {
    /// An archive that is up to date.
    Hit,
    /// An archive that is fetched.
    Get,
    /// A failure that is ignored.
    Ignored,
    /// A failure.
    Failed,
}

/// A line of the report: a label, shown in the style's colour, and a
/// description after it.
#[derive(Debug)]
pub struct ProgressLine {
    pub style: LineStyle,
    pub label: String,
    pub description: String,
}

/// The mathematical value of a [`ProgressLine`].
pub ghost struct ProgressLineModel {
    pub style: LineStyle,
    pub label: Seq<char>,
    pub description: Seq<char>,
}

impl View for ProgressLine {
    type V = ProgressLineModel;

    open spec fn view(&self) -> ProgressLineModel {
        ProgressLineModel { style: self.style, label: self.label@, description: self.description@ }
    }
}

/// The width of the text `Progress: [100%] `, which stands before the bar.
pub const PROGRESS_STR_LEN: usize = 17;

impl MistAcquireProgress {
    /// The time between two pulses, in microseconds.
    pub fn pulse_interval(&self) -> (r: usize)
        ensures
            r == 500000,
    {
        500000
    }

    /// The line for an archive that is up to date.
    pub fn hit(&self, id: u32, description: String) -> (r: ProgressLine)
        ensures
            r@ == (ProgressLineModel {
                style: LineStyle::Hit,
                label: "Hit:"@ + spec_decimal(id as nat),
                description: description@,
            }),
    {
        ProgressLine {
            style: LineStyle::Hit,
            label: "Hit:".to_owned().concat(decimal(id as u64).as_str()),
            description,
        }
    }

    /// The line for an archive that is fetched.
    pub fn fetch(&self, id: u32, description: String, _file_size: u64) -> (r: ProgressLine)
        ensures
            r@ == (ProgressLineModel {
                style: LineStyle::Get,
                label: "Get:"@ + spec_decimal(id as nat),
                description: description@,
            }),
    {
        ProgressLine {
            style: LineStyle::Get,
            label: "Get:".to_owned().concat(decimal(id as u64).as_str()),
            description,
        }
    }

    /// The line for an archive that could not be fetched. With status 0 or
    /// 2 the failure is ignored.
    pub fn fail(&self, id: u32, description: String, status: u32, error_text: String) -> (r:
        ProgressLine)
        ensures
            r@ == (ProgressLineModel {
                style: if status == 0 || status == 2 {
                    LineStyle::Ignored
                } else {
                    LineStyle::Failed
                },
                label: (if status == 0 || status == 2 {
                    "Ign:"@
                } else {
                    "Err:"@
                }) + spec_decimal(id as nat) + " ("@ + error_text@ + ")"@,
                description: description@,
            }),
    {
        let ignored = status == 0 || status == 2;
        let mark = if ignored {
            "Ign:"
        } else {
            "Err:"
        };
        ProgressLine {
            style: if ignored {
                LineStyle::Ignored
            } else {
                LineStyle::Failed
            },
            label: mark.to_owned().concat(decimal(id as u64).as_str()).concat(" (").concat(
                error_text.as_str(),
            ).concat(")"),
            description,
        }
    }

    /// Whether the end of the fetching is reported: only where something
    /// was fetched.
    pub fn stop(&self, fetched_bytes: u64) -> (r: bool)
        ensures
            r == (fetched_bytes != 0),
    {
        fetched_bytes != 0
    }
}

impl MistInstallProgress {
    /// The spaces that stand before a percentage of `digits` digits, so
    /// that it takes three columns. A percentage has one to three digits.
    pub fn percent_padding(digits: usize) -> (r: Option<&'static str>)
        ensures
            match r {
                Some(p) => 1 <= digits <= 3 && p@ == match digits {
                    1 => "  "@,
                    2 => " "@,
                    _ => ""@,
                },
                None => digits < 1 || digits > 3,
            },
    {
        match digits {
            1 => Some("  "),
            2 => Some(" "),
            3 => Some(""),
            _ => None,
        }
    }

    /// The width of the progress bar on a terminal of `term_width` columns:
    /// what is left beside the text before it. There is no bar on a
    /// terminal that is too narrow for the text.
    pub fn bar_width(term_width: usize) -> (r: Option<u32>)
        ensures
            r == if PROGRESS_STR_LEN <= term_width && term_width - PROGRESS_STR_LEN <= u32::MAX {
                Some((term_width - PROGRESS_STR_LEN) as u32)
            } else {
                None
            },
    {
        if term_width < PROGRESS_STR_LEN {
            None
        } else {
            let width = term_width - PROGRESS_STR_LEN;
            if width > 0xffff_ffff {
                None
            } else {
                Some(width as u32)
            }
        }
    }
}

} // verus!
