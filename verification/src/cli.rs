//! The commands the program understands, as plain values.
use vstd::prelude::*;

use crate::history::HistoryAction;
use crate::rect::Rect;

verus! {

/// A parsed command line.
#[derive(Debug)]
pub struct Cli {
    pub command: Command,
}

/// One subcommand and its options; paths are kept as text.
#[allow(inconsistent_fields)]
#[derive(Debug)]
pub enum Command {
    Full {
        output: Option<String>,
        output_dir: Option<String>,
        open: bool,
        reveal: bool,
        preview: bool,
        edit: bool,
        clipboard: bool,
    },
    Region {
        rect: Option<Rect>,
        output: Option<String>,
        output_dir: Option<String>,
        open: bool,
        reveal: bool,
        preview: bool,
        edit: bool,
        clipboard: bool,
    },
    Edit { file: String, output: Option<String> },
    Tray,
    Redact { file: String, rect: Rect, output: Option<String> },
    Highlight { file: String, rect: Rect, output: Option<String> },
    Crop { file: String, rect: Rect, output: Option<String> },
    History { limit: usize, open: Option<usize>, reveal: Option<usize> },
    Config { command: ConfigCommand },
}

/// The `config` subcommands.
#[derive(Debug)]
pub enum ConfigCommand {
    Path,
    Dir,
    OutputDir { path: Option<String> },
    Show,
    Open,
    Validate,
    Reset,
    SetKey { key: ConfigKey, value: String },
}

/// The settings that `config set` can change.
#[derive(Clone, Copy, Debug, PartialEq, Eq, Structural)]
pub enum ConfigKey {
    OutputDir,
}

/// The history action that `--open` or `--reveal` asks for; none when
/// neither or both are given.
pub fn history_action(open: Option<usize>, reveal: Option<usize>) -> (r: Option<HistoryAction>)
    ensures
        r == match (open, reveal) {
            (Some(index), None) => Some(HistoryAction::Open(index)),
            (None, Some(index)) => Some(HistoryAction::Reveal(index)),
            _ => None,
        },
{
    match (open, reveal) {
        (Some(index), None) => Some(HistoryAction::Open(index)),
        (None, Some(index)) => Some(HistoryAction::Reveal(index)),
        _ => None,
    }
}

/// Where a capture is written.
#[derive(Debug)]
pub enum CaptureOutput {
    /// Exactly this file.
    File(String),
    /// A new file named after the capture time in this directory.
    Directory(String),
}

/// Where a capture goes, when the command line decides it; `None` leaves it to
/// the configured output directory.
///
/// An explicit output file wins over an output directory.
pub fn capture_output(output: Option<String>, output_dir: Option<String>) -> (r: Option<CaptureOutput>)
    ensures
        r == match (output, output_dir) {
            (Some(file), _) => Some(CaptureOutput::File(file)),
            (None, Some(dir)) => Some(CaptureOutput::Directory(dir)),
            (None, None) => None,
        },
{
    match (output, output_dir) {
        (Some(file), _) => Some(CaptureOutput::File(file)),
        (None, Some(dir)) => Some(CaptureOutput::Directory(dir)),
        (None, None) => None,
    }
}

} // verus!
