//! The commands the pipeline runs, as plain values.
use vstd::prelude::*;

verus! {

/// A command line: which model it works on, and what to do with it.
#[derive(Debug, Clone)]
pub struct Cli {
    pub model: ModelCommand,
}

#[derive(Debug, Clone)]
pub enum ModelCommand {
    Stop(StopCommand),
}

#[derive(Debug, Clone)]
pub enum StopCommand {
    /// Exports stop data to a spreadsheet file.
    Export(ExportArgs),
    /// Formats stop data from different sources.
    Format(FormatCommand),
}

#[derive(Debug, Clone)]
pub enum FormatCommand {
    /// Pulls stops from the backend and formats them.
    Pull(PullFormatArgs),
    /// Reads stops from a spreadsheet, enriches their addresses and writes
    /// them to another spreadsheet.
    ReadXlsx(ReadXlsxFormatArgs),
    /// Gives the stops of an organization sequential codes of a pattern.
    StopId(StopIdArgs),
}

#[derive(Debug, Clone)]
pub struct ExportArgs {
    /// Output spreadsheet file name.
    pub file_name: String,
}

#[derive(Debug, Clone)]
pub struct PullFormatArgs {
    /// Whether to update the backend after formatting.
    pub update_backend: bool,
    /// Output spreadsheet file name.
    pub output_file: String,
}

#[derive(Debug, Clone)]
pub struct ReadXlsxFormatArgs {
    /// Spreadsheet to read stops from.
    pub file_path: String,
    /// Output spreadsheet file name.
    pub output_file: String,
    /// Whether to update the backend after formatting.
    pub update_backend: bool,
}

#[derive(Debug, Clone)]
pub struct StopIdArgs {
    /// The first code of the sequence, such as `ST000000`.
    pub pattern: String,
    /// The organization whose stops get codes.
    pub organization_id: String,
}

} // verus!
