//! Import/export backlog workflows: pure parsers and formatters for
//! Markdown checklists and CSV backlogs.
//!
//! Exports are deterministic: stable task ordering, stable field order,
//! documented CSV escaping (RFC 4180: fields containing commas, quotes or
//! newlines are quoted, quotes are doubled) and `\n` line endings.

pub mod export;
pub mod import;
pub mod roundtrip;

use vstd::prelude::*;

use crate::text::lower_ascii_text;

verus! {

/// Largest accepted import payload (bytes of the markdown/csv argument).
pub const MAX_IMPORT_BYTES: usize = 262144;

/// Largest number of backlog rows (tasks or errors) accepted by one import
/// call; each created task costs one Vikunja request.
pub const MAX_IMPORT_TASKS: usize = 100;

/// Output format of the export tools.
#[derive(Debug, Clone, Copy, PartialEq, Eq, Structural)]
pub enum ExportFormat {
    Json,
    Markdown,
    Csv,
}

pub open spec fn export_format_name(f: ExportFormat) -> Seq<char> {
    match f {
        ExportFormat::Json => "json"@,
        ExportFormat::Markdown => "markdown"@,
        ExportFormat::Csv => "csv"@,
    }
}

/// The identifier of each format, as written in this enum.
pub open spec fn export_format_identifier(f: ExportFormat) -> Seq<char> {
    match f {
        ExportFormat::Json => "Json"@,
        ExportFormat::Markdown => "Markdown"@,
        ExportFormat::Csv => "Csv"@,
    }
}

/// The name of each format is its identifier in lower case.
pub proof fn lemma_export_format_names_are_lowercased(f: ExportFormat)
    ensures
        export_format_name(f) == lower_ascii_text(export_format_identifier(f)),
{
    reveal_strlit("Json");
    reveal_strlit("json");
    reveal_strlit("Markdown");
    reveal_strlit("markdown");
    reveal_strlit("Csv");
    reveal_strlit("csv");
    assert(lower_ascii_text("Json"@) =~= "json"@);
    assert(lower_ascii_text("Markdown"@) =~= "markdown"@);
    assert(lower_ascii_text("Csv"@) =~= "csv"@);
}

impl ExportFormat {
    /// The lowercase name used in tool arguments and results.
    pub fn as_str(self) -> (r: &'static str)
        ensures
            r@ == export_format_name(self),
    {
        match self {
            ExportFormat::Json => "json",
            ExportFormat::Markdown => "markdown",
            ExportFormat::Csv => "csv",
        }
    }
}

} // verus!
