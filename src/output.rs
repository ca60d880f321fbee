//! Choice of the output's field separator and compression from the
//! settings and the output path.

use vstd::prelude::*;
use crate::column::text_eq;

verus! {

/// The field separator of the output.
#[derive(Clone, Copy, Debug, PartialEq, Eq, Structural)]
pub enum OutputFormat {
    Csv,
    Tsv,
}

/// Whether the output is compressed.
#[derive(Clone, Copy, Debug, PartialEq, Eq, Structural)]
pub enum Compression {
    Plain,
    Gzip,
}

pub open spec fn starts_with(s: Seq<char>, p: Seq<char>) -> bool {
    s.len() >= p.len() && s.subrange(0, p.len() as int) == p
}

pub open spec fn ends_with(s: Seq<char>, p: Seq<char>) -> bool {
    s.len() >= p.len() && s.subrange(s.len() - p.len(), s.len() as int) == p
}

/// Whether `s` starts with `p`.
pub fn text_starts_with(s: &str, p: &str) -> (r: bool)
    ensures
        r == starts_with(s@, p@),
{
    let n = s.unicode_len();
    let m = p.unicode_len();
    m <= n && text_eq(s.substring_char(0, m), p)
}

/// Whether `s` ends with `p`.
pub fn text_ends_with(s: &str, p: &str) -> (r: bool)
    ensures
        r == ends_with(s@, p@),
{
    let n = s.unicode_len();
    let m = p.unicode_len();
    m <= n && text_eq(s.substring_char(n - m, n), p)
}

/// Whether the path stands for standard output or an open descriptor.
pub open spec fn is_stream_path(path: Seq<char>) -> bool {
    path == "-"@ || starts_with(path, "/dev/fd/"@)
}

/// The separator for a format setting (`csv`, `tsv` or `auto`) and an output
/// path; `auto` goes by the path. `None` when it cannot be told.
pub open spec fn output_format_spec(format: Seq<char>, path: Seq<char>) -> Option<OutputFormat> {
    if format == "csv"@ {
        Some(OutputFormat::Csv)
    } else if format == "tsv"@ {
        Some(OutputFormat::Tsv)
    } else if format != "auto"@ {
        None
    } else if is_stream_path(path) {
        Some(OutputFormat::Csv)
    } else if ends_with(path, ".csv"@) || ends_with(path, ".csv.gz"@) {
        Some(OutputFormat::Csv)
    } else if ends_with(path, ".tsv"@) || ends_with(path, ".tsv.gz"@) {
        Some(OutputFormat::Tsv)
    } else {
        None
    }
}

pub fn output_format_for(format: &str, path: &str) -> (r: Option<OutputFormat>)
    ensures
        r == output_format_spec(format@, path@),
{
    if text_eq(format, "csv") {
        Some(OutputFormat::Csv)
    } else if text_eq(format, "tsv") {
        Some(OutputFormat::Tsv)
    } else if !text_eq(format, "auto") {
        None
    } else if text_eq(path, "-") || text_starts_with(path, "/dev/fd/") {
        Some(OutputFormat::Csv)
    } else if text_ends_with(path, ".csv") || text_ends_with(path, ".csv.gz") {
        Some(OutputFormat::Csv)
    } else if text_ends_with(path, ".tsv") || text_ends_with(path, ".tsv.gz") {
        Some(OutputFormat::Tsv)
    } else {
        None
    }
}

/// The compression for a setting (`none`, `gzip` or `auto`) and an output
/// path; `auto` compresses a `.csv.gz` or `.tsv.gz` file and nothing else.
/// `None` when it cannot be told.
pub open spec fn compression_spec(mode: Seq<char>, path: Seq<char>) -> Option<Compression> {
    if mode == "none"@ {
        Some(Compression::Plain)
    } else if mode == "gzip"@ {
        Some(Compression::Gzip)
    } else if mode != "auto"@ {
        None
    } else if is_stream_path(path) {
        Some(Compression::Plain)
    } else if ends_with(path, ".csv.gz"@) || ends_with(path, ".tsv.gz"@) {
        Some(Compression::Gzip)
    } else if ends_with(path, ".csv"@) || ends_with(path, ".tsv"@) {
        Some(Compression::Plain)
    } else {
        None
    }
}

pub fn compression_for(mode: &str, path: &str) -> (r: Option<Compression>)
    ensures
        r == compression_spec(mode@, path@),
{
    if text_eq(mode, "none") {
        Some(Compression::Plain)
    } else if text_eq(mode, "gzip") {
        Some(Compression::Gzip)
    } else if !text_eq(mode, "auto") {
        None
    } else if text_eq(path, "-") || text_starts_with(path, "/dev/fd/") {
        Some(Compression::Plain)
    } else if text_ends_with(path, ".csv.gz") || text_ends_with(path, ".tsv.gz") {
        Some(Compression::Gzip)
    } else if text_ends_with(path, ".csv") || text_ends_with(path, ".tsv") {
        Some(Compression::Plain)
    } else {
        None
    }
}

} // verus!
