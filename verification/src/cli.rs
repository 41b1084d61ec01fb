//! Caller-facing configuration of a render: input and output selection,
//! export options, and the JSON document served to the browser-side
//! application under `/export_opts`.

use crate::text::dec_str;
use crate::text::u64_dec;
use vstd::prelude::*;

verus! {

/// Raw command-line selections, before input-type inference and output-path
/// defaulting (both of which need the file system and stay with the caller).
pub struct Cli {
    /// Input file to read.
    pub input_file: String,
    /// Type of the input file.
    pub input_type: FileTypes,
    /// Path of the output file; default is the input's file name with an
    /// `svg` extension.
    pub output_path: Option<String>,
    /// What type of svg should be outputted.
    pub font_output_format: FontFormats,
    /// What theme the svg should be exported in.
    pub output_theme: OutputTheme,
    /// Whether the export should have a background.
    pub output_background: bool,
    /// Whether the export should bundle the diagram's own source.
    pub embed_source: bool,
    /// What scale the export should be in.
    pub scale: u8,
}

/// Input file types as selectable on the command line.
#[derive(Clone, Copy, Debug, PartialEq, Eq, Structural)]
pub enum FileTypes {
    /// A diagram document in the editor's JSON format.
    Excalidraw,
    /// A drawio mxGraph document.
    Drawio,
    /// Inferred from the file extension or content; the extension is
    /// preferred.
    Inferred,
}

/// Output font handling as selectable on the command line.
#[derive(Clone, Copy, Debug, PartialEq, Eq, Structural)]
pub enum FontFormats {
    /// The raw svg outputted by the renderer for the filetype.
    Raw,
    /// Embed no fonts into the svg, and rely on the system installed ones.
    NoFont,
    /// Embed the font files inside the svg.
    Embed,
    /// Convert all text in the svg to paths.
    Path,
}

/// Theme of the exported image.
#[derive(Clone, Copy, Debug, PartialEq, Eq, Structural)]
pub enum OutputTheme {
    Dark,
    Light,
}

/// A resolved input file type.
#[derive(Clone, Copy, Debug, PartialEq, Eq, Structural)]
pub enum FileType {
    Excalidraw,
    Drawio,
}

/// A resolved output format.
#[derive(Clone, Copy, Debug, PartialEq, Eq, Structural)]
pub enum FontFormat {
    Raw,
    Embed,
    Path,
    NoFont,
}

/// Export configuration of one render transaction.
#[derive(Clone, Copy, Debug, PartialEq, Eq, Structural)]
pub struct ExportOpts {
    pub theme: OutputTheme,
    pub include_background: bool,
    pub embed_source: bool,
    pub scale: u8,
}

/// Fully resolved options of one program run.
#[derive(Clone, Debug, PartialEq, Eq)]
pub struct Opts {
    pub input_file: String,
    pub input_type: FileType,
    pub output_file: String,
    pub output_format: FontFormat,
    pub export: ExportOpts,
}

/// The scale actually used for an export: out-of-range requests are
/// silently corrected to the nearest bound, never rejected.
pub open spec fn clamped_scale(s: u8) -> u8 {
    if s < 1 {
        1u8
    } else if s > 3 {
        3u8
    } else {
        s
    }
}

/// Clamp a requested export scale to the supported closed range `[1, 3]`.
///
/// A scale already in range is returned unchanged.
pub fn clamp_scale(s: u8) -> (r: u8)
    ensures
        r == clamped_scale(s),
        1 <= r <= 3,
        1 <= s <= 3 ==> r == s,
{
    if s < 1 {
        1
    } else if s > 3 {
        3
    } else {
        s
    }
}

/// The JSON rendering of a boolean.
pub open spec fn bool_str(b: bool) -> Seq<char> {
    if b {
        "true"@
    } else {
        "false"@
    }
}

/// The JSON document served under `/export_opts`: the export configuration
/// as the browser-side application reads it, with the scale already clamped
/// to `[1, 3]`.
pub open spec fn export_opts_json_spec(o: ExportOpts) -> Seq<char> {
    "{\"exportBackground\":"@ + bool_str(o.include_background) + ",\"exportEmbedScene\":"@
        + bool_str(o.embed_source) + ",\"exportWithDarkMode\":"@ + bool_str(
        o.theme == OutputTheme::Dark,
    ) + ",\"exportScale\":"@ + dec_str(clamped_scale(o.scale) as nat) + "}"@
}

/// Serialize an export configuration as the JSON document the browser-side
/// application requests at run time.
pub fn export_opts_json(o: &ExportOpts) -> (r: String)
    ensures
        r@ == export_opts_json_spec(*o),
{
    let mut s = String::from_str("{\"exportBackground\":");
    s.append(if o.include_background {
        "true"
    } else {
        "false"
    });
    s.append(",\"exportEmbedScene\":");
    s.append(if o.embed_source {
        "true"
    } else {
        "false"
    });
    s.append(",\"exportWithDarkMode\":");
    s.append(
        if matches!(o.theme, OutputTheme::Dark) {
            "true"
        } else {
            "false"
        },
    );
    s.append(",\"exportScale\":");
    let scale = clamp_scale(o.scale);
    let digits = u64_dec(scale as u64);
    s.append(digits.as_str());
    s.append("}");
    s
}

} // verus!
