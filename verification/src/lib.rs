//! Core of a diagram-to-SVG renderer: an asset server's request logic, the
//! render transaction's export configuration, and a font resolver / markup
//! splicer that post-processes the rendered vector markup.
//!
//! The surrounding process (CLI parsing, the HTTP listener, the headless
//! browser) lives outside this crate; everything here is pure computation
//! over plain values, with the archive and encoding crates behind small
//! trusted wrappers.

pub mod archive;
pub mod b64;
pub mod cli;
pub mod excalidraw;
pub mod serve_zip;
pub mod text;

use vstd::prelude::*;

verus! {

/// Errors of a render transaction and its post-processing stage.
#[derive(Clone, Copy, Debug, PartialEq, Eq, Structural)]
pub enum RenderError {
    /// The markup holds no opening style marker.
    MissingStyleStart,
    /// The markup holds no closing style marker after the opening one.
    MissingStyleEnd,
    /// A font reference in the style block is not terminated by a quote.
    MalformedStyle,
    /// A referenced font file is absent from the font archive (or cannot be
    /// extracted from it).
    FontNotFound,
    /// A referenced font file is too large to base64-encode in memory.
    FontTooLarge,
    /// The font archive is not a well-formed zip container.
    ArchiveCorrupt,
    /// The selected output format is accepted but not implemented.
    UnsupportedFormat,
    /// The result channel was abandoned before a rendered document arrived.
    ChannelClosed,
}

} // verus!
