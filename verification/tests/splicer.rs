//! Tests of the font resolver and markup splicer.

use std::io::Write;

use hdiag::cli::FontFormat;
use hdiag::excalidraw::embed_fonts;
use hdiag::excalidraw::finish_render;
use hdiag::excalidraw::get_used_fonts;
use hdiag::excalidraw::postprocess_svg;
use hdiag::excalidraw::remove_fonts;
use hdiag::excalidraw::split_svg_with_fonts;
use hdiag::RenderError;

const START: &str = "<style class=\"style-fonts\">";
const END: &str = "</style>";

fn make_zip(entries: &[(&str, &[u8])]) -> Vec<u8> {
    let mut w = zip::ZipWriter::new(std::io::Cursor::new(Vec::new()));
    let opts = zip::write::SimpleFileOptions::default();
    for (name, bytes) in entries {
        w.start_file(*name, opts).unwrap();
        w.write_all(bytes).unwrap();
    }
    w.finish().unwrap().into_inner()
}

fn style_with_two_fonts() -> String {
    format!(
        "@font-face {{ font-family: \"Virgil\"; src: url(\"excalidraw-assets/Virgil.woff2\"); }}\
         @font-face {{ font-family: \"Cascadia\"; src: url(\"excalidraw-assets/Cascadia.woff2\"); }}"
    )
}

fn doc_with_style(style: &str) -> String {
    format!("<svg>{START}{style}{END}<text>hi</text></svg>")
}

#[test]
fn split_recovers_the_three_parts() {
    let doc = doc_with_style("STYLE TEXT");
    let (before, style, after) = split_svg_with_fonts(&doc).unwrap();
    assert_eq!(before, format!("<svg>{START}"));
    assert_eq!(style, "STYLE TEXT");
    assert_eq!(after, format!("{END}<text>hi</text></svg>"));
}

#[test]
fn split_searches_the_closing_marker_after_the_opening_one() {
    let doc = format!("{END}junk{START}X{END}");
    let (before, style, after) = split_svg_with_fonts(&doc).unwrap();
    assert_eq!(before, format!("{END}junk{START}"));
    assert_eq!(style, "X");
    assert_eq!(after, END);
}

#[test]
fn split_with_empty_style_block() {
    let doc = doc_with_style("");
    let (before, style, after) = split_svg_with_fonts(&doc).unwrap();
    assert_eq!(before, format!("<svg>{START}"));
    assert_eq!(style, "");
    assert_eq!(after, format!("{END}<text>hi</text></svg>"));
}

#[test]
fn used_fonts_of_empty_style_is_empty() {
    let refs = get_used_fonts("").unwrap();
    assert!(refs.is_empty());
}

#[test]
fn split_without_opening_marker_fails() {
    let r = split_svg_with_fonts("<svg>no style</svg>");
    assert_eq!(r.unwrap_err(), RenderError::MissingStyleStart);
}

#[test]
fn split_without_closing_marker_fails() {
    let doc = format!("<svg>{START}text");
    let r = split_svg_with_fonts(&doc);
    assert_eq!(r.unwrap_err(), RenderError::MissingStyleEnd);
}

#[test]
fn splice_then_split_recovers_the_replacement() {
    let doc = doc_with_style("OLD STYLE");
    let (before, _, after) = split_svg_with_fonts(&doc).unwrap();
    let spliced = format!("{before}NEW STYLE{after}");
    let (b2, s2, a2) = split_svg_with_fonts(&spliced).unwrap();
    assert_eq!(b2, before);
    assert_eq!(s2, "NEW STYLE");
    assert_eq!(a2, after);
}

#[test]
fn used_fonts_pairs_families_with_files_by_position() {
    let style = style_with_two_fonts();
    let refs = get_used_fonts(&style).unwrap();
    assert_eq!(refs.len(), 2);
    assert_eq!(refs[0].0, "Virgil");
    assert_eq!(refs[0].1, "Virgil.woff2");
    assert_eq!(refs[1].0, "Cascadia");
    assert_eq!(refs[1].1, "Cascadia.woff2");
}

#[test]
fn used_fonts_drops_the_surplus_side() {
    let style = "font-family: \"Only\"; \
                 url(\"excalidraw-assets/a.woff2\") url(\"excalidraw-assets/b.woff2\")";
    let refs = get_used_fonts(style).unwrap();
    assert_eq!(refs.len(), 1);
    assert_eq!(refs[0].0, "Only");
    assert_eq!(refs[0].1, "a.woff2");
}

#[test]
fn used_fonts_without_closing_quote_fails() {
    let style = "src: url(excalidraw-assets/unterminated";
    let r = get_used_fonts(style);
    assert_eq!(r.unwrap_err(), RenderError::MalformedStyle);
}

#[test]
fn embed_fonts_payloads_decode_to_the_original_bytes() {
    let virgil: Vec<u8> = (0u8..=255).collect();
    let cascadia = b"\x00\x01\x02woff2 bytes of unusual length!".to_vec();
    let fonts = make_zip(&[("Virgil.woff2", &virgil), ("Cascadia.woff2", &cascadia)]);
    let style = style_with_two_fonts();
    let css = embed_fonts(&style, &fonts).unwrap();

    let mut payloads = Vec::new();
    let mut rest = css.as_str();
    while let Some(i) = rest.find("base64,") {
        let tail = &rest[i + "base64,".len()..];
        let end = tail.find(')').unwrap();
        payloads.push(tail[..end].to_string());
        rest = &tail[end..];
    }
    assert_eq!(payloads.len(), 2);
    let decoded0 =
        base64::Engine::decode(&base64::engine::general_purpose::STANDARD, &payloads[0]).unwrap();
    let decoded1 =
        base64::Engine::decode(&base64::engine::general_purpose::STANDARD, &payloads[1]).unwrap();
    assert_eq!(decoded0, virgil);
    assert_eq!(decoded1, cascadia);
}

#[test]
fn embed_fonts_emits_exact_font_face_rules() {
    let bytes = b"abc".to_vec();
    let fonts = make_zip(&[("One.woff2", &bytes)]);
    let style = "font-family: \"One\"; src: url(\"excalidraw-assets/One.woff2\");";
    let css = embed_fonts(style, &fonts).unwrap();
    assert_eq!(
        css,
        "@font-face { font-family: \"One\"; \
         src: url(data:font/woff2;charset=utf-8;base64,YWJj) format('woff2'); }"
    );
}

#[test]
fn embed_fonts_with_no_references_is_empty() {
    let fonts = make_zip(&[]);
    let css = embed_fonts("no references here", &fonts).unwrap();
    assert_eq!(css, "");
}

#[test]
fn embed_fonts_missing_font_fails_whole_operation() {
    let fonts = make_zip(&[("Other.woff2", b"xyz")]);
    let style = "font-family: \"One\"; src: url(\"excalidraw-assets/One.woff2\");";
    let r = embed_fonts(style, &fonts);
    assert_eq!(r.unwrap_err(), RenderError::FontNotFound);
}

#[test]
fn embed_fonts_corrupt_archive_fails() {
    let style = "font-family: \"One\"; src: url(\"excalidraw-assets/One.woff2\");";
    let r = embed_fonts(style, b"this is not a zip archive");
    assert_eq!(r.unwrap_err(), RenderError::ArchiveCorrupt);
}

#[test]
fn remove_fonts_is_always_empty() {
    assert_eq!(remove_fonts(""), "");
    let style = style_with_two_fonts();
    assert_eq!(remove_fonts(&style), "");
}

#[test]
fn raw_format_returns_the_document_unchanged() {
    let doc = doc_with_style("whatever");
    let out = postprocess_svg(&doc, &FontFormat::Raw, &[]).unwrap();
    assert_eq!(out, doc);
    let unstructured = "<svg>no style block at all</svg>";
    let out = postprocess_svg(unstructured, &FontFormat::Raw, &[]).unwrap();
    assert_eq!(out, unstructured);
}

#[test]
fn embed_format_inlines_fonts_and_drops_asset_paths() {
    let virgil = b"virgil-bytes".to_vec();
    let cascadia = b"cascadia-bytes".to_vec();
    let fonts = make_zip(&[("Virgil.woff2", &virgil), ("Cascadia.woff2", &cascadia)]);
    let doc = doc_with_style(&style_with_two_fonts());
    let out = postprocess_svg(&doc, &FontFormat::Embed, &fonts).unwrap();
    assert_eq!(out.matches("@font-face").count(), 2);
    assert_eq!(out.matches("base64,").count(), 2);
    assert!(!out.contains("excalidraw-assets/"));
    assert!(out.contains("font-family: \"Virgil\""));
    assert!(out.contains("font-family: \"Cascadia\""));
    assert!(out.starts_with(&format!("<svg>{START}")));
    assert!(out.ends_with(&format!("{END}<text>hi</text></svg>")));
}

#[test]
fn nofont_format_strips_the_style_block() {
    let fonts = make_zip(&[]);
    let doc = doc_with_style(&style_with_two_fonts());
    let out = postprocess_svg(&doc, &FontFormat::NoFont, &fonts).unwrap();
    assert_eq!(out, format!("<svg>{START}{END}<text>hi</text></svg>"));
}

#[test]
fn path_format_fails_as_unsupported() {
    let doc = doc_with_style("style");
    let r = postprocess_svg(&doc, &FontFormat::Path, &[]);
    assert_eq!(r.unwrap_err(), RenderError::UnsupportedFormat);
}

#[test]
fn embed_format_on_markup_without_style_fails() {
    let r = postprocess_svg("<svg></svg>", &FontFormat::Embed, &[]);
    assert_eq!(r.unwrap_err(), RenderError::MissingStyleStart);
}

#[test]
fn finish_render_returns_the_delivered_bytes() {
    let out = finish_render(Some(b"<svg/>".to_vec())).unwrap();
    assert_eq!(out, b"<svg/>".to_vec());
}

#[test]
fn finish_render_reports_an_abandoned_channel() {
    let r = finish_render(None);
    assert_eq!(r.unwrap_err(), RenderError::ChannelClosed);
}
