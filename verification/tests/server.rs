//! Tests of the asset server's request logic and the export configuration.

use std::io::Write;

use hdiag::cli::clamp_scale;
use hdiag::cli::export_opts_json;
use hdiag::cli::ExportOpts;
use hdiag::cli::OutputTheme;
use hdiag::serve_zip::content_type_for;
use hdiag::serve_zip::extension_of;
use hdiag::serve_zip::find_file_in_zip;
use hdiag::serve_zip::serve_path;
use hdiag::serve_zip::size_str;

fn make_zip(entries: &[(&str, &[u8])]) -> Vec<u8> {
    let mut w = zip::ZipWriter::new(std::io::Cursor::new(Vec::new()));
    let opts = zip::write::SimpleFileOptions::default();
    for (name, bytes) in entries {
        w.start_file(*name, opts).unwrap();
        w.write_all(bytes).unwrap();
    }
    w.finish().unwrap().into_inner()
}

#[test]
fn clamp_keeps_valid_scales() {
    assert_eq!(clamp_scale(1), 1);
    assert_eq!(clamp_scale(2), 2);
    assert_eq!(clamp_scale(3), 3);
}

#[test]
fn clamp_corrects_out_of_range_scales() {
    assert_eq!(clamp_scale(0), 1);
    assert_eq!(clamp_scale(5), 3);
    assert_eq!(clamp_scale(255), 3);
}

#[test]
fn export_opts_json_is_exact() {
    let opts = ExportOpts {
        theme: OutputTheme::Dark,
        include_background: false,
        embed_source: false,
        scale: 1,
    };
    assert_eq!(
        export_opts_json(&opts),
        "{\"exportBackground\":false,\"exportEmbedScene\":false,\
         \"exportWithDarkMode\":true,\"exportScale\":1}"
    );
}

#[test]
fn export_opts_json_clamps_the_scale() {
    let opts = ExportOpts {
        theme: OutputTheme::Light,
        include_background: true,
        embed_source: true,
        scale: 9,
    };
    assert_eq!(
        export_opts_json(&opts),
        "{\"exportBackground\":true,\"exportEmbedScene\":true,\
         \"exportWithDarkMode\":false,\"exportScale\":3}"
    );
}

#[test]
fn size_str_renders_whole_bytes() {
    assert_eq!(size_str(0), "0 B");
    assert_eq!(size_str(1), "1 B");
    assert_eq!(size_str(1023), "1023 B");
}

#[test]
fn size_str_renders_scaled_units() {
    assert_eq!(size_str(1024), "1.0 KiB");
    assert_eq!(size_str(1536), "1.5 KiB");
    assert_eq!(size_str(10240), "10.0 KiB");
    assert_eq!(size_str(1048576), "1.0 MiB");
    assert_eq!(size_str(1073741824), "1.0 GiB");
}

#[test]
fn size_str_rounds_ties_to_even() {
    assert_eq!(size_str(1280), "1.2 KiB");
    assert_eq!(size_str(1792), "1.8 KiB");
}

#[test]
fn size_str_gives_up_above_gibibytes() {
    assert_eq!(size_str(1099511627776), "Too big");
    assert_eq!(size_str(u64::MAX), "Too big");
}

#[test]
fn extension_is_what_follows_the_last_dot() {
    assert_eq!(extension_of("index.html"), Some("html"));
    assert_eq!(extension_of("fonts/Virgil.woff2"), Some("woff2"));
    assert_eq!(extension_of("archive.tar.gz"), Some("gz"));
    assert_eq!(extension_of("no_extension"), None);
    assert_eq!(extension_of(".hidden"), None);
    assert_eq!(extension_of("dir.v2/file"), None);
}

#[test]
fn content_type_comes_from_the_extension() {
    assert_eq!(content_type_for("index.html"), "text/html");
    assert_eq!(content_type_for("app.js"), "text/javascript");
    assert_eq!(content_type_for("input.excalidraw"), "application/octet-stream");
    assert_eq!(content_type_for("no_extension"), "application/octet-stream");
}

#[test]
fn virtual_input_is_served_byte_for_byte() {
    let bundle = make_zip(&[("index.html", b"<html></html>")]);
    let input: Vec<u8> = (0u8..=255).collect();
    let reply = serve_path("input.excalidraw", "input.excalidraw", &input, &bundle).unwrap();
    assert_eq!(reply.status, 200);
    assert_eq!(reply.body, input);
    assert_eq!(reply.content_type, "application/octet-stream");
}

#[test]
fn empty_virtual_input_is_served_empty() {
    let bundle = make_zip(&[("index.html", b"<html></html>")]);
    let reply = serve_path("input.excalidraw", "input.excalidraw", &[], &bundle).unwrap();
    assert_eq!(reply.status, 200);
    assert!(reply.body.is_empty());
}

#[test]
fn virtual_input_bypasses_the_archive() {
    // The virtual name shadows an archive entry of the same name.
    let bundle = make_zip(&[("input.excalidraw", b"from the archive")]);
    let input = b"from the caller".to_vec();
    let reply = serve_path("input.excalidraw", "input.excalidraw", &input, &bundle).unwrap();
    assert_eq!(reply.body, input);
}

#[test]
fn archive_entries_are_served_with_their_content_type() {
    let bundle = make_zip(&[("index.html", b"<html></html>"), ("app.js", b"let x = 1;")]);
    let reply = serve_path("index.html", "input.excalidraw", b"input", &bundle).unwrap();
    assert_eq!(reply.status, 200);
    assert_eq!(reply.body, b"<html></html>".to_vec());
    assert_eq!(reply.content_type, "text/html");
    let reply = serve_path("app.js", "input.excalidraw", b"input", &bundle).unwrap();
    assert_eq!(reply.body, b"let x = 1;".to_vec());
}

#[test]
fn absent_paths_get_a_404_with_an_error_body() {
    let bundle = make_zip(&[("index.html", b"<html></html>")]);
    let err = serve_path("missing.js", "input.excalidraw", b"input", &bundle).unwrap_err();
    assert_eq!(err.status, 404);
    assert_eq!(err.message, "File was not found");
    assert!(!err.message.is_empty());
}

#[test]
fn corrupt_archives_are_a_server_side_failure() {
    let err = find_file_in_zip(b"garbage, not a zip", "index.html").unwrap_err();
    assert_eq!(err.status, 500);
    assert_eq!(err.message, "Failed to read zip archive as a zip archive");
}

#[test]
fn find_file_in_zip_returns_entry_bytes() {
    let bundle = make_zip(&[("a/b.txt", b"nested entry")]);
    let bytes = find_file_in_zip(&bundle, "a/b.txt").unwrap();
    assert_eq!(bytes, b"nested entry".to_vec());
    let err = find_file_in_zip(&bundle, "a/c.txt").unwrap_err();
    assert_eq!(err.status, 404);
}
