//! Font resolver and markup splicer: locate the style block of a rendered
//! vector document, extract the font references it holds, and replace it
//! with base64-embedded fonts or with nothing.

use crate::archive::archive_entries;
use crate::archive::archive_lookup;
use crate::archive::LookupError;
use crate::b64::b64_encode;
use crate::b64::base64_of;
use crate::cli::FontFormat;
use crate::text::find_from;
use crate::text::first_match_from;
use crate::text::lemma_first_match_from;
use crate::text::match_at;
use crate::RenderError;
use vstd::prelude::*;

verus! {

/// The opening marker of the style block.
pub open spec fn style_start() -> Seq<char> {
    "<style class=\"style-fonts\">"@
}

/// The closing marker of the style block.
pub open spec fn style_end() -> Seq<char> {
    "</style>"@
}

/// The marker that precedes each font file reference.
pub open spec fn asset_marker() -> Seq<char> {
    "excalidraw-assets/"@
}

/// The marker that precedes each font family name.
pub open spec fn family_marker() -> Seq<char> {
    "font-family: \""@
}

/// Split a document at its style block: everything up to and including the
/// first opening marker, the style text up to the first closing marker
/// after it, and the rest from that closing marker on. A document without
/// both markers is malformed.
pub open spec fn locate_style(doc: Seq<char>) -> Result<
    (Seq<char>, Seq<char>, Seq<char>),
    RenderError,
> {
    match first_match_from(doc, style_start(), 0) {
        None => Err(RenderError::MissingStyleStart),
        Some(sp) => {
            let cut = sp + style_start().len();
            match first_match_from(doc, style_end(), cut) {
                None => Err(RenderError::MissingStyleEnd),
                Some(ep) => Ok((doc.take(cut), doc.subrange(cut, ep), doc.skip(ep))),
            }
        },
    }
}

/// Split a rendered document around its style block, as `locate_style`
/// states.
pub fn split_svg_with_fonts(raw_svg: &str) -> (r: Result<(&str, &str, &str), RenderError>)
    ensures
        match (r, locate_style(raw_svg@)) {
            (Ok(parts), Ok(spec_parts)) => parts.0@ == spec_parts.0 && parts.1@ == spec_parts.1
                && parts.2@ == spec_parts.2,
            (Err(e), Err(spec_e)) => e == spec_e,
            _ => false,
        },
{
    proof {
        reveal_strlit("<style class=\"style-fonts\">");
        reveal_strlit("</style>");
    }
    let start_marker = "<style class=\"style-fonts\">";
    let end_marker = "</style>";
    let len = raw_svg.unicode_len();
    let marker_len = start_marker.unicode_len();
    match find_from(raw_svg, 0, start_marker) {
        None => Err(RenderError::MissingStyleStart),
        Some(sp) => {
            proof {
                lemma_first_match_from(raw_svg@, style_start(), 0);
            }
            let cut = sp + marker_len;
            match find_from(raw_svg, cut, end_marker) {
                None => Err(RenderError::MissingStyleEnd),
                Some(ep) => {
                    proof {
                        lemma_first_match_from(raw_svg@, style_end(), cut as int);
                    }
                    let before = raw_svg.substring_char(0, cut);
                    let style = raw_svg.substring_char(cut, ep);
                    let after = raw_svg.substring_char(ep, len);
                    proof {
                        assert(before@ =~= raw_svg@.take(cut as int));
                        assert(after@ =~= raw_svg@.skip(ep as int));
                    }
                    Ok((before, style, after))
                },
            }
        },
    }
}

/// The values the style text binds after each occurrence of `pat`: for each
/// occurrence, in order, the characters between the end of the occurrence
/// and the next quote; malformed if some occurrence has no closing quote.
/// The scan resumes at each closing quote.
pub open spec fn scan_values(s: Seq<char>, pat: Seq<char>) -> Result<Seq<Seq<char>>, RenderError>
    decreases s.len(),
        when pat.len() >= 1
        via scan_values_decreases
{
    match first_match_from(s, pat, 0) {
        None => Ok(Seq::empty()),
        Some(i) => {
            let start = i + pat.len();
            match first_match_from(s, "\""@, start) {
                None => Err(RenderError::MalformedStyle),
                Some(end) => match scan_values(s.skip(end), pat) {
                    Err(e) => Err(e),
                    Ok(rest) => Ok(seq![s.subrange(start, end)] + rest),
                },
            }
        },
    }
}

#[via_fn]
proof fn scan_values_decreases(s: Seq<char>, pat: Seq<char>) {
    reveal_strlit("\"");
    match first_match_from(s, pat, 0) {
        None => {},
        Some(i) => {
            lemma_first_match_from(s, pat, 0);
            let start = i + pat.len();
            match first_match_from(s, "\""@, start) {
                None => {},
                Some(end) => {
                    lemma_first_match_from(s, "\""@, start);
                },
            }
        },
    }
}

/// The views of a vector of strings.
pub open spec fn views_of(v: Seq<String>) -> Seq<Seq<char>> {
    Seq::new(v.len(), |i: int| v[i]@)
}

/// Collect the values bound after each occurrence of `pat` in `s`, as
/// `scan_values` states.
fn scan_after(s: &str, pat: &str) -> (r: Result<Vec<String>, RenderError>)
    requires
        pat@.len() >= 1,
    ensures
        match (r, scan_values(s@, pat@)) {
            (Ok(v), Ok(spec_v)) => views_of(v@) == spec_v,
            (Err(e), Err(spec_e)) => e == spec_e,
            _ => false,
        },
    decreases s@.len(),
{
    proof {
        reveal_strlit("\"");
    }
    let len = s.unicode_len();
    let pat_len = pat.unicode_len();
    match find_from(s, 0, pat) {
        None => {
            let empty: Vec<String> = Vec::new();
            proof {
                assert(views_of(empty@) =~= Seq::<Seq<char>>::empty());
            }
            Ok(empty)
        },
        Some(i) => {
            proof {
                lemma_first_match_from(s@, pat@, 0);
            }
            let start = i + pat_len;
            match find_from(s, start, "\"") {
                None => Err(RenderError::MalformedStyle),
                Some(end) => {
                    proof {
                        lemma_first_match_from(s@, "\""@, start as int);
                    }
                    let value = String::from_str(s.substring_char(start, end));
                    let remainder = s.substring_char(end, len);
                    proof {
                        assert(remainder@ =~= s@.skip(end as int));
                    }
                    match scan_after(remainder, pat) {
                        Err(e) => Err(e),
                        Ok(mut rest) => {
                            let mut out: Vec<String> = Vec::new();
                            out.push(value);
                            out.append(&mut rest);
                            proof {
                                let spec_rest = scan_values(s@.skip(end as int), pat@)->Ok_0;
                                assert(views_of(out@) =~= seq![s@.subrange(
                                    start as int,
                                    end as int,
                                )] + spec_rest);
                            }
                            Ok(out)
                        },
                    }
                },
            }
        },
    }
}

/// The views of a vector of font references.
pub open spec fn pairs_views(v: Seq<(String, String)>) -> Seq<(Seq<char>, Seq<char>)> {
    Seq::new(v.len(), |i: int| (v[i].0@, v[i].1@))
}

/// Family names and file names paired by position; a surplus on either
/// side is dropped.
pub open spec fn pair_refs(names: Seq<Seq<char>>, files: Seq<Seq<char>>) -> Seq<
    (Seq<char>, Seq<char>),
> {
    let n = if names.len() <= files.len() {
        names.len()
    } else {
        files.len()
    };
    Seq::new(n, |k: int| (names[k], files[k]))
}

/// The font references of a style text: every value bound after a
/// font-asset-path marker, paired by position with every value bound after
/// a font-family marker. The pairing is positional: it assumes the
/// generated style text lists families and files in matching order.
pub open spec fn used_fonts(style: Seq<char>) -> Result<Seq<(Seq<char>, Seq<char>)>, RenderError> {
    match scan_values(style, asset_marker()) {
        Err(e) => Err(e),
        Ok(files) => match scan_values(style, family_marker()) {
            Err(e) => Err(e),
            Ok(names) => Ok(pair_refs(names, files)),
        },
    }
}

/// Extract the font references of a style text, as `used_fonts` states.
pub fn get_used_fonts(style: &str) -> (r: Result<Vec<(String, String)>, RenderError>)
    ensures
        match (r, used_fonts(style@)) {
            (Ok(v), Ok(spec_v)) => pairs_views(v@) == spec_v,
            (Err(e), Err(spec_e)) => e == spec_e,
            _ => false,
        },
{
    proof {
        reveal_strlit("excalidraw-assets/");
        reveal_strlit("font-family: \"");
    }
    let files = match scan_after(style, "excalidraw-assets/") {
        Ok(v) => v,
        Err(e) => {
            return Err(e);
        },
    };
    let names = match scan_after(style, "font-family: \"") {
        Ok(v) => v,
        Err(e) => {
            return Err(e);
        },
    };
    let n = if names.len() <= files.len() {
        names.len()
    } else {
        files.len()
    };
    let ghost spec_pairs = pair_refs(views_of(names@), views_of(files@));
    let mut out: Vec<(String, String)> = Vec::new();
    let mut k: usize = 0;
    while k < n
        invariant
            k <= n,
            n <= names.len(),
            n <= files.len(),
            spec_pairs.len() == n,
            spec_pairs == pair_refs(views_of(names@), views_of(files@)),
            out@.len() == k,
            pairs_views(out@) == spec_pairs.take(k as int),
        decreases n - k,
    {
        let ghost pre = out@;
        let name_k = names[k].clone();
        let file_k = files[k].clone();
        proof {
            assert(name_k@ == views_of(names@)[k as int]);
            assert(file_k@ == views_of(files@)[k as int]);
        }
        out.push((name_k, file_k));
        proof {
            assert forall|j: int| 0 <= j < k + 1 implies pairs_views(out@)[j] == spec_pairs.take(
                k + 1,
            )[j] by {
                assert(pairs_views(out@)[j] == (out@[j].0@, out@[j].1@));
                assert(spec_pairs.take(k + 1)[j] == spec_pairs[j]);
                if j < k {
                    assert(out@[j] == pre[j]);
                    assert(pairs_views(pre)[j] == (pre[j].0@, pre[j].1@));
                    assert(pairs_views(pre)[j] == spec_pairs.take(k as int)[j]);
                } else {
                    assert(out@[j] == (name_k, file_k));
                    assert(spec_pairs[j] == (views_of(names@)[j], views_of(files@)[j]));
                }
            }
            assert(pairs_views(out@) =~= spec_pairs.take(k + 1));
        }
        k = k + 1;
    }
    proof {
        assert(spec_pairs.take(n as int) =~= spec_pairs);
    }
    Ok(out)
}

/// One embedded font rule: a font-face declaration binding the family name
/// to a data URI holding the font bytes in base64.
pub open spec fn font_face_rule(name: Seq<char>, b64: Seq<char>) -> Seq<char> {
    "@font-face { font-family: \""@ + name
        + "\"; src: url(data:font/woff2;charset=utf-8;base64,"@ + b64 + ") format('woff2'); }"@
}

/// The css text embedding the given references, in order: each font file
/// is looked up in the font archive and bound to its family name as a
/// base64 data URI. A reference whose file the archive cannot yield fails
/// the whole operation; no partial output is produced.
pub open spec fn embed_refs(refs: Seq<(Seq<char>, Seq<char>)>, fonts: Seq<u8>) -> Result<
    Seq<char>,
    RenderError,
>
    decreases refs.len(),
{
    if refs.len() == 0 {
        Ok(Seq::empty())
    } else {
        match archive_entries(fonts) {
            None => Err(RenderError::ArchiveCorrupt),
            Some(m) => {
                if !m.contains_key(refs[0].1) {
                    Err(RenderError::FontNotFound)
                } else if m[refs[0].1].len() > usize::MAX / 8 {
                    Err(RenderError::FontTooLarge)
                } else {
                    match embed_refs(refs.drop_first(), fonts) {
                        Err(e) => Err(e),
                        Ok(rest) => Ok(
                            font_face_rule(refs[0].0, b64_encode(m[refs[0].1])) + rest,
                        ),
                    }
                }
            },
        }
    }
}

/// Embed the references from index `i` on, as `embed_refs` states over the
/// remaining suffix.
fn embed_refs_from(refs: &Vec<(String, String)>, i: usize, fonts: &[u8]) -> (r: Result<
    String,
    RenderError,
>)
    requires
        i <= refs.len(),
    ensures
        match (r, embed_refs(pairs_views(refs@).skip(i as int), fonts@)) {
            (Ok(t), Ok(spec_t)) => t@ == spec_t,
            (Err(e), Err(spec_e)) => e == spec_e,
            _ => false,
        },
    decreases refs.len() - i,
{
    let ghost suffix = pairs_views(refs@).skip(i as int);
    if i == refs.len() {
        proof {
            assert(suffix =~= Seq::<(Seq<char>, Seq<char>)>::empty());
        }
        return Ok(String::new());
    }
    assert(suffix[0] == (refs@[i as int].0@, refs@[i as int].1@));
    let bytes = match archive_lookup(fonts, refs[i].1.as_str()) {
        Ok(bytes) => bytes,
        Err(LookupError::Corrupt) => {
            return Err(RenderError::ArchiveCorrupt);
        },
        Err(_) => {
            return Err(RenderError::FontNotFound);
        },
    };
    let b64 = match base64_of(bytes.as_slice()) {
        Some(b64) => b64,
        None => {
            return Err(RenderError::FontTooLarge);
        },
    };
    proof {
        assert(suffix.drop_first() =~= pairs_views(refs@).skip(i + 1));
    }
    let rest = match embed_refs_from(refs, i + 1, fonts) {
        Ok(rest) => rest,
        Err(e) => {
            return Err(e);
        },
    };
    let mut out = String::from_str("@font-face { font-family: \"");
    out.append(refs[i].0.as_str());
    out.append("\"; src: url(data:font/woff2;charset=utf-8;base64,");
    out.append(b64.as_str());
    out.append(") format('woff2'); }");
    out.append(rest.as_str());
    Ok(out)
}

/// The font archive holds the bytes of the referenced file, and decoding
/// the base64 payload emitted for it yields exactly those bytes.
pub open spec fn payload_recovers_font(r: (Seq<char>, Seq<char>), fonts: Seq<u8>) -> bool {
    archive_entries(fonts) matches Some(m) && m.contains_key(r.1) && crate::b64::b64_decode(
        b64_encode(m[r.1]),
    ) == Some(m[r.1])
}

/// Embedding reproduces the archive's font bytes: whenever `embed_refs`
/// succeeds, every referenced font file has its bytes in the font archive,
/// and decoding the base64 payload emitted for it yields exactly those
/// bytes.
pub proof fn lemma_embed_round_trip(refs: Seq<(Seq<char>, Seq<char>)>, fonts: Seq<u8>)
    requires
        embed_refs(refs, fonts) is Ok,
    ensures
        forall|i: int| 0 <= i < refs.len() ==> payload_recovers_font(#[trigger] refs[i], fonts),
    decreases refs.len(),
{
    if refs.len() > 0 {
        let m = archive_entries(fonts)->Some_0;
        crate::b64::lemma_b64_round_trip(m[refs[0].1]);
        lemma_embed_round_trip(refs.drop_first(), fonts);
        assert forall|i: int| 0 <= i < refs.len() implies payload_recovers_font(
            #[trigger] refs[i],
            fonts,
        ) by {
            if i > 0 {
                assert(refs.drop_first()[i - 1] == refs[i]);
            }
        }
    }
}

/// What embedding the fonts of a style text yields: the css of
/// `embed_refs` over the references of `used_fonts`.
pub open spec fn embed_result(style: Seq<char>, fonts: Seq<u8>) -> Result<Seq<char>, RenderError> {
    match used_fonts(style) {
        Err(e) => Err(e),
        Ok(refs) => embed_refs(refs, fonts),
    }
}

/// Replace a style text by font-face rules that embed every font it
/// references, each looked up in the font archive and inlined as a base64
/// data URI, as `embed_result` states.
pub fn embed_fonts(style: &str, fonts: &[u8]) -> (r: Result<String, RenderError>)
    ensures
        match (r, embed_result(style@, fonts@)) {
            (Ok(t), Ok(spec_t)) => t@ == spec_t,
            (Err(e), Err(spec_e)) => e == spec_e,
            _ => false,
        },
{
    let refs = match get_used_fonts(style) {
        Ok(refs) => refs,
        Err(e) => {
            return Err(e);
        },
    };
    proof {
        assert(pairs_views(refs@).skip(0) =~= pairs_views(refs@));
    }
    embed_refs_from(&refs, 0, fonts)
}

/// Replace a style text by nothing: the output relies on system fonts.
///
/// The replacement is empty whatever font references the input holds.
pub fn remove_fonts(_style: &str) -> (r: String)
    ensures
        r@ == Seq::<char>::empty(),
        r@.len() == 0,
{
    String::new()
}

/// What post-processing a rendered document yields for each output format:
/// the document unchanged for `Raw`; an explicit unsupported-format error
/// for `Path`; otherwise the document with its style block replaced, by
/// embedded fonts for `Embed` and by nothing for `NoFont`.
pub open spec fn postprocess_result(doc: Seq<char>, format: FontFormat, fonts: Seq<u8>) -> Result<
    Seq<char>,
    RenderError,
> {
    if format == FontFormat::Raw {
        Ok(doc)
    } else if format == FontFormat::Path {
        Err(RenderError::UnsupportedFormat)
    } else {
        match locate_style(doc) {
            Err(e) => Err(e),
            Ok(parts) => {
                let css = if format == FontFormat::Embed {
                    embed_result(parts.1, fonts)
                } else {
                    Ok(Seq::<char>::empty())
                };
                match css {
                    Err(e) => Err(e),
                    Ok(c) => Ok(parts.0 + c + parts.2),
                }
            },
        }
    }
}

/// Post-process a rendered document according to the selected output
/// format, as `postprocess_result` states: `Raw` output is returned
/// unchanged, `Path` output fails as unsupported, and `Embed` and `NoFont`
/// replace the style block.
pub fn postprocess_svg(raw_svg: &str, output_format: &FontFormat, fonts: &[u8]) -> (r: Result<
    String,
    RenderError,
>)
    ensures
        match (r, postprocess_result(raw_svg@, *output_format, fonts@)) {
            (Ok(t), Ok(spec_t)) => t@ == spec_t,
            (Err(e), Err(spec_e)) => e == spec_e,
            _ => false,
        },
        *output_format == FontFormat::Raw ==> (r matches Ok(t) && t@ == raw_svg@),
        *output_format == FontFormat::Path ==> (r matches Err(e) && e
            == RenderError::UnsupportedFormat),
{
    if matches!(output_format, FontFormat::Raw) {
        return Ok(String::from_str(raw_svg));
    }
    if matches!(output_format, FontFormat::Path) {
        return Err(RenderError::UnsupportedFormat);
    }
    let (before, style, after) = match split_svg_with_fonts(raw_svg) {
        Ok(parts) => parts,
        Err(e) => {
            return Err(e);
        },
    };
    let css = if matches!(output_format, FontFormat::Embed) {
        match embed_fonts(style, fonts) {
            Ok(css) => css,
            Err(e) => {
                return Err(e);
            },
        }
    } else {
        remove_fonts(style)
    };
    let mut out = String::from_str(before);
    out.append(css.as_str());
    out.append(after);
    Ok(out)
}

/// Splicing a replacement style text between the parts of a located
/// document and locating again recovers exactly the parts: whenever
/// `locate_style` split a document into `before`, `style0` and `after`,
/// and the replacement `x` holds no occurrence of the closing marker,
/// `locate_style` splits `before + x + after` into `before`, `x` and
/// `after`.
pub proof fn lemma_splice_locate_round_trip(
    before: Seq<char>,
    style0: Seq<char>,
    after: Seq<char>,
    x: Seq<char>,
)
    requires
        locate_style(before + style0 + after) == Ok::<(Seq<char>, Seq<char>, Seq<char>),
            RenderError,
        >((before, style0, after)),
        first_match_from(x, style_end(), 0) is None,
    ensures
        locate_style(before + x + after) == Ok::<(Seq<char>, Seq<char>, Seq<char>), RenderError>(
            (before, x, after),
        ),
{
    reveal_strlit("<style class=\"style-fonts\">");
    reveal_strlit("</style>");
    let start = style_start();
    let end = style_end();
    let doc = before + style0 + after;
    let d = before + x + after;
    lemma_first_match_from(doc, start, 0);
    let sp = first_match_from(doc, start, 0)->Some_0;
    let cut = sp + start.len();
    lemma_first_match_from(doc, end, cut);
    let ep = first_match_from(doc, end, cut)->Some_0;
    assert(doc.take(cut) == before);
    assert(before.len() == cut);
    assert(doc.subrange(cut, ep) == style0);
    assert(ep == cut + style0.len());
    assert(doc.skip(ep) == after);
    assert(after.len() >= end.len());
    let xe = cut + x.len();
    // The opening marker matches in the spliced document where it did.
    assert forall|i: int| 0 <= i < start.len() implies d[sp + i] == start[i] by {
        assert(d[sp + i] == before[sp + i]);
        assert(doc[sp + i] == before[sp + i]);
        assert(doc.subrange(sp, sp + start.len())[i] == doc[sp + i]);
    }
    assert(d.subrange(sp, sp + start.len()) =~= start);
    assert(match_at(d, start, sp));
    // And nothing earlier does, because the earlier windows lie in `before`.
    lemma_first_match_from(d, start, 0);
    match first_match_from(d, start, 0) {
        None => {
            assert(false);
        },
        Some(j) => {
            if j < sp {
                assert forall|i: int| 0 <= i < start.len() implies doc[j + i] == start[i] by {
                    assert(d[j + i] == before[j + i]);
                    assert(doc[j + i] == before[j + i]);
                    assert(d.subrange(j, j + start.len())[i] == d[j + i]);
                }
                assert(doc.subrange(j, j + start.len()) =~= start);
                assert(match_at(doc, start, j));
                assert(false);
            }
            if j > sp {
                assert(false);
            }
        },
    }
    assert(first_match_from(d, start, 0) == Some(sp));
    // The closing marker matches right after the replacement, where `after`
    // begins.
    assert forall|i: int| 0 <= i < end.len() implies d[xe + i] == end[i] by {
        assert(d[xe + i] == after[i]);
        assert(doc[ep + i] == after[i]);
        assert(doc.subrange(ep, ep + end.len())[i] == doc[ep + i]);
    }
    assert(d.subrange(xe, xe + end.len()) =~= end);
    assert(match_at(d, end, xe));
    // And nowhere earlier: within the replacement by assumption, and no
    // window can straddle the seam, because no proper prefix of the closing
    // marker is also a suffix of it.
    lemma_first_match_from(d, end, cut);
    lemma_first_match_from(x, end, 0);
    match first_match_from(d, end, cut) {
        None => {
            assert(false);
        },
        Some(j) => {
            if j < xe {
                if j + end.len() <= xe {
                    assert forall|i: int| 0 <= i < end.len() implies x[j - cut + i] == end[i] by {
                        assert(d[j + i] == x[j - cut + i]);
                        assert(d.subrange(j, j + end.len())[i] == d[j + i]);
                    }
                    assert(x.subrange(j - cut, j - cut + end.len()) =~= end);
                    assert(match_at(x, end, j - cut));
                    assert(false);
                } else {
                    let t = xe - j;
                    assert(1 <= t < end.len());
                    assert(d.subrange(j, j + end.len())[t] == d[j + t]);
                    assert(d[j + t] == after[0]);
                    assert(after[0] == end[0]);
                    assert(end[t] == end[0]);
                    assert(end[0] == '<');
                    assert(false);
                }
            }
            if j > xe {
                assert(false);
            }
        },
    }
    assert(first_match_from(d, end, cut) == Some(xe));
    assert(d.take(cut) =~= before);
    assert(d.subrange(cut, xe) =~= x);
    assert(d.skip(xe) =~= after);
}

/// Close out a render transaction from what the result channel yielded: the
/// posted document, or an error when the channel was abandoned before a
/// delivery.
pub fn finish_render(received: Option<Vec<u8>>) -> (r: Result<Vec<u8>, RenderError>)
    ensures
        match received {
            Some(bytes) => r matches Ok(out) && out@ == bytes@,
            None => r matches Err(e) && e == RenderError::ChannelClosed,
        },
{
    match received {
        Some(bytes) => Ok(bytes),
        None => Err(RenderError::ChannelClosed),
    }
}

} // verus!
