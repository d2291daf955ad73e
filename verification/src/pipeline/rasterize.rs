//! The last changes to a scene before it is painted: the watermark.

use vstd::prelude::*;
use vstd::string::{StrSliceExecFns, StringExecFns};
use crate::fixed::lesser;
use crate::fixed::larger;
use crate::text::{chars_of, contains, decimal, find, lemma_position, lemma_single_occurrence, occurrences, occurs_at, position, push_decimal};
use crate::types::viz::OutputConfig;

verus! {

/// The text of the watermark.
pub open spec fn watermark_text() -> Seq<char> {
    "rideviz.online"@
}

/// The element id by which a watermark is found again.
pub open spec fn watermark_id() -> Seq<char> {
    "rideviz-watermark"@
}

/// `a - b`, or zero where that is negative.
pub open spec fn minus(a: int, b: int) -> int {
    if a > b {
        a - b
    } else {
        0
    }
}

/// Where the watermark stands on a canvas, in pixels.
#[derive(Debug, Clone, Copy, PartialEq, Eq, Structural)]
pub struct WatermarkLayout {
    pub font_size: u64,
    pub text_x: u64,
    pub text_y: u64,
    pub box_x: u64,
    pub box_y: u64,
    pub box_width: u64,
    pub box_height: u64,
    pub radius: u64,
    pub border_width: u64,
}

/// The layout of the watermark on a canvas: a line of text in a font of a
/// fiftieth of the height (at least 13), centred near the bottom, on a
/// rounded box that leaves room around the text and stays within the canvas.
pub open spec fn layout_of(width: u32, height: u32) -> WatermarkLayout {
    let font_size = larger(height as int / 50, 13);
    let padding_x = larger(font_size * 7 / 10, 8);
    let padding_y = larger(font_size / 2, 6);
    let margin_bottom = larger(font_size * 115 / 100, 16);
    let text_x = width as int / 2;
    let text_y = minus(height as int, margin_bottom);
    let box_width = lesser(
        (868 * font_size + 200 * padding_x + 99) / 100,
        minus(width as int, 12),
    );
    WatermarkLayout {
        font_size: font_size as u64,
        text_x: text_x as u64,
        text_y: text_y as u64,
        box_x: minus(text_x, box_width / 2) as u64,
        box_y: minus(text_y, font_size + padding_y) as u64,
        box_width: box_width as u64,
        box_height: lesser(font_size + padding_y * 2, minus(height as int, 12)) as u64,
        radius: crate::fixed::clamp_int((font_size * 3 + 5) / 10, 3, 6) as u64,
        border_width: larger((font_size * 8 + 50) / 100, 1) as u64,
    }
}

/// What follows the id in the watermark group: the box and the text.
pub open spec fn watermark_body(at: WatermarkLayout) -> Seq<char> {
    "\"><rect x=\""@ + decimal(at.box_x as nat) + "\" y=\""@ + decimal(at.box_y as nat)
        + "\" width=\""@ + decimal(at.box_width as nat) + "\" height=\""@ + decimal(
        at.box_height as nat,
    ) + "\" rx=\""@ + decimal(at.radius as nat)
        + "\" fill=\"rgb(255,255,255)\" fill-opacity=\"0.90\" stroke=\"rgb(0,0,0)\" stroke-opacity=\"0.92\" stroke-width=\""@
        + decimal(at.border_width as nat) + "\" /><text x=\""@ + decimal(at.text_x as nat)
        + "\" y=\""@ + decimal(at.text_y as nat)
        + "\" font-family=\"Geist Pixel, DejaVu Sans Mono, DejaVu Sans, sans-serif\" font-size=\""@
        + decimal(at.font_size as nat)
        + "\" text-anchor=\"middle\" fill=\"rgb(0,0,0)\" fill-opacity=\"0.92\">"@
        + watermark_text() + "</text></g>"@
}

/// The watermark group for a canvas.
pub open spec fn watermark_nodes(width: u32, height: u32) -> Seq<char> {
    "<g id=\""@ + watermark_id() + watermark_body(layout_of(width, height))
}

/// The scene with the watermark: unchanged where it holds the watermark's
/// id already; else with the watermark group before the first `</svg>`, or
/// at the end where there is no `</svg>`.
pub open spec fn watermarked(svg: Seq<char>, width: u32, height: u32) -> Seq<char> {
    if contains(svg, watermark_id()) {
        svg
    } else {
        match position(svg, "</svg>"@) {
            Some(i) => svg.subrange(0, i) + watermark_nodes(width, height) + svg.subrange(
                i,
                svg.len() as int,
            ),
            None => svg + watermark_nodes(width, height),
        }
    }
}

/// A scene with the watermark holds the watermark's id.
pub proof fn lemma_watermarked_has_id(svg: Seq<char>, width: u32, height: u32)
    ensures
        contains(watermarked(svg, width, height), watermark_id()),
{
    if !contains(svg, watermark_id()) {
        let id = watermark_id();
        let nodes = watermark_nodes(width, height);
        let head = "<g id=\""@;
        let h = head.len() as int;
        let n = svg.len() as int;
        let body = watermark_body(layout_of(width, height));
        assert(nodes.subrange(h, h + id.len()) =~= id);
        lemma_position(svg, "</svg>"@);
        match position(svg, "</svg>"@) {
            Some(i) => {
                let out = svg.subrange(0, i) + nodes + svg.subrange(i, svg.len() as int);
                assert(out.subrange(i + h, i + h + id.len()) =~= id);
                assert(occurs_at(out, id, i + h));
            },
            None => {
                let out = svg + nodes;
                assert(out.subrange(n + h, n + h + id.len()) =~= id);
                assert(occurs_at(out, id, n + h));
            },
        }
    }
}

/// Injecting the watermark a second time changes nothing, whatever the
/// canvas of the second injection.
pub proof fn lemma_watermark_idempotent(
    svg: Seq<char>,
    width: u32,
    height: u32,
    width2: u32,
    height2: u32,
)
    ensures
        watermarked(watermarked(svg, width, height), width2, height2) == watermarked(
            svg,
            width,
            height,
        ),
{
    lemma_watermarked_has_id(svg, width, height);
}

/// Whether every `w` in the text is followed, within the text, by a
/// character that is no `a`.
pub open spec fn tame(text: Seq<char>) -> bool {
    forall|m: int|
        0 <= m < text.len() && (#[trigger] text[m]) == 'w' ==> m + 1 < text.len() && text[m + 1]
            != 'a'
}

/// Whether the text is tame from index `k` on.
pub open spec fn tame_from(text: Seq<char>, k: int) -> bool
    decreases text.len() - k,
{
    if k < 0 || k >= text.len() {
        true
    } else {
        (text[k] == 'w' ==> k + 1 < text.len() && text[k + 1] != 'a') && tame_from(text, k + 1)
    }
}

proof fn lemma_tame_from(text: Seq<char>, k: int, m: int)
    requires
        tame_from(text, k),
        0 <= k <= m < text.len(),
    ensures
        text[m] == 'w' ==> m + 1 < text.len() && text[m + 1] != 'a',
    decreases m - k,
{
    if k < m {
        lemma_tame_from(text, k + 1, m);
    }
}

proof fn lemma_tame(text: Seq<char>)
    requires
        tame_from(text, 0),
    ensures
        tame(text),
{
    assert forall|m: int| 0 <= m < text.len() && (#[trigger] text[m]) == 'w' implies m + 1
        < text.len() && text[m + 1] != 'a' by {
        lemma_tame_from(text, 0, m);
    }
}

/// Two tame texts, one after the other, are tame.
proof fn lemma_tame_joined(a: Seq<char>, b: Seq<char>)
    requires
        tame(a),
        tame(b),
    ensures
        tame(a + b),
{
    let t = a + b;
    assert forall|m: int| 0 <= m < t.len() && (#[trigger] t[m]) == 'w' implies m + 1 < t.len()
        && t[m + 1] != 'a' by {
        if m < a.len() {
            assert(a[m] == 'w');
            assert(t[m + 1] == a[m + 1]);
        } else {
            assert(b[m - a.len()] == 'w');
            assert(t[m + 1] == b[m + 1 - a.len()]);
        }
    }
}

proof fn lemma_tame_piece_0()
    ensures
        tame("\"><rect x=\""@),
{
    reveal_strlit("\"><rect x=\"");
    reveal_with_fuel(tame_from, 34);
    assert(tame_from("\"><rect x=\""@, 0));
    lemma_tame("\"><rect x=\""@);
}

proof fn lemma_tame_piece_1()
    ensures
        tame("\" y=\""@),
{
    reveal_strlit("\" y=\"");
    reveal_with_fuel(tame_from, 34);
    assert(tame_from("\" y=\""@, 0));
    lemma_tame("\" y=\""@);
}

proof fn lemma_tame_piece_2()
    ensures
        tame("\" width=\""@),
{
    reveal_strlit("\" width=\"");
    reveal_with_fuel(tame_from, 34);
    assert(tame_from("\" width=\""@, 0));
    lemma_tame("\" width=\""@);
}

proof fn lemma_tame_piece_3()
    ensures
        tame("\" height=\""@),
{
    reveal_strlit("\" height=\"");
    reveal_with_fuel(tame_from, 34);
    assert(tame_from("\" height=\""@, 0));
    lemma_tame("\" height=\""@);
}

proof fn lemma_tame_piece_4()
    ensures
        tame("\" rx=\""@),
{
    reveal_strlit("\" rx=\"");
    reveal_with_fuel(tame_from, 34);
    assert(tame_from("\" rx=\""@, 0));
    lemma_tame("\" rx=\""@);
}

proof fn lemma_tame_piece_5()
    ensures
        tame("\" fill=\"rgb(255,255,255)\" fill-opacity=\"0.90\" stroke=\"rgb(0,0,0)\" stroke-opacity=\"0.92\" stroke-width=\""@),
{
    reveal_strlit("\" fill=\"rgb(255,255,255)\" fill-opacity=\"0.90\" stroke=\"rgb(0,0,0)\" stroke-opacity=\"0.92\" stroke-width=\"");
    reveal_with_fuel(tame_from, 34);
    assert(tame_from("\" fill=\"rgb(255,255,255)\" fill-opacity=\"0.90\" stroke=\"rgb(0,0,0)\" stroke-opacity=\"0.92\" stroke-width=\""@, 72));
    assert(tame_from("\" fill=\"rgb(255,255,255)\" fill-opacity=\"0.90\" stroke=\"rgb(0,0,0)\" stroke-opacity=\"0.92\" stroke-width=\""@, 42));
    assert(tame_from("\" fill=\"rgb(255,255,255)\" fill-opacity=\"0.90\" stroke=\"rgb(0,0,0)\" stroke-opacity=\"0.92\" stroke-width=\""@, 12));
    assert(tame_from("\" fill=\"rgb(255,255,255)\" fill-opacity=\"0.90\" stroke=\"rgb(0,0,0)\" stroke-opacity=\"0.92\" stroke-width=\""@, 0));
    lemma_tame("\" fill=\"rgb(255,255,255)\" fill-opacity=\"0.90\" stroke=\"rgb(0,0,0)\" stroke-opacity=\"0.92\" stroke-width=\""@);
}

proof fn lemma_tame_piece_6()
    ensures
        tame("\" /><text x=\""@),
{
    reveal_strlit("\" /><text x=\"");
    reveal_with_fuel(tame_from, 34);
    assert(tame_from("\" /><text x=\""@, 0));
    lemma_tame("\" /><text x=\""@);
}

proof fn lemma_tame_piece_7()
    ensures
        tame("\" font-family=\"Geist Pixel, DejaVu Sans Mono, DejaVu Sans, sans-serif\" font-size=\""@),
{
    reveal_strlit("\" font-family=\"Geist Pixel, DejaVu Sans Mono, DejaVu Sans, sans-serif\" font-size=\"");
    reveal_with_fuel(tame_from, 34);
    assert(tame_from("\" font-family=\"Geist Pixel, DejaVu Sans Mono, DejaVu Sans, sans-serif\" font-size=\""@, 52));
    assert(tame_from("\" font-family=\"Geist Pixel, DejaVu Sans Mono, DejaVu Sans, sans-serif\" font-size=\""@, 22));
    assert(tame_from("\" font-family=\"Geist Pixel, DejaVu Sans Mono, DejaVu Sans, sans-serif\" font-size=\""@, 0));
    lemma_tame("\" font-family=\"Geist Pixel, DejaVu Sans Mono, DejaVu Sans, sans-serif\" font-size=\""@);
}

proof fn lemma_tame_piece_8()
    ensures
        tame("\" text-anchor=\"middle\" fill=\"rgb(0,0,0)\" fill-opacity=\"0.92\">"@),
{
    reveal_strlit("\" text-anchor=\"middle\" fill=\"rgb(0,0,0)\" fill-opacity=\"0.92\">");
    reveal_with_fuel(tame_from, 34);
    assert(tame_from("\" text-anchor=\"middle\" fill=\"rgb(0,0,0)\" fill-opacity=\"0.92\">"@, 31));
    assert(tame_from("\" text-anchor=\"middle\" fill=\"rgb(0,0,0)\" fill-opacity=\"0.92\">"@, 1));
    assert(tame_from("\" text-anchor=\"middle\" fill=\"rgb(0,0,0)\" fill-opacity=\"0.92\">"@, 0));
    lemma_tame("\" text-anchor=\"middle\" fill=\"rgb(0,0,0)\" fill-opacity=\"0.92\">"@);
}

proof fn lemma_tame_piece_9()
    ensures
        tame("</text></g>"@),
{
    reveal_strlit("</text></g>");
    reveal_with_fuel(tame_from, 34);
    assert(tame_from("</text></g>"@, 0));
    lemma_tame("</text></g>"@);
}

proof fn lemma_tame_piece_10()
    ensures
        tame("rideviz.online"@),
{
    reveal_strlit("rideviz.online");
    reveal_with_fuel(tame_from, 34);
    assert(tame_from("rideviz.online"@, 0));
    lemma_tame("rideviz.online"@);
}

/// The decimal notation of a number holds no `w`.
proof fn lemma_decimal_tame(n: nat)
    ensures
        tame(decimal(n)),
        forall|m: int| 0 <= m < decimal(n).len() ==> decimal(n)[m] != 'w',
    decreases n,
{
    if n >= 10 {
        lemma_decimal_tame(n / 10);
    }
}

/// In what follows the id in the watermark group, no `w` is followed by an `a`.
proof fn lemma_body_tame(at: WatermarkLayout)
    ensures
        tame(watermark_body(at)),
        watermark_body(at).len() >= 17,
        watermark_body(at).last() == '>',
{
    lemma_tame_piece_0();
    let t0 = "\"><rect x=\""@;
    lemma_decimal_tame(at.box_x as nat);
    lemma_tame_joined(t0, decimal(at.box_x as nat));
    let t1 = t0 + decimal(at.box_x as nat);
    lemma_tame_piece_1();
    lemma_tame_joined(t1, "\" y=\""@);
    let t2 = t1 + "\" y=\""@;
    lemma_decimal_tame(at.box_y as nat);
    lemma_tame_joined(t2, decimal(at.box_y as nat));
    let t3 = t2 + decimal(at.box_y as nat);
    lemma_tame_piece_2();
    lemma_tame_joined(t3, "\" width=\""@);
    let t4 = t3 + "\" width=\""@;
    lemma_decimal_tame(at.box_width as nat);
    lemma_tame_joined(t4, decimal(at.box_width as nat));
    let t5 = t4 + decimal(at.box_width as nat);
    lemma_tame_piece_3();
    lemma_tame_joined(t5, "\" height=\""@);
    let t6 = t5 + "\" height=\""@;
    lemma_decimal_tame(at.box_height as nat);
    lemma_tame_joined(t6, decimal(at.box_height as nat));
    let t7 = t6 + decimal(at.box_height as nat);
    lemma_tame_piece_4();
    lemma_tame_joined(t7, "\" rx=\""@);
    let t8 = t7 + "\" rx=\""@;
    lemma_decimal_tame(at.radius as nat);
    lemma_tame_joined(t8, decimal(at.radius as nat));
    let t9 = t8 + decimal(at.radius as nat);
    lemma_tame_piece_5();
    lemma_tame_joined(t9, "\" fill=\"rgb(255,255,255)\" fill-opacity=\"0.90\" stroke=\"rgb(0,0,0)\" stroke-opacity=\"0.92\" stroke-width=\""@);
    let t10 = t9 + "\" fill=\"rgb(255,255,255)\" fill-opacity=\"0.90\" stroke=\"rgb(0,0,0)\" stroke-opacity=\"0.92\" stroke-width=\""@;
    lemma_decimal_tame(at.border_width as nat);
    lemma_tame_joined(t10, decimal(at.border_width as nat));
    let t11 = t10 + decimal(at.border_width as nat);
    lemma_tame_piece_6();
    lemma_tame_joined(t11, "\" /><text x=\""@);
    let t12 = t11 + "\" /><text x=\""@;
    lemma_decimal_tame(at.text_x as nat);
    lemma_tame_joined(t12, decimal(at.text_x as nat));
    let t13 = t12 + decimal(at.text_x as nat);
    lemma_tame_piece_1();
    lemma_tame_joined(t13, "\" y=\""@);
    let t14 = t13 + "\" y=\""@;
    lemma_decimal_tame(at.text_y as nat);
    lemma_tame_joined(t14, decimal(at.text_y as nat));
    let t15 = t14 + decimal(at.text_y as nat);
    lemma_tame_piece_7();
    lemma_tame_joined(t15, "\" font-family=\"Geist Pixel, DejaVu Sans Mono, DejaVu Sans, sans-serif\" font-size=\""@);
    let t16 = t15 + "\" font-family=\"Geist Pixel, DejaVu Sans Mono, DejaVu Sans, sans-serif\" font-size=\""@;
    lemma_decimal_tame(at.font_size as nat);
    lemma_tame_joined(t16, decimal(at.font_size as nat));
    let t17 = t16 + decimal(at.font_size as nat);
    lemma_tame_piece_8();
    lemma_tame_joined(t17, "\" text-anchor=\"middle\" fill=\"rgb(0,0,0)\" fill-opacity=\"0.92\">"@);
    let t18 = t17 + "\" text-anchor=\"middle\" fill=\"rgb(0,0,0)\" fill-opacity=\"0.92\">"@;
    lemma_tame_piece_10();
    lemma_tame_joined(t18, watermark_text());
    let t19 = t18 + watermark_text();
    lemma_tame_piece_9();
    lemma_tame_joined(t19, "</text></g>"@);
    let t20 = t19 + "</text></g>"@;
    assert(t20 == watermark_body(at));
    reveal_strlit("</text></g>");
    reveal_strlit("\" fill=\"rgb(255,255,255)\" fill-opacity=\"0.90\" stroke=\"rgb(0,0,0)\" stroke-opacity=\"0.92\" stroke-width=\"");
}

/// The characters of the watermark's id: none opens or closes a tag, and
/// its one `w` is followed by an `a`.
proof fn lemma_id_letters(x: int)
    requires
        0 <= x < 17,
    ensures
        watermark_id().len() == 17,
        watermark_id()[x] != '<',
        watermark_id()[x] != '>',
        watermark_id()[x] == 'w' ==> x == 8,
        watermark_id()[8] == 'w',
        watermark_id()[9] == 'a',
{
    reveal_strlit("rideviz-watermark");
    if x == 0 {
    }
    if x == 1 {
    }
    if x == 2 {
    }
    if x == 3 {
    }
    if x == 4 {
    }
    if x == 5 {
    }
    if x == 6 {
    }
    if x == 7 {
    }
    if x == 8 {
    }
    if x == 9 {
    }
    if x == 10 {
    }
    if x == 11 {
    }
    if x == 12 {
    }
    if x == 13 {
    }
    if x == 14 {
    }
    if x == 15 {
    }
    if x == 16 {
    }
}

/// Where the id of the watermark stands in a scene that got the watermark.
pub open spec fn mark_of(svg: Seq<char>) -> int {
    match position(svg, "</svg>"@) {
        Some(i) => i + 7,
        None => svg.len() as int + 7,
    }
}

/// In the watermark group the id stands behind the seven characters that
/// open the group, and nowhere else.
proof fn lemma_nodes_once(width: u32, height: u32, k: int)
    requires
        occurs_at(watermark_nodes(width, height), watermark_id(), k),
    ensures
        k == 7,
{
    let id = watermark_id();
    let head = "<g id=\""@;
    let body = watermark_body(layout_of(width, height));
    let nodes = head + id + body;
    reveal_strlit("<g id=\"");
    lemma_id_letters(0);
    lemma_body_tame(layout_of(width, height));
    assert(nodes.subrange(k, k + 17)[8] == nodes[k + 8]);
    assert(nodes.subrange(k, k + 17)[9] == nodes[k + 9]);
    assert(nodes[k + 8] == 'w' && nodes[k + 9] == 'a');
    if k + 8 < 7 {
        assert(nodes[k + 8] == head[k + 8]);
    } else if k + 8 < 24 {
        assert(nodes[k + 8] == id[k + 1]);
        lemma_id_letters(k + 1);
    } else {
        assert(nodes[k + 8] == body[k - 16]);
        assert(nodes[k + 9] == body[k - 15]);
    }
}

/// A needle that is put into a text as part of a longer piece stands in
/// the result only where it stands in the piece, provided that the text
/// did not hold it, and that the needle holds neither the first nor the
/// last character of the piece.
proof fn lemma_inserted(
    before: Seq<char>,
    piece: Seq<char>,
    after: Seq<char>,
    needle: Seq<char>,
    j: int,
)
    requires
        !contains(before + after, needle),
        needle.len() > 0,
        piece.len() > 0,
        forall|x: int| 0 <= x < needle.len() ==> needle[x] != piece[0] && needle[x] != piece.last(),
        occurs_at(before + piece + after, needle, j),
    ensures
        occurs_at(piece, needle, j - before.len()),
{
    let out = before + piece + after;
    let text = before + after;
    let len = needle.len() as int;
    let start = before.len() as int;
    let end = start + piece.len();
    assert forall|x: int| 0 <= x < len implies out[j + x] == needle[x] by {
        assert(out.subrange(j, j + len)[x] == out[j + x]);
    }
    if j + len <= start {
        assert(text.subrange(j, j + len) =~= out.subrange(j, j + len));
        assert(occurs_at(text, needle, j));
    } else if j >= end {
        let back = j - piece.len();
        assert(text.subrange(back, back + len) =~= out.subrange(j, j + len));
        assert(occurs_at(text, needle, back));
    } else if j <= start {
        let x = start - j;
        assert(out[j + x] == piece[0]);
        assert(out[j + x] == needle[x]);
        assert(needle[x] != piece[0]);
    } else if j + len > end {
        let x = end - 1 - j;
        assert(out[j + x] == piece.last());
        assert(out[j + x] == needle[x]);
        assert(needle[x] != piece.last());
    } else {
        assert(piece.subrange(j - start, j - start + len) =~= out.subrange(j, j + len));
    }
}

/// A scene that did not hold the watermark's id holds it exactly once with
/// the watermark: in the group that was put in, and nowhere else.
pub proof fn lemma_watermarked_once(svg: Seq<char>, width: u32, height: u32)
    requires
        !contains(svg, watermark_id()),
    ensures
        occurrences(watermarked(svg, width, height), watermark_id()) == 1,
        forall|j: int|
            occurs_at(watermarked(svg, width, height), watermark_id(), j) <==> j == mark_of(svg),
{
    let id = watermark_id();
    let nodes = watermark_nodes(width, height);
    let n = svg.len() as int;
    lemma_position(svg, "</svg>"@);
    let place = match position(svg, "</svg>"@) {
        Some(i) => i,
        None => n,
    };
    let before = svg.subrange(0, place);
    let after = svg.subrange(place, n);
    let out = watermarked(svg, width, height);
    assert(0 <= place <= n) by {
        reveal_strlit("</svg>");
    }
    assert(before + after =~= svg);
    assert(out =~= before + nodes + after);
    lemma_nodes_ends(width, height);
    assert(out.subrange(place + 7, place + 24) =~= id);
    assert(occurs_at(out, id, place + 7));
    assert forall|j: int| occurs_at(out, id, j) implies j == place + 7 by {
        assert forall|x: int| 0 <= x < id.len() implies id[x] != nodes[0] && id[x]
            != nodes.last() by {
            lemma_id_letters(x);
        }
        lemma_inserted(before, nodes, after, id, j);
        lemma_nodes_once(width, height, j - place);
    }
    lemma_single_occurrence(out, id, place + 7, 0);
}

/// The watermark group opens and closes with a tag, and holds the id
/// behind its first seven characters.
proof fn lemma_nodes_ends(width: u32, height: u32)
    ensures
        watermark_id().len() == 17,
        watermark_nodes(width, height).len() >= 41,
        watermark_nodes(width, height)[0] == '<',
        watermark_nodes(width, height).last() == '>',
        watermark_nodes(width, height).subrange(7, 24) == watermark_id(),
{
    let body = watermark_body(layout_of(width, height));
    reveal_strlit("<g id=\"");
    lemma_id_letters(0);
    lemma_body_tame(layout_of(width, height));
    let nodes = "<g id=\""@ + watermark_id() + body;
    assert(nodes.last() == body.last());
    assert(nodes.subrange(7, 24) =~= watermark_id());
}

/// Computes the layout of the watermark.
pub fn watermark_layout(width: u32, height: u32) -> (at: WatermarkLayout)
    ensures
        at == layout_of(width, height),
{
    let w = width as u64;
    let h = height as u64;
    let font_size: u64 = if h / 50 > 13 {
        h / 50
    } else {
        13
    };
    let padding_x: u64 = if font_size * 7 / 10 > 8 {
        font_size * 7 / 10
    } else {
        8
    };
    let padding_y: u64 = if font_size / 2 > 6 {
        font_size / 2
    } else {
        6
    };
    let margin_bottom: u64 = if font_size * 115 / 100 > 16 {
        font_size * 115 / 100
    } else {
        16
    };
    let text_x = w / 2;
    let text_y = if h > margin_bottom {
        h - margin_bottom
    } else {
        0
    };
    let wanted = (868 * font_size + 200 * padding_x + 99) / 100;
    let room_x = if w > 12 {
        w - 12
    } else {
        0
    };
    let box_width = if wanted < room_x {
        wanted
    } else {
        room_x
    };
    let room_y = if h > 12 {
        h - 12
    } else {
        0
    };
    let box_height = if font_size + padding_y * 2 < room_y {
        font_size + padding_y * 2
    } else {
        room_y
    };
    let rounded = (font_size * 3 + 5) / 10;
    let border = (font_size * 8 + 50) / 100;
    WatermarkLayout {
        font_size,
        text_x,
        text_y,
        box_x: if text_x > box_width / 2 {
            text_x - box_width / 2
        } else {
            0
        },
        box_y: if text_y > font_size + padding_y {
            text_y - (font_size + padding_y)
        } else {
            0
        },
        box_width,
        box_height,
        radius: if rounded < 3 {
            3
        } else if rounded > 6 {
            6
        } else {
            rounded
        },
        border_width: if border > 1 {
            border
        } else {
            1
        },
    }
}

/// Writes the watermark group for a canvas.
#[verifier::rlimit(40)]
pub fn watermark_group(width: u32, height: u32) -> (nodes: String)
    ensures
        nodes@ == watermark_nodes(width, height),
{
    let at = watermark_layout(width, height);
    let mut nodes = String::from_str("<g id=\"");
    nodes.append("rideviz-watermark");
    nodes.append("\"><rect x=\"");
    push_decimal(&mut nodes, at.box_x);
    nodes.append("\" y=\"");
    push_decimal(&mut nodes, at.box_y);
    nodes.append("\" width=\"");
    push_decimal(&mut nodes, at.box_width);
    nodes.append("\" height=\"");
    push_decimal(&mut nodes, at.box_height);
    nodes.append("\" rx=\"");
    push_decimal(&mut nodes, at.radius);
    nodes.append(
        "\" fill=\"rgb(255,255,255)\" fill-opacity=\"0.90\" stroke=\"rgb(0,0,0)\" stroke-opacity=\"0.92\" stroke-width=\"",
    );
    push_decimal(&mut nodes, at.border_width);
    nodes.append("\" /><text x=\"");
    push_decimal(&mut nodes, at.text_x);
    nodes.append("\" y=\"");
    push_decimal(&mut nodes, at.text_y);
    nodes.append(
        "\" font-family=\"Geist Pixel, DejaVu Sans Mono, DejaVu Sans, sans-serif\" font-size=\"",
    );
    push_decimal(&mut nodes, at.font_size);
    nodes.append("\" text-anchor=\"middle\" fill=\"rgb(0,0,0)\" fill-opacity=\"0.92\">");
    nodes.append("rideviz.online");
    nodes.append("</text></g>");
    assert(nodes@ =~= watermark_nodes(width, height));
    nodes
}

/// Puts the watermark into a scene, once: a scene that holds the
/// watermark's id already comes back unchanged.
pub fn inject_watermark(svg: &str, width: u32, height: u32) -> (out: String)
    ensures
        out@ == watermarked(svg@, width, height),
{
    let chars = chars_of(svg);
    let id = chars_of("rideviz-watermark");
    if find(&chars, &id).is_some() {
        return String::from_str(svg);
    }
    let nodes = watermark_group(width, height);
    let closing = chars_of("</svg>");
    match find(&chars, &closing) {
        Some(i) => {
            let mut out = String::from_str(svg.substring_char(0, i));
            out.append(nodes.as_str());
            out.append(svg.substring_char(i, chars.len()));
            out
        },
        None => {
            let mut out = String::from_str(svg);
            out.append(nodes.as_str());
            out
        },
    }
}

/// The scene as it is painted for an output: with the watermark where the
/// output asks for one.
pub fn finish_svg(svg: &str, config: &OutputConfig) -> (out: String)
    ensures
        out@ == if config.watermark {
            watermarked(svg@, config.width, config.height)
        } else {
            svg@
        },
{
    if config.watermark {
        inject_watermark(svg, config.width, config.height)
    } else {
        String::from_str(svg)
    }
}

} // verus!
