//! The wire format, stated character by character, and the encoder that
//! meets it. Every request becomes one flat JSON object whose first field
//! is the `"type"` discriminant, followed by the variant's fields in a
//! fixed order; the specification functions below are that order.

use vstd::prelude::*;
use vstd::string::StringExecFns;

use crate::request::Request;
use crate::text::bool_str;
use crate::text::bool_text;
use crate::text::dec_i32;
use crate::text::dec_int;
use crate::text::dec_nat;
use crate::text::dec_u64;
use crate::text::join_comma;
use crate::text::json_quote;
use crate::text::json_str_of;
use crate::text::lemma_join_comma_push;

verus! {

pub open spec fn end_text() -> Seq<char> {
    "{\"type\":\"end\"}"@
}

pub open spec fn polyline_text(points: Seq<Seq<char>>, color: u32) -> Seq<char> {
    "{\"type\":\"polyline\",\"points\":["@ + join_comma(points) + "],\"color\":"@ + dec_nat(
        color as nat,
    ) + "}"@
}

/// A line segment is the polyline of its four coordinates.
pub open spec fn line_text(
    x1: Seq<char>,
    y1: Seq<char>,
    x2: Seq<char>,
    y2: Seq<char>,
    color: u32,
) -> Seq<char> {
    polyline_text(seq![x1, y1, x2, y2], color)
}

pub open spec fn circle_text(
    x: Seq<char>,
    y: Seq<char>,
    radius: Seq<char>,
    color: u32,
    fill: bool,
) -> Seq<char> {
    "{\"type\":\"circle\",\"p\":["@ + x + ","@ + y + "],\"r\":"@ + radius + ",\"color\":"@
        + dec_nat(color as nat) + ",\"fill\":"@ + bool_text(fill) + "}"@
}

/// The `color` field of a four-corner gradient: the four colors as a list.
pub open spec fn color4_text(colors: Seq<u32>) -> Seq<char> {
    "["@ + dec_nat(colors[0] as nat) + ","@ + dec_nat(colors[1] as nat) + ","@ + dec_nat(
        colors[2] as nat,
    ) + ","@ + dec_nat(colors[3] as nat) + "]"@
}

/// The `color` field of a three-corner gradient.
pub open spec fn color3_text(colors: Seq<u32>) -> Seq<char> {
    "["@ + dec_nat(colors[0] as nat) + ","@ + dec_nat(colors[1] as nat) + ","@ + dec_nat(
        colors[2] as nat,
    ) + "]"@
}

/// Both rectangle forms share this layout; `color_text` is the rendered
/// `color` field, a single numeral or a four-element list.
pub open spec fn rectangle_text(
    x1: Seq<char>,
    y1: Seq<char>,
    x2: Seq<char>,
    y2: Seq<char>,
    color_text: Seq<char>,
    fill: bool,
) -> Seq<char> {
    "{\"type\":\"rectangle\",\"tl\":["@ + x1 + ","@ + y1 + "],\"br\":["@ + x2 + ","@ + y2
        + "],\"color\":"@ + color_text + ",\"fill\":"@ + bool_text(fill) + "}"@
}

/// Both triangle forms share this layout; `color_text` is the rendered
/// `color` field, a single numeral or a three-element list.
pub open spec fn triangle_text(
    x1: Seq<char>,
    y1: Seq<char>,
    x2: Seq<char>,
    y2: Seq<char>,
    x3: Seq<char>,
    y3: Seq<char>,
    color_text: Seq<char>,
    fill: bool,
) -> Seq<char> {
    "{\"type\":\"triangle\",\"points\":["@ + x1 + ","@ + y1 + ","@ + x2 + ","@ + y2 + ","@ + x3
        + ","@ + y3 + "],\"color\":"@ + color_text + ",\"fill\":"@ + bool_text(fill) + "}"@
}

pub open spec fn circle_popup_text(
    x: Seq<char>,
    y: Seq<char>,
    radius: Seq<char>,
    text: Seq<char>,
) -> Seq<char> {
    "{\"type\":\"popup\",\"p\":["@ + x + ","@ + y + "],\"r\":"@ + radius + ",\"text\":"@
        + json_str_of(text) + "}"@
}

pub open spec fn rectangle_popup_text(
    x1: Seq<char>,
    y1: Seq<char>,
    x2: Seq<char>,
    y2: Seq<char>,
    text: Seq<char>,
) -> Seq<char> {
    "{\"type\":\"popup\",\"tl\":["@ + x1 + ","@ + y1 + "],\"br\":["@ + x2 + ","@ + y2
        + "],\"text\":"@ + json_str_of(text) + "}"@
}

pub open spec fn options_text(layer: int, permanent: bool) -> Seq<char> {
    "{\"type\":\"options\",\"layer\":"@ + dec_int(layer) + ",\"permanent\":"@ + bool_text(
        permanent,
    ) + "}"@
}

pub open spec fn message_text(text: Seq<char>) -> Seq<char> {
    "{\"type\":\"message\",\"message\":"@ + json_str_of(text) + "}"@
}

/// The canonical encoding of a request: one flat JSON object, `"type"`
/// first, the variant's fields after it in declared order.
pub open spec fn spec_encode(req: Request) -> Seq<char> {
    match req {
        Request::End => end_text(),
        Request::Polyline { points, color } => polyline_text(points.deep_view(), color),
        Request::Circle { x, y, radius, color, fill } => circle_text(
            x@,
            y@,
            radius@,
            color,
            fill,
        ),
        Request::Rectangle { x1, y1, x2, y2, color, fill } => rectangle_text(
            x1@,
            y1@,
            x2@,
            y2@,
            dec_nat(color as nat),
            fill,
        ),
        Request::RectangleWithColors { x1, y1, x2, y2, colors, fill } => rectangle_text(
            x1@,
            y1@,
            x2@,
            y2@,
            color4_text(colors@),
            fill,
        ),
        Request::Triangle { x1, y1, x2, y2, x3, y3, color, fill } => triangle_text(
            x1@,
            y1@,
            x2@,
            y2@,
            x3@,
            y3@,
            dec_nat(color as nat),
            fill,
        ),
        Request::TriangleWithColors { x1, y1, x2, y2, x3, y3, colors, fill } => triangle_text(
            x1@,
            y1@,
            x2@,
            y2@,
            x3@,
            y3@,
            color3_text(colors@),
            fill,
        ),
        Request::CirclePopup { x, y, radius, text } => circle_popup_text(x@, y@, radius@, text@),
        Request::RectanglePopup { x1, y1, x2, y2, text } => rectangle_popup_text(
            x1@,
            y1@,
            x2@,
            y2@,
            text@,
        ),
        Request::Options { layer, permanent } => options_text(layer as int, permanent),
        Request::Message { text } => message_text(text@),
    }
}

/// Encodes a request as the one JSON object that `spec_encode` states,
/// character for character.
pub fn encode(req: &Request) -> (out: String)
    ensures
        out@ == spec_encode(*req),
{
    match req {
        Request::End => {
            let out = String::from_str("{\"type\":\"end\"}");
            out
        },
        Request::Polyline { points, color } => {
            let mut out = String::from_str("{\"type\":\"polyline\",\"points\":[");
            let ghost pts = points.deep_view();
            proof {
                assert(out@ =~= "{\"type\":\"polyline\",\"points\":["@ + join_comma(
                    pts.take(0),
                ));
            }
            let mut i: usize = 0;
            while i < points.len()
                invariant
                    i <= points@.len(),
                    pts == points.deep_view(),
                    pts.len() == points@.len(),
                    out@ == "{\"type\":\"polyline\",\"points\":["@ + join_comma(pts.take(i as int)),
                decreases points@.len() - i,
            {
                if i > 0 {
                    out.append(",");
                }
                out.append(points[i].as_str());
                proof {
                    assert(pts[i as int] == points@[i as int].deep_view());
                    assert(pts.take(i + 1) =~= pts.take(i as int).push(pts[i as int]));
                    lemma_join_comma_push(pts.take(i as int), pts[i as int]);
                    assert(out@ =~= "{\"type\":\"polyline\",\"points\":["@ + join_comma(
                        pts.take(i + 1),
                    ));
                }
                i += 1;
            }
            proof {
                assert(pts.take(pts.len() as int) =~= pts);
            }
            out.append("],\"color\":");
            let digits = dec_u64(*color as u64);
            out.append(digits.as_str());
            out.append("}");
            proof {
                assert(out@ =~= polyline_text(pts, *color));
            }
            out
        },
        Request::Circle { x, y, radius, color, fill } => {
            let mut out = String::from_str("{\"type\":\"circle\",\"p\":[");
            out.append(x.as_str());
            out.append(",");
            out.append(y.as_str());
            out.append("],\"r\":");
            out.append(radius.as_str());
            out.append(",\"color\":");
            let digits = dec_u64(*color as u64);
            out.append(digits.as_str());
            out.append(",\"fill\":");
            out.append(bool_str(*fill));
            out.append("}");
            proof {
                assert(out@ =~= circle_text(x@, y@, radius@, *color, *fill));
            }
            out
        },
        Request::Rectangle { x1, y1, x2, y2, color, fill } => {
            let mut out = String::from_str("{\"type\":\"rectangle\",\"tl\":[");
            out.append(x1.as_str());
            out.append(",");
            out.append(y1.as_str());
            out.append("],\"br\":[");
            out.append(x2.as_str());
            out.append(",");
            out.append(y2.as_str());
            out.append("],\"color\":");
            let digits = dec_u64(*color as u64);
            out.append(digits.as_str());
            out.append(",\"fill\":");
            out.append(bool_str(*fill));
            out.append("}");
            proof {
                assert(out@ =~= rectangle_text(x1@, y1@, x2@, y2@, dec_nat(*color as nat), *fill));
            }
            out
        },
        Request::RectangleWithColors { x1, y1, x2, y2, colors, fill } => {
            let mut out = String::from_str("{\"type\":\"rectangle\",\"tl\":[");
            out.append(x1.as_str());
            out.append(",");
            out.append(y1.as_str());
            out.append("],\"br\":[");
            out.append(x2.as_str());
            out.append(",");
            out.append(y2.as_str());
            out.append("],\"color\":");
            out.append("[");
            let c0 = dec_u64(colors[0] as u64);
            out.append(c0.as_str());
            out.append(",");
            let c1 = dec_u64(colors[1] as u64);
            out.append(c1.as_str());
            out.append(",");
            let c2 = dec_u64(colors[2] as u64);
            out.append(c2.as_str());
            out.append(",");
            let c3 = dec_u64(colors[3] as u64);
            out.append(c3.as_str());
            out.append("]");
            out.append(",\"fill\":");
            out.append(bool_str(*fill));
            out.append("}");
            proof {
                assert(out@ =~= rectangle_text(x1@, y1@, x2@, y2@, color4_text(colors@), *fill));
            }
            out
        },
        Request::Triangle { x1, y1, x2, y2, x3, y3, color, fill } => {
            let mut out = String::from_str("{\"type\":\"triangle\",\"points\":[");
            out.append(x1.as_str());
            out.append(",");
            out.append(y1.as_str());
            out.append(",");
            out.append(x2.as_str());
            out.append(",");
            out.append(y2.as_str());
            out.append(",");
            out.append(x3.as_str());
            out.append(",");
            out.append(y3.as_str());
            out.append("],\"color\":");
            let digits = dec_u64(*color as u64);
            out.append(digits.as_str());
            out.append(",\"fill\":");
            out.append(bool_str(*fill));
            out.append("}");
            proof {
                assert(out@ =~= triangle_text(
                    x1@,
                    y1@,
                    x2@,
                    y2@,
                    x3@,
                    y3@,
                    dec_nat(*color as nat),
                    *fill,
                ));
            }
            out
        },
        Request::TriangleWithColors { x1, y1, x2, y2, x3, y3, colors, fill } => {
            let mut out = String::from_str("{\"type\":\"triangle\",\"points\":[");
            out.append(x1.as_str());
            out.append(",");
            out.append(y1.as_str());
            out.append(",");
            out.append(x2.as_str());
            out.append(",");
            out.append(y2.as_str());
            out.append(",");
            out.append(x3.as_str());
            out.append(",");
            out.append(y3.as_str());
            out.append("],\"color\":");
            out.append("[");
            let c0 = dec_u64(colors[0] as u64);
            out.append(c0.as_str());
            out.append(",");
            let c1 = dec_u64(colors[1] as u64);
            out.append(c1.as_str());
            out.append(",");
            let c2 = dec_u64(colors[2] as u64);
            out.append(c2.as_str());
            out.append("]");
            out.append(",\"fill\":");
            out.append(bool_str(*fill));
            out.append("}");
            proof {
                assert(out@ =~= triangle_text(x1@, y1@, x2@, y2@, x3@, y3@, color3_text(colors@), *fill));
            }
            out
        },
        Request::CirclePopup { x, y, radius, text } => {
            let mut out = String::from_str("{\"type\":\"popup\",\"p\":[");
            out.append(x.as_str());
            out.append(",");
            out.append(y.as_str());
            out.append("],\"r\":");
            out.append(radius.as_str());
            out.append(",\"text\":");
            let quoted = json_quote(text.as_str());
            out.append(quoted.as_str());
            out.append("}");
            proof {
                assert(out@ =~= circle_popup_text(x@, y@, radius@, text@));
            }
            out
        },
        Request::RectanglePopup { x1, y1, x2, y2, text } => {
            let mut out = String::from_str("{\"type\":\"popup\",\"tl\":[");
            out.append(x1.as_str());
            out.append(",");
            out.append(y1.as_str());
            out.append("],\"br\":[");
            out.append(x2.as_str());
            out.append(",");
            out.append(y2.as_str());
            out.append("],\"text\":");
            let quoted = json_quote(text.as_str());
            out.append(quoted.as_str());
            out.append("}");
            proof {
                assert(out@ =~= rectangle_popup_text(x1@, y1@, x2@, y2@, text@));
            }
            out
        },
        Request::Options { layer, permanent } => {
            let mut out = String::from_str("{\"type\":\"options\",\"layer\":");
            let digits = dec_i32(*layer);
            out.append(digits.as_str());
            out.append(",\"permanent\":");
            out.append(bool_str(*permanent));
            out.append("}");
            proof {
                assert(out@ =~= options_text(*layer as int, *permanent));
            }
            out
        },
        Request::Message { text } => {
            let mut out = String::from_str("{\"type\":\"message\",\"message\":");
            let quoted = json_quote(text.as_str());
            out.append(quoted.as_str());
            out.append("}");
            proof {
                assert(out@ =~= message_text(text@));
            }
            out
        },
    }
}

/// The `"type"` discriminant of a request's variant, per the wire table.
/// The plain and gradient forms of a shape share theirs, as do the two
/// popups: those pairs are told apart by field shape, not by the tag.
pub open spec fn discriminant(req: Request) -> Seq<char> {
    match req {
        Request::End => "end"@,
        Request::Polyline { .. } => "polyline"@,
        Request::Circle { .. } => "circle"@,
        Request::Rectangle { .. } => "rectangle"@,
        Request::RectangleWithColors { .. } => "rectangle"@,
        Request::Triangle { .. } => "triangle"@,
        Request::TriangleWithColors { .. } => "triangle"@,
        Request::CirclePopup { .. } => "popup"@,
        Request::RectanglePopup { .. } => "popup"@,
        Request::Options { .. } => "options"@,
        Request::Message { .. } => "message"@,
    }
}

/// Law: every encoded frame opens with a `"type"` field that carries its
/// variant's discriminant — the first field of the object is stable across
/// all variants and inputs.
pub proof fn lemma_discriminant_first(req: Request)
    ensures
        spec_encode(req).len() >= 10 + discriminant(req).len(),
        spec_encode(req).take(10 + discriminant(req).len() as int) == "{\"type\":\""@
            + discriminant(req) + "\""@,
{
    reveal_strlit("{\"type\":\"");
    reveal_strlit("\"");
    match req {
        Request::End => {
            reveal_strlit("end");
            reveal_strlit("{\"type\":\"end\"}");
            assert(spec_encode(req).take(13) =~= "{\"type\":\""@ + "end"@ + "\""@);
        },
        Request::Polyline { .. } => {
            reveal_strlit("polyline");
            reveal_strlit("{\"type\":\"polyline\",\"points\":[");
            assert(spec_encode(req).take(18) =~= "{\"type\":\""@ + "polyline"@ + "\""@);
        },
        Request::Circle { .. } => {
            reveal_strlit("circle");
            reveal_strlit("{\"type\":\"circle\",\"p\":[");
            assert(spec_encode(req).take(16) =~= "{\"type\":\""@ + "circle"@ + "\""@);
        },
        Request::Rectangle { .. } => {
            reveal_strlit("rectangle");
            reveal_strlit("{\"type\":\"rectangle\",\"tl\":[");
            assert(spec_encode(req).take(19) =~= "{\"type\":\""@ + "rectangle"@ + "\""@);
        },
        Request::RectangleWithColors { .. } => {
            reveal_strlit("rectangle");
            reveal_strlit("{\"type\":\"rectangle\",\"tl\":[");
            assert(spec_encode(req).take(19) =~= "{\"type\":\""@ + "rectangle"@ + "\""@);
        },
        Request::Triangle { .. } => {
            reveal_strlit("triangle");
            reveal_strlit("{\"type\":\"triangle\",\"points\":[");
            assert(spec_encode(req).take(18) =~= "{\"type\":\""@ + "triangle"@ + "\""@);
        },
        Request::TriangleWithColors { .. } => {
            reveal_strlit("triangle");
            reveal_strlit("{\"type\":\"triangle\",\"points\":[");
            assert(spec_encode(req).take(18) =~= "{\"type\":\""@ + "triangle"@ + "\""@);
        },
        Request::CirclePopup { .. } => {
            reveal_strlit("popup");
            reveal_strlit("{\"type\":\"popup\",\"p\":[");
            assert(spec_encode(req).take(15) =~= "{\"type\":\""@ + "popup"@ + "\""@);
        },
        Request::RectanglePopup { .. } => {
            reveal_strlit("popup");
            reveal_strlit("{\"type\":\"popup\",\"tl\":[");
            assert(spec_encode(req).take(15) =~= "{\"type\":\""@ + "popup"@ + "\""@);
        },
        Request::Options { .. } => {
            reveal_strlit("options");
            reveal_strlit("{\"type\":\"options\",\"layer\":");
            assert(spec_encode(req).take(17) =~= "{\"type\":\""@ + "options"@ + "\""@);
        },
        Request::Message { .. } => {
            reveal_strlit("message");
            reveal_strlit("{\"type\":\"message\",\"message\":");
            assert(spec_encode(req).take(17) =~= "{\"type\":\""@ + "message"@ + "\""@);
        },
    }
}

proof fn lemma_tag_chars(req: Request)
    ensures
        forall|i: int|
            0 <= i < discriminant(req).len() ==> #[trigger] discriminant(req)[i] != '"',
{
    reveal_strlit("end");
    reveal_strlit("polyline");
    reveal_strlit("circle");
    reveal_strlit("rectangle");
    reveal_strlit("triangle");
    reveal_strlit("popup");
    reveal_strlit("options");
    reveal_strlit("message");
}

/// Law: frames of variants with different discriminants never coincide —
/// the `type` tag separates them on the wire.
pub proof fn lemma_discriminants_separate(r1: Request, r2: Request)
    requires
        discriminant(r1) != discriminant(r2),
    ensures
        spec_encode(r1) != spec_encode(r2),
{
    if spec_encode(r1) == spec_encode(r2) {
        lemma_discriminant_first(r1);
        lemma_discriminant_first(r2);
        lemma_tag_chars(r1);
        lemma_tag_chars(r2);
        reveal_strlit("{\"type\":\"");
        reveal_strlit("\"");
        let d1 = discriminant(r1);
        let d2 = discriminant(r2);
        let s = spec_encode(r1);
        let pre1 = "{\"type\":\""@ + d1 + "\""@;
        let pre2 = "{\"type\":\""@ + d2 + "\""@;
        if d1.len() == d2.len() {
            assert(s.take(10 + d1.len() as int) == pre1);
            assert(spec_encode(r2).take(10 + d2.len() as int) == pre2);
            assert forall|i: int| 0 <= i < d1.len() implies d1[i] == #[trigger] d2[i] by {
                assert(pre1[9 + i] == d1[i]);
                assert(pre2[9 + i] == d2[i]);
            }
            assert(d1 =~= d2);
            assert(false);
        } else if d1.len() < d2.len() {
            let p1 = s.take(10 + d1.len() as int);
            let p2 = s.take(10 + d2.len() as int);
            assert(p1[9 + d1.len() as int] == '"');
            assert(s[9 + d1.len() as int] == '"');
            assert(p2[9 + d1.len() as int] == d2[d1.len() as int]);
            assert(s[9 + d1.len() as int] == d2[d1.len() as int]);
            assert(false);
        } else {
            let p1 = s.take(10 + d1.len() as int);
            let p2 = s.take(10 + d2.len() as int);
            assert(p2[9 + d2.len() as int] == '"');
            assert(s[9 + d2.len() as int] == '"');
            assert(p1[9 + d2.len() as int] == d1[d2.len() as int]);
            assert(s[9 + d2.len() as int] == d1[d2.len() as int]);
            assert(false);
        }
    }
}

/// Two splits of one string at the same start agree on the segment when
/// neither segment contains the boundary character that follows both.
proof fn lemma_segment_unique(s: Seq<char>, pre: int, a1: Seq<char>, a2: Seq<char>, bound: char)
    requires
        0 <= pre,
        pre + a1.len() < s.len(),
        pre + a2.len() < s.len(),
        forall|i: int| 0 <= i < a1.len() ==> s[pre + i] == #[trigger] a1[i] && a1[i] != bound,
        forall|i: int| 0 <= i < a2.len() ==> s[pre + i] == #[trigger] a2[i] && a2[i] != bound,
        s[pre + a1.len()] == bound,
        s[pre + a2.len()] == bound,
    ensures
        a1 == a2,
{
    if a1.len() < a2.len() {
        assert(s[pre + a1.len()] == a2[a1.len() as int]);
        assert(false);
    }
    if a2.len() < a1.len() {
        assert(s[pre + a2.len()] == a1[a2.len() as int]);
        assert(false);
    }
    assert(a1 =~= a2);
}

/// Law (round-trip fidelity for circles): when the coordinate tokens are
/// well-formed, the encoded circle frame determines every input.
pub proof fn lemma_circle_roundtrip(
    x1: Seq<char>,
    y1: Seq<char>,
    r1: Seq<char>,
    c1: u32,
    f1: bool,
    x2: Seq<char>,
    y2: Seq<char>,
    r2: Seq<char>,
    c2: u32,
    f2: bool,
)
    requires
        crate::num::is_number_token(x1),
        crate::num::is_number_token(y1),
        crate::num::is_number_token(r1),
        crate::num::is_number_token(x2),
        crate::num::is_number_token(y2),
        crate::num::is_number_token(r2),
        circle_text(x1, y1, r1, c1, f1) == circle_text(x2, y2, r2, c2, f2),
    ensures
        x1 == x2,
        y1 == y2,
        r1 == r2,
        c1 == c2,
        f1 == f2,
{
    reveal_strlit("{\"type\":\"circle\",\"p\":[");
    reveal_strlit(",");
    reveal_strlit("],\"r\":");
    reveal_strlit(",\"color\":");
    reveal_strlit(",\"fill\":");
    reveal_strlit("}");
    reveal_strlit("true");
    reveal_strlit("false");
    let head = "{\"type\":\"circle\",\"p\":["@;
    let brk = "],\"r\":"@;
    let csep = ",\"color\":"@;
    let fsep = ",\"fill\":"@;
    let s = circle_text(x1, y1, r1, c1, f1);
    crate::num::lemma_token_chars(x1);
    crate::num::lemma_token_chars(y1);
    crate::num::lemma_token_chars(r1);
    crate::num::lemma_token_chars(x2);
    crate::num::lemma_token_chars(y2);
    crate::num::lemma_token_chars(r2);
    crate::text::lemma_dec_nat_digits(c1 as nat);
    crate::text::lemma_dec_nat_digits(c2 as nat);
    crate::text::lemma_dec_nat_len(c1 as nat);
    crate::text::lemma_dec_nat_len(c2 as nat);
    assert(!crate::num::token_char(','));
    assert(!crate::num::token_char(']'));
    // the x token: bounded by the comma between the coordinates
    let p1 = head.len() as int;
    assert forall|i: int| 0 <= i < x1.len() implies s[p1 + i] == #[trigger] x1[i] && x1[i]
        != ',' by {}
    assert forall|i: int| 0 <= i < x2.len() implies s[p1 + i] == #[trigger] x2[i] && x2[i]
        != ',' by {
        assert(circle_text(x2, y2, r2, c2, f2)[p1 + i] == x2[i]);
    }
    assert(s[p1 + x1.len()] == ',');
    assert(circle_text(x2, y2, r2, c2, f2)[p1 + x2.len()] == ',');
    lemma_segment_unique(s, p1, x1, x2, ',');
    // the y token: bounded by the bracket that closes the point
    let p2 = p1 + x1.len() + 1;
    assert forall|i: int| 0 <= i < y1.len() implies s[p2 + i] == #[trigger] y1[i] && y1[i]
        != ']' by {}
    assert forall|i: int| 0 <= i < y2.len() implies s[p2 + i] == #[trigger] y2[i] && y2[i]
        != ']' by {
        assert(circle_text(x2, y2, r2, c2, f2)[p2 + i] == y2[i]);
    }
    assert(s[p2 + y1.len()] == ']');
    assert(circle_text(x2, y2, r2, c2, f2)[p2 + y2.len()] == ']');
    lemma_segment_unique(s, p2, y1, y2, ']');
    // the radius token: bounded by the comma that opens the color field
    let p3 = p2 + y1.len() + brk.len();
    assert forall|i: int| 0 <= i < r1.len() implies s[p3 + i] == #[trigger] r1[i] && r1[i]
        != ',' by {}
    assert forall|i: int| 0 <= i < r2.len() implies s[p3 + i] == #[trigger] r2[i] && r2[i]
        != ',' by {
        assert(circle_text(x2, y2, r2, c2, f2)[p3 + i] == r2[i]);
    }
    assert(s[p3 + r1.len()] == ',');
    assert(circle_text(x2, y2, r2, c2, f2)[p3 + r2.len()] == ',');
    lemma_segment_unique(s, p3, r1, r2, ',');
    // the color numeral: bounded by the comma that opens the fill field
    let d1 = dec_nat(c1 as nat);
    let d2 = dec_nat(c2 as nat);
    let p4 = p3 + r1.len() + csep.len();
    assert forall|i: int| 0 <= i < d1.len() implies s[p4 + i] == #[trigger] d1[i] && d1[i]
        != ',' by {}
    assert forall|i: int| 0 <= i < d2.len() implies s[p4 + i] == #[trigger] d2[i] && d2[i]
        != ',' by {
        assert(circle_text(x2, y2, r2, c2, f2)[p4 + i] == d2[i]);
    }
    assert(s[p4 + d1.len()] == ',');
    assert(circle_text(x2, y2, r2, c2, f2)[p4 + d2.len()] == ',');
    lemma_segment_unique(s, p4, d1, d2, ',');
    crate::text::lemma_dec_nat_injective(c1 as nat, c2 as nat);
    // the fill flag: the two boolean literals differ in length
    assert(s.len() == head.len() + x1.len() + 1 + y1.len() + brk.len() + r1.len() + csep.len()
        + d1.len() + fsep.len() + bool_text(f1).len() + 1);
    assert(circle_text(x2, y2, r2, c2, f2).len() == head.len() + x2.len() + 1 + y2.len()
        + brk.len() + r2.len() + csep.len() + d2.len() + fsep.len() + bool_text(f2).len() + 1);
    assert(bool_text(f1).len() == bool_text(f2).len());
    assert(f1 == f2);
}

/// What follows the geometry of a shape frame: the rendered color field
/// and the fill flag.
spec fn color_tail(color_text: Seq<char>, fill: bool) -> Seq<char> {
    color_text + ",\"fill\":"@ + bool_text(fill) + "}"@
}

/// Equal color tails with plain color numerals carry equal colors and
/// equal fill flags.
proof fn lemma_color_tail_plain(c1: u32, f1: bool, c2: u32, f2: bool)
    requires
        color_tail(dec_nat(c1 as nat), f1) == color_tail(dec_nat(c2 as nat), f2),
    ensures
        c1 == c2,
        f1 == f2,
{
    reveal_strlit(",\"fill\":");
    reveal_strlit("}");
    reveal_strlit("true");
    reveal_strlit("false");
    let u = color_tail(dec_nat(c1 as nat), f1);
    let d1 = dec_nat(c1 as nat);
    let d2 = dec_nat(c2 as nat);
    crate::text::lemma_dec_nat_digits(c1 as nat);
    crate::text::lemma_dec_nat_digits(c2 as nat);
    crate::text::lemma_dec_nat_len(c1 as nat);
    crate::text::lemma_dec_nat_len(c2 as nat);
    assert forall|i: int| 0 <= i < d1.len() implies u[i] == #[trigger] d1[i] && d1[i] != ',' by {}
    assert forall|i: int| 0 <= i < d2.len() implies u[i] == #[trigger] d2[i] && d2[i] != ',' by {
        assert(color_tail(d2, f2)[i] == d2[i]);
    }
    assert(u[d1.len() as int] == ',');
    assert(color_tail(d2, f2)[d2.len() as int] == ',');
    lemma_segment_unique(u, 0int, d1, d2, ',');
    crate::text::lemma_dec_nat_injective(c1 as nat, c2 as nat);
    assert(u.len() == d1.len() + ",\"fill\":"@.len() + bool_text(f1).len() + 1);
    assert(color_tail(d2, f2).len() == d2.len() + ",\"fill\":"@.len() + bool_text(f2).len() + 1);
    assert(bool_text(f1).len() == bool_text(f2).len());
    assert(f1 == f2);
}

/// Equal color tails with four-color lists carry equal lists and equal
/// fill flags.
#[verifier::rlimit(60)]
proof fn lemma_color_tail_list4(k1: Seq<u32>, f1: bool, k2: Seq<u32>, f2: bool)
    requires
        k1.len() == 4,
        k2.len() == 4,
        color_tail(color4_text(k1), f1) == color_tail(color4_text(k2), f2),
    ensures
        k1 == k2,
        f1 == f2,
{
    reveal_strlit("[");
    reveal_strlit(",");
    reveal_strlit("]");
    reveal_strlit(",\"fill\":");
    reveal_strlit("}");
    reveal_strlit("true");
    reveal_strlit("false");
    let u = color_tail(color4_text(k1), f1);
    let u2 = color_tail(color4_text(k2), f2);
    crate::text::lemma_dec_nat_digits(k1[0] as nat);
    crate::text::lemma_dec_nat_digits(k1[1] as nat);
    crate::text::lemma_dec_nat_digits(k1[2] as nat);
    crate::text::lemma_dec_nat_digits(k1[3] as nat);
    crate::text::lemma_dec_nat_digits(k2[0] as nat);
    crate::text::lemma_dec_nat_digits(k2[1] as nat);
    crate::text::lemma_dec_nat_digits(k2[2] as nat);
    crate::text::lemma_dec_nat_digits(k2[3] as nat);
    let e10 = dec_nat(k1[0] as nat);
    let e11 = dec_nat(k1[1] as nat);
    let e12 = dec_nat(k1[2] as nat);
    let e13 = dec_nat(k1[3] as nat);
    let e20 = dec_nat(k2[0] as nat);
    let e21 = dec_nat(k2[1] as nat);
    let e22 = dec_nat(k2[2] as nat);
    let e23 = dec_nat(k2[3] as nat);
    // first gradient color, bounded by a comma
    assert forall|i: int| 0 <= i < e10.len() implies u[1 + i] == #[trigger] e10[i] && e10[i]
        != ',' by {}
    assert forall|i: int| 0 <= i < e20.len() implies u[1 + i] == #[trigger] e20[i] && e20[i]
        != ',' by {
        assert(u2[1 + i] == e20[i]);
    }
    assert(u[1 + e10.len() as int] == ',');
    assert(u2[1 + e20.len() as int] == ',');
    lemma_segment_unique(u, 1int, e10, e20, ',');
    crate::text::lemma_dec_nat_injective(k1[0] as nat, k2[0] as nat);
    // second gradient color
    let q2: int = 2 + e10.len() as int;
    assert forall|i: int| 0 <= i < e11.len() implies u[q2 + i] == #[trigger] e11[i] && e11[i]
        != ',' by {}
    assert forall|i: int| 0 <= i < e21.len() implies u[q2 + i] == #[trigger] e21[i] && e21[i]
        != ',' by {
        assert(u2[q2 + i] == e21[i]);
    }
    assert(u[q2 + e11.len() as int] == ',');
    assert(u2[q2 + e21.len() as int] == ',');
    lemma_segment_unique(u, q2, e11, e21, ',');
    crate::text::lemma_dec_nat_injective(k1[1] as nat, k2[1] as nat);
    // third gradient color
    let q3: int = q2 + e11.len() as int + 1;
    assert forall|i: int| 0 <= i < e12.len() implies u[q3 + i] == #[trigger] e12[i] && e12[i]
        != ',' by {}
    assert forall|i: int| 0 <= i < e22.len() implies u[q3 + i] == #[trigger] e22[i] && e22[i]
        != ',' by {
        assert(u2[q3 + i] == e22[i]);
    }
    assert(u[q3 + e12.len() as int] == ',');
    assert(u2[q3 + e22.len() as int] == ',');
    lemma_segment_unique(u, q3, e12, e22, ',');
    crate::text::lemma_dec_nat_injective(k1[2] as nat, k2[2] as nat);
    // fourth gradient color, bounded by the closing bracket
    let q4: int = q3 + e12.len() as int + 1;
    assert forall|i: int| 0 <= i < e13.len() implies u[q4 + i] == #[trigger] e13[i] && e13[i]
        != ']' by {}
    assert forall|i: int| 0 <= i < e23.len() implies u[q4 + i] == #[trigger] e23[i] && e23[i]
        != ']' by {
        assert(u2[q4 + i] == e23[i]);
    }
    assert(u[q4 + e13.len() as int] == ']');
    assert(u2[q4 + e23.len() as int] == ']');
    lemma_segment_unique(u, q4, e13, e23, ']');
    crate::text::lemma_dec_nat_injective(k1[3] as nat, k2[3] as nat);
    assert(k1 =~= k2);
    // the fill flag, by total length
    assert(u.len() == color4_text(k1).len() + ",\"fill\":"@.len() + bool_text(f1).len() + 1);
    assert(u2.len() == color4_text(k2).len() + ",\"fill\":"@.len() + bool_text(f2).len() + 1);
    assert(color4_text(k1).len() == color4_text(k2).len());
    assert(bool_text(f1).len() == bool_text(f2).len());
    assert(f1 == f2);
}

/// Equal color tails with three-color lists carry equal lists and equal
/// fill flags.
#[verifier::rlimit(60)]
proof fn lemma_color_tail_list3(k1: Seq<u32>, f1: bool, k2: Seq<u32>, f2: bool)
    requires
        k1.len() == 3,
        k2.len() == 3,
        color_tail(color3_text(k1), f1) == color_tail(color3_text(k2), f2),
    ensures
        k1 == k2,
        f1 == f2,
{
    reveal_strlit("[");
    reveal_strlit(",");
    reveal_strlit("]");
    reveal_strlit(",\"fill\":");
    reveal_strlit("}");
    reveal_strlit("true");
    reveal_strlit("false");
    let u = color_tail(color3_text(k1), f1);
    let u2 = color_tail(color3_text(k2), f2);
    crate::text::lemma_dec_nat_digits(k1[0] as nat);
    crate::text::lemma_dec_nat_digits(k1[1] as nat);
    crate::text::lemma_dec_nat_digits(k1[2] as nat);
    crate::text::lemma_dec_nat_digits(k2[0] as nat);
    crate::text::lemma_dec_nat_digits(k2[1] as nat);
    crate::text::lemma_dec_nat_digits(k2[2] as nat);
    let e10 = dec_nat(k1[0] as nat);
    let e11 = dec_nat(k1[1] as nat);
    let e12 = dec_nat(k1[2] as nat);
    let e20 = dec_nat(k2[0] as nat);
    let e21 = dec_nat(k2[1] as nat);
    let e22 = dec_nat(k2[2] as nat);
    // first gradient color, bounded by a comma
    assert forall|i: int| 0 <= i < e10.len() implies u[1 + i] == #[trigger] e10[i] && e10[i]
        != ',' by {}
    assert forall|i: int| 0 <= i < e20.len() implies u[1 + i] == #[trigger] e20[i] && e20[i]
        != ',' by {
        assert(u2[1 + i] == e20[i]);
    }
    assert(u[1 + e10.len() as int] == ',');
    assert(u2[1 + e20.len() as int] == ',');
    lemma_segment_unique(u, 1int, e10, e20, ',');
    crate::text::lemma_dec_nat_injective(k1[0] as nat, k2[0] as nat);
    // second gradient color
    let q2: int = 2 + e10.len() as int;
    assert forall|i: int| 0 <= i < e11.len() implies u[q2 + i] == #[trigger] e11[i] && e11[i]
        != ',' by {}
    assert forall|i: int| 0 <= i < e21.len() implies u[q2 + i] == #[trigger] e21[i] && e21[i]
        != ',' by {
        assert(u2[q2 + i] == e21[i]);
    }
    assert(u[q2 + e11.len() as int] == ',');
    assert(u2[q2 + e21.len() as int] == ',');
    lemma_segment_unique(u, q2, e11, e21, ',');
    crate::text::lemma_dec_nat_injective(k1[1] as nat, k2[1] as nat);
    // third gradient color, bounded by the closing bracket
    let q3: int = q2 + e11.len() as int + 1;
    assert forall|i: int| 0 <= i < e12.len() implies u[q3 + i] == #[trigger] e12[i] && e12[i]
        != ']' by {}
    assert forall|i: int| 0 <= i < e22.len() implies u[q3 + i] == #[trigger] e22[i] && e22[i]
        != ']' by {
        assert(u2[q3 + i] == e22[i]);
    }
    assert(u[q3 + e12.len() as int] == ']');
    assert(u2[q3 + e22.len() as int] == ']');
    lemma_segment_unique(u, q3, e12, e22, ']');
    crate::text::lemma_dec_nat_injective(k1[2] as nat, k2[2] as nat);
    assert(k1 =~= k2);
    // the fill flag, by total length
    assert(u.len() == color3_text(k1).len() + ",\"fill\":"@.len() + bool_text(f1).len() + 1);
    assert(u2.len() == color3_text(k2).len() + ",\"fill\":"@.len() + bool_text(f2).len() + 1);
    assert(color3_text(k1).len() == color3_text(k2).len());
    assert(bool_text(f1).len() == bool_text(f2).len());
    assert(f1 == f2);
}

/// A color tail with a plain numeral never equals one whose color field
/// opens with a bracket.
proof fn lemma_color_tail_plain_vs_list(c1: u32, f1: bool, t2: Seq<char>, f2: bool)
    requires
        t2.len() > 0,
        t2[0] == '[',
    ensures
        color_tail(dec_nat(c1 as nat), f1) != color_tail(t2, f2),
{
    if color_tail(dec_nat(c1 as nat), f1) == color_tail(t2, f2) {
        crate::text::lemma_dec_nat_digits(c1 as nat);
        crate::text::lemma_dec_nat_len(c1 as nat);
        let u = color_tail(dec_nat(c1 as nat), f1);
        assert(u[0] == dec_nat(c1 as nat)[0]);
        assert(color_tail(t2, f2)[0] == '[');
        assert(false);
    }
}

/// Two equal rectangle frames agree on their corner tokens, and on the
/// text that follows them.
#[verifier::rlimit(60)]
proof fn lemma_rectangle_align(
    tlx1: Seq<char>,
    tly1: Seq<char>,
    brx1: Seq<char>,
    bry1: Seq<char>,
    ct1: Seq<char>,
    f1: bool,
    tlx2: Seq<char>,
    tly2: Seq<char>,
    brx2: Seq<char>,
    bry2: Seq<char>,
    ct2: Seq<char>,
    f2: bool,
)
    requires
        crate::num::is_number_token(tlx1),
        crate::num::is_number_token(tly1),
        crate::num::is_number_token(brx1),
        crate::num::is_number_token(bry1),
        crate::num::is_number_token(tlx2),
        crate::num::is_number_token(tly2),
        crate::num::is_number_token(brx2),
        crate::num::is_number_token(bry2),
        rectangle_text(tlx1, tly1, brx1, bry1, ct1, f1) == rectangle_text(
            tlx2,
            tly2,
            brx2,
            bry2,
            ct2,
            f2,
        ),
    ensures
        tlx1 == tlx2,
        tly1 == tly2,
        brx1 == brx2,
        bry1 == bry2,
        color_tail(ct1, f1) == color_tail(ct2, f2),
{
    reveal_strlit("{\"type\":\"rectangle\",\"tl\":[");
    reveal_strlit(",");
    reveal_strlit("],\"br\":[");
    reveal_strlit("],\"color\":");
    reveal_strlit(",\"fill\":");
    reveal_strlit("}");
    let head = "{\"type\":\"rectangle\",\"tl\":["@;
    let brb = "],\"br\":["@;
    let brc = "],\"color\":"@;
    let s = rectangle_text(tlx1, tly1, brx1, bry1, ct1, f1);
    let s2 = rectangle_text(tlx2, tly2, brx2, bry2, ct2, f2);
    crate::num::lemma_token_chars(tlx1);
    crate::num::lemma_token_chars(tly1);
    crate::num::lemma_token_chars(brx1);
    crate::num::lemma_token_chars(bry1);
    crate::num::lemma_token_chars(tlx2);
    crate::num::lemma_token_chars(tly2);
    crate::num::lemma_token_chars(brx2);
    crate::num::lemma_token_chars(bry2);
    assert(!crate::num::token_char(','));
    assert(!crate::num::token_char(']'));
    let p1 = head.len() as int;
    assert forall|i: int| 0 <= i < tlx1.len() implies s[p1 + i] == #[trigger] tlx1[i] && tlx1[i]
        != ',' by {}
    assert forall|i: int| 0 <= i < tlx2.len() implies s[p1 + i] == #[trigger] tlx2[i] && tlx2[i]
        != ',' by {
        assert(s2[p1 + i] == tlx2[i]);
    }
    assert(s[p1 + tlx1.len() as int] == ',');
    assert(s2[p1 + tlx2.len() as int] == ',');
    lemma_segment_unique(s, p1, tlx1, tlx2, ',');
    let p2: int = p1 + tlx1.len() as int + 1;
    assert forall|i: int| 0 <= i < tly1.len() implies s[p2 + i] == #[trigger] tly1[i] && tly1[i]
        != ']' by {}
    assert forall|i: int| 0 <= i < tly2.len() implies s[p2 + i] == #[trigger] tly2[i] && tly2[i]
        != ']' by {
        assert(s2[p2 + i] == tly2[i]);
    }
    assert(s[p2 + tly1.len() as int] == ']');
    assert(s2[p2 + tly2.len() as int] == ']');
    lemma_segment_unique(s, p2, tly1, tly2, ']');
    let p3: int = p2 + tly1.len() as int + brb.len() as int;
    assert forall|i: int| 0 <= i < brx1.len() implies s[p3 + i] == #[trigger] brx1[i] && brx1[i]
        != ',' by {}
    assert forall|i: int| 0 <= i < brx2.len() implies s[p3 + i] == #[trigger] brx2[i] && brx2[i]
        != ',' by {
        assert(s2[p3 + i] == brx2[i]);
    }
    assert(s[p3 + brx1.len() as int] == ',');
    assert(s2[p3 + brx2.len() as int] == ',');
    lemma_segment_unique(s, p3, brx1, brx2, ',');
    let p4: int = p3 + brx1.len() as int + 1;
    assert forall|i: int| 0 <= i < bry1.len() implies s[p4 + i] == #[trigger] bry1[i] && bry1[i]
        != ']' by {}
    assert forall|i: int| 0 <= i < bry2.len() implies s[p4 + i] == #[trigger] bry2[i] && bry2[i]
        != ']' by {
        assert(s2[p4 + i] == bry2[i]);
    }
    assert(s[p4 + bry1.len() as int] == ']');
    assert(s2[p4 + bry2.len() as int] == ']');
    lemma_segment_unique(s, p4, bry1, bry2, ']');
    let p5: int = p4 + bry1.len() as int + brc.len() as int;
    assert(s.len() == p5 + ct1.len() + ",\"fill\":"@.len() + bool_text(f1).len() + 1);
    assert(color_tail(ct1, f1) =~= s.subrange(p5, s.len() as int));
    assert(color_tail(ct2, f2) =~= s2.subrange(p5, s2.len() as int));
}

/// Two equal triangle frames agree on their vertex tokens, and on the
/// text that follows them.
#[verifier::rlimit(90)]
proof fn lemma_triangle_align(
    ax1: Seq<char>,
    ay1: Seq<char>,
    bx1: Seq<char>,
    by1: Seq<char>,
    cx1: Seq<char>,
    cy1: Seq<char>,
    ct1: Seq<char>,
    f1: bool,
    ax2: Seq<char>,
    ay2: Seq<char>,
    bx2: Seq<char>,
    by2: Seq<char>,
    cx2: Seq<char>,
    cy2: Seq<char>,
    ct2: Seq<char>,
    f2: bool,
)
    requires
        crate::num::is_number_token(ax1),
        crate::num::is_number_token(ay1),
        crate::num::is_number_token(bx1),
        crate::num::is_number_token(by1),
        crate::num::is_number_token(cx1),
        crate::num::is_number_token(cy1),
        crate::num::is_number_token(ax2),
        crate::num::is_number_token(ay2),
        crate::num::is_number_token(bx2),
        crate::num::is_number_token(by2),
        crate::num::is_number_token(cx2),
        crate::num::is_number_token(cy2),
        triangle_text(ax1, ay1, bx1, by1, cx1, cy1, ct1, f1) == triangle_text(
            ax2,
            ay2,
            bx2,
            by2,
            cx2,
            cy2,
            ct2,
            f2,
        ),
    ensures
        ax1 == ax2,
        ay1 == ay2,
        bx1 == bx2,
        by1 == by2,
        cx1 == cx2,
        cy1 == cy2,
        color_tail(ct1, f1) == color_tail(ct2, f2),
{
    reveal_strlit("{\"type\":\"triangle\",\"points\":[");
    reveal_strlit(",");
    reveal_strlit("],\"color\":");
    reveal_strlit(",\"fill\":");
    reveal_strlit("}");
    let head = "{\"type\":\"triangle\",\"points\":["@;
    let brc = "],\"color\":"@;
    let s = triangle_text(ax1, ay1, bx1, by1, cx1, cy1, ct1, f1);
    let s2 = triangle_text(ax2, ay2, bx2, by2, cx2, cy2, ct2, f2);
    crate::num::lemma_token_chars(ax1);
    crate::num::lemma_token_chars(ay1);
    crate::num::lemma_token_chars(bx1);
    crate::num::lemma_token_chars(by1);
    crate::num::lemma_token_chars(cx1);
    crate::num::lemma_token_chars(cy1);
    crate::num::lemma_token_chars(ax2);
    crate::num::lemma_token_chars(ay2);
    crate::num::lemma_token_chars(bx2);
    crate::num::lemma_token_chars(by2);
    crate::num::lemma_token_chars(cx2);
    crate::num::lemma_token_chars(cy2);
    assert(!crate::num::token_char(','));
    assert(!crate::num::token_char(']'));
    let p1 = head.len() as int;
    assert forall|i: int| 0 <= i < ax1.len() implies s[p1 + i] == #[trigger] ax1[i] && ax1[i]
        != ',' by {}
    assert forall|i: int| 0 <= i < ax2.len() implies s[p1 + i] == #[trigger] ax2[i] && ax2[i]
        != ',' by {
        assert(s2[p1 + i] == ax2[i]);
    }
    assert(s[p1 + ax1.len() as int] == ',');
    assert(s2[p1 + ax2.len() as int] == ',');
    lemma_segment_unique(s, p1, ax1, ax2, ',');
    let p2: int = p1 + ax1.len() as int + 1;
    assert forall|i: int| 0 <= i < ay1.len() implies s[p2 + i] == #[trigger] ay1[i] && ay1[i]
        != ',' by {}
    assert forall|i: int| 0 <= i < ay2.len() implies s[p2 + i] == #[trigger] ay2[i] && ay2[i]
        != ',' by {
        assert(s2[p2 + i] == ay2[i]);
    }
    assert(s[p2 + ay1.len() as int] == ',');
    assert(s2[p2 + ay2.len() as int] == ',');
    lemma_segment_unique(s, p2, ay1, ay2, ',');
    let p3: int = p2 + ay1.len() as int + 1;
    assert forall|i: int| 0 <= i < bx1.len() implies s[p3 + i] == #[trigger] bx1[i] && bx1[i]
        != ',' by {}
    assert forall|i: int| 0 <= i < bx2.len() implies s[p3 + i] == #[trigger] bx2[i] && bx2[i]
        != ',' by {
        assert(s2[p3 + i] == bx2[i]);
    }
    assert(s[p3 + bx1.len() as int] == ',');
    assert(s2[p3 + bx2.len() as int] == ',');
    lemma_segment_unique(s, p3, bx1, bx2, ',');
    let p4: int = p3 + bx1.len() as int + 1;
    assert forall|i: int| 0 <= i < by1.len() implies s[p4 + i] == #[trigger] by1[i] && by1[i]
        != ',' by {}
    assert forall|i: int| 0 <= i < by2.len() implies s[p4 + i] == #[trigger] by2[i] && by2[i]
        != ',' by {
        assert(s2[p4 + i] == by2[i]);
    }
    assert(s[p4 + by1.len() as int] == ',');
    assert(s2[p4 + by2.len() as int] == ',');
    lemma_segment_unique(s, p4, by1, by2, ',');
    let p5: int = p4 + by1.len() as int + 1;
    assert forall|i: int| 0 <= i < cx1.len() implies s[p5 + i] == #[trigger] cx1[i] && cx1[i]
        != ',' by {}
    assert forall|i: int| 0 <= i < cx2.len() implies s[p5 + i] == #[trigger] cx2[i] && cx2[i]
        != ',' by {
        assert(s2[p5 + i] == cx2[i]);
    }
    assert(s[p5 + cx1.len() as int] == ',');
    assert(s2[p5 + cx2.len() as int] == ',');
    lemma_segment_unique(s, p5, cx1, cx2, ',');
    let p6: int = p5 + cx1.len() as int + 1;
    assert forall|i: int| 0 <= i < cy1.len() implies s[p6 + i] == #[trigger] cy1[i] && cy1[i]
        != ']' by {}
    assert forall|i: int| 0 <= i < cy2.len() implies s[p6 + i] == #[trigger] cy2[i] && cy2[i]
        != ']' by {
        assert(s2[p6 + i] == cy2[i]);
    }
    assert(s[p6 + cy1.len() as int] == ']');
    assert(s2[p6 + cy2.len() as int] == ']');
    lemma_segment_unique(s, p6, cy1, cy2, ']');
    let p7: int = p6 + cy1.len() as int + brc.len() as int;
    assert(s.len() == p7 + ct1.len() + ",\"fill\":"@.len() + bool_text(f1).len() + 1);
    assert(color_tail(ct1, f1) =~= s.subrange(p7, s.len() as int));
    assert(color_tail(ct2, f2) =~= s2.subrange(p7, s2.len() as int));
}

/// Law (round-trip fidelity for plain rectangles): the encoded frame
/// determines the corner tokens, the color and the fill flag.
pub proof fn lemma_rectangle_roundtrip(
    tlx1: Seq<char>,
    tly1: Seq<char>,
    brx1: Seq<char>,
    bry1: Seq<char>,
    c1: u32,
    f1: bool,
    tlx2: Seq<char>,
    tly2: Seq<char>,
    brx2: Seq<char>,
    bry2: Seq<char>,
    c2: u32,
    f2: bool,
)
    requires
        crate::num::is_number_token(tlx1),
        crate::num::is_number_token(tly1),
        crate::num::is_number_token(brx1),
        crate::num::is_number_token(bry1),
        crate::num::is_number_token(tlx2),
        crate::num::is_number_token(tly2),
        crate::num::is_number_token(brx2),
        crate::num::is_number_token(bry2),
        rectangle_text(tlx1, tly1, brx1, bry1, dec_nat(c1 as nat), f1) == rectangle_text(
            tlx2,
            tly2,
            brx2,
            bry2,
            dec_nat(c2 as nat),
            f2,
        ),
    ensures
        tlx1 == tlx2,
        tly1 == tly2,
        brx1 == brx2,
        bry1 == bry2,
        c1 == c2,
        f1 == f2,
{
    lemma_rectangle_align(
        tlx1,
        tly1,
        brx1,
        bry1,
        dec_nat(c1 as nat),
        f1,
        tlx2,
        tly2,
        brx2,
        bry2,
        dec_nat(c2 as nat),
        f2,
    );
    lemma_color_tail_plain(c1, f1, c2, f2);
}

/// Law (round-trip fidelity for gradient rectangles): the encoded frame
/// determines the corner tokens, all four colors and the fill flag.
pub proof fn lemma_rectangle_with_colors_roundtrip(
    tlx1: Seq<char>,
    tly1: Seq<char>,
    brx1: Seq<char>,
    bry1: Seq<char>,
    k1: Seq<u32>,
    f1: bool,
    tlx2: Seq<char>,
    tly2: Seq<char>,
    brx2: Seq<char>,
    bry2: Seq<char>,
    k2: Seq<u32>,
    f2: bool,
)
    requires
        crate::num::is_number_token(tlx1),
        crate::num::is_number_token(tly1),
        crate::num::is_number_token(brx1),
        crate::num::is_number_token(bry1),
        crate::num::is_number_token(tlx2),
        crate::num::is_number_token(tly2),
        crate::num::is_number_token(brx2),
        crate::num::is_number_token(bry2),
        k1.len() == 4,
        k2.len() == 4,
        rectangle_text(tlx1, tly1, brx1, bry1, color4_text(k1), f1) == rectangle_text(
            tlx2,
            tly2,
            brx2,
            bry2,
            color4_text(k2),
            f2,
        ),
    ensures
        tlx1 == tlx2,
        tly1 == tly2,
        brx1 == brx2,
        bry1 == bry2,
        k1 == k2,
        f1 == f2,
{
    lemma_rectangle_align(
        tlx1,
        tly1,
        brx1,
        bry1,
        color4_text(k1),
        f1,
        tlx2,
        tly2,
        brx2,
        bry2,
        color4_text(k2),
        f2,
    );
    lemma_color_tail_list4(k1, f1, k2, f2);
}

/// Law (shape disambiguation): a plain rectangle frame never coincides
/// with a gradient one — the color field's opening character tells a
/// single numeral from a list.
pub proof fn lemma_rectangle_forms_distinct(
    tlx1: Seq<char>,
    tly1: Seq<char>,
    brx1: Seq<char>,
    bry1: Seq<char>,
    c1: u32,
    f1: bool,
    tlx2: Seq<char>,
    tly2: Seq<char>,
    brx2: Seq<char>,
    bry2: Seq<char>,
    k2: Seq<u32>,
    f2: bool,
)
    requires
        crate::num::is_number_token(tlx1),
        crate::num::is_number_token(tly1),
        crate::num::is_number_token(brx1),
        crate::num::is_number_token(bry1),
        crate::num::is_number_token(tlx2),
        crate::num::is_number_token(tly2),
        crate::num::is_number_token(brx2),
        crate::num::is_number_token(bry2),
    ensures
        rectangle_text(tlx1, tly1, brx1, bry1, dec_nat(c1 as nat), f1) != rectangle_text(
            tlx2,
            tly2,
            brx2,
            bry2,
            color4_text(k2),
            f2,
        ),
{
    if rectangle_text(tlx1, tly1, brx1, bry1, dec_nat(c1 as nat), f1) == rectangle_text(
        tlx2,
        tly2,
        brx2,
        bry2,
        color4_text(k2),
        f2,
    ) {
        lemma_rectangle_align(
            tlx1,
            tly1,
            brx1,
            bry1,
            dec_nat(c1 as nat),
            f1,
            tlx2,
            tly2,
            brx2,
            bry2,
            color4_text(k2),
            f2,
        );
        reveal_strlit("[");
        lemma_color_tail_plain_vs_list(c1, f1, color4_text(k2), f2);
        assert(false);
    }
}

/// Law (round-trip fidelity for plain triangles): the encoded frame
/// determines the vertex tokens, the color and the fill flag.
pub proof fn lemma_triangle_roundtrip(
    ax1: Seq<char>,
    ay1: Seq<char>,
    bx1: Seq<char>,
    by1: Seq<char>,
    cx1: Seq<char>,
    cy1: Seq<char>,
    c1: u32,
    f1: bool,
    ax2: Seq<char>,
    ay2: Seq<char>,
    bx2: Seq<char>,
    by2: Seq<char>,
    cx2: Seq<char>,
    cy2: Seq<char>,
    c2: u32,
    f2: bool,
)
    requires
        crate::num::is_number_token(ax1),
        crate::num::is_number_token(ay1),
        crate::num::is_number_token(bx1),
        crate::num::is_number_token(by1),
        crate::num::is_number_token(cx1),
        crate::num::is_number_token(cy1),
        crate::num::is_number_token(ax2),
        crate::num::is_number_token(ay2),
        crate::num::is_number_token(bx2),
        crate::num::is_number_token(by2),
        crate::num::is_number_token(cx2),
        crate::num::is_number_token(cy2),
        triangle_text(ax1, ay1, bx1, by1, cx1, cy1, dec_nat(c1 as nat), f1) == triangle_text(
            ax2,
            ay2,
            bx2,
            by2,
            cx2,
            cy2,
            dec_nat(c2 as nat),
            f2,
        ),
    ensures
        ax1 == ax2,
        ay1 == ay2,
        bx1 == bx2,
        by1 == by2,
        cx1 == cx2,
        cy1 == cy2,
        c1 == c2,
        f1 == f2,
{
    lemma_triangle_align(
        ax1,
        ay1,
        bx1,
        by1,
        cx1,
        cy1,
        dec_nat(c1 as nat),
        f1,
        ax2,
        ay2,
        bx2,
        by2,
        cx2,
        cy2,
        dec_nat(c2 as nat),
        f2,
    );
    lemma_color_tail_plain(c1, f1, c2, f2);
}

/// Law (round-trip fidelity for gradient triangles): the encoded frame
/// determines the vertex tokens, all three colors and the fill flag.
pub proof fn lemma_triangle_with_colors_roundtrip(
    ax1: Seq<char>,
    ay1: Seq<char>,
    bx1: Seq<char>,
    by1: Seq<char>,
    cx1: Seq<char>,
    cy1: Seq<char>,
    k1: Seq<u32>,
    f1: bool,
    ax2: Seq<char>,
    ay2: Seq<char>,
    bx2: Seq<char>,
    by2: Seq<char>,
    cx2: Seq<char>,
    cy2: Seq<char>,
    k2: Seq<u32>,
    f2: bool,
)
    requires
        crate::num::is_number_token(ax1),
        crate::num::is_number_token(ay1),
        crate::num::is_number_token(bx1),
        crate::num::is_number_token(by1),
        crate::num::is_number_token(cx1),
        crate::num::is_number_token(cy1),
        crate::num::is_number_token(ax2),
        crate::num::is_number_token(ay2),
        crate::num::is_number_token(bx2),
        crate::num::is_number_token(by2),
        crate::num::is_number_token(cx2),
        crate::num::is_number_token(cy2),
        k1.len() == 3,
        k2.len() == 3,
        triangle_text(ax1, ay1, bx1, by1, cx1, cy1, color3_text(k1), f1) == triangle_text(
            ax2,
            ay2,
            bx2,
            by2,
            cx2,
            cy2,
            color3_text(k2),
            f2,
        ),
    ensures
        ax1 == ax2,
        ay1 == ay2,
        bx1 == bx2,
        by1 == by2,
        cx1 == cx2,
        cy1 == cy2,
        k1 == k2,
        f1 == f2,
{
    lemma_triangle_align(
        ax1,
        ay1,
        bx1,
        by1,
        cx1,
        cy1,
        color3_text(k1),
        f1,
        ax2,
        ay2,
        bx2,
        by2,
        cx2,
        cy2,
        color3_text(k2),
        f2,
    );
    lemma_color_tail_list3(k1, f1, k2, f2);
}

/// Law (shape disambiguation): a plain triangle frame never coincides
/// with a gradient one.
pub proof fn lemma_triangle_forms_distinct(
    ax1: Seq<char>,
    ay1: Seq<char>,
    bx1: Seq<char>,
    by1: Seq<char>,
    cx1: Seq<char>,
    cy1: Seq<char>,
    c1: u32,
    f1: bool,
    ax2: Seq<char>,
    ay2: Seq<char>,
    bx2: Seq<char>,
    by2: Seq<char>,
    cx2: Seq<char>,
    cy2: Seq<char>,
    k2: Seq<u32>,
    f2: bool,
)
    requires
        crate::num::is_number_token(ax1),
        crate::num::is_number_token(ay1),
        crate::num::is_number_token(bx1),
        crate::num::is_number_token(by1),
        crate::num::is_number_token(cx1),
        crate::num::is_number_token(cy1),
        crate::num::is_number_token(ax2),
        crate::num::is_number_token(ay2),
        crate::num::is_number_token(bx2),
        crate::num::is_number_token(by2),
        crate::num::is_number_token(cx2),
        crate::num::is_number_token(cy2),
    ensures
        triangle_text(ax1, ay1, bx1, by1, cx1, cy1, dec_nat(c1 as nat), f1) != triangle_text(
            ax2,
            ay2,
            bx2,
            by2,
            cx2,
            cy2,
            color3_text(k2),
            f2,
        ),
{
    if triangle_text(ax1, ay1, bx1, by1, cx1, cy1, dec_nat(c1 as nat), f1) == triangle_text(
        ax2,
        ay2,
        bx2,
        by2,
        cx2,
        cy2,
        color3_text(k2),
        f2,
    ) {
        lemma_triangle_align(
            ax1,
            ay1,
            bx1,
            by1,
            cx1,
            cy1,
            dec_nat(c1 as nat),
            f1,
            ax2,
            ay2,
            bx2,
            by2,
            cx2,
            cy2,
            color3_text(k2),
            f2,
        );
        reveal_strlit("[");
        lemma_color_tail_plain_vs_list(c1, f1, color3_text(k2), f2);
        assert(false);
    }
}

/// Comma-joined well-formed tokens split uniquely: two decompositions of
/// one string into a joined list and a tail that opens with a bracket
/// agree on the list and on the tail.
proof fn lemma_join_unique(l1: Seq<Seq<char>>, l2: Seq<Seq<char>>, t1: Seq<char>, t2: Seq<char>)
    requires
        forall|j: int| 0 <= j < l1.len() ==> crate::num::is_number_token(#[trigger] l1[j]),
        forall|j: int| 0 <= j < l2.len() ==> crate::num::is_number_token(#[trigger] l2[j]),
        t1.len() > 0,
        t2.len() > 0,
        t1[0] == ']',
        t2[0] == ']',
        join_comma(l1) + t1 == join_comma(l2) + t2,
    ensures
        l1 == l2,
        t1 == t2,
    decreases l1.len(),
{
    reveal_strlit(",");
    assert(!crate::num::token_char(','));
    assert(!crate::num::token_char(']'));
    let s = join_comma(l1) + t1;
    if l1.len() == 0 && l2.len() == 0 {
        assert(t1 =~= t2);
    } else if l1.len() == 0 {
        crate::num::lemma_token_chars(l2[0]);
        assert(s[0] == t1[0]);
        assert((join_comma(l2) + t2)[0] == l2[0][0]);
        assert(false);
    } else if l2.len() == 0 {
        crate::num::lemma_token_chars(l1[0]);
        assert(s[0] == l1[0][0]);
        assert((join_comma(l2) + t2)[0] == t2[0]);
        assert(false);
    } else {
        let a1 = l1[0];
        let a2 = l2[0];
        crate::num::lemma_token_chars(a1);
        crate::num::lemma_token_chars(a2);
        // each head token ends at the first character that no token holds
        assert forall|i: int| 0 <= i < a1.len() implies s[i] == #[trigger] a1[i]
            && crate::num::token_char(a1[i]) by {}
        assert forall|i: int| 0 <= i < a2.len() implies s[i] == #[trigger] a2[i]
            && crate::num::token_char(a2[i]) by {
            assert((join_comma(l2) + t2)[i] == a2[i]);
        }
        assert(!crate::num::token_char(s[a1.len() as int])) by {
            if l1.len() == 1 {
                assert(s[a1.len() as int] == t1[0]);
            } else {
                assert(s[a1.len() as int] == ',');
            }
        }
        assert(!crate::num::token_char(s[a2.len() as int])) by {
            if l2.len() == 1 {
                assert((join_comma(l2) + t2)[a2.len() as int] == t2[0]);
            } else {
                assert((join_comma(l2) + t2)[a2.len() as int] == ',');
            }
        }
        if a1.len() < a2.len() {
            assert(s[a1.len() as int] == a2[a1.len() as int]);
            assert(false);
        }
        if a2.len() < a1.len() {
            assert(s[a2.len() as int] == a1[a2.len() as int]);
            assert(false);
        }
        assert(a1 =~= a2);
        if l1.len() == 1 && l2.len() == 1 {
            assert(join_comma(l1) == a1);
            assert(join_comma(l2) == a2);
            assert(s.len() == a1.len() + t1.len());
            assert((join_comma(l2) + t2).len() == a2.len() + t2.len());
            assert(t1.len() == t2.len());
            assert forall|i: int| 0 <= i < t1.len() implies t1[i] == #[trigger] t2[i] by {
                assert(s[a1.len() + i] == t1[i]);
                assert((join_comma(l2) + t2)[a2.len() + i] == t2[i]);
            }
            assert(t1 =~= t2);
        } else if l1.len() == 1 {
            assert(s[a1.len() as int] == t1[0]);
            assert((join_comma(l2) + t2)[a2.len() as int] == ',');
            assert(false);
        } else if l2.len() == 1 {
            assert(s[a1.len() as int] == ',');
            assert((join_comma(l2) + t2)[a2.len() as int] == t2[0]);
            assert(false);
        } else {
            // drop the shared head token and its comma, and recurse
            let rest = s.subrange(a1.len() as int + 1, s.len() as int);
            assert(rest =~= join_comma(l1.drop_first()) + t1);
            assert(rest =~= join_comma(l2.drop_first()) + t2);
            assert(forall|j: int|
                0 <= j < l1.drop_first().len() ==> crate::num::is_number_token(
                    #[trigger] l1.drop_first()[j],
                ));
            assert(forall|j: int|
                0 <= j < l2.drop_first().len() ==> crate::num::is_number_token(
                    #[trigger] l2.drop_first()[j],
                ));
            lemma_join_unique(l1.drop_first(), l2.drop_first(), t1, t2);
            assert forall|j: int| 0 <= j < l1.len() implies l1[j] == #[trigger] l2[j] by {
                if j > 0 {
                    assert(l1[j] == l1.drop_first()[j - 1]);
                    assert(l2[j] == l2.drop_first()[j - 1]);
                }
            }
            assert(l1 =~= l2);
        }
    }
}

/// Law (round-trip fidelity for polylines, and so for line segments): the
/// encoded frame determines the point tokens and the color.
pub proof fn lemma_polyline_roundtrip(
    pts1: Seq<Seq<char>>,
    c1: u32,
    pts2: Seq<Seq<char>>,
    c2: u32,
)
    requires
        forall|j: int| 0 <= j < pts1.len() ==> crate::num::is_number_token(#[trigger] pts1[j]),
        forall|j: int| 0 <= j < pts2.len() ==> crate::num::is_number_token(#[trigger] pts2[j]),
        polyline_text(pts1, c1) == polyline_text(pts2, c2),
    ensures
        pts1 == pts2,
        c1 == c2,
{
    reveal_strlit("{\"type\":\"polyline\",\"points\":[");
    reveal_strlit("],\"color\":");
    reveal_strlit("}");
    let head = "{\"type\":\"polyline\",\"points\":["@;
    let brc = "],\"color\":"@;
    let s = polyline_text(pts1, c1);
    let s2 = polyline_text(pts2, c2);
    let t1 = brc + dec_nat(c1 as nat) + "}"@;
    let t2 = brc + dec_nat(c2 as nat) + "}"@;
    assert(t1[0] == ']');
    assert(t2[0] == ']');
    assert(join_comma(pts1) + t1 =~= s.subrange(head.len() as int, s.len() as int));
    assert(join_comma(pts2) + t2 =~= s2.subrange(head.len() as int, s2.len() as int));
    assert(s.len() == head.len() + join_comma(pts1).len() + t1.len());
    lemma_join_unique(pts1, pts2, t1, t2);
    assert forall|i: int| 0 <= i < dec_nat(c1 as nat).len() implies dec_nat(c1 as nat)[i]
        == dec_nat(c2 as nat)[i] by {
        assert(t1[brc.len() + i] == dec_nat(c1 as nat)[i]);
        assert(t2[brc.len() + i] == dec_nat(c2 as nat)[i]);
    }
    assert(dec_nat(c1 as nat).len() == dec_nat(c2 as nat).len());
    assert(dec_nat(c1 as nat) =~= dec_nat(c2 as nat));
    crate::text::lemma_dec_nat_injective(c1 as nat, c2 as nat);
}

/// Law (round-trip fidelity, shown for the variant whose fields the
/// library holds in full): the encoded options frame determines the layer
/// and the permanent flag that built it.
pub proof fn lemma_options_roundtrip(l1: int, p1: bool, l2: int, p2: bool)
    requires
        options_text(l1, p1) == options_text(l2, p2),
    ensures
        l1 == l2,
        p1 == p2,
{
    reveal_strlit("{\"type\":\"options\",\"layer\":");
    reveal_strlit(",\"permanent\":");
    reveal_strlit("}");
    reveal_strlit("true");
    reveal_strlit("false");
    let head = "{\"type\":\"options\",\"layer\":"@;
    let sep = ",\"permanent\":"@;
    let d1 = dec_int(l1);
    let d2 = dec_int(l2);
    let s = options_text(l1, p1);
    crate::text::lemma_dec_int_chars(l1);
    crate::text::lemma_dec_int_chars(l2);
    // the numerals end at the first comma past the head, so they have the
    // same length
    if d1.len() < d2.len() {
        let q = head.len() + d1.len();
        assert(s[q as int] == sep[0]);
        assert(s[q as int] == d2[d1.len() as int]);
        assert(false);
    }
    if d2.len() < d1.len() {
        let q = head.len() + d2.len();
        assert(s[q as int] == d1[d2.len() as int]);
        assert(options_text(l2, p2)[q as int] == sep[0]);
        assert(false);
    }
    assert forall|i: int| 0 <= i < d1.len() implies d1[i] == d2[i] by {
        assert(s[head.len() + i] == d1[i]);
        assert(options_text(l2, p2)[head.len() + i] == d2[i]);
    }
    assert(d1 =~= d2);
    crate::text::lemma_dec_int_injective(l1, l2);
    // the two boolean literals differ in length, so equal frames carry
    // equal flags
    assert(s.len() == head.len() + d1.len() + sep.len() + bool_text(p1).len() + 1);
    assert(options_text(l2, p2).len() == head.len() + d2.len() + sep.len() + bool_text(p2).len()
        + 1);
    assert(bool_text(p1).len() == bool_text(p2).len());
    assert(p1 == p2);
}

/// Law: a line segment and the polyline of the same four coordinates have
/// byte-identical encodings.
pub proof fn lemma_line_is_polyline(
    points: Seq<Seq<char>>,
    x1: Seq<char>,
    y1: Seq<char>,
    x2: Seq<char>,
    y2: Seq<char>,
    color: u32,
)
    requires
        points == seq![x1, y1, x2, y2],
    ensures
        line_text(x1, y1, x2, y2, color) == polyline_text(points, color),
{
}

} // verus!

