use rewind_client::codec::encode;
use rewind_client::num::Num;
use rewind_client::request::Request;

fn num(s: &str) -> Num {
    Num::new(s.to_string()).expect("well-formed token")
}

#[test]
fn end_frame_exact() {
    let out = encode(&Request::end());
    assert_eq!(out, "{\"type\":\"end\"}");
}

#[test]
fn circle_exact() {
    let req = Request::circle(num("1.0"), num("2.0"), num("3.0"), 0xAABBCC, true);
    let out = encode(&req);
    assert_eq!(
        out,
        "{\"type\":\"circle\",\"p\":[1.0,2.0],\"r\":3.0,\"color\":11189196,\"fill\":true}"
    );
}

#[test]
fn rectangle_with_colors_exact() {
    let req = Request::rectangle_with_colors(
        num("0"),
        num("0"),
        num("10"),
        num("10"),
        [0xff0000, 0x00ff00, 0x0000ff, 0xffffff],
        false,
    );
    let out = encode(&req);
    assert_eq!(
        out,
        "{\"type\":\"rectangle\",\"tl\":[0,0],\"br\":[10,10],\"color\":[16711680,65280,255,16777215],\"fill\":false}"
    );
}

#[test]
fn rectangle_exact() {
    let req = Request::rectangle(num("-1.5"), num("0"), num("4.25"), num("8"), 0x770000, true);
    let out = encode(&req);
    assert_eq!(
        out,
        "{\"type\":\"rectangle\",\"tl\":[-1.5,0],\"br\":[4.25,8],\"color\":7798784,\"fill\":true}"
    );
}

#[test]
fn triangle_exact() {
    let req = Request::triangle(
        num("0"),
        num("0"),
        num("1"),
        num("0"),
        num("0"),
        num("1"),
        0x0000ff,
        false,
    );
    let out = encode(&req);
    assert_eq!(
        out,
        "{\"type\":\"triangle\",\"points\":[0,0,1,0,0,1],\"color\":255,\"fill\":false}"
    );
}

#[test]
fn triangle_with_colors_exact() {
    let req = Request::triangle_with_colors(
        num("0"),
        num("0"),
        num("1"),
        num("0"),
        num("0"),
        num("1"),
        [1, 2, 3],
        true,
    );
    let out = encode(&req);
    assert_eq!(
        out,
        "{\"type\":\"triangle\",\"points\":[0,0,1,0,0,1],\"color\":[1,2,3],\"fill\":true}"
    );
}

#[test]
fn polyline_exact() {
    let req = Request::polyline(vec![num("0.5"), num("1"), num("2"), num("3.5")], 0x00ff00);
    let out = encode(&req);
    assert_eq!(
        out,
        "{\"type\":\"polyline\",\"points\":[0.5,1,2,3.5],\"color\":65280}"
    );
}

#[test]
fn polyline_empty_points() {
    let req = Request::polyline(vec![], 0);
    let out = encode(&req);
    assert_eq!(out, "{\"type\":\"polyline\",\"points\":[],\"color\":0}");
}

#[test]
fn polyline_single_point_pair() {
    let req = Request::polyline(vec![num("7"), num("8")], 12);
    let out = encode(&req);
    assert_eq!(out, "{\"type\":\"polyline\",\"points\":[7,8],\"color\":12}");
}

#[test]
fn line_matches_polyline_bytes() {
    let line = Request::line(num("0.0"), num("0.0"), num("100.0"), num("100.0"), 0xff0000);
    let poly = Request::polyline(
        vec![num("0.0"), num("0.0"), num("100.0"), num("100.0")],
        0xff0000,
    );
    assert_eq!(encode(&line), encode(&poly));
    assert_eq!(
        encode(&line),
        "{\"type\":\"polyline\",\"points\":[0.0,0.0,100.0,100.0],\"color\":16711680}"
    );
}

#[test]
fn circle_popup_exact() {
    let req = Request::circle_popup(num("1"), num("2"), num("3"), "hi".to_string());
    let out = encode(&req);
    assert_eq!(
        out,
        "{\"type\":\"popup\",\"p\":[1,2],\"r\":3,\"text\":\"hi\"}"
    );
}

#[test]
fn rectangle_popup_exact() {
    let req = Request::rectangle_popup(num("1"), num("2"), num("3"), num("4"), "note".to_string());
    let out = encode(&req);
    assert_eq!(
        out,
        "{\"type\":\"popup\",\"tl\":[1,2],\"br\":[3,4],\"text\":\"note\"}"
    );
}

#[test]
fn options_exact() {
    let req = Request::options(3, false);
    let out = encode(&req);
    assert_eq!(out, "{\"type\":\"options\",\"layer\":3,\"permanent\":false}");
}

#[test]
fn options_negative_layer() {
    let req = Request::options(-2, true);
    let out = encode(&req);
    assert_eq!(out, "{\"type\":\"options\",\"layer\":-2,\"permanent\":true}");
}

#[test]
fn message_exact() {
    let req = Request::message("hello".to_string());
    let out = encode(&req);
    assert_eq!(out, "{\"type\":\"message\",\"message\":\"hello\"}");
}

#[test]
fn message_escapes_text() {
    // the escaping must change the text, not hand it back unchanged
    let req = Request::message("a\"b\\c\nd".to_string());
    let out = encode(&req);
    assert_eq!(
        out,
        "{\"type\":\"message\",\"message\":\"a\\\"b\\\\c\\nd\"}"
    );
}

#[test]
fn non_finite_coordinate_token() {
    // a non-finite double is rendered as null; the frame carries it through
    let req = Request::circle(num("null"), num("2"), num("3"), 7, false);
    let out = encode(&req);
    assert_eq!(
        out,
        "{\"type\":\"circle\",\"p\":[null,2],\"r\":3,\"color\":7,\"fill\":false}"
    );
}

#[test]
fn color_presets() {
    assert_eq!(rewind_client::RED, 0xff0000);
    assert_eq!(rewind_client::GREEN, 0x00ff00);
    assert_eq!(rewind_client::BLUE, 0x0000ff);
    assert_eq!(rewind_client::DARK_RED, 0x770000);
    assert_eq!(rewind_client::DARK_GREEN, 0x007700);
    assert_eq!(rewind_client::DARK_BLUE, 0x000077);
    assert_eq!(rewind_client::TRANSPARENT, 0x7f000000);
    assert_eq!(rewind_client::INVISIBLE, 0x01000000);
    assert_eq!(rewind_client::DEFAULT_LAYER, 3);
    assert_eq!(rewind_client::DEFAULT_PORT, 9111);
}
