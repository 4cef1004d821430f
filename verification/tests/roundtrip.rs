// Every variant's encoding parses back, with a standard JSON parser, to an
// object whose `type` field matches the wire table and whose remaining
// fields hold the input values exactly (doubles survive unchanged).

use rewind_client::codec::encode;
use rewind_client::num::Num;
use rewind_client::request::Request;

fn num(s: &str) -> Num {
    Num::new(s.to_string()).expect("well-formed token")
}

fn parse(req: &Request) -> serde_json::Value {
    serde_json::from_str(&encode(req)).expect("encoded frame parses as JSON")
}

#[test]
fn roundtrip_end() {
    let v = parse(&Request::end());
    assert_eq!(v["type"], "end");
    assert_eq!(v.as_object().unwrap().len(), 1);
}

#[test]
fn roundtrip_polyline() {
    let v = parse(&Request::polyline(
        vec![num("1.5"), num("-2.25"), num("3.0"), num("4.0")],
        0xff0000,
    ));
    assert_eq!(v["type"], "polyline");
    assert_eq!(v["color"].as_u64(), Some(0xff0000));
    let pts = v["points"].as_array().unwrap();
    assert_eq!(pts.len(), 4);
    assert_eq!(pts[0].as_f64(), Some(1.5));
    assert_eq!(pts[1].as_f64(), Some(-2.25));
    assert_eq!(pts[2].as_f64(), Some(3.0));
    assert_eq!(pts[3].as_f64(), Some(4.0));
}

#[test]
fn roundtrip_line() {
    let v = parse(&Request::line(
        num("0.1"),
        num("0.2"),
        num("0.30000000000000004"),
        num("1e-10"),
        7,
    ));
    assert_eq!(v["type"], "polyline");
    let pts = v["points"].as_array().unwrap();
    assert_eq!(pts[0].as_f64(), Some(0.1));
    assert_eq!(pts[1].as_f64(), Some(0.2));
    // a double with no short decimal form survives unchanged
    assert_eq!(pts[2].as_f64(), Some(0.1f64 + 0.2f64));
    assert_eq!(pts[3].as_f64(), Some(1e-10));
}

#[test]
fn roundtrip_circle() {
    let v = parse(&Request::circle(num("1.0"), num("2.0"), num("3.0"), 0xAABBCC, true));
    assert_eq!(v["type"], "circle");
    assert_eq!(v["p"][0].as_f64(), Some(1.0));
    assert_eq!(v["p"][1].as_f64(), Some(2.0));
    assert_eq!(v["r"].as_f64(), Some(3.0));
    assert_eq!(v["color"].as_u64(), Some(0xAABBCC));
    assert_eq!(v["fill"].as_bool(), Some(true));
}

#[test]
fn roundtrip_rectangle() {
    let v = parse(&Request::rectangle(
        num("-1.5"),
        num("0"),
        num("4.25"),
        num("8"),
        0x770077,
        false,
    ));
    assert_eq!(v["type"], "rectangle");
    assert_eq!(v["tl"][0].as_f64(), Some(-1.5));
    assert_eq!(v["tl"][1].as_f64(), Some(0.0));
    assert_eq!(v["br"][0].as_f64(), Some(4.25));
    assert_eq!(v["br"][1].as_f64(), Some(8.0));
    assert_eq!(v["color"].as_u64(), Some(0x770077));
    assert_eq!(v["fill"].as_bool(), Some(false));
}

#[test]
fn roundtrip_rectangle_with_colors() {
    let v = parse(&Request::rectangle_with_colors(
        num("0"),
        num("0"),
        num("10"),
        num("10"),
        [1, 2, 3, u32::MAX],
        true,
    ));
    assert_eq!(v["type"], "rectangle");
    let colors = v["color"].as_array().unwrap();
    assert_eq!(colors[0].as_u64(), Some(1));
    assert_eq!(colors[1].as_u64(), Some(2));
    assert_eq!(colors[2].as_u64(), Some(3));
    assert_eq!(colors[3].as_u64(), Some(u32::MAX as u64));
    assert_eq!(v["fill"].as_bool(), Some(true));
}

#[test]
fn roundtrip_triangle() {
    let v = parse(&Request::triangle(
        num("0"),
        num("0.5"),
        num("1"),
        num("1.5"),
        num("2"),
        num("2.5"),
        9,
        true,
    ));
    assert_eq!(v["type"], "triangle");
    let pts = v["points"].as_array().unwrap();
    let want = [0.0, 0.5, 1.0, 1.5, 2.0, 2.5];
    for (p, w) in pts.iter().zip(want.iter()) {
        assert_eq!(p.as_f64(), Some(*w));
    }
    assert_eq!(v["color"].as_u64(), Some(9));
}

#[test]
fn roundtrip_triangle_with_colors() {
    let v = parse(&Request::triangle_with_colors(
        num("0"),
        num("0"),
        num("1"),
        num("0"),
        num("0"),
        num("1"),
        [10, 20, 30],
        false,
    ));
    assert_eq!(v["type"], "triangle");
    let colors = v["color"].as_array().unwrap();
    assert_eq!(colors[0].as_u64(), Some(10));
    assert_eq!(colors[1].as_u64(), Some(20));
    assert_eq!(colors[2].as_u64(), Some(30));
}

#[test]
fn roundtrip_circle_popup() {
    let v = parse(&Request::circle_popup(
        num("1"),
        num("2"),
        num("0.5"),
        "score: 42 \"best\"".to_string(),
    ));
    assert_eq!(v["type"], "popup");
    assert_eq!(v["p"][0].as_f64(), Some(1.0));
    assert_eq!(v["r"].as_f64(), Some(0.5));
    assert_eq!(v["text"].as_str(), Some("score: 42 \"best\""));
}

#[test]
fn roundtrip_rectangle_popup() {
    let v = parse(&Request::rectangle_popup(
        num("1"),
        num("2"),
        num("3"),
        num("4"),
        "unit\nstate".to_string(),
    ));
    assert_eq!(v["type"], "popup");
    assert_eq!(v["tl"][1].as_f64(), Some(2.0));
    assert_eq!(v["br"][0].as_f64(), Some(3.0));
    assert_eq!(v["text"].as_str(), Some("unit\nstate"));
}

#[test]
fn roundtrip_options() {
    let v = parse(&Request::options(-7, true));
    assert_eq!(v["type"], "options");
    assert_eq!(v["layer"].as_i64(), Some(-7));
    assert_eq!(v["permanent"].as_bool(), Some(true));
}

#[test]
fn roundtrip_message() {
    let text = "unicode: héllo ✓ tab\t end";
    let v = parse(&Request::message(text.to_string()));
    assert_eq!(v["type"], "message");
    assert_eq!(v["message"].as_str(), Some(text));
}
