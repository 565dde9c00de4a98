use madparts::element::{Element, Line, Pad, Rect, Shape, Smd, Text};
use madparts::kicad::{save, serialize, to_footprint, Footprint, MissingField};
use madparts::record::{decode_record, DecodeError};
use madparts::state::{bound, DrawState, ReloadError};

const MM: i64 = 1_000_000;

fn text(x: i64, y: i64, layer: &str, txt: &str) -> Text {
    Text {
        x,
        y,
        layer: layer.to_string(),
        dy: MM,
        thickness: 150_000,
        txt: txt.to_string(),
    }
}

fn named(mut elements: Vec<Element>) -> Vec<Element> {
    elements.insert(0, Element::Reference(text(0, -2 * MM, "F.SilkS", "REF**")));
    elements.insert(1, Element::Name(text(0, 2 * MM, "F.Fab", "R1")));
    elements
}

fn written(elements: &Vec<Element>, ts: i64) -> Result<String, MissingField> {
    let mut out = String::new();
    serialize(&to_footprint(elements), ts, &mut out).map(|_| out)
}

fn reference_record() -> String {
    r#"{"type":"Reference","x":0,"y":-2,"layer":"F.SilkS","dy":1,"thickness":0.15,"txt":"REF**"}"#
        .to_string()
}

fn name_record(txt: &str, y: &str) -> String {
    format!(
        r#"{{"type":"Name","x":0,"y":{},"layer":"F.Fab","dy":1,"thickness":0.15,"txt":"{}"}}"#,
        y, txt
    )
}

#[test]
fn minimal_footprint_file() {
    let out = written(&named(vec![]), 0x5B00_0000).unwrap();
    let expected = "(module R1 (layer F.Cu) (tedit 5B000000)\n  (tags \"\")\n  (attr smd)\n  (fp_text reference REF** (at 0 -2) (layer F.SilkS)\n    (effects (font (size 1 1) (thickness 0.15)))  )\n  (fp_text value R1 (at 0 2) (layer F.Fab)\n    (effects (font (size 1 1) (thickness 0.15)))\n  )\n  (fp_text user %R (at 0 0) (layer F.Fab)\n    (effects (font (size 0.8 0.8) (thickness 0.1)))\n  )\n)\n";
    assert_eq!(out, expected);
}

#[test]
fn writable_only_with_name_and_reference() {
    let line = Element::Line(Line { x1: 0, y1: 0, x2: MM, y2: 0, layer: "F.SilkS".to_string(), w: 120_000 });
    assert_eq!(written(&vec![], 1), Err(MissingField::Name));
    assert_eq!(
        written(&vec![line.clone(), Element::Name(text(0, 0, "F.Fab", "R1"))], 1),
        Err(MissingField::Reference)
    );
    assert_eq!(
        written(&vec![line.clone(), Element::Reference(text(0, 0, "F.SilkS", "R"))], 1),
        Err(MissingField::Name)
    );
    assert!(written(&named(vec![line]), 1).is_ok());
}

#[test]
fn missing_field_writes_nothing() {
    let mut out = String::from("kept");
    let r = serialize(&Footprint::new(), 7, &mut out);
    assert_eq!(r, Err(MissingField::Name));
    assert_eq!(out, "kept");
}

#[test]
fn one_pad_of_each_kind() {
    let layers = vec!["F.Cu".to_string(), "F.Mask".to_string()];
    let smd = Element::Smd(Smd {
        name: "1".to_string(), x: 0, y: 0, dx: MM, dy: 2 * MM, shape: Shape::Rect, layers: layers.clone(),
    });
    let plated = Element::Pad(Pad {
        name: "2".to_string(), x: 2 * MM, y: 0, dx: 1_500_000, dy: 1_500_000, drill: 800_000,
        plated: true, layers: vec!["*.Cu".to_string(), "*.Mask".to_string()],
    });
    let bare = Element::Pad(Pad {
        name: "3".to_string(), x: 4 * MM, y: 0, dx: MM, dy: MM, drill: MM,
        plated: false, layers: vec!["*.Cu".to_string()],
    });
    let out = written(&named(vec![smd, plated, bare]), 0).unwrap();
    assert_eq!(out.matches(" smd ").count(), 1);
    assert_eq!(out.matches(" thru_hole ").count(), 1);
    assert_eq!(out.matches(" np_thru_hole ").count(), 1);
    assert!(out.contains("  (pad 1 smd rect (at 0 0) (size 1 2) (layers F.Cu F.Mask))\n"));
    assert!(out.contains("  (pad 2 thru_hole circle (at 2 0) (size 1.5 1.5) (drill 0.8) (layers *.Cu *.Mask))\n"));
    assert!(out.contains("  (pad 3 np_thru_hole circle (at 4 0) (size 1 1) (drill 1) (layers *.Cu))\n"));
    let smd_line = out.lines().find(|l| l.contains(" smd ")).unwrap();
    assert!(!smd_line.contains("drill"));
    assert_eq!(out.matches("(drill ").count(), 2);
}

#[test]
fn rectangle_is_closed_polygon() {
    let rect = Element::Rect(Rect { x: 0, y: 0, dx: 2 * MM, dy: 4 * MM, layer: "F.SilkS".to_string(), w: 150_000 });
    let out = written(&named(vec![rect]), 0).unwrap();
    assert!(out.contains(
        "  (fp_poly (pts (xy -1 -2)(xy 1 -2)(xy 1 2)(xy -1 2)(xy -1 -2)) (layer F.SilkS) (width 0.15))\n"
    ));
}

#[test]
fn odd_rectangle_keeps_half_nanometres() {
    let rect = Element::Rect(Rect { x: 1, y: 0, dx: 1, dy: 2, layer: "F.Fab".to_string(), w: 0 });
    let out = written(&named(vec![rect]), 0).unwrap();
    assert!(out.contains("(xy 0.0000005 -0.000001)(xy 0.0000015 -0.000001)"));
}

#[test]
fn geometry_comes_in_file_order() {
    let rect = Element::Rect(Rect { x: 0, y: 0, dx: MM, dy: MM, layer: "F.Fab".to_string(), w: 0 });
    let line = Element::Line(Line { x1: -MM, y1: 500_000, x2: MM, y2: -1_250_000, layer: "F.CrtYd".to_string(), w: 50_000 });
    let pad = Element::Pad(Pad {
        name: "1".to_string(), x: 0, y: 0, dx: MM, dy: MM, drill: 500_000, plated: true, layers: vec![],
    });
    let smd = Element::Smd(Smd {
        name: "2".to_string(), x: 0, y: 0, dx: MM, dy: MM, shape: Shape::Oval, layers: vec!["F.Cu".to_string()],
    });
    let out = written(&named(vec![rect, pad, smd, line]), 0).unwrap();
    let at = |s: &str| out.find(s).unwrap();
    assert!(at("(fp_text user") < at("(fp_line"));
    assert!(at("(fp_line") < at(" smd oval"));
    assert!(at(" smd oval") < at(" thru_hole"));
    assert!(at(" thru_hole") < at("(fp_poly"));
    assert!(out.contains("  (fp_line (start -1 0.5) (end 1 -1.25) (layer F.CrtYd) (width 0.05))\n"));
    assert!(out.contains("(layers ))"));
}

#[test]
fn serializing_twice_is_identical() {
    let rect = Element::Rect(Rect { x: 3, y: -7, dx: 2 * MM, dy: MM, layer: "F.SilkS".to_string(), w: 1 });
    let fp = to_footprint(&named(vec![rect]));
    let mut a = String::new();
    let mut b = String::new();
    serialize(&fp, 123456, &mut a).unwrap();
    serialize(&fp, 123456, &mut b).unwrap();
    assert_eq!(a, b);
}

#[test]
fn timestamp_is_upper_hex_of_its_bits() {
    let out = written(&named(vec![]), 255).unwrap();
    assert!(out.starts_with("(module R1 (layer F.Cu) (tedit FF)\n"));
    let out = written(&named(vec![]), -1).unwrap();
    assert!(out.starts_with("(module R1 (layer F.Cu) (tedit FFFFFFFFFFFFFFFF)\n"));
}

#[test]
fn save_stamps_the_current_time() {
    let mut out = String::new();
    save(&named(vec![]), &mut out).unwrap();
    assert!(out.starts_with("(module R1 (layer F.Cu) (tedit "));
    assert!(!out.starts_with("(module R1 (layer F.Cu) (tedit 0)"));
    assert!(out.ends_with("  )\n)\n"));
    let mut none = String::new();
    assert_eq!(save(&vec![], &mut none), Err(MissingField::Name));
    assert_eq!(none, "");
}

#[test]
fn last_name_wins_in_footprint() {
    let fp = to_footprint(&vec![
        Element::Name(text(0, 0, "F.Fab", "A")),
        Element::Name(text(0, 0, "F.Fab", "B")),
    ]);
    assert_eq!(fp.name.unwrap().txt, "B");
    assert!(fp.reference.is_none());
}

#[test]
fn decode_text_record() {
    let e = decode_record(&name_record("R1", "2.54")).unwrap();
    match e {
        Element::Name(t) => {
            assert_eq!(t.y, 2_540_000);
            assert_eq!(t.txt, "R1");
            assert_eq!(t.layer, "F.Fab");
            assert_eq!(t.thickness, 150_000);
        }
        other => panic!("unexpected {:?}", other),
    }
}

#[test]
fn decode_rounds_to_nanometres() {
    let rec = r#"{"type":"Line","x1":5.551115123125783e-17,"y1":-0.0000004,"x2":1e-7,"y2":2.5e3,"layer":"F.Fab","w":0.1}"#;
    match decode_record(rec).unwrap() {
        Element::Line(l) => assert_eq!((l.x1, l.y1, l.x2, l.y2), (0, 0, 0, 2500 * MM)),
        other => panic!("unexpected {:?}", other),
    }
    let rec = r#"{"type":"Line","x1":0.30000000000000004,"y1":-0.0000015,"x2":12,"y2":0,"layer":"F.Fab","w":0.1}"#;
    match decode_record(rec).unwrap() {
        Element::Line(l) => {
            assert_eq!(l.x1, 300_000);
            assert_eq!(l.y1, -2);
            assert_eq!(l.x2, 12 * MM);
            assert_eq!(l.w, 100_000);
        }
        other => panic!("unexpected {:?}", other),
    }
}

#[test]
fn decode_pad_and_smd() {
    let rec = r#"{"type":"Pad","name":1,"x":0,"y":0,"dx":1.5,"dy":1.5,"drill":0.8,"plated":false,"layers":["*.Cu","*.Mask"]}"#;
    match decode_record(rec).unwrap() {
        Element::Pad(p) => {
            assert_eq!(p.name, "1");
            assert!(!p.plated);
            assert_eq!(p.drill, 800_000);
            assert_eq!(p.layers, vec!["*.Cu".to_string(), "*.Mask".to_string()]);
        }
        other => panic!("unexpected {:?}", other),
    }
    let rec = r#"{"type":"Smd","name":"A1","x":0,"y":0,"dx":1,"dy":1,"shape":"roundrect","layers":["F.Cu"]}"#;
    match decode_record(rec).unwrap() {
        Element::Smd(p) => assert_eq!(p.shape, Shape::RoundRect),
        other => panic!("unexpected {:?}", other),
    }
}

#[test]
fn decode_errors() {
    assert_eq!(decode_record(r#"{"type":"Circle","x":0}"#).unwrap_err(), DecodeError::Malformed);
    assert_eq!(decode_record("not json").unwrap_err(), DecodeError::Malformed);
    assert_eq!(decode_record("[1, 2]").unwrap_err(), DecodeError::Malformed);
    assert_eq!(decode_record(r#"{"x":0}"#).unwrap_err(), DecodeError::Malformed);
    assert_eq!(decode_record(r#"{"type":3}"#).unwrap_err(), DecodeError::Type);
    assert_eq!(
        decode_record(r#"{"type":"Rect","x":0,"y":0,"dx":1,"layer":"F.Fab","w":0}"#).unwrap_err(),
        DecodeError::Malformed
    );
    assert_eq!(
        decode_record(r#"{"type":"Rect","x":"0","y":0,"dx":1,"dy":1,"layer":"F.Fab","w":0}"#).unwrap_err(),
        DecodeError::Type
    );
    assert_eq!(
        decode_record(r#"{"type":"Smd","name":"1","x":0,"y":0,"dx":1,"dy":1,"shape":"star","layers":[]}"#).unwrap_err(),
        DecodeError::Type
    );
    assert_eq!(
        decode_record(r#"{"type":"Pad","name":"1","x":0,"y":0,"dx":1,"dy":1,"drill":1,"plated":true,"layers":["F.Cu",2]}"#).unwrap_err(),
        DecodeError::Type
    );
    assert_eq!(
        decode_record(r#"{"type":"Line","x1":1234567890123,"y1":0,"x2":0,"y2":0,"layer":"F.Fab","w":0}"#).unwrap_err(),
        DecodeError::Type
    );
}

#[test]
fn unknown_tag_and_error_marker_keep_state() {
    let mut state = DrawState::new();
    state.reload(&vec![reference_record(), name_record("R1", "2")], "/src/fp.py").unwrap();
    let before = written(&state.elements, 42).unwrap();
    let r = state.reload(&vec![reference_record(), r#"{"type":"Blob"}"#.to_string()], "/src/fp.py");
    assert!(matches!(r, Err(ReloadError::Decode(DecodeError::Malformed))));
    assert_eq!(written(&state.elements, 42).unwrap(), before);
    let marker = r#"{"type":"PythonError","message":"File \"<string>\", line 3"}"#.to_string();
    let r = state.reload(&vec![name_record("X", "0"), marker], "/src/fp.py");
    match r {
        Err(ReloadError::Generator(m)) => assert_eq!(m, "File \"/src/fp.py\", line 3"),
        other => panic!("unexpected {:?}", other),
    }
    assert_eq!(written(&state.elements, 42).unwrap(), before);
    assert_eq!(state.name(), "R1");
}

#[test]
fn reload_keeps_last_success() {
    let mut state = DrawState::new();
    state.reload(&vec![reference_record(), name_record("FIRST", "2")], "f.py").unwrap();
    let line = r#"{"type":"Line","x1":0,"y1":0,"x2":3,"y2":4,"layer":"F.SilkS","w":0.12}"#.to_string();
    state.reload(&vec![reference_record(), name_record("SECOND", "1"), line.clone()], "f.py").unwrap();
    let second = written(&state.elements, 9).unwrap();
    let r = state.reload(&vec![name_record("THIRD", "0"), line, "{".to_string()], "f.py");
    assert!(matches!(r, Err(ReloadError::Decode(DecodeError::Malformed))));
    assert_eq!(state.elements.len(), 3);
    assert_eq!(state.name(), "SECOND");
    assert_eq!(written(&state.elements, 9).unwrap(), second);
    assert!(second.contains("(fp_line (start 0 0) (end 3 4) (layer F.SilkS) (width 0.12))"));
    assert_eq!(state.bound, bound(&state.elements));
    assert_eq!((state.bound.min_x, state.bound.min_y), (0, -4 * MM as i128));
    assert_eq!((state.bound.max_x, state.bound.max_y), (6 * MM as i128, 8 * MM as i128));
}

#[test]
fn end_to_end_reference_and_value() {
    let mut state = DrawState::new();
    state.reload(&vec![reference_record(), name_record("R1", "2")], "fp.py").unwrap();
    let out = written(&state.elements, 0).unwrap();
    assert!(out.contains("(fp_text reference REF** (at 0 -2) (layer F.SilkS)"));
    assert!(out.contains("(fp_text value R1 (at 0 2) (layer F.Fab)"));
    assert_eq!(state.file_name(), "R1.kicad_mod");
}

#[test]
fn state_name_defaults() {
    let state = DrawState::new();
    assert_eq!(state.name(), "NAME");
    assert_eq!(state.file_name(), "NAME.kicad_mod");
    assert_eq!(state.bound, bound(&vec![]));
    assert_eq!(state.bound.max_x, 0);
}

#[test]
fn bound_of_pads_and_text() {
    let pad = Element::Smd(Smd {
        name: "1".to_string(), x: MM, y: 0, dx: 3, dy: 2 * MM, shape: Shape::Circle, layers: vec![],
    });
    let b = bound(&vec![pad, Element::Text(text(-5, 7, "F.Fab", "t"))]);
    assert_eq!((b.min_x, b.min_y, b.max_x, b.max_y), (-10, -2 * MM as i128, 2 * MM as i128 + 3, 2 * MM as i128));
}
