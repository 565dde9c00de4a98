//! Decoding the generator's records into elements.
//!
//! A record is a JSON object whose `"type"` field names the kind of element
//! (`Text`, `Pad`, `Smd`, `Line`, `Rect`, `Name`, `Reference` or
//! `PythonError`) and whose other fields hold that element's values. Lengths
//! are numbers of millimetres, read to the nearest nanometre; layers are
//! arrays of layer names.
use vstd::prelude::*;
use crate::decimal::number_nm;
use crate::decimal::parse_mm;
use crate::element::{
    names_view, Element, ElementV, Line, LineV, Pad, PadV, PythonError, Rect, RectV, Shape, Smd,
    SmdV, Text, TextV,
};
use crate::json::{json_parse, parse_json, Json};

verus! {

/// Why a record could not be decoded.
#[derive(Clone, Copy, Debug, PartialEq, Eq, Structural)]
pub enum DecodeError {
    /// Not an object, an unknown kind, or a field is missing.
    Malformed,
    /// A field holds a value of the wrong kind.
    Type,
}

/// The value of the first field named `key`.
pub open spec fn lookup(es: Seq<(String, Json)>, key: Seq<char>) -> Option<Json>
    decreases es.len(),
{
    if es.len() == 0 {
        None
    } else if es[0].0@ == key {
        Some(es[0].1)
    } else {
        lookup(es.skip(1), key)
    }
}

/// A length field: a number of millimetres, in nanometres.
pub open spec fn num_field(es: Seq<(String, Json)>, key: Seq<char>) -> Result<int, DecodeError> {
    match lookup(es, key) {
        None => Err(DecodeError::Malformed),
        Some(Json::Number(t)) => match number_nm(t@) {
            Some(v) => Ok(v),
            None => Err(DecodeError::Type),
        },
        Some(_) => Err(DecodeError::Type),
    }
}

pub open spec fn str_field(es: Seq<(String, Json)>, key: Seq<char>) -> Result<
    Seq<char>,
    DecodeError,
> {
    match lookup(es, key) {
        None => Err(DecodeError::Malformed),
        Some(Json::Str(t)) => Ok(t@),
        Some(_) => Err(DecodeError::Type),
    }
}

/// A pad's name: a string, or a number taken as it is written.
pub open spec fn label_field(es: Seq<(String, Json)>, key: Seq<char>) -> Result<
    Seq<char>,
    DecodeError,
> {
    match lookup(es, key) {
        None => Err(DecodeError::Malformed),
        Some(Json::Str(t)) => Ok(t@),
        Some(Json::Number(t)) => Ok(t@),
        Some(_) => Err(DecodeError::Type),
    }
}

pub open spec fn bool_field(es: Seq<(String, Json)>, key: Seq<char>) -> Result<bool, DecodeError> {
    match lookup(es, key) {
        None => Err(DecodeError::Malformed),
        Some(Json::Bool(b)) => Ok(b),
        Some(_) => Err(DecodeError::Type),
    }
}

/// The names in an array, where every item is a string.
pub open spec fn names_of(items: Seq<Json>) -> Option<Seq<Seq<char>>>
    decreases items.len(),
{
    if items.len() == 0 {
        Some(Seq::empty())
    } else {
        match (names_of(items.drop_last()), items.last()) {
            (Some(ls), Json::Str(t)) => Some(ls.push(t@)),
            _ => None,
        }
    }
}

pub open spec fn layers_field(es: Seq<(String, Json)>, key: Seq<char>) -> Result<
    Seq<Seq<char>>,
    DecodeError,
> {
    match lookup(es, key) {
        None => Err(DecodeError::Malformed),
        Some(Json::Array(items)) => match names_of(items@) {
            Some(ls) => Ok(ls),
            None => Err(DecodeError::Type),
        },
        Some(_) => Err(DecodeError::Type),
    }
}

pub open spec fn shape_of(t: Seq<char>) -> Option<Shape> {
    if t == "rect"@ {
        Some(Shape::Rect)
    } else if t == "circle"@ {
        Some(Shape::Circle)
    } else if t == "oval"@ {
        Some(Shape::Oval)
    } else if t == "roundrect"@ {
        Some(Shape::RoundRect)
    } else if t == "trapezoid"@ {
        Some(Shape::Trapezoid)
    } else {
        None
    }
}

pub open spec fn shape_field(es: Seq<(String, Json)>, key: Seq<char>) -> Result<Shape, DecodeError> {
    match lookup(es, key) {
        None => Err(DecodeError::Malformed),
        Some(Json::Str(t)) => match shape_of(t@) {
            Some(s) => Ok(s),
            None => Err(DecodeError::Type),
        },
        Some(_) => Err(DecodeError::Type),
    }
}

fn str_eq(a: &str, b: &str) -> (r: bool)
    ensures
        r == (a@ == b@),
{
    let n = a.unicode_len();
    if n != b.unicode_len() {
        return false;
    }
    let mut i: usize = 0;
    while i < n
        invariant
            i <= n == a@.len() == b@.len(),
            a@.take(i as int) == b@.take(i as int),
        decreases n - i,
    {
        if a.get_char(i) != b.get_char(i) {
            return false;
        }
        assert(a@.take(i + 1) =~= a@.take(i as int).push(a@[i as int]));
        assert(b@.take(i + 1) =~= b@.take(i as int).push(b@[i as int]));
        i = i + 1;
    }
    assert(a@ =~= a@.take(n as int));
    assert(b@ =~= b@.take(n as int));
    true
}

fn lookup_exec<'a>(es: &'a Vec<(String, Json)>, key: &str) -> (r: Option<&'a Json>)
    ensures
        match r {
            Some(j) => lookup(es@, key@) == Some(*j),
            None => lookup(es@, key@) is None,
        },
{
    let mut i: usize = 0;
    assert(es@.skip(0) =~= es@);
    while i < es.len()
        invariant
            i <= es@.len(),
            lookup(es@, key@) == lookup(es@.skip(i as int), key@),
        decreases es@.len() - i,
    {
        assert(es@.skip(i as int)[0] == es@[i as int]);
        assert(es@.skip(i as int).skip(1) =~= es@.skip(i + 1));
        if str_eq(es[i].0.as_str(), key) {
            return Some(&es[i].1);
        }
        i = i + 1;
    }
    None
}

fn get_num(es: &Vec<(String, Json)>, key: &str) -> (r: Result<i64, DecodeError>)
    ensures
        match r {
            Ok(v) => num_field(es@, key@) == Ok::<int, DecodeError>(v as int),
            Err(e) => num_field(es@, key@) == Err::<int, DecodeError>(e),
        },
{
    match lookup_exec(es, key) {
        None => Err(DecodeError::Malformed),
        Some(Json::Number(t)) => match parse_mm(t.as_str()) {
            Some(v) => Ok(v),
            None => Err(DecodeError::Type),
        },
        Some(_) => Err(DecodeError::Type),
    }
}

fn get_str(es: &Vec<(String, Json)>, key: &str) -> (r: Result<String, DecodeError>)
    ensures
        match r {
            Ok(v) => str_field(es@, key@) == Ok::<Seq<char>, DecodeError>(v@),
            Err(e) => str_field(es@, key@) == Err::<Seq<char>, DecodeError>(e),
        },
{
    match lookup_exec(es, key) {
        None => Err(DecodeError::Malformed),
        Some(Json::Str(t)) => Ok(t.clone()),
        Some(_) => Err(DecodeError::Type),
    }
}

fn get_label(es: &Vec<(String, Json)>, key: &str) -> (r: Result<String, DecodeError>)
    ensures
        match r {
            Ok(v) => label_field(es@, key@) == Ok::<Seq<char>, DecodeError>(v@),
            Err(e) => label_field(es@, key@) == Err::<Seq<char>, DecodeError>(e),
        },
{
    match lookup_exec(es, key) {
        None => Err(DecodeError::Malformed),
        Some(Json::Str(t)) => Ok(t.clone()),
        Some(Json::Number(t)) => Ok(t.clone()),
        Some(_) => Err(DecodeError::Type),
    }
}

fn get_bool(es: &Vec<(String, Json)>, key: &str) -> (r: Result<bool, DecodeError>)
    ensures
        match r {
            Ok(v) => bool_field(es@, key@) == Ok::<bool, DecodeError>(v),
            Err(e) => bool_field(es@, key@) == Err::<bool, DecodeError>(e),
        },
{
    match lookup_exec(es, key) {
        None => Err(DecodeError::Malformed),
        Some(Json::Bool(b)) => Ok(*b),
        Some(_) => Err(DecodeError::Type),
    }
}

fn get_layers(es: &Vec<(String, Json)>, key: &str) -> (r: Result<Vec<String>, DecodeError>)
    ensures
        match r {
            Ok(v) => layers_field(es@, key@) == Ok::<Seq<Seq<char>>, DecodeError>(names_view(v@)),
            Err(e) => layers_field(es@, key@) == Err::<Seq<Seq<char>>, DecodeError>(e),
        },
{
    let found = lookup_exec(es, key);
    let items = match found {
        None => {
            return Err(DecodeError::Malformed);
        },
        Some(Json::Array(items)) => items,
        Some(_) => {
            return Err(DecodeError::Type);
        },
    };
    let mut out: Vec<String> = Vec::new();
    let mut i: usize = 0;
    while i < items.len()
        invariant
            i <= items@.len(),
            names_of(items@.take(i as int)) == Some(names_view(out@)),
            lookup(es@, key@) == Some(Json::Array(*items)),
        decreases items@.len() - i,
    {
        let ghost before = out@;
        proof {
            assert(items@.take(i + 1).drop_last() =~= items@.take(i as int));
            assert(items@.take(i + 1).last() == items@[i as int]);
        }
        match &items[i] {
            Json::Str(t) => {
                let c = t.clone();
                out.push(c);
                assert(out@ =~= before.push(c));
                assert(names_view(before.push(c)) =~= names_view(before).push(c@));
            },
            _ => {
                proof {
                    assert(!(items@[i as int] is Str));
                    lemma_names_of_prefix(items@, i as int);
                }
                return Err(DecodeError::Type);
            },
        }
        i = i + 1;
    }
    assert(items@.take(i as int) =~= items@);
    Ok(out)
}

/// An array whose prefix holds something other than a string holds names
/// nowhere further on either.
proof fn lemma_names_of_prefix(items: Seq<Json>, i: int)
    requires
        0 <= i < items.len(),
        !(items[i] is Str),
    ensures
        names_of(items) is None,
    decreases items.len(),
{
    if i < items.len() - 1 {
        lemma_names_of_prefix(items.drop_last(), i);
    }
}

fn get_shape(es: &Vec<(String, Json)>, key: &str) -> (r: Result<Shape, DecodeError>)
    ensures
        match r {
            Ok(v) => shape_field(es@, key@) == Ok::<Shape, DecodeError>(v),
            Err(e) => shape_field(es@, key@) == Err::<Shape, DecodeError>(e),
        },
{
    match lookup_exec(es, key) {
        None => Err(DecodeError::Malformed),
        Some(Json::Str(t)) => {
            let t = t.as_str();
            if str_eq(t, "rect") {
                Ok(Shape::Rect)
            } else if str_eq(t, "circle") {
                Ok(Shape::Circle)
            } else if str_eq(t, "oval") {
                Ok(Shape::Oval)
            } else if str_eq(t, "roundrect") {
                Ok(Shape::RoundRect)
            } else if str_eq(t, "trapezoid") {
                Ok(Shape::Trapezoid)
            } else {
                Err(DecodeError::Type)
            }
        },
        Some(_) => Err(DecodeError::Type),
    }
}

/// The fields of a `Text` record, read in the order listed; the first
/// field that is missing or of the wrong kind gives the error.
#[verifier::opaque]
pub open spec fn text_spec(es: Seq<(String, Json)>) -> Result<TextV, DecodeError> {
    match num_field(es, "x"@) {
        Err(e) => Err(e),
        Ok(x) => {
            match num_field(es, "y"@) {
                Err(e) => Err(e),
                Ok(y) => {
                    match str_field(es, "layer"@) {
                        Err(e) => Err(e),
                        Ok(layer) => {
                            match num_field(es, "dy"@) {
                                Err(e) => Err(e),
                                Ok(dy) => {
                                    match num_field(es, "thickness"@) {
                                        Err(e) => Err(e),
                                        Ok(thickness) => {
                                            match str_field(es, "txt"@) {
                                                Err(e) => Err(e),
                                                Ok(txt) => {
                                                    Ok(TextV { x, y, layer, dy, thickness, txt })
                                                },
                                            }
                                        },
                                    }
                                },
                            }
                        },
                    }
                },
            }
        },
    }
}

fn decode_text(es: &Vec<(String, Json)>) -> (r: Result<Text, DecodeError>)
    ensures
        match r {
            Ok(v) => text_spec(es@) == Ok::<TextV, DecodeError>(v@),
            Err(e) => text_spec(es@) == Err::<TextV, DecodeError>(e),
        },
{
    proof {
        reveal(text_spec);
    }
    let x = match get_num(es, "x") {
        Ok(v) => v,
        Err(e) => {
            return Err(e);
        },
    };
    let y = match get_num(es, "y") {
        Ok(v) => v,
        Err(e) => {
            return Err(e);
        },
    };
    let layer = match get_str(es, "layer") {
        Ok(v) => v,
        Err(e) => {
            return Err(e);
        },
    };
    let dy = match get_num(es, "dy") {
        Ok(v) => v,
        Err(e) => {
            return Err(e);
        },
    };
    let thickness = match get_num(es, "thickness") {
        Ok(v) => v,
        Err(e) => {
            return Err(e);
        },
    };
    let txt = match get_str(es, "txt") {
        Ok(v) => v,
        Err(e) => {
            return Err(e);
        },
    };
    Ok(Text { x, y, layer, dy, thickness, txt })
}

/// The fields of a `Pad` record, read in the order listed; the first
/// field that is missing or of the wrong kind gives the error.
#[verifier::opaque]
pub open spec fn pad_spec(es: Seq<(String, Json)>) -> Result<PadV, DecodeError> {
    match label_field(es, "name"@) {
        Err(e) => Err(e),
        Ok(name) => {
            match num_field(es, "x"@) {
                Err(e) => Err(e),
                Ok(x) => {
                    match num_field(es, "y"@) {
                        Err(e) => Err(e),
                        Ok(y) => {
                            match num_field(es, "dx"@) {
                                Err(e) => Err(e),
                                Ok(dx) => {
                                    match num_field(es, "dy"@) {
                                        Err(e) => Err(e),
                                        Ok(dy) => {
                                            match num_field(es, "drill"@) {
                                                Err(e) => Err(e),
                                                Ok(drill) => {
                                                    match bool_field(es, "plated"@) {
                                                        Err(e) => Err(e),
                                                        Ok(plated) => {
                                                            match layers_field(es, "layers"@) {
                                                                Err(e) => Err(e),
                                                                Ok(layers) => {
                                                                    Ok(PadV { name, x, y, dx, dy, drill, plated, layers })
                                                                },
                                                            }
                                                        },
                                                    }
                                                },
                                            }
                                        },
                                    }
                                },
                            }
                        },
                    }
                },
            }
        },
    }
}

fn decode_pad(es: &Vec<(String, Json)>) -> (r: Result<Pad, DecodeError>)
    ensures
        match r {
            Ok(v) => pad_spec(es@) == Ok::<PadV, DecodeError>(v@),
            Err(e) => pad_spec(es@) == Err::<PadV, DecodeError>(e),
        },
{
    proof {
        reveal(pad_spec);
    }
    let name = match get_label(es, "name") {
        Ok(v) => v,
        Err(e) => {
            return Err(e);
        },
    };
    let x = match get_num(es, "x") {
        Ok(v) => v,
        Err(e) => {
            return Err(e);
        },
    };
    let y = match get_num(es, "y") {
        Ok(v) => v,
        Err(e) => {
            return Err(e);
        },
    };
    let dx = match get_num(es, "dx") {
        Ok(v) => v,
        Err(e) => {
            return Err(e);
        },
    };
    let dy = match get_num(es, "dy") {
        Ok(v) => v,
        Err(e) => {
            return Err(e);
        },
    };
    let drill = match get_num(es, "drill") {
        Ok(v) => v,
        Err(e) => {
            return Err(e);
        },
    };
    let plated = match get_bool(es, "plated") {
        Ok(v) => v,
        Err(e) => {
            return Err(e);
        },
    };
    let layers = match get_layers(es, "layers") {
        Ok(v) => v,
        Err(e) => {
            return Err(e);
        },
    };
    Ok(Pad { name, x, y, dx, dy, drill, plated, layers })
}

/// The fields of a `Smd` record, read in the order listed; the first
/// field that is missing or of the wrong kind gives the error.
#[verifier::opaque]
pub open spec fn smd_spec(es: Seq<(String, Json)>) -> Result<SmdV, DecodeError> {
    match label_field(es, "name"@) {
        Err(e) => Err(e),
        Ok(name) => {
            match num_field(es, "x"@) {
                Err(e) => Err(e),
                Ok(x) => {
                    match num_field(es, "y"@) {
                        Err(e) => Err(e),
                        Ok(y) => {
                            match num_field(es, "dx"@) {
                                Err(e) => Err(e),
                                Ok(dx) => {
                                    match num_field(es, "dy"@) {
                                        Err(e) => Err(e),
                                        Ok(dy) => {
                                            match shape_field(es, "shape"@) {
                                                Err(e) => Err(e),
                                                Ok(shape) => {
                                                    match layers_field(es, "layers"@) {
                                                        Err(e) => Err(e),
                                                        Ok(layers) => {
                                                            Ok(SmdV { name, x, y, dx, dy, shape, layers })
                                                        },
                                                    }
                                                },
                                            }
                                        },
                                    }
                                },
                            }
                        },
                    }
                },
            }
        },
    }
}

fn decode_smd(es: &Vec<(String, Json)>) -> (r: Result<Smd, DecodeError>)
    ensures
        match r {
            Ok(v) => smd_spec(es@) == Ok::<SmdV, DecodeError>(v@),
            Err(e) => smd_spec(es@) == Err::<SmdV, DecodeError>(e),
        },
{
    proof {
        reveal(smd_spec);
    }
    let name = match get_label(es, "name") {
        Ok(v) => v,
        Err(e) => {
            return Err(e);
        },
    };
    let x = match get_num(es, "x") {
        Ok(v) => v,
        Err(e) => {
            return Err(e);
        },
    };
    let y = match get_num(es, "y") {
        Ok(v) => v,
        Err(e) => {
            return Err(e);
        },
    };
    let dx = match get_num(es, "dx") {
        Ok(v) => v,
        Err(e) => {
            return Err(e);
        },
    };
    let dy = match get_num(es, "dy") {
        Ok(v) => v,
        Err(e) => {
            return Err(e);
        },
    };
    let shape = match get_shape(es, "shape") {
        Ok(v) => v,
        Err(e) => {
            return Err(e);
        },
    };
    let layers = match get_layers(es, "layers") {
        Ok(v) => v,
        Err(e) => {
            return Err(e);
        },
    };
    Ok(Smd { name, x, y, dx, dy, shape, layers })
}

/// The fields of a `Line` record, read in the order listed; the first
/// field that is missing or of the wrong kind gives the error.
#[verifier::opaque]
pub open spec fn line_spec(es: Seq<(String, Json)>) -> Result<LineV, DecodeError> {
    match num_field(es, "x1"@) {
        Err(e) => Err(e),
        Ok(x1) => {
            match num_field(es, "y1"@) {
                Err(e) => Err(e),
                Ok(y1) => {
                    match num_field(es, "x2"@) {
                        Err(e) => Err(e),
                        Ok(x2) => {
                            match num_field(es, "y2"@) {
                                Err(e) => Err(e),
                                Ok(y2) => {
                                    match str_field(es, "layer"@) {
                                        Err(e) => Err(e),
                                        Ok(layer) => {
                                            match num_field(es, "w"@) {
                                                Err(e) => Err(e),
                                                Ok(w) => {
                                                    Ok(LineV { x1, y1, x2, y2, layer, w })
                                                },
                                            }
                                        },
                                    }
                                },
                            }
                        },
                    }
                },
            }
        },
    }
}

fn decode_line(es: &Vec<(String, Json)>) -> (r: Result<Line, DecodeError>)
    ensures
        match r {
            Ok(v) => line_spec(es@) == Ok::<LineV, DecodeError>(v@),
            Err(e) => line_spec(es@) == Err::<LineV, DecodeError>(e),
        },
{
    proof {
        reveal(line_spec);
    }
    let x1 = match get_num(es, "x1") {
        Ok(v) => v,
        Err(e) => {
            return Err(e);
        },
    };
    let y1 = match get_num(es, "y1") {
        Ok(v) => v,
        Err(e) => {
            return Err(e);
        },
    };
    let x2 = match get_num(es, "x2") {
        Ok(v) => v,
        Err(e) => {
            return Err(e);
        },
    };
    let y2 = match get_num(es, "y2") {
        Ok(v) => v,
        Err(e) => {
            return Err(e);
        },
    };
    let layer = match get_str(es, "layer") {
        Ok(v) => v,
        Err(e) => {
            return Err(e);
        },
    };
    let w = match get_num(es, "w") {
        Ok(v) => v,
        Err(e) => {
            return Err(e);
        },
    };
    Ok(Line { x1, y1, x2, y2, layer, w })
}

/// The fields of a `Rect` record, read in the order listed; the first
/// field that is missing or of the wrong kind gives the error.
#[verifier::opaque]
pub open spec fn rect_spec(es: Seq<(String, Json)>) -> Result<RectV, DecodeError> {
    match num_field(es, "x"@) {
        Err(e) => Err(e),
        Ok(x) => {
            match num_field(es, "y"@) {
                Err(e) => Err(e),
                Ok(y) => {
                    match num_field(es, "dx"@) {
                        Err(e) => Err(e),
                        Ok(dx) => {
                            match num_field(es, "dy"@) {
                                Err(e) => Err(e),
                                Ok(dy) => {
                                    match str_field(es, "layer"@) {
                                        Err(e) => Err(e),
                                        Ok(layer) => {
                                            match num_field(es, "w"@) {
                                                Err(e) => Err(e),
                                                Ok(w) => {
                                                    Ok(RectV { x, y, dx, dy, layer, w })
                                                },
                                            }
                                        },
                                    }
                                },
                            }
                        },
                    }
                },
            }
        },
    }
}

fn decode_rect(es: &Vec<(String, Json)>) -> (r: Result<Rect, DecodeError>)
    ensures
        match r {
            Ok(v) => rect_spec(es@) == Ok::<RectV, DecodeError>(v@),
            Err(e) => rect_spec(es@) == Err::<RectV, DecodeError>(e),
        },
{
    proof {
        reveal(rect_spec);
    }
    let x = match get_num(es, "x") {
        Ok(v) => v,
        Err(e) => {
            return Err(e);
        },
    };
    let y = match get_num(es, "y") {
        Ok(v) => v,
        Err(e) => {
            return Err(e);
        },
    };
    let dx = match get_num(es, "dx") {
        Ok(v) => v,
        Err(e) => {
            return Err(e);
        },
    };
    let dy = match get_num(es, "dy") {
        Ok(v) => v,
        Err(e) => {
            return Err(e);
        },
    };
    let layer = match get_str(es, "layer") {
        Ok(v) => v,
        Err(e) => {
            return Err(e);
        },
    };
    let w = match get_num(es, "w") {
        Ok(v) => v,
        Err(e) => {
            return Err(e);
        },
    };
    Ok(Rect { x, y, dx, dy, layer, w })
}
/// What a record decodes to: it must be an object with a string `"type"`
/// naming a known kind, and that kind's fields.
pub open spec fn decode_spec(j: Json) -> Result<ElementV, DecodeError> {
    match j {
        Json::Object(es) => match str_field(es@, "type"@) {
            Err(e) => Err(e),
            Ok(tag) => decode_kind(es@, tag),
        },
        _ => Err(DecodeError::Malformed),
    }
}

pub open spec fn decode_kind(es: Seq<(String, Json)>, tag: Seq<char>) -> Result<
    ElementV,
    DecodeError,
> {
    if tag == "Text"@ {
        match text_spec(es) {
            Ok(t) => Ok(ElementV::Text(t)),
            Err(e) => Err(e),
        }
    } else if tag == "Name"@ {
        match text_spec(es) {
            Ok(t) => Ok(ElementV::Name(t)),
            Err(e) => Err(e),
        }
    } else if tag == "Reference"@ {
        match text_spec(es) {
            Ok(t) => Ok(ElementV::Reference(t)),
            Err(e) => Err(e),
        }
    } else if tag == "Pad"@ {
        match pad_spec(es) {
            Ok(p) => Ok(ElementV::Pad(p)),
            Err(e) => Err(e),
        }
    } else if tag == "Smd"@ {
        match smd_spec(es) {
            Ok(p) => Ok(ElementV::Smd(p)),
            Err(e) => Err(e),
        }
    } else if tag == "Line"@ {
        match line_spec(es) {
            Ok(l) => Ok(ElementV::Line(l)),
            Err(e) => Err(e),
        }
    } else if tag == "Rect"@ {
        match rect_spec(es) {
            Ok(r) => Ok(ElementV::Rect(r)),
            Err(e) => Err(e),
        }
    } else if tag == "PythonError"@ {
        match str_field(es, "message"@) {
            Ok(m) => Ok(ElementV::PythonError(m)),
            Err(e) => Err(e),
        }
    } else {
        Err(DecodeError::Malformed)
    }
}

/// A record whose kind is none of the known ones is malformed, whatever its
/// other fields hold.
pub proof fn lemma_unknown_kind_malformed(es: Seq<(String, Json)>, tag: Seq<char>)
    requires
        tag != "Text"@,
        tag != "Name"@,
        tag != "Reference"@,
        tag != "Pad"@,
        tag != "Smd"@,
        tag != "Line"@,
        tag != "Rect"@,
        tag != "PythonError"@,
    ensures
        decode_kind(es, tag) == Err::<ElementV, DecodeError>(DecodeError::Malformed),
{
}

/// Decodes one structured record.
pub fn decode(j: &Json) -> (r: Result<Element, DecodeError>)
    ensures
        match r {
            Ok(e) => decode_spec(*j) == Ok::<ElementV, DecodeError>(e@),
            Err(e) => decode_spec(*j) == Err::<ElementV, DecodeError>(e),
        },
{
    let es = match j {
        Json::Object(es) => es,
        _ => {
            return Err(DecodeError::Malformed);
        },
    };
    let tag = match get_str(es, "type") {
        Ok(t) => t,
        Err(e) => {
            return Err(e);
        },
    };
    decode_fields(es, tag.as_str())
}

fn decode_fields(es: &Vec<(String, Json)>, tag: &str) -> (r: Result<Element, DecodeError>)
    ensures
        match r {
            Ok(e) => decode_kind(es@, tag@) == Ok::<ElementV, DecodeError>(e@),
            Err(e) => decode_kind(es@, tag@) == Err::<ElementV, DecodeError>(e),
        },
{
    if str_eq(tag, "Text") {
        match decode_text(es) {
            Ok(t) => Ok(Element::Text(t)),
            Err(e) => Err(e),
        }
    } else if str_eq(tag, "Name") {
        match decode_text(es) {
            Ok(t) => Ok(Element::Name(t)),
            Err(e) => Err(e),
        }
    } else if str_eq(tag, "Reference") {
        match decode_text(es) {
            Ok(t) => Ok(Element::Reference(t)),
            Err(e) => Err(e),
        }
    } else if str_eq(tag, "Pad") {
        match decode_pad(es) {
            Ok(p) => Ok(Element::Pad(p)),
            Err(e) => Err(e),
        }
    } else if str_eq(tag, "Smd") {
        match decode_smd(es) {
            Ok(p) => Ok(Element::Smd(p)),
            Err(e) => Err(e),
        }
    } else if str_eq(tag, "Line") {
        match decode_line(es) {
            Ok(l) => Ok(Element::Line(l)),
            Err(e) => Err(e),
        }
    } else if str_eq(tag, "Rect") {
        match decode_rect(es) {
            Ok(r) => Ok(Element::Rect(r)),
            Err(e) => Err(e),
        }
    } else if str_eq(tag, "PythonError") {
        match get_str(es, "message") {
            Ok(m) => Ok(Element::PythonError(PythonError { message: m })),
            Err(e) => Err(e),
        }
    } else {
        Err(DecodeError::Malformed)
    }
}

/// What a record's text decodes to: text that is not JSON is malformed.
pub open spec fn decode_text_spec(text: Seq<char>) -> Result<ElementV, DecodeError> {
    match json_parse(text) {
        None => Err(DecodeError::Malformed),
        Some(j) => decode_spec(j),
    }
}

/// Decodes one record given as JSON text.
pub fn decode_record(text: &str) -> (r: Result<Element, DecodeError>)
    ensures
        match r {
            Ok(e) => decode_text_spec(text@) == Ok::<ElementV, DecodeError>(e@),
            Err(e) => decode_text_spec(text@) == Err::<ElementV, DecodeError>(e),
        },
{
    match parse_json(text) {
        None => Err(DecodeError::Malformed),
        Some(j) => decode(&j),
    }
}

} // verus!
