//! The footprint aggregate and its file format.
use vstd::prelude::*;
use crate::decimal::{fixed_text, hex_text, mm_text, push_fixed, push_mm, push_word_hex, word_of};
use crate::element::{
    elements_view, names_view, Element, ElementV, Line, LineV, Pad, PadV, Rect, RectV, Shape, Smd,
    SmdV, Text, TextV,
};

verus! {

/// Everything a footprint file is made of, gathered from a sequence of
/// elements. It can be written out only once it has a name and a reference.
pub struct Footprint {
    pub name: Option<Text>,
    pub reference: Option<Text>,
    pub desc: String,
    pub tags: String,
    pub pad: Vec<Pad>,
    pub smd: Vec<Smd>,
    pub lines: Vec<Line>,
    pub rects: Vec<Rect>,
}

pub struct FootprintV {
    pub name: Option<TextV>,
    pub reference: Option<TextV>,
    pub desc: Seq<char>,
    pub tags: Seq<char>,
    pub pad: Seq<PadV>,
    pub smd: Seq<SmdV>,
    pub lines: Seq<LineV>,
    pub rects: Seq<RectV>,
}

pub open spec fn text_opt_view(t: Option<Text>) -> Option<TextV> {
    match t {
        Some(t) => Some(t@),
        None => None,
    }
}

impl View for Footprint {
    type V = FootprintV;

    open spec fn view(&self) -> FootprintV {
        FootprintV {
            name: text_opt_view(self.name),
            reference: text_opt_view(self.reference),
            desc: self.desc@,
            tags: self.tags@,
            pad: self.pad@.map_values(|p: Pad| p@),
            smd: self.smd@.map_values(|p: Smd| p@),
            lines: self.lines@.map_values(|l: Line| l@),
            rects: self.rects@.map_values(|r: Rect| r@),
        }
    }
}

/// Which mandatory part a footprint lacks.
#[derive(Clone, Copy, Debug, PartialEq, Eq, Structural)]
pub enum MissingField {
    Name,
    Reference,
}

pub open spec fn empty_footprint() -> FootprintV {
    FootprintV {
        name: None,
        reference: None,
        desc: Seq::empty(),
        tags: Seq::empty(),
        pad: Seq::empty(),
        smd: Seq::empty(),
        lines: Seq::empty(),
        rects: Seq::empty(),
    }
}

/// What one element adds to a footprint: geometry is appended to its list,
/// a name or a reference replaces the one before it; plain text and error
/// markers add nothing.
pub open spec fn apply_spec(f: FootprintV, e: ElementV) -> FootprintV {
    match e {
        ElementV::Pad(p) => FootprintV { pad: f.pad.push(p), ..f },
        ElementV::Smd(p) => FootprintV { smd: f.smd.push(p), ..f },
        ElementV::Line(l) => FootprintV { lines: f.lines.push(l), ..f },
        ElementV::Rect(r) => FootprintV { rects: f.rects.push(r), ..f },
        ElementV::Name(t) => FootprintV { name: Some(t), ..f },
        ElementV::Reference(t) => FootprintV { reference: Some(t), ..f },
        ElementV::Text(_) => f,
        ElementV::PythonError(_) => f,
    }
}

/// The footprint that a sequence of elements folds into, in order.
pub open spec fn aggregate(es: Seq<ElementV>) -> FootprintV
    decreases es.len(),
{
    if es.len() == 0 {
        empty_footprint()
    } else {
        apply_spec(aggregate(es.drop_last()), es.last())
    }
}

fn clone_names(v: &Vec<String>) -> (r: Vec<String>)
    ensures
        names_view(r@) == names_view(v@),
{
    let mut r: Vec<String> = Vec::new();
    let mut i: usize = 0;
    while i < v.len()
        invariant
            i <= v@.len(),
            names_view(r@) == names_view(v@.take(i as int)),
        decreases v@.len() - i,
    {
        let c = v[i].clone();
        let ghost before = r@;
        r.push(c);
        proof {
            assert(v@.take(i + 1) =~= v@.take(i as int).push(v@[i as int]));
            assert(r@ =~= before.push(c));
            assert(names_view(before.push(c)) =~= names_view(before).push(c@));
            assert(names_view(v@.take(i as int).push(v@[i as int])) =~= names_view(
                v@.take(i as int),
            ).push(v@[i as int]@));
        }
        i = i + 1;
    }
    assert(v@.take(i as int) =~= v@);
    r
}

fn clone_text(t: &Text) -> (r: Text)
    ensures
        r@ == t@,
{
    Text {
        x: t.x,
        y: t.y,
        layer: t.layer.clone(),
        dy: t.dy,
        thickness: t.thickness,
        txt: t.txt.clone(),
    }
}

impl Element {
    /// Adds this element's contribution to `f`.
    pub fn apply_footprint(&self, f: &mut Footprint)
        ensures
            final(f)@ == apply_spec(old(f)@, self@),
    {
        match self {
            Element::Pad(p) => {
                f.pad.push(
                    Pad {
                        name: p.name.clone(),
                        x: p.x,
                        y: p.y,
                        dx: p.dx,
                        dy: p.dy,
                        drill: p.drill,
                        plated: p.plated,
                        layers: clone_names(&p.layers),
                    },
                );
                assert(final(f)@.pad =~= old(f)@.pad.push(p@));
            },
            Element::Smd(p) => {
                f.smd.push(
                    Smd {
                        name: p.name.clone(),
                        x: p.x,
                        y: p.y,
                        dx: p.dx,
                        dy: p.dy,
                        shape: p.shape,
                        layers: clone_names(&p.layers),
                    },
                );
                assert(final(f)@.smd =~= old(f)@.smd.push(p@));
            },
            Element::Line(l) => {
                f.lines.push(
                    Line {
                        x1: l.x1,
                        y1: l.y1,
                        x2: l.x2,
                        y2: l.y2,
                        layer: l.layer.clone(),
                        w: l.w,
                    },
                );
                assert(final(f)@.lines =~= old(f)@.lines.push(l@));
            },
            Element::Rect(r) => {
                f.rects.push(
                    Rect {
                        x: r.x,
                        y: r.y,
                        dx: r.dx,
                        dy: r.dy,
                        layer: r.layer.clone(),
                        w: r.w,
                    },
                );
                assert(final(f)@.rects =~= old(f)@.rects.push(r@));
            },
            Element::Name(t) => {
                f.name = Some(clone_text(t));
            },
            Element::Reference(t) => {
                f.reference = Some(clone_text(t));
            },
            Element::Text(_) => {},
            Element::PythonError(_) => {},
        }
    }
}

impl Footprint {
    /// A footprint with nothing in it.
    pub fn new() -> (r: Footprint)
        ensures
            r@ == empty_footprint(),
    {
        let r = Footprint {
            name: None,
            reference: None,
            desc: String::new(),
            tags: String::new(),
            pad: Vec::new(),
            smd: Vec::new(),
            lines: Vec::new(),
            rects: Vec::new(),
        };
        assert(r@.pad =~= Seq::empty());
        assert(r@.smd =~= Seq::empty());
        assert(r@.lines =~= Seq::empty());
        assert(r@.rects =~= Seq::empty());
        r
    }
}

/// Folds `elements`, in order, into a footprint.
pub fn to_footprint(elements: &Vec<Element>) -> (r: Footprint)
    ensures
        r@ == aggregate(elements_view(elements@)),
{
    let mut f = Footprint::new();
    let mut i: usize = 0;
    while i < elements.len()
        invariant
            i <= elements@.len(),
            f@ == aggregate(elements_view(elements@.take(i as int))),
        decreases elements@.len() - i,
    {
        elements[i].apply_footprint(&mut f);
        proof {
            let es = elements_view(elements@.take(i + 1));
            assert(es.drop_last() =~= elements_view(elements@.take(i as int)));
            assert(es.last() == elements@[i as int]@);
        }
        i = i + 1;
    }
    assert(elements@.take(i as int) =~= elements@);
    f
}

// ---- the file format ----
pub open spec fn sp() -> Seq<char> {
    " "@
}

/// The font block of a text: size twice (width equals height), then stroke.
#[verifier::opaque]
pub open spec fn effects_text(t: TextV) -> Seq<char> {
    "    (effects (font (size "@ + mm_text(t.dy) + sp() + mm_text(t.dy) + ") (thickness "@
        + mm_text(t.thickness) + ")))"@
}

#[verifier::opaque]
pub open spec fn header_text(name: TextV, ts: i64) -> Seq<char> {
    "(module "@ + name.txt + " (layer F.Cu) (tedit "@ + hex_text(word_of(ts as int)) + ")\n"@
        + "  (tags \"\")\n"@ + "  (attr smd)\n"@
}

#[verifier::opaque]
pub open spec fn reference_text(r: TextV) -> Seq<char> {
    "  (fp_text reference REF** (at "@ + mm_text(r.x) + sp() + mm_text(r.y) + ") (layer "@
        + r.layer + ")\n"@ + effects_text(r) + "  )\n"@
}

#[verifier::opaque]
pub open spec fn value_text(n: TextV) -> Seq<char> {
    "  (fp_text value "@ + n.txt + " (at "@ + mm_text(n.x) + sp() + mm_text(n.y) + ") (layer "@
        + n.layer + ")\n"@ + effects_text(n) + "\n"@ + "  )\n"@
}

#[verifier::opaque]
pub open spec fn user_text() -> Seq<char> {
    "  (fp_text user %R (at 0 0) (layer F.Fab)\n"@
        + "    (effects (font (size 0.8 0.8) (thickness 0.1)))\n"@ + "  )\n"@
}

#[verifier::opaque]
pub open spec fn line_text(l: LineV) -> Seq<char> {
    "  (fp_line (start "@ + mm_text(l.x1) + sp() + mm_text(l.y1) + ") (end "@ + mm_text(l.x2)
        + sp() + mm_text(l.y2) + ") (layer "@ + l.layer + ") (width "@ + mm_text(l.w) + "))\n"@
}

/// Layer names separated by single spaces, in the order given.
pub open spec fn layers_text(ls: Seq<Seq<char>>) -> Seq<char>
    decreases ls.len(),
{
    if ls.len() == 0 {
        Seq::empty()
    } else if ls.len() == 1 {
        ls[0]
    } else {
        layers_text(ls.drop_last()) + sp() + ls.last()
    }
}

pub open spec fn shape_text(s: Shape) -> Seq<char> {
    match s {
        Shape::Rect => "rect"@,
        Shape::Circle => "circle"@,
        Shape::Oval => "oval"@,
        Shape::RoundRect => "roundrect"@,
        Shape::Trapezoid => "trapezoid"@,
    }
}

/// Position and size of a pad.
#[verifier::opaque]
pub open spec fn at_size_text(x: int, y: int, dx: int, dy: int) -> Seq<char> {
    " (at "@ + mm_text(x) + sp() + mm_text(y) + ") (size "@ + mm_text(dx) + sp() + mm_text(dy)
        + ")"@
}

#[verifier::opaque]
pub open spec fn layers_tail_text(ls: Seq<Seq<char>>) -> Seq<char> {
    " (layers "@ + layers_text(ls) + "))\n"@
}

#[verifier::opaque]
pub open spec fn smd_text(p: SmdV) -> Seq<char> {
    "  (pad "@ + p.name + " smd "@ + shape_text(p.shape) + at_size_text(p.x, p.y, p.dx, p.dy)
        + layers_tail_text(p.layers)
}

pub open spec fn pad_kind_text(plated: bool) -> Seq<char> {
    if plated {
        "thru_hole"@
    } else {
        "np_thru_hole"@
    }
}

/// A through-hole pad is always drawn round, with its drill.
#[verifier::opaque]
pub open spec fn pad_text(p: PadV) -> Seq<char> {
    "  (pad "@ + p.name + sp() + pad_kind_text(p.plated) + " circle"@ + at_size_text(
        p.x,
        p.y,
        p.dx,
        p.dy,
    ) + " (drill "@ + mm_text(p.drill) + ")"@ + layers_tail_text(p.layers)
}

/// A corner of a rectangle: `x + sx * dx / 2`, in tenths of a nanometre.
pub open spec fn corner(x: int, dx: int, sx: int) -> int {
    5 * (2 * x + sx * dx)
}

/// One polygon point, given in tenths of a nanometre.
#[verifier::opaque]
pub open spec fn xy_text(x: int, y: int) -> Seq<char> {
    "(xy "@ + fixed_text(x, 7) + sp() + fixed_text(y, 7) + ")"@
}

/// A rectangle as a closed polygon: its four corners and the first again.
#[verifier::opaque]
pub open spec fn rect_text(r: RectV) -> Seq<char> {
    "  (fp_poly (pts "@ + xy_text(corner(r.x, r.dx, -1), corner(r.y, r.dy, -1)) + xy_text(
        corner(r.x, r.dx, 1),
        corner(r.y, r.dy, -1),
    ) + xy_text(corner(r.x, r.dx, 1), corner(r.y, r.dy, 1)) + xy_text(
        corner(r.x, r.dx, -1),
        corner(r.y, r.dy, 1),
    ) + xy_text(corner(r.x, r.dx, -1), corner(r.y, r.dy, -1)) + ") (layer "@ + r.layer
        + ") (width "@ + mm_text(r.w) + "))\n"@
}

pub open spec fn lines_text(ls: Seq<LineV>) -> Seq<char>
    decreases ls.len(),
{
    if ls.len() == 0 {
        Seq::empty()
    } else {
        lines_text(ls.drop_last()) + line_text(ls.last())
    }
}

pub open spec fn smds_text(ps: Seq<SmdV>) -> Seq<char>
    decreases ps.len(),
{
    if ps.len() == 0 {
        Seq::empty()
    } else {
        smds_text(ps.drop_last()) + smd_text(ps.last())
    }
}

pub open spec fn pads_text(ps: Seq<PadV>) -> Seq<char>
    decreases ps.len(),
{
    if ps.len() == 0 {
        Seq::empty()
    } else {
        pads_text(ps.drop_last()) + pad_text(ps.last())
    }
}

pub open spec fn rects_text(rs: Seq<RectV>) -> Seq<char>
    decreases rs.len(),
{
    if rs.len() == 0 {
        Seq::empty()
    } else {
        rects_text(rs.drop_last()) + rect_text(rs.last())
    }
}

/// The whole file for a footprint that has a name and a reference, stamped
/// with `ts`: header, reference, value and user text, then lines, surface
/// pads, through-hole pads and polygons, then the closing parenthesis.
pub open spec fn module_text(f: FootprintV, ts: i64) -> Seq<char>
    recommends
        f.name is Some,
        f.reference is Some,
{
    let name = f.name->Some_0;
    let reference = f.reference->Some_0;
    header_text(name, ts) + reference_text(reference) + value_text(name) + user_text()
        + lines_text(f.lines) + smds_text(f.smd) + pads_text(f.pad) + rects_text(f.rects)
        + ")\n"@
}

/// The first mandatory part that a footprint lacks, if any.
pub open spec fn missing_field(f: FootprintV) -> Option<MissingField> {
    if f.name is None {
        Some(MissingField::Name)
    } else if f.reference is None {
        Some(MissingField::Reference)
    } else {
        None
    }
}

/// What writing a footprint gives: the file, or the first missing part.
pub open spec fn serialized(f: FootprintV, ts: i64) -> Result<Seq<char>, MissingField> {
    match missing_field(f) {
        Some(m) => Err(m),
        None => Ok(module_text(f, ts)),
    }
}

fn push_effects(out: &mut String, t: &Text)
    ensures
        final(out)@ == old(out)@ + effects_text(t@),
{
    proof {
        reveal(effects_text);
    }
    out.append("    (effects (font (size ");
    push_mm(out, t.dy);
    out.append(" ");
    push_mm(out, t.dy);
    out.append(") (thickness ");
    push_mm(out, t.thickness);
    out.append(")))");
    assert(final(out)@ =~= old(out)@ + effects_text(t@));
}

fn push_layers(out: &mut String, ls: &Vec<String>)
    ensures
        final(out)@ == old(out)@ + layers_text(names_view(ls@)),
{
    let mut i: usize = 0;
    while i < ls.len()
        invariant
            i <= ls@.len(),
            out@ == old(out)@ + layers_text(names_view(ls@.take(i as int))),
        decreases ls@.len() - i,
    {
        let ghost before = out@;
        if i > 0 {
            out.append(" ");
        }
        out.append(ls[i].as_str());
        proof {
            let next = names_view(ls@.take(i + 1));
            assert(next.drop_last() =~= names_view(ls@.take(i as int)));
            assert(next.last() == ls@[i as int]@);
            if i == 0 {
                assert(next.len() == 1);
            }
            assert(out@ =~= old(out)@ + layers_text(next));
        }
        i = i + 1;
    }
    assert(ls@.take(i as int) =~= ls@);
}

fn push_shape(out: &mut String, s: Shape)
    ensures
        final(out)@ == old(out)@ + shape_text(s),
{
    match s {
        Shape::Rect => out.append("rect"),
        Shape::Circle => out.append("circle"),
        Shape::Oval => out.append("oval"),
        Shape::RoundRect => out.append("roundrect"),
        Shape::Trapezoid => out.append("trapezoid"),
    }
}

fn push_line(out: &mut String, l: &Line)
    ensures
        final(out)@ == old(out)@ + line_text(l@),
{
    proof {
        reveal(line_text);
    }
    out.append("  (fp_line (start ");
    push_mm(out, l.x1);
    out.append(" ");
    push_mm(out, l.y1);
    out.append(") (end ");
    push_mm(out, l.x2);
    out.append(" ");
    push_mm(out, l.y2);
    out.append(") (layer ");
    out.append(l.layer.as_str());
    out.append(") (width ");
    push_mm(out, l.w);
    out.append("))\n");
    assert(final(out)@ =~= old(out)@ + line_text(l@));
}

fn push_at_size(out: &mut String, x: i64, y: i64, dx: i64, dy: i64)
    ensures
        final(out)@ == old(out)@ + at_size_text(x as int, y as int, dx as int, dy as int),
{
    proof {
        reveal(at_size_text);
    }
    out.append(" (at ");
    push_mm(out, x);
    out.append(" ");
    push_mm(out, y);
    out.append(") (size ");
    push_mm(out, dx);
    out.append(" ");
    push_mm(out, dy);
    out.append(")");
    assert(final(out)@ =~= old(out)@ + at_size_text(x as int, y as int, dx as int, dy as int));
}

fn push_layers_tail(out: &mut String, ls: &Vec<String>)
    ensures
        final(out)@ == old(out)@ + layers_tail_text(names_view(ls@)),
{
    proof {
        reveal(layers_tail_text);
    }
    out.append(" (layers ");
    push_layers(out, ls);
    out.append("))\n");
    assert(final(out)@ =~= old(out)@ + layers_tail_text(names_view(ls@)));
}

fn push_smd(out: &mut String, p: &Smd)
    ensures
        final(out)@ == old(out)@ + smd_text(p@),
{
    proof {
        reveal(smd_text);
    }
    out.append("  (pad ");
    out.append(p.name.as_str());
    out.append(" smd ");
    push_shape(out, p.shape);
    push_at_size(out, p.x, p.y, p.dx, p.dy);
    push_layers_tail(out, &p.layers);
    assert(final(out)@ =~= old(out)@ + smd_text(p@));
}

fn push_pad(out: &mut String, p: &Pad)
    ensures
        final(out)@ == old(out)@ + pad_text(p@),
{
    proof {
        reveal(pad_text);
    }
    out.append("  (pad ");
    out.append(p.name.as_str());
    out.append(" ");
    if p.plated {
        out.append("thru_hole");
    } else {
        out.append("np_thru_hole");
    }
    out.append(" circle");
    push_at_size(out, p.x, p.y, p.dx, p.dy);
    out.append(" (drill ");
    push_mm(out, p.drill);
    out.append(")");
    push_layers_tail(out, &p.layers);
    assert(final(out)@ =~= old(out)@ + pad_text(p@));
}

fn corner_exec(x: i64, dx: i64, sx: i64) -> (r: i128)
    requires
        sx == 1 || sx == -1,
    ensures
        r == corner(x as int, dx as int, sx as int),
        -0x1_0000_0000_0000_0000_0000 < r < 0x1_0000_0000_0000_0000_0000,
{
    let twice = 2 * (x as i128);
    if sx == 1 {
        5 * (twice + dx as i128)
    } else {
        5 * (twice - dx as i128)
    }
}

fn push_xy(out: &mut String, x: i128, y: i128)
    requires
        -0x1_0000_0000_0000_0000_0000 < x < 0x1_0000_0000_0000_0000_0000,
        -0x1_0000_0000_0000_0000_0000 < y < 0x1_0000_0000_0000_0000_0000,
    ensures
        final(out)@ == old(out)@ + xy_text(x as int, y as int),
{
    proof {
        reveal(xy_text);
    }
    out.append("(xy ");
    push_fixed(out, x, 7);
    out.append(" ");
    push_fixed(out, y, 7);
    out.append(")");
    assert(final(out)@ =~= old(out)@ + xy_text(x as int, y as int));
}

fn push_rect(out: &mut String, r: &Rect)
    ensures
        final(out)@ == old(out)@ + rect_text(r@),
{
    proof {
        reveal(rect_text);
    }
    let left = corner_exec(r.x, r.dx, -1);
    let right = corner_exec(r.x, r.dx, 1);
    let top = corner_exec(r.y, r.dy, -1);
    let bottom = corner_exec(r.y, r.dy, 1);
    out.append("  (fp_poly (pts ");
    push_xy(out, left, top);
    push_xy(out, right, top);
    push_xy(out, right, bottom);
    push_xy(out, left, bottom);
    push_xy(out, left, top);
    out.append(") (layer ");
    out.append(r.layer.as_str());
    out.append(") (width ");
    push_mm(out, r.w);
    out.append("))\n");
    assert(final(out)@ =~= old(out)@ + rect_text(r@));
}

fn push_header(out: &mut String, name: &Text, ts: i64)
    ensures
        final(out)@ == old(out)@ + header_text(name@, ts),
{
    proof {
        reveal(header_text);
    }
    out.append("(module ");
    out.append(name.txt.as_str());
    out.append(" (layer F.Cu) (tedit ");
    push_word_hex(out, ts);
    out.append(")\n");
    out.append("  (tags \"\")\n");
    out.append("  (attr smd)\n");
    assert(final(out)@ =~= old(out)@ + header_text(name@, ts));
}

fn push_reference(out: &mut String, reference: &Text)
    ensures
        final(out)@ == old(out)@ + reference_text(reference@),
{
    proof {
        reveal(reference_text);
    }
    out.append("  (fp_text reference REF** (at ");
    push_mm(out, reference.x);
    out.append(" ");
    push_mm(out, reference.y);
    out.append(") (layer ");
    out.append(reference.layer.as_str());
    out.append(")\n");
    push_effects(out, reference);
    out.append("  )\n");
    assert(final(out)@ =~= old(out)@ + reference_text(reference@));
}

fn push_value(out: &mut String, name: &Text)
    ensures
        final(out)@ == old(out)@ + value_text(name@),
{
    proof {
        reveal(value_text);
    }
    out.append("  (fp_text value ");
    out.append(name.txt.as_str());
    out.append(" (at ");
    push_mm(out, name.x);
    out.append(" ");
    push_mm(out, name.y);
    out.append(") (layer ");
    out.append(name.layer.as_str());
    out.append(")\n");
    push_effects(out, name);
    out.append("\n");
    out.append("  )\n");
    assert(final(out)@ =~= old(out)@ + value_text(name@));
}

fn push_user(out: &mut String)
    ensures
        final(out)@ == old(out)@ + user_text(),
{
    proof {
        reveal(user_text);
    }
    out.append("  (fp_text user %R (at 0 0) (layer F.Fab)\n");
    out.append("    (effects (font (size 0.8 0.8) (thickness 0.1)))\n");
    out.append("  )\n");
    assert(final(out)@ =~= old(out)@ + user_text());
}

fn push_lines(out: &mut String, ls: &Vec<Line>)
    ensures
        final(out)@ == old(out)@ + lines_text(ls@.map_values(|l: Line| l@)),
{
    let mut i: usize = 0;
    while i < ls.len()
        invariant
            i <= ls@.len(),
            out@ == old(out)@ + lines_text(ls@.take(i as int).map_values(|l: Line| l@)),
        decreases ls@.len() - i,
    {
        push_line(out, &ls[i]);
        proof {
            let next = ls@.take(i + 1).map_values(|l: Line| l@);
            assert(next.drop_last() =~= ls@.take(i as int).map_values(|l: Line| l@));
            assert(out@ =~= old(out)@ + lines_text(next));
        }
        i = i + 1;
    }
    assert(ls@.take(i as int) =~= ls@);
}

fn push_smds(out: &mut String, ps: &Vec<Smd>)
    ensures
        final(out)@ == old(out)@ + smds_text(ps@.map_values(|p: Smd| p@)),
{
    let mut i: usize = 0;
    while i < ps.len()
        invariant
            i <= ps@.len(),
            out@ == old(out)@ + smds_text(ps@.take(i as int).map_values(|p: Smd| p@)),
        decreases ps@.len() - i,
    {
        push_smd(out, &ps[i]);
        proof {
            let next = ps@.take(i + 1).map_values(|p: Smd| p@);
            assert(next.drop_last() =~= ps@.take(i as int).map_values(|p: Smd| p@));
            assert(out@ =~= old(out)@ + smds_text(next));
        }
        i = i + 1;
    }
    assert(ps@.take(i as int) =~= ps@);
}

fn push_pads(out: &mut String, ps: &Vec<Pad>)
    ensures
        final(out)@ == old(out)@ + pads_text(ps@.map_values(|p: Pad| p@)),
{
    let mut i: usize = 0;
    while i < ps.len()
        invariant
            i <= ps@.len(),
            out@ == old(out)@ + pads_text(ps@.take(i as int).map_values(|p: Pad| p@)),
        decreases ps@.len() - i,
    {
        push_pad(out, &ps[i]);
        proof {
            let next = ps@.take(i + 1).map_values(|p: Pad| p@);
            assert(next.drop_last() =~= ps@.take(i as int).map_values(|p: Pad| p@));
            assert(out@ =~= old(out)@ + pads_text(next));
        }
        i = i + 1;
    }
    assert(ps@.take(i as int) =~= ps@);
}

fn push_rects(out: &mut String, rs: &Vec<Rect>)
    ensures
        final(out)@ == old(out)@ + rects_text(rs@.map_values(|r: Rect| r@)),
{
    let mut i: usize = 0;
    while i < rs.len()
        invariant
            i <= rs@.len(),
            out@ == old(out)@ + rects_text(rs@.take(i as int).map_values(|r: Rect| r@)),
        decreases rs@.len() - i,
    {
        push_rect(out, &rs[i]);
        proof {
            let next = rs@.take(i + 1).map_values(|r: Rect| r@);
            assert(next.drop_last() =~= rs@.take(i as int).map_values(|r: Rect| r@));
            assert(out@ =~= old(out)@ + rects_text(next));
        }
        i = i + 1;
    }
    assert(rs@.take(i as int) =~= rs@);
}

/// Writes `f` in the footprint file format, stamped with `ts`, after what
/// `out` holds. A footprint without a name or a reference writes nothing.
pub fn serialize(f: &Footprint, ts: i64, out: &mut String) -> (r: Result<(), MissingField>)
    ensures
        match serialized(f@, ts) {
            Ok(text) => r is Ok && final(out)@ == old(out)@ + text,
            Err(e) => r == Err::<(), MissingField>(e) && final(out)@ == old(out)@,
        },
{
    let name = match &f.name {
        Some(n) => n,
        None => {
            return Err(MissingField::Name);
        },
    };
    let reference = match &f.reference {
        Some(r) => r,
        None => {
            return Err(MissingField::Reference);
        },
    };
    let ghost s0 = out@;
    push_header(out, name, ts);
    push_reference(out, reference);
    push_value(out, name);
    push_user(out);
    let ghost s1 = out@;
    assert(s1 =~= s0 + (header_text(name@, ts) + reference_text(reference@) + value_text(name@)
        + user_text()));
    push_lines(out, &f.lines);
    push_smds(out, &f.smd);
    let ghost s2 = out@;
    assert(s2 =~= s1 + (lines_text(f@.lines) + smds_text(f@.smd)));
    push_pads(out, &f.pad);
    push_rects(out, &f.rects);
    out.append(")\n");
    assert(out@ =~= s2 + (pads_text(f@.pad) + rects_text(f@.rects) + ")\n"@));
    assert(out@ =~= s0 + module_text(f@, ts));
    Ok(())
}

proof fn lemma_name_present(es: Seq<ElementV>)
    ensures
        aggregate(es).name is Some <==> exists|i: int| 0 <= i < es.len() && #[trigger] es[i] is Name,
        aggregate(es).reference is Some <==> exists|i: int|
            0 <= i < es.len() && #[trigger] es[i] is Reference,
    decreases es.len(),
{
    if es.len() > 0 {
        let init = es.drop_last();
        lemma_name_present(init);
        if exists|i: int| 0 <= i < init.len() && #[trigger] init[i] is Name {
            let i = choose|i: int| 0 <= i < init.len() && #[trigger] init[i] is Name;
            assert(es[i] is Name);
        }
        if exists|i: int| 0 <= i < es.len() && #[trigger] es[i] is Name {
            let i = choose|i: int| 0 <= i < es.len() && #[trigger] es[i] is Name;
            if i < es.len() - 1 {
                assert(init[i] is Name);
            }
        }
        if exists|i: int| 0 <= i < init.len() && #[trigger] init[i] is Reference {
            let i = choose|i: int| 0 <= i < init.len() && #[trigger] init[i] is Reference;
            assert(es[i] is Reference);
        }
        if exists|i: int| 0 <= i < es.len() && #[trigger] es[i] is Reference {
            let i = choose|i: int| 0 <= i < es.len() && #[trigger] es[i] is Reference;
            if i < es.len() - 1 {
                assert(init[i] is Reference);
            }
        }
    }
}

/// Elements without an error marker fold into a footprint that can be
/// written exactly when they hold at least one name and at least one
/// reference.
pub proof fn lemma_writable_iff_named(es: Seq<ElementV>, ts: i64)
    requires
        forall|i: int| 0 <= i < es.len() ==> !(#[trigger] es[i] is PythonError),
    ensures
        serialized(aggregate(es), ts) is Ok <==> (exists|i: int|
            0 <= i < es.len() && #[trigger] es[i] is Name) && (exists|i: int|
            0 <= i < es.len() && #[trigger] es[i] is Reference),
{
    lemma_name_present(es);
}

/// Writing is a function of the footprint and the stamp: writing the same
/// footprint twice with the same stamp gives the same text.
pub proof fn lemma_serialize_repeatable(f: FootprintV, g: FootprintV, ts: i64)
    requires
        f == g,
    ensures
        serialized(f, ts) == serialized(g, ts),
{
}

/// Relies on chrono::Local::now and DateTime::timestamp: the current time in
/// seconds since the epoch. Nothing is known of its value.
#[verifier::external_body]
fn now_timestamp() -> i64 {
    chrono::Local::now().timestamp()
}

/// Writes the footprint that `elements` fold into after what `out` holds,
/// stamped with the current time. Where it lacks a name or a reference,
/// nothing is written.
pub fn save(elements: &Vec<Element>, out: &mut String) -> (r: Result<(), MissingField>)
    ensures
        match missing_field(aggregate(elements_view(elements@))) {
            None => r is Ok && exists|ts: i64|
                final(out)@ == old(out)@ + module_text(aggregate(elements_view(elements@)), ts),
            Some(e) => r == Err::<(), MissingField>(e) && final(out)@ == old(out)@,
        },
{
    let footprint = to_footprint(elements);
    let ts = now_timestamp();
    serialize(&footprint, ts, out)
}

} // verus!
