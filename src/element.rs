use vstd::prelude::*;

verus! {

/// A text label placed at a point on a layer.
#[derive(Clone, Debug)]
pub struct Text {
    pub x: i64,
    pub y: i64,
    pub layer: String,
    /// Height of the glyphs.
    pub dy: i64,
    pub thickness: i64,
    pub txt: String,
}

/// Shapes a surface-mount pad can take.
#[derive(Clone, Copy, Debug, PartialEq, Eq, Structural)]
pub enum Shape {
    Rect,
    Circle,
    Oval,
    RoundRect,
    Trapezoid,
}

/// A through-hole pad; a pad that is not plated is a bare hole.
#[derive(Clone, Debug)]
pub struct Pad {
    pub name: String,
    pub x: i64,
    pub y: i64,
    pub dx: i64,
    pub dy: i64,
    pub drill: i64,
    pub plated: bool,
    pub layers: Vec<String>,
}

/// A surface-mount pad.
#[derive(Clone, Debug)]
pub struct Smd {
    pub name: String,
    pub x: i64,
    pub y: i64,
    pub dx: i64,
    pub dy: i64,
    pub shape: Shape,
    pub layers: Vec<String>,
}

/// A straight segment from `(x1, y1)` to `(x2, y2)` of width `w`.
#[derive(Clone, Debug)]
pub struct Line {
    pub x1: i64,
    pub y1: i64,
    pub x2: i64,
    pub y2: i64,
    pub layer: String,
    pub w: i64,
}

/// An axis-aligned filled rectangle given by its centre and its extents.
#[derive(Clone, Debug)]
pub struct Rect {
    pub x: i64,
    pub y: i64,
    pub dx: i64,
    pub dy: i64,
    pub layer: String,
    pub w: i64,
}

/// A failure reported by the generator instead of geometry.
#[derive(Clone, Debug)]
pub struct PythonError {
    pub message: String,
}

/// One decoded geometry item.
#[derive(Clone, Debug)]
pub enum Element {
    Text(Text),
    Pad(Pad),
    Smd(Smd),
    Line(Line),
    Rect(Rect),
    /// The component's value text.
    Name(Text),
    /// The component's reference-designator text.
    Reference(Text),
    PythonError(PythonError),
}

pub struct TextV {
    pub x: int,
    pub y: int,
    pub layer: Seq<char>,
    pub dy: int,
    pub thickness: int,
    pub txt: Seq<char>,
}

pub struct PadV {
    pub name: Seq<char>,
    pub x: int,
    pub y: int,
    pub dx: int,
    pub dy: int,
    pub drill: int,
    pub plated: bool,
    pub layers: Seq<Seq<char>>,
}

pub struct SmdV {
    pub name: Seq<char>,
    pub x: int,
    pub y: int,
    pub dx: int,
    pub dy: int,
    pub shape: Shape,
    pub layers: Seq<Seq<char>>,
}

pub struct LineV {
    pub x1: int,
    pub y1: int,
    pub x2: int,
    pub y2: int,
    pub layer: Seq<char>,
    pub w: int,
}

pub struct RectV {
    pub x: int,
    pub y: int,
    pub dx: int,
    pub dy: int,
    pub layer: Seq<char>,
    pub w: int,
}

pub enum ElementV {
    Text(TextV),
    Pad(PadV),
    Smd(SmdV),
    Line(LineV),
    Rect(RectV),
    Name(TextV),
    Reference(TextV),
    PythonError(Seq<char>),
}

pub open spec fn names_view(v: Seq<String>) -> Seq<Seq<char>> {
    v.map_values(|s: String| s@)
}

impl View for Text {
    type V = TextV;

    open spec fn view(&self) -> TextV {
        TextV {
            x: self.x as int,
            y: self.y as int,
            layer: self.layer@,
            dy: self.dy as int,
            thickness: self.thickness as int,
            txt: self.txt@,
        }
    }
}

impl View for Pad {
    type V = PadV;

    open spec fn view(&self) -> PadV {
        PadV {
            name: self.name@,
            x: self.x as int,
            y: self.y as int,
            dx: self.dx as int,
            dy: self.dy as int,
            drill: self.drill as int,
            plated: self.plated,
            layers: names_view(self.layers@),
        }
    }
}

impl View for Smd {
    type V = SmdV;

    open spec fn view(&self) -> SmdV {
        SmdV {
            name: self.name@,
            x: self.x as int,
            y: self.y as int,
            dx: self.dx as int,
            dy: self.dy as int,
            shape: self.shape,
            layers: names_view(self.layers@),
        }
    }
}

impl View for Line {
    type V = LineV;

    open spec fn view(&self) -> LineV {
        LineV {
            x1: self.x1 as int,
            y1: self.y1 as int,
            x2: self.x2 as int,
            y2: self.y2 as int,
            layer: self.layer@,
            w: self.w as int,
        }
    }
}

impl View for Rect {
    type V = RectV;

    open spec fn view(&self) -> RectV {
        RectV {
            x: self.x as int,
            y: self.y as int,
            dx: self.dx as int,
            dy: self.dy as int,
            layer: self.layer@,
            w: self.w as int,
        }
    }
}

impl View for Element {
    type V = ElementV;

    open spec fn view(&self) -> ElementV {
        match self {
            Element::Text(t) => ElementV::Text(t@),
            Element::Pad(p) => ElementV::Pad(p@),
            Element::Smd(s) => ElementV::Smd(s@),
            Element::Line(l) => ElementV::Line(l@),
            Element::Rect(r) => ElementV::Rect(r@),
            Element::Name(t) => ElementV::Name(t@),
            Element::Reference(t) => ElementV::Reference(t@),
            Element::PythonError(e) => ElementV::PythonError(e.message@),
        }
    }
}

pub open spec fn elements_view(v: Seq<Element>) -> Seq<ElementV> {
    v.map_values(|e: Element| e@)
}

} // verus!
