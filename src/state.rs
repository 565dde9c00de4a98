//! The shared drawing state and how a reload replaces it.
use vstd::prelude::*;
use crate::element::{elements_view, Element, ElementV, TextV};
use crate::record::{decode_record, decode_text_spec, DecodeError};

verus! {

/// An axis-aligned box around placed geometry, in half-nanometres (so that
/// the edges of pads and rectangles, half their size from the centre, are
/// exact). With no geometry every edge is zero.
#[derive(Clone, Copy, Debug, PartialEq, Eq, Structural)]
pub struct Bound {
    pub min_x: i128,
    pub min_y: i128,
    pub max_x: i128,
    pub max_y: i128,
}

/// Extents as `(min_x, min_y, max_x, max_y)`.
pub type Extent = (int, int, int, int);

pub open spec fn span(a: int, b: int) -> (int, int) {
    if a <= b {
        (a, b)
    } else {
        (b, a)
    }
}

pub open spec fn box_extent(x: int, y: int, dx: int, dy: int) -> Extent {
    let (x0, x1) = span(2 * x - dx, 2 * x + dx);
    let (y0, y1) = span(2 * y - dy, 2 * y + dy);
    (x0, y0, x1, y1)
}

/// The half-nanometre extent of one element: its anchor point for text, the
/// segment's end points for a line, the outline for pads and rectangles.
pub open spec fn extent(e: ElementV) -> Option<Extent> {
    match e {
        ElementV::Text(t) => Some((2 * t.x, 2 * t.y, 2 * t.x, 2 * t.y)),
        ElementV::Name(t) => Some((2 * t.x, 2 * t.y, 2 * t.x, 2 * t.y)),
        ElementV::Reference(t) => Some((2 * t.x, 2 * t.y, 2 * t.x, 2 * t.y)),
        ElementV::Line(l) => {
            let (x0, x1) = span(2 * l.x1, 2 * l.x2);
            let (y0, y1) = span(2 * l.y1, 2 * l.y2);
            Some((x0, y0, x1, y1))
        },
        ElementV::Pad(p) => Some(box_extent(p.x, p.y, p.dx, p.dy)),
        ElementV::Smd(p) => Some(box_extent(p.x, p.y, p.dx, p.dy)),
        ElementV::Rect(r) => Some(box_extent(r.x, r.y, r.dx, r.dy)),
        ElementV::PythonError(_) => None,
    }
}

pub open spec fn min(a: int, b: int) -> int {
    if a <= b {
        a
    } else {
        b
    }
}

pub open spec fn max(a: int, b: int) -> int {
    if a >= b {
        a
    } else {
        b
    }
}

pub open spec fn merge(a: Option<Extent>, b: Option<Extent>) -> Option<Extent> {
    match (a, b) {
        (None, _) => b,
        (_, None) => a,
        (Some(p), Some(q)) => Some((min(p.0, q.0), min(p.1, q.1), max(p.2, q.2), max(p.3, q.3))),
    }
}

/// The smallest box around every element's extent.
pub open spec fn bound_spec(es: Seq<ElementV>) -> Option<Extent>
    decreases es.len(),
{
    if es.len() == 0 {
        None
    } else {
        merge(bound_spec(es.drop_last()), extent(es.last()))
    }
}

pub open spec fn bound_of(b: Option<Extent>) -> Bound {
    match b {
        None => Bound { min_x: 0, min_y: 0, max_x: 0, max_y: 0 },
        Some(e) => Bound {
            min_x: e.0 as i128,
            min_y: e.1 as i128,
            max_x: e.2 as i128,
            max_y: e.3 as i128,
        },
    }
}

fn span_exec(a: i128, b: i128) -> (r: (i128, i128))
    ensures
        r.0 as int == span(a as int, b as int).0,
        r.1 as int == span(a as int, b as int).1,
{
    if a <= b {
        (a, b)
    } else {
        (b, a)
    }
}

fn box_exec(x: i64, y: i64, dx: i64, dy: i64) -> (r: (i128, i128, i128, i128))
    ensures
        (r.0 as int, r.1 as int, r.2 as int, r.3 as int) == box_extent(
            x as int,
            y as int,
            dx as int,
            dy as int,
        ),
{
    let (x0, x1) = span_exec(2 * (x as i128) - dx as i128, 2 * (x as i128) + dx as i128);
    let (y0, y1) = span_exec(2 * (y as i128) - dy as i128, 2 * (y as i128) + dy as i128);
    (x0, y0, x1, y1)
}

fn extent_exec(e: &Element) -> (r: Option<(i128, i128, i128, i128)>)
    ensures
        match r {
            Some(b) => extent(e@) == Some((b.0 as int, b.1 as int, b.2 as int, b.3 as int)),
            None => extent(e@) is None,
        },
{
    match e {
        Element::Text(t) | Element::Name(t) | Element::Reference(t) => {
            let x = 2 * (t.x as i128);
            let y = 2 * (t.y as i128);
            Some((x, y, x, y))
        },
        Element::Line(l) => {
            let (x0, x1) = span_exec(2 * (l.x1 as i128), 2 * (l.x2 as i128));
            let (y0, y1) = span_exec(2 * (l.y1 as i128), 2 * (l.y2 as i128));
            Some((x0, y0, x1, y1))
        },
        Element::Pad(p) => Some(box_exec(p.x, p.y, p.dx, p.dy)),
        Element::Smd(p) => Some(box_exec(p.x, p.y, p.dx, p.dy)),
        Element::Rect(r) => Some(box_exec(r.x, r.y, r.dx, r.dy)),
        Element::PythonError(_) => None,
    }
}

fn min_exec(a: i128, b: i128) -> (r: i128)
    ensures
        r as int == min(a as int, b as int),
{
    if a <= b {
        a
    } else {
        b
    }
}

fn max_exec(a: i128, b: i128) -> (r: i128)
    ensures
        r as int == max(a as int, b as int),
{
    if a >= b {
        a
    } else {
        b
    }
}

/// The box around all of `elements`.
pub fn bound(elements: &Vec<Element>) -> (r: Bound)
    ensures
        r == bound_of(bound_spec(elements_view(elements@))),
{
    let mut acc: Option<(i128, i128, i128, i128)> = None;
    let mut i: usize = 0;
    while i < elements.len()
        invariant
            i <= elements@.len(),
            match acc {
                Some(b) => bound_spec(elements_view(elements@.take(i as int))) == Some(
                    (b.0 as int, b.1 as int, b.2 as int, b.3 as int),
                ),
                None => bound_spec(elements_view(elements@.take(i as int))) is None,
            },
        decreases elements@.len() - i,
    {
        let ext = extent_exec(&elements[i]);
        proof {
            let es = elements_view(elements@.take(i + 1));
            assert(es.drop_last() =~= elements_view(elements@.take(i as int)));
            assert(es.last() == elements@[i as int]@);
        }
        acc = match (acc, ext) {
            (None, _) => ext,
            (_, None) => acc,
            (Some(p), Some(q)) => Some(
                (min_exec(p.0, q.0), min_exec(p.1, q.1), max_exec(p.2, q.2), max_exec(p.3, q.3)),
            ),
        };
        i = i + 1;
    }
    assert(elements@.take(i as int) =~= elements@);
    match acc {
        None => Bound { min_x: 0, min_y: 0, max_x: 0, max_y: 0 },
        Some(b) => Bound { min_x: b.0, min_y: b.1, max_x: b.2, max_y: b.3 },
    }
}

/// The elements of the last successful reload and the box around them.
#[derive(Debug)]
pub struct DrawState {
    pub bound: Bound,
    pub elements: Vec<Element>,
}

/// Why a reload left the state as it was.
#[derive(Debug)]
pub enum ReloadError {
    /// A record could not be decoded.
    Decode(DecodeError),
    /// The generator reported a failure; the message names the source file.
    Generator(String),
}

pub enum ReloadStop {
    Decode(DecodeError),
    Generator(Seq<char>),
}

/// The elements that a reload's records decode to, in order, or the first
/// thing that stops it: a record that does not decode, or an error marker.
pub open spec fn reload_spec(rs: Seq<Seq<char>>) -> Result<Seq<ElementV>, ReloadStop>
    decreases rs.len(),
{
    if rs.len() == 0 {
        Ok(Seq::empty())
    } else {
        match reload_spec(rs.drop_last()) {
            Err(x) => Err(x),
            Ok(es) => match decode_text_spec(rs.last()) {
                Err(e) => Err(ReloadStop::Decode(e)),
                Ok(ElementV::PythonError(m)) => Err(ReloadStop::Generator(m)),
                Ok(e) => Ok(es.push(e)),
            },
        }
    }
}

pub open spec fn records_view(rs: Seq<String>) -> Seq<Seq<char>> {
    rs.map_values(|r: String| r@)
}

/// The placeholder that the generator writes for the source file.
pub open spec fn source_placeholder() -> Seq<char> {
    "<string>"@
}

/// `s` with every occurrence of `from` replaced by `to`.
pub uninterp spec fn replaced(s: Seq<char>, from: Seq<char>, to: Seq<char>) -> Seq<char>;

/// Relies on str::replace: the result depends on the three strings alone.
#[verifier::external_body]
fn replace_all(s: &str, from: &str, to: &str) -> (r: String)
    ensures
        r@ == replaced(s@, from@, to@),
{
    s.replace(from, to)
}

/// The first name among the elements, if there is one.
pub open spec fn first_name(es: Seq<ElementV>) -> Option<TextV>
    decreases es.len(),
{
    if es.len() == 0 {
        None
    } else {
        match es[0] {
            ElementV::Name(t) => Some(t),
            _ => first_name(es.skip(1)),
        }
    }
}

/// The name that the state goes by: its first name's text, or `NAME`.
pub open spec fn state_name(es: Seq<ElementV>) -> Seq<char> {
    match first_name(es) {
        Some(t) => t.txt,
        None => "NAME"@,
    }
}

proof fn lemma_reload_prefix(rs: Seq<Seq<char>>, i: int)
    requires
        0 <= i <= rs.len(),
        reload_spec(rs.take(i)) is Err,
    ensures
        reload_spec(rs) == reload_spec(rs.take(i)),
    decreases rs.len(),
{
    if i < rs.len() {
        assert(rs.drop_last().take(i) =~= rs.take(i));
        lemma_reload_prefix(rs.drop_last(), i);
    } else {
        assert(rs.take(i) =~= rs);
    }
}

impl DrawState {
    /// An empty state.
    pub fn new() -> (r: DrawState)
        ensures
            r.elements@.len() == 0,
            r.bound == bound_of(None),
    {
        DrawState { bound: Bound { min_x: 0, min_y: 0, max_x: 0, max_y: 0 }, elements: Vec::new() }
    }

    /// The text of the first name element, or `NAME` where there is none.
    pub fn name(&self) -> (r: String)
        ensures
            r@ == state_name(elements_view(self.elements@)),
    {
        let ghost es = elements_view(self.elements@);
        let mut i: usize = 0;
        assert(es.skip(0) =~= es);
        while i < self.elements.len()
            invariant
                i <= self.elements@.len(),
                es == elements_view(self.elements@),
                first_name(es) == first_name(es.skip(i as int)),
            decreases self.elements@.len() - i,
        {
            assert(es.skip(i as int)[0] == self.elements@[i as int]@);
            assert(es.skip(i as int).skip(1) =~= es.skip(i + 1));
            match &self.elements[i] {
                Element::Name(t) => {
                    return t.txt.clone();
                },
                _ => {},
            }
            i = i + 1;
        }
        String::from_str("NAME")
    }

    /// The file name that the footprint is exported under.
    pub fn file_name(&self) -> (r: String)
        ensures
            r@ == state_name(elements_view(self.elements@)) + ".kicad_mod"@,
    {
        let mut r = self.name();
        r.append(".kicad_mod");
        r
    }

    /// Replaces the state with the elements that `records` decode to, in
    /// order, and the box around them. Where a record does not decode, or is
    /// the generator's error marker, the state is left exactly as it was and
    /// the error is returned; in a marker's message the placeholder for the
    /// source file is replaced by `source`.
    pub fn reload(&mut self, records: &Vec<String>, source: &str) -> (r: Result<(), ReloadError>)
        ensures
            match reload_spec(records_view(records@)) {
                Ok(es) => {
                    &&& r is Ok
                    &&& elements_view(final(self).elements@) == es
                    &&& final(self).bound == bound_of(bound_spec(es))
                },
                Err(ReloadStop::Decode(e)) => {
                    &&& r matches Err(ReloadError::Decode(d)) && d == e
                    &&& final(self).elements@ == old(self).elements@
                    &&& final(self).bound == old(self).bound
                },
                Err(ReloadStop::Generator(m)) => {
                    &&& r matches Err(ReloadError::Generator(g)) && g@ == replaced(
                        m,
                        source_placeholder(),
                        source@,
                    )
                    &&& final(self).elements@ == old(self).elements@
                    &&& final(self).bound == old(self).bound
                },
            },
    {
        let ghost rs = records_view(records@);
        let mut out: Vec<Element> = Vec::new();
        let mut i: usize = 0;
        assert(rs.take(0).len() == 0);
        assert(elements_view(out@) =~= Seq::<ElementV>::empty());
        while i < records.len()
            invariant
                i <= records@.len(),
                rs == records_view(records@),
                reload_spec(rs.take(i as int)) == Ok::<Seq<ElementV>, ReloadStop>(
                    elements_view(out@),
                ),
            decreases records@.len() - i,
        {
            let ghost before = out@;
            proof {
                assert(rs.take(i + 1).drop_last() =~= rs.take(i as int));
                assert(rs.take(i + 1).last() == records@[i as int]@);
            }
            match decode_record(records[i].as_str()) {
                Err(e) => {
                    proof {
                        lemma_reload_prefix(rs, i + 1);
                    }
                    return Err(ReloadError::Decode(e));
                },
                Ok(Element::PythonError(p)) => {
                    proof {
                        lemma_reload_prefix(rs, i + 1);
                    }
                    let message = replace_all(p.message.as_str(), "<string>", source);
                    return Err(ReloadError::Generator(message));
                },
                Ok(e) => {
                    out.push(e);
                    assert(elements_view(out@) =~= elements_view(before).push(e@));
                },
            }
            i = i + 1;
        }
        assert(rs.take(i as int) =~= rs);
        self.bound = bound(&out);
        self.elements = out;
        Ok(())
    }
}

} // verus!
