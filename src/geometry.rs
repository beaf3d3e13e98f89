use vstd::prelude::*;

use crate::command::{decode_zigzag, parse_command, zigzag, LINE_TO, MOVE_TO};

verus! {

/// An absolute position in a layer's tile-local integer coordinate space.
#[derive(Debug, Clone, Copy, PartialEq, Eq, Structural)]
pub struct Position {
    pub x: i32,
    pub y: i32,
}

/// The geometry type of a feature.
#[derive(Debug, Clone, Copy, PartialEq, Eq, Structural)]
pub enum GeomType {
    Unknown,
    Point,
    LineString,
    Polygon,
}

/// The geometry type that a feature's type code stands for; a missing or
/// unrecognised code stands for `Unknown`.
pub open spec fn geom_type_of(code: Option<i32>) -> GeomType {
    match code {
        Some(1) => GeomType::Point,
        Some(2) => GeomType::LineString,
        Some(3) => GeomType::Polygon,
        _ => GeomType::Unknown,
    }
}

/// Resolves a feature's type code, falling back to `Unknown`.
pub fn geom_type_from_code(code: Option<i32>) -> (r: GeomType)
    ensures
        r == geom_type_of(code),
{
    match code {
        Some(1) => GeomType::Point,
        Some(2) => GeomType::LineString,
        Some(3) => GeomType::Polygon,
        _ => GeomType::Unknown,
    }
}

impl GeomType {
    /// The name of the geometry type in the output document.
    pub fn name(&self) -> (r: &'static str)
        ensures
            *self == GeomType::Point ==> r@ == "Point"@,
            *self == GeomType::LineString ==> r@ == "LineString"@,
            *self == GeomType::Polygon ==> r@ == "Polygon"@,
            *self == GeomType::Unknown ==> r@ == "Unknown"@,
    {
        match self {
            GeomType::Point => "Point",
            GeomType::LineString => "LineString",
            GeomType::Polygon => "Polygon",
            GeomType::Unknown => "Unknown",
        }
    }

    pub open spec fn has_rings(self) -> bool {
        self == GeomType::LineString || self == GeomType::Polygon
    }
}

/// Decoded coordinates, in the shape the output document gives them.
#[derive(Debug, PartialEq)]
pub enum Coordinates {
    /// A bare position: a point feature with exactly one point.
    Position(Position),
    /// A flat list of positions: the points of a point feature, or the single
    /// ring of a line.
    Line(Vec<Position>),
    /// A list of rings.
    Rings(Vec<Vec<Position>>),
}

/// The mathematical value of `Coordinates`.
pub enum CoordinatesView {
    Position(Position),
    Line(Seq<Position>),
    Rings(Seq<Seq<Position>>),
}

pub open spec fn rings_view(rings: Seq<Vec<Position>>) -> Seq<Seq<Position>> {
    rings.map_values(|r: Vec<Position>| r@)
}

impl View for Coordinates {
    type V = CoordinatesView;

    open spec fn view(&self) -> CoordinatesView {
        match self {
            Coordinates::Position(p) => CoordinatesView::Position(*p),
            Coordinates::Line(v) => CoordinatesView::Line(v@),
            Coordinates::Rings(rs) => CoordinatesView::Rings(rings_view(rs@)),
        }
    }
}

/// The state of the walk over one feature's command stream.
pub struct Walk {
    /// Index of the next integer to read.
    pub pos: nat,
    /// The command being repeated.
    pub cmd: u32,
    /// Repetitions of `cmd` still to read.
    pub left: nat,
    /// The absolute position reached so far.
    pub cursor: Position,
    /// Points emitted for a point feature.
    pub points: Seq<Position>,
    /// Rings emitted for a line or polygon feature; the last is the current one.
    pub rings: Seq<Seq<Position>>,
}

pub open spec fn walk_start() -> Walk {
    Walk {
        pos: 0,
        cmd: 0,
        left: 0,
        cursor: Position { x: 0, y: 0 },
        points: Seq::empty(),
        rings: Seq::empty(),
    }
}

/// Reads one command integer; only MoveTo and LineTo keep their repeat count.
pub open spec fn read_command(g: Seq<u32>, s: Walk) -> Walk {
    let c = g[s.pos as int];
    let id = (c % 8) as u32;
    Walk {
        pos: s.pos + 1,
        cmd: id,
        left: if id == MOVE_TO || id == LINE_TO { (c / 8) as nat } else { 0 },
        ..s
    }
}

/// Reads one parameter pair, moves the cursor by the decoded deltas, and
/// records the new position as the current command asks.
pub open spec fn emit(g: Seq<u32>, t: GeomType, s: Walk) -> Walk {
    let p = Position {
        x: s.cursor.x.wrapping_add(zigzag(g[s.pos as int])),
        y: s.cursor.y.wrapping_add(zigzag(g[s.pos + 1int])),
    };
    let moved = Walk { pos: s.pos + 2, left: (s.left - 1) as nat, cursor: p, ..s };
    if s.cmd == MOVE_TO {
        if t == GeomType::Point {
            Walk { points: s.points.push(p), ..moved }
        } else if t.has_rings() {
            Walk { rings: s.rings.push(seq![p]), ..moved }
        } else {
            moved
        }
    } else if t.has_rings() && s.rings.len() > 0 {
        Walk { rings: s.rings.update(s.rings.len() - 1, s.rings.last().push(p)), ..moved }
    } else {
        moved
    }
}

/// Runs the walk to its end: the end of the stream, or a parameter pair that
/// the stream cuts short.
pub open spec fn walk(g: Seq<u32>, t: GeomType, s: Walk) -> Walk
    decreases g.len() - s.pos,
{
    if s.pos >= g.len() {
        s
    } else if s.left > 0 {
        if s.pos + 1 >= g.len() {
            s
        } else {
            walk(g, t, emit(g, t, s))
        }
    } else {
        walk(g, t, read_command(g, s))
    }
}

/// The output shape of a finished walk: a lone point and a lone line ring are
/// unwrapped, polygons always keep their list of rings.
pub open spec fn shape(t: GeomType, s: Walk) -> CoordinatesView {
    match t {
        GeomType::Point => if s.points.len() == 1 {
            CoordinatesView::Position(s.points[0])
        } else {
            CoordinatesView::Line(s.points)
        },
        GeomType::LineString => if s.rings.len() == 1 {
            CoordinatesView::Line(s.rings[0])
        } else {
            CoordinatesView::Rings(s.rings)
        },
        _ => CoordinatesView::Rings(s.rings),
    }
}

/// The coordinates that a feature's geometry stream decodes to.
pub open spec fn geometry_model(g: Seq<u32>, t: GeomType) -> CoordinatesView {
    shape(t, walk(g, t, walk_start()))
}

/// Decodes one feature's geometry command stream into tile-local positions.
pub fn decode_geometry(geometry: &[u32], geom_type: GeomType) -> (r: Coordinates)
    ensures
        r@ == geometry_model(geometry@, geom_type),
{
    let ghost g = geometry@;
    let len = geometry.len();
    let mut pos: usize = 0;
    let mut cmd: u32 = 0;
    let mut left: usize = 0;
    let mut x: i32 = 0;
    let mut y: i32 = 0;
    let mut points: Vec<Position> = Vec::new();
    let mut rings: Vec<Vec<Position>> = Vec::new();
    assert(rings_view(rings@) =~= Seq::empty());
    while pos < len
        invariant
            len == g.len(),
            g == geometry@,
            pos <= len,
            walk(
                g,
                geom_type,
                Walk {
                    pos: pos as nat,
                    cmd,
                    left: left as nat,
                    cursor: Position { x, y },
                    points: points@,
                    rings: rings_view(rings@),
                },
            ) == walk(g, geom_type, walk_start()),
        ensures
            pos >= len || (left > 0 && pos + 1 >= len),
        decreases len - pos,
    {
        let ghost s = Walk {
            pos: pos as nat,
            cmd,
            left: left as nat,
            cursor: Position { x, y },
            points: points@,
            rings: rings_view(rings@),
        };
        if left > 0 {
            if pos + 1 >= len {
                break;
            }
            let dx = decode_zigzag(geometry[pos]);
            let dy = decode_zigzag(geometry[pos + 1]);
            x = x.wrapping_add(dx);
            y = y.wrapping_add(dy);
            let p = Position { x, y };
            if cmd == MOVE_TO {
                match geom_type {
                    GeomType::Point => {
                        points.push(p);
                    },
                    GeomType::LineString | GeomType::Polygon => {
                        let mut ring: Vec<Position> = Vec::new();
                        ring.push(p);
                        rings.push(ring);
                        assert(rings_view(rings@) =~= s.rings.push(seq![p]));
                    },
                    GeomType::Unknown => {},
                }
            } else if (geom_type == GeomType::LineString || geom_type == GeomType::Polygon)
                && rings.len() > 0 {
                let mut ring = rings.pop().unwrap();
                ring.push(p);
                rings.push(ring);
                assert(rings_view(rings@) =~= s.rings.update(
                    s.rings.len() - 1,
                    s.rings.last().push(p),
                ));
            }
            pos = pos + 2;
            left = left - 1;
            assert(emit(g, geom_type, s) == Walk {
                pos: pos as nat,
                cmd,
                left: left as nat,
                cursor: Position { x, y },
                points: points@,
                rings: rings_view(rings@),
            });
        } else {
            let (id, count) = parse_command(geometry[pos]);
            cmd = id;
            left = if id == MOVE_TO || id == LINE_TO { count } else { 0 };
            pos = pos + 1;
        }
    }
    let ghost end = Walk {
        pos: pos as nat,
        cmd,
        left: left as nat,
        cursor: Position { x, y },
        points: points@,
        rings: rings_view(rings@),
    };
    assert(walk(g, geom_type, end) == end);
    match geom_type {
        GeomType::Point => {
            if points.len() == 1 {
                Coordinates::Position(points[0])
            } else {
                Coordinates::Line(points)
            }
        },
        GeomType::LineString => {
            if rings.len() == 1 {
                let ring = rings.pop().unwrap();
                Coordinates::Line(ring)
            } else {
                Coordinates::Rings(rings)
            }
        },
        _ => Coordinates::Rings(rings),
    }
}

/// The position reached from the origin by one zigzag-encoded delta pair.
pub open spec fn delta_position(dx: u32, dy: u32) -> Position {
    Position { x: zigzag(dx), y: zigzag(dy) }
}

/// `n` successive parameter pairs read from `s`.
pub open spec fn emit_n(g: Seq<u32>, t: GeomType, s: Walk, n: nat) -> Walk
    decreases n,
{
    if n == 0 {
        s
    } else {
        emit_n(g, t, emit(g, t, s), (n - 1) as nat)
    }
}

proof fn lemma_walk_emits(g: Seq<u32>, t: GeomType, s: Walk, n: nat)
    requires
        s.left >= n,
        s.pos + 2 * n <= g.len(),
    ensures
        walk(g, t, s) == walk(g, t, emit_n(g, t, s, n)),
        emit_n(g, t, s, n).pos == s.pos + 2 * n,
        emit_n(g, t, s, n).left == s.left - n,
        emit_n(g, t, s, n).cmd == s.cmd,
    decreases n,
{
    if n > 0 {
        lemma_walk_emits(g, t, emit(g, t, s), (n - 1) as nat);
    }
}

/// The position one zigzag-encoded delta pair away from `c`.
pub open spec fn step_from(c: Position, dx: u32, dy: u32) -> Position {
    Position { x: c.x.wrapping_add(zigzag(dx)), y: c.y.wrapping_add(zigzag(dy)) }
}

/// The positions visited from `c` by the `n` delta pairs that start at index
/// `pos` of the stream.
pub open spec fn delta_run(g: Seq<u32>, pos: int, c: Position, n: nat) -> Seq<Position>
    decreases n,
{
    if n == 0 {
        Seq::empty()
    } else {
        let p = step_from(c, g[pos], g[pos + 1]);
        seq![p] + delta_run(g, pos + 2, p, (n - 1) as nat)
    }
}

proof fn lemma_delta_run_len(g: Seq<u32>, pos: int, c: Position, n: nat)
    ensures
        delta_run(g, pos, c, n).len() == n,
    decreases n,
{
    if n > 0 {
        lemma_delta_run_len(g, pos + 2, step_from(c, g[pos], g[pos + 1]), (n - 1) as nat);
    }
}

proof fn lemma_line_to_run(g: Seq<u32>, t: GeomType, s: Walk, n: nat)
    requires
        t.has_rings(),
        s.cmd == LINE_TO,
        s.rings.len() > 0,
        s.left >= n,
        s.pos + 2 * n <= g.len(),
    ensures
        emit_n(g, t, s, n).rings.len() == s.rings.len(),
        emit_n(g, t, s, n).rings.last() == s.rings.last() + delta_run(g, s.pos as int, s.cursor, n),
        forall|i: int|
            0 <= i < s.rings.len() - 1 ==> #[trigger] emit_n(g, t, s, n).rings[i] == s.rings[i],
    decreases n,
{
    if n == 0 {
        assert(s.rings.last() + delta_run(g, s.pos as int, s.cursor, n) =~= s.rings.last());
    } else {
        let s1 = emit(g, t, s);
        lemma_line_to_run(g, t, s1, (n - 1) as nat);
        let p = s1.cursor;
        assert(s1.rings.last() == s.rings.last().push(p));
        assert(s.rings.last().push(p) + delta_run(g, s1.pos as int, p, (n - 1) as nat) =~= s.rings.last()
            + delta_run(g, s.pos as int, s.cursor, n));
    }
}

/// A point feature made of a single MoveTo with one parameter pair decodes to
/// that bare position.
pub proof fn lemma_single_point_is_bare(g: Seq<u32>)
    requires
        g.len() == 3,
        g[0] == 9,
    ensures
        geometry_model(g, GeomType::Point) == CoordinatesView::Position(delta_position(g[1], g[2])),
{
    let t = GeomType::Point;
    let s1 = read_command(g, walk_start());
    let s2 = emit(g, t, s1);
    assert(walk(g, t, walk_start()) == walk(g, t, s1));
    assert(walk(g, t, s1) == walk(g, t, s2));
    assert(walk(g, t, s2) == s2);
}

/// A line feature made of one MoveTo with one pair followed by one LineTo
/// with `n` pairs decodes to a flat list of `n + 1` positions: the MoveTo's
/// position, then each position reached by the LineTo's deltas, in order.
pub proof fn lemma_line_is_flat(g: Seq<u32>, n: nat)
    requires
        g.len() == 4 + 2 * n,
        g[0] == 9,
        g[3] == 8 * n + 2,
    ensures
        geometry_model(g, GeomType::LineString) == CoordinatesView::Line(
            seq![delta_position(g[1], g[2])] + delta_run(g, 4, delta_position(g[1], g[2]), n),
        ),
        (geometry_model(g, GeomType::LineString) is Line),
        geometry_model(g, GeomType::LineString)->Line_0.len() == n + 1,
{
    let t = GeomType::LineString;
    let s1 = read_command(g, walk_start());
    let s2 = emit(g, t, s1);
    let s3 = read_command(g, s2);
    assert(walk(g, t, walk_start()) == walk(g, t, s1));
    assert(walk(g, t, s1) == walk(g, t, s2));
    assert(walk(g, t, s2) == walk(g, t, s3));
    assert(s3.left == n && s3.cmd == LINE_TO);
    assert(s3.cursor == delta_position(g[1], g[2]));
    lemma_walk_emits(g, t, s3, n);
    lemma_line_to_run(g, t, s3, n);
    lemma_delta_run_len(g, 4, s3.cursor, n);
    let s4 = emit_n(g, t, s3, n);
    assert(walk(g, t, s4) == s4);
}

/// A polygon feature made of two rings, each started by its own MoveTo with
/// one pair, extended by a LineTo with `n1` (resp. `n2`) pairs and closed by a
/// ClosePath, decodes to a list of two rings of `n1 + 1` and `n2 + 1`
/// positions.
pub proof fn lemma_polygon_two_rings(g: Seq<u32>, n1: nat, n2: nat)
    requires
        g.len() == 10 + 2 * n1 + 2 * n2,
        g[0] == 9,
        g[3] == 8 * n1 + 2,
        g[4 + 2 * n1 as int] == 15,
        g[5 + 2 * n1 as int] == 9,
        g[8 + 2 * n1 as int] == 8 * n2 + 2,
        g[9 + 2 * n1 as int + 2 * n2 as int] == 15,
    ensures
        (geometry_model(g, GeomType::Polygon) is Rings),
        geometry_model(g, GeomType::Polygon)->Rings_0.len() == 2,
        geometry_model(g, GeomType::Polygon)->Rings_0[0].len() == n1 + 1,
        geometry_model(g, GeomType::Polygon)->Rings_0[1].len() == n2 + 1,
{
    let t = GeomType::Polygon;
    let s1 = read_command(g, walk_start());
    let s2 = emit(g, t, s1);
    let s3 = read_command(g, s2);
    assert(walk(g, t, walk_start()) == walk(g, t, s1));
    assert(walk(g, t, s1) == walk(g, t, s2));
    assert(walk(g, t, s2) == walk(g, t, s3));
    lemma_walk_emits(g, t, s3, n1);
    lemma_line_to_run(g, t, s3, n1);
    lemma_delta_run_len(g, s3.pos as int, s3.cursor, n1);
    let s4 = emit_n(g, t, s3, n1);
    let s5 = read_command(g, s4);
    let s6 = read_command(g, s5);
    let s7 = emit(g, t, s6);
    let s8 = read_command(g, s7);
    assert(walk(g, t, s4) == walk(g, t, s5));
    assert(walk(g, t, s5) == walk(g, t, s6));
    assert(walk(g, t, s6) == walk(g, t, s7));
    assert(walk(g, t, s7) == walk(g, t, s8));
    assert(s7.rings[0] == s4.rings[0]);
    lemma_walk_emits(g, t, s8, n2);
    lemma_line_to_run(g, t, s8, n2);
    lemma_delta_run_len(g, s8.pos as int, s8.cursor, n2);
    let s9 = emit_n(g, t, s8, n2);
    let s10 = read_command(g, s9);
    assert(walk(g, t, s9) == walk(g, t, s10));
    assert(walk(g, t, s10) == s10);
    assert(s9.rings[0] == s8.rings[0]);
}

proof fn lemma_walk_unknown(g: Seq<u32>, s: Walk)
    requires
        s.rings.len() == 0,
    ensures
        walk(g, GeomType::Unknown, s).rings.len() == 0,
    decreases g.len() - s.pos,
{
    if s.pos < g.len() {
        if s.left > 0 {
            if s.pos + 1 < g.len() {
                lemma_walk_unknown(g, emit(g, GeomType::Unknown, s));
            }
        } else {
            lemma_walk_unknown(g, read_command(g, s));
        }
    }
}

/// A feature with no type code, or with a code outside the known ones, is
/// decoded as `Unknown`, whose coordinates are an empty list whatever its
/// command stream holds.
pub proof fn lemma_unknown_type(code: Option<i32>, g: Seq<u32>)
    requires
        code is None || (code->0 != 1 && code->0 != 2 && code->0 != 3),
    ensures
        geom_type_of(code) == GeomType::Unknown,
        geometry_model(g, geom_type_of(code)) == CoordinatesView::Rings(Seq::empty()),
{
    lemma_walk_unknown(g, walk_start());
    assert(walk(g, GeomType::Unknown, walk_start()).rings =~= Seq::empty());
}

} // verus!
