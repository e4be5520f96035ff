//! Shelf markers, their projection onto the route, and corridors.
//!
//! Every node of the whole drawing that carries the position-marker
//! attribute is a shelf: its label names a corridor and a shelf, its
//! shape (circle or rectangle) gives its centre, and the centre is
//! projected onto the nearest route connection.  Shelves aggregate into
//! corridors keyed by corridor name; a corridor's average position is
//! the exact componentwise mean of its shelves' coordinates.

use vstd::prelude::*;

use crate::document::{acc_ops, bytes_eq, Document, Node, Shape};
use crate::error::ExtractError;
use crate::rat::{r_fits, r_le, r_lt, r_of_int, radd, rdiv, rmul, Rat, SRat};
use crate::route::{dist_sqr_fits, Connection, Route};
use crate::transform::{apply_from_fits, apply_ops};
use crate::vec2::{
    project_fits, project_point, project_t, sviews, vadd, vadd_fits, vdist_sqr, SVec2, Vec2,
};

verus! {

/// Squared distance from `q` to its clamped projection onto the
/// segment of connection `c`.
pub open spec fn seg_dist(pts: Seq<SVec2>, c: Connection, q: SVec2) -> SRat {
    vdist_sqr(project_point(q, pts[c.i1 as int], pts[c.i2 as int]), q)
}

/// Success condition of the executable segment-distance computation.
pub open spec fn seg_dist_fits(pts: Seq<SVec2>, c: Connection, q: SVec2) -> bool {
    &&& project_fits(q, pts[c.i1 as int], pts[c.i2 as int])
    &&& dist_sqr_fits(project_point(q, pts[c.i1 as int], pts[c.i2 as int]), q)
}

pub open spec fn conn_dists_fit(pts: Seq<SVec2>, cs: Seq<Connection>, q: SVec2) -> bool {
    forall|k: int| 0 <= k < cs.len() ==> seg_dist_fits(pts, #[trigger] cs[k], q)
}

/// Index of the connection nearest to `q` among the first `j`, the
/// first winning ties on exact squared distance.
pub open spec fn nearest_conn_upto(pts: Seq<SVec2>, cs: Seq<Connection>, q: SVec2, j: int) -> int
    decreases j,
{
    if j <= 1 {
        0
    } else {
        let b = nearest_conn_upto(pts, cs, q, j - 1);
        if r_lt(seg_dist(pts, cs[j - 1], q), seg_dist(pts, cs[b], q)) {
            j - 1
        } else {
            b
        }
    }
}

/// The connection nearest to `q`, the first winning ties.
pub open spec fn nearest_conn(pts: Seq<SVec2>, cs: Seq<Connection>, q: SVec2) -> int {
    nearest_conn_upto(pts, cs, q, cs.len() as int)
}

/// Exact squared distance from `q` to connection `c`'s segment.
fn distance_to_connection(route: &Route, c: Connection, q: &Vec2) -> (r: Result<
    Rat,
    ExtractError,
>)
    requires
        route.wf(),
        q.wf(),
        c.i1 < route.points@.len(),
        c.i2 < route.points@.len(),
    ensures
        r matches Ok(d) ==> d.wf() && d@ == seg_dist(sviews(route.points@), c, q@),
        r is Ok <==> seg_dist_fits(sviews(route.points@), c, q@),
        r matches Err(e) ==> (e == ExtractError::DegenerateSegment || e
            == ExtractError::Overflow),
{
    let p1 = &route.points[c.i1];
    let p2 = &route.points[c.i2];
    let (proj, _t) = match q.project_line_segment(p1, p2) {
        Ok(v) => v,
        Err(e) => {
            return Err(e);
        },
    };
    match proj.distance_sqr(q) {
        Some(d) => Ok(d),
        None => Err(ExtractError::Overflow),
    }
}

/// The connection of the route nearest to `q`, the first winning ties.
fn nearest_connection(route: &Route, q: &Vec2) -> (r: Result<usize, ExtractError>)
    requires
        route.wf(),
        q.wf(),
        route.connections@.len() > 0,
    ensures
        r matches Ok(k) ==> k as int == nearest_conn(
            sviews(route.points@),
            route.connections@,
            q@,
        ) && k < route.connections@.len(),
        r is Ok <==> conn_dists_fit(sviews(route.points@), route.connections@, q@),
        r matches Err(e) ==> (e == ExtractError::DegenerateSegment || e
            == ExtractError::Overflow),
{
    let ghost pts = sviews(route.points@);
    let ghost cs = route.connections@;
    let mut best: usize = 0;
    let mut best_dist = match distance_to_connection(route, route.connections[0], q) {
        Ok(d) => d,
        Err(e) => {
            assert(!seg_dist_fits(pts, cs[0], q@));
            return Err(e);
        },
    };
    let mut k: usize = 1;
    while k < route.connections.len()
        invariant
            1 <= k <= cs.len(),
            pts == sviews(route.points@),
            cs == route.connections@,
            route.wf(),
            q.wf(),
            best < k,
            best as int == nearest_conn_upto(pts, cs, q@, k as int),
            best_dist.wf(),
            best_dist@ == seg_dist(pts, cs[best as int], q@),
            forall|i: int| 0 <= i < k ==> seg_dist_fits(pts, #[trigger] cs[i], q@),
        decreases cs.len() - k,
    {
        let d = match distance_to_connection(route, route.connections[k], q) {
            Ok(d) => d,
            Err(e) => {
                assert(!seg_dist_fits(pts, cs[k as int], q@));
                return Err(e);
            },
        };
        if d.lt(&best_dist) {
            best = k;
            best_dist = d;
        }
        k = k + 1;
    }
    Ok(best)
}

/// A position on the route graph: a connection, the normalized
/// position `t` along its segment, and the projected point.
#[derive(Clone, Copy, Debug)]
pub struct RouteProjection {
    pub connection: Connection,
    pub t: Rat,
    pub point: Vec2,
}

impl RouteProjection {
    pub open spec fn wf(self) -> bool {
        self.t.wf() && self.point.wf()
    }

    /// Project `point` onto the segment of `connection`.
    pub fn new(connection: Connection, point: Vec2, route: &Route) -> (r: Result<
        RouteProjection,
        ExtractError,
    >)
        requires
            route.wf(),
            point.wf(),
            connection.i1 < route.points@.len(),
            connection.i2 < route.points@.len(),
        ensures
            r matches Ok(rp) ==> {
                let a = route.points@[connection.i1 as int]@;
                let b = route.points@[connection.i2 as int]@;
                &&& rp.wf()
                &&& rp.connection == connection
                &&& rp.t@ == project_t(point@, a, b)
                &&& rp.point@ == project_point(point@, a, b)
                &&& r_le(r_of_int(0), rp.t@)
                &&& r_le(rp.t@, r_of_int(1))
            },
            r is Ok <==> project_fits(
                point@,
                route.points@[connection.i1 as int]@,
                route.points@[connection.i2 as int]@,
            ),
            r matches Err(e) ==> (e == ExtractError::DegenerateSegment || e
                == ExtractError::Overflow),
    {
        let p1 = &route.points[connection.i1];
        let p2 = &route.points[connection.i2];
        let (proj, t) = match point.project_line_segment(p1, p2) {
            Ok(v) => v,
            Err(e) => {
                return Err(e);
            },
        };
        Ok(RouteProjection { connection, t, point: proj })
    }
}

/// The byte that separates the corridor name from the shelf name.
pub open spec fn separator() -> u8 {
    45u8
}

/// The first separator at index `i` or later.
pub open spec fn first_sep_from(l: Seq<u8>, i: int) -> Option<int>
    decreases l.len() - i,
{
    if i < 0 || i >= l.len() {
        None
    } else if l[i] == separator() {
        Some(i)
    } else {
        first_sep_from(l, i + 1)
    }
}

/// The corridor part of a label: everything before the first separator.
pub open spec fn corridor_name(l: Seq<u8>) -> Seq<u8> {
    l.subrange(0, first_sep_from(l, 0).unwrap())
}

/// The shelf part of a label: everything between the first separator
/// and the second one, or the end.
pub open spec fn shelf_name(l: Seq<u8>) -> Seq<u8> {
    let d = first_sep_from(l, 0).unwrap();
    match first_sep_from(l, d + 1) {
        Some(e) => l.subrange(d + 1, e),
        None => l.subrange(d + 1, l.len() as int),
    }
}

/// Copy `v[from..to]`.
fn copy_range(v: &Vec<u8>, from: usize, to: usize) -> (r: Vec<u8>)
    requires
        from <= to <= v@.len(),
    ensures
        r@ == v@.subrange(from as int, to as int),
{
    let mut r: Vec<u8> = Vec::new();
    let mut i: usize = from;
    while i < to
        invariant
            from <= i <= to <= v@.len(),
            r@ == v@.subrange(from as int, i as int),
        decreases to - i,
    {
        r.push(v[i]);
        proof {
            assert(v@.subrange(from as int, i as int + 1) =~= v@.subrange(
                from as int,
                i as int,
            ).push(v@[i as int]));
        }
        i = i + 1;
    }
    r
}

/// The first separator at index `i` or later, executably.
fn find_sep_from(label: &Vec<u8>, start: usize) -> (r: Option<usize>)
    requires
        start <= label@.len(),
    ensures
        r matches Some(i) ==> first_sep_from(label@, start as int) == Some(i as int) && start <= i
            < label@.len(),
        r is None <==> first_sep_from(label@, start as int) is None,
{
    let mut i: usize = start;
    while i < label.len()
        invariant
            start <= i <= label@.len(),
            first_sep_from(label@, start as int) == first_sep_from(label@, i as int),
        decreases label@.len() - i,
    {
        if label[i] == 45 {
            return Some(i);
        }
        i = i + 1;
    }
    None
}

/// Split a shelf label into its corridor and shelf names at the first
/// separator; a second separator ends the shelf name, anything after
/// it is dropped.  A label without a separator is a fatal error.
pub fn parse_label(label: &Vec<u8>) -> (r: Result<(Vec<u8>, Vec<u8>), ExtractError>)
    ensures
        r matches Ok(v) ==> first_sep_from(label@, 0) is Some && v.0@ == corridor_name(label@)
            && v.1@ == shelf_name(label@),
        r is Ok <==> first_sep_from(label@, 0) is Some,
        r is Err ==> r == Err::<(Vec<u8>, Vec<u8>), ExtractError>(
            ExtractError::MissingLabelSeparator,
        ),
{
    let n = label.len();
    let d = match find_sep_from(label, 0) {
        Some(d) => d,
        None => {
            return Err(ExtractError::MissingLabelSeparator);
        },
    };
    assert(d < n);
    let corridor = copy_range(label, 0, d);
    let shelf = match find_sep_from(label, d + 1) {
        Some(e) => copy_range(label, d + 1, e),
        None => copy_range(label, d + 1, label.len()),
    };
    Ok((corridor, shelf))
}

/// A shelf marker resolved to global coordinates and projected onto
/// the route.
#[derive(Clone, Debug)]
pub struct ShelfPosition {
    pub corridor: Vec<u8>,
    pub shelf: Vec<u8>,
    pub x: Rat,
    pub y: Rat,
    pub route_projection: RouteProjection,
}

/// An aggregation of the shelves that share a corridor name.
#[derive(Debug)]
pub struct Corridor {
    pub average_position: Vec2,
    pub name: Vec<u8>,
    pub shelves: Vec<ShelfPosition>,
    pub route_projection: RouteProjection,
}

/// Mathematical content of a shelf entry: its name and position.
pub ghost struct GShelf {
    pub shelf: Seq<u8>,
    pub pos: SVec2,
}

/// Mathematical content of a corridor: its name and shelf entries.
pub ghost struct GCorr {
    pub name: Seq<u8>,
    pub shelves: Seq<GShelf>,
}

pub open spec fn gshelves_of(ss: Seq<ShelfPosition>) -> Seq<GShelf> {
    Seq::new(
        ss.len(),
        |i: int| GShelf { shelf: ss[i].shelf@, pos: SVec2 { x: ss[i].x@, y: ss[i].y@ } },
    )
}

pub open spec fn gcorr_of(c: Corridor) -> GCorr {
    GCorr { name: c.name@, shelves: gshelves_of(c.shelves@) }
}

pub open spec fn gcorrs_of(cc: Seq<Corridor>) -> Seq<GCorr> {
    Seq::new(cc.len(), |i: int| gcorr_of(cc[i]))
}

/// Is node `j` a shelf marker?
pub open spec fn is_marker_node(nodes: Seq<Node>, j: int) -> bool {
    1 <= j < nodes.len() && nodes[j].is_marker
}

pub open spec fn half() -> SRat {
    SRat { n: 1, d: 2 }
}

/// The marker's label bytes (arbitrary when absent).
pub open spec fn mlabel(nodes: Seq<Node>, j: int) -> Seq<u8> {
    match nodes[j].marker_label {
        Some(l) => l@,
        None => arbitrary(),
    }
}

/// The marker's centre in its local coordinates: a circle's centre, or
/// a rectangle's position plus half its size.
pub open spec fn mcenter(nodes: Seq<Node>, j: int) -> SVec2 {
    match nodes[j].shape {
        Shape::Circle { center: Some(c) } => c@,
        Shape::Rect { pos: Some(p), size: Some(s) } => SVec2 {
            x: radd(p@.x, rmul(s@.x, half())),
            y: radd(p@.y, rmul(s@.y, half())),
        },
        _ => arbitrary(),
    }
}

/// The marker's centre in global coordinates.
pub open spec fn gpos(nodes: Seq<Node>, j: int) -> SVec2 {
    apply_ops(acc_ops(nodes, j), mcenter(nodes, j))
}

/// A supported marker shape whose centre can be computed exactly.
pub open spec fn marker_shape_ok(nodes: Seq<Node>, j: int) -> bool {
    ||| nodes[j].shape matches Shape::Circle { center: Some(_) }
    ||| (nodes[j].shape matches Shape::Rect { pos: Some(p), size: Some(s) } && r_fits(
        rmul(s@.x, half()),
    ) && r_fits(radd(p@.x, rmul(s@.x, half()))) && r_fits(rmul(s@.y, half())) && r_fits(
        radd(p@.y, rmul(s@.y, half())),
    ))
}

/// Can marker `j` be fully resolved and projected?
pub open spec fn marker_ok(nodes: Seq<Node>, pts: Seq<SVec2>, cs: Seq<Connection>, j: int) -> bool {
    &&& nodes[j].marker_label is Some
    &&& first_sep_from(mlabel(nodes, j), 0) is Some
    &&& marker_shape_ok(nodes, j)
    &&& apply_from_fits(acc_ops(nodes, j), 0, mcenter(nodes, j))
    &&& cs.len() > 0
    &&& conn_dists_fit(pts, cs, gpos(nodes, j))
}

pub open spec fn find_corr_from(gcs: Seq<GCorr>, name: Seq<u8>, i: int) -> Option<int>
    decreases gcs.len() - i,
{
    if i < 0 || i >= gcs.len() {
        None
    } else if gcs[i].name == name {
        Some(i)
    } else {
        find_corr_from(gcs, name, i + 1)
    }
}

pub open spec fn find_shelf_from(ss: Seq<GShelf>, name: Seq<u8>, i: int) -> Option<int>
    decreases ss.len() - i,
{
    if i < 0 || i >= ss.len() {
        None
    } else if ss[i].shelf == name {
        Some(i)
    } else {
        find_shelf_from(ss, name, i + 1)
    }
}

/// Insert a shelf entry, a later entry with the same shelf name
/// overwriting the earlier one in place.
pub open spec fn upsert_shelf(ss: Seq<GShelf>, s: GShelf) -> Seq<GShelf> {
    match find_shelf_from(ss, s.shelf, 0) {
        Some(i) => ss.update(i, s),
        None => ss.push(s),
    }
}

/// Insert a shelf entry into the corridor of the given name, creating
/// the corridor at the end on first encounter.
pub open spec fn upsert_corr(gcs: Seq<GCorr>, corridor: Seq<u8>, s: GShelf) -> Seq<GCorr> {
    match find_corr_from(gcs, corridor, 0) {
        Some(i) => gcs.update(
            i,
            GCorr { name: gcs[i].name, shelves: upsert_shelf(gcs[i].shelves, s) },
        ),
        None => gcs.push(GCorr { name: corridor, shelves: seq![s] }),
    }
}

pub open spec fn gshelf_at(nodes: Seq<Node>, j: int) -> GShelf {
    GShelf { shelf: shelf_name(mlabel(nodes, j)), pos: gpos(nodes, j) }
}

/// The corridors accumulated from markers with index below `j`, in
/// first-encounter order.
pub open spec fn gcorrs_upto(nodes: Seq<Node>, j: int) -> Seq<GCorr>
    decreases j,
{
    if j <= 0 {
        Seq::<GCorr>::empty()
    } else {
        let rest = gcorrs_upto(nodes, j - 1);
        if is_marker_node(nodes, j - 1) {
            upsert_corr(rest, corridor_name(mlabel(nodes, j - 1)), gshelf_at(nodes, j - 1))
        } else {
            rest
        }
    }
}

pub open spec fn gcorrs(nodes: Seq<Node>) -> Seq<GCorr> {
    gcorrs_upto(nodes, nodes.len() as int)
}

/// The exact componentwise sum of the first `j` shelf positions.
pub open spec fn sum_upto(ss: Seq<GShelf>, j: int) -> SVec2
    decreases j,
{
    if j <= 0 {
        SVec2 { x: r_of_int(0), y: r_of_int(0) }
    } else {
        vadd(sum_upto(ss, j - 1), ss[j - 1].pos)
    }
}

/// The exact componentwise mean of the shelf positions.
pub open spec fn mean_pos(ss: Seq<GShelf>) -> SVec2 {
    let s = sum_upto(ss, ss.len() as int);
    SVec2 { x: rdiv(s.x, r_of_int(ss.len() as int)), y: rdiv(s.y, r_of_int(ss.len() as int)) }
}

pub open spec fn sums_fit(ss: Seq<GShelf>) -> bool {
    forall|j: int| 0 <= j < ss.len() ==> vadd_fits(sum_upto(ss, j), #[trigger] ss[j].pos)
}

/// Can a corridor's average position be computed and projected?
pub open spec fn avg_ok(gc: GCorr, pts: Seq<SVec2>, cs: Seq<Connection>) -> bool {
    &&& gc.shelves.len() <= i64::MAX
    &&& sums_fit(gc.shelves)
    &&& r_fits(mean_pos(gc.shelves).x)
    &&& r_fits(mean_pos(gc.shelves).y)
    &&& cs.len() > 0
    &&& conn_dists_fit(pts, cs, mean_pos(gc.shelves))
}

/// The whole shelf extraction succeeds exactly when every marker and
/// every corridor average resolves.
pub open spec fn shelves_ok(nodes: Seq<Node>, pts: Seq<SVec2>, cs: Seq<Connection>) -> bool {
    &&& forall|j: int| #[trigger] is_marker_node(nodes, j) ==> marker_ok(nodes, pts, cs, j)
    &&& forall|ci: int|
        0 <= ci < gcorrs(nodes).len() ==> avg_ok(#[trigger] gcorrs(nodes)[ci], pts, cs)
}

/// The projection stored for `q` is the one onto the nearest
/// connection, with its exact parameter and point.
pub open spec fn proj_correct(
    pts: Seq<SVec2>,
    cs: Seq<Connection>,
    q: SVec2,
    rp: RouteProjection,
) -> bool {
    let k = nearest_conn(pts, cs, q);
    let a = pts[cs[k].i1 as int];
    let b = pts[cs[k].i2 as int];
    &&& rp.wf()
    &&& rp.connection == cs[k]
    &&& rp.t@ == project_t(q, a, b)
    &&& rp.point@ == project_point(q, a, b)
    &&& r_le(r_of_int(0), rp.t@)
    &&& r_le(rp.t@, r_of_int(1))
}

pub open spec fn shelf_correct(pts: Seq<SVec2>, cs: Seq<Connection>, sp: ShelfPosition) -> bool {
    &&& sp.x.wf()
    &&& sp.y.wf()
    &&& proj_correct(pts, cs, SVec2 { x: sp.x@, y: sp.y@ }, sp.route_projection)
}

/// Full correctness of one output corridor against its mathematical
/// content.
pub open spec fn corridor_correct(
    pts: Seq<SVec2>,
    cs: Seq<Connection>,
    gc: GCorr,
    c: Corridor,
) -> bool {
    &&& c.name@ == gc.name
    &&& gshelves_of(c.shelves@) == gc.shelves
    &&& c.shelves@.len() >= 1
    &&& forall|si: int|
        0 <= si < c.shelves@.len() ==> shelf_correct(pts, cs, #[trigger] c.shelves@[si])
    &&& forall|si: int|
        0 <= si < c.shelves@.len() ==> (#[trigger] c.shelves@[si]).corridor@ == gc.name
    &&& c.average_position.wf()
    &&& c.average_position@ == mean_pos(gc.shelves)
    &&& proj_correct(pts, cs, mean_pos(gc.shelves), c.route_projection)
}

/// Copy a byte string.
fn copy_bytes(v: &Vec<u8>) -> (r: Vec<u8>)
    ensures
        r@ == v@,
{
    let r = copy_range(v, 0, v.len());
    proof {
        assert(v@.subrange(0, v@.len() as int) =~= v@);
    }
    r
}

/// Find the corridor of the given name, in first-encounter order.
fn find_corridor(acc: &Vec<Corridor>, name: &Vec<u8>) -> (r: Option<usize>)
    ensures
        r matches Some(i) ==> find_corr_from(gcorrs_of(acc@), name@, 0) == Some(i as int) && i
            < acc@.len() && gcorrs_of(acc@)[i as int].name == name@,
        r is None <==> find_corr_from(gcorrs_of(acc@), name@, 0) is None,
{
    let ghost gcs = gcorrs_of(acc@);
    let mut i: usize = 0;
    while i < acc.len()
        invariant
            0 <= i <= acc@.len(),
            gcs == gcorrs_of(acc@),
            gcs.len() == acc@.len(),
            find_corr_from(gcs, name@, 0) == find_corr_from(gcs, name@, i as int),
        decreases acc@.len() - i,
    {
        if bytes_eq(&acc[i].name, name) {
            assert(gcs[i as int].name == name@);
            return Some(i);
        }
        assert(gcs[i as int].name != name@);
        i = i + 1;
    }
    None
}

/// Find the shelf of the given name within a corridor.
fn find_shelf(ss: &Vec<ShelfPosition>, name: &Vec<u8>) -> (r: Option<usize>)
    ensures
        r matches Some(i) ==> find_shelf_from(gshelves_of(ss@), name@, 0) == Some(i as int) && i
            < ss@.len() && gshelves_of(ss@)[i as int].shelf == name@,
        r is None <==> find_shelf_from(gshelves_of(ss@), name@, 0) is None,
{
    let ghost gss = gshelves_of(ss@);
    let mut i: usize = 0;
    while i < ss.len()
        invariant
            0 <= i <= ss@.len(),
            gss == gshelves_of(ss@),
            gss.len() == ss@.len(),
            find_shelf_from(gss, name@, 0) == find_shelf_from(gss, name@, i as int),
        decreases ss@.len() - i,
    {
        if bytes_eq(&ss[i].shelf, name) {
            assert(gss[i as int].shelf == name@);
            return Some(i);
        }
        assert(gss[i as int].shelf != name@);
        i = i + 1;
    }
    None
}

/// Insert a resolved shelf into its corridor, creating the corridor on
/// first encounter; a duplicate corridor and shelf name overwrites the
/// earlier entry in place.
fn upsert_position(
    acc: &mut Vec<Corridor>,
    corridor: &Vec<u8>,
    sp: ShelfPosition,
    Ghost(pts): Ghost<Seq<SVec2>>,
    Ghost(cs): Ghost<Seq<Connection>>,
)
    requires
        sp.corridor@ == corridor@,
        shelf_correct(pts, cs, sp),
        forall|ci: int|
            0 <= ci < old(acc)@.len() ==> (#[trigger] old(acc)@[ci]).shelves@.len() >= 1,
        forall|ci: int, si: int|
            0 <= ci < old(acc)@.len() && 0 <= si < old(acc)@[ci].shelves@.len() ==> shelf_correct(
                pts,
                cs,
                #[trigger] old(acc)@[ci].shelves@[si],
            ),
        forall|ci: int, si: int|
            0 <= ci < old(acc)@.len() && 0 <= si < old(acc)@[ci].shelves@.len() ==> (
            #[trigger] old(acc)@[ci].shelves@[si]).corridor@ == old(acc)@[ci].name@,
    ensures
        gcorrs_of(final(acc)@) == upsert_corr(
            gcorrs_of(old(acc)@),
            corridor@,
            GShelf { shelf: sp.shelf@, pos: SVec2 { x: sp.x@, y: sp.y@ } },
        ),
        forall|ci: int|
            0 <= ci < final(acc)@.len() ==> (#[trigger] final(acc)@[ci]).shelves@.len() >= 1,
        forall|ci: int, si: int|
            0 <= ci < final(acc)@.len() && 0 <= si < final(acc)@[ci].shelves@.len()
                ==> shelf_correct(pts, cs, #[trigger] final(acc)@[ci].shelves@[si]),
        forall|ci: int, si: int|
            0 <= ci < final(acc)@.len() && 0 <= si < final(acc)@[ci].shelves@.len() ==> (
            #[trigger] final(acc)@[ci].shelves@[si]).corridor@ == final(acc)@[ci].name@,
{
    let ghost old_gcs = gcorrs_of(acc@);
    let ghost gshelf = GShelf { shelf: sp.shelf@, pos: SVec2 { x: sp.x@, y: sp.y@ } };
    match find_corridor(acc, corridor) {
        Some(ci) => {
            let ghost old_acc = acc@;
            let mut c = acc.remove(ci);
            let ghost old_shelves = c.shelves@;
            match find_shelf(&c.shelves, &sp.shelf) {
                Some(si) => {
                    c.shelves.remove(si);
                    c.shelves.insert(si, sp);
                    proof {
                        assert(c.shelves@ =~= old_shelves.update(si as int, sp));
                        assert(gshelves_of(c.shelves@) =~~= upsert_shelf(
                            gshelves_of(old_shelves),
                            gshelf,
                        ));
                    }
                },
                None => {
                    c.shelves.push(sp);
                    proof {
                        assert(gshelves_of(c.shelves@) =~~= upsert_shelf(
                            gshelves_of(old_shelves),
                            gshelf,
                        ));
                    }
                },
            }
            let ghost new_corr = c;
            acc.insert(ci, c);
            proof {
                assert(acc@ =~= old_acc.update(ci as int, new_corr));
                assert(gcorrs_of(acc@) =~~= upsert_corr(old_gcs, corridor@, gshelf));
            }
        },
        None => {
            let mut shelves_vec: Vec<ShelfPosition> = Vec::new();
            shelves_vec.push(sp);
            let newc = Corridor {
                average_position: Vec2 { x: Rat::zero(), y: Rat::zero() },
                name: copy_bytes(corridor),
                shelves: shelves_vec,
                route_projection: RouteProjection {
                    connection: Connection { i1: 0, i2: 0 },
                    t: Rat::zero(),
                    point: Vec2 { x: Rat::zero(), y: Rat::zero() },
                },
            };
            acc.push(newc);
            proof {
                assert(gshelves_of(acc@[acc@.len() - 1].shelves@) =~~= seq![gshelf]);
                assert(gcorrs_of(acc@) =~~= upsert_corr(old_gcs, corridor@, gshelf));
            }
        },
    }
}

/// Scan the whole drawing for shelf markers, resolve each to global
/// coordinates, project it onto the nearest route connection, and
/// aggregate the shelves into corridors with their exact average
/// positions and projections.
///
/// Fails fatally when a marker lacks a label or its label lacks the
/// corridor/shelf separator, when a marker sits on an unsupported
/// shape or lacks required numeric attributes, when a marker exists
/// but the route has no connection, or when an exact coordinate leaves
/// the representable range.
#[verifier::rlimit(60)]
pub fn parse_shelves(doc: &Document, route: &Route) -> (r: Result<Vec<Corridor>, ExtractError>)
    requires
        doc.wf(),
        route.wf(),
    ensures
        r matches Ok(corrs) ==> {
            let pts = sviews(route.points@);
            let cs = route.connections@;
            let gcs = gcorrs(doc.nodes@);
            &&& corrs@.len() == gcs.len()
            &&& forall|ci: int|
                0 <= ci < gcs.len() ==> corridor_correct(pts, cs, gcs[ci], #[trigger] corrs@[ci])
        },
        r is Ok <==> shelves_ok(doc.nodes@, sviews(route.points@), route.connections@),
        r matches Err(e) ==> (e == ExtractError::MissingLabel || e
            == ExtractError::MissingLabelSeparator || e == ExtractError::UnsupportedShape || e
            == ExtractError::MissingAttribute || e == ExtractError::Overflow || e
            == ExtractError::DegenerateSegment || e == ExtractError::EmptyRoute),
{
    let ghost nodes = doc.nodes@;
    let ghost pts = sviews(route.points@);
    let ghost cs = route.connections@;
    let n = doc.nodes.len();
    let lists = doc.accumulated();
    let mut acc: Vec<Corridor> = Vec::new();
    let mut j: usize = 1;
    proof {
        assert(gcorrs_upto(nodes, 0) =~= Seq::<GCorr>::empty());
        assert(gcorrs_of(acc@) =~= gcorrs_upto(nodes, 1));
    }
    while j < n
        invariant
            1 <= j <= n,
            n == nodes.len(),
            nodes == doc.nodes@,
            doc.wf(),
            route.wf(),
            pts == sviews(route.points@),
            cs == route.connections@,
            lists@.len() == n,
            forall|i: int|
                0 <= i < n ==> (#[trigger] lists@[i]).transforms@ == acc_ops(nodes, i),
            forall|i: int| 0 <= i < n ==> (#[trigger] lists@[i]).wf(),
            gcorrs_of(acc@) == gcorrs_upto(nodes, j as int),
            forall|ci: int|
                0 <= ci < acc@.len() ==> (#[trigger] acc@[ci]).shelves@.len() >= 1,
            forall|ci: int, si: int|
                0 <= ci < acc@.len() && 0 <= si < acc@[ci].shelves@.len() ==> shelf_correct(
                    pts,
                    cs,
                    #[trigger] acc@[ci].shelves@[si],
                ),
            forall|ci: int, si: int|
                0 <= ci < acc@.len() && 0 <= si < acc@[ci].shelves@.len() ==> (
                #[trigger] acc@[ci].shelves@[si]).corridor@ == acc@[ci].name@,
            forall|j2: int|
                1 <= j2 < j && #[trigger] is_marker_node(nodes, j2) ==> marker_ok(
                    nodes,
                    pts,
                    cs,
                    j2,
                ),
        decreases n - j,
    {
        let node = &doc.nodes[j];
        if node.is_marker {
            assert(is_marker_node(nodes, j as int));
            let label = match &node.marker_label {
                Some(l) => l,
                None => {
                    assert(!marker_ok(nodes, pts, cs, j as int));
                    return Err(ExtractError::MissingLabel);
                },
            };
            let (corridor, shelf_nm) = match parse_label(label) {
                Ok(v) => v,
                Err(e) => {
                    assert(!marker_ok(nodes, pts, cs, j as int));
                    return Err(e);
                },
            };
            let local = match &node.shape {
                Shape::Circle { center } => {
                    match center {
                        Some(c) => *c,
                        None => {
                            assert(!marker_shape_ok(nodes, j as int));
                            assert(!marker_ok(nodes, pts, cs, j as int));
                            return Err(ExtractError::MissingAttribute);
                        },
                    }
                },
                Shape::Rect { pos, size } => {
                    let p = match pos {
                        Some(p) => *p,
                        None => {
                            assert(!marker_shape_ok(nodes, j as int));
                            assert(!marker_ok(nodes, pts, cs, j as int));
                            return Err(ExtractError::MissingAttribute);
                        },
                    };
                    let s = match size {
                        Some(s) => *s,
                        None => {
                            assert(!marker_shape_ok(nodes, j as int));
                            assert(!marker_ok(nodes, pts, cs, j as int));
                            return Err(ExtractError::MissingAttribute);
                        },
                    };
                    let half_rat = Rat::new(1, 2);
                    let hx = match s.x.mul(&half_rat) {
                        Some(v) => v,
                        None => {
                            assert(!marker_shape_ok(nodes, j as int));
                            assert(!marker_ok(nodes, pts, cs, j as int));
                            return Err(ExtractError::Overflow);
                        },
                    };
                    let cx = match p.x.add(&hx) {
                        Some(v) => v,
                        None => {
                            assert(!marker_shape_ok(nodes, j as int));
                            assert(!marker_ok(nodes, pts, cs, j as int));
                            return Err(ExtractError::Overflow);
                        },
                    };
                    let hy = match s.y.mul(&half_rat) {
                        Some(v) => v,
                        None => {
                            assert(!marker_shape_ok(nodes, j as int));
                            assert(!marker_ok(nodes, pts, cs, j as int));
                            return Err(ExtractError::Overflow);
                        },
                    };
                    let cy = match p.y.add(&hy) {
                        Some(v) => v,
                        None => {
                            assert(!marker_shape_ok(nodes, j as int));
                            assert(!marker_ok(nodes, pts, cs, j as int));
                            return Err(ExtractError::Overflow);
                        },
                    };
                    Vec2 { x: cx, y: cy }
                },
                _ => {
                    assert(!marker_shape_ok(nodes, j as int));
                    assert(!marker_ok(nodes, pts, cs, j as int));
                    return Err(ExtractError::UnsupportedShape);
                },
            };
            assert(local@ == mcenter(nodes, j as int));
            let point = match lists[j].apply(local) {
                Ok(p) => p,
                Err(_) => {
                    assert(!marker_ok(nodes, pts, cs, j as int));
                    return Err(ExtractError::Overflow);
                },
            };
            assert(point@ == gpos(nodes, j as int));
            if route.connections.len() == 0 {
                assert(!marker_ok(nodes, pts, cs, j as int));
                return Err(ExtractError::EmptyRoute);
            }
            let nk = match nearest_connection(route, &point) {
                Ok(k) => k,
                Err(e) => {
                    assert(!marker_ok(nodes, pts, cs, j as int));
                    return Err(e);
                },
            };
            let conn = route.connections[nk];
            let rp = match RouteProjection::new(conn, point, route) {
                Ok(rp) => rp,
                Err(_) => {
                    proof {
                        assert(seg_dist_fits(pts, cs[nk as int], point@));
                        assert(false);
                    }
                    return Err(ExtractError::Overflow);
                },
            };
            let sp = ShelfPosition {
                corridor: copy_bytes(&corridor),
                shelf: copy_bytes(&shelf_nm),
                x: point.x,
                y: point.y,
                route_projection: rp,
            };
            assert(shelf_correct(pts, cs, sp));
            let ghost gshelf = gshelf_at(nodes, j as int);
            proof {
                assert(gshelf.shelf == sp.shelf@);
                assert(gshelf.pos == (SVec2 { x: sp.x@, y: sp.y@ }));
            }
            upsert_position(&mut acc, &corridor, sp, Ghost(pts), Ghost(cs));
            proof {
                assert(gcorrs_of(acc@) == gcorrs_upto(nodes, j as int + 1));
            }
        }
        j = j + 1;
    }
    let ghost gcs = gcorrs(nodes);
    proof {
        assert(gcorrs_of(acc@) == gcs);
    }
    let mut out: Vec<Corridor> = Vec::new();
    while acc.len() > 0
        invariant
            nodes == doc.nodes@,
            route.wf(),
            pts == sviews(route.points@),
            cs == route.connections@,
            gcs == gcorrs(nodes),
            out@.len() + acc@.len() == gcs.len(),
            forall|i: int|
                0 <= i < out@.len() ==> corridor_correct(pts, cs, gcs[i], #[trigger] out@[i]),
            forall|i: int| 0 <= i < out@.len() ==> avg_ok(gcs[i], pts, cs),
            forall|i: int|
                0 <= i < acc@.len() ==> gcorr_of(#[trigger] acc@[i]) == gcs[out@.len() + i],
            forall|ci: int|
                0 <= ci < acc@.len() ==> (#[trigger] acc@[ci]).shelves@.len() >= 1,
            forall|ci: int, si: int|
                0 <= ci < acc@.len() && 0 <= si < acc@[ci].shelves@.len() ==> shelf_correct(
                    pts,
                    cs,
                    #[trigger] acc@[ci].shelves@[si],
                ),
            forall|ci: int, si: int|
                0 <= ci < acc@.len() && 0 <= si < acc@[ci].shelves@.len() ==> (
                #[trigger] acc@[ci].shelves@[si]).corridor@ == acc@[ci].name@,
        decreases acc@.len(),
    {
        let ghost ci = out@.len() as int;
        let c = acc.remove(0);
        let ghost gc = gcorr_of(c);
        proof {
            assert(gc == gcs[ci]);
        }
        let mut sum = Vec2 { x: Rat::zero(), y: Rat::zero() };
        let mut si: usize = 0;
        while si < c.shelves.len()
            invariant
                0 <= si <= c.shelves@.len(),
                gc == gcorr_of(c),
                gc.shelves.len() == c.shelves@.len(),
                sum.wf(),
                sum@ == sum_upto(gc.shelves, si as int),
                forall|s2: int|
                    0 <= s2 < si ==> vadd_fits(sum_upto(gc.shelves, s2), #[trigger] gc.shelves[s2].pos),
                forall|s2: int|
                    0 <= s2 < c.shelves@.len() ==> shelf_correct(
                        pts,
                        cs,
                        #[trigger] c.shelves@[s2],
                    ),
                nodes == doc.nodes@,
                pts == sviews(route.points@),
                cs == route.connections@,
                route.wf(),
                gcs == gcorrs(nodes),
                0 <= ci < gcs.len(),
                gc == gcs[ci],
            decreases c.shelves@.len() - si,
        {
            let p = Vec2 { x: c.shelves[si].x, y: c.shelves[si].y };
            assert(p@ == gc.shelves[si as int].pos);
            sum = match sum.add(&p) {
                Some(s) => s,
                None => {
                    assert(!sums_fit(gc.shelves));
                    assert(!avg_ok(gcorrs(nodes)[ci], pts, cs));
                    return Err(ExtractError::Overflow);
                },
            };
            si = si + 1;
        }
        let count = c.shelves.len();
        proof {
            assert(gc.shelves.len() == c.shelves@.len());
        }
        if (count as u64) > (i64::MAX as u64) {
            assert(!avg_ok(gcorrs(nodes)[ci], pts, cs));
            return Err(ExtractError::Overflow);
        }
        let count_rat = Rat::from_int(count as i64);
        let ax = match sum.x.div(&count_rat) {
            Some(v) => v,
            None => {
                assert(!avg_ok(gcorrs(nodes)[ci], pts, cs));
                return Err(ExtractError::Overflow);
            },
        };
        let ay = match sum.y.div(&count_rat) {
            Some(v) => v,
            None => {
                assert(!avg_ok(gcorrs(nodes)[ci], pts, cs));
                return Err(ExtractError::Overflow);
            },
        };
        let avg = Vec2 { x: ax, y: ay };
        assert(avg@ == mean_pos(gc.shelves));
        if route.connections.len() == 0 {
            assert(!avg_ok(gcorrs(nodes)[ci], pts, cs));
            return Err(ExtractError::EmptyRoute);
        }
        let nk = match nearest_connection(route, &avg) {
            Ok(k) => k,
            Err(e) => {
                assert(!avg_ok(gcorrs(nodes)[ci], pts, cs));
                return Err(e);
            },
        };
        let rp = match RouteProjection::new(route.connections[nk], avg, route) {
            Ok(rp) => rp,
            Err(_) => {
                proof {
                    assert(seg_dist_fits(pts, cs[nk as int], avg@));
                    assert(false);
                }
                return Err(ExtractError::Overflow);
            },
        };
        proof {
            assert(avg_ok(gcorrs(nodes)[ci], pts, cs));
        }
        let Corridor { name, shelves, .. } = c;
        out.push(
            Corridor { average_position: avg, name, shelves, route_projection: rp },
        );
    }
    proof {
        assert(shelves_ok(nodes, pts, cs));
    }
    Ok(out)
}

} // verus!
