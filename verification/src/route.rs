//! Route graph extraction.
//!
//! The route graph lives in the one group node labelled `Route`: its
//! direct circle children are the route points, in document order, and
//! its direct path children are the edges, each decoding to exactly two
//! vertices whose nearest route points it connects.

use vstd::prelude::*;

use crate::document::{acc_ops, bytes_eq, Document, Node, Shape};
use crate::error::ExtractError;
use crate::rat::r_lt;
use crate::transform::{apply_from_fits, apply_ops, TransformList};
use crate::vec2::{sviews, vdist_sqr, vdot_fits, vsub, vsub_fits, SVec2, Vec2};

verus! {

/// The bytes of the label that designates the route group.
pub open spec fn route_word() -> Seq<u8> {
    seq![82u8, 111u8, 117u8, 116u8, 101u8]
}

/// The bytes of the label that designates the start point.
pub open spec fn start_word() -> Seq<u8> {
    seq![115u8, 116u8, 97u8, 114u8, 116u8]
}

/// `"Route"` as bytes.
fn route_word_vec() -> (r: Vec<u8>)
    ensures
        r@ =~= route_word(),
{
    let mut r: Vec<u8> = Vec::new();
    r.push(82);
    r.push(111);
    r.push(117);
    r.push(116);
    r.push(101);
    r
}

/// `"start"` as bytes.
fn start_word_vec() -> (r: Vec<u8>)
    ensures
        r@ =~= start_word(),
{
    let mut r: Vec<u8> = Vec::new();
    r.push(115);
    r.push(116);
    r.push(97);
    r.push(114);
    r.push(116);
    r
}

/// Does the tool label hold the given word?
fn has_label_word(l: &Option<Vec<u8>>, word: &Vec<u8>) -> (r: bool)
    ensures
        r == (l matches Some(v) && v@ == word@),
{
    match l {
        Some(v) => bytes_eq(v, word),
        None => false,
    }
}

/// Is node `i` the route group: a group carrying the route label?
pub open spec fn is_route_group(nodes: Seq<Node>, i: int) -> bool {
    &&& 1 <= i < nodes.len()
    &&& nodes[i].shape is Group
    &&& nodes[i].route_label matches Some(l) && l@ == route_word()
}

/// The first route group at index `i` or later, in document order.
pub open spec fn first_group_from(nodes: Seq<Node>, i: int) -> Option<int>
    decreases nodes.len() - i,
{
    if i >= nodes.len() {
        None
    } else if is_route_group(nodes, i) {
        Some(i)
    } else {
        first_group_from(nodes, i + 1)
    }
}

/// Is node `j` a direct circle child of group `g`?
pub open spec fn is_circle_child(nodes: Seq<Node>, g: int, j: int) -> bool {
    &&& 1 <= j < nodes.len()
    &&& nodes[j].parent == g
    &&& nodes[j].shape is Circle
}

/// Is node `j` a direct path child of group `g`?
pub open spec fn is_path_child(nodes: Seq<Node>, g: int, j: int) -> bool {
    &&& 1 <= j < nodes.len()
    &&& nodes[j].parent == g
    &&& nodes[j].shape is Path
}

/// The centre of a circle node (arbitrary when absent).
pub open spec fn ccenter(nodes: Seq<Node>, j: int) -> SVec2 {
    match nodes[j].shape {
        Shape::Circle { center: Some(c) } => c@,
        _ => arbitrary(),
    }
}

/// The vertex list of a path node (arbitrary when absent).
pub open spec fn pverts(nodes: Seq<Node>, j: int) -> Seq<Vec2> {
    match nodes[j].shape {
        Shape::Path { verts: Some(vs) } => vs@,
        _ => arbitrary(),
    }
}

/// The route points contributed by circle children with index below `j`:
/// each centre mapped to global space by the group's accumulated transform.
pub open spec fn pts_upto(nodes: Seq<Node>, g: int, j: int) -> Seq<SVec2>
    decreases j,
{
    if j <= 0 {
        Seq::<SVec2>::empty()
    } else {
        let rest = pts_upto(nodes, g, j - 1);
        if is_circle_child(nodes, g, j - 1) {
            rest.push(apply_ops(acc_ops(nodes, g), ccenter(nodes, j - 1)))
        } else {
            rest
        }
    }
}

/// The start index chosen by circle children below `j`: the last
/// start-labelled circle wins; without one the start is point 0.
pub open spec fn start_upto(nodes: Seq<Node>, g: int, j: int) -> int
    decreases j,
{
    if j <= 0 {
        0
    } else if is_circle_child(nodes, g, j - 1) && (nodes[j - 1].route_label matches Some(l) && l@
        == start_word()) {
        pts_upto(nodes, g, j - 1).len() as int
    } else {
        start_upto(nodes, g, j - 1)
    }
}

/// Can every circle child be resolved: a present centre whose transform
/// to global space stays representable?
pub open spec fn circle_ok(nodes: Seq<Node>, g: int, j: int) -> bool {
    &&& nodes[j].shape matches Shape::Circle { center: Some(c) }
    &&& apply_from_fits(acc_ops(nodes, g), 0, ccenter(nodes, j))
}

pub open spec fn circles_ok(nodes: Seq<Node>, g: int) -> bool {
    forall|j: int| #[trigger] is_circle_child(nodes, g, j) ==> circle_ok(nodes, g, j)
}

/// Success condition of the squared-distance computation between two points.
pub open spec fn dist_sqr_fits(a: SVec2, b: SVec2) -> bool {
    vsub_fits(b, a) && vdot_fits(vsub(b, a), vsub(b, a))
}

pub open spec fn dists_fit(pts: Seq<SVec2>, q: SVec2) -> bool {
    forall|k: int| 0 <= k < pts.len() ==> dist_sqr_fits(#[trigger] pts[k], q)
}

/// The index of the route point nearest to `q` among the first `j`
/// points, the first one winning ties.
pub open spec fn nearest_upto(pts: Seq<SVec2>, q: SVec2, j: int) -> int
    decreases j,
{
    if j <= 1 {
        0
    } else {
        let b = nearest_upto(pts, q, j - 1);
        if r_lt(vdist_sqr(pts[j - 1], q), vdist_sqr(pts[b], q)) {
            j - 1
        } else {
            b
        }
    }
}

/// The nearest route point to `q`, the first winning ties.
pub open spec fn nearest_pt(pts: Seq<SVec2>, q: SVec2) -> int {
    nearest_upto(pts, q, pts.len() as int)
}

/// An undirected straight edge between two route points.
#[derive(Clone, Copy, Debug, PartialEq, Eq, Structural)]
pub struct Connection {
    pub i1: usize,
    pub i2: usize,
}

/// The two endpoints of path child `j` in global space.
pub open spec fn path_endpoint(nodes: Seq<Node>, g: int, j: int, k: int) -> SVec2 {
    apply_ops(acc_ops(nodes, g), pverts(nodes, j)[k]@)
}

/// The connection recorded for path child `j`.
pub open spec fn conn_of(nodes: Seq<Node>, g: int, pts: Seq<SVec2>, j: int) -> Connection {
    Connection {
        i1: nearest_pt(pts, path_endpoint(nodes, g, j, 0)) as usize,
        i2: nearest_pt(pts, path_endpoint(nodes, g, j, 1)) as usize,
    }
}

/// The connections contributed by path children with index below `j`.
pub open spec fn conns_upto(nodes: Seq<Node>, g: int, pts: Seq<SVec2>, j: int) -> Seq<Connection>
    decreases j,
{
    if j <= 0 {
        Seq::<Connection>::empty()
    } else {
        let rest = conns_upto(nodes, g, pts, j - 1);
        if is_path_child(nodes, g, j - 1) {
            rest.push(conn_of(nodes, g, pts, j - 1))
        } else {
            rest
        }
    }
}

/// Can path child `j` be resolved into a connection: exactly two
/// vertices, representable transforms and distances, a point to attach
/// to at each end, and two distinct endpoints.
pub open spec fn path_ok(nodes: Seq<Node>, g: int, pts: Seq<SVec2>, j: int) -> bool {
    &&& nodes[j].shape matches Shape::Path { verts: Some(vs) } && vs@.len() == 2
    &&& apply_from_fits(acc_ops(nodes, g), 0, pverts(nodes, j)[0]@)
    &&& apply_from_fits(acc_ops(nodes, g), 0, pverts(nodes, j)[1]@)
    &&& pts.len() > 0
    &&& dists_fit(pts, path_endpoint(nodes, g, j, 0))
    &&& dists_fit(pts, path_endpoint(nodes, g, j, 1))
    &&& nearest_pt(pts, path_endpoint(nodes, g, j, 0)) != nearest_pt(
        pts,
        path_endpoint(nodes, g, j, 1),
    )
}

pub open spec fn paths_ok(nodes: Seq<Node>, g: int, pts: Seq<SVec2>) -> bool {
    forall|j: int| #[trigger] is_path_child(nodes, g, j) ==> path_ok(nodes, g, pts, j)
}

/// The adjacency list of point `p` derived from the first `j`
/// connections: both directions of every connection, in order.
pub open spec fn adj_upto(cs: Seq<Connection>, p: int, j: int) -> Seq<usize>
    decreases j,
{
    if j <= 0 {
        Seq::<usize>::empty()
    } else {
        let rest = adj_upto(cs, p, j - 1);
        let c = cs[j - 1];
        let with_fwd = if c.i1 == p {
            rest.push(c.i2)
        } else {
            rest
        };
        if c.i2 == p {
            with_fwd.push(c.i1)
        } else {
            with_fwd
        }
    }
}

/// The whole extraction succeeds exactly when a route group exists and
/// all of its circle and path children resolve.
pub open spec fn spec_route_ok(nodes: Seq<Node>) -> bool {
    &&& first_group_from(nodes, 1) matches Some(g)
    &&& circles_ok(nodes, first_group_from(nodes, 1).unwrap())
    &&& paths_ok(
        nodes,
        first_group_from(nodes, 1).unwrap(),
        pts_upto(nodes, first_group_from(nodes, 1).unwrap(), nodes.len() as int),
    )
}

/// The navigation graph extracted from the drawing.
#[derive(Debug)]
pub struct Route {
    pub start: usize,
    pub points: Vec<Vec2>,
    pub connections_dict: Vec<Vec<usize>>,
    pub connections: Vec<Connection>,
}

impl Route {
    /// Structural soundness: well-formed points, connections between
    /// two distinct existing points, and an adjacency list that is
    /// exactly the one derived from the connections.
    pub open spec fn wf(self) -> bool {
        &&& forall|k: int| 0 <= k < self.points@.len() ==> (#[trigger] self.points@[k]).wf()
        &&& forall|k: int|
            0 <= k < self.connections@.len() ==> ((#[trigger] self.connections@[k]).i1
                < self.points@.len() && self.connections@[k].i2 < self.points@.len()
                && self.connections@[k].i1 != self.connections@[k].i2)
        &&& self.connections_dict@.len() == self.points@.len()
        &&& forall|p: int|
            0 <= p < self.connections_dict@.len() ==> (#[trigger] self.connections_dict@[p])@
                == adj_upto(self.connections@, p, self.connections@.len() as int)
        &&& (self.points@.len() > 0 ==> self.start < self.points@.len())
        &&& (self.points@.len() == 0 ==> self.start == 0)
    }
}

/// Find the route group, in document order.
fn find_route_group(doc: &Document) -> (r: Result<usize, ExtractError>)
    requires
        doc.wf(),
    ensures
        r matches Ok(g) ==> first_group_from(doc.nodes@, 1) == Some(g as int)
            && is_route_group(doc.nodes@, g as int),
        r is Err <==> first_group_from(doc.nodes@, 1) is None,
        r is Err ==> r == Err::<usize, ExtractError>(ExtractError::MissingRouteGroup),
{
    let n = doc.nodes.len();
    let word = route_word_vec();
    let mut i: usize = 1;
    while i < n
        invariant
            1 <= i <= n,
            n == doc.nodes@.len(),
            doc.wf(),
            word@ == route_word(),
            first_group_from(doc.nodes@, 1) == first_group_from(doc.nodes@, i as int),
        decreases n - i,
    {
        let node = &doc.nodes[i];
        let is_group = match node.shape {
            Shape::Group => true,
            _ => false,
        };
        if is_group && has_label_word(&node.route_label, &word) {
            return Ok(i);
        }
        i = i + 1;
    }
    Err(ExtractError::MissingRouteGroup)
}

/// Collect the route points and the start index from the group's
/// direct circle children, in document order.
fn collect_route_points(doc: &Document, g: usize, tl: &TransformList) -> (r: Result<
    (Vec<Vec2>, usize),
    ExtractError,
>)
    requires
        doc.wf(),
        1 <= g < doc.nodes@.len(),
        tl.wf(),
        tl.transforms@ == acc_ops(doc.nodes@, g as int),
    ensures
        r matches Ok(v) ==> {
            &&& sviews(v.0@) == pts_upto(doc.nodes@, g as int, doc.nodes@.len() as int)
            &&& forall|k: int| 0 <= k < v.0@.len() ==> (#[trigger] v.0@[k]).wf()
            &&& v.1 as int == start_upto(doc.nodes@, g as int, doc.nodes@.len() as int)
            &&& (v.0@.len() > 0 ==> (v.1 as int) < v.0@.len())
            &&& (v.0@.len() == 0 ==> v.1 == 0)
        },
        r is Ok <==> circles_ok(doc.nodes@, g as int),
        r matches Err(e) ==> (e == ExtractError::MissingAttribute || e == ExtractError::Overflow),
{
    let ghost nodes = doc.nodes@;
    let n = doc.nodes.len();
    let start_bytes = start_word_vec();
    let mut points: Vec<Vec2> = Vec::new();
    let mut start: usize = 0;
    let mut j: usize = 1;
    proof {
        assert(pts_upto(nodes, g as int, 0) =~= Seq::<SVec2>::empty());
        assert(sviews(points@) =~= pts_upto(nodes, g as int, 1));
        assert(start_upto(nodes, g as int, 0) == 0);
    }
    while j < n
        invariant
            1 <= j <= n,
            n == nodes.len(),
            nodes == doc.nodes@,
            doc.wf(),
            1 <= g < n,
            tl.wf(),
            tl.transforms@ == acc_ops(nodes, g as int),
            start_bytes@ == start_word(),
            sviews(points@) == pts_upto(nodes, g as int, j as int),
            forall|k: int| 0 <= k < points@.len() ==> (#[trigger] points@[k]).wf(),
            start as int == start_upto(nodes, g as int, j as int),
            points@.len() > 0 ==> (start as int) < points@.len(),
            points@.len() == 0 ==> start == 0,
            forall|j2: int|
                1 <= j2 < j && #[trigger] is_circle_child(nodes, g as int, j2) ==> circle_ok(
                    nodes,
                    g as int,
                    j2,
                ),
        decreases n - j,
    {
        let node = &doc.nodes[j];
        let mut is_circle = false;
        let mut center_opt: Option<Vec2> = None;
        match &node.shape {
            Shape::Circle { center } => {
                is_circle = true;
                center_opt = *center;
            },
            _ => {},
        }
        if node.parent == g && is_circle {
            assert(is_circle_child(nodes, g as int, j as int));
            let center = match center_opt {
                Some(c) => c,
                None => {
                    assert(!circle_ok(nodes, g as int, j as int));
                    return Err(ExtractError::MissingAttribute);
                },
            };
            assert(center@ == ccenter(nodes, j as int));
            let point = match tl.apply(center) {
                Ok(p) => p,
                Err(_) => {
                    assert(!circle_ok(nodes, g as int, j as int));
                    return Err(ExtractError::Overflow);
                },
            };
            if has_label_word(&node.route_label, &start_bytes) {
                start = points.len();
            }
            points.push(point);
            proof {
                assert(sviews(points@) =~= pts_upto(nodes, g as int, j as int + 1));
            }
        }
        j = j + 1;
    }
    Ok((points, start))
}

/// The route point nearest to `q`, the first winning ties on exact
/// squared distance.
fn nearest_point(points: &Vec<Vec2>, q: &Vec2) -> (r: Result<usize, ExtractError>)
    requires
        forall|k: int| 0 <= k < points@.len() ==> (#[trigger] points@[k]).wf(),
        q.wf(),
        points@.len() > 0,
    ensures
        r matches Ok(k) ==> k as int == nearest_pt(sviews(points@), q@) && k < points@.len(),
        r is Ok <==> dists_fit(sviews(points@), q@),
        r is Err ==> r == Err::<usize, ExtractError>(ExtractError::Overflow),
{
    let ghost pts = sviews(points@);
    let mut best: usize = 0;
    let mut best_dist = match points[0].distance_sqr(q) {
        Some(d) => d,
        None => {
            assert(!dist_sqr_fits(pts[0], q@));
            return Err(ExtractError::Overflow);
        },
    };
    let mut k: usize = 1;
    while k < points.len()
        invariant
            1 <= k <= points@.len(),
            pts == sviews(points@),
            pts.len() == points@.len(),
            forall|i: int| 0 <= i < points@.len() ==> (#[trigger] points@[i]).wf(),
            q.wf(),
            best < k,
            best as int == nearest_upto(pts, q@, k as int),
            best_dist.wf(),
            best_dist@ == vdist_sqr(pts[best as int], q@),
            forall|i: int| 0 <= i < k ==> dist_sqr_fits(#[trigger] pts[i], q@),
        decreases points@.len() - k,
    {
        let d = match points[k].distance_sqr(q) {
            Some(d) => d,
            None => {
                assert(!dist_sqr_fits(pts[k as int], q@));
                return Err(ExtractError::Overflow);
            },
        };
        if d.lt(&best_dist) {
            best = k;
            best_dist = d;
        }
        k = k + 1;
    }
    Ok(best)
}

/// Collect the connections from the group's direct path children, in
/// document order.
fn collect_connections(
    doc: &Document,
    g: usize,
    tl: &TransformList,
    points: &Vec<Vec2>,
) -> (r: Result<Vec<Connection>, ExtractError>)
    requires
        doc.wf(),
        1 <= g < doc.nodes@.len(),
        tl.wf(),
        tl.transforms@ == acc_ops(doc.nodes@, g as int),
        forall|k: int| 0 <= k < points@.len() ==> (#[trigger] points@[k]).wf(),
    ensures
        r matches Ok(cs) ==> {
            &&& cs@ == conns_upto(
                doc.nodes@,
                g as int,
                sviews(points@),
                doc.nodes@.len() as int,
            )
            &&& forall|k: int|
                0 <= k < cs@.len() ==> ((#[trigger] cs@[k]).i1 < points@.len() && cs@[k].i2
                    < points@.len() && cs@[k].i1 != cs@[k].i2)
        },
        r is Ok <==> paths_ok(doc.nodes@, g as int, sviews(points@)),
        r matches Err(e) ==> (e == ExtractError::MissingAttribute || e
            == ExtractError::BadPathVertexCount || e == ExtractError::NoRoutePoints || e
            == ExtractError::Overflow || e == ExtractError::DegenerateConnection),
{
    let ghost nodes = doc.nodes@;
    let ghost pts = sviews(points@);
    let n = doc.nodes.len();
    let mut conns: Vec<Connection> = Vec::new();
    let mut j: usize = 1;
    proof {
        assert(conns_upto(nodes, g as int, pts, 0) =~= Seq::<Connection>::empty());
        assert(conns@ =~= conns_upto(nodes, g as int, pts, 1));
    }
    while j < n
        invariant
            1 <= j <= n,
            n == nodes.len(),
            nodes == doc.nodes@,
            doc.wf(),
            1 <= g < n,
            tl.wf(),
            tl.transforms@ == acc_ops(nodes, g as int),
            pts == sviews(points@),
            pts.len() == points@.len(),
            forall|k: int| 0 <= k < points@.len() ==> (#[trigger] points@[k]).wf(),
            conns@ == conns_upto(nodes, g as int, pts, j as int),
            forall|k: int|
                0 <= k < conns@.len() ==> ((#[trigger] conns@[k]).i1 < points@.len()
                    && conns@[k].i2 < points@.len() && conns@[k].i1 != conns@[k].i2),
            forall|j2: int|
                1 <= j2 < j && #[trigger] is_path_child(nodes, g as int, j2) ==> path_ok(
                    nodes,
                    g as int,
                    pts,
                    j2,
                ),
        decreases n - j,
    {
        let node = &doc.nodes[j];
        let mut is_path = false;
        let mut verts_opt: Option<&Vec<Vec2>> = None;
        match &node.shape {
            Shape::Path { verts } => {
                is_path = true;
                verts_opt = match verts {
                    Some(vs) => Some(vs),
                    None => None,
                };
            },
            _ => {},
        }
        if node.parent == g && is_path {
            assert(is_path_child(nodes, g as int, j as int));
            let verts = match verts_opt {
                Some(vs) => vs,
                None => {
                    assert(!path_ok(nodes, g as int, pts, j as int));
                    return Err(ExtractError::MissingAttribute);
                },
            };
            assert(verts@ == pverts(nodes, j as int));
            if verts.len() != 2 {
                assert(!path_ok(nodes, g as int, pts, j as int));
                return Err(ExtractError::BadPathVertexCount);
            }
            if points.len() == 0 {
                assert(!path_ok(nodes, g as int, pts, j as int));
                return Err(ExtractError::NoRoutePoints);
            }
            let e1 = match tl.apply(verts[0]) {
                Ok(p) => p,
                Err(_) => {
                    assert(!path_ok(nodes, g as int, pts, j as int));
                    return Err(ExtractError::Overflow);
                },
            };
            let e2 = match tl.apply(verts[1]) {
                Ok(p) => p,
                Err(_) => {
                    assert(!path_ok(nodes, g as int, pts, j as int));
                    return Err(ExtractError::Overflow);
                },
            };
            assert(e1@ == path_endpoint(nodes, g as int, j as int, 0));
            assert(e2@ == path_endpoint(nodes, g as int, j as int, 1));
            let n1 = match nearest_point(points, &e1) {
                Ok(k) => k,
                Err(_) => {
                    assert(!path_ok(nodes, g as int, pts, j as int));
                    return Err(ExtractError::Overflow);
                },
            };
            let n2 = match nearest_point(points, &e2) {
                Ok(k) => k,
                Err(_) => {
                    assert(!path_ok(nodes, g as int, pts, j as int));
                    return Err(ExtractError::Overflow);
                },
            };
            if n1 == n2 {
                assert(!path_ok(nodes, g as int, pts, j as int));
                return Err(ExtractError::DegenerateConnection);
            }
            conns.push(Connection { i1: n1, i2: n2 });
            proof {
                assert(conns@ =~= conns_upto(nodes, g as int, pts, j as int + 1));
            }
        }
        j = j + 1;
    }
    Ok(conns)
}

/// Derive the adjacency lists from the connections: both directions of
/// every connection, in connection order.
fn build_adjacency(conns: &Vec<Connection>, n_points: usize) -> (r: Vec<Vec<usize>>)
    ensures
        r@.len() == n_points,
        forall|p: int|
            0 <= p < n_points ==> (#[trigger] r@[p])@ == adj_upto(conns@, p, conns@.len() as int),
{
    let mut dict: Vec<Vec<usize>> = Vec::new();
    let mut p: usize = 0;
    while p < n_points
        invariant
            0 <= p <= n_points,
            dict@.len() == p,
            forall|q: int|
                0 <= q < p ==> (#[trigger] dict@[q])@ == adj_upto(conns@, q, conns@.len() as int),
        decreases n_points - p,
    {
        let mut row: Vec<usize> = Vec::new();
        let mut j: usize = 0;
        while j < conns.len()
            invariant
                0 <= j <= conns@.len(),
                row@ == adj_upto(conns@, p as int, j as int),
            decreases conns@.len() - j,
        {
            let c = conns[j];
            if c.i1 == p {
                row.push(c.i2);
            }
            if c.i2 == p {
                row.push(c.i1);
            }
            j = j + 1;
        }
        dict.push(row);
        p = p + 1;
    }
    dict
}

proof fn lemma_push_contains<A>(s: Seq<A>, x: A, y: A)
    ensures
        s.contains(y) ==> s.push(x).contains(y),
        s.push(x).contains(x),
{
    assert(s.push(x)[s.len() as int] == x);
    if s.contains(y) {
        let i = choose|i: int| 0 <= i < s.len() && s[i] == y;
        assert(s.push(x)[i] == y);
    }
}

/// The adjacency list derived from the first `j` connections holds
/// both directions of every one of them.
proof fn lemma_adj_contains(cs: Seq<Connection>, p: int, j: int, k: int)
    requires
        0 <= k < j <= cs.len(),
    ensures
        cs[k].i1 == p ==> adj_upto(cs, p, j).contains(cs[k].i2),
        cs[k].i2 == p ==> adj_upto(cs, p, j).contains(cs[k].i1),
    decreases j,
{
    let rest = adj_upto(cs, p, j - 1);
    let c = cs[j - 1];
    let with_fwd = if c.i1 == p {
        rest.push(c.i2)
    } else {
        rest
    };
    if k == j - 1 {
        if c.i1 == p {
            lemma_push_contains(rest, c.i2, c.i2);
            if c.i2 == p {
                lemma_push_contains(with_fwd, c.i1, c.i2);
            }
        }
        if c.i2 == p {
            lemma_push_contains(with_fwd, c.i1, c.i1);
        }
    } else {
        lemma_adj_contains(cs, p, j - 1, k);
        if c.i1 == p {
            lemma_push_contains(rest, c.i2, cs[k].i2);
            lemma_push_contains(rest, c.i2, cs[k].i1);
        }
        if c.i2 == p {
            lemma_push_contains(with_fwd, c.i1, cs[k].i2);
            lemma_push_contains(with_fwd, c.i1, cs[k].i1);
        }
    }
}

/// Every connection of a well-formed route graph joins two distinct
/// existing points, and the adjacency map lists it in both directions.
pub proof fn lemma_route_graph_sound(route: Route, k: int)
    requires
        route.wf(),
        0 <= k < route.connections@.len(),
    ensures
        route.connections@[k].i1 != route.connections@[k].i2,
        route.connections@[k].i1 < route.points@.len(),
        route.connections@[k].i2 < route.points@.len(),
        route.connections_dict@[route.connections@[k].i1 as int]@.contains(
            route.connections@[k].i2,
        ),
        route.connections_dict@[route.connections@[k].i2 as int]@.contains(
            route.connections@[k].i1,
        ),
{
    let cs = route.connections@;
    lemma_adj_contains(cs, cs[k].i1 as int, cs.len() as int, k);
    lemma_adj_contains(cs, cs[k].i2 as int, cs.len() as int, k);
}

/// Build the route graph from the drawing.
///
/// Fails fatally when no route group exists, when a route circle or
/// path lacks its required numeric data, when a path does not decode to
/// exactly two vertices, when an edge cannot be attached to two
/// distinct route points, or when an exact coordinate leaves the
/// representable range.
pub fn parse_route(doc: &Document) -> (r: Result<Route, ExtractError>)
    requires
        doc.wf(),
    ensures
        r matches Ok(route) ==> {
            let nodes = doc.nodes@;
            let g = first_group_from(nodes, 1).unwrap();
            let pts = pts_upto(nodes, g, nodes.len() as int);
            &&& first_group_from(nodes, 1) is Some
            &&& sviews(route.points@) == pts
            &&& route.start as int == start_upto(nodes, g, nodes.len() as int)
            &&& route.connections@ == conns_upto(nodes, g, pts, nodes.len() as int)
            &&& route.wf()
        },
        r is Ok <==> spec_route_ok(doc.nodes@),
        r == Err::<Route, ExtractError>(ExtractError::MissingRouteGroup) <==> first_group_from(
            doc.nodes@,
            1,
        ) is None,
{
    let g = match find_route_group(doc) {
        Ok(g) => g,
        Err(e) => {
            return Err(e);
        },
    };
    let lists = doc.accumulated();
    let tl = &lists[g];
    let (points, start) = match collect_route_points(doc, g, tl) {
        Ok(v) => v,
        Err(e) => {
            return Err(e);
        },
    };
    let conns = match collect_connections(doc, g, tl, &points) {
        Ok(v) => v,
        Err(e) => {
            return Err(e);
        },
    };
    let dict = build_adjacency(&conns, points.len());
    Ok(Route { start, points, connections_dict: dict, connections: conns })
}

} // verus!
