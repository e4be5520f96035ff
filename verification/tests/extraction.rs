use warehouse_nav::document::{Document, Node, Shape};
use warehouse_nav::error::ExtractError;
use warehouse_nav::rat::Rat;
use warehouse_nav::route::{parse_route, Connection};
use warehouse_nav::shelves::{parse_label, parse_shelves, RouteProjection};
use warehouse_nav::transform::{TransformList, TransformOp};
use warehouse_nav::vec2::Vec2;

fn rat(n: i64, d: i64) -> Rat {
    Rat::new(n, d)
}

fn rat_is(r: &Rat, n: i64, d: i64) -> bool {
    (r.num as i128) * (d as i128) == (n as i128) * (r.den as i128)
}

fn v2(x: i64, y: i64) -> Vec2 {
    Vec2::new(Rat::from_int(x), Rat::from_int(y))
}

fn plain_node(parent: usize, shape: Shape) -> Node {
    Node {
        parent,
        shape,
        ops: Vec::new(),
        route_label: None,
        marker_label: None,
        is_marker: false,
    }
}

#[test]
fn rat_arithmetic_is_exact() {
    let a = rat(1, 3);
    let b = rat(1, 6);
    let s = a.add(&b).unwrap();
    assert!(rat_is(&s, 1, 2));
    let p = a.mul(&b).unwrap();
    assert!(rat_is(&p, 1, 18));
    let d = a.sub(&b).unwrap();
    assert!(rat_is(&d, 1, 6));
    let q = a.div(&b).unwrap();
    assert!(rat_is(&q, 2, 1));
    assert!(b.lt(&a));
    assert!(b.le(&a));
    assert!(!a.le(&b));
}

#[test]
fn rat_overflow_is_reported() {
    let big = Rat::from_int(i64::MAX);
    assert!(big.add(&Rat::one()).is_none());
    assert!(big.mul(&big).is_none());
}

#[test]
fn clamp_keeps_unit_interval() {
    assert!(rat_is(&rat(-3, 2).clamp01(), 0, 1));
    assert!(rat_is(&rat(5, 2).clamp01(), 1, 1));
    assert!(rat_is(&rat(1, 2).clamp01(), 1, 2));
}

#[test]
fn transform_chain_applies_inner_first() {
    // An outer translate over an inner scale: the scale acts on the
    // raw point first, the translate on its result.
    let ops = vec![
        TransformOp::Translate { tx: Rat::from_int(1), ty: Rat::from_int(2) },
        TransformOp::Scale { sx: Rat::from_int(2), sy: Rat::from_int(3) },
    ];
    let tl = TransformList::from(ops);
    let r = tl.apply(v2(5, 7)).unwrap();
    // Equals multiplying the affine matrices in root-to-leaf order
    // ([1 0 1; 0 1 2] * [2 0 0; 0 3 0]) and applying the product:
    // (2*5 + 1, 3*7 + 2).
    assert!(rat_is(&r.x, 11, 1));
    assert!(rat_is(&r.y, 23, 1));
}

#[test]
fn rotation_uses_exact_cosine_pair() {
    // A quarter turn: cos = 0, sin = 1 maps (1, 0) to (0, 1).
    let ops = vec![TransformOp::Rotate { cos: Rat::from_int(0), sin: Rat::from_int(1) }];
    let tl = TransformList::from(ops);
    let r = tl.apply(v2(1, 0)).unwrap();
    assert!(rat_is(&r.x, 0, 1));
    assert!(rat_is(&r.y, 1, 1));
}

#[test]
fn append_concatenates_transforms() {
    let mut outer = TransformList::from(vec![TransformOp::Translate {
        tx: Rat::from_int(1),
        ty: Rat::from_int(0),
    }]);
    let mut inner = TransformList::from(vec![TransformOp::Scale {
        sx: Rat::from_int(2),
        sy: Rat::from_int(2),
    }]);
    outer.append(&mut inner);
    assert_eq!(outer.transforms.len(), 2);
    assert_eq!(inner.transforms.len(), 0);
    let r = outer.apply(v2(3, 4)).unwrap();
    assert!(rat_is(&r.x, 7, 1));
    assert!(rat_is(&r.y, 8, 1));
}

#[test]
fn projection_clamps_to_segment() {
    // Projecting (1, 1) onto the segment (0,0)-(2,0) lands at (1, 0)
    // with t = 1/2.
    let p = v2(1, 1);
    let (proj, t) = p.project_line_segment(&v2(0, 0), &v2(2, 0)).unwrap();
    assert!(rat_is(&t, 1, 2));
    assert!(rat_is(&proj.x, 1, 1));
    assert!(rat_is(&proj.y, 0, 1));
    // Past the end the projection stays at the endpoint, t = 1.
    let q = v2(5, 1);
    let (proj2, t2) = q.project_line_segment(&v2(0, 0), &v2(2, 0)).unwrap();
    assert!(rat_is(&t2, 1, 1));
    assert!(rat_is(&proj2.x, 2, 1));
    assert!(rat_is(&proj2.y, 0, 1));
    // The projected point is no farther than either endpoint.
    let d_proj = q.distance_sqr(&proj2).unwrap();
    let d_a = q.distance_sqr(&v2(0, 0)).unwrap();
    let d_b = q.distance_sqr(&v2(2, 0)).unwrap();
    assert!(d_proj.le(&d_a));
    assert!(d_proj.le(&d_b));
}

#[test]
fn degenerate_segment_is_an_error() {
    let p = v2(1, 1);
    let r = p.project_line_segment(&v2(3, 3), &v2(3, 3));
    assert_eq!(r.unwrap_err(), ExtractError::DegenerateSegment);
}

#[test]
fn label_splits_on_first_separator() {
    let (c, s) = parse_label(&b"A1-12".to_vec()).unwrap();
    assert_eq!(c, b"A1".to_vec());
    assert_eq!(s, b"12".to_vec());
    // Anything after a second separator is dropped.
    let (c2, s2) = parse_label(&b"A1-12-3".to_vec()).unwrap();
    assert_eq!(c2, b"A1".to_vec());
    assert_eq!(s2, b"12".to_vec());
}

#[test]
fn label_without_separator_is_fatal() {
    let r = parse_label(&b"NoSeparator".to_vec());
    assert_eq!(r.unwrap_err(), ExtractError::MissingLabelSeparator);
}

fn circle_at(parent: usize, x: i64, y: i64) -> Node {
    plain_node(parent, Shape::Circle { center: Some(v2(x, y)) })
}

fn route_path(parent: usize, a: (i64, i64), b: (i64, i64)) -> Node {
    plain_node(parent, Shape::Path { verts: Some(vec![v2(a.0, a.1), v2(b.0, b.1)]) })
}

/// A drawing with a route group of three points broken at a corner,
/// two straight edges, and one shelf marker near the first edge.
fn synthetic_doc() -> Document {
    let mut doc = Document::new();
    let mut group = plain_node(0, Shape::Group);
    group.route_label = Some(b"Route".to_vec());
    let g = doc.add_node(group);
    doc.add_node(circle_at(g, 0, 0));
    doc.add_node(circle_at(g, 2, 0));
    doc.add_node(circle_at(g, 2, 2));
    doc.add_node(route_path(g, (0, 0), (2, 0)));
    doc.add_node(route_path(g, (2, 0), (2, 2)));
    let marker = Node {
        parent: 0,
        shape: Shape::Circle {
            center: Some(Vec2::new(Rat::from_int(1), rat(1, 2))),
        },
        ops: Vec::new(),
        route_label: None,
        marker_label: Some(b"A-1".to_vec()),
        is_marker: true,
    };
    doc.add_node(marker);
    doc
}

#[test]
fn route_graph_from_synthetic_document() {
    let doc = synthetic_doc();
    let route = parse_route(&doc).unwrap();
    assert_eq!(route.points.len(), 3);
    assert_eq!(route.connections.len(), 2);
    assert_eq!(route.connections[0], Connection { i1: 0, i2: 1 });
    assert_eq!(route.connections[1], Connection { i1: 1, i2: 2 });
    assert_eq!(route.start, 0);
    // Adjacency holds both directions of every connection.
    assert_eq!(route.connections_dict.len(), 3);
    assert_eq!(route.connections_dict[0], vec![1]);
    assert_eq!(route.connections_dict[1], vec![0, 2]);
    assert_eq!(route.connections_dict[2], vec![1]);
    for c in &route.connections {
        assert!(c.i1 != c.i2);
        assert!(c.i1 < route.points.len());
        assert!(c.i2 < route.points.len());
        assert!(route.connections_dict[c.i1].contains(&c.i2));
        assert!(route.connections_dict[c.i2].contains(&c.i1));
    }
}

#[test]
fn start_label_picks_start_point() {
    let mut doc = Document::new();
    let mut group = plain_node(0, Shape::Group);
    group.route_label = Some(b"Route".to_vec());
    let g = doc.add_node(group);
    doc.add_node(circle_at(g, 0, 0));
    let mut c1 = circle_at(g, 2, 0);
    c1.route_label = Some(b"start".to_vec());
    doc.add_node(c1);
    let route = parse_route(&doc).unwrap();
    assert_eq!(route.start, 1);
}

#[test]
fn group_transform_maps_route_points() {
    let mut doc = Document::new();
    let mut group = plain_node(0, Shape::Group);
    group.route_label = Some(b"Route".to_vec());
    group.ops = vec![TransformOp::Translate { tx: Rat::from_int(10), ty: Rat::from_int(0) }];
    let g = doc.add_node(group);
    doc.add_node(circle_at(g, 1, 1));
    let route = parse_route(&doc).unwrap();
    assert!(rat_is(&route.points[0].x, 11, 1));
    assert!(rat_is(&route.points[0].y, 1, 1));
}

#[test]
fn missing_route_group_is_fatal() {
    let doc = Document::new();
    assert_eq!(parse_route(&doc).unwrap_err(), ExtractError::MissingRouteGroup);
}

#[test]
fn route_path_needs_exactly_two_vertices() {
    let mut doc = Document::new();
    let mut group = plain_node(0, Shape::Group);
    group.route_label = Some(b"Route".to_vec());
    let g = doc.add_node(group);
    doc.add_node(circle_at(g, 0, 0));
    doc.add_node(circle_at(g, 2, 0));
    doc.add_node(plain_node(
        g,
        Shape::Path { verts: Some(vec![v2(0, 0), v2(1, 0), v2(2, 0)]) },
    ));
    assert_eq!(parse_route(&doc).unwrap_err(), ExtractError::BadPathVertexCount);
}

#[test]
fn route_circle_without_centre_is_fatal() {
    let mut doc = Document::new();
    let mut group = plain_node(0, Shape::Group);
    group.route_label = Some(b"Route".to_vec());
    let g = doc.add_node(group);
    doc.add_node(plain_node(g, Shape::Circle { center: None }));
    assert_eq!(parse_route(&doc).unwrap_err(), ExtractError::MissingAttribute);
}

#[test]
fn edge_between_one_point_is_degenerate() {
    let mut doc = Document::new();
    let mut group = plain_node(0, Shape::Group);
    group.route_label = Some(b"Route".to_vec());
    let g = doc.add_node(group);
    doc.add_node(circle_at(g, 0, 0));
    doc.add_node(route_path(g, (0, 0), (2, 0)));
    assert_eq!(parse_route(&doc).unwrap_err(), ExtractError::DegenerateConnection);
}

#[test]
fn end_to_end_shelf_projection() {
    let doc = synthetic_doc();
    let route = parse_route(&doc).unwrap();
    let corridors = parse_shelves(&doc, &route).unwrap();
    assert_eq!(corridors.len(), 1);
    let corr = &corridors[0];
    assert_eq!(corr.name, b"A".to_vec());
    assert_eq!(corr.shelves.len(), 1);
    let shelf = &corr.shelves[0];
    assert_eq!(shelf.corridor, b"A".to_vec());
    assert_eq!(shelf.shelf, b"1".to_vec());
    // The marker lies nearest to the first edge, strictly inside it.
    assert_eq!(shelf.route_projection.connection, Connection { i1: 0, i2: 1 });
    let t = &shelf.route_projection.t;
    assert!(t.num > 0);
    assert!(t.num < t.den);
    assert!(rat_is(t, 1, 2));
    assert!(rat_is(&shelf.route_projection.point.x, 1, 1));
    assert!(rat_is(&shelf.route_projection.point.y, 0, 1));
    // A single-shelf corridor's average is the shelf's coordinate.
    assert!(rat_is(&corr.average_position.x, 1, 1));
    assert!(rat_is(&corr.average_position.y, 1, 2));
    assert_eq!(corr.route_projection.connection, Connection { i1: 0, i2: 1 });
}

#[test]
fn corridor_average_is_componentwise_mean() {
    let mut doc = Document::new();
    let mut group = plain_node(0, Shape::Group);
    group.route_label = Some(b"Route".to_vec());
    let g = doc.add_node(group);
    doc.add_node(circle_at(g, 0, 0));
    doc.add_node(circle_at(g, 10, 0));
    doc.add_node(route_path(g, (0, 0), (10, 0)));
    for (x, y, label) in [(1i64, 1i64, b"B-1".to_vec()), (2, 2, b"B-2".to_vec()), (3, 6, b"B-3".to_vec())] {
        let mut m = circle_at(0, x, y);
        m.is_marker = true;
        m.marker_label = Some(label);
        doc.add_node(m);
    }
    let route = parse_route(&doc).unwrap();
    let corridors = parse_shelves(&doc, &route).unwrap();
    assert_eq!(corridors.len(), 1);
    let corr = &corridors[0];
    assert_eq!(corr.shelves.len(), 3);
    assert!(rat_is(&corr.average_position.x, 2, 1));
    assert!(rat_is(&corr.average_position.y, 3, 1));
}

#[test]
fn duplicate_shelf_key_overwrites() {
    let mut doc = Document::new();
    let mut group = plain_node(0, Shape::Group);
    group.route_label = Some(b"Route".to_vec());
    let g = doc.add_node(group);
    doc.add_node(circle_at(g, 0, 0));
    doc.add_node(circle_at(g, 10, 0));
    doc.add_node(route_path(g, (0, 0), (10, 0)));
    for (x, label) in [(1i64, b"C-1".to_vec()), (9, b"C-1".to_vec())] {
        let mut m = circle_at(0, x, 1);
        m.is_marker = true;
        m.marker_label = Some(label);
        doc.add_node(m);
    }
    let route = parse_route(&doc).unwrap();
    let corridors = parse_shelves(&doc, &route).unwrap();
    assert_eq!(corridors.len(), 1);
    assert_eq!(corridors[0].shelves.len(), 1);
    // The later marker wins.
    assert!(rat_is(&corridors[0].shelves[0].x, 9, 1));
}

#[test]
fn rect_marker_uses_its_centre() {
    let mut doc = Document::new();
    let mut group = plain_node(0, Shape::Group);
    group.route_label = Some(b"Route".to_vec());
    let g = doc.add_node(group);
    doc.add_node(circle_at(g, 0, 0));
    doc.add_node(circle_at(g, 10, 0));
    doc.add_node(route_path(g, (0, 0), (10, 0)));
    let mut m = plain_node(
        0,
        Shape::Rect { pos: Some(v2(2, 2)), size: Some(v2(2, 4)) },
    );
    m.is_marker = true;
    m.marker_label = Some(b"D-7".to_vec());
    doc.add_node(m);
    let route = parse_route(&doc).unwrap();
    let corridors = parse_shelves(&doc, &route).unwrap();
    assert!(rat_is(&corridors[0].shelves[0].x, 3, 1));
    assert!(rat_is(&corridors[0].shelves[0].y, 4, 1));
}

#[test]
fn marker_on_unsupported_shape_is_fatal() {
    let mut doc = synthetic_doc();
    let mut m = plain_node(0, Shape::Group);
    m.is_marker = true;
    m.marker_label = Some(b"E-1".to_vec());
    doc.add_node(m);
    let route = parse_route(&doc).unwrap();
    let r = parse_shelves(&doc, &route);
    assert_eq!(r.unwrap_err(), ExtractError::UnsupportedShape);
}

#[test]
fn marker_without_label_is_fatal() {
    let mut doc = synthetic_doc();
    let mut m = circle_at(0, 1, 1);
    m.is_marker = true;
    doc.add_node(m);
    let route = parse_route(&doc).unwrap();
    assert_eq!(parse_shelves(&doc, &route).unwrap_err(), ExtractError::MissingLabel);
}

#[test]
fn marker_without_connections_is_fatal() {
    let mut doc = Document::new();
    let mut group = plain_node(0, Shape::Group);
    group.route_label = Some(b"Route".to_vec());
    let g = doc.add_node(group);
    doc.add_node(circle_at(g, 0, 0));
    let mut m = circle_at(0, 1, 1);
    m.is_marker = true;
    m.marker_label = Some(b"F-1".to_vec());
    doc.add_node(m);
    let route = parse_route(&doc).unwrap();
    assert_eq!(parse_shelves(&doc, &route).unwrap_err(), ExtractError::EmptyRoute);
}

#[test]
fn projection_constructor_matches_direct_projection() {
    let doc = synthetic_doc();
    let route = parse_route(&doc).unwrap();
    let p = Vec2::new(Rat::from_int(1), Rat::from_int(1));
    let rp = RouteProjection::new(Connection { i1: 0, i2: 1 }, p, &route).unwrap();
    assert!(rat_is(&rp.t, 1, 2));
    assert!(rat_is(&rp.point.x, 1, 1));
    assert!(rat_is(&rp.point.y, 0, 1));
}
