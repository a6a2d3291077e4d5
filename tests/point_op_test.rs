use seeyou_cub::{ByteOrder, GridPoint, PointOp};

#[test]
fn point_op_point_op_size() {
    assert_eq!(std::mem::size_of::<PointOp>(), 6);
}

#[test]
fn point_op_point_op_construction() {
    let origin = PointOp::MoveOrigin { x: 100, y: 200 };
    let point = PointOp::NewPoint { x: 10, y: 20 };

    match origin {
        PointOp::MoveOrigin { x, y } => {
            assert_eq!(x, 100);
            assert_eq!(y, 200);
        }
        _ => panic!("Expected MoveOrigin"),
    }

    match point {
        PointOp::NewPoint { x, y } => {
            assert_eq!(x, 10);
            assert_eq!(y, 20);
        }
        _ => panic!("Expected NewPoint"),
    }
}

fn gp(x: i64, y: i64) -> GridPoint {
    GridPoint { x, y }
}

#[test]
fn grid_from_points_empty() {
    assert_eq!(PointOp::from_points(&vec![]), vec![]);
}

#[test]
fn grid_from_points_simple() {
    let ops = PointOp::from_points(&vec![gp(100, 200), gp(300, 400)]);
    assert_eq!(
        ops,
        vec![PointOp::NewPoint { x: 100, y: 200 }, PointOp::NewPoint { x: 300, y: 400 }]
    );
}

#[test]
fn grid_from_points_requires_move_origin() {
    let ops = PointOp::from_points(&vec![gp(0, 0), gp(50000, 40000)]);
    assert_eq!(
        ops,
        vec![
            PointOp::NewPoint { x: 0, y: 0 },
            PointOp::MoveOrigin { x: 32767, y: 32767 },
            PointOp::NewPoint { x: 17233, y: 7233 },
        ]
    );
}

#[test]
fn grid_from_points_multiple_move_origins() {
    // 3.0 radians at a scale of 0.00001 is 300000 units: nine full moves,
    // then the remainder.
    let ops = PointOp::from_points(&vec![gp(0, 0), gp(300000, 0)]);
    let mut expected = vec![PointOp::NewPoint { x: 0, y: 0 }];
    for _ in 0..9 {
        expected.push(PointOp::MoveOrigin { x: 32767, y: 0 });
    }
    expected.push(PointOp::NewPoint { x: 5097, y: 0 });
    assert_eq!(ops, expected);
}

#[test]
fn grid_from_points_negative_jump() {
    let ops = PointOp::from_points(&vec![gp(-70000, 10)]);
    assert_eq!(
        ops,
        vec![
            PointOp::MoveOrigin { x: -32768, y: 10 },
            PointOp::MoveOrigin { x: -32768, y: 0 },
            PointOp::NewPoint { x: -4464, y: 0 },
        ]
    );
}

#[test]
fn grid_round_trip() {
    let pts = vec![gp(5, 7), gp(123456, -98765), gp(-40000, 32768), gp(0, 0), gp(32767, -32768)];
    let ops = PointOp::from_points(&pts);
    assert_eq!(PointOp::resolve(&ops), pts);
}

#[test]
fn grid_resolve_with_origin_move() {
    let ops = vec![
        PointOp::NewPoint { x: 100, y: 200 },
        PointOp::MoveOrigin { x: 1000, y: 2000 },
        PointOp::NewPoint { x: 50, y: 100 },
    ];
    assert_eq!(PointOp::resolve(&ops), vec![gp(100, 200), gp(1050, 2100)]);
}

#[test]
fn point_op_write_bytes() {
    let mut buf = Vec::new();
    PointOp::MoveOrigin { x: 1, y: -1 }.write(&mut buf, ByteOrder::LE).unwrap();
    PointOp::NewPoint { x: 0x0102, y: 3 }.write(&mut buf, ByteOrder::BE).unwrap();
    assert_eq!(buf, vec![0x81, 1, 0, 0xFF, 0xFF, 0x01, 0x01, 0x02, 0, 3]);
}

#[test]
fn point_op_size() {
    assert_eq!(std::mem::size_of::<PointOp>(), 6);
}

#[test]
fn point_op_construction() {
    let origin = PointOp::MoveOrigin { x: 100, y: 200 };
    let point = PointOp::NewPoint { x: 10, y: 20 };

    match origin {
        PointOp::MoveOrigin { x, y } => {
            assert_eq!(x, 100);
            assert_eq!(y, 200);
        }
        _ => panic!("Expected MoveOrigin"),
    }

    match point {
        PointOp::NewPoint { x, y } => {
            assert_eq!(x, 10);
            assert_eq!(y, 20);
        }
        _ => panic!("Expected NewPoint"),
    }
}
