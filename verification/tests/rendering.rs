use kalman_sim::raster::animate;
use kalman_sim::rat::Rat;
use kalman_sim::render::{pixel, render, Color, Shape};
use kalman_sim::simulator::simulate_with_noise;
use kalman_sim::svg_doc::document_text;

#[test]
fn pixel_truncates_toward_zero() {
    assert_eq!(pixel(&Rat::new(3, 2), &Rat::one()), 1);
    assert_eq!(pixel(&Rat::new(-3, 2), &Rat::one()), -1);
    assert_eq!(pixel(&Rat::from_int(7), &Rat::from_int(10)), 70);
    assert_eq!(pixel(&Rat::zero(), &Rat::from_int(50)), 0);
}

#[test]
fn render_plan_matches_expected_shapes() {
    let truth = vec![
        (Rat::zero(), Rat::zero()),
        (Rat::one(), Rat::one()),
    ];
    let measured = vec![
        (Rat::zero(), Rat::new(1, 2)),
        (Rat::one(), Rat::new(3, 2)),
    ];
    let estimated = vec![
        (Rat::zero(), Rat::zero()),
        (Rat::one(), Rat::new(1, 2)),
    ];
    let shapes = render(&truth, &measured, &estimated, 100, &Rat::from_int(10));
    let expected = vec![
        Shape::Rect { x: 0, y: 0, width: 100, height: 100, fill: Color::White },
        Shape::Line { x1: 0, y1: 100, x2: 10, y2: 90, stroke: Color::Red, stroke_width: 2 },
        Shape::Line { x1: 0, y1: 100, x2: 10, y2: 95, stroke: Color::Green, stroke_width: 2 },
        Shape::Circle { cx: 0, cy: 95, radius: 2, fill: Color::Blue },
        Shape::Circle { cx: 10, cy: 85, radius: 2, fill: Color::Blue },
    ];
    assert_eq!(shapes, expected);
}

#[test]
fn document_serializes_shapes() {
    let shapes = vec![
        Shape::Rect { x: 0, y: 0, width: 80, height: 80, fill: Color::White },
        Shape::Line { x1: 1, y1: 2, x2: 3, y2: 4, stroke: Color::Red, stroke_width: 2 },
        Shape::Circle { cx: 5, cy: 6, radius: 2, fill: Color::Blue },
    ];
    let text = document_text(&shapes, 80);
    assert!(text.contains("<svg"));
    assert!(text.contains("rect"));
    assert!(text.contains("line"));
    assert!(text.contains("circle"));
    assert!(text.contains("red"));
    assert!(text.contains("blue"));
    assert!(text.contains("white"));
    assert!(text.contains("80"));
}

#[test]
fn animate_produces_one_frame_per_tick() {
    let noise = vec![Rat::zero(), Rat::zero()];
    let out = simulate_with_noise(
        Rat::from_int(2),
        Rat::one(),
        Rat::from_int(1),
        Rat::one(),
        Rat::zero(),
        &noise,
    )
    .unwrap();
    let frames = animate(&out, 100, Rat::from_int(50)).unwrap();
    assert_eq!(frames.len(), 2);
}
