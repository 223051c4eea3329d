use render_pipeline::canvas::Canvas;
use render_pipeline::geometry::{Paint, PaintStyle, Point, Rect};
use render_pipeline::transform::{transform_point, TransformOp};

#[test]
fn balanced_save_restore_returns_transform() {
    let mut c = Canvas::new();
    c.translate(5000, 0);
    let before_ops = c.ops.clone();
    let before_saved = c.saved.clone();
    c.save();
    c.scale(2000, 3000);
    c.rotate(90, None);
    c.save();
    c.translate(-7000, 7000);
    c.restore();
    c.restore();
    assert_eq!(c.ops, before_ops);
    assert_eq!(c.saved, before_saved);
}

#[test]
fn restore_on_empty_stack_is_noop() {
    let mut c = Canvas::new();
    c.translate(1000, 2000);
    c.restore();
    assert_eq!(c.ops, vec![TransformOp::Translate { dx: 1000, dy: 2000 }]);
    assert_eq!(c.saved.len(), 0);
}

#[test]
fn rotate_about_pivot_composes_three_ops() {
    let mut c = Canvas::new();
    c.rotate(45, Some(Point::new(128000, 128000)));
    assert_eq!(
        c.ops,
        vec![
            TransformOp::Translate { dx: 128000, dy: 128000 },
            TransformOp::Rotate { degrees: 45 },
            TransformOp::Translate { dx: -128000, dy: -128000 },
        ]
    );
}

#[test]
fn draw_rect_records_current_transform() {
    let mut c = Canvas::new();
    c.scale(2000, 2000);
    let rect = Rect::from_point_and_size(Point::new(-90500, -90500), 181000, 181000);
    let mut paint = Paint::new();
    paint.set_color(0xFF0000FF);
    c.draw_rect(rect, paint);
    assert_eq!(c.draws.len(), 1);
    assert_eq!(c.draws[0].ops, vec![TransformOp::Scale { sx: 2000, sy: 2000 }]);
    assert_eq!(c.draws[0].rect, rect);
    assert_eq!(c.draws[0].paint.color, 0xFF0000FF);
    assert!(matches!(c.draws[0].paint.style, PaintStyle::Fill));
}

#[test]
fn translate_then_rotate_differs_from_rotate_then_translate() {
    let d: i64 = 5000;
    let tr = vec![
        TransformOp::Translate { dx: d, dy: 0 },
        TransformOp::Rotate { degrees: 90 },
    ];
    let rt = vec![
        TransformOp::Rotate { degrees: 90 },
        TransformOp::Translate { dx: d, dy: 0 },
    ];
    let p = Point::new(0, 0);
    let a = transform_point(&tr, p).unwrap();
    let b = transform_point(&rt, p).unwrap();
    assert_eq!((a.x, a.y), (5000, 0));
    assert_eq!((b.x, b.y), (0, 5000));
    assert_ne!((a.x, a.y), (b.x, b.y));
}

#[test]
fn rotate_quarter_turns_are_exact() {
    let p = Point::new(1000, 2000);
    let r90 = transform_point(&vec![TransformOp::Rotate { degrees: 90 }], p).unwrap();
    assert_eq!((r90.x, r90.y), (-2000, 1000));
    let r180 = transform_point(&vec![TransformOp::Rotate { degrees: 180 }], p).unwrap();
    assert_eq!((r180.x, r180.y), (-1000, -2000));
    let r270 = transform_point(&vec![TransformOp::Rotate { degrees: 270 }], p).unwrap();
    assert_eq!((r270.x, r270.y), (2000, -1000));
    let rneg = transform_point(&vec![TransformOp::Rotate { degrees: -90 }], p).unwrap();
    assert_eq!((rneg.x, rneg.y), (2000, -1000));
    let rfull = transform_point(&vec![TransformOp::Rotate { degrees: 360 }], p).unwrap();
    assert_eq!((rfull.x, rfull.y), (1000, 2000));
}

#[test]
fn rotate_off_right_angle_is_not_evaluated() {
    let p = Point::new(1000, 0);
    assert!(transform_point(&vec![TransformOp::Rotate { degrees: 45 }], p).is_none());
}

#[test]
fn scale_is_fixed_point_with_truncation() {
    let doubled =
        transform_point(&vec![TransformOp::Scale { sx: 2000, sy: 2000 }], Point::new(3000, 4000))
            .unwrap();
    assert_eq!((doubled.x, doubled.y), (6000, 8000));
    let halved =
        transform_point(&vec![TransformOp::Scale { sx: 500, sy: 500 }], Point::new(-3000, 3000))
            .unwrap();
    assert_eq!((halved.x, halved.y), (-1500, 1500));
    let truncated =
        transform_point(&vec![TransformOp::Scale { sx: 1, sy: 1 }], Point::new(1999, -1999))
            .unwrap();
    assert_eq!((truncated.x, truncated.y), (1, -1));
}

#[test]
fn transform_point_reports_overflow() {
    let p = Point::new(i64::MAX, 0);
    assert!(transform_point(&vec![TransformOp::Translate { dx: 1, dy: 0 }], p).is_none());
}
