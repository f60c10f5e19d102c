use cbr_alarm::ratio::{scale_floor, Ratio};
use cbr_alarm::shapes::{Arc, ArcPoint, Cell, Marker, ShapeSelect, Spiral, ZigZag};
use ratatui::style::Color;

fn zigzag(x: u64, y: u64, size: u64, gap: u64) -> ZigZag {
    ZigZag {
        x,
        y,
        size,
        gap,
        fill_perc: Ratio::zero(),
        color: Color::Red,
        bgcolor: None,
    }
}

fn cells(v: &[(u64, u64)]) -> Vec<Cell> {
    v.iter().map(|&(x, y)| Cell { x, y }).collect()
}

#[test]
fn zigzag_half_fill_walks_the_first_bands() {
    let z = zigzag(0, 0, 4, 2);
    assert_eq!(
        z.drawfill(Ratio::new(1, 2)),
        cells(&[
            (1, 0),
            (2, 0),
            (1, 1),
            (0, 3),
            (0, 4),
            (1, 3),
            (2, 2),
            (3, 1),
            (4, 1),
            (4, 2)
        ])
    );
}

#[test]
fn zigzag_full_fill_and_offset() {
    let z = zigzag(0, 0, 4, 2);
    assert_eq!(z.drawfill(Ratio::one()).len(), 12);
    let z = zigzag(1, 0, 3, 1);
    assert_eq!(
        z.drawfill(Ratio::one()),
        cells(&[(2, 0), (1, 2), (2, 1), (4, 0), (3, 1), (2, 2), (2, 3), (3, 2), (4, 2)])
    );
    assert_eq!(
        z.drawfill(Ratio::new(5, 16)),
        cells(&[(2, 0), (1, 2), (2, 1), (4, 0), (3, 1)])
    );
}

#[test]
fn zigzag_smaller_fill_is_a_prefix() {
    let z = zigzag(3, 2, 17, 5);
    let mut last: Vec<Cell> = Vec::new();
    for k in 0..=20u64 {
        let now = z.drawfill(Ratio::new(k, 20));
        assert!(now.len() >= last.len());
        assert_eq!(&now[..last.len()], &last[..]);
        last = now;
    }
    assert!(zigzag(0, 0, 17, 5).drawfill(Ratio::zero()).is_empty());
    assert!(zigzag(0, 0, 0, 5).drawfill(Ratio::one()).is_empty());
}

#[test]
fn zigzag_centres_the_largest_square() {
    let z = ZigZag::new(5, Color::Red).center(41, 20, Ratio::new(1, 3));
    assert_eq!((z.x, z.y, z.size, z.gap), (10, 0, 20, 5));
    assert_eq!(z.fill_perc, Ratio::new(1, 3));
    let z = ZigZag::new(5, Color::Red).with_gbcolor(Color::Blue);
    assert_eq!(z.bgcolor, Some(Color::Blue));
    let strokes = z.center(4, 4, Ratio::zero()).draw();
    assert_eq!(strokes.len(), 2);
    assert_eq!(strokes[0].color, Color::Blue);
    assert!(!strokes[0].points.is_empty());
    assert!(strokes[1].points.is_empty());
}

#[test]
fn arc_sweeps_each_ring() {
    let a = Arc::new(2, Color::Red).center(10, 10, Ratio::new(1, 4));
    let p = a.drawfill(a.arc_perc);
    assert_eq!(p.len(), 180);
    assert_eq!(p[0], ArcPoint { ring: 0, angle: 0 });
    assert_eq!(p[89], ArcPoint { ring: 0, angle: 89 });
    assert_eq!(p[90], ArcPoint { ring: 1, angle: 0 });
    assert_eq!(p[179], ArcPoint { ring: 1, angle: 89 });
    assert_eq!(a.drawfill(Ratio::new(1, 3)).len(), 240);
    assert_eq!(a.drawfill(Ratio::new(999, 1000)).len(), 2 * 359);
}

#[test]
fn arc_points_are_only_added() {
    let a = Arc::new(3, Color::Red);
    let small = a.drawfill(Ratio::new(1, 5));
    let large = a.drawfill(Ratio::new(2, 5));
    assert!(small.len() < large.len());
    assert!(small.iter().all(|p| large.contains(p)));
}

#[test]
fn arc_draws_track_then_arc() {
    let a = Arc::new(1, Color::Red).with_bgcolor(Color::Gray).center(8, 8, Ratio::new(1, 2));
    let s = a.draw();
    assert_eq!(s.len(), 2);
    assert_eq!(s[0].color, Color::Gray);
    assert_eq!(s[0].points.len(), 360);
    assert_eq!(s[1].color, Color::Red);
    assert_eq!(s[1].points.len(), 180);
}

#[test]
fn spiral_steps_follow_the_radius() {
    let s = Spiral::new(Color::Red).center(10, 20, Ratio::one());
    let angles = s.drawfill(Ratio::one());
    assert_eq!(angles.len(), 286);
    assert_eq!(angles[0], 0);
    assert_eq!(angles[285], 285);
    let half = s.drawfill(Ratio::new(1, 2));
    assert_eq!(half.len(), 143);
    assert_eq!(&angles[..143], &half[..]);
    assert!(s.drawfill(Ratio::zero()).is_empty());
}

#[test]
fn selection_and_markers() {
    assert_eq!(ShapeSelect::select_from(0, Color::Red).get_marker(), Marker::Dot);
    assert_eq!(ShapeSelect::select_from(1, Color::Red).get_marker(), Marker::HalfBlock);
    assert_eq!(ShapeSelect::select_from(2, Color::Red).get_marker(), Marker::HalfBlock);
    assert!(matches!(ShapeSelect::select_from(7, Color::Red), ShapeSelect::SpiralSelect(_)));
    assert!(matches!(ShapeSelect::select_from(2, Color::Red), ShapeSelect::ZigZagSelect(z) if z.gap == 5));
    assert!(matches!(ShapeSelect::select_from(0, Color::Red), ShapeSelect::ArcSelect(a) if a.thickness == 8));
    assert_eq!(Arc::get_marker(), Marker::Dot);
    assert_eq!(Spiral::get_marker(), Marker::HalfBlock);
    assert_eq!(ZigZag::get_marker(), Marker::HalfBlock);
}

#[test]
fn a_random_shape_is_one_of_the_three() {
    for _ in 0..20 {
        let s = ShapeSelect::select_random(Color::Red);
        let marker = s.get_marker();
        assert!(marker == Marker::Dot || marker == Marker::HalfBlock);
    }
}

#[test]
fn background_colour_reaches_every_shape() {
    for k in 0..3 {
        let s = ShapeSelect::select_from(k, Color::Red).with_bgcolor(Color::Blue);
        let bg = match s {
            ShapeSelect::ArcSelect(a) => a.bgcolor,
            ShapeSelect::SpiralSelect(s) => s.bgcolor,
            ShapeSelect::ZigZagSelect(z) => z.bgcolor,
        };
        assert_eq!(bg, Some(Color::Blue));
    }
}

#[test]
fn fractions_scale_exactly() {
    assert_eq!(scale_floor(Ratio::new(1, 3), 360), 120);
    assert_eq!(scale_floor(Ratio::new(2, 3), 100), 66);
    assert_eq!(scale_floor(Ratio::new(u64::MAX - 1, u64::MAX), u128::MAX), u128::MAX - u128::MAX / u64::MAX as u128);
    assert_eq!(scale_floor(Ratio::one(), u128::MAX), u128::MAX);
    assert_eq!(scale_floor(Ratio::zero(), u128::MAX), 0);
}
