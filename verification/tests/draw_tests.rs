use embedded_gfx::color::Rgb565;
use embedded_gfx::draw::{
    draw, draw_horizontal_line, draw_line, draw_point, draw_points, fill_bottom_flat_triangle,
    fill_top_flat_triangle, fill_triangle, sort_by_y, triangle_kind, TriangleFill, TriangleKind,
    LINE_LIMIT,
};
use embedded_gfx::engine::{DrawPrimitive, Point2};
use embedded_gfx::framebuffer::DmaReadyFramebuffer;

fn pt(x: i32, y: i32) -> Point2 {
    Point2 { x, y }
}

fn blank() -> DmaReadyFramebuffer<8, 8> {
    DmaReadyFramebuffer::new(vec![0u16; 64], false)
}

fn lit(fb: &DmaReadyFramebuffer<8, 8>) -> Vec<(i32, i32)> {
    let mut out = vec![];
    for (i, w) in fb.as_slice().iter().enumerate() {
        if *w != 0 {
            out.push(((i % 8) as i32, (i / 8) as i32));
        }
    }
    out
}

fn ink() -> Rgb565 {
    Rgb565::from_storage(0x00ff)
}

#[test]
fn point_is_one_pixel() {
    let mut fb = blank();
    draw_point(pt(3, 4), ink(), &mut fb);
    assert_eq!(lit(&fb), vec![(3, 4)]);
    assert_eq!(fb.as_slice()[4 * 8 + 3], 0x00ff);
    draw_point(pt(8, 4), ink(), &mut fb);
    assert_eq!(lit(&fb), vec![(3, 4)]);
}

#[test]
fn line_follows_the_bresenham_walk() {
    let mut fb = blank();
    draw_line(pt(0, 0), pt(5, 6), ink(), &mut fb);
    assert_eq!(lit(&fb), vec![(0, 0), (0, 1), (1, 2), (2, 3), (3, 4), (4, 5), (5, 6)]);
}

#[test]
fn line_includes_both_ends() {
    let mut fb = blank();
    draw_line(pt(6, 1), pt(1, 3), ink(), &mut fb);
    let pixels = lit(&fb);
    assert!(pixels.contains(&(6, 1)));
    assert!(pixels.contains(&(1, 3)));
    assert_eq!(pixels.len(), 6);
    let mut fb = blank();
    draw_line(pt(2, 2), pt(2, 2), ink(), &mut fb);
    assert_eq!(lit(&fb), vec![(2, 2)]);
}

#[test]
fn line_off_the_grid_is_clipped_pixel_by_pixel() {
    let mut fb = blank();
    draw_line(pt(-3, 2), pt(12, 2), ink(), &mut fb);
    assert_eq!(lit(&fb), (0..8).map(|x| (x, 2)).collect::<Vec<_>>());
    let mut fb = blank();
    draw_line(pt(-5, -5), pt(-1, -9), ink(), &mut fb);
    assert_eq!(lit(&fb), vec![]);
}

#[test]
fn line_limit_is_two_to_the_thirty_less_one() {
    assert_eq!(LINE_LIMIT, (1 << 30) - 1);
}

#[test]
fn horizontal_run_includes_both_ends_in_either_order() {
    let mut fb = blank();
    draw_horizontal_line(pt(2, 3), pt(5, 3), ink(), &mut fb);
    assert_eq!(lit(&fb), vec![(2, 3), (3, 3), (4, 3), (5, 3)]);
    let mut other = blank();
    draw_horizontal_line(pt(5, 3), pt(2, 7), ink(), &mut other);
    assert_eq!(lit(&other), vec![(2, 3), (3, 3), (4, 3), (5, 3)]);
    let mut one = blank();
    draw_horizontal_line(pt(4, 0), pt(4, 0), ink(), &mut one);
    assert_eq!(lit(&one), vec![(4, 0)]);
}

#[test]
fn horizontal_run_off_the_grid_is_clipped() {
    let mut fb = blank();
    draw_horizontal_line(pt(-4, 1), pt(2, 1), ink(), &mut fb);
    assert_eq!(lit(&fb), vec![(0, 1), (1, 1), (2, 1)]);
    draw_horizontal_line(pt(0, 8), pt(7, 8), ink(), &mut fb);
    assert_eq!(lit(&fb), vec![(0, 1), (1, 1), (2, 1)]);
}

#[test]
fn rows_are_filled_downwards() {
    let mut fb = blank();
    fill_bottom_flat_triangle(1, &[(3, 3), (4, 2), (1, 5)], ink(), &mut fb);
    assert_eq!(
        lit(&fb),
        vec![(3, 1), (2, 2), (3, 2), (4, 2), (1, 3), (2, 3), (3, 3), (4, 3), (5, 3)]
    );
    let before = fb.as_slice().to_vec();
    fill_bottom_flat_triangle(i32::MAX, &[], ink(), &mut fb);
    assert_eq!(fb.as_slice(), &before[..]);
}

#[test]
fn rows_are_filled_upwards() {
    let mut fb = blank();
    fill_top_flat_triangle(3, &[(3, 3), (4, 2), (1, 5)], ink(), &mut fb);
    assert_eq!(
        lit(&fb),
        vec![(1, 1), (2, 1), (3, 1), (4, 1), (5, 1), (2, 2), (3, 2), (4, 2), (3, 3)]
    );
    let mut edge = blank();
    fill_top_flat_triangle(i32::MIN + 1, &[(0, 1), (0, 1)], ink(), &mut edge);
    assert_eq!(lit(&edge), vec![]);
}

#[test]
fn flat_bottomed_triangle_is_filled_from_the_top() {
    let mut fb = blank();
    let fill = draw(DrawPrimitive::ColoredTriangle(pt(0, 3), pt(3, 0), pt(6, 3), ink()), &mut fb).unwrap();
    assert_eq!(fill.kind, TriangleKind::BottomFlat);
    fill_triangle(&fill, &[(3, 3), (2, 4), (1, 5), (0, 6)], &[], &mut fb);
    let mut expected = vec![(3, 0)];
    expected.extend((2..=4).map(|x| (x, 1)));
    expected.extend((1..=5).map(|x| (x, 2)));
    expected.extend((0..=6).map(|x| (x, 3)));
    assert_eq!(lit(&fb), expected);
}

#[test]
fn flat_topped_triangle_is_filled_from_the_bottom() {
    let mut fb = blank();
    let fill = draw(DrawPrimitive::ColoredTriangle(pt(4, 1), pt(2, 3), pt(0, 1), ink()), &mut fb).unwrap();
    assert_eq!(fill.kind, TriangleKind::TopFlat);
    assert_eq!((fill.top, fill.mid, fill.low), (pt(4, 1), pt(0, 1), pt(2, 3)));
    fill_triangle(&fill, &[], &[(2, 2), (3, 1), (4, 0)], &mut fb);
    assert_eq!(
        lit(&fb),
        vec![(0, 1), (1, 1), (2, 1), (3, 1), (4, 1), (1, 2), (2, 2), (3, 2), (2, 3)]
    );
}

#[test]
fn general_triangle_is_filled_in_two_parts() {
    let mut fb = blank();
    let fill = draw(DrawPrimitive::ColoredTriangle(pt(0, 0), pt(4, 2), pt(0, 4), ink()), &mut fb).unwrap();
    assert_eq!(fill.kind, TriangleKind::General);
    fill_triangle(&fill, &[(0, 0), (2, 0), (4, 0)], &[(0, 0), (2, 0), (4, 0)], &mut fb);
    assert_eq!(
        lit(&fb),
        vec![(0, 0), (0, 1), (1, 1), (2, 1), (0, 2), (1, 2), (2, 2), (3, 2), (4, 2), (0, 3), (1, 3), (2, 3), (0, 4)]
    );
}

#[test]
fn corners_are_sorted_by_row() {
    let (a, b, c) = (pt(1, 5), pt(2, 3), pt(3, 9));
    let sorted = (b, a, c);
    assert_eq!(sort_by_y(a, b, c), sorted);
    assert_eq!(sort_by_y(a, c, b), sorted);
    assert_eq!(sort_by_y(b, a, c), sorted);
    assert_eq!(sort_by_y(b, c, a), sorted);
    assert_eq!(sort_by_y(c, a, b), sorted);
    assert_eq!(sort_by_y(c, b, a), sorted);
}

#[test]
fn corners_of_one_row_keep_their_order() {
    let (a, b, c) = (pt(1, 4), pt(2, 4), pt(3, 4));
    assert_eq!(sort_by_y(a, b, c), (a, b, c));
    assert_eq!(sort_by_y(c, b, a), (c, b, a));
    let low = pt(9, 0);
    assert_eq!(sort_by_y(a, low, b), (low, a, b));
    assert_eq!(sort_by_y(b, a, low), (low, b, a));
    let high = pt(9, 9);
    assert_eq!(sort_by_y(high, b, a), (b, a, high));
}

#[test]
fn triangle_kinds() {
    assert_eq!(triangle_kind(pt(3, 0), pt(0, 5), pt(6, 5)), TriangleKind::BottomFlat);
    assert_eq!(triangle_kind(pt(0, 0), pt(6, 0), pt(3, 5)), TriangleKind::TopFlat);
    assert_eq!(triangle_kind(pt(0, 0), pt(6, 2), pt(3, 5)), TriangleKind::General);
    assert_eq!(triangle_kind(pt(0, 1), pt(6, 1), pt(3, 1)), TriangleKind::BottomFlat);
}

#[test]
fn draw_finishes_points_and_lines() {
    let mut fb = blank();
    assert_eq!(draw(DrawPrimitive::ColoredPoint(pt(1, 1), ink()), &mut fb), None);
    assert_eq!(lit(&fb), vec![(1, 1)]);
    assert_eq!(draw(DrawPrimitive::Line(pt(0, 7), pt(3, 7), ink()), &mut fb), None);
    assert_eq!(lit(&fb), vec![(1, 1), (0, 7), (1, 7), (2, 7), (3, 7)]);
}

#[test]
fn draw_hands_a_triangle_back_sorted() {
    let mut fb = blank();
    let pending = draw(DrawPrimitive::ColoredTriangle(pt(6, 5), pt(3, 0), pt(0, 5), ink()), &mut fb);
    assert_eq!(
        pending,
        Some(TriangleFill {
            kind: TriangleKind::BottomFlat,
            top: pt(3, 0),
            mid: pt(6, 5),
            low: pt(0, 5),
            color: ink(),
        })
    );
    assert_eq!(lit(&fb), vec![]);
    let pending = draw(DrawPrimitive::ColoredTriangle(pt(0, 4), pt(5, 1), pt(2, 7), ink()), &mut fb);
    assert_eq!(pending.map(|f| (f.kind, f.top, f.mid, f.low)), Some((TriangleKind::General, pt(5, 1), pt(0, 4), pt(2, 7))));
}

fn walk_down(top: Point2, mid: Point2, low: Point2) -> Vec<(i32, i32)> {
    let invslope1 = (mid.x - top.x) as f32 / (mid.y - top.y) as f32;
    let invslope2 = (low.x - top.x) as f32 / (low.y - top.y) as f32;
    let mut curx1 = top.x as f32;
    let mut curx2 = top.x as f32;
    let mut edges = vec![];
    for _ in top.y..=mid.y {
        edges.push((curx1 as i32, curx2 as i32));
        curx1 += invslope1;
        curx2 += invslope2;
    }
    edges
}

fn walk_up(top: Point2, mid: Point2, low: Point2) -> Vec<(i32, i32)> {
    let invslope1 = (low.x - top.x) as f32 / (low.y - top.y) as f32;
    let invslope2 = (low.x - mid.x) as f32 / (low.y - mid.y) as f32;
    let mut curx1 = low.x as f32;
    let mut curx2 = low.x as f32;
    let mut edges = vec![];
    for _ in top.y..=low.y {
        edges.push((curx1 as i32, curx2 as i32));
        curx1 -= invslope1;
        curx2 -= invslope2;
    }
    edges
}

fn split_point(top: Point2, mid: Point2, low: Point2) -> Point2 {
    pt(
        (top.x as f32 + ((mid.y - top.y) as f32 / (low.y - top.y) as f32) * (low.x - top.x) as f32) as i32,
        mid.y,
    )
}

fn filled(a: Point2, b: Point2, c: Point2) -> Vec<(i32, i32)> {
    let mut fb = blank();
    let fill = draw(DrawPrimitive::ColoredTriangle(a, b, c, ink()), &mut fb).unwrap();
    let (top, mid, low) = (fill.top, fill.mid, fill.low);
    let (upper, lower) = match fill.kind {
        TriangleKind::BottomFlat => (walk_down(top, mid, low), vec![]),
        TriangleKind::TopFlat => (vec![], walk_up(top, mid, low)),
        TriangleKind::General => {
            let split = split_point(top, mid, low);
            (walk_down(top, mid, split), walk_up(mid, split, low))
        }
    };
    fill_triangle(&fill, &upper, &lower, &mut fb);
    lit(&fb)
}

#[test]
fn fill_does_not_depend_on_the_order_of_the_corners() {
    for (a, b, c) in [
        (pt(1, 0), pt(6, 3), pt(2, 7)),
        (pt(3, 0), pt(0, 4), pt(6, 4)),
        (pt(0, 1), pt(7, 1), pt(4, 6)),
        (pt(-3, -2), pt(9, 2), pt(1, 12)),
    ] {
        let pixels = filled(a, b, c);
        assert!(!pixels.is_empty());
        assert_eq!(filled(a, c, b), pixels);
        assert_eq!(filled(b, a, c), pixels);
        assert_eq!(filled(b, c, a), pixels);
        assert_eq!(filled(c, a, b), pixels);
        assert_eq!(filled(c, b, a), pixels);
    }
}

#[test]
fn flat_bottomed_triangle_is_the_same_through_the_split() {
    let (top, mid, low) = (pt(3, 0), pt(0, 3), pt(6, 3));
    let direct = filled(top, mid, low);
    let split = split_point(top, mid, low);
    assert_eq!(split, low);
    let mut fb = blank();
    fill_bottom_flat_triangle(top.y, &walk_down(top, mid, split), ink(), &mut fb);
    fill_top_flat_triangle(low.y, &walk_up(mid, split, low), ink(), &mut fb);
    assert_eq!(lit(&fb), direct);
    let mut expected = vec![(3, 0)];
    expected.extend((2..=4).map(|x| (x, 1)));
    expected.extend((1..=5).map(|x| (x, 2)));
    expected.extend((0..=6).map(|x| (x, 3)));
    assert_eq!(direct, expected);
}

#[test]
fn flat_topped_triangle_is_the_same_through_the_split() {
    let (top, mid, low) = (pt(0, 2), pt(6, 2), pt(3, 5));
    let direct = filled(top, mid, low);
    let mut fb = blank();
    fill_bottom_flat_triangle(top.y, &[(top.x, top.x)], ink(), &mut fb);
    fill_top_flat_triangle(low.y, &walk_up(top, mid, low), ink(), &mut fb);
    assert_eq!(lit(&fb), direct);
    assert_eq!(direct.len(), 7 + 5 + 3 + 1);
}

#[test]
fn lines_agree_with_the_line_walk() {
    for (a, b) in [
        (pt(0, 0), pt(7, 3)),
        (pt(7, 0), pt(0, 7)),
        (pt(5, 6), pt(2, 0)),
        (pt(1, 7), pt(1, 0)),
        (pt(6, 2), pt(0, 1)),
    ] {
        let mut fb = blank();
        draw_line(a, b, ink(), &mut fb);
        let mut walk: Vec<(i32, i32)> = line_drawing::Bresenham::new((a.x, a.y), (b.x, b.y)).collect();
        assert_eq!(walk[0], (a.x, a.y));
        assert_eq!(walk[walk.len() - 1], (b.x, b.y));
        walk.sort_by_key(|p| (p.1, p.0));
        assert_eq!(lit(&fb), walk);
    }
}

#[test]
fn run_across_the_whole_range_fills_its_row() {
    let mut fb = blank();
    draw_horizontal_line(pt(i32::MAX, 5), pt(i32::MIN, 5), ink(), &mut fb);
    assert_eq!(lit(&fb), (0..8).map(|x| (x, 5)).collect::<Vec<_>>());
    let mut off = blank();
    draw_horizontal_line(pt(i32::MIN, -1), pt(i32::MAX, -1), ink(), &mut off);
    draw_horizontal_line(pt(i32::MIN, 8), pt(i32::MAX, 8), ink(), &mut off);
    draw_horizontal_line(pt(8, 3), pt(i32::MAX, 3), ink(), &mut off);
    draw_horizontal_line(pt(i32::MIN, 3), pt(-1, 3), ink(), &mut off);
    assert_eq!(lit(&off), vec![]);
    draw_horizontal_line(pt(7, 3), pt(i32::MAX, 3), ink(), &mut off);
    draw_horizontal_line(pt(i32::MIN, 4), pt(0, 4), ink(), &mut off);
    assert_eq!(lit(&off), vec![(7, 3), (0, 4)]);
}

#[test]
fn points_are_set_one_after_the_other() {
    let mut fb = blank();
    draw_points(&[(1, 1), (9, 1), (-1, 0), (7, 7), (1, 1), (0, 3)], ink(), &mut fb);
    assert_eq!(lit(&fb), vec![(1, 1), (0, 3), (7, 7)]);
    let before = fb.as_slice().to_vec();
    draw_points(&[], ink(), &mut fb);
    assert_eq!(fb.as_slice(), &before[..]);
    let mut swapped: DmaReadyFramebuffer<8, 8> = DmaReadyFramebuffer::new(vec![0u16; 64], true);
    draw_points(&[(2, 0)], Rgb565::from_storage(0x1234), &mut swapped);
    assert_eq!(swapped.as_slice()[2], 0x3412);
}

#[test]
fn walked_edges_must_have_a_pair_for_every_row() {
    let mut fb = blank();
    let flat = draw(DrawPrimitive::ColoredTriangle(pt(0, 3), pt(3, 0), pt(6, 3), ink()), &mut fb).unwrap();
    assert!(flat.edges_fit(&[(0, 0); 4], &[]));
    assert!(!flat.edges_fit(&[(0, 0); 3], &[]));
    assert!(!flat.edges_fit(&[(0, 0); 4], &[(0, 0)]));
    let top = draw(DrawPrimitive::ColoredTriangle(pt(4, 1), pt(2, 3), pt(0, 1), ink()), &mut fb).unwrap();
    assert!(top.edges_fit(&[], &[(0, 0); 3]));
    assert!(!top.edges_fit(&[(0, 0)], &[(0, 0); 3]));
    let general = draw(DrawPrimitive::ColoredTriangle(pt(0, 0), pt(4, 2), pt(0, 5), ink()), &mut fb).unwrap();
    assert!(general.edges_fit(&[(0, 0); 3], &[(0, 0); 4]));
    assert!(!general.edges_fit(&[(0, 0); 4], &[(0, 0); 3]));
    let unsorted = TriangleFill { kind: TriangleKind::General, top: pt(0, 5), mid: pt(0, 0), low: pt(0, 9), color: ink() };
    assert!(!unsorted.edges_fit(&[], &[(0, 0); 10]));
    let wide = TriangleFill { kind: TriangleKind::BottomFlat, top: pt(0, i32::MIN), mid: pt(0, i32::MAX), low: pt(1, i32::MAX), color: ink() };
    assert!(!wide.edges_fit(&[(0, 0)], &[]));
}
