use embedded_nineslice::{Config, NineSlice, Point, Rectangle, Region, Size, Slice};

fn rect(x: i32, y: i32, w: u32, h: u32) -> Rectangle {
    Rectangle::new(Point::new(x, y), Size::new(w, h))
}

fn region(sx: i32, sy: i32, w: u32, h: u32, x: i32, y: i32) -> Region {
    Region::new(rect(sx, sy, w, h), Point::new(x, y))
}

fn config(width: u32, height: u32, border: u32, fill_center: bool) -> Config {
    Config {
        size: Size::new(width, height),
        top: border,
        right: border,
        bottom: border,
        left: border,
        fill_center,
    }
}

fn inside(r: &Rectangle, x: i32, y: i32) -> bool {
    let left = r.top_left.x as i64;
    let top = r.top_left.y as i64;
    let (x, y) = (x as i64, y as i64);
    left <= x && x < left + r.size.width as i64 && top <= y && y < top + r.size.height as i64
}

/// A canvas of `width` by `height` pixels. Each pixel holds the template
/// pixel that was painted on it, and how often it was painted.
fn paint(plan: &[Region], width: i32, height: i32) -> Vec<Vec<(Option<(i32, i32)>, u32)>> {
    let mut canvas = vec![vec![(None, 0u32); width as usize]; height as usize];
    for r in plan {
        for dy in 0..r.source.size.height as i32 {
            for dx in 0..r.source.size.width as i32 {
                let (x, y) = (r.offset.x + dx, r.offset.y + dy);
                if 0 <= x && x < width && 0 <= y && y < height {
                    let cell = &mut canvas[y as usize][x as usize];
                    cell.0 = Some((r.source.top_left.x + dx, r.source.top_left.y + dy));
                    cell.1 += 1;
                }
            }
        }
    }
    canvas
}

/// The template coordinate shown at distance `d` along an axis.
fn along(d: i32, near: i32, far: i32, panel: i32, template: i32) -> Option<i32> {
    if d < near {
        Some(d)
    } else if d >= panel - far {
        Some(template - far + (d - (panel - far)))
    } else if template - near - far > 0 {
        Some(near + (d - near) % (template - near - far))
    } else {
        None
    }
}

#[test]
fn panel_40_by_24_from_template_16_by_16() {
    let panel = NineSlice::new(Size::new(16, 16), config(40, 24, 4, false));
    let plan = panel.draw();
    let expected = vec![
        region(0, 0, 4, 4, 0, 0),
        region(12, 0, 4, 4, 36, 0),
        region(12, 12, 4, 4, 36, 20),
        region(0, 12, 4, 4, 0, 20),
        region(4, 0, 8, 4, 4, 0),
        region(4, 0, 8, 4, 12, 0),
        region(4, 0, 8, 4, 20, 0),
        region(4, 0, 8, 4, 28, 0),
        region(12, 4, 4, 8, 36, 4),
        region(12, 4, 4, 8, 36, 12),
        region(4, 12, 8, 4, 4, 20),
        region(4, 12, 8, 4, 12, 20),
        region(4, 12, 8, 4, 20, 20),
        region(4, 12, 8, 4, 28, 20),
        region(0, 4, 4, 8, 0, 4),
        region(0, 4, 4, 8, 0, 12),
    ];
    assert_eq!(plan, expected);
    assert_eq!(panel.tile_region(Slice::Top).len(), 4);
    assert_eq!(panel.tile_region(Slice::Bottom).len(), 4);
    assert_eq!(panel.tile_region(Slice::Left).len(), 2);
    assert_eq!(panel.tile_region(Slice::Right).len(), 2);
    let canvas = paint(&plan, 40, 24);
    for y in 0..24 {
        for x in 0..40 {
            let in_center = 4 <= x && x < 36 && 4 <= y && y < 20;
            assert_eq!(canvas[y][x].1, if in_center { 0 } else { 1 }, "at {} {}", x, y);
        }
    }
}

#[test]
fn panel_of_the_size_of_its_template_is_the_template() {
    let panel = NineSlice::new(Size::new(10, 10), config(10, 10, 5, false));
    let plan = panel.draw();
    let expected = vec![
        region(0, 0, 5, 5, 0, 0),
        region(5, 0, 5, 5, 5, 0),
        region(5, 5, 5, 5, 5, 5),
        region(0, 5, 5, 5, 0, 5),
    ];
    assert_eq!(plan, expected);
    for slice in [Slice::Top, Slice::Right, Slice::Bottom, Slice::Left, Slice::Center] {
        assert_eq!(panel.tile_region(slice), Vec::<Region>::new());
    }
    let canvas = paint(&plan, 10, 10);
    for y in 0..10 {
        for x in 0..10 {
            assert_eq!(canvas[y][x], (Some((x as i32, y as i32)), 1));
        }
    }
    let filled = NineSlice::new(Size::new(10, 10), config(10, 10, 5, true));
    assert_eq!(filled.draw(), expected);
}

#[test]
fn borders_wider_than_the_template_leave_no_interior() {
    let c = Config {
        size: Size::new(30, 20),
        top: 2,
        right: 6,
        bottom: 2,
        left: 6,
        fill_center: true,
    };
    let panel = NineSlice::new(Size::new(10, 10), c);
    // The template has no interior width, so top, bottom and center have
    // nothing to be painted from; left and right are tiled downwards.
    assert_eq!(panel.tile_region(Slice::Top), Vec::<Region>::new());
    assert_eq!(panel.tile_region(Slice::Bottom), Vec::<Region>::new());
    assert_eq!(panel.tile_region(Slice::Center), Vec::<Region>::new());
    let plan = panel.draw();
    let expected = vec![
        region(0, 0, 6, 2, 0, 0),
        region(4, 0, 6, 2, 24, 0),
        region(4, 8, 6, 2, 24, 18),
        region(0, 8, 6, 2, 0, 18),
        region(4, 2, 6, 6, 24, 2),
        region(4, 2, 6, 6, 24, 8),
        region(4, 2, 6, 4, 24, 14),
        region(0, 2, 6, 6, 0, 2),
        region(0, 2, 6, 6, 0, 8),
        region(0, 2, 6, 4, 0, 14),
    ];
    assert_eq!(plan, expected);
}

#[test]
fn borders_wider_than_the_panel_are_cut_at_its_edge() {
    let c = Config {
        size: Size::new(6, 12),
        top: 4,
        right: 5,
        bottom: 4,
        left: 5,
        fill_center: true,
    };
    let panel = NineSlice::new(Size::new(16, 16), c);
    let plan = panel.draw();
    let expected = vec![
        region(0, 0, 5, 4, 0, 0),
        region(11, 0, 5, 4, 1, 0),
        region(11, 12, 5, 4, 1, 8),
        region(0, 12, 5, 4, 0, 8),
        region(11, 4, 5, 4, 1, 4),
        region(0, 4, 5, 4, 0, 4),
    ];
    assert_eq!(plan, expected);
    let narrow = NineSlice::new(
        Size::new(16, 16),
        Config { size: Size::new(3, 8), top: 4, right: 5, bottom: 4, left: 5, fill_center: false },
    );
    assert_eq!(
        narrow.draw(),
        vec![
            region(0, 0, 3, 4, 0, 0),
            region(13, 0, 3, 4, 0, 0),
            region(13, 12, 3, 4, 0, 4),
            region(0, 12, 3, 4, 0, 4),
        ]
    );
}

#[test]
fn an_empty_panel_takes_no_paint() {
    let panel = NineSlice::new(Size::new(16, 16), config(0, 0, 0, true));
    assert_eq!(panel.draw(), Vec::<Region>::new());
    let bordered = NineSlice::new(Size::new(16, 16), config(0, 0, 4, true));
    assert_eq!(bordered.draw(), Vec::<Region>::new());
    let flat = NineSlice::new(Size::new(16, 16), config(40, 0, 4, true));
    assert_eq!(flat.draw(), Vec::<Region>::new());
}

#[test]
fn an_empty_template_paints_nothing_but_empty_corners() {
    let panel = NineSlice::new(Size::new(0, 0), config(40, 24, 0, true));
    assert_eq!(panel.draw(), Vec::<Region>::new());
}

#[test]
fn a_panel_without_borders_is_its_center() {
    let panel = NineSlice::new(Size::new(3, 2), config(7, 3, 0, true));
    assert_eq!(
        panel.draw(),
        vec![
            region(0, 0, 3, 2, 0, 0),
            region(0, 0, 3, 2, 3, 0),
            region(0, 0, 1, 2, 6, 0),
            region(0, 0, 3, 1, 0, 2),
            region(0, 0, 3, 1, 3, 2),
            region(0, 0, 1, 1, 6, 2),
        ]
    );
    let hollow = NineSlice::new(Size::new(3, 2), config(7, 3, 0, false));
    assert_eq!(hollow.draw(), Vec::<Region>::new());
}

#[test]
fn the_center_is_tiled_in_both_axes() {
    let panel = NineSlice::new(Size::new(6, 6), config(9, 8, 2, true));
    let plan = panel.draw();
    assert_eq!(
        plan[plan.len() - 6..].to_vec(),
        vec![
            region(2, 2, 2, 2, 2, 2),
            region(2, 2, 2, 2, 4, 2),
            region(2, 2, 1, 2, 6, 2),
            region(2, 2, 2, 2, 2, 4),
            region(2, 2, 2, 2, 4, 4),
            region(2, 2, 1, 2, 6, 4),
        ]
    );
    assert_eq!(panel.tile_region(Slice::Center).len(), 6);
    assert_eq!(plan.len(), 4 + 3 + 2 + 3 + 2 + 6);
}

#[test]
fn the_center_is_left_as_it_is_unless_filled() {
    for (width, height) in [(40, 24), (9, 8), (8, 8), (13, 30)] {
        let panel = NineSlice::new(Size::new(7, 9), config(width, height, 3, false));
        for area in [rect(0, 0, width, height), rect(2, 2, 6, 5), rect(-5, -5, 100, 100)] {
            let canvas = paint(&panel.draw_sub_image(&area), width as i32, height as i32);
            for y in 3..height as i32 - 3 {
                for x in 3..width as i32 - 3 {
                    assert_eq!(canvas[y as usize][x as usize], (None, 0));
                }
            }
        }
    }
}

#[test]
fn size_is_the_configured_size() {
    let panel = NineSlice::new(Size::new(16, 16), config(40, 24, 4, false));
    assert_eq!(panel.size(), Size::new(40, 24));
    assert_eq!(panel.template_size(), Size::new(16, 16));
    assert_eq!(panel.configuration(), config(40, 24, 4, false));
    let other = NineSlice::new(Size::new(1, 2), config(40, 24, 4, false));
    assert_eq!(other.size(), Size::new(40, 24));
}

#[test]
fn drawing_the_whole_panel_is_drawing_inside_its_bounds() {
    let panel = NineSlice::new(Size::new(16, 16), config(40, 24, 4, true));
    assert_eq!(panel.draw(), panel.draw_sub_image(&rect(0, 0, 40, 24)));
    assert_eq!(panel.draw(), panel.draw_sub_image(&rect(-10, -10, 100, 100)));
}

#[test]
fn drawing_twice_gives_the_same_plan() {
    let panel = NineSlice::new(Size::new(16, 16), config(40, 24, 4, true));
    let area = rect(3, 2, 20, 20);
    assert_eq!(panel.draw_sub_image(&area), panel.draw_sub_image(&area));
}

#[test]
fn a_partial_redraw_clips_every_region() {
    let panel = NineSlice::new(Size::new(16, 16), config(40, 24, 4, false));
    let plan = panel.draw_sub_image(&rect(2, 2, 12, 4));
    let expected = vec![
        region(2, 2, 2, 2, 2, 2),
        region(4, 2, 8, 2, 4, 2),
        region(4, 2, 2, 2, 12, 2),
        region(2, 4, 2, 2, 2, 4),
    ];
    assert_eq!(plan, expected);
}

#[test]
fn a_redraw_outside_the_panel_paints_nothing() {
    let panel = NineSlice::new(Size::new(16, 16), config(40, 24, 4, true));
    assert_eq!(panel.draw_sub_image(&rect(40, 0, 10, 10)), Vec::<Region>::new());
    assert_eq!(panel.draw_sub_image(&rect(0, 24, 10, 10)), Vec::<Region>::new());
    assert_eq!(panel.draw_sub_image(&rect(-10, -10, 10, 10)), Vec::<Region>::new());
    assert_eq!(panel.draw_sub_image(&rect(5, 5, 0, 0)), Vec::<Region>::new());
    assert_eq!(panel.draw_sub_image(&rect(5, 5, 0, 9)), Vec::<Region>::new());
}

#[test]
fn a_redraw_of_the_center_of_a_hollow_panel_paints_nothing() {
    let panel = NineSlice::new(Size::new(16, 16), config(40, 24, 4, false));
    assert_eq!(panel.draw_sub_image(&rect(4, 4, 32, 16)), Vec::<Region>::new());
    let filled = NineSlice::new(Size::new(16, 16), config(40, 24, 4, true));
    assert_eq!(filled.draw_sub_image(&rect(4, 4, 32, 16)).len(), 8);
}

#[test]
fn a_partial_redraw_is_the_whole_panel_restricted_to_the_area() {
    let panels = [
        NineSlice::new(Size::new(16, 16), config(40, 24, 4, true)),
        NineSlice::new(Size::new(7, 9), config(23, 17, 3, false)),
        NineSlice::new(Size::new(10, 10), config(10, 10, 5, true)),
        NineSlice::new(
            Size::new(9, 5),
            Config { size: Size::new(20, 20), top: 1, right: 2, bottom: 3, left: 4, fill_center: true },
        ),
    ];
    let areas = [rect(0, 0, 40, 24), rect(3, 2, 11, 9), rect(-4, 10, 20, 30), rect(17, 0, 1, 24)];
    for panel in panels.iter() {
        let size = panel.size();
        let (w, h) = (size.width as i32, size.height as i32);
        let whole = paint(&panel.draw(), w, h);
        for area in areas.iter() {
            let part = paint(&panel.draw_sub_image(area), w, h);
            for y in 0..h {
                for x in 0..w {
                    let expected = if inside(area, x, y) {
                        whole[y as usize][x as usize]
                    } else {
                        (None, 0)
                    };
                    assert_eq!(part[y as usize][x as usize], expected, "at {} {}", x, y);
                }
            }
        }
    }
}

#[test]
fn every_pixel_shows_its_template_pixel_once() {
    let cases = [
        (Size::new(16, 16), Size::new(40, 24), [4, 4, 4, 4], true),
        (Size::new(16, 16), Size::new(40, 24), [4, 4, 4, 4], false),
        (Size::new(9, 5), Size::new(20, 21), [1, 2, 3, 4], true),
        (Size::new(9, 5), Size::new(7, 5), [1, 2, 3, 4], true),
        (Size::new(6, 4), Size::new(30, 9), [1, 2, 3, 4], true),
        (Size::new(5, 5), Size::new(11, 11), [0, 0, 0, 0], true),
    ];
    for (template, size, [top, right, bottom, left], fill_center) in cases {
        let c = Config { size, top, right, bottom, left, fill_center };
        assert!(c.borders_fit(size));
        let panel = NineSlice::new(template, c);
        let (w, h) = (size.width as i32, size.height as i32);
        let canvas = paint(&panel.draw(), w, h);
        for y in 0..h {
            for x in 0..w {
                let sx = along(x, left as i32, right as i32, w, template.width as i32);
                let sy = along(y, top as i32, bottom as i32, h, template.height as i32);
                let in_center = left as i32 <= x
                    && x < w - right as i32
                    && top as i32 <= y
                    && y < h - bottom as i32;
                let expected = match (sx, sy) {
                    (Some(sx), Some(sy)) if fill_center || !in_center => (Some((sx, sy)), 1),
                    _ => (None, 0),
                };
                assert_eq!(canvas[y as usize][x as usize], expected, "at {} {}", x, y);
            }
        }
    }
}

#[test]
fn regions_stay_inside_template_and_panel_when_the_borders_fit() {
    let c = Config { size: Size::new(31, 17), top: 1, right: 2, bottom: 3, left: 4, fill_center: true };
    let template = Size::new(11, 7);
    assert!(c.is_valid(template));
    let panel = NineSlice::new(template, c);
    for r in panel.draw() {
        assert!(r.source.top_left.x >= 0 && r.source.top_left.y >= 0);
        assert!(r.source.top_left.x as u32 + r.source.size.width <= 11);
        assert!(r.source.top_left.y as u32 + r.source.size.height <= 7);
        assert!(r.offset.x >= 0 && r.offset.y >= 0);
        assert!(r.offset.x as u32 + r.source.size.width <= 31);
        assert!(r.offset.y as u32 + r.source.size.height <= 17);
        assert!(r.source.size.width > 0 && r.source.size.height > 0);
    }
}

#[test]
fn a_panel_at_the_end_of_the_coordinate_range() {
    let big: u32 = 0x7fff_ffff;
    let c = Config { size: Size::new(big, 3), top: 1, right: 1, bottom: 1, left: 1, fill_center: false };
    let panel = NineSlice::new(Size::new(big, 3), c);
    let plan = panel.draw();
    assert_eq!(
        plan,
        vec![
            region(0, 0, 1, 1, 0, 0),
            region(i32::MAX - 1, 0, 1, 1, i32::MAX - 1, 0),
            region(i32::MAX - 1, 2, 1, 1, i32::MAX - 1, 2),
            region(0, 2, 1, 1, 0, 2),
            region(1, 0, big - 2, 1, 1, 0),
            region(i32::MAX - 1, 1, 1, 1, i32::MAX - 1, 1),
            region(1, 2, big - 2, 1, 1, 2),
            region(0, 1, 1, 1, 0, 1),
        ]
    );
}
