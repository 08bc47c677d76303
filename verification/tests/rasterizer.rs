use terminoids::asciicontext::AsciiContext;
use terminoids::drawables::{ColorPalette, Triangle};
use terminoids::palette::{decode, shade, Paint, RED_PALETTE};
use terminoids::raster::{edge_function, get_barycentric, scan_row, shade_cell};

fn cells(x: i32, y: i32) -> (i32, i32) {
    (x * 256, y * 256)
}

fn triangle(a: (i32, i32), b: (i32, i32), c: (i32, i32), luma: i32, hue: ColorPalette) -> Triangle {
    Triangle { points: [a, b, c], colors: [luma, luma, luma], color_palette: hue }
}

fn filled(ctx: &AsciiContext) -> usize {
    let (w, h) = ctx.get_size();
    let mut n = 0;
    for y in 0..h {
        for x in 0..w {
            if ctx.get((x, y)) != Some(0) {
                n += 1;
            }
        }
    }
    n
}

fn row(ctx: &AsciiContext, y: u16) -> Vec<u8> {
    let (w, _) = ctx.get_size();
    (0..w).map(|x| ctx.get((x, y)).unwrap()).collect()
}

#[test]
fn edge_function_is_twice_the_signed_area() {
    assert_eq!(edge_function((0, 0), (10, 0), (0, 10)), -100);
    assert_eq!(edge_function((0, 0), (0, 10), (10, 0)), 100);
    assert_eq!(edge_function((0, 0), (10, 10), (20, 20)), 0);
    assert_eq!(edge_function((3, 4), (3, 4), (9, 9)), 0);
    assert_eq!(edge_function((1, 2), (4, 6), (7, 3)), (7 - 1) * (6 - 2) - (3 - 2) * (4 - 1));
    assert_eq!(
        edge_function((i32::MIN, i32::MIN), (i32::MAX, i32::MIN), (i32::MIN, i32::MAX)),
        -((u32::MAX as i128) * (u32::MAX as i128))
    );
}

#[test]
fn barycentric_weights_partition_the_area() {
    let a = (0, 0);
    let b = (2560, 0);
    let c = (0, 2560);
    let total = edge_function(a, b, c);
    assert_ne!(total, 0);
    for p in [(1, 1), (128, 128), (1000, 1000), (2000, 500), (10, 2500), (1279, 1280)] {
        let w0 = edge_function(b, c, p);
        let w1 = edge_function(c, a, p);
        let w2 = edge_function(a, b, p);
        assert_eq!(w0 + w1 + w2, total);
        for w in [w0, w1, w2] {
            // each weight, w / total, lies strictly between 0 and 1
            assert!(w.signum() == total.signum());
            assert!(w.abs() < total.abs());
        }
    }
}

#[test]
fn a_uniform_triangle_has_one_luma_everywhere() {
    let t = triangle((0, 0), (2560, 0), (0, 2560), 200, ColorPalette::Red);
    for p in [(128, 128), (0, 0), (2560, 0), (5000, -300), (-77, 9000)] {
        assert_eq!(get_barycentric(p, &t), Some(200));
    }
}

#[test]
fn lumas_are_interpolated_between_the_vertices() {
    let t = Triangle {
        points: [(0, 0), (2560, 0), (0, 2560)],
        colors: [0, 256, 128],
        color_palette: ColorPalette::Green,
    };
    assert_eq!(get_barycentric((0, 0), &t), Some(0));
    assert_eq!(get_barycentric((2560, 0), &t), Some(256));
    assert_eq!(get_barycentric((0, 2560), &t), Some(128));
    assert_eq!(get_barycentric((1280, 0), &t), Some(128));
    assert_eq!(get_barycentric((0, 1280), &t), Some(64));
    assert_eq!(get_barycentric((1280, 1280), &t), Some(192));
    // rounded down: 256 * 1 / 2560 + 128 * 1 / 2560 = 0.15
    assert_eq!(get_barycentric((1, 1), &t), Some(0));
    // outside the triangle the weights go on linearly
    assert_eq!(get_barycentric((-1280, 0), &t), Some(-128));
    assert_eq!(get_barycentric((5120, 0), &t), Some(512));
}

#[test]
fn winding_does_not_change_the_luma() {
    let one = Triangle {
        points: [(0, 0), (2560, 0), (0, 2560)],
        colors: [0, 256, 128],
        color_palette: ColorPalette::Green,
    };
    let other = Triangle {
        points: [(0, 0), (0, 2560), (2560, 0)],
        colors: [0, 128, 256],
        color_palette: ColorPalette::Green,
    };
    for p in [(3, 5), (700, 900), (1280, 1280), (-50, 3000), (2559, 1)] {
        assert_eq!(get_barycentric(p, &one), get_barycentric(p, &other));
    }
}

#[test]
fn a_flat_triangle_has_no_luma() {
    let line = triangle((0, 0), (1000, 1000), (2000, 2000), 256, ColorPalette::Red);
    assert_eq!(get_barycentric((5, 5), &line), None);
    assert_eq!(shade_cell(&line, 1, 1), None);
    let dot = triangle((7, 7), (7, 7), (7, 7), 256, ColorPalette::Red);
    assert_eq!(get_barycentric((7, 7), &dot), None);
    let doubled = triangle((0, 0), (0, 0), (900, 100), 256, ColorPalette::Red);
    assert_eq!(get_barycentric((7, 7), &doubled), None);
}

#[test]
fn an_interpolated_luma_stops_at_the_ends_of_the_range() {
    let t = Triangle {
        points: [(0, 0), (1, 0), (0, 1)],
        colors: [0, i32::MAX, 0],
        color_palette: ColorPalette::Red,
    };
    assert_eq!(get_barycentric((1000, 0), &t), Some(i32::MAX));
    assert_eq!(get_barycentric((-1000, 0), &t), Some(i32::MIN));
}

#[test]
fn rows_are_spanned_below_the_top_down_to_the_bottom() {
    let t = triangle(cells(0, 0), cells(10, 0), cells(0, 10), 256, ColorPalette::Red);
    assert_eq!(scan_row(&t, -1), None);
    assert_eq!(scan_row(&t, 0), None);
    assert_eq!(scan_row(&t, 1), Some((0, 9)));
    assert_eq!(scan_row(&t, 2), Some((0, 8)));
    assert_eq!(scan_row(&t, 9), Some((0, 1)));
    assert_eq!(scan_row(&t, 10), Some((0, 0)));
    assert_eq!(scan_row(&t, 11), None);
}

#[test]
fn edges_are_interpolated_with_rounding_down() {
    // from (0, 0) down to (5, 3) and (-5, 3)
    let t = triangle(cells(0, 0), cells(5, 3), cells(-5, 3), 256, ColorPalette::Red);
    assert_eq!(scan_row(&t, 1), Some((-2, 1)));
    assert_eq!(scan_row(&t, 2), Some((-4, 3)));
    assert_eq!(scan_row(&t, 3), Some((-5, 5)));
}

#[test]
fn vertices_inside_a_cell_count_as_that_cell() {
    let t = triangle((10, 20), (2560 + 255, 255), (100, 2560 + 1), 256, ColorPalette::Red);
    assert_eq!(scan_row(&t, 1), Some((0, 9)));
    assert_eq!(scan_row(&t, 10), Some((0, 0)));
    let below = triangle((-1, -1), (2559, -1), (-1, 2559), 256, ColorPalette::Red);
    assert_eq!(scan_row(&below, 0), Some((-1, 8)));
    assert_eq!(scan_row(&below, 9), Some((-1, -1)));
    assert_eq!(scan_row(&below, 10), None);
}

#[test]
fn all_three_edges_in_one_row_span_nothing() {
    let t = triangle((0, 0), (2000, 100), (900, 255), 256, ColorPalette::Red);
    for y in -2..3 {
        assert_eq!(scan_row(&t, y), None);
    }
}

#[test]
fn a_cell_gets_the_code_of_the_luma_at_its_centre() {
    let t = Triangle {
        points: [(0, 0), (2560, 0), (0, 2560)],
        colors: [0, 256, 128],
        color_palette: ColorPalette::Green,
    };
    // centre (128, 384): luma 256 * 128 / 2560 + 128 * 384 / 2560 = 32
    assert_eq!(get_barycentric((128, 384), &t), Some(32));
    assert_eq!(shade_cell(&t, 0, 1), Some(17 + 2));
    assert_eq!(shade_cell(&t, 9, 1), Some(32));
    assert_eq!(shade_cell(&t, 0, 10), Some(26));
}

#[test]
fn a_right_triangle_of_ten_cells_fills_about_half_a_square() {
    let mut ctx = AsciiContext::new((20, 15));
    let t = triangle(cells(0, 0), cells(10, 0), cells(0, 10), 256, ColorPalette::Red);
    ctx.fill_triangle(&t);
    let count = filled(&ctx);
    assert!(45 <= count && count <= 55);
    assert_eq!(count, 55);
    for y in 0..15 {
        for x in 0..20 {
            let code = ctx.get((x, y)).unwrap();
            let inside = 1 <= y && y <= 10 && x <= 10 - y;
            assert_eq!(code != 0, inside);
            if inside {
                assert_eq!(code, 16);
                assert_eq!(decode(code), Paint::Shade { palette: ColorPalette::Red, level: 15 });
                assert_eq!(shade(ColorPalette::Red, 15).0, RED_PALETTE[2]);
            }
        }
    }
}

#[test]
fn a_gradient_is_painted_cell_by_cell() {
    let mut ctx = AsciiContext::new((12, 12));
    let t = Triangle {
        points: [(0, 0), (2560, 0), (0, 2560)],
        colors: [0, 256, 128],
        color_palette: ColorPalette::Green,
    };
    ctx.fill_triangle(&t);
    assert_eq!(row(&ctx, 0), vec![0; 12]);
    assert_eq!(row(&ctx, 1), vec![19, 20, 22, 23, 25, 27, 28, 30, 31, 32, 0, 0]);
    assert_eq!(row(&ctx, 5), vec![22, 23, 25, 27, 28, 30, 0, 0, 0, 0, 0, 0]);
    assert_eq!(row(&ctx, 10), vec![26, 0, 0, 0, 0, 0, 0, 0, 0, 0, 0, 0]);
    assert_eq!(row(&ctx, 11), vec![0; 12]);
}

#[test]
fn an_equilateral_triangle_fills_about_its_area() {
    let mut ctx = AsciiContext::new((60, 50));
    let a = cells(10, 45);
    let b = cells(50, 45);
    let c = (30 * 256, 10 * 256 + 90);
    let t = triangle(a, b, c, 256, ColorPalette::Blue);
    ctx.fill_triangle(&t);
    let area = (edge_function(a, b, c).abs() / 2) as f64 / 65536.0;
    let count = filled(&ctx) as f64;
    assert!(count >= area * 0.85);
    assert!(count <= area * 1.15);
    assert_eq!(filled(&ctx), 755);
}

#[test]
fn flat_triangles_fill_nothing() {
    let mut ctx = AsciiContext::new((30, 30));
    let flat = [
        triangle(cells(1, 1), cells(10, 10), cells(20, 20), 256, ColorPalette::Red),
        triangle(cells(5, 5), cells(5, 5), cells(5, 5), 256, ColorPalette::Red),
        triangle(cells(2, 3), cells(2, 3), cells(25, 20), 256, ColorPalette::Red),
        triangle(cells(2, 20), cells(25, 3), cells(2, 20), 256, ColorPalette::Red),
        triangle(cells(0, 7), cells(12, 7), cells(29, 7), 256, ColorPalette::Red),
        triangle(cells(7, 0), cells(7, 12), cells(7, 29), 256, ColorPalette::Red),
        triangle((0, 0), (0, 0), (0, 0), 256, ColorPalette::Red),
    ];
    for t in flat {
        ctx.fill_triangle(&t);
        assert_eq!(filled(&ctx), 0);
    }
}

#[test]
fn cells_outside_the_grid_are_skipped() {
    let mut ctx = AsciiContext::new((8, 6));
    let t = triangle(cells(-5, -5), cells(20, -5), cells(-5, 20), 256, ColorPalette::Cyan);
    ctx.fill_triangle(&t);
    assert_eq!(filled(&ctx), 48);
    assert_eq!(ctx.get((0, 0)), Some(96));
    assert_eq!(ctx.get((7, 5)), Some(96));

    let mut partly = AsciiContext::new((8, 6));
    let t = triangle(cells(4, 2), cells(14, 2), cells(4, 12), 256, ColorPalette::Cyan);
    partly.fill_triangle(&t);
    assert_eq!(row(&partly, 2), vec![0; 8]);
    assert_eq!(row(&partly, 3), vec![0, 0, 0, 0, 96, 96, 96, 96]);
    assert_eq!(row(&partly, 5), vec![0, 0, 0, 0, 96, 96, 96, 96]);

    let mut away = AsciiContext::new((8, 6));
    for t in [
        triangle(cells(100, 100), cells(120, 100), cells(100, 130), 256, ColorPalette::Cyan),
        triangle(cells(-100, -100), cells(-120, -100), cells(-100, -130), 256, ColorPalette::Cyan),
        triangle(cells(2, -30), cells(6, -30), cells(4, -1), 256, ColorPalette::Cyan),
        triangle(cells(2, 6), cells(6, 6), cells(4, 40), 256, ColorPalette::Cyan),
    ] {
        away.fill_triangle(&t);
    }
    assert_eq!(filled(&away), 0);
}

#[test]
fn a_huge_triangle_is_filled_in_no_time() {
    let mut ctx = AsciiContext::new((80, 24));
    let t = triangle(
        (i32::MAX, i32::MAX),
        (i32::MIN, i32::MAX),
        (i32::MAX, i32::MIN),
        128,
        ColorPalette::Gray,
    );
    ctx.fill_triangle(&t);
    assert_eq!(filled(&ctx), 80 * 24);
    assert_eq!(ctx.get((40, 12)), Some(97 + 8));
}

#[test]
fn an_empty_grid_takes_any_triangle() {
    let t = triangle(cells(0, 0), cells(10, 0), cells(0, 10), 256, ColorPalette::Red);
    for size in [(0, 0), (0, 5), (5, 0)] {
        let mut ctx = AsciiContext::new(size);
        ctx.fill_triangle(&t);
        assert_eq!(filled(&ctx), 0);
        assert_eq!(ctx.get((0, 0)), None);
    }
}

#[test]
fn a_custom_triangle_is_filled_with_its_sprite() {
    let mut ctx = AsciiContext::new((6, 6));
    let t = triangle(cells(0, 0), cells(4, 0), cells(0, 4), 128 * 256, ColorPalette::Custom);
    ctx.fill_triangle(&t);
    assert_eq!(row(&ctx, 1), vec![128, 128, 128, 128, 0, 0]);
    assert_eq!(row(&ctx, 4), vec![128, 0, 0, 0, 0, 0]);
}
