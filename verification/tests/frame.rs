use terminoids::asciicontext::AsciiContext;
use terminoids::drawables::{Camera, ColorPalette, Point, TextColorPalette, TextEntry, Triangle};
use terminoids::drawingcontext::DrawingContext;
use terminoids::palette::{decode, get_indexes, shade, Paint, RED_PALETTE};

const DEFAULT: &str = "\u{1b}[48;5;0m\u{1b}[38;5;7m";

fn camera(width: u16, height: u16, zoom: i32) -> Camera {
    Camera { position: (0, 0), size: (width, height), zoom }
}

fn triangle(a: (i32, i32), b: (i32, i32), c: (i32, i32), luma: i32, hue: ColorPalette) -> Triangle {
    Triangle { points: [a, b, c], colors: [luma, luma, luma], color_palette: hue }
}

fn point(position: (i32, i32), color: i32, hue: ColorPalette) -> Point {
    Point { position, color, color_palette: hue }
}

fn text(x: u16, y: u16, string: &str, color_palette: TextColorPalette) -> TextEntry {
    TextEntry { position: (x, y), string: String::from(string), color_palette }
}

fn grid(ctx: &AsciiContext) -> Vec<u8> {
    let (w, h) = ctx.get_size();
    let mut cells = Vec::new();
    for y in 0..h {
        for x in 0..w {
            cells.push(ctx.get((x, y)).unwrap());
        }
    }
    cells
}

fn filled(ctx: &AsciiContext) -> usize {
    grid(ctx).iter().filter(|&&c| c != 0).count()
}

fn row(ctx: &AsciiContext, y: u16, from: u16, to: u16) -> Vec<u8> {
    (from..to).map(|x| ctx.get((x, y)).unwrap()).collect()
}

#[test]
fn a_new_frame_is_blank() {
    let ctx = AsciiContext::new((7, 3));
    assert_eq!(ctx.get_size(), (7, 3));
    assert_eq!(grid(&ctx), vec![0; 21]);
    assert_eq!(ctx.get((6, 2)), Some(0));
    assert_eq!(ctx.get((7, 2)), None);
    assert_eq!(ctx.get((6, 3)), None);
}

#[test]
fn set_writes_one_cell() {
    let mut ctx = AsciiContext::new((4, 3));
    ctx.set((1, 2), 9);
    ctx.set((3, 0), 200);
    let mut expected = vec![0; 12];
    expected[2 * 4 + 1] = 9;
    expected[3] = 200;
    assert_eq!(grid(&ctx), expected);
    ctx.set((1, 2), 0);
    expected[2 * 4 + 1] = 0;
    assert_eq!(grid(&ctx), expected);
}

#[test]
fn set_skips_positions_outside_the_grid() {
    let mut ctx = AsciiContext::new((4, 3));
    ctx.set((4, 0), 9);
    ctx.set((0, 3), 9);
    ctx.set((5, 1), 9);
    ctx.set((u16::MAX, u16::MAX), 9);
    assert_eq!(grid(&ctx), vec![0; 12]);
}

#[test]
fn the_largest_grid_row_is_addressed_without_wrapping() {
    let mut ctx = AsciiContext::new((300, 300));
    ctx.set((299, 299), 5);
    ctx.set((0, 219), 6);
    assert_eq!(ctx.get((299, 299)), Some(5));
    assert_eq!(ctx.get((0, 219)), Some(6));
    assert_eq!(filled(&ctx), 2);
}

#[test]
fn clear_resets_the_grid_and_keeps_the_submissions() {
    let cam = camera(40, 63, 256);
    let mut ctx = AsciiContext::new((40, 63));
    ctx.add_triangle(&triangle((0, 0), (1205, 0), (0, 2560), 256, ColorPalette::Red));
    ctx.draw_triangles(&cam);
    assert_eq!(filled(&ctx), 55);
    ctx.clear();
    assert_eq!(filled(&ctx), 0);
    assert_eq!(ctx.get_size(), (40, 63));
    ctx.draw_triangles(&cam);
    assert_eq!(filled(&ctx), 55);
}

#[test]
fn resize_gives_a_blank_grid_of_the_new_size() {
    let mut ctx = AsciiContext::new((4, 3));
    ctx.set((1, 1), 9);
    ctx.resize((6, 2));
    assert_eq!(ctx.get_size(), (6, 2));
    assert_eq!(grid(&ctx), vec![0; 12]);
    ctx.set((5, 1), 7);
    assert_eq!(ctx.get((5, 1)), Some(7));
    assert_eq!(ctx.get((1, 2)), None);
    ctx.resize((0, 0));
    assert_eq!(ctx.get((0, 0)), None);
    assert_eq!(ctx.display(), DEFAULT);
}

#[test]
fn submitting_draws_nothing() {
    let mut ctx = AsciiContext::new((40, 63));
    ctx.add_triangle(&triangle((0, 0), (1205, 0), (0, 2560), 256, ColorPalette::Red));
    ctx.add_point(&point((0, 0), 256, ColorPalette::Blue));
    ctx.add_text_entry(&text(0, 0, "x", TextColorPalette::Text));
    assert_eq!(filled(&ctx), 0);
}

#[test]
fn a_right_triangle_is_drawn_from_world_to_grid() {
    let cam = camera(160, 63, 256);
    let mut ctx = AsciiContext::new((160, 63));
    ctx.add_triangle(&triangle((0, 0), (1205, 0), (0, 2560), 256, ColorPalette::Red));
    ctx.draw_triangles(&cam);
    let count = filled(&ctx);
    assert!(45 <= count && count <= 55);
    assert_eq!(count, 55);
    assert_eq!(row(&ctx, 31, 78, 93), vec![0; 15]);
    assert_eq!(row(&ctx, 32, 78, 93), vec![0, 0, 16, 16, 16, 16, 16, 16, 16, 16, 16, 16, 0, 0, 0]);
    assert_eq!(row(&ctx, 41, 78, 93), vec![0, 0, 16, 0, 0, 0, 0, 0, 0, 0, 0, 0, 0, 0, 0]);
    assert_eq!(row(&ctx, 42, 78, 93), vec![0; 15]);
    for code in grid(&ctx) {
        if code != 0 {
            assert_eq!(decode(code), Paint::Shade { palette: ColorPalette::Red, level: 15 });
            let (entry, _) = get_indexes(15, ColorPalette::Red.ramp_length());
            assert_eq!(entry, 2);
            assert_eq!(shade(ColorPalette::Red, 15).0, RED_PALETTE[entry]);
        }
    }
    let shown = ctx.display();
    assert_eq!(shown.matches('\u{2593}').count(), 55);
    assert_eq!(shown.matches("\u{1b}[38;5;11m\u{1b}[48;5;9m").count(), 10);
}

#[test]
fn later_triangles_paint_over_earlier_ones() {
    let cam = camera(40, 63, 256);
    let red = triangle((0, 0), (1205, 0), (0, 2560), 256, ColorPalette::Red);
    let green = triangle((0, 1280), (1205, 1280), (0, 3840), 256, ColorPalette::Green);

    let mut ctx = AsciiContext::new((40, 63));
    ctx.add_triangles(&vec![red, green]);
    ctx.draw_triangles(&cam);
    assert_eq!(row(&ctx, 36, 20, 31), vec![16, 16, 16, 16, 16, 16, 0, 0, 0, 0, 0]);
    assert_eq!(row(&ctx, 37, 20, 31), vec![32, 32, 32, 32, 32, 32, 32, 32, 32, 32, 0]);
    assert_eq!(row(&ctx, 41, 20, 31), vec![32, 32, 32, 32, 32, 32, 0, 0, 0, 0, 0]);

    let mut ctx = AsciiContext::new((40, 63));
    ctx.add_triangles(&vec![green, red]);
    ctx.draw_triangles(&cam);
    assert_eq!(row(&ctx, 36, 20, 31), vec![16, 16, 16, 16, 16, 16, 0, 0, 0, 0, 0]);
    assert_eq!(row(&ctx, 37, 20, 31), vec![16, 16, 16, 16, 16, 32, 32, 32, 32, 32, 0]);
    assert_eq!(row(&ctx, 41, 20, 31), vec![16, 32, 32, 32, 32, 32, 0, 0, 0, 0, 0]);
    assert_eq!(row(&ctx, 42, 20, 31), vec![32, 32, 32, 32, 32, 0, 0, 0, 0, 0, 0]);
}

#[test]
fn triangles_are_kept_in_the_order_of_submission() {
    let cam = camera(40, 63, 256);
    let red = triangle((0, 0), (1205, 0), (0, 2560), 256, ColorPalette::Red);
    let green = triangle((0, 0), (1205, 0), (0, 2560), 256, ColorPalette::Green);
    let blue = triangle((0, 0), (1205, 0), (0, 2560), 256, ColorPalette::Blue);
    let mut ctx = AsciiContext::new((40, 63));
    ctx.add_triangle(&red);
    ctx.add_triangles(&vec![green, blue]);
    ctx.draw_triangles(&cam);
    assert_eq!(ctx.get((20, 32)), Some(48));
    ctx.add_triangle(&red);
    ctx.draw_triangles(&cam);
    assert_eq!(ctx.get((20, 32)), Some(16));
    ctx.add_triangles(&vec![]);
    ctx.draw_triangles(&cam);
    assert_eq!(ctx.get((20, 32)), Some(16));
}

#[test]
fn flat_triangles_draw_nothing() {
    let cam = camera(160, 63, 512);
    let mut ctx = AsciiContext::new((160, 63));
    ctx.add_triangles(&vec![
        triangle((0, 0), (0, 0), (0, 0), 256, ColorPalette::Red),
        triangle((-2000, -2000), (0, 0), (2000, 2000), 256, ColorPalette::Red),
        triangle((-2000, 300), (300, 300), (2000, 300), 256, ColorPalette::Red),
        triangle((100, -3000), (100, 0), (100, 2000), 256, ColorPalette::Red),
        triangle((500, 500), (500, 500), (-2000, 1000), 256, ColorPalette::Red),
        triangle((500, 500), (-900, 1000), (500, 500), 256, ColorPalette::Red),
    ]);
    ctx.draw_triangles(&cam);
    assert_eq!(filled(&ctx), 0);
}

#[test]
fn triangles_beyond_the_viewport_are_clipped() {
    let cam = camera(40, 20, 512);
    let mut ctx = AsciiContext::new((40, 20));
    ctx.add_triangles(&vec![
        triangle((-100000, -100000), (100000, -100000), (-100000, 100000), 256, ColorPalette::Red),
        triangle((i32::MIN, i32::MIN), (i32::MAX, i32::MIN), (0, i32::MAX), 256, ColorPalette::Cyan),
        triangle((90000, 90000), (90500, 90000), (90000, 90500), 256, ColorPalette::Blue),
    ]);
    ctx.draw_triangles(&cam);
    assert!(filled(&ctx) > 0);
    assert!(grid(&ctx).iter().all(|&c| c == 0 || c == 16 || c == 96));
}

#[test]
fn flushing_triangles_leaves_the_grid_and_the_other_lists() {
    let cam = camera(40, 63, 256);
    let mut ctx = AsciiContext::new((40, 63));
    ctx.add_triangle(&triangle((0, 0), (1205, 0), (0, 2560), 256, ColorPalette::Red));
    ctx.add_point(&point((-256, -256), 256, ColorPalette::Blue));
    ctx.draw_triangles(&cam);
    assert_eq!(filled(&ctx), 55);
    ctx.flush_triangles();
    assert_eq!(filled(&ctx), 55);
    ctx.clear();
    ctx.draw_triangles(&cam);
    assert_eq!(filled(&ctx), 0);
    ctx.draw_points(&cam);
    assert_eq!(filled(&ctx), 1);
}

#[test]
fn a_point_fills_the_cell_that_holds_it() {
    let cam = camera(40, 63, 256);
    let mut ctx = AsciiContext::new((40, 63));
    ctx.add_point(&point((0, 0), 256, ColorPalette::Blue));
    ctx.add_point(&point((-8, -1), 128, ColorPalette::Gray));
    ctx.add_point(&point((1205, 2560), 0, ColorPalette::Yellow));
    ctx.draw_points(&cam);
    assert_eq!(ctx.get((20, 31)), Some(48));
    assert_eq!(ctx.get((19, 31)), Some(105));
    assert_eq!(ctx.get((30, 41)), Some(49));
    assert_eq!(filled(&ctx), 3);
}

#[test]
fn a_sprite_point_carries_its_code_as_the_luma() {
    let cam = camera(40, 63, 256);
    let mut ctx = AsciiContext::new((40, 63));
    ctx.add_points(&vec![
        point((0, 0), 128 * 256, ColorPalette::Custom),
        point((256, 0), 129 * 256, ColorPalette::Custom),
        point((512, 0), 130 * 256, ColorPalette::Custom),
    ]);
    ctx.draw_points(&cam);
    assert_eq!(row(&ctx, 31, 20, 26), vec![128, 0, 129, 0, 130, 0]);
}

#[test]
fn later_points_paint_over_earlier_ones() {
    let cam = camera(40, 63, 256);
    let mut ctx = AsciiContext::new((40, 63));
    ctx.add_point(&point((0, 0), 256, ColorPalette::Blue));
    ctx.add_points(&vec![point((0, 0), 0, ColorPalette::Red), point((3, 3), 256, ColorPalette::Red)]);
    ctx.draw_points(&cam);
    assert_eq!(ctx.get((20, 31)), Some(16));
    assert_eq!(filled(&ctx), 1);
}

#[test]
fn points_outside_the_viewport_are_skipped() {
    let cam = camera(40, 63, 256);
    let mut ctx = AsciiContext::new((40, 63));
    ctx.add_points(&vec![
        point((-2410, 0), 256, ColorPalette::Blue),
        point((2410, 0), 256, ColorPalette::Blue),
        point((0, -8065), 256, ColorPalette::Blue),
        point((0, 8064), 256, ColorPalette::Blue),
        point((i32::MAX, i32::MAX), 256, ColorPalette::Blue),
        point((i32::MIN, i32::MIN), 256, ColorPalette::Blue),
    ]);
    ctx.draw_points(&cam);
    assert_eq!(filled(&ctx), 0);
    ctx.flush_points();
    ctx.add_points(&vec![
        point((-2409, -8064), 256, ColorPalette::Blue),
        point((2409, 8063), 256, ColorPalette::Blue),
    ]);
    ctx.draw_points(&cam);
    assert_eq!(ctx.get((0, 0)), Some(48));
    assert_eq!(ctx.get((39, 62)), Some(48));
    assert_eq!(filled(&ctx), 2);
}

#[test]
fn flushing_points_leaves_the_triangles() {
    let cam = camera(40, 63, 256);
    let mut ctx = AsciiContext::new((40, 63));
    ctx.add_triangle(&triangle((0, 0), (1205, 0), (0, 2560), 256, ColorPalette::Red));
    ctx.add_point(&point((-256, -256), 256, ColorPalette::Blue));
    ctx.flush_points();
    ctx.draw_points(&cam);
    assert_eq!(filled(&ctx), 0);
    ctx.draw_triangles(&cam);
    assert_eq!(filled(&ctx), 55);
}

#[test]
fn a_blank_frame_is_shown_as_rows_of_blanks() {
    let mut ctx = AsciiContext::new((2, 2));
    ctx.set((1, 1), 77);
    ctx.clear();
    assert_eq!(
        ctx.display(),
        "\u{1b}[1;1H\u{1b}[48;5;0m\u{1b}[38;5;7m  \r\n\u{1b}[2;1H\u{1b}[48;5;0m\u{1b}[38;5;7m  \r\u{1b}[48;5;0m\u{1b}[38;5;7m"
    );
}

#[test]
fn every_cell_of_a_cleared_frame_is_a_blank_in_the_default_colours() {
    let mut ctx = AsciiContext::new((31, 17));
    ctx.add_triangle(&triangle((-2000, -2000), (2000, -2000), (0, 2000), 256, ColorPalette::Red));
    ctx.draw_triangles(&camera(31, 17, 512));
    assert!(filled(&ctx) > 0);
    ctx.flush_triangles();
    ctx.clear();
    let shown = ctx.display();
    let mut expected = String::new();
    for y in 0..17 {
        if y > 0 {
            expected.push('\n');
        }
        expected.push_str(&format!("\u{1b}[{};1H{}", y + 1, DEFAULT));
        expected.push_str(&" ".repeat(31));
        expected.push('\r');
    }
    expected.push_str(DEFAULT);
    assert_eq!(shown, expected);
    assert_eq!(shown.matches(' ').count(), 31 * 17);
    assert_eq!(shown.matches("\u{1b}[48;5;").count(), shown.matches("\u{1b}[48;5;0m").count());
    assert_eq!(shown.matches("\u{1b}[38;5;").count(), shown.matches("\u{1b}[38;5;7m").count());
}

#[test]
fn colours_are_written_once_for_a_run_of_equal_cells() {
    let mut ctx = AsciiContext::new((4, 1));
    ctx.set((0, 0), 16);
    ctx.set((1, 0), 16);
    ctx.set((3, 0), 128);
    assert_eq!(
        ctx.display(),
        "\u{1b}[1;1H\u{1b}[48;5;0m\u{1b}[38;5;7m\u{1b}[38;5;11m\u{1b}[48;5;9m\u{2593}\u{2593}\u{1b}[48;5;0m\u{1b}[38;5;7m \u{1b}[38;5;15m\u{25cf}\u{1b}[48;5;0m\u{1b}[38;5;7m\r\u{1b}[48;5;0m\u{1b}[38;5;7m"
    );
}

#[test]
fn every_kind_of_cell_in_one_row() {
    let mut ctx = AsciiContext::new((12, 1));
    for (x, code) in [16, 16, 17, 17, 0, 0, 129, 130, 200, 200, 16, 0].into_iter().enumerate() {
        ctx.set((x as u16, 0), code);
    }
    assert_eq!(
        ctx.display(),
        "\u{1b}[1;1H\u{1b}[48;5;0m\u{1b}[38;5;7m\u{1b}[38;5;11m\u{1b}[48;5;9m\u{2593}\u{2593}\u{1b}[38;5;2m\u{1b}[48;5;0m  \u{1b}[48;5;0m\u{1b}[38;5;7m  \u{1b}[48;5;9m\u{1b}[38;5;0m\u{25c6}\u{1b}[48;5;9m\u{1b}[38;5;0m\u{25c7}\u{1b}[38;5;7m\u{1b}[48;5;0m  \u{1b}[38;5;11m\u{1b}[48;5;9m\u{2593}\u{1b}[48;5;0m\u{1b}[38;5;7m \r\u{1b}[48;5;0m\u{1b}[38;5;7m"
    );
}

#[test]
fn colours_are_written_again_at_the_start_of_each_row() {
    let mut ctx = AsciiContext::new((2, 2));
    for x in 0..2 {
        for y in 0..2 {
            ctx.set((x, y), 112);
        }
    }
    let run = "\u{1b}[38;5;15m\u{1b}[48;5;7m\u{2593}\u{2593}";
    let expected = format!(
        "\u{1b}[1;1H{DEFAULT}{run}{DEFAULT}\r\n\u{1b}[2;1H{DEFAULT}{run}{DEFAULT}\r{DEFAULT}"
    );
    assert_eq!(ctx.display(), expected);
}

#[test]
fn overlays_follow_the_grid() {
    let mut ctx = AsciiContext::new((4, 1));
    ctx.add_text_entry(&text(1, 0, "Hi", TextColorPalette::Menu));
    assert_eq!(
        ctx.display(),
        "\u{1b}[1;1H\u{1b}[48;5;0m\u{1b}[38;5;7m    \r\u{1b}[1;2H\u{1b}[48;5;4m\u{1b}[38;5;14mHi\u{1b}[48;5;0m\u{1b}[38;5;7m"
    );
}

#[test]
fn overlays_are_written_in_order_and_skipped_outside_the_grid() {
    let mut ctx = AsciiContext::new((3, 2));
    ctx.add_text_entry(&text(0, 0, "a", TextColorPalette::Text));
    ctx.add_text_entry(&text(2, 1, "bc", TextColorPalette::Warning));
    ctx.add_text_entry(&text(3, 0, "no", TextColorPalette::Menu));
    ctx.add_text_entry(&text(0, 2, "no", TextColorPalette::Menu));
    ctx.add_text_entry(&text(u16::MAX, u16::MAX, "no", TextColorPalette::Menu));
    assert_eq!(
        ctx.display(),
        "\u{1b}[1;1H\u{1b}[48;5;0m\u{1b}[38;5;7m   \r\n\u{1b}[2;1H\u{1b}[48;5;0m\u{1b}[38;5;7m   \r\u{1b}[1;1H\u{1b}[48;5;0m\u{1b}[38;5;7ma\u{1b}[2;3H\u{1b}[48;5;9m\u{1b}[38;5;0mbc\u{1b}[48;5;0m\u{1b}[38;5;7m"
    );
}

#[test]
fn rows_and_columns_are_written_in_decimal() {
    let mut ctx = AsciiContext::new((1, 12));
    ctx.add_text_entry(&text(0, 11, "z", TextColorPalette::Menu));
    let shown = ctx.display();
    assert!(shown.contains("\r\n\u{1b}[9;1H"));
    assert!(shown.contains("\r\n\u{1b}[10;1H"));
    assert!(shown.contains("\r\n\u{1b}[12;1H"));
    assert!(shown.ends_with("\r\u{1b}[12;1H\u{1b}[48;5;4m\u{1b}[38;5;14mz\u{1b}[48;5;0m\u{1b}[38;5;7m"));

    let mut wide = AsciiContext::new((1205, 1));
    wide.add_text_entry(&text(1204, 0, "e", TextColorPalette::Text));
    wide.add_text_entry(&text(99, 0, "c", TextColorPalette::Text));
    let shown = wide.display();
    assert!(shown.contains("\u{1b}[1;1205H\u{1b}[48;5;0m\u{1b}[38;5;7me"));
    assert!(shown.contains("\u{1b}[1;100H\u{1b}[48;5;0m\u{1b}[38;5;7mc"));
}

#[test]
fn display_ends_the_frame() {
    let cam = camera(40, 63, 256);
    let mut ctx = AsciiContext::new((40, 63));
    ctx.add_triangle(&triangle((0, 0), (1205, 0), (0, 2560), 256, ColorPalette::Red));
    ctx.add_point(&point((-256, -256), 256, ColorPalette::Blue));
    ctx.add_text_entry(&text(3, 3, "score", TextColorPalette::Text));
    ctx.draw_triangles(&cam);
    ctx.draw_points(&cam);
    let first = ctx.display();
    assert!(first.contains("score"));
    // the grid is left as it was shown
    assert_eq!(filled(&ctx), 56);
    let second = ctx.display();
    assert!(!second.contains("score"));
    assert_eq!(second.matches('\u{2593}').count(), first.matches('\u{2593}').count());
    // nothing is left to draw
    ctx.clear();
    ctx.draw_triangles(&cam);
    ctx.draw_points(&cam);
    assert_eq!(filled(&ctx), 0);
}

#[test]
fn flushing_text_leaves_the_grid() {
    let mut ctx = AsciiContext::new((3, 1));
    ctx.set((0, 0), 128);
    ctx.add_text_entry(&text(0, 0, "gone", TextColorPalette::Warning));
    ctx.flush_text_entries();
    let shown = ctx.display();
    assert!(!shown.contains("gone"));
    assert!(shown.contains('\u{25cf}'));
}

#[test]
fn a_submitted_overlay_is_a_copy() {
    let mut ctx = AsciiContext::new((9, 1));
    let mut entry = text(0, 0, "first", TextColorPalette::Text);
    ctx.add_text_entry(&entry);
    entry.string.push_str(" changed");
    entry.position = (4, 0);
    let copy = entry.clone();
    assert_eq!(copy.string, "first changed");
    assert_eq!(copy.position, (4, 0));
    assert_eq!(copy.color_palette, TextColorPalette::Text);
    let shown = ctx.display();
    assert!(shown.contains("\u{1b}[1;1H\u{1b}[48;5;0m\u{1b}[38;5;7mfirst\u{1b}"));
    assert!(!shown.contains("changed"));
}
