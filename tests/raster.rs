use ascii_cube::cube::FaceColor;
use ascii_cube::raster::{
    color_codes, face_color_to_ansi, shade_glyph, Cell, Fragment, Frame, Renderer, TermColor,
    Viewport,
};

fn frag(x: usize, y: usize, depth: u32, ch: char, color: FaceColor) -> Fragment {
    Fragment { x, y, depth, ch, color }
}

fn codes() -> Vec<String> {
    ["<W>", "<Y>", "<R>", "<O>", "<B>", "<G>"].iter().map(|s| s.to_string()).collect()
}

#[test]
fn zero_viewport_gives_empty_frame() {
    let mut renderer = Renderer::new();
    let frags = vec![frag(0, 0, 5, '#', FaceColor::Red)];
    for viewport in [Viewport { width: 0, height: 4 }, Viewport { width: 4, height: 0 }] {
        let frame = renderer.render(viewport, &frags);
        assert_eq!(frame.width(), 0);
        assert_eq!(frame.height(), 0);
        assert!(frame.cells().is_empty());
        assert_eq!(frame.as_ansi_string(), "\x1b[0m");
    }
    assert_eq!(Frame::empty().as_ansi_string(), "\x1b[0m");
}

#[test]
fn nearer_fragment_wins_in_either_order() {
    let near = frag(1, 1, 10, '@', FaceColor::Green);
    let far = frag(1, 1, 20, '.', FaceColor::Blue);
    let viewport = Viewport { width: 3, height: 2 };
    let mut renderer = Renderer::new();
    let a = renderer.render(viewport, &vec![near, far]);
    let b = renderer.render(viewport, &vec![far, near]);
    let expected = Cell { ch: '@', color: Some(FaceColor::Green) };
    assert_eq!(a.cells()[4], expected);
    assert_eq!(b.cells()[4], expected);
    assert_eq!(a.cells(), b.cells());
}

#[test]
fn equal_depth_keeps_first_fragment() {
    let first = frag(0, 0, 10, '#', FaceColor::Red);
    let second = frag(0, 0, 10, '+', FaceColor::White);
    let mut renderer = Renderer::new();
    let frame = renderer.render(Viewport { width: 1, height: 1 }, &vec![first, second]);
    assert_eq!(frame.cells()[0], Cell { ch: '#', color: Some(FaceColor::Red) });
}

#[test]
fn fragments_outside_grid_are_dropped() {
    let mut renderer = Renderer::new();
    let frame = renderer.render(
        Viewport { width: 2, height: 2 },
        &vec![frag(2, 0, 1, '#', FaceColor::Red), frag(0, 2, 1, '#', FaceColor::Red)],
    );
    assert_eq!(frame.width(), 2);
    assert_eq!(frame.height(), 2);
    assert!(frame.cells().iter().all(|c| *c == Cell::default()));
}

#[test]
fn canvas_is_cleared_between_frames() {
    let mut renderer = Renderer::new();
    let viewport = Viewport { width: 2, height: 1 };
    let _ = renderer.render(viewport, &vec![frag(0, 0, 1, '#', FaceColor::Red)]);
    let frame = renderer.render(viewport, &vec![]);
    assert!(frame.cells().iter().all(|c| *c == Cell::default()));
}

#[test]
fn ansi_text_elides_repeated_colors() {
    let mut renderer = Renderer::new();
    let frame = renderer.render(
        Viewport { width: 3, height: 2 },
        &vec![
            frag(0, 0, 1, '#', FaceColor::Red),
            frag(1, 0, 1, '#', FaceColor::Red),
            frag(0, 1, 1, '@', FaceColor::Green),
        ],
    );
    assert_eq!(frame.ansi_with_codes(&codes()), "<R>##\x1b[0m \r\n<G>@\x1b[0m  \x1b[0m");
}

fn one_cell_text(color: FaceColor) -> String {
    let mut renderer = Renderer::new();
    let frame = renderer.render(
        Viewport { width: 1, height: 1 },
        &vec![frag(0, 0, 1, '#', color)],
    );
    frame.as_ansi_string()
}

#[test]
fn ansi_text_uses_terminal_color_sequences() {
    let red = one_cell_text(FaceColor::Red);
    assert!(red == "\x1b[38;5;9m#\x1b[0m" || red == "\x1b[m#\x1b[0m");
    let orange = one_cell_text(FaceColor::Orange);
    assert!(orange == "\x1b[38;2;255;140;0m#\x1b[0m" || orange == "\x1b[m#\x1b[0m");
    let white = one_cell_text(FaceColor::White);
    assert!(white == "\x1b[38;5;15m#\x1b[0m" || white == "\x1b[m#\x1b[0m");
}

#[test]
fn color_codes_follow_slot_order() {
    let codes = color_codes();
    assert_eq!(codes.len(), 6);
    let expected = ["\x1b[38;5;15m", "\x1b[38;5;11m", "\x1b[38;5;9m", "\x1b[38;2;255;140;0m", "\x1b[38;5;12m", "\x1b[38;5;10m"];
    for (code, want) in codes.iter().zip(expected) {
        assert!(code == want || code == "\x1b[m");
    }
}

#[test]
fn face_colors_map_to_terminal_colors() {
    assert_eq!(face_color_to_ansi(FaceColor::White), TermColor::White);
    assert_eq!(face_color_to_ansi(FaceColor::Green), TermColor::Green);
    assert_eq!(face_color_to_ansi(FaceColor::Orange), TermColor::Rgb { r: 255, g: 140, b: 0 });
}

#[test]
fn zero_viewport_keeps_canvas_for_next_frame() {
    let mut renderer = Renderer::new();
    let viewport = Viewport { width: 2, height: 1 };
    let a = renderer.render(viewport, &vec![frag(1, 0, 3, '#', FaceColor::Blue)]);
    let empty = renderer.render(Viewport { width: 0, height: 0 }, &vec![]);
    assert_eq!(empty.cells().len(), 0);
    let b = renderer.render(viewport, &vec![frag(1, 0, 3, '#', FaceColor::Blue)]);
    assert_eq!(a.cells(), b.cells());
}

#[test]
fn shade_ramp_ends() {
    assert_eq!(shade_glyph(0), ' ');
    assert_eq!(shade_glyph(4), '=');
    assert_eq!(shade_glyph(9), '@');
}
