use terminal_editor_rust::cursor::Position;
use terminal_editor_rust::viewport::Viewport;

#[test]
fn scrolls_only_when_the_cursor_leaves_the_view() {
    let mut viewport = Viewport::new(5, 3);

    viewport.ensure_visible(Position::new(3, 5));
    assert_eq!((viewport.offset_x, viewport.offset_y), (1, 1));

    viewport.ensure_visible(Position::new(1, 1));
    assert_eq!((viewport.offset_x, viewport.offset_y), (1, 1));

    viewport.ensure_visible(Position::new(0, 0));
    assert_eq!((viewport.offset_x, viewport.offset_y), (0, 0));
}

#[test]
fn wheel_scrolling_stays_inside_the_document() {
    let mut viewport = Viewport::new(20, 5);

    viewport.scroll_vertical(3, 20);
    assert_eq!(viewport.offset_y, 3);

    viewport.scroll_vertical(100, 20);
    assert_eq!(viewport.offset_y, 15);

    viewport.scroll_vertical(-100, 20);
    assert_eq!(viewport.offset_y, 0);
}

#[test]
fn an_empty_viewport_never_scrolls_forward_and_extreme_scrolls_saturate() {
    let mut viewport = Viewport::new(0, 0);
    viewport.ensure_visible(Position::new(7, 7));
    assert_eq!((viewport.offset_x, viewport.offset_y), (0, 0));
    viewport.scroll_vertical(isize::MAX, 3);
    assert_eq!(viewport.offset_y, 2);
    viewport.scroll_vertical(isize::MIN, 3);
    assert_eq!(viewport.offset_y, 0);
    let mut far = Viewport::new(4, 4);
    far.set_size(2, 9);
    assert_eq!((far.width, far.height), (2, 9));
}
