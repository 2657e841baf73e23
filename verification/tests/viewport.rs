use text_editor::editor::viewport::Viewport;

fn vp(scroll_top: usize, height: usize) -> Viewport {
    Viewport { scroll_top, height, width: 80 }
}

#[test]
fn ensure_visible_scrolls_up_to_a_line_above() {
    let mut v = vp(10, 5);
    v.ensure_visible(3);
    assert_eq!(v.scroll_top, 3);
}

#[test]
fn ensure_visible_scrolls_down_just_enough() {
    let mut v = vp(10, 5);
    v.ensure_visible(20);
    assert_eq!(v.scroll_top, 16);
    assert_eq!(v.height, 5);
    assert_eq!(v.width, 80);
}

#[test]
fn ensure_visible_leaves_an_on_screen_line() {
    let mut v = vp(10, 5);
    v.ensure_visible(14);
    assert_eq!(v.scroll_top, 10);
    v.ensure_visible(10);
    assert_eq!(v.scroll_top, 10);
}

#[test]
fn ensure_visible_twice_is_ensure_visible_once() {
    let mut v = vp(0, 4);
    v.ensure_visible(9);
    let once = v.scroll_top;
    v.ensure_visible(9);
    assert_eq!(v.scroll_top, once);
    assert_eq!(once, 6);
}

#[test]
fn zero_height_only_scrolls_up() {
    let mut v = vp(5, 0);
    v.ensure_visible(100);
    assert_eq!(v.scroll_top, 5);
    v.ensure_visible(2);
    assert_eq!(v.scroll_top, 2);
}

#[test]
fn scrolling_stops_at_the_ends() {
    let mut v = vp(3, 10);
    v.scroll_up(5);
    assert_eq!(v.scroll_top, 0);
    v.scroll_down(50, 20);
    assert_eq!(v.scroll_top, 19);
    v.scroll_down(1, 0);
    assert_eq!(v.scroll_top, 0);
}

#[test]
fn scroll_down_then_up_returns() {
    let mut v = vp(4, 10);
    v.scroll_down(3, 100);
    assert_eq!(v.scroll_top, 7);
    v.scroll_up(3);
    assert_eq!(v.scroll_top, 4);
}

#[test]
fn visible_range_covers_the_height() {
    let v = vp(7, 3);
    assert_eq!(v.visible_range(), 7..10);
    let d = Viewport::default();
    assert_eq!(d.visible_range(), 0..0);
}
