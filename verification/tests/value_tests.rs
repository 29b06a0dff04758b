use alectro::bound::Bound;
use alectro::cell::Cell;
use alectro::style::{Color, Modifier, Style};

fn plain() -> Style {
    Style { fg: Color::Reset, bg: Color::Reset, modifier: Modifier::Reset }
}

#[test]
fn bound_area_is_width_times_height() {
    assert_eq!(Bound::new(5, 6, 7, 8).area(), 56);
    assert_eq!(Bound::new(0, 0, 0, 9).area(), 0);
    assert_eq!(Bound::new(0, 0, 65535, 65535).area(), 65535u32 * 65535u32);
}

#[test]
fn bound_borders() {
    let b = Bound::new(2, 3, 10, 20);
    assert_eq!(b.left_border(), 2);
    assert_eq!(b.right_border(), 12);
    assert_eq!(b.top_border(), 3);
    assert_eq!(b.bottom_border(), 23);
}

#[test]
fn bound_union_covers_both_rectangles() {
    let a = Bound::new(2, 2, 4, 4);
    let b = Bound::new(4, 1, 5, 3);
    let u = a.union(&b);
    assert_eq!(u, Bound::new(2, 1, 7, 5));
    let contained = Bound::new(3, 3, 1, 1);
    assert_eq!(a.union(&contained), a);
}

#[test]
fn default_cell_is_a_space_with_default_style() {
    let cell = Cell::default();
    assert_eq!(cell.grapheme, " ");
    assert_eq!(cell.style, plain());
}

#[test]
fn cell_mutators_apply_in_place() {
    let mut cell = Cell::new("w");
    assert_eq!(cell.grapheme, "w");
    assert_eq!(cell.style, plain());
    cell.fg(Color::Magenta);
    cell.bg(Color::White);
    cell.modifier(Modifier::Bold);
    assert_eq!(cell.style, Style { fg: Color::Magenta, bg: Color::White, modifier: Modifier::Bold });
    cell.styled(plain());
    assert_eq!(cell.style, plain());
    assert_eq!(cell.grapheme, "w");
}

#[test]
fn cell_reset_restores_the_default_state() {
    let mut cell = Cell::new("q");
    cell.fg(Color::Red);
    cell.reset();
    assert_eq!(cell.grapheme, " ");
    assert_eq!(cell.style, plain());
}

#[test]
fn style_reset_restores_defaults() {
    let mut style = Style { fg: Color::Green, bg: Color::Black, modifier: Modifier::Invert };
    style.reset();
    assert_eq!(style, plain());
    assert_eq!(Style::default(), plain());
}
