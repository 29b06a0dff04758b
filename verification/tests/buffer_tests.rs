use alectro::bound::Bound;
use alectro::buffer::Buffer;
use alectro::style::{Color, Modifier, Style};

fn plain() -> Style {
    Style { fg: Color::Reset, bg: Color::Reset, modifier: Modifier::Reset }
}

#[test]
fn empty_buffer_is_all_default_cells() {
    let b = Bound::new(1, 2, 3, 4);
    let buffer = Buffer::empty(b);
    assert_eq!(*buffer.bound(), b);
    assert_eq!(buffer.width(), 3);
    assert_eq!(buffer.height(), 4);
    assert_eq!(buffer.inner().len(), 12);
    for cell in buffer.inner() {
        assert_eq!(cell.grapheme, " ");
        assert_eq!(cell.style, plain());
    }
}

#[test]
fn reset_restores_default_cells_and_keeps_bound() {
    let b = Bound::new(0, 0, 3, 2);
    let mut buffer = Buffer::empty(b);
    buffer.set(0, 0, "x");
    buffer.set(2, 1, "y");
    buffer.set_fg(1, 0, Color::Red);
    buffer.reset();
    assert_eq!(*buffer.bound(), b);
    for cell in buffer.inner() {
        assert_eq!(cell.grapheme, " ");
        assert_eq!(cell.style, plain());
    }
}

#[test]
fn set_then_get_returns_the_grapheme() {
    let mut buffer = Buffer::empty(Bound::new(2, 5, 4, 3));
    for x in 2..6 {
        for y in 5..8 {
            buffer.set(x, y, "g");
            assert_eq!(buffer.get(x, y), "g");
        }
    }
}

#[test]
fn pos_of_and_index_of_are_inverses() {
    let buffer = Buffer::empty(Bound::new(3, 7, 5, 4));
    for x in 3..8 {
        for y in 7..11 {
            let i = buffer.index_of(x, y);
            assert_eq!(buffer.pos_of(i), (x, y));
        }
    }
    for i in 0..20 {
        let (x, y) = buffer.pos_of(i);
        assert_eq!(buffer.index_of(x, y), i);
    }
}

#[test]
fn style_setters_change_only_their_attribute() {
    let mut buffer = Buffer::empty(Bound::new(0, 0, 2, 2));
    buffer.set(1, 1, "s");
    buffer.set_fg(1, 1, Color::Green);
    buffer.set_bg(1, 1, Color::Blue);
    buffer.set_modifier(1, 1, Modifier::Bold);
    let idx = buffer.index_of(1, 1);
    let cell = &buffer.inner()[idx];
    assert_eq!(cell.grapheme, "s");
    assert_eq!(cell.style, Style { fg: Color::Green, bg: Color::Blue, modifier: Modifier::Bold });
    let mut other = Buffer::empty(Bound::new(0, 0, 2, 2));
    other.set_style(0, 1, Style { fg: Color::Cyan, bg: Color::Black, modifier: Modifier::Invert });
    let idx = other.index_of(0, 1);
    assert_eq!(other.inner()[idx].grapheme, " ");
    assert_eq!(
        other.inner()[idx].style,
        Style { fg: Color::Cyan, bg: Color::Black, modifier: Modifier::Invert }
    );
}

#[test]
fn drop_top_line_shifts_rows_up() {
    let b = Bound::new(0, 0, 3, 3);
    let mut buffer = Buffer::empty(b);
    let rows = [["a", "b", "c"], ["d", "e", "f"], ["g", "h", "i"]];
    for (y, row) in rows.iter().enumerate() {
        for (x, g) in row.iter().enumerate() {
            buffer.set(x as u16, y as u16, g);
        }
    }
    buffer.drop_top_line();
    assert_eq!(*buffer.bound(), b);
    for (y, row) in rows.iter().enumerate().skip(1) {
        for (x, g) in row.iter().enumerate() {
            assert_eq!(buffer.get(x as u16, (y - 1) as u16), *g);
        }
    }
    for x in 0..3 {
        assert_eq!(buffer.get(x, 2), " ");
    }
}

#[test]
fn merge_contained_buffer_wins_inside_and_leaves_the_rest() {
    let ba = Bound::new(0, 0, 4, 4);
    let bb = Bound::new(1, 1, 2, 2);
    let mut a = Buffer::empty(ba);
    for y in 0..4 {
        for x in 0..4 {
            a.set(x, y, "a");
        }
    }
    let mut b = Buffer::empty(bb);
    for y in 1..3 {
        for x in 1..3 {
            b.set(x, y, "b");
        }
    }
    a.merge(&b);
    assert_eq!(*a.bound(), ba);
    for y in 0..4 {
        for x in 0..4 {
            let inside = (1..3).contains(&x) && (1..3).contains(&y);
            assert_eq!(a.get(x, y), if inside { "b" } else { "a" });
        }
    }
}

#[test]
fn merge_grows_to_the_union_bound() {
    let mut a = Buffer::empty(Bound::new(0, 0, 2, 2));
    a.set(0, 0, "p");
    a.set(1, 0, "q");
    a.set(0, 1, "r");
    a.set(1, 1, "s");
    let mut b = Buffer::empty(Bound::new(1, 1, 2, 2));
    for y in 1..3 {
        for x in 1..3 {
            b.set(x, y, "m");
        }
    }
    a.merge(&b);
    assert_eq!(*a.bound(), Bound::new(0, 0, 3, 3));
    // The incoming cells stand at their absolute positions.
    for y in 1..3 {
        for x in 1..3 {
            assert_eq!(a.get(x, y), "m");
        }
    }
    // The pre-existing cells keep their raw index: under the wider stride
    // they are not remapped, as documented on merge.
    assert_eq!(a.get(0, 0), "p");
    assert_eq!(a.get(1, 0), "q");
    assert_eq!(a.get(2, 0), "r");
    assert_eq!(a.get(0, 1), "s");
    // Every slot past the old raw length and outside the incoming bound is
    // a default cell.
    assert_eq!(a.get(0, 2), " ");
}

#[test]
fn resize_to_larger_bound_keeps_prefix_and_pads_with_defaults() {
    let mut buffer = Buffer::empty(Bound::new(0, 0, 2, 2));
    buffer.set(0, 0, "a");
    buffer.set(1, 0, "b");
    buffer.set(0, 1, "c");
    buffer.set(1, 1, "d");
    buffer.resize(Bound::new(0, 0, 3, 3));
    assert_eq!(*buffer.bound(), Bound::new(0, 0, 3, 3));
    assert_eq!(buffer.inner().len(), 9);
    let expect = ["a", "b", "c", "d", " ", " ", " ", " ", " "];
    for (i, g) in expect.iter().enumerate() {
        assert_eq!(buffer.inner()[i].grapheme, *g);
    }
}

#[test]
fn resize_to_smaller_bound_truncates() {
    let mut buffer = Buffer::empty(Bound::new(0, 0, 3, 3));
    buffer.set(2, 2, "z");
    buffer.set(1, 0, "y");
    buffer.resize(Bound::new(0, 0, 2, 2));
    assert_eq!(buffer.inner().len(), 4);
    assert_eq!(buffer.get(1, 0), "y");
}

#[test]
fn move_x_and_move_y_shift_only_the_origin() {
    let mut buffer = Buffer::empty(Bound::new(0, 0, 2, 2));
    buffer.set(1, 1, "k");
    buffer.move_x(10);
    buffer.move_y(20);
    assert_eq!(*buffer.bound(), Bound::new(10, 20, 2, 2));
    assert_eq!(buffer.get(11, 21), "k");
}
