use vstd::prelude::*;
use vstd::pervasive::VecAdditionalExecFns;

use crate::bound::Bound;
use crate::cell::{Cell, CellView};
use crate::style::{Color, Modifier, Style};
use crate::unicode::{display_width, grapheme_clusters, split_graphemes, str_width};

verus! {

/// The displayed width of each cluster of a split string.
pub open spec fn cluster_widths(parts: Seq<Seq<char>>) -> Seq<usize> {
    parts.map(|i: int, g: Seq<char>| display_width(g))
}

/// The column reached after writing the first `k` parts of a run that
/// starts at column `x`: each part advances the write cursor by its width.
pub open spec fn advance_col(x: int, widths: Seq<usize>, k: int) -> int
    decreases k,
{
    if k <= 0 {
        x
    } else {
        advance_col(x, widths, k - 1) + widths[k - 1]
    }
}

/// Whether a run of parts with the given widths, written on row `y`
/// starting at column `x`, stays inside bound `b`: the row is in bound and
/// so is the starting column of every part.
pub open spec fn run_fits(b: Bound, x: int, y: int, widths: Seq<usize>) -> bool {
    &&& b.y <= y < b.y + b.height
    &&& forall|k: int|
        0 <= k < widths.len() ==> b.x <= #[trigger] advance_col(x, widths, k) < b.x + b.width
}

/// The cell grid after writing the parts of a run in order on row `y`: the
/// first part is stored at column `x` with the given style, and the rest
/// of the run follows with the cursor advanced by the first part's width.
/// A later write wins where two parts land on the same column.
pub open spec fn write_run(
    cells: Seq<CellView>,
    b: Bound,
    x: int,
    y: int,
    parts: Seq<Seq<char>>,
    widths: Seq<usize>,
    style: Style,
) -> Seq<CellView>
    decreases parts.len(),
{
    if parts.len() == 0 || widths.len() != parts.len() {
        cells
    } else {
        write_run(
            cells.update(index_in(b, x, y), CellView { grapheme: parts[0], style }),
            b,
            x + widths[0],
            y,
            parts.drop_first(),
            widths.drop_first(),
            style,
        )
    }
}

/// The linear offset of the in-bound point (x, y), row-major with stride
/// `b.width`, relative to the bound's origin.
pub open spec fn index_in(b: Bound, x: int, y: int) -> int {
    (y - b.y) * b.width + (x - b.x)
}

/// The x coordinate of the cell at linear offset `i`.
pub open spec fn pos_x_in(b: Bound, i: int) -> int {
    b.x + i % (b.width as int)
}

/// The y coordinate of the cell at linear offset `i`.
pub open spec fn pos_y_in(b: Bound, i: int) -> int {
    b.y + i / (b.width as int)
}

/// The linear offset and the (x, y) position are total inverses over the
/// valid domain: mapping an in-bound point to its offset and back yields
/// the same point, and the offset lies inside the grid.
pub proof fn lemma_pos_of_index_of(b: Bound, x: int, y: int)
    requires
        b.wf(),
        b.contains(x, y),
    ensures
        0 <= index_in(b, x, y) < b.area_spec(),
        pos_x_in(b, index_in(b, x, y)) == x,
        pos_y_in(b, index_in(b, x, y)) == y,
{
    let w = b.width as int;
    let q = y - b.y;
    let r = x - b.x;
    assert(0 <= q * w + r && q * w + r < b.width * b.height) by (nonlinear_arith)
        requires
            0 <= q,
            q < b.height,
            0 <= r,
            r < w,
            w == b.width,
    ;
    vstd::arithmetic::div_mod::lemma_fundamental_div_mod_converse(q * w + r, w, q, r);
}

/// The other direction of the inverse pair: mapping a valid offset to its
/// (x, y) position and back yields the same offset, and the position is
/// in bound.
pub proof fn lemma_index_of_pos_of(b: Bound, i: int)
    requires
        b.wf(),
        0 <= i < b.area_spec(),
    ensures
        b.contains(pos_x_in(b, i), pos_y_in(b, i)),
        index_in(b, pos_x_in(b, i), pos_y_in(b, i)) == i,
{
    let w = b.width as int;
    assert(w > 0) by (nonlinear_arith)
        requires
            0 <= i,
            i < b.width * b.height,
            w == b.width,
    ;
    vstd::arithmetic::div_mod::lemma_fundamental_div_mod(i, w);
    vstd::arithmetic::div_mod::lemma_mod_bound(i, w);
    vstd::arithmetic::div_mod::lemma_multiply_divide_lt(i, w, b.height as int);
    assert((i / w) * w == w * (i / w)) by (nonlinear_arith);
    assert(index_in(b, pos_x_in(b, i), pos_y_in(b, i)) == (i / w) * w + i % w);
}

/// Writing a grapheme and reading the same in-bound point gives the
/// grapheme back: the cell stored by `set` at (x, y) is exactly the cell
/// that `get` reads there.
pub proof fn lemma_set_then_get(pre: Seq<CellView>, b: Bound, x: int, y: int, g: Seq<char>)
    requires
        b.wf(),
        b.contains(x, y),
        pre.len() == b.area_spec(),
    ensures
        pre.update(index_in(b, x, y), CellView { grapheme: g, style: Style::plain() })[index_in(
            b,
            x,
            y,
        )].grapheme == g,
{
    lemma_pos_of_index_of(b, x, y);
}

/// After dropping the top line of a grid of height at least one, each
/// remaining row holds what the row below it held before, the final row is
/// all default cells, and the bound is untouched (`drop_top_line` already
/// keeps it).
pub proof fn lemma_drop_top_line_rows(pre: Seq<CellView>, post: Seq<CellView>, b: Bound)
    requires
        b.wf(),
        b.height >= 1,
        pre.len() == b.area_spec(),
        post == pre.subrange(b.width as int, pre.len() as int) + Seq::new(
            b.width as nat,
            |i: int| CellView::default_cell(),
        ),
    ensures
        forall|r: int, c: int|
            0 <= r < b.height - 1 && 0 <= c < b.width ==> #[trigger] post[r * b.width + c]
                == pre[(r + 1) * b.width + c],
        forall|c: int|
            0 <= c < b.width ==> #[trigger] post[(b.height - 1) * b.width + c]
                == CellView::default_cell(),
{
    let w = b.width as int;
    let h = b.height as int;
    assert forall|r: int, c: int| 0 <= r < h - 1 && 0 <= c < w implies #[trigger] post[r * w + c]
        == pre[(r + 1) * w + c] by {
        assert(0 <= r * w + c && r * w + c + w < w * h && (r + 1) * w + c == r * w + c + w)
            by (nonlinear_arith)
            requires
                0 <= r,
                r < h - 1,
                0 <= c,
                c < w,
        ;
    }
    assert forall|c: int| 0 <= c < w implies #[trigger] post[(h - 1) * w + c]
        == CellView::default_cell() by {
        assert((h - 1) * w + c == w * h - w + c && w * h - w + c < w * h) by (nonlinear_arith)
            requires
                h >= 1,
                0 <= c,
                c < w,
        ;
    }
}

/// The value of the cell at linear offset `i` after compositing a buffer
/// with cells `oc` and bound `ob` onto a buffer whose cells were `pre` and
/// whose bound has grown to the union `ub`: wherever the union position
/// falls inside `ob` the incoming cell wins, every other position keeps its
/// previous cell, and positions past the previous length are default cells.
pub open spec fn merged_cell(
    ub: Bound,
    pre: Seq<CellView>,
    ob: Bound,
    oc: Seq<CellView>,
    i: int,
) -> CellView {
    let px = pos_x_in(ub, i);
    let py = pos_y_in(ub, i);
    if ob.contains(px, py) {
        oc[index_in(ob, px, py)]
    } else if i < pre.len() {
        pre[i]
    } else {
        CellView::default_cell()
    }
}

/// When a buffer whose bound fully contains the incoming buffer's bound is
/// merged with it, the union is the containing bound itself, every cell
/// inside the incoming bound ends up equal to the incoming buffer's
/// corresponding cell, and every cell of the containing bound outside the
/// incoming bound is unchanged.
pub proof fn lemma_merge_contained(
    a: Bound,
    ob: Bound,
    pre: Seq<CellView>,
    oc: Seq<CellView>,
    post: Seq<CellView>,
)
    requires
        a.wf(),
        ob.wf(),
        a.contains_bound(ob),
        pre.len() == a.area_spec(),
        oc.len() == ob.area_spec(),
        post.len() == a.union_spec(ob).area_spec(),
        forall|i: int|
            0 <= i < post.len() ==> post[i] == merged_cell(a.union_spec(ob), pre, ob, oc, i),
    ensures
        a.union_spec(ob) == a,
        forall|x: int, y: int|
            #[trigger] ob.contains(x, y) ==> post[index_in(a, x, y)] == oc[index_in(ob, x, y)],
        forall|x: int, y: int|
            a.contains(x, y) && !ob.contains(x, y) ==> post[index_in(a, x, y)] == pre[index_in(
                a,
                x,
                y,
            )],
{
    assert(a.union_spec(ob) == a);
    assert forall|x: int, y: int| #[trigger] ob.contains(x, y) implies post[index_in(a, x, y)]
        == oc[index_in(ob, x, y)] by {
        lemma_pos_of_index_of(a, x, y);
    }
    assert forall|x: int, y: int| a.contains(x, y) && !ob.contains(x, y) implies post[index_in(
        a,
        x,
        y,
    )] == pre[index_in(a, x, y)] by {
        lemma_pos_of_index_of(a, x, y);
    }
}

/// A complete terminal buffer used in rendering: a row-major grid of cells
/// scoped to a bound.
pub struct Buffer {
    bound: Bound,
    buf: Vec<Cell>,
}

impl Buffer {
    /// The rectangle this buffer covers.
    pub closed spec fn bound_spec(self) -> Bound {
        self.bound
    }

    /// The cell grid as a sequence of cell values, row-major.
    pub closed spec fn cells(self) -> Seq<CellView> {
        self.buf@.map(|i: int, c: Cell| c@)
    }

    /// A buffer is well formed when its bound is and the grid holds exactly
    /// one cell per covered point.
    pub open spec fn wf(self) -> bool {
        &&& self.bound_spec().wf()
        &&& self.cells().len() == self.bound_spec().area_spec()
    }

    /// A buffer of default cells covering `bound`.
    pub fn empty(bound: Bound) -> (buffer: Buffer)
        requires
            bound.wf(),
        ensures
            buffer.wf(),
            buffer.bound_spec() == bound,
            buffer.cells().len() == bound.area_spec(),
            forall|i: int|
                0 <= i < buffer.cells().len() ==> buffer.cells()[i] == CellView::default_cell(),
    {
        let size = bound.area() as usize;
        let mut buf: Vec<Cell> = Vec::new();
        while buf.len() < size
            invariant
                buf.len() <= size,
                forall|i: int| 0 <= i < buf.len() ==> #[trigger] buf@[i]@ == CellView::default_cell(),
            decreases size - buf.len(),
        {
            buf.push(Cell::space());
        }
        Buffer { bound, buf }
    }

    pub fn bound(&self) -> (b: &Bound)
        ensures
            *b == self.bound_spec(),
    {
        &self.bound
    }

    pub fn height(&self) -> (h: u16)
        ensures
            h == self.bound_spec().height,
    {
        self.bound.height
    }

    pub fn width(&self) -> (w: u16)
        ensures
            w == self.bound_spec().width,
    {
        self.bound.width
    }

    /// The linear offset of the in-bound point (x, y). Out-of-bound access
    /// is a caller bug: callers must clip coordinates themselves.
    pub fn index_of(&self, x: u16, y: u16) -> (i: usize)
        requires
            self.wf(),
            self.bound_spec().contains(x as int, y as int),
        ensures
            i == index_in(self.bound_spec(), x as int, y as int),
            i < self.cells().len(),
    {
        proof {
            lemma_pos_of_index_of(self.bound, x as int, y as int);
            assert((y - self.bound.y) * self.bound.width + (x - self.bound.x) < 0x1_0000_0000)
                by (nonlinear_arith)
                requires
                    0 <= y - self.bound.y <= 0xFFFF,
                    0 <= self.bound.width <= 0xFFFF,
                    0 <= x - self.bound.x <= 0xFFFF,
            ;
        }
        ((y - self.bound.y) as usize) * (self.bound.width as usize) + ((x - self.bound.x) as usize)
    }

    /// The (x, y) position of the cell at linear offset `i`.
    pub fn pos_of(&self, i: usize) -> (pos: (u16, u16))
        requires
            self.wf(),
            i < self.cells().len(),
        ensures
            pos.0 == pos_x_in(self.bound_spec(), i as int),
            pos.1 == pos_y_in(self.bound_spec(), i as int),
            self.bound_spec().contains(pos.0 as int, pos.1 as int),
    {
        proof {
            lemma_index_of_pos_of(self.bound, i as int);
        }
        let w = self.bound.width as usize;
        (self.bound.x + (i % w) as u16, self.bound.y + (i / w) as u16)
    }

    /// The grapheme stored at the in-bound point (x, y).
    pub fn get(&self, x: u16, y: u16) -> (g: &str)
        requires
            self.wf(),
            self.bound_spec().contains(x as int, y as int),
        ensures
            g@ == self.cells()[index_in(self.bound_spec(), x as int, y as int)].grapheme,
    {
        let idx = self.index_of(x, y);
        self.buf[idx].grapheme.as_str()
    }

    /// Stores grapheme `c` with the default style at the in-bound point
    /// (x, y).
    pub fn set(&mut self, x: u16, y: u16, c: &str)
        requires
            old(self).wf(),
            old(self).bound_spec().contains(x as int, y as int),
        ensures
            final(self).wf(),
            final(self).bound_spec() == old(self).bound_spec(),
            final(self).cells() == old(self).cells().update(
                index_in(old(self).bound_spec(), x as int, y as int),
                CellView { grapheme: c@, style: Style::plain() },
            ),
    {
        let idx = self.index_of(x, y);
        self.buf.set(idx, Cell::new(c));
        proof {
            assert(self.cells() =~= old(self).cells().update(
                idx as int,
                CellView { grapheme: c@, style: Style::plain() },
            ));
        }
    }

    /// Replaces the foreground color of the cell at the in-bound point
    /// (x, y), keeping its grapheme and its other attributes.
    pub fn set_fg(&mut self, x: u16, y: u16, color: Color)
        requires
            old(self).wf(),
            old(self).bound_spec().contains(x as int, y as int),
        ensures
            final(self).wf(),
            final(self).bound_spec() == old(self).bound_spec(),
            final(self).cells() == old(self).cells().update(
                index_in(old(self).bound_spec(), x as int, y as int),
                (CellView {
                    style: Style {
                        fg: color,
                        ..old(self).cells()[index_in(
                            old(self).bound_spec(),
                            x as int,
                            y as int,
                        )].style
                    },
                    ..old(self).cells()[index_in(old(self).bound_spec(), x as int, y as int)]
                }),
            ),
    {
        let idx = self.index_of(x, y);
        let mut cell = self.buf[idx].duplicate();
        cell.fg(color);
        self.buf.set(idx, cell);
        proof {
            assert(self.cells() =~= old(self).cells().update(idx as int, cell@));
            assert(self.cells() =~= old(self).cells().update(
                idx as int,
                (CellView {
                    style: Style { fg: color, ..old(self).cells()[idx as int].style },
                    ..old(self).cells()[idx as int]
                }),
            ));
        }
    }

    /// Replaces the background color of the cell at the in-bound point
    /// (x, y), keeping its grapheme and its other attributes.
    pub fn set_bg(&mut self, x: u16, y: u16, color: Color)
        requires
            old(self).wf(),
            old(self).bound_spec().contains(x as int, y as int),
        ensures
            final(self).wf(),
            final(self).bound_spec() == old(self).bound_spec(),
            final(self).cells() == old(self).cells().update(
                index_in(old(self).bound_spec(), x as int, y as int),
                (CellView {
                    style: Style {
                        bg: color,
                        ..old(self).cells()[index_in(
                            old(self).bound_spec(),
                            x as int,
                            y as int,
                        )].style
                    },
                    ..old(self).cells()[index_in(old(self).bound_spec(), x as int, y as int)]
                }),
            ),
    {
        let idx = self.index_of(x, y);
        let mut cell = self.buf[idx].duplicate();
        cell.bg(color);
        self.buf.set(idx, cell);
        proof {
            assert(self.cells() =~= old(self).cells().update(idx as int, cell@));
            assert(self.cells() =~= old(self).cells().update(
                idx as int,
                (CellView {
                    style: Style { bg: color, ..old(self).cells()[idx as int].style },
                    ..old(self).cells()[idx as int]
                }),
            ));
        }
    }

    /// Replaces the text decoration of the cell at the in-bound point
    /// (x, y), keeping its grapheme and its colors.
    pub fn set_modifier(&mut self, x: u16, y: u16, modifier: Modifier)
        requires
            old(self).wf(),
            old(self).bound_spec().contains(x as int, y as int),
        ensures
            final(self).wf(),
            final(self).bound_spec() == old(self).bound_spec(),
            final(self).cells() == old(self).cells().update(
                index_in(old(self).bound_spec(), x as int, y as int),
                (CellView {
                    style: Style {
                        modifier,
                        ..old(self).cells()[index_in(
                            old(self).bound_spec(),
                            x as int,
                            y as int,
                        )].style
                    },
                    ..old(self).cells()[index_in(old(self).bound_spec(), x as int, y as int)]
                }),
            ),
    {
        let idx = self.index_of(x, y);
        let mut cell = self.buf[idx].duplicate();
        cell.modifier(modifier);
        self.buf.set(idx, cell);
        proof {
            assert(self.cells() =~= old(self).cells().update(idx as int, cell@));
            assert(self.cells() =~= old(self).cells().update(
                idx as int,
                (CellView {
                    style: Style { modifier, ..old(self).cells()[idx as int].style },
                    ..old(self).cells()[idx as int]
                }),
            ));
        }
    }

    /// Replaces the whole style of the cell at the in-bound point (x, y),
    /// keeping its grapheme.
    pub fn set_style(&mut self, x: u16, y: u16, style: Style)
        requires
            old(self).wf(),
            old(self).bound_spec().contains(x as int, y as int),
        ensures
            final(self).wf(),
            final(self).bound_spec() == old(self).bound_spec(),
            final(self).cells() == old(self).cells().update(
                index_in(old(self).bound_spec(), x as int, y as int),
                (CellView {
                    style,
                    ..old(self).cells()[index_in(old(self).bound_spec(), x as int, y as int)]
                }),
            ),
    {
        let idx = self.index_of(x, y);
        let mut cell = self.buf[idx].duplicate();
        cell.styled(style);
        self.buf.set(idx, cell);
        proof {
            assert(self.cells() =~= old(self).cells().update(idx as int, cell@));
            assert(self.cells() =~= old(self).cells().update(
                idx as int,
                (CellView { style, ..old(self).cells()[idx as int] }),
            ));
        }
    }

    /// Writes a run of grapheme clusters with the given displayed widths on
    /// row `y`, the first at column `x` and each later one at the previous
    /// column advanced by the previous width, storing `style` in every
    /// written cell. Every written column must be in bound: callers clip
    /// their text themselves.
    pub fn set_str_parts(
        &mut self,
        x: u16,
        y: u16,
        parts: &Vec<String>,
        widths: &Vec<usize>,
        style: Style,
    )
        requires
            old(self).wf(),
            widths@.len() == parts@.len(),
            run_fits(old(self).bound_spec(), x as int, y as int, widths@),
        ensures
            final(self).wf(),
            final(self).bound_spec() == old(self).bound_spec(),
            final(self).cells() == write_run(
                old(self).cells(),
                old(self).bound_spec(),
                x as int,
                y as int,
                parts@.map(|i: int, p: String| p@),
                widths@,
                style,
            ),
    {
        let ghost b = self.bound_spec();
        let ghost gparts = parts@.map(|i: int, p: String| p@);
        let ghost goal = write_run(self.cells(), b, x as int, y as int, gparts, widths@, style);
        let n = parts.len();
        proof {
            assert(gparts.subrange(0, n as int) =~= gparts);
            assert(widths@.subrange(0, n as int) =~= widths@);
        }
        let mut k: usize = 0;
        let mut cx: u16 = x;
        while k < n
            invariant
                k <= n,
                n == parts@.len(),
                widths@.len() == parts@.len(),
                gparts == parts@.map(|i: int, p: String| p@),
                self.wf(),
                self.bound_spec() == b,
                run_fits(b, x as int, y as int, widths@),
                k < n ==> cx == advance_col(x as int, widths@, k as int),
                write_run(
                    self.cells(),
                    b,
                    advance_col(x as int, widths@, k as int),
                    y as int,
                    gparts.subrange(k as int, n as int),
                    widths@.subrange(k as int, n as int),
                    style,
                ) == goal,
            decreases n - k,
        {
            let ghost prev = self.cells();
            let idx = self.index_of(cx, y);
            let cell = Cell { grapheme: parts[k].clone(), style };
            let ghost cv = cell@;
            self.buf.set(idx, cell);
            proof {
                let rest_p = gparts.subrange(k as int, n as int);
                let rest_w = widths@.subrange(k as int, n as int);
                assert(rest_p.drop_first() =~= gparts.subrange(k + 1, n as int));
                assert(rest_w.drop_first() =~= widths@.subrange(k + 1, n as int));
                assert(cv =~= (CellView { grapheme: gparts[k as int], style }));
                assert(self.cells() =~= prev.update(idx as int, cv));
            }
            k = k + 1;
            if k < n {
                let step = widths[k - 1];
                proof {
                    assert(advance_col(x as int, widths@, k as int) == advance_col(
                        x as int,
                        widths@,
                        k - 1,
                    ) + widths@[k - 1]);
                }
                let next: usize = cx as usize + step;
                cx = next as u16;
            }
        }
        proof {
            assert(gparts.subrange(n as int, n as int) =~= Seq::<Seq<char>>::empty());
            assert(self.cells() == goal);
        }
    }

    /// Splits `s` into its grapheme clusters and returns them beside their
    /// displayed widths.
    fn clusters_with_widths(s: &str) -> (r: (Vec<String>, Vec<usize>))
        ensures
            r.0@.map(|i: int, p: String| p@) == grapheme_clusters(s@),
            r.1@ == cluster_widths(grapheme_clusters(s@)),
            r.0@.len() == r.1@.len(),
    {
        let parts = split_graphemes(s);
        let mut widths: Vec<usize> = Vec::new();
        let n = parts.len();
        let mut k: usize = 0;
        while k < n
            invariant
                k <= n,
                n == parts@.len(),
                parts@.len() == grapheme_clusters(s@).len(),
                forall|i: int| 0 <= i < parts@.len() ==> parts@[i]@ == grapheme_clusters(s@)[i],
                widths@.len() == k,
                forall|i: int| 0 <= i < k ==> widths@[i] == display_width(#[trigger] parts@[i]@),
            decreases n - k,
        {
            widths.push(str_width(parts[k].as_str()));
            k = k + 1;
        }
        proof {
            assert(parts@.map(|i: int, p: String| p@) =~= grapheme_clusters(s@));
            assert(widths@ =~= cluster_widths(grapheme_clusters(s@)));
        }
        (parts, widths)
    }

    /// Writes string `s` on row `y` starting at column `x`, one grapheme
    /// cluster per written cell with the default style, the write cursor
    /// advancing by each cluster's displayed width. No wrapping is
    /// performed, and a cluster of width two leaves its second column
    /// untouched: callers clip their text to the available width
    /// themselves.
    pub fn set_str(&mut self, x: u16, y: u16, s: &str)
        requires
            old(self).wf(),
            run_fits(
                old(self).bound_spec(),
                x as int,
                y as int,
                cluster_widths(grapheme_clusters(s@)),
            ),
        ensures
            final(self).wf(),
            final(self).bound_spec() == old(self).bound_spec(),
            final(self).cells() == write_run(
                old(self).cells(),
                old(self).bound_spec(),
                x as int,
                y as int,
                grapheme_clusters(s@),
                cluster_widths(grapheme_clusters(s@)),
                Style::plain(),
            ),
    {
        let (parts, widths) = Self::clusters_with_widths(s);
        let style = Style::default();
        self.set_str_parts(x, y, &parts, &widths, style);
    }

    /// Writes string `s` as `set_str` does, but stores the given style in
    /// every written cell.
    pub fn set_str_styled(&mut self, x: u16, y: u16, s: &str, style: Style)
        requires
            old(self).wf(),
            run_fits(
                old(self).bound_spec(),
                x as int,
                y as int,
                cluster_widths(grapheme_clusters(s@)),
            ),
        ensures
            final(self).wf(),
            final(self).bound_spec() == old(self).bound_spec(),
            final(self).cells() == write_run(
                old(self).cells(),
                old(self).bound_spec(),
                x as int,
                y as int,
                grapheme_clusters(s@),
                cluster_widths(grapheme_clusters(s@)),
                style,
            ),
    {
        let (parts, widths) = Self::clusters_with_widths(s);
        self.set_str_parts(x, y, &parts, &widths, style);
    }

    /// Checks whether every cluster of `s` lands in bound when written on
    /// row `y` starting at column `x`; only then writes `s` there with the
    /// given style, as `set_str_styled` does. Returns whether the write
    /// happened; on `false` the buffer is unchanged.
    pub fn set_str_styled_checked(&mut self, x: u16, y: u16, s: &str, style: Style) -> (done: bool)
        requires
            old(self).wf(),
        ensures
            final(self).wf(),
            final(self).bound_spec() == old(self).bound_spec(),
            done == run_fits(
                old(self).bound_spec(),
                x as int,
                y as int,
                cluster_widths(grapheme_clusters(s@)),
            ),
            done ==> final(self).cells() == write_run(
                old(self).cells(),
                old(self).bound_spec(),
                x as int,
                y as int,
                grapheme_clusters(s@),
                cluster_widths(grapheme_clusters(s@)),
                style,
            ),
            !done ==> final(self).cells() == old(self).cells(),
    {
        let (_, widths) = Self::clusters_with_widths(s);
        let fits = self.run_fits_exec(x, y, &widths);
        if fits {
            self.set_str_styled(x, y, s, style);
        }
        fits
    }

    /// Checks whether every cluster of `s` lands in bound when written on
    /// row `y` starting at column `x`; only then writes `s` there with the
    /// default style, as `set_str` does. Returns whether the write
    /// happened; on `false` the buffer is unchanged.
    pub fn set_str_checked(&mut self, x: u16, y: u16, s: &str) -> (done: bool)
        requires
            old(self).wf(),
        ensures
            final(self).wf(),
            final(self).bound_spec() == old(self).bound_spec(),
            done == run_fits(
                old(self).bound_spec(),
                x as int,
                y as int,
                cluster_widths(grapheme_clusters(s@)),
            ),
            done ==> final(self).cells() == write_run(
                old(self).cells(),
                old(self).bound_spec(),
                x as int,
                y as int,
                grapheme_clusters(s@),
                cluster_widths(grapheme_clusters(s@)),
                Style::plain(),
            ),
            !done ==> final(self).cells() == old(self).cells(),
    {
        let (_, widths) = Self::clusters_with_widths(s);
        let fits = self.run_fits_exec(x, y, &widths);
        if fits {
            self.set_str(x, y, s);
        }
        fits
    }

    /// Decides whether a run with the given widths, written on row `y`
    /// starting at column `x`, stays inside this buffer's bound.
    fn run_fits_exec(&self, x: u16, y: u16, widths: &Vec<usize>) -> (fits: bool)
        requires
            self.wf(),
        ensures
            fits == run_fits(self.bound_spec(), x as int, y as int, widths@),
    {
        let b = self.bound;
        let n = widths.len();
        let mut fits: bool = b.y <= y && y < b.y + b.height;
        let mut cur: usize = x as usize;
        let mut k: usize = 0;
        while fits && k < n
            invariant
                k <= n,
                n == widths@.len(),
                b == self.bound_spec(),
                b.wf(),
                fits ==> b.y <= y < b.y + b.height,
                fits && k < n ==> cur == advance_col(x as int, widths@, k as int),
                fits ==> forall|j: int|
                    0 <= j < k ==> b.x <= #[trigger] advance_col(x as int, widths@, j) < b.x
                        + b.width,
                !fits ==> !run_fits(b, x as int, y as int, widths@),
            decreases n - k + (if fits { 1int } else { 0int }),
        {
            if cur < b.x as usize || cur >= b.x as usize + b.width as usize {
                fits = false;
            } else {
                if k + 1 < n {
                    proof {
                        assert(advance_col(x as int, widths@, k + 1) == advance_col(
                            x as int,
                            widths@,
                            k as int,
                        ) + widths@[k as int]);
                    }
                    match cur.checked_add(widths[k]) {
                        Some(next) => {
                            if next > 0xFFFF {
                                fits = false;
                            } else {
                                cur = next;
                            }
                        },
                        None => {
                            fits = false;
                        },
                    }
                }
                k = k + 1;
            }
        }
        fits
    }

    /// Grows or truncates the raw cell sequence to the area of `bound`,
    /// padding new slots with default cells or truncating excess from the
    /// end. This is purely length-adjusting: it performs no coordinate
    /// remapping, so when the width changes the row-major interpretation of
    /// previously written content is not preserved.
    pub fn resize(&mut self, bound: Bound)
        requires
            old(self).wf(),
            bound.wf(),
        ensures
            final(self).wf(),
            final(self).bound_spec() == bound,
            final(self).cells().len() == bound.area_spec(),
            forall|i: int|
                0 <= i < vstd::math::min(old(self).cells().len() as int, bound.area_spec())
                    ==> final(self).cells()[i] == old(self).cells()[i],
            forall|i: int|
                old(self).cells().len() <= i < bound.area_spec() ==> final(self).cells()[i]
                    == CellView::default_cell(),
    {
        let size = bound.area() as usize;
        if self.buf.len() > size {
            self.buf.truncate(size);
            proof {
                assert(self.cells() =~= old(self).cells().subrange(0, size as int));
            }
        } else {
            while self.buf.len() < size
                invariant
                    old(self).cells().len() <= self.buf.len() <= size,
                    self.buf@.len() >= old(self).buf@.len(),
                    forall|i: int|
                        0 <= i < old(self).cells().len() ==> #[trigger] self.buf@[i]@ == old(
                            self,
                        ).cells()[i],
                    forall|i: int|
                        old(self).cells().len() <= i < self.buf.len() ==> #[trigger] self.buf@[i]@
                            == CellView::default_cell(),
                decreases size - self.buf.len(),
            {
                self.buf.push(Cell::space());
            }
        }
        self.bound = bound;
    }

    /// Translates the bound's origin horizontally without touching the cell
    /// contents.
    pub fn move_x(&mut self, x: u16)
        requires
            old(self).wf(),
            x + old(self).bound_spec().width <= u16::MAX,
        ensures
            final(self).wf(),
            final(self).bound_spec() == (Bound { x, ..old(self).bound_spec() }),
            final(self).cells() == old(self).cells(),
    {
        self.bound.x = x;
    }

    /// Translates the bound's origin vertically without touching the cell
    /// contents.
    pub fn move_y(&mut self, y: u16)
        requires
            old(self).wf(),
            y + old(self).bound_spec().height <= u16::MAX,
        ensures
            final(self).wf(),
            final(self).bound_spec() == (Bound { y, ..old(self).bound_spec() }),
            final(self).cells() == old(self).cells(),
    {
        self.bound.y = y;
    }

    /// Scrolls up by exactly one row: removes the first `width` cells (the
    /// logical top row) and appends `width` default cells at the end. The
    /// bound is unchanged: it represents the pane's screen position, not a
    /// content offset.
    pub fn drop_top_line(&mut self)
        requires
            old(self).wf(),
            old(self).bound_spec().height >= 1,
        ensures
            final(self).wf(),
            final(self).bound_spec() == old(self).bound_spec(),
            final(self).cells() == old(self).cells().subrange(
                old(self).bound_spec().width as int,
                old(self).cells().len() as int,
            ) + Seq::new(old(self).bound_spec().width as nat, |i: int| CellView::default_cell()),
    {
        let w = self.bound.width;
        proof {
            assert(self.bound.width <= self.bound.width * self.bound.height) by (nonlinear_arith)
                requires
                    self.bound.height >= 1,
                    self.bound.width >= 0,
            ;
        }
        let mut k: u16 = 0;
        while k < w
            invariant
                k <= w,
                w <= self.buf.len(),
                self.buf@.len() == old(self).cells().len(),
                self.bound == old(self).bound_spec(),
                forall|i: int|
                    0 <= i < self.buf@.len() - k ==> #[trigger] self.buf@[i]@ == old(
                        self,
                    ).cells()[i + k],
                forall|i: int|
                    self.buf@.len() - k <= i < self.buf@.len() ==> #[trigger] self.buf@[i]@
                        == CellView::default_cell(),
            decreases w - k,
        {
            self.buf.remove(0);
            self.buf.push(Cell::space());
            k = k + 1;
        }
        proof {
            assert(self.cells() =~= old(self).cells().subrange(
                old(self).bound_spec().width as int,
                old(self).cells().len() as int,
            ) + Seq::new(old(self).bound_spec().width as nat, |i: int| CellView::default_cell()));
        }
    }

    /// The raw cell sequence, row-major.
    pub fn inner(&self) -> (cells: &Vec<Cell>)
        ensures
            cells@.len() == self.cells().len(),
            forall|i: int| 0 <= i < cells@.len() ==> #[trigger] cells@[i]@ == self.cells()[i],
    {
        &self.buf
    }

    /// Resets every cell to the default cell; the bound is unchanged.
    pub fn reset(&mut self)
        requires
            old(self).wf(),
        ensures
            final(self).wf(),
            final(self).bound_spec() == old(self).bound_spec(),
            final(self).cells().len() == old(self).cells().len(),
            forall|i: int|
                0 <= i < final(self).cells().len() ==> final(self).cells()[i]
                    == CellView::default_cell(),
    {
        let mut k: usize = 0;
        let n = self.buf.len();
        while k < n
            invariant
                k <= n,
                n == self.buf@.len(),
                self.buf@.len() == old(self).cells().len(),
                self.bound == old(self).bound_spec(),
                forall|i: int|
                    0 <= i < k ==> #[trigger] self.buf@[i]@ == CellView::default_cell(),
            decreases n - k,
        {
            self.buf.set(k, Cell::space());
            k = k + 1;
        }
    }

    /// Composites `other` onto this buffer. The bound grows to the union of
    /// the two bounds, new slots are padded with default cells, and every
    /// cell of `other` is copied to its absolute (x, y) position, winning on
    /// overlap. This buffer's bound must already dominate the top-left
    /// corner of the union, so that its own origin does not shift; its
    /// pre-existing cells are never remapped.
    pub fn merge(&mut self, other: &Buffer)
        requires
            old(self).wf(),
            other.wf(),
            old(self).bound_spec().x <= other.bound_spec().x,
            old(self).bound_spec().y <= other.bound_spec().y,
        ensures
            final(self).wf(),
            final(self).bound_spec() == old(self).bound_spec().union_spec(other.bound_spec()),
            forall|i: int|
                0 <= i < final(self).cells().len() ==> final(self).cells()[i] == merged_cell(
                    old(self).bound_spec().union_spec(other.bound_spec()),
                    old(self).cells(),
                    other.bound_spec(),
                    other.cells(),
                    i,
                ),
    {
        let ghost pre = self.cells();
        let ub = self.bound.union(&other.bound);
        proof {
            assert(self.bound.width * self.bound.height <= ub.width * ub.height)
                by (nonlinear_arith)
                requires
                    0 <= self.bound.width <= ub.width,
                    0 <= self.bound.height <= ub.height,
            ;
        }
        // Pad with default cells up to the union's area.
        let size = ub.area() as usize;
        while self.buf.len() < size
            invariant
                pre.len() <= self.buf.len() <= size,
                forall|j: int| 0 <= j < pre.len() ==> #[trigger] self.buf@[j]@ == pre[j],
                forall|j: int|
                    pre.len() <= j < self.buf@.len() ==> #[trigger] self.buf@[j]@
                        == CellView::default_cell(),
            decreases size - self.buf.len(),
        {
            self.buf.push(Cell::space());
        }
        self.bound = ub;
        // Copy the contents of the other buffer in, erasing the cells
        // already present at those positions.
        let ghost ob = other.bound_spec();
        let n = other.buf.len();
        let mut i: usize = 0;
        while i < n
            invariant
                i <= n,
                n == other.cells().len(),
                other.wf(),
                ub.wf(),
                ub == old(self).bound_spec().union_spec(ob),
                ub.contains_bound(ob),
                ob == other.bound_spec(),
                self.bound == ub,
                self.buf@.len() == ub.area_spec(),
                forall|j: int|
                    0 <= j < self.buf@.len() ==> #[trigger] self.buf@[j]@ == (if ob.contains(
                        pos_x_in(ub, j),
                        pos_y_in(ub, j),
                    ) && index_in(ob, pos_x_in(ub, j), pos_y_in(ub, j)) < i {
                        other.cells()[index_in(ob, pos_x_in(ub, j), pos_y_in(ub, j))]
                    } else if j < pre.len() {
                        pre[j]
                    } else {
                        CellView::default_cell()
                    }),
            decreases n - i,
        {
            let (x, y) = other.pos_of(i);
            let idx = self.index_of(x, y);
            let c = other.buf[i].duplicate();
            self.buf.set(idx, c);
            proof {
                lemma_index_of_pos_of(ob, i as int);
                lemma_pos_of_index_of(ub, x as int, y as int);
                assert forall|j: int| 0 <= j < self.buf@.len() implies #[trigger] self.buf@[j]@
                    == (if ob.contains(pos_x_in(ub, j), pos_y_in(ub, j)) && index_in(
                    ob,
                    pos_x_in(ub, j),
                    pos_y_in(ub, j),
                ) < i + 1 {
                    other.cells()[index_in(ob, pos_x_in(ub, j), pos_y_in(ub, j))]
                } else if j < pre.len() {
                    pre[j]
                } else {
                    CellView::default_cell()
                }) by {
                    let px = pos_x_in(ub, j);
                    let py = pos_y_in(ub, j);
                    lemma_index_of_pos_of(ub, j);
                    if j != idx && ob.contains(px, py) && index_in(ob, px, py) == i {
                        lemma_pos_of_index_of(ob, px, py);
                        assert(px == x && py == y);
                        assert(false);
                    }
                }
            }
            i = i + 1;
        }
        proof {
            assert forall|j: int| 0 <= j < self.cells().len() implies self.cells()[j]
                == merged_cell(ub, pre, ob, other.cells(), j) by {
                lemma_index_of_pos_of(ub, j);
                if ob.contains(pos_x_in(ub, j), pos_y_in(ub, j)) {
                    lemma_pos_of_index_of(ob, pos_x_in(ub, j), pos_y_in(ub, j));
                }
            }
        }
    }
}

} // verus!
