use vstd::prelude::*;

use crate::style::{Color, Modifier, Style};

verus! {

/// A single cell in the terminal buffer: one grapheme cluster and its style.
pub struct Cell {
    pub grapheme: String,
    pub style: Style,
}

/// The mathematical value of a cell: the grapheme's characters and the style.
#[verifier::ext_equal]
pub struct CellView {
    pub grapheme: Seq<char>,
    pub style: Style,
}

impl CellView {
    /// The default cell: a single space with the default style.
    pub open spec fn default_cell() -> CellView {
        CellView { grapheme: seq![' '], style: Style::plain() }
    }
}

impl View for Cell {
    type V = CellView;

    open spec fn view(&self) -> CellView {
        CellView { grapheme: self.grapheme@, style: self.style }
    }
}

impl Default for Cell {
    fn default() -> (c: Cell)
        ensures
            c@ == CellView::default_cell(),
    {
        Cell::space()
    }
}

impl Cell {
    pub fn new(grapheme: &str) -> (c: Cell)
        ensures
            c@ == (CellView { grapheme: grapheme@, style: Style::plain() }),
    {
        Cell { grapheme: grapheme.to_owned(), style: Style::default() }
    }

    /// A fresh default cell: a single space, default style.
    pub fn space() -> (c: Cell)
        ensures
            c@ == CellView::default_cell(),
    {
        let c = Cell::new(" ");
        proof {
            reveal_strlit(" ");
            assert(c@.grapheme =~= seq![' ']);
            assert(c@ =~= CellView::default_cell());
        }
        c
    }

    /// A copy of this cell with the same grapheme and style.
    pub fn duplicate(&self) -> (c: Cell)
        ensures
            c@ == self@,
    {
        let c = Cell { grapheme: self.grapheme.clone(), style: self.style };
        proof {
            assert(c@ =~= self@);
        }
        c
    }

    pub fn fg(&mut self, color: Color)
        ensures
            *final(self) == (Cell {
                style: Style { fg: color, ..old(self).style },
                ..*old(self)
            }),
    {
        self.style.fg = color;
    }

    pub fn bg(&mut self, color: Color)
        ensures
            *final(self) == (Cell {
                style: Style { bg: color, ..old(self).style },
                ..*old(self)
            }),
    {
        self.style.bg = color;
    }

    pub fn modifier(&mut self, modifier: Modifier)
        ensures
            *final(self) == (Cell {
                style: Style { modifier, ..old(self).style },
                ..*old(self)
            }),
    {
        self.style.modifier = modifier;
    }

    pub fn styled(&mut self, style: Style)
        ensures
            *final(self) == (Cell { style, ..*old(self) }),
    {
        self.style = style;
    }

    /// Restores the default cell state: a single space, default style.
    pub fn reset(&mut self)
        ensures
            final(self)@ == CellView::default_cell(),
    {
        let fresh = Cell::space();
        self.grapheme = fresh.grapheme;
        self.style.reset();
        proof {
            assert(self@ =~= CellView::default_cell());
        }
    }
}

} // verus!
