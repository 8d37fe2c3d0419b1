use vstd::prelude::*;
use vstd::arithmetic::div_mod::lemma_fundamental_div_mod_converse;
use crate::cell::Cell;
use crate::grid::Grid;
use crate::universe::Universe;

verus! {

/// A text-based display for the universe.
pub struct Display<'a> {
    pub universe: &'a Universe,
}

/// The character that stands for a cell: a full stop for a dead cell, a black
/// square for a live one.
pub open spec fn glyph(cell: Cell) -> char {
    match cell {
        Cell::Dead => '.',
        Cell::Alive => '\u{25FC}',
    }
}

/// The text of a grid: its rows from top to bottom, each as the glyphs of its
/// cells from left to right, followed by a line break.
pub open spec fn rendered(g: Grid) -> Seq<char> {
    let line = g.width as int + 1;
    Seq::new(
        (g.height * line) as nat,
        |i: int|
            if i % line == g.width {
                '\n'
            } else {
                glyph(g.at(i / line, i % line))
            },
    )
}

impl<'a> Display<'a> {
    /// A display of `universe`.
    pub fn new(universe: &'a Universe) -> (display: Display<'a>)
        ensures
            display.universe == universe,
    {
        Display { universe }
    }

    /// The text of the universe; the universe is left as it is.
    pub fn render(&self) -> (text: String)
        requires
            self.universe.wf(),
        ensures
            text@ == rendered(self.universe@),
    {
        let universe = self.universe;
        let ghost g = universe@;
        let ghost line = g.width as int + 1;
        let mut text = String::new();
        for row in 0..universe.height
            invariant
                universe.wf(),
                g == universe@,
                line == g.width as int + 1,
                text@.len() == row * line,
                forall|i: int| 0 <= i < text@.len() ==> text@[i] == rendered(g)[i],
        {
            for col in 0..universe.width
                invariant
                    universe.wf(),
                    g == universe@,
                    line == g.width as int + 1,
                    row < universe.height,
                    text@.len() == row * line + col,
                    forall|i: int| 0 <= i < text@.len() ==> text@[i] == rendered(g)[i],
            {
                let idx = universe.get_index(row, col);
                let symbol = match universe.cells[idx] {
                    Cell::Dead => ".",
                    Cell::Alive => "\u{25FC}",
                };
                proof {
                    reveal_strlit(".");
                    reveal_strlit("\u{25FC}");
                    assert(symbol@ =~= seq![glyph(universe.cells@[idx as int])]);
                    lemma_fundamental_div_mod_converse(
                        row * line + col,
                        line,
                        row as int,
                        col as int,
                    );
                    assert((row + 1) * line <= g.height * line) by (nonlinear_arith)
                        requires
                            row < g.height,
                            0 <= line,
                    ;
                    assert((row + 1) * line == row * line + line) by (nonlinear_arith);
                }
                text.append(symbol);
            }
            proof {
                reveal_strlit("\n");
                assert("\n"@ =~= seq!['\n']);
                lemma_fundamental_div_mod_converse(
                    row * line + g.width,
                    line,
                    row as int,
                    g.width as int,
                );
                assert((row + 1) * line <= g.height * line) by (nonlinear_arith)
                    requires
                        row < g.height,
                        0 <= line,
                ;
                assert((row + 1) * line == row * line + line) by (nonlinear_arith);
            }
            text.append("\n");
        }
        assert(text@ =~= rendered(g));
        text
    }
}

} // verus!
