//! The module matrix of a QR symbol: a square grid of dark and light cells.

use vstd::prelude::*;

verus! {

/// A square grid of QR modules, row-major; `true` is a dark module.
#[derive(Debug)]
pub struct ModuleMatrix {
    pub width: usize,
    pub modules: Vec<bool>,
}

impl ModuleMatrix {
    /// The matrix holds exactly `width * width` modules.
    pub open spec fn wf(self) -> bool {
        self.modules@.len() == self.width * self.width
    }

    /// The module in row `r`, column `c`.
    pub open spec fn module_at(self, r: int, c: int) -> bool {
        self.modules@[r * self.width + c]
    }

    /// The matrix as a sequence of rows.
    pub open spec fn grid(self) -> Seq<Seq<bool>> {
        Seq::new(
            self.width as nat,
            |r: int| Seq::new(self.width as nat, |c: int| self.module_at(r, c)),
        )
    }

    /// Reads the module in row `r`, column `c`.
    pub fn get(&self, r: usize, c: usize) -> (b: bool)
        requires
            self.wf(),
            r < self.width,
            c < self.width,
        ensures
            b == self.module_at(r as int, c as int),
    {
        proof {
            lemma_module_index_in_range(self.width as int, r as int, c as int);
            assert(self.modules.len() == self.modules@.len());
        }
        self.modules[r * self.width + c]
    }
}

/// A row index and a column index below `width` give a flat index
/// below `width * width`.
pub proof fn lemma_module_index_in_range(width: int, r: int, c: int)
    requires
        0 <= r < width,
        0 <= c < width,
    ensures
        0 <= r * width + c < width * width,
{
    assert(0 <= r * width + c < width * width) by (nonlinear_arith)
        requires
            0 <= r < width,
            0 <= c < width,
    ;
}

/// `g` is a square grid of side `g.len()`.
pub open spec fn grid_wf(g: Seq<Seq<bool>>) -> bool {
    forall|r: int| 0 <= r < g.len() ==> (#[trigger] g[r]).len() == g.len()
}

/// The matrix `m` holds exactly the modules of the grid `g`.
pub open spec fn grid_matches(m: ModuleMatrix, g: Seq<Seq<bool>>) -> bool {
    &&& m.width == g.len()
    &&& forall|r: int, c: int|
        0 <= r < g.len() && 0 <= c < g.len() ==> #[trigger] m.module_at(r, c) == g[r][c]
}

/// A well-formed matrix that matches a square grid has that grid as its
/// row decomposition.
pub proof fn lemma_grid_matches_unique(m: ModuleMatrix, g: Seq<Seq<bool>>)
    requires
        m.wf(),
        grid_wf(g),
        grid_matches(m, g),
    ensures
        m.grid() =~~= g,
{
}

} // verus!
