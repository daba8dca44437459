//! Terminal dimensions.
use vstd::prelude::*;

verus! {

/// Terminal configuration containing dimensions.
#[derive(Debug, Clone)]
pub struct TerminalConfig {
    pub cols: u16,
    pub rows: u16,
}

impl TerminalConfig {
    pub fn new(cols: u16, rows: u16) -> (c: Self)
        ensures
            c.cols == cols,
            c.rows == rows,
    {
        TerminalConfig { cols, rows }
    }

    /// The dimensions as `(cols, rows)`.
    pub fn dimensions(&self) -> (d: (u16, u16))
        ensures
            d == (self.cols, self.rows),
    {
        (self.cols, self.rows)
    }
}

} // verus!
