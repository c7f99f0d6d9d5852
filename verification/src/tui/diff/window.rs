//! The window of visual rows being drawn: rows to skip first, then rows left to fill.
use vstd::prelude::*;

verus! {

/// Rows still to skip (`base`) and rows still to fill (`height`).
pub struct Window {
    base: usize,
    height: usize,
}

impl View for Window {
    type V = (nat, nat);

    closed spec fn view(&self) -> (nat, nat) {
        (self.base as nat, self.height as nat)
    }
}

/// One row passes: a skipped row while some are left to skip, else a filled row (never below none).
pub open spec fn window_step(w: (nat, nat)) -> (nat, nat) {
    if w.0 > 0 {
        ((w.0 - 1) as nat, w.1)
    } else if w.1 > 0 {
        (w.0, (w.1 - 1) as nat)
    } else {
        w
    }
}

/// The window after `k` rows passed.
pub open spec fn window_steps(w: (nat, nat), k: nat) -> (nat, nat)
    decreases k,
{
    if k == 0 {
        w
    } else {
        window_step(window_steps(w, (k - 1) as nat))
    }
}

/// After `k` rows passed a window that skips `base` rows and fills `height`, the next row is
/// drawn exactly when `k >= base`, and no row is left to fill exactly when `height == 0` or
/// `k >= base + height`.
pub proof fn law_window_after_rows(base: nat, height: nat, k: nat)
    ensures
        (window_steps((base, height), k).0 == 0) == (k >= base),
        (window_steps((base, height), k).1 == 0) == (height == 0 || k >= base + height),
{
    lemma_window_steps(base, height, k);
}

/// Where a window stands after `k` rows: skipping first, then filling, never below none.
proof fn lemma_window_steps(base: nat, height: nat, k: nat)
    ensures
        window_steps((base, height), k) == if k <= base {
            ((base - k) as nat, height)
        } else if k - base <= height {
            (0nat, (height - (k - base)) as nat)
        } else {
            (0nat, 0nat)
        },
    decreases k,
{
    if k > 0 {
        lemma_window_steps(base, height, (k - 1) as nat);
    }
}

impl Window {
    /// Skip `base` rows, then fill `height`.
    pub fn new(base: usize, height: usize) -> (res: Window)
        ensures
            res@ == (base as nat, height as nat),
    {
        Window { base, height }
    }

    /// One row passes.
    pub fn inc(&mut self)
        ensures
            final(self)@ == window_step(old(self)@),
    {
        if self.base > 0 {
            self.base = self.base - 1;
        } else {
            self.height = self.height.saturating_sub(1);
        }
    }

    /// No row is left to fill.
    pub fn fused(&self) -> (res: bool)
        ensures
            res == (self@.1 == 0),
    {
        self.height == 0
    }

    /// No row is left to skip: the next row is drawn.
    pub fn visible(&self) -> (res: bool)
        ensures
            res == (self@.0 == 0),
    {
        self.base == 0
    }
}

} // verus!
