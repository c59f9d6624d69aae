//! Debug plotting of an elevator's motion.
use vstd::prelude::*;

verus! {

/// A plot of an elevator's motion; plotting itself is not implemented, so a
/// plotter only remembers whether it was asked to plot.
pub struct LinePlotter {
    pub enable_plotting: bool,
}

impl LinePlotter {
    pub fn new(enable_plotting: bool) -> (p: Self)
        ensures
            p.enable_plotting == enable_plotting,
    {
        Self { enable_plotting }
    }

    /// Creating the plot draws nothing yet.
    pub fn create_plot(&self) {
    }

    /// Updating the plot draws nothing yet.
    pub fn update_plot(&self) {
    }
}

} // verus!
