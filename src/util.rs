use vstd::prelude::*;
use crate::output::{Output, OutputMode};

verus! {

/// Applying an output's orientation to its reported size.
pub trait MonitorTransformExt: Sized {
    /// The value once its orientation has been applied to its size.
    spec fn transformed(&self) -> Self;

    /// Swap width and height when the orientation turns by a quarter.
    fn apply_transform(&mut self)
        ensures
            *final(self) == old(self).transformed(),
    ;
}

impl MonitorTransformExt for Output {
    open spec fn transformed(&self) -> Output {
        match (self.geometry, self.mode) {
            (Some(g), Some(m)) => if g.transform.spec_swaps_dimensions() {
                Output { mode: Some(OutputMode { width: m.height, height: m.width, ..m }), ..*self }
            } else {
                *self
            },
            _ => *self,
        }
    }

    fn apply_transform(&mut self) {
        let swap = match &self.geometry {
            Some(g) => g.transform.swaps_dimensions(),
            None => false,
        };
        if swap {
            match self.mode {
                Some(m) => {
                    self.mode = Some(OutputMode { width: m.height, height: m.width, ..m });
                },
                None => {},
            }
        }
    }
}

} // verus!
