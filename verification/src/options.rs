//! Configuration for a removal run.

use vstd::prelude::*;

verus! {

/// Options for background removal.
///
/// `threshold` drives the alpha ramp of the compositor; `binary` switches
/// between a hard cutout and soft edges; `sticker` enables the border
/// cleaning pass that draws a soft outline around the cut-out artwork.
#[derive(Clone, Copy, Debug, PartialEq, Eq, Structural)]
pub struct RemovalOptions {
    /// Threshold for alpha matting, in mask units (0-255).
    /// Higher values remove the background more aggressively.
    pub threshold: u8,
    /// If true, produce a hard cutout without semi-transparency.
    pub binary: bool,
    /// If true, run the sticker outline pass after compositing.
    pub sticker: bool,
}

impl RemovalOptions {
    /// The defaults: a balanced threshold, soft edges, no outline.
    pub fn new() -> (r: RemovalOptions)
        ensures
            r.threshold == 160,
            !r.binary,
            !r.sticker,
    {
        RemovalOptions { threshold: 160, binary: false, sticker: false }
    }

    /// Same options with the given threshold.
    pub fn with_threshold(self, threshold: u8) -> (r: RemovalOptions)
        ensures
            r == (RemovalOptions { threshold, ..self }),
    {
        RemovalOptions { threshold, ..self }
    }

    /// Same options with binary (hard cutout) mode set as given.
    pub fn with_binary_mode(self, binary: bool) -> (r: RemovalOptions)
        ensures
            r == (RemovalOptions { binary, ..self }),
    {
        RemovalOptions { binary, ..self }
    }

    /// Same options with the sticker outline pass set as given.
    pub fn with_sticker(self, sticker: bool) -> (r: RemovalOptions)
        ensures
            r == (RemovalOptions { sticker, ..self }),
    {
        RemovalOptions { sticker, ..self }
    }
}

impl Default for RemovalOptions {
    /// The same defaults as [`RemovalOptions::new`].
    fn default() -> (r: RemovalOptions)
        ensures
            r.threshold == 160,
            !r.binary,
            !r.sticker,
    {
        RemovalOptions::new()
    }
}

} // verus!
