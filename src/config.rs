use vstd::prelude::*;

verus! {

/// Number of samples in one analysis window.
pub const WINDOW_SIZE: usize = 1024;

/// Stride between the starts of consecutive windows (50% overlap).
pub const HOP_SIZE: usize = 512;

/// Window length and hop of a short-time transform.
#[derive(Clone, Copy, Debug, PartialEq, Eq, Structural)]
pub struct StftConfig {
    pub window_size: usize,
    pub hop_size: usize,
}

/// Why a window/hop pair was rejected.
#[derive(Clone, Copy, Debug, PartialEq, Eq, Structural)]
pub enum ConfigError {
    /// The window holds no samples.
    ZeroWindow,
    /// The hop does not advance.
    ZeroHop,
    /// The hop is longer than the window, so samples would be skipped.
    HopExceedsWindow,
}

impl StftConfig {
    /// A usable configuration: a non-empty window and a hop in `1..=window_size`.
    pub open spec fn valid(&self) -> bool {
        &&& self.window_size > 0
        &&& self.hop_size > 0
        &&& self.hop_size <= self.window_size
    }

    /// Checks and builds a configuration; the window is checked first, then the hop.
    pub fn new(window_size: usize, hop_size: usize) -> (r: Result<StftConfig, ConfigError>)
        ensures
            r is Ok <==> (window_size > 0 && hop_size > 0 && hop_size <= window_size),
            r is Ok ==> r->Ok_0.window_size == window_size && r->Ok_0.hop_size == hop_size
                && r->Ok_0.valid(),
            r == Err::<StftConfig, ConfigError>(ConfigError::ZeroWindow) <==> window_size == 0,
            r == Err::<StftConfig, ConfigError>(ConfigError::ZeroHop) <==> (window_size > 0
                && hop_size == 0),
            r == Err::<StftConfig, ConfigError>(ConfigError::HopExceedsWindow) <==> (window_size
                > 0 && hop_size > window_size),
    {
        if window_size == 0 {
            Err(ConfigError::ZeroWindow)
        } else if hop_size == 0 {
            Err(ConfigError::ZeroHop)
        } else if hop_size > window_size {
            Err(ConfigError::HopExceedsWindow)
        } else {
            Ok(StftConfig { window_size, hop_size })
        }
    }

    /// The fixed configuration: [`WINDOW_SIZE`] samples per window, [`HOP_SIZE`] per hop.
    pub fn standard() -> (c: StftConfig)
        ensures
            c.window_size == WINDOW_SIZE,
            c.hop_size == HOP_SIZE,
            c.valid(),
    {
        StftConfig { window_size: WINDOW_SIZE, hop_size: HOP_SIZE }
    }

    /// Number of frequency bins that are drawn: the lower half of each spectrum.
    pub fn visible_bins(&self) -> (r: usize)
        ensures
            r == self.window_size / 2,
    {
        self.window_size / 2
    }
}

} // verus!
