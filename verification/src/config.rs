use vstd::prelude::*;

verus! {

/// Paths to a declarative description and its companion data file.
#[derive(Debug, Clone)]
pub struct ConfigPair {
    pub config: String,
    pub file: String,
}

/// Startup defaults for the window and the frame pacing.
#[derive(Debug, Clone)]
pub struct Defaults {
    pub fps: i32,
    pub width: u32,
    pub height: u32,
}

/// Projection parameters shared by every layer drawn in a frame:
/// an unsigned cell scale (`zoom`) and four signed skew coefficients.
#[derive(Debug, Clone)]
pub struct Renderer {
    pub zoom: u32,
    pub xxo: i32,
    pub xyo: i32,
    pub yxo: i32,
    pub yyo: i32,
}

/// Top-level configuration, loaded once at startup and read-only afterwards.
#[derive(Debug, Clone)]
pub struct Config {
    pub tiles: ConfigPair,
    pub defaults: Defaults,
    pub renderer: Renderer,
}

} // verus!
