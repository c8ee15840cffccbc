use vstd::prelude::*;

verus! {

/// How the cursor image is transformed from its recent motion.
#[derive(Debug, Clone, Copy, PartialEq, Eq, Structural)]
pub enum CursorMode {
    Off,
    Rotate,
    Tilt,
    Stretch,
}

/// The curve that maps a normalised speed onto the strength of an effect.
#[derive(Debug, Clone, Copy, PartialEq, Eq, Structural)]
pub enum ActivationFunction {
    Linear,
    Quadratic,
    NegativeQuadratic,
}

} // verus!
