//! Serializable data structures for unparameterized drawings: the parts that
//! hold no coordinates.

use vstd::prelude::*;

verus! {

/// 32-bit ARGB color value.
#[derive(Copy, Clone, PartialEq, Eq, Structural, Debug)]
pub struct Color(pub u32);

#[derive(Copy, Clone, PartialEq, Eq, Structural, Debug)]
pub struct UseCenter(pub bool);

// https://developer.android.com/reference/android/graphics/PorterDuff.Mode
// We support 12 alpha composition modes, 5 blending modes, and simple addition for now.
// (these are supported on Android)
// Skia modes unsupported are:
//   Modulate
//   ColorDodge, ColorBurn, SoftLight, HardLight, Difference, Exclusion
//   Hue, Saturation, Color, Luminosity
#[derive(Copy, Clone, PartialEq, Eq, Structural, Debug)]
pub enum BlendMode {
    Source,
    SourceOver,
    SourceIn,
    SourceAtop,
    Destination,
    DestinationOver,
    DestinationIn,
    DestinationAtop,
    Clear,
    SourceOut,
    DestinationOut,
    ExclusiveOr,
    Darken,
    Lighten,
    Multiply,
    Screen,
    Overlay,
    Add,
}

#[derive(Copy, Clone, PartialEq, Eq, Structural, Debug)]
pub enum PaintStyle {
    Stroke,
    Fill,
    StrokeAndFill,
}

#[derive(Copy, Clone, PartialEq, Eq, Structural, Debug)]
pub enum StrokeCap {
    Butt,
    Round,
    Square,
}

#[derive(Copy, Clone, PartialEq, Eq, Structural, Debug)]
pub enum StrokeJoin {
    Miter,
    Round,
    Bevel,
}

#[derive(Clone, PartialEq, Eq, Debug)]
pub struct ImageId(pub String);

#[derive(Copy, Clone, PartialEq, Eq, Structural, Debug)]
pub enum PathFillType {
    Winding,
    EventOdd,
}

#[derive(Copy, Clone, PartialEq, Eq, Structural, Debug)]
pub enum PathDirection {
    CW,
    CCW,
}

#[derive(Copy, Clone, PartialEq, Eq, Structural, Debug)]
pub struct ForceMoveTo(pub bool);

} // verus!
