//! Palette method contracts and the enumerations shared by the generators.

use vstd::prelude::*;

verus! {

/// High-level grouping for palette generation strategies.
#[derive(Debug, Clone, Copy, PartialEq, Eq, Structural)]
pub enum MethodCategory {
    /// Traditional harmony rules based on hue wheel relationships.
    Classical,
    /// Perceptual color-space-aware approaches (e.g. OKLCH/Lab).
    Perceptual,
    /// Experimental or niche methods outside common harmony sets.
    Advanced,
    /// Accessibility-oriented generation focused on robust distinction/contrast.
    Accessibility,
}

/// DeltaE metric options for spacing/scoring methods.
#[derive(Debug, Clone, Copy, PartialEq, Eq, Structural)]
pub enum DeltaEMetric {
    /// CIE76 Euclidean Lab distance.
    E76,
    /// CIEDE2000 perceptual distance.
    E00,
}

impl Default for DeltaEMetric {
    fn default() -> (r: Self)
        ensures
            r == DeltaEMetric::E76,
    {
        DeltaEMetric::E76
    }
}

/// Color vision deficiency simulation modes.
#[derive(Debug, Clone, Copy, PartialEq, Eq, Structural)]
pub enum CvdMode {
    /// Deuteranopia simulation.
    Deuteranopia,
    /// Protanopia simulation.
    Protanopia,
    /// Tritanopia simulation.
    Tritanopia,
}

impl Default for CvdMode {
    fn default() -> (r: Self)
        ensures
            r == CvdMode::Deuteranopia,
    {
        CvdMode::Deuteranopia
    }
}

/// Interface implemented by all palette generation methods: the metadata that
/// the registry, the UI and session files use, and the method's rule for the
/// size of the palettes it makes.
pub trait PaletteMethod: Send + Sync {
    /// Stable programmatic identifier (used by UI/session serialization).
    fn id(&self) -> &'static str;

    /// Human-readable method name.
    fn name(&self) -> &'static str;

    /// Category displayed in UI and used for grouping.
    fn category(&self) -> MethodCategory;

    /// Number of colours generated for a requested size: the request, raised
    /// to the method's minimum.
    fn palette_size(&self, requested: usize) -> (n: usize)
        ensures
            n >= requested,
    ;
}

} // verus!
