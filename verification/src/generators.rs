//! The built-in palette generation methods.

use vstd::prelude::*;
use crate::method::{MethodCategory, PaletteMethod};
use crate::registry::BuiltinMethod;

verus! {

/// Lightness steps of the seed hue.
#[derive(Debug, Clone, Copy, PartialEq, Eq, Structural)]
pub struct Monochrome;

impl PaletteMethod for Monochrome {
    fn id(&self) -> (res: &'static str)
        ensures
            res@ == "monochrome"@,
    {
        "monochrome"
    }

    fn name(&self) -> (res: &'static str)
        ensures
            res@ == "Monochrome"@,
    {
        "Monochrome"
    }

    fn category(&self) -> (res: MethodCategory)
        ensures
            res == MethodCategory::Classical,
    {
        MethodCategory::Classical
    }

    fn palette_size(&self, requested: usize) -> (n: usize)
        ensures
            n == if requested < 2 {
                2
            } else {
                requested
            },
    {
        if requested < 2 {
            2
        } else {
            requested
        }
    }
}

/// The seed hue alternating with its complement.
#[derive(Debug, Clone, Copy, PartialEq, Eq, Structural)]
pub struct Complementary;

impl PaletteMethod for Complementary {
    fn id(&self) -> (res: &'static str)
        ensures
            res@ == "complementary"@,
    {
        "complementary"
    }

    fn name(&self) -> (res: &'static str)
        ensures
            res@ == "Complementary"@,
    {
        "Complementary"
    }

    fn category(&self) -> (res: MethodCategory)
        ensures
            res == MethodCategory::Classical,
    {
        MethodCategory::Classical
    }

    fn palette_size(&self, requested: usize) -> (n: usize)
        ensures
            n == if requested < 2 {
                2
            } else {
                requested
            },
    {
        if requested < 2 {
            2
        } else {
            requested
        }
    }
}

/// Hues spread evenly around the seed hue.
#[derive(Debug, Clone, Copy, PartialEq, Eq, Structural)]
pub struct Analogous;

impl PaletteMethod for Analogous {
    fn id(&self) -> (res: &'static str)
        ensures
            res@ == "analogous"@,
    {
        "analogous"
    }

    fn name(&self) -> (res: &'static str)
        ensures
            res@ == "Analogous"@,
    {
        "Analogous"
    }

    fn category(&self) -> (res: MethodCategory)
        ensures
            res == MethodCategory::Classical,
    {
        MethodCategory::Classical
    }

    fn palette_size(&self, requested: usize) -> (n: usize)
        ensures
            n == if requested < 3 {
                3
            } else {
                requested
            },
    {
        if requested < 3 {
            3
        } else {
            requested
        }
    }
}

/// The seed hue and the two hues beside its complement.
#[derive(Debug, Clone, Copy, PartialEq, Eq, Structural)]
pub struct SplitComplementary;

impl PaletteMethod for SplitComplementary {
    fn id(&self) -> (res: &'static str)
        ensures
            res@ == "split-complementary"@,
    {
        "split-complementary"
    }

    fn name(&self) -> (res: &'static str)
        ensures
            res@ == "Split Complementary"@,
    {
        "Split Complementary"
    }

    fn category(&self) -> (res: MethodCategory)
        ensures
            res == MethodCategory::Classical,
    {
        MethodCategory::Classical
    }

    fn palette_size(&self, requested: usize) -> (n: usize)
        ensures
            n == if requested < 3 {
                3
            } else {
                requested
            },
    {
        if requested < 3 {
            3
        } else {
            requested
        }
    }
}

/// Three hues a third of the wheel apart.
#[derive(Debug, Clone, Copy, PartialEq, Eq, Structural)]
pub struct Triadic;

impl PaletteMethod for Triadic {
    fn id(&self) -> (res: &'static str)
        ensures
            res@ == "triadic"@,
    {
        "triadic"
    }

    fn name(&self) -> (res: &'static str)
        ensures
            res@ == "Triadic"@,
    {
        "Triadic"
    }

    fn category(&self) -> (res: MethodCategory)
        ensures
            res == MethodCategory::Classical,
    {
        MethodCategory::Classical
    }

    fn palette_size(&self, requested: usize) -> (n: usize)
        ensures
            n == if requested < 3 {
                3
            } else {
                requested
            },
    {
        if requested < 3 {
            3
        } else {
            requested
        }
    }
}

/// Two complementary pairs.
#[derive(Debug, Clone, Copy, PartialEq, Eq, Structural)]
pub struct Tetradic;

impl PaletteMethod for Tetradic {
    fn id(&self) -> (res: &'static str)
        ensures
            res@ == "tetradic"@,
    {
        "tetradic"
    }

    fn name(&self) -> (res: &'static str)
        ensures
            res@ == "Tetradic"@,
    {
        "Tetradic"
    }

    fn category(&self) -> (res: MethodCategory)
        ensures
            res == MethodCategory::Classical,
    {
        MethodCategory::Classical
    }

    fn palette_size(&self, requested: usize) -> (n: usize)
        ensures
            n == if requested < 4 {
                4
            } else {
                requested
            },
    {
        if requested < 4 {
            4
        } else {
            requested
        }
    }
}

/// Four hues a quarter of the wheel apart.
#[derive(Debug, Clone, Copy, PartialEq, Eq, Structural)]
pub struct Square;

impl PaletteMethod for Square {
    fn id(&self) -> (res: &'static str)
        ensures
            res@ == "square"@,
    {
        "square"
    }

    fn name(&self) -> (res: &'static str)
        ensures
            res@ == "Square"@,
    {
        "Square"
    }

    fn category(&self) -> (res: MethodCategory)
        ensures
            res == MethodCategory::Classical,
    {
        MethodCategory::Classical
    }

    fn palette_size(&self, requested: usize) -> (n: usize)
        ensures
            n == if requested < 4 {
                4
            } else {
                requested
            },
    {
        if requested < 4 {
            4
        } else {
            requested
        }
    }
}

/// Steps of relative luminance at the seed hue.
#[derive(Debug, Clone, Copy, PartialEq, Eq, Structural)]
pub struct LuminanceRamp;

impl PaletteMethod for LuminanceRamp {
    fn id(&self) -> (res: &'static str)
        ensures
            res@ == "luminance-ramp"@,
    {
        "luminance-ramp"
    }

    fn name(&self) -> (res: &'static str)
        ensures
            res@ == "Perceptual Luminance Ramp"@,
    {
        "Perceptual Luminance Ramp"
    }

    fn category(&self) -> (res: MethodCategory)
        ensures
            res == MethodCategory::Perceptual,
    {
        MethodCategory::Perceptual
    }

    fn palette_size(&self, requested: usize) -> (n: usize)
        ensures
            n == if requested < 2 {
                2
            } else {
                requested
            },
    {
        if requested < 2 {
            2
        } else {
            requested
        }
    }
}

/// A dark and a light tone of the seed hue, alternating.
#[derive(Debug, Clone, Copy, PartialEq, Eq, Structural)]
pub struct ContrastFirst;

impl PaletteMethod for ContrastFirst {
    fn id(&self) -> (res: &'static str)
        ensures
            res@ == "contrast-first"@,
    {
        "contrast-first"
    }

    fn name(&self) -> (res: &'static str)
        ensures
            res@ == "Contrast-First"@,
    {
        "Contrast-First"
    }

    fn category(&self) -> (res: MethodCategory)
        ensures
            res == MethodCategory::Accessibility,
    {
        MethodCategory::Accessibility
    }

    fn palette_size(&self, requested: usize) -> (n: usize)
        ensures
            n == if requested < 2 {
                2
            } else {
                requested
            },
    {
        if requested < 2 {
            2
        } else {
            requested
        }
    }
}

/// Hues stepped by the golden angle from the seed hue.
#[derive(Debug, Clone, Copy, PartialEq, Eq, Structural)]
pub struct GoldenAngle;

impl PaletteMethod for GoldenAngle {
    fn id(&self) -> (res: &'static str)
        ensures
            res@ == "golden-angle"@,
    {
        "golden-angle"
    }

    fn name(&self) -> (res: &'static str)
        ensures
            res@ == "Golden Angle Sequence"@,
    {
        "Golden Angle Sequence"
    }

    fn category(&self) -> (res: MethodCategory)
        ensures
            res == MethodCategory::Advanced,
    {
        MethodCategory::Advanced
    }

    fn palette_size(&self, requested: usize) -> (n: usize)
        ensures
            n == if requested < 2 {
                2
            } else {
                requested
            },
    {
        if requested < 2 {
            2
        } else {
            requested
        }
    }
}

/// A cubehelix ramp from dark to light.
#[derive(Debug, Clone, Copy, PartialEq, Eq, Structural)]
pub struct Cubehelix;

impl PaletteMethod for Cubehelix {
    fn id(&self) -> (res: &'static str)
        ensures
            res@ == "cubehelix"@,
    {
        "cubehelix"
    }

    fn name(&self) -> (res: &'static str)
        ensures
            res@ == "Cubehelix"@,
    {
        "Cubehelix"
    }

    fn category(&self) -> (res: MethodCategory)
        ensures
            res == MethodCategory::Advanced,
    {
        MethodCategory::Advanced
    }

    fn palette_size(&self, requested: usize) -> (n: usize)
        ensures
            n == if requested < 2 {
                2
            } else {
                requested
            },
    {
        if requested < 2 {
            2
        } else {
            requested
        }
    }
}

/// Steps of OKLCH lightness at the seed hue and chroma.
#[derive(Debug, Clone, Copy, PartialEq, Eq, Structural)]
pub struct OklchRamp;

impl PaletteMethod for OklchRamp {
    fn id(&self) -> (res: &'static str)
        ensures
            res@ == "oklch-ramp"@,
    {
        "oklch-ramp"
    }

    fn name(&self) -> (res: &'static str)
        ensures
            res@ == "OKLCH Ramp"@,
    {
        "OKLCH Ramp"
    }

    fn category(&self) -> (res: MethodCategory)
        ensures
            res == MethodCategory::Perceptual,
    {
        MethodCategory::Perceptual
    }

    fn palette_size(&self, requested: usize) -> (n: usize)
        ensures
            n == if requested < 2 {
                2
            } else {
                requested
            },
    {
        if requested < 2 {
            2
        } else {
            requested
        }
    }
}

/// Colours spaced by a target DeltaE distance in Lab.
#[derive(Debug, Clone, Copy, PartialEq, Eq, Structural)]
pub struct LabDeltaESpaced;

impl PaletteMethod for LabDeltaESpaced {
    fn id(&self) -> (res: &'static str)
        ensures
            res@ == "lab-deltae-spaced"@,
    {
        "lab-deltae-spaced"
    }

    fn name(&self) -> (res: &'static str)
        ensures
            res@ == "Lab DeltaE-Spaced"@,
    {
        "Lab DeltaE-Spaced"
    }

    fn category(&self) -> (res: MethodCategory)
        ensures
            res == MethodCategory::Perceptual,
    {
        MethodCategory::Perceptual
    }

    fn palette_size(&self, requested: usize) -> (n: usize)
        ensures
            n == if requested < 2 {
                2
            } else {
                requested
            },
    {
        if requested < 2 {
            2
        } else {
            requested
        }
    }
}

/// The seed hue alternating with its complement on the red-yellow-blue wheel.
#[derive(Debug, Clone, Copy, PartialEq, Eq, Structural)]
pub struct RybComplementary;

impl PaletteMethod for RybComplementary {
    fn id(&self) -> (res: &'static str)
        ensures
            res@ == "ryb-complementary"@,
    {
        "ryb-complementary"
    }

    fn name(&self) -> (res: &'static str)
        ensures
            res@ == "RYB Complementary"@,
    {
        "RYB Complementary"
    }

    fn category(&self) -> (res: MethodCategory)
        ensures
            res == MethodCategory::Advanced,
    {
        MethodCategory::Advanced
    }

    fn palette_size(&self, requested: usize) -> (n: usize)
        ensures
            n == if requested < 2 {
                2
            } else {
                requested
            },
    {
        if requested < 2 {
            2
        } else {
            requested
        }
    }
}

/// Hues spread apart by annealing their smallest DeltaE distance.
#[derive(Debug, Clone, Copy, PartialEq, Eq, Structural)]
pub struct AnnealedDeltaE;

impl PaletteMethod for AnnealedDeltaE {
    fn id(&self) -> (res: &'static str)
        ensures
            res@ == "annealed-deltae"@,
    {
        "annealed-deltae"
    }

    fn name(&self) -> (res: &'static str)
        ensures
            res@ == "Annealed DeltaE Spacing"@,
    {
        "Annealed DeltaE Spacing"
    }

    fn category(&self) -> (res: MethodCategory)
        ensures
            res == MethodCategory::Advanced,
    {
        MethodCategory::Advanced
    }

    fn palette_size(&self, requested: usize) -> (n: usize)
        ensures
            n == if requested < 2 {
                2
            } else {
                requested
            },
    {
        if requested < 2 {
            2
        } else {
            requested
        }
    }
}

/// Categorical colours kept apart under simulated colour vision deficiency.
#[derive(Debug, Clone, Copy, PartialEq, Eq, Structural)]
pub struct CvdSafeCategorical;

impl PaletteMethod for CvdSafeCategorical {
    fn id(&self) -> (res: &'static str)
        ensures
            res@ == "cvd-safe-categorical"@,
    {
        "cvd-safe-categorical"
    }

    fn name(&self) -> (res: &'static str)
        ensures
            res@ == "CVD-Safe Categorical"@,
    {
        "CVD-Safe Categorical"
    }

    fn category(&self) -> (res: MethodCategory)
        ensures
            res == MethodCategory::Accessibility,
    {
        MethodCategory::Accessibility
    }

    fn palette_size(&self, requested: usize) -> (n: usize)
        ensures
            n == if requested < 2 {
                2
            } else {
                requested
            },
    {
        if requested < 2 {
            2
        } else {
            requested
        }
    }
}

/// `id` is an identifier that the generator behind the built-in method `m`
/// may return.
pub open spec fn generator_id_is(m: BuiltinMethod, id: &'static str) -> bool {
    match m {
        BuiltinMethod::Monochrome => call_ensures(<Monochrome as PaletteMethod>::id, (&Monochrome,), id),
        BuiltinMethod::Complementary => call_ensures(<Complementary as PaletteMethod>::id, (&Complementary,), id),
        BuiltinMethod::Analogous => call_ensures(<Analogous as PaletteMethod>::id, (&Analogous,), id),
        BuiltinMethod::SplitComplementary => call_ensures(<SplitComplementary as PaletteMethod>::id, (&SplitComplementary,), id),
        BuiltinMethod::Triadic => call_ensures(<Triadic as PaletteMethod>::id, (&Triadic,), id),
        BuiltinMethod::Tetradic => call_ensures(<Tetradic as PaletteMethod>::id, (&Tetradic,), id),
        BuiltinMethod::Square => call_ensures(<Square as PaletteMethod>::id, (&Square,), id),
        BuiltinMethod::LuminanceRamp => call_ensures(<LuminanceRamp as PaletteMethod>::id, (&LuminanceRamp,), id),
        BuiltinMethod::ContrastFirst => call_ensures(<ContrastFirst as PaletteMethod>::id, (&ContrastFirst,), id),
        BuiltinMethod::GoldenAngle => call_ensures(<GoldenAngle as PaletteMethod>::id, (&GoldenAngle,), id),
        BuiltinMethod::Cubehelix => call_ensures(<Cubehelix as PaletteMethod>::id, (&Cubehelix,), id),
        BuiltinMethod::OklchRamp => call_ensures(<OklchRamp as PaletteMethod>::id, (&OklchRamp,), id),
        BuiltinMethod::LabDeltaESpaced => call_ensures(<LabDeltaESpaced as PaletteMethod>::id, (&LabDeltaESpaced,), id),
        BuiltinMethod::RybComplementary => call_ensures(<RybComplementary as PaletteMethod>::id, (&RybComplementary,), id),
        BuiltinMethod::AnnealedDeltaE => call_ensures(<AnnealedDeltaE as PaletteMethod>::id, (&AnnealedDeltaE,), id),
        BuiltinMethod::CvdSafeCategorical => call_ensures(<CvdSafeCategorical as PaletteMethod>::id, (&CvdSafeCategorical,), id),
    }
}

/// `name` is a name that the generator behind the built-in method `m` may
/// return.
pub open spec fn generator_name_is(m: BuiltinMethod, name: &'static str) -> bool {
    match m {
        BuiltinMethod::Monochrome => call_ensures(<Monochrome as PaletteMethod>::name, (&Monochrome,), name),
        BuiltinMethod::Complementary => call_ensures(<Complementary as PaletteMethod>::name, (&Complementary,), name),
        BuiltinMethod::Analogous => call_ensures(<Analogous as PaletteMethod>::name, (&Analogous,), name),
        BuiltinMethod::SplitComplementary => call_ensures(<SplitComplementary as PaletteMethod>::name, (&SplitComplementary,), name),
        BuiltinMethod::Triadic => call_ensures(<Triadic as PaletteMethod>::name, (&Triadic,), name),
        BuiltinMethod::Tetradic => call_ensures(<Tetradic as PaletteMethod>::name, (&Tetradic,), name),
        BuiltinMethod::Square => call_ensures(<Square as PaletteMethod>::name, (&Square,), name),
        BuiltinMethod::LuminanceRamp => call_ensures(<LuminanceRamp as PaletteMethod>::name, (&LuminanceRamp,), name),
        BuiltinMethod::ContrastFirst => call_ensures(<ContrastFirst as PaletteMethod>::name, (&ContrastFirst,), name),
        BuiltinMethod::GoldenAngle => call_ensures(<GoldenAngle as PaletteMethod>::name, (&GoldenAngle,), name),
        BuiltinMethod::Cubehelix => call_ensures(<Cubehelix as PaletteMethod>::name, (&Cubehelix,), name),
        BuiltinMethod::OklchRamp => call_ensures(<OklchRamp as PaletteMethod>::name, (&OklchRamp,), name),
        BuiltinMethod::LabDeltaESpaced => call_ensures(<LabDeltaESpaced as PaletteMethod>::name, (&LabDeltaESpaced,), name),
        BuiltinMethod::RybComplementary => call_ensures(<RybComplementary as PaletteMethod>::name, (&RybComplementary,), name),
        BuiltinMethod::AnnealedDeltaE => call_ensures(<AnnealedDeltaE as PaletteMethod>::name, (&AnnealedDeltaE,), name),
        BuiltinMethod::CvdSafeCategorical => call_ensures(<CvdSafeCategorical as PaletteMethod>::name, (&CvdSafeCategorical,), name),
    }
}

/// `category` is a category that the generator behind the built-in method
/// `m` may return.
pub open spec fn generator_category_is(m: BuiltinMethod, category: MethodCategory) -> bool {
    match m {
        BuiltinMethod::Monochrome => call_ensures(<Monochrome as PaletteMethod>::category, (&Monochrome,), category),
        BuiltinMethod::Complementary => call_ensures(<Complementary as PaletteMethod>::category, (&Complementary,), category),
        BuiltinMethod::Analogous => call_ensures(<Analogous as PaletteMethod>::category, (&Analogous,), category),
        BuiltinMethod::SplitComplementary => call_ensures(<SplitComplementary as PaletteMethod>::category, (&SplitComplementary,), category),
        BuiltinMethod::Triadic => call_ensures(<Triadic as PaletteMethod>::category, (&Triadic,), category),
        BuiltinMethod::Tetradic => call_ensures(<Tetradic as PaletteMethod>::category, (&Tetradic,), category),
        BuiltinMethod::Square => call_ensures(<Square as PaletteMethod>::category, (&Square,), category),
        BuiltinMethod::LuminanceRamp => call_ensures(<LuminanceRamp as PaletteMethod>::category, (&LuminanceRamp,), category),
        BuiltinMethod::ContrastFirst => call_ensures(<ContrastFirst as PaletteMethod>::category, (&ContrastFirst,), category),
        BuiltinMethod::GoldenAngle => call_ensures(<GoldenAngle as PaletteMethod>::category, (&GoldenAngle,), category),
        BuiltinMethod::Cubehelix => call_ensures(<Cubehelix as PaletteMethod>::category, (&Cubehelix,), category),
        BuiltinMethod::OklchRamp => call_ensures(<OklchRamp as PaletteMethod>::category, (&OklchRamp,), category),
        BuiltinMethod::LabDeltaESpaced => call_ensures(<LabDeltaESpaced as PaletteMethod>::category, (&LabDeltaESpaced,), category),
        BuiltinMethod::RybComplementary => call_ensures(<RybComplementary as PaletteMethod>::category, (&RybComplementary,), category),
        BuiltinMethod::AnnealedDeltaE => call_ensures(<AnnealedDeltaE as PaletteMethod>::category, (&AnnealedDeltaE,), category),
        BuiltinMethod::CvdSafeCategorical => call_ensures(<CvdSafeCategorical as PaletteMethod>::category, (&CvdSafeCategorical,), category),
    }
}

/// `n` is a palette size that the generator behind the built-in method `m`
/// may return for a request of `requested` colours.
pub open spec fn generator_palette_size_is(m: BuiltinMethod, requested: usize, n: usize) -> bool {
    match m {
        BuiltinMethod::Monochrome => call_ensures(<Monochrome as PaletteMethod>::palette_size, (&Monochrome, requested), n),
        BuiltinMethod::Complementary => call_ensures(<Complementary as PaletteMethod>::palette_size, (&Complementary, requested), n),
        BuiltinMethod::Analogous => call_ensures(<Analogous as PaletteMethod>::palette_size, (&Analogous, requested), n),
        BuiltinMethod::SplitComplementary => call_ensures(<SplitComplementary as PaletteMethod>::palette_size, (&SplitComplementary, requested), n),
        BuiltinMethod::Triadic => call_ensures(<Triadic as PaletteMethod>::palette_size, (&Triadic, requested), n),
        BuiltinMethod::Tetradic => call_ensures(<Tetradic as PaletteMethod>::palette_size, (&Tetradic, requested), n),
        BuiltinMethod::Square => call_ensures(<Square as PaletteMethod>::palette_size, (&Square, requested), n),
        BuiltinMethod::LuminanceRamp => call_ensures(<LuminanceRamp as PaletteMethod>::palette_size, (&LuminanceRamp, requested), n),
        BuiltinMethod::ContrastFirst => call_ensures(<ContrastFirst as PaletteMethod>::palette_size, (&ContrastFirst, requested), n),
        BuiltinMethod::GoldenAngle => call_ensures(<GoldenAngle as PaletteMethod>::palette_size, (&GoldenAngle, requested), n),
        BuiltinMethod::Cubehelix => call_ensures(<Cubehelix as PaletteMethod>::palette_size, (&Cubehelix, requested), n),
        BuiltinMethod::OklchRamp => call_ensures(<OklchRamp as PaletteMethod>::palette_size, (&OklchRamp, requested), n),
        BuiltinMethod::LabDeltaESpaced => call_ensures(<LabDeltaESpaced as PaletteMethod>::palette_size, (&LabDeltaESpaced, requested), n),
        BuiltinMethod::RybComplementary => call_ensures(<RybComplementary as PaletteMethod>::palette_size, (&RybComplementary, requested), n),
        BuiltinMethod::AnnealedDeltaE => call_ensures(<AnnealedDeltaE as PaletteMethod>::palette_size, (&AnnealedDeltaE, requested), n),
        BuiltinMethod::CvdSafeCategorical => call_ensures(<CvdSafeCategorical as PaletteMethod>::palette_size, (&CvdSafeCategorical, requested), n),
    }
}

} // verus!
