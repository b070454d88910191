use rustycolour_core::generators::{
    Analogous, AnnealedDeltaE, CvdSafeCategorical, LabDeltaESpaced, Monochrome, OklchRamp,
    RybComplementary, Square, Tetradic,
};
use rustycolour_core::method::{CvdMode, DeltaEMetric, MethodCategory, PaletteMethod};
use rustycolour_core::registry::{BuiltinMethod, MethodRegistry};

#[test]
fn builtin_registry_lists_every_method_in_order() {
    let registry = MethodRegistry::with_builtins();
    let ids: Vec<&str> = registry.methods().iter().map(|m| m.id()).collect();
    assert_eq!(
        ids,
        vec![
            "monochrome",
            "complementary",
            "analogous",
            "split-complementary",
            "triadic",
            "tetradic",
            "square",
            "luminance-ramp",
            "contrast-first",
            "golden-angle",
            "cubehelix",
            "oklch-ramp",
            "lab-deltae-spaced",
            "ryb-complementary",
            "annealed-deltae",
            "cvd-safe-categorical",
        ]
    );
}

#[test]
fn builtin_metadata() {
    let registry = MethodRegistry::with_builtins();
    let names: Vec<&str> = registry.methods().iter().map(|m| m.name()).collect();
    assert_eq!(names[3], "Split Complementary");
    assert_eq!(names[7], "Perceptual Luminance Ramp");
    assert_eq!(names[8], "Contrast-First");
    assert_eq!(names[9], "Golden Angle Sequence");
    assert_eq!(BuiltinMethod::LuminanceRamp.category(), MethodCategory::Perceptual);
    assert_eq!(BuiltinMethod::ContrastFirst.category(), MethodCategory::Accessibility);
    assert_eq!(BuiltinMethod::Cubehelix.category(), MethodCategory::Advanced);
    assert_eq!(BuiltinMethod::Square.category(), MethodCategory::Classical);
}

#[test]
fn lookup_by_id_finds_each_builtin() {
    let registry = MethodRegistry::with_builtins();
    for method in registry.methods() {
        assert_eq!(registry.method_by_id(method.id()), Some(*method));
    }
}

#[test]
fn lookup_by_unknown_id_finds_nothing() {
    let registry = MethodRegistry::with_builtins();
    assert_eq!(registry.method_by_id("ryb-triad"), None);
    assert_eq!(registry.method_by_id(""), None);
    assert_eq!(registry.method_by_id("Monochrome"), None);
}

#[test]
fn palette_size_raises_to_method_minimum() {
    assert_eq!(Monochrome.palette_size(0), 2);
    assert_eq!(Monochrome.palette_size(5), 5);
    assert_eq!(Analogous.palette_size(1), 3);
    assert_eq!(Tetradic.palette_size(3), 4);
    assert_eq!(Square.palette_size(24), 24);
    assert_eq!(BuiltinMethod::Triadic.palette_size(2), 3);
}

#[test]
fn enum_defaults() {
    assert_eq!(DeltaEMetric::default(), DeltaEMetric::E76);
    assert_eq!(CvdMode::default(), CvdMode::Deuteranopia);
}

#[test]
fn registry_methods_have_distinct_ids() {
    let registry = MethodRegistry::with_builtins();
    let ids: Vec<&str> = registry.methods().iter().map(|m| m.id()).collect();
    assert_eq!(ids.len(), 16);
    for i in 0..ids.len() {
        for j in (i + 1)..ids.len() {
            assert_ne!(ids[i], ids[j]);
        }
    }
}

#[test]
fn perceptual_and_advanced_methods_metadata() {
    assert_eq!(OklchRamp.id(), "oklch-ramp");
    assert_eq!(OklchRamp.name(), "OKLCH Ramp");
    assert_eq!(OklchRamp.category(), MethodCategory::Perceptual);
    assert_eq!(LabDeltaESpaced.id(), "lab-deltae-spaced");
    assert_eq!(LabDeltaESpaced.name(), "Lab DeltaE-Spaced");
    assert_eq!(LabDeltaESpaced.category(), MethodCategory::Perceptual);
    assert_eq!(RybComplementary.id(), "ryb-complementary");
    assert_eq!(RybComplementary.name(), "RYB Complementary");
    assert_eq!(RybComplementary.category(), MethodCategory::Advanced);
    assert_eq!(AnnealedDeltaE.id(), "annealed-deltae");
    assert_eq!(AnnealedDeltaE.name(), "Annealed DeltaE Spacing");
    assert_eq!(AnnealedDeltaE.category(), MethodCategory::Advanced);
    assert_eq!(CvdSafeCategorical.id(), "cvd-safe-categorical");
    assert_eq!(CvdSafeCategorical.name(), "CVD-Safe Categorical");
    assert_eq!(CvdSafeCategorical.category(), MethodCategory::Accessibility);
}

#[test]
fn new_methods_palette_size_minimum() {
    assert_eq!(OklchRamp.palette_size(0), 2);
    assert_eq!(LabDeltaESpaced.palette_size(1), 2);
    assert_eq!(RybComplementary.palette_size(7), 7);
    assert_eq!(AnnealedDeltaE.palette_size(2), 2);
    assert_eq!(CvdSafeCategorical.palette_size(0), 2);
    assert_eq!(BuiltinMethod::CvdSafeCategorical.palette_size(9), 9);
}

#[test]
fn lookup_finds_new_methods() {
    let registry = MethodRegistry::with_builtins();
    assert_eq!(registry.method_by_id("oklch-ramp"), Some(BuiltinMethod::OklchRamp));
    assert_eq!(
        registry.method_by_id("cvd-safe-categorical"),
        Some(BuiltinMethod::CvdSafeCategorical)
    );
    assert_eq!(
        registry.method_by_id("annealed-deltae"),
        Some(BuiltinMethod::AnnealedDeltaE)
    );
}
