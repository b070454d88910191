//! The registry of built-in palette methods.

use vstd::prelude::*;
use crate::generators::{
    Analogous, Complementary, ContrastFirst, Cubehelix, GoldenAngle, LuminanceRamp, Monochrome,
    SplitComplementary, Square, Tetradic, Triadic, OklchRamp, LabDeltaESpaced, RybComplementary,
    AnnealedDeltaE, CvdSafeCategorical, generator_id_is, generator_name_is, generator_category_is,
    generator_palette_size_is,
};
use crate::method::{MethodCategory, PaletteMethod};
use crate::text::chars_of;

verus! {

/// One of the built-in palette methods.
#[derive(Debug, Clone, Copy, PartialEq, Eq, Structural)]
pub enum BuiltinMethod {
    Monochrome,
    Complementary,
    Analogous,
    SplitComplementary,
    Triadic,
    Tetradic,
    Square,
    LuminanceRamp,
    ContrastFirst,
    GoldenAngle,
    Cubehelix,
    OklchRamp,
    LabDeltaESpaced,
    RybComplementary,
    AnnealedDeltaE,
    CvdSafeCategorical,
}

impl BuiltinMethod {
    pub open spec fn spec_id(self) -> Seq<char> {
        match self {
            BuiltinMethod::Monochrome => "monochrome"@,
            BuiltinMethod::Complementary => "complementary"@,
            BuiltinMethod::Analogous => "analogous"@,
            BuiltinMethod::SplitComplementary => "split-complementary"@,
            BuiltinMethod::Triadic => "triadic"@,
            BuiltinMethod::Tetradic => "tetradic"@,
            BuiltinMethod::Square => "square"@,
            BuiltinMethod::LuminanceRamp => "luminance-ramp"@,
            BuiltinMethod::ContrastFirst => "contrast-first"@,
            BuiltinMethod::GoldenAngle => "golden-angle"@,
            BuiltinMethod::Cubehelix => "cubehelix"@,
            BuiltinMethod::OklchRamp => "oklch-ramp"@,
            BuiltinMethod::LabDeltaESpaced => "lab-deltae-spaced"@,
            BuiltinMethod::RybComplementary => "ryb-complementary"@,
            BuiltinMethod::AnnealedDeltaE => "annealed-deltae"@,
            BuiltinMethod::CvdSafeCategorical => "cvd-safe-categorical"@,
        }
    }

    pub open spec fn spec_name(self) -> Seq<char> {
        match self {
            BuiltinMethod::Monochrome => "Monochrome"@,
            BuiltinMethod::Complementary => "Complementary"@,
            BuiltinMethod::Analogous => "Analogous"@,
            BuiltinMethod::SplitComplementary => "Split Complementary"@,
            BuiltinMethod::Triadic => "Triadic"@,
            BuiltinMethod::Tetradic => "Tetradic"@,
            BuiltinMethod::Square => "Square"@,
            BuiltinMethod::LuminanceRamp => "Perceptual Luminance Ramp"@,
            BuiltinMethod::ContrastFirst => "Contrast-First"@,
            BuiltinMethod::GoldenAngle => "Golden Angle Sequence"@,
            BuiltinMethod::Cubehelix => "Cubehelix"@,
            BuiltinMethod::OklchRamp => "OKLCH Ramp"@,
            BuiltinMethod::LabDeltaESpaced => "Lab DeltaE-Spaced"@,
            BuiltinMethod::RybComplementary => "RYB Complementary"@,
            BuiltinMethod::AnnealedDeltaE => "Annealed DeltaE Spacing"@,
            BuiltinMethod::CvdSafeCategorical => "CVD-Safe Categorical"@,
        }
    }

    pub open spec fn spec_category(self) -> MethodCategory {
        match self {
            BuiltinMethod::Monochrome => MethodCategory::Classical,
            BuiltinMethod::Complementary => MethodCategory::Classical,
            BuiltinMethod::Analogous => MethodCategory::Classical,
            BuiltinMethod::SplitComplementary => MethodCategory::Classical,
            BuiltinMethod::Triadic => MethodCategory::Classical,
            BuiltinMethod::Tetradic => MethodCategory::Classical,
            BuiltinMethod::Square => MethodCategory::Classical,
            BuiltinMethod::LuminanceRamp => MethodCategory::Perceptual,
            BuiltinMethod::ContrastFirst => MethodCategory::Accessibility,
            BuiltinMethod::GoldenAngle => MethodCategory::Advanced,
            BuiltinMethod::Cubehelix => MethodCategory::Advanced,
            BuiltinMethod::OklchRamp => MethodCategory::Perceptual,
            BuiltinMethod::LabDeltaESpaced => MethodCategory::Perceptual,
            BuiltinMethod::RybComplementary => MethodCategory::Advanced,
            BuiltinMethod::AnnealedDeltaE => MethodCategory::Advanced,
            BuiltinMethod::CvdSafeCategorical => MethodCategory::Accessibility,
        }
    }

    /// The smallest palette the method makes.
    pub open spec fn spec_min_size(self) -> nat {
        match self {
            BuiltinMethod::Monochrome => 2,
            BuiltinMethod::Complementary => 2,
            BuiltinMethod::Analogous => 3,
            BuiltinMethod::SplitComplementary => 3,
            BuiltinMethod::Triadic => 3,
            BuiltinMethod::Tetradic => 4,
            BuiltinMethod::Square => 4,
            BuiltinMethod::LuminanceRamp => 2,
            BuiltinMethod::ContrastFirst => 2,
            BuiltinMethod::GoldenAngle => 2,
            BuiltinMethod::Cubehelix => 2,
            BuiltinMethod::OklchRamp => 2,
            BuiltinMethod::LabDeltaESpaced => 2,
            BuiltinMethod::RybComplementary => 2,
            BuiltinMethod::AnnealedDeltaE => 2,
            BuiltinMethod::CvdSafeCategorical => 2,
        }
    }
}

impl PaletteMethod for BuiltinMethod {
    fn id(&self) -> (res: &'static str)
        ensures
            res@ == self.spec_id(),
    {
        match self {
            BuiltinMethod::Monochrome => Monochrome.id(),
            BuiltinMethod::Complementary => Complementary.id(),
            BuiltinMethod::Analogous => Analogous.id(),
            BuiltinMethod::SplitComplementary => SplitComplementary.id(),
            BuiltinMethod::Triadic => Triadic.id(),
            BuiltinMethod::Tetradic => Tetradic.id(),
            BuiltinMethod::Square => Square.id(),
            BuiltinMethod::LuminanceRamp => LuminanceRamp.id(),
            BuiltinMethod::ContrastFirst => ContrastFirst.id(),
            BuiltinMethod::GoldenAngle => GoldenAngle.id(),
            BuiltinMethod::Cubehelix => Cubehelix.id(),
            BuiltinMethod::OklchRamp => OklchRamp.id(),
            BuiltinMethod::LabDeltaESpaced => LabDeltaESpaced.id(),
            BuiltinMethod::RybComplementary => RybComplementary.id(),
            BuiltinMethod::AnnealedDeltaE => AnnealedDeltaE.id(),
            BuiltinMethod::CvdSafeCategorical => CvdSafeCategorical.id(),
        }
    }

    fn name(&self) -> (res: &'static str)
        ensures
            res@ == self.spec_name(),
    {
        match self {
            BuiltinMethod::Monochrome => Monochrome.name(),
            BuiltinMethod::Complementary => Complementary.name(),
            BuiltinMethod::Analogous => Analogous.name(),
            BuiltinMethod::SplitComplementary => SplitComplementary.name(),
            BuiltinMethod::Triadic => Triadic.name(),
            BuiltinMethod::Tetradic => Tetradic.name(),
            BuiltinMethod::Square => Square.name(),
            BuiltinMethod::LuminanceRamp => LuminanceRamp.name(),
            BuiltinMethod::ContrastFirst => ContrastFirst.name(),
            BuiltinMethod::GoldenAngle => GoldenAngle.name(),
            BuiltinMethod::Cubehelix => Cubehelix.name(),
            BuiltinMethod::OklchRamp => OklchRamp.name(),
            BuiltinMethod::LabDeltaESpaced => LabDeltaESpaced.name(),
            BuiltinMethod::RybComplementary => RybComplementary.name(),
            BuiltinMethod::AnnealedDeltaE => AnnealedDeltaE.name(),
            BuiltinMethod::CvdSafeCategorical => CvdSafeCategorical.name(),
        }
    }

    fn category(&self) -> (res: MethodCategory)
        ensures
            res == self.spec_category(),
    {
        match self {
            BuiltinMethod::Monochrome => Monochrome.category(),
            BuiltinMethod::Complementary => Complementary.category(),
            BuiltinMethod::Analogous => Analogous.category(),
            BuiltinMethod::SplitComplementary => SplitComplementary.category(),
            BuiltinMethod::Triadic => Triadic.category(),
            BuiltinMethod::Tetradic => Tetradic.category(),
            BuiltinMethod::Square => Square.category(),
            BuiltinMethod::LuminanceRamp => LuminanceRamp.category(),
            BuiltinMethod::ContrastFirst => ContrastFirst.category(),
            BuiltinMethod::GoldenAngle => GoldenAngle.category(),
            BuiltinMethod::Cubehelix => Cubehelix.category(),
            BuiltinMethod::OklchRamp => OklchRamp.category(),
            BuiltinMethod::LabDeltaESpaced => LabDeltaESpaced.category(),
            BuiltinMethod::RybComplementary => RybComplementary.category(),
            BuiltinMethod::AnnealedDeltaE => AnnealedDeltaE.category(),
            BuiltinMethod::CvdSafeCategorical => CvdSafeCategorical.category(),
        }
    }

    fn palette_size(&self, requested: usize) -> (n: usize)
        ensures
            n == if requested < self.spec_min_size() {
                self.spec_min_size()
            } else {
                requested as nat
            },
    {
        match self {
            BuiltinMethod::Monochrome => Monochrome.palette_size(requested),
            BuiltinMethod::Complementary => Complementary.palette_size(requested),
            BuiltinMethod::Analogous => Analogous.palette_size(requested),
            BuiltinMethod::SplitComplementary => SplitComplementary.palette_size(requested),
            BuiltinMethod::Triadic => Triadic.palette_size(requested),
            BuiltinMethod::Tetradic => Tetradic.palette_size(requested),
            BuiltinMethod::Square => Square.palette_size(requested),
            BuiltinMethod::LuminanceRamp => LuminanceRamp.palette_size(requested),
            BuiltinMethod::ContrastFirst => ContrastFirst.palette_size(requested),
            BuiltinMethod::GoldenAngle => GoldenAngle.palette_size(requested),
            BuiltinMethod::Cubehelix => Cubehelix.palette_size(requested),
            BuiltinMethod::OklchRamp => OklchRamp.palette_size(requested),
            BuiltinMethod::LabDeltaESpaced => LabDeltaESpaced.palette_size(requested),
            BuiltinMethod::RybComplementary => RybComplementary.palette_size(requested),
            BuiltinMethod::AnnealedDeltaE => AnnealedDeltaE.palette_size(requested),
            BuiltinMethod::CvdSafeCategorical => CvdSafeCategorical.palette_size(requested),
        }
    }
}

/// The built-in methods, in registry order.
pub open spec fn builtin_methods() -> Seq<BuiltinMethod> {
    seq![
        BuiltinMethod::Monochrome,
        BuiltinMethod::Complementary,
        BuiltinMethod::Analogous,
        BuiltinMethod::SplitComplementary,
        BuiltinMethod::Triadic,
        BuiltinMethod::Tetradic,
        BuiltinMethod::Square,
        BuiltinMethod::LuminanceRamp,
        BuiltinMethod::ContrastFirst,
        BuiltinMethod::GoldenAngle,
        BuiltinMethod::Cubehelix,
        BuiltinMethod::OklchRamp,
        BuiltinMethod::LabDeltaESpaced,
        BuiltinMethod::RybComplementary,
        BuiltinMethod::AnnealedDeltaE,
        BuiltinMethod::CvdSafeCategorical,
    ]
}

/// The first method of `ms` whose identifier is `id`.
pub open spec fn first_with_id(ms: Seq<BuiltinMethod>, id: Seq<char>) -> Option<BuiltinMethod>
    decreases ms.len(),
{
    if ms.len() == 0 {
        None
    } else if ms[0].spec_id() == id {
        Some(ms[0])
    } else {
        first_with_id(ms.drop_first(), id)
    }
}

/// The palette methods offered, in order.
pub struct MethodRegistry {
    methods: Vec<BuiltinMethod>,
}

impl View for MethodRegistry {
    type V = Seq<BuiltinMethod>;

    closed spec fn view(&self) -> Seq<BuiltinMethod> {
        self.methods@
    }
}

/// `a == b` on string slices.
fn str_equal(a: &str, b: &str) -> (res: bool)
    ensures
        res == (a@ == b@),
{
    let x = chars_of(a);
    let y = chars_of(b);
    if x.len() != y.len() {
        return false;
    }
    let mut i: usize = 0;
    while i < x.len()
        invariant
            x@ == a@,
            y@ == b@,
            x.len() == y.len(),
            0 <= i <= x.len(),
            forall|j: int| 0 <= j < i ==> x@[j] == y@[j],
        decreases x.len() - i,
    {
        if x[i] != y[i] {
            assert(x@[i as int] != y@[i as int]);
            assert(a@ != b@);
            return false;
        }
        i += 1;
    }
    assert(x@ =~= y@);
    true
}

impl MethodRegistry {
    /// The registry of every built-in method.
    pub fn with_builtins() -> (r: Self)
        ensures
            r@ == builtin_methods(),
    {
        let mut methods: Vec<BuiltinMethod> = Vec::new();
        methods.push(BuiltinMethod::Monochrome);
        methods.push(BuiltinMethod::Complementary);
        methods.push(BuiltinMethod::Analogous);
        methods.push(BuiltinMethod::SplitComplementary);
        methods.push(BuiltinMethod::Triadic);
        methods.push(BuiltinMethod::Tetradic);
        methods.push(BuiltinMethod::Square);
        methods.push(BuiltinMethod::LuminanceRamp);
        methods.push(BuiltinMethod::ContrastFirst);
        methods.push(BuiltinMethod::GoldenAngle);
        methods.push(BuiltinMethod::Cubehelix);
        methods.push(BuiltinMethod::OklchRamp);
        methods.push(BuiltinMethod::LabDeltaESpaced);
        methods.push(BuiltinMethod::RybComplementary);
        methods.push(BuiltinMethod::AnnealedDeltaE);
        methods.push(BuiltinMethod::CvdSafeCategorical);
        assert(methods@ =~= builtin_methods());
        MethodRegistry { methods }
    }

    pub fn methods(&self) -> (res: &[BuiltinMethod])
        ensures
            res@ == self@,
    {
        self.methods.as_slice()
    }

    /// The first registered method with the identifier `id`.
    pub fn method_by_id(&self, id: &str) -> (res: Option<BuiltinMethod>)
        ensures
            res == first_with_id(self@, id@),
    {
        let mut i: usize = 0;
        assert(self.methods@.skip(0) =~= self.methods@);
        while i < self.methods.len()
            invariant
                0 <= i <= self.methods@.len(),
                first_with_id(self.methods@, id@) == first_with_id(
                    self.methods@.skip(i as int),
                    id@,
                ),
            decreases self.methods.len() - i,
        {
            let m = self.methods[i];
            let ghost rest = self.methods@.skip(i as int);
            assert(rest[0] == m);
            assert(rest.drop_first() =~= self.methods@.skip(i + 1));
            if str_equal(m.id(), id) {
                return Some(m);
            }
            i += 1;
        }
        assert(self.methods@.skip(i as int).len() == 0);
        None
    }
}

/// Different built-in methods have different identifiers.
pub proof fn lemma_spec_id_injective(a: BuiltinMethod, b: BuiltinMethod)
    ensures
        a.spec_id() == b.spec_id() ==> a == b,
{
    reveal_strlit("monochrome");
    reveal_strlit("complementary");
    reveal_strlit("analogous");
    reveal_strlit("split-complementary");
    reveal_strlit("triadic");
    reveal_strlit("tetradic");
    reveal_strlit("square");
    reveal_strlit("luminance-ramp");
    reveal_strlit("contrast-first");
    reveal_strlit("golden-angle");
    reveal_strlit("cubehelix");
    reveal_strlit("oklch-ramp");
    reveal_strlit("lab-deltae-spaced");
    reveal_strlit("ryb-complementary");
    reveal_strlit("annealed-deltae");
    reveal_strlit("cvd-safe-categorical");
    if a != b {
        assert(a.spec_id().len() != b.spec_id().len() || a.spec_id()[0] != b.spec_id()[0]);
    }
}

/// Looking up the identifier of a method that occurs in `ms` finds that
/// method, since no other built-in method shares its identifier.
proof fn lemma_first_with_id_finds(ms: Seq<BuiltinMethod>, m: BuiltinMethod)
    requires
        ms.contains(m),
    ensures
        first_with_id(ms, m.spec_id()) == Some(m),
    decreases ms.len(),
{
    if ms[0] != m {
        lemma_spec_id_injective(ms[0], m);
        let k = choose|k: int| 0 <= k < ms.len() && ms[k] == m;
        assert(ms.drop_first()[k - 1] == m);
        lemma_first_with_id_finds(ms.drop_first(), m);
    }
}

/// Registry lookup: in the built-in registry, looking up the identifier of any
/// built-in method finds that method.
pub proof fn builtin_lookup_finds_method(m: BuiltinMethod)
    ensures
        first_with_id(builtin_methods(), m.spec_id()) == Some(m),
{
    broadcast use vstd::seq_lib::group_seq_properties;

    assert(builtin_methods().contains(m));
    lemma_first_with_id_finds(builtin_methods(), m);
}

/// The built-in methods are sixteen distinct methods with pairwise distinct
/// identifiers.
pub proof fn builtin_ids_distinct()
    ensures
        builtin_methods().len() == 16,
        forall|i: int, j: int|
            0 <= i < j < builtin_methods().len() ==> builtin_methods()[i].spec_id()
                != builtin_methods()[j].spec_id(),
{
    let ms = builtin_methods();
    assert forall|i: int, j: int| 0 <= i < j < ms.len() implies ms[i].spec_id() != ms[j].spec_id() by {
        lemma_spec_id_injective(ms[i], ms[j]);
        assert(ms[i] != ms[j]);
    }
}

/// Registry dispatch, identifiers: the identifier the registry reports for a
/// built-in method is the one that the method's own generator reports.
pub proof fn builtin_id_is_generators(m: BuiltinMethod, a: &'static str, b: &'static str)
    requires
        call_ensures(<BuiltinMethod as PaletteMethod>::id, (&m,), a),
        generator_id_is(m, b),
    ensures
        a@ == b@,
{
}

/// Registry dispatch, names: the name the registry reports for a built-in
/// method is the one that the method's own generator reports.
pub proof fn builtin_name_is_generators(m: BuiltinMethod, a: &'static str, b: &'static str)
    requires
        call_ensures(<BuiltinMethod as PaletteMethod>::name, (&m,), a),
        generator_name_is(m, b),
    ensures
        a@ == b@,
{
}

/// Registry dispatch, categories: the category the registry reports for a
/// built-in method is the one that the method's own generator reports.
pub proof fn builtin_category_is_generators(m: BuiltinMethod, a: MethodCategory, b: MethodCategory)
    requires
        call_ensures(<BuiltinMethod as PaletteMethod>::category, (&m,), a),
        generator_category_is(m, b),
    ensures
        a == b,
{
}

/// Registry dispatch, palette sizes: for every request, the palette size the
/// registry reports for a built-in method is the one that the method's own
/// generator reports (the request raised to that generator's minimum).
pub proof fn builtin_palette_size_is_generators(m: BuiltinMethod, requested: usize, a: usize, b: usize)
    requires
        call_ensures(<BuiltinMethod as PaletteMethod>::palette_size, (&m, requested), a),
        generator_palette_size_is(m, requested, b),
    ensures
        a == b,
{
}

/// Different built-in methods have different names.
proof fn lemma_spec_name_injective(a: BuiltinMethod, b: BuiltinMethod)
    ensures
        a.spec_name() == b.spec_name() ==> a == b,
{
    reveal_strlit("Monochrome");
    reveal_strlit("Complementary");
    reveal_strlit("Analogous");
    reveal_strlit("Split Complementary");
    reveal_strlit("Triadic");
    reveal_strlit("Tetradic");
    reveal_strlit("Square");
    reveal_strlit("Perceptual Luminance Ramp");
    reveal_strlit("Contrast-First");
    reveal_strlit("Golden Angle Sequence");
    reveal_strlit("Cubehelix");
    reveal_strlit("OKLCH Ramp");
    reveal_strlit("Lab DeltaE-Spaced");
    reveal_strlit("RYB Complementary");
    reveal_strlit("Annealed DeltaE Spacing");
    reveal_strlit("CVD-Safe Categorical");
    if a != b {
        assert(a.spec_name().len() != b.spec_name().len() || a.spec_name()[0] != b.spec_name()[0]);
    }
}

/// The built-in methods show pairwise distinct names in the method list.
pub proof fn builtin_names_distinct()
    ensures
        forall|i: int, j: int|
            0 <= i < j < builtin_methods().len() ==> builtin_methods()[i].spec_name()
                != builtin_methods()[j].spec_name(),
{
    let ms = builtin_methods();
    assert forall|i: int, j: int| 0 <= i < j < ms.len() implies ms[i].spec_name() != ms[j].spec_name() by {
        lemma_spec_name_injective(ms[i], ms[j]);
        assert(ms[i] != ms[j]);
    }
}

} // verus!
