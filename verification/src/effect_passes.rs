//! The render passes of a layer's effect chain. Effects that read
//! neighbouring pixels run as ordered passes over three scratch textures;
//! the plan says, for each pass, which texture it reads, which holds the
//! effect's input, and which it writes.
use vstd::prelude::*;

verus! {

/// The kinds of visual effect.
#[derive(Debug, Clone, Copy, PartialEq, Eq, Structural)]
pub enum EffectKind {
    Fade,
    Monochrome,
    ColorCorrection,
    ExtendedColorSettings,
    LuminanceKey,
    ColorKey,
    ChromaKey,
    SpecificColorRange,
    Gradient,
    Flash,
    Noise,
    Vignette,
    Light,
    Mask,
    DiagonalClipping,
    Raster,
    Sharpen,
    Emboss,
    EdgeDetection,
    Blur,
    BorderBlur,
    DirectionalBlur,
    RadialBlur,
    MotionBlur,
    LensBlur,
    Border,
    DiffuseLight,
    Emission,
    Shadow,
    Glow,
    DropShadow,
    ChromaticAberration,
    ImageLoop,
    Mirror,
    Mosaic,
    PolarTransform,
    Ripple,
    Vibration,
    DisplacementMap,
    Glitch,
    PixelSorter,
}

/// The effects that read pixels other than their own and so run as
/// separate render passes.
pub open spec fn sequential(kind: EffectKind) -> bool {
    match kind {
        EffectKind::Sharpen | EffectKind::Emboss | EffectKind::EdgeDetection | EffectKind::Blur
        | EffectKind::BorderBlur | EffectKind::DirectionalBlur | EffectKind::RadialBlur
        | EffectKind::MotionBlur | EffectKind::LensBlur | EffectKind::Border
        | EffectKind::DiffuseLight | EffectKind::Emission | EffectKind::Shadow | EffectKind::Glow
        | EffectKind::DropShadow | EffectKind::ChromaticAberration | EffectKind::ImageLoop
        | EffectKind::Mirror | EffectKind::Mosaic | EffectKind::PolarTransform
        | EffectKind::Ripple | EffectKind::Vibration | EffectKind::DisplacementMap
        | EffectKind::Glitch | EffectKind::PixelSorter => true,
        _ => false,
    }
}

/// The number of passes an effect takes: blur two, border blur three, glow
/// and drop shadow two, every other effect one.
pub open spec fn passes(kind: EffectKind) -> nat {
    match kind {
        EffectKind::Blur => 2,
        EffectKind::BorderBlur => 3,
        EffectKind::Glow | EffectKind::DropShadow => 2,
        _ => 1,
    }
}

impl EffectKind {
    /// Whether the effect runs as separate render passes.
    pub fn requires_sequential_passes(self) -> (r: bool)
        ensures
            r == sequential(self),
    {
        match self {
            EffectKind::Sharpen | EffectKind::Emboss | EffectKind::EdgeDetection
            | EffectKind::Blur | EffectKind::BorderBlur | EffectKind::DirectionalBlur
            | EffectKind::RadialBlur | EffectKind::MotionBlur | EffectKind::LensBlur
            | EffectKind::Border | EffectKind::DiffuseLight | EffectKind::Emission
            | EffectKind::Shadow | EffectKind::Glow | EffectKind::DropShadow
            | EffectKind::ChromaticAberration | EffectKind::ImageLoop | EffectKind::Mirror
            | EffectKind::Mosaic | EffectKind::PolarTransform | EffectKind::Ripple
            | EffectKind::Vibration | EffectKind::DisplacementMap | EffectKind::Glitch
            | EffectKind::PixelSorter => true,
            _ => false,
        }
    }

    /// The number of render passes of the effect.
    pub fn pass_count(self) -> (r: usize)
        ensures
            r == passes(self),
    {
        match self {
            EffectKind::Blur => 2,
            EffectKind::BorderBlur => 3,
            EffectKind::Glow | EffectKind::DropShadow => 2,
            _ => 1,
        }
    }
}

/// Whether any of the effects runs as separate render passes.
pub fn any_sequential(kinds: &[EffectKind]) -> (r: bool)
    ensures
        r == exists|i: int| 0 <= i < kinds@.len() && sequential(#[trigger] kinds@[i]),
{
    let mut i: usize = 0;
    while i < kinds.len()
        invariant
            i <= kinds@.len(),
            forall|k: int| 0 <= k < i ==> !sequential(#[trigger] kinds@[k]),
        decreases kinds@.len() - i,
    {
        if kinds[i].requires_sequential_passes() {
            return true;
        }
        i = i + 1;
    }
    false
}

/// One render pass: the effect and its pass, the texture it reads (`None`
/// for the layer's source), the texture that holds the effect's input and
/// the texture it writes.
#[derive(Debug, Clone, Copy, PartialEq, Eq, Structural)]
pub struct EffectPassPlan {
    pub effect_index: usize,
    pub pass_index: usize,
    pub source: Option<usize>,
    pub original: Option<usize>,
    pub destination: usize,
}

/// The scratch textures an effect may write: all three but the one that
/// holds its input.
pub open spec fn free_textures(original: Option<usize>) -> Seq<usize> {
    match original {
        Some(o) => if o == 0 {
            seq![1usize, 2usize]
        } else if o == 1 {
            seq![0usize, 2usize]
        } else if o == 2 {
            seq![0usize, 1usize]
        } else {
            seq![0usize, 1usize, 2usize]
        },
        None => seq![0usize, 1usize, 2usize],
    }
}

/// The texture pass `pass` of an effect writes: the free textures in turn.
pub open spec fn pass_destination(original: Option<usize>, pass: int) -> usize {
    free_textures(original)[pass % (free_textures(original).len() as int)]
}

/// The first `count` passes of the effect at `effect` whose input is in
/// `original`.
pub open spec fn effect_passes(effect: int, count: int, original: Option<usize>) -> Seq<
    EffectPassPlan,
>
    decreases count,
{
    if count <= 0 {
        seq![]
    } else {
        effect_passes(effect, count - 1, original).push(
            EffectPassPlan {
                effect_index: effect as usize,
                pass_index: (count - 1) as usize,
                source: if count == 1 {
                    original
                } else {
                    Some(pass_destination(original, count - 2))
                },
                original,
                destination: pass_destination(original, count - 1),
            },
        )
    }
}

/// The texture that holds the result of the effects: none before any pass.
pub open spec fn chain_output(kinds: Seq<EffectKind>) -> Option<usize>
    decreases kinds.len(),
{
    if kinds.len() == 0 {
        None
    } else {
        Some(pass_destination(chain_output(kinds.drop_last()), passes(kinds.last()) - 1))
    }
}

/// The passes of all the effects, in order; each effect starts from the
/// texture the one before wrote.
pub open spec fn pass_plan(kinds: Seq<EffectKind>) -> Seq<EffectPassPlan>
    decreases kinds.len(),
{
    if kinds.len() == 0 {
        seq![]
    } else {
        pass_plan(kinds.drop_last()) + effect_passes(
            kinds.len() - 1,
            passes(kinds.last()) as int,
            chain_output(kinds.drop_last()),
        )
    }
}

fn free_destinations(original: Option<usize>) -> (r: Vec<usize>)
    ensures
        r@ == free_textures(original),
{
    let v = match original {
        Some(0) => vec![1usize, 2usize],
        Some(1) => vec![0usize, 2usize],
        Some(2) => vec![0usize, 1usize],
        _ => vec![0usize, 1usize, 2usize],
    };
    assert(v@ =~= free_textures(original));
    v
}

/// The render passes of an effect chain.
pub fn effect_pass_plan(kinds: &[EffectKind]) -> (r: Vec<EffectPassPlan>)
    requires
        kinds@.len() < 0x1000_0000,
    ensures
        r@ == pass_plan(kinds@),
{
    let mut plan: Vec<EffectPassPlan> = Vec::new();
    let mut current: Option<usize> = None;
    let mut effect_index: usize = 0;
    while effect_index < kinds.len()
        invariant
            effect_index <= kinds@.len(),
            kinds@.len() < 0x1000_0000,
            plan@ == pass_plan(kinds@.take(effect_index as int)),
            current == chain_output(kinds@.take(effect_index as int)),
        decreases kinds@.len() - effect_index,
    {
        let ghost before = kinds@.take(effect_index as int);
        proof {
            assert(kinds@.take(effect_index + 1).drop_last() =~= before);
        }
        let original = current;
        let destinations = free_destinations(original);
        let count = kinds[effect_index].pass_count();
        let mut pass_index: usize = 0;
        while pass_index < count
            invariant
                pass_index <= count,
                count == passes(kinds@[effect_index as int]),
                destinations@ == free_textures(original),
                plan@ == pass_plan(before) + effect_passes(
                    effect_index as int,
                    pass_index as int,
                    original,
                ),
                pass_index > 0 ==> current == Some(pass_destination(original, pass_index - 1)),
                pass_index == 0 ==> current == original,
            decreases count - pass_index,
        {
            let destination = destinations[pass_index % destinations.len()];
            plan.push(
                EffectPassPlan {
                    effect_index,
                    pass_index,
                    source: current,
                    original,
                    destination,
                },
            );
            current = Some(destination);
            pass_index = pass_index + 1;
            proof {
                assert(plan@ =~= pass_plan(before) + effect_passes(
                    effect_index as int,
                    pass_index as int,
                    original,
                ));
            }
        }
        effect_index = effect_index + 1;
        proof {
            assert(kinds@.take(effect_index as int).last() == kinds@[effect_index - 1]);
        }
    }
    proof {
        assert(kinds@.take(kinds@.len() as int) =~= kinds@);
    }
    plan
}

/// A pass writes one of the three scratch textures, neither the texture it
/// reads nor the one that holds its effect's input.
pub open spec fn writes_free_texture(p: EffectPassPlan) -> bool {
    &&& p.destination < 3
    &&& p.source != Some(p.destination)
    &&& p.original != Some(p.destination)
}

/// The number of passes of all the effects.
pub open spec fn total_passes(kinds: Seq<EffectKind>) -> nat
    decreases kinds.len(),
{
    if kinds.len() == 0 {
        0
    } else {
        total_passes(kinds.drop_last()) + passes(kinds.last())
    }
}

proof fn lemma_effect_passes_write_free(effect: int, count: int, original: Option<usize>)
    requires
        0 <= count <= 3,
    ensures
        effect_passes(effect, count, original).len() == count,
        forall|k: int|
            0 <= k < count ==> writes_free_texture(#[trigger] effect_passes(effect, count, original)[k]),
        forall|k: int|
            0 <= k < count ==> (#[trigger] effect_passes(effect, count, original)[k]).destination
                == pass_destination(original, k),
    decreases count,
{
    if count > 0 {
        lemma_effect_passes_write_free(effect, count - 1, original);
        let prev = effect_passes(effect, count - 1, original);
        let all = effect_passes(effect, count, original);
        assert forall|k: int| 0 <= k < count - 1 implies all[k] == prev[k] by {}
        let free = free_textures(original);
        let d = pass_destination(original, count - 1);
        assert(d < 3 && original != Some(d)) by {
            assert(free.len() == 2 || free.len() == 3);
        }
        if count >= 2 {
            let e = pass_destination(original, count - 2);
            assert(e != d) by {
                if free.len() == 2 {
                    assert((count - 2) % 2 != (count - 1) % 2);
                } else {
                    assert((count - 2) % 3 != (count - 1) % 3);
                }
            }
        }
    }
}

/// Every pass of an effect chain writes one of the three scratch textures,
/// and never the texture it reads or the texture that holds its effect's
/// input; there is one pass per pass of each effect, and the chain's result
/// is in the texture the last pass wrote.
pub proof fn effect_passes_never_overwrite_their_inputs(kinds: Seq<EffectKind>)
    ensures
        pass_plan(kinds).len() == total_passes(kinds),
        forall|k: int|
            0 <= k < pass_plan(kinds).len() ==> writes_free_texture(#[trigger] pass_plan(kinds)[k]),
        kinds.len() > 0 ==> chain_output(kinds) == Some(pass_plan(kinds).last().destination),
    decreases kinds.len(),
{
    if kinds.len() > 0 {
        let rest = kinds.drop_last();
        effect_passes_never_overwrite_their_inputs(rest);
        let count = passes(kinds.last()) as int;
        let before = pass_plan(rest);
        let own = effect_passes(kinds.len() - 1, count, chain_output(rest));
        lemma_effect_passes_write_free(kinds.len() - 1, count, chain_output(rest));
        let all = pass_plan(kinds);
        assert(all == before + own);
        assert forall|k: int| 0 <= k < all.len() implies writes_free_texture(#[trigger] all[k]) by {
            if k < before.len() {
                assert(all[k] == before[k]);
            } else {
                assert(all[k] == own[k - before.len()]);
            }
        }
        assert(all.last() == own[count - 1]);
    }
}

/// Whether the pass counts of prepared passes still fit the effects.
pub fn matches_effects(pass_counts: &[usize], kinds: &[EffectKind]) -> (r: bool)
    ensures
        r == (pass_counts@.len() == kinds@.len() && forall|k: int|
            0 <= k < kinds@.len() ==> pass_counts@[k] == passes(#[trigger] kinds@[k])),
{
    if pass_counts.len() != kinds.len() {
        return false;
    }
    let mut i: usize = 0;
    while i < kinds.len()
        invariant
            i <= kinds@.len(),
            pass_counts@.len() == kinds@.len(),
            forall|k: int| 0 <= k < i ==> pass_counts@[k] == passes(#[trigger] kinds@[k]),
        decreases kinds@.len() - i,
    {
        if pass_counts[i] != kinds[i].pass_count() {
            return false;
        }
        i = i + 1;
    }
    true
}

} // verus!
