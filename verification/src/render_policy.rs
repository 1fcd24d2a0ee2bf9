//! The rendering policy of one surface on one output: its material, scale,
//! cadence and animations, all bounded.

use crate::design::{
    glass_recipe, recipe_of, BackdropQuality, GlassRecipe, GlassSurface, MaterialBudget,
    PerformanceProfile,
};
use vstd::prelude::*;

verus! {

/// An output in physical pixels, and its scale in thousandths.
#[derive(Debug, Clone, Copy, PartialEq, Eq, Structural)]
pub struct OutputMetrics {
    pub width: u32,
    pub height: u32,
    pub observed_dpr_milli: u16,
}

/// How often the compositor redraws. It never runs free.
#[derive(Debug, Clone, Copy, PartialEq, Eq, Structural)]
pub enum RedrawCadence {
    VSync,
    VSyncCapped { target_fps: u16 },
}

impl RedrawCadence {
    pub open spec fn fps(self) -> u16 {
        match self {
            RedrawCadence::VSync => 0,
            RedrawCadence::VSyncCapped { target_fps } => target_fps,
        }
    }

    /// The cap on frames in a second; zero where there is none.
    pub fn target_fps(self) -> (fps: u16)
        ensures
            fps == self.fps(),
    {
        match self {
            RedrawCadence::VSync => 0,
            RedrawCadence::VSyncCapped { target_fps } => target_fps,
        }
    }

    /// The time between frames; zero where there is no cap.
    pub fn interval_ms(self) -> (interval: u16)
        ensures
            interval == (if self.fps() == 0 {
                0int
            } else {
                1000int / self.fps() as int
            }),
    {
        let fps: u16 = self.target_fps();
        if fps == 0 {
            0
        } else {
            1000 / fps
        }
    }
}

/// The material that was asked for, and the one that is used, with its cost.
#[derive(Debug, Clone, Copy, PartialEq, Eq, Structural)]
pub struct MaterialDecision {
    pub requested: GlassRecipe,
    pub applied: GlassRecipe,
    pub degraded_to_opaque: bool,
    pub sampled_backdrop_pixels: u64,
    pub estimated_cache_bytes: u64,
}

#[derive(Debug, Clone, Copy, PartialEq, Eq, Structural)]
pub struct RenderPolicy {
    pub profile: PerformanceProfile,
    pub budget: MaterialBudget,
    pub dpr_milli: u16,
    pub cadence: RedrawCadence,
    pub animation_cap_ms: u16,
    pub material: MaterialDecision,
}

/// The material within a budget: the requested one where it fits, and the
/// opaque one where it does not.
pub open spec fn applied_recipe(
    profile: PerformanceProfile,
    reduce_transparency: bool,
    output: OutputMetrics,
    surface: GlassSurface,
    active: u8,
) -> GlassRecipe {
    let requested = recipe_of(profile, reduce_transparency, surface);
    if MaterialBudget::of_profile(profile).allows(requested, output.width, output.height, active) {
        requested
    } else {
        recipe_of(profile, true, surface)
    }
}

pub open spec fn cadence_of(budget: MaterialBudget) -> RedrawCadence {
    if budget.target_fps >= 60 {
        RedrawCadence::VSync
    } else {
        RedrawCadence::VSyncCapped { target_fps: budget.target_fps }
    }
}

impl RenderPolicy {
    /// The policy of one surface.
    pub open spec fn resolved(
        profile: PerformanceProfile,
        reduce_transparency: bool,
        output: OutputMetrics,
        surface: GlassSurface,
        active: u8,
    ) -> Self {
        let budget = MaterialBudget::of_profile(profile);
        let requested = recipe_of(profile, reduce_transparency, surface);
        let applied = applied_recipe(profile, reduce_transparency, output, surface, active);
        RenderPolicy {
            profile,
            budget,
            dpr_milli: budget.dpr_within(output.observed_dpr_milli),
            cadence: cadence_of(budget),
            animation_cap_ms: budget.max_animation_ms,
            material: MaterialDecision {
                requested,
                applied,
                degraded_to_opaque: applied != requested,
                sampled_backdrop_pixels: applied.backdrop.samples(
                    output.width,
                    output.height,
                ) as u64,
                estimated_cache_bytes: applied.cache(output.width, output.height) as u64,
            },
        }
    }

    /// Resolves the policy of one surface.
    pub fn for_output(
        profile: PerformanceProfile,
        reduce_transparency: bool,
        output: OutputMetrics,
        surface: GlassSurface,
        active_glass_surfaces: u8,
    ) -> (policy: Self)
        ensures
            policy == Self::resolved(
                profile,
                reduce_transparency,
                output,
                surface,
                active_glass_surfaces,
            ),
    {
        let budget = MaterialBudget::for_profile(profile);
        let requested = glass_recipe(profile, reduce_transparency, surface);
        let fits = budget.allows_backdrop(
            requested,
            output.width,
            output.height,
            active_glass_surfaces,
        );
        let applied = if fits {
            requested
        } else {
            glass_recipe(profile, true, surface)
        };
        RenderPolicy {
            profile,
            budget,
            dpr_milli: budget.clamp_dpr_milli(output.observed_dpr_milli),
            cadence: if budget.target_fps >= 60 {
                RedrawCadence::VSync
            } else {
                RedrawCadence::VSyncCapped { target_fps: budget.target_fps }
            },
            animation_cap_ms: budget.max_animation_ms,
            material: MaterialDecision {
                requested,
                applied,
                degraded_to_opaque: applied != requested,
                sampled_backdrop_pixels: applied.backdrop.sampled_pixels(
                    output.width,
                    output.height,
                ),
                estimated_cache_bytes: applied.estimated_cache_bytes(output.width, output.height),
            },
        }
    }

    /// Whether a frame is asked for: only for what is visible, and only for
    /// damage or an animation that the profile allows.
    pub open spec fn redraws(self, visible: bool, damaged: bool, animating: bool) -> bool {
        visible && (damaged || (animating && self.animation_cap_ms > 0))
    }

    pub fn should_request_redraw(self, visible: bool, damaged: bool, animating: bool) -> (yes: bool)
        ensures
            yes == self.redraws(visible, damaged, animating),
    {
        visible && (damaged || (animating && self.animation_cap_ms > 0))
    }

    /// Whether an animation is still within the profile's time.
    pub fn animation_is_bounded(self, elapsed_ms: u16) -> (yes: bool)
        ensures
            yes == (elapsed_ms < self.animation_cap_ms),
    {
        self.animation_cap_ms > 0 && elapsed_ms < self.animation_cap_ms
    }

    /// Whether the material samples a backdrop at all.
    pub fn samples_backdrop(self) -> (yes: bool)
        ensures
            yes == (self.material.applied.backdrop != BackdropQuality::Disabled),
    {
        self.material.applied.backdrop != BackdropQuality::Disabled
    }
}

// ---- laws ------------------------------------------------------------------------------

/// What is applied is always within the budget, and what does not fit is
/// opaque.
pub proof fn materials_stay_within_budget(
    profile: PerformanceProfile,
    reduce_transparency: bool,
    output: OutputMetrics,
    surface: GlassSurface,
    active: u8,
)
    ensures
        ({
            let policy = RenderPolicy::resolved(
                profile,
                reduce_transparency,
                output,
                surface,
                active,
            );
            &&& policy.material.estimated_cache_bytes <= policy.budget.max_cache_bytes
            &&& policy.material.applied.opaque_content <==> policy.material.applied.backdrop
                == BackdropQuality::Disabled
            &&& policy.material.degraded_to_opaque ==> policy.material.applied.opaque_content
            &&& policy.dpr_milli <= policy.budget.max_dpr_milli
        }),
{
}

/// Reduced transparency, window chrome and saving profiles are always opaque.
pub proof fn opaque_surfaces_sample_nothing(
    profile: PerformanceProfile,
    reduce_transparency: bool,
    output: OutputMetrics,
    surface: GlassSurface,
    active: u8,
)
    requires
        reduce_transparency || surface == GlassSurface::WindowChrome || profile.saves(),
    ensures
        ({
            let policy = RenderPolicy::resolved(
                profile,
                reduce_transparency,
                output,
                surface,
                active,
            );
            &&& policy.material.applied.opaque_content
            &&& policy.material.sampled_backdrop_pixels == 0
        }),
{
}

/// What is hidden is never redrawn, and a profile without animations redraws
/// for damage alone.
pub proof fn hidden_surfaces_stay_quiet(policy: RenderPolicy, visible: bool, damaged: bool, animating: bool)
    ensures
        !visible ==> !policy.redraws(visible, damaged, animating),
        policy.animation_cap_ms == 0 && !damaged ==> !policy.redraws(visible, damaged, animating),
{
}

/// What each profile may use: the saving ones nothing but 30 frames a second at
/// the plain density, the balanced one half of the backdrop within 8 MiB, and the
/// visual one all of it within 32 MiB.
pub proof fn profiles_have_these_budgets(profile: PerformanceProfile)
    ensures
        ({
            let budget = MaterialBudget::of_profile(profile);
            let saving = profile == PerformanceProfile::LowEnd || profile
                == PerformanceProfile::BatterySaver;
            &&& saving ==> budget.max_dpr_milli == 1000 && budget.target_fps == 30
                && budget.max_animation_ms == 0 && budget.max_cache_bytes == 0
                && budget.max_glass_surfaces == 0
            &&& profile == PerformanceProfile::Balanced ==> budget.max_dpr_milli == 1500
                && budget.target_fps == 60 && budget.max_animation_ms == 360
                && budget.max_cache_bytes == 8 * 1024 * 1024 && budget.max_glass_surfaces == 2
            &&& profile == PerformanceProfile::Visual ==> budget.max_dpr_milli == 2000
                && budget.target_fps == 60 && budget.max_animation_ms == 480
                && budget.max_cache_bytes == 32 * 1024 * 1024 && budget.max_glass_surfaces == 4
            &&& cadence_of(budget) == RedrawCadence::VSync <==> !saving
            &&& saving ==> cadence_of(budget).fps() == 30
        }),
{
}

/// What is asked for a surface: nothing of the backdrop where transparency is
/// reduced, for window chrome and in a saving profile; else half of it in the
/// balanced profile and all of it in the visual one.
pub proof fn surfaces_ask_for_their_backdrop(
    profile: PerformanceProfile,
    reduce_transparency: bool,
    surface: GlassSurface,
)
    ensures
        ({
            let recipe = recipe_of(profile, reduce_transparency, surface);
            let plain = reduce_transparency || surface == GlassSurface::WindowChrome || profile
                == PerformanceProfile::LowEnd || profile == PerformanceProfile::BatterySaver;
            &&& recipe.opaque_content <==> plain
            &&& recipe.backdrop == BackdropQuality::Disabled <==> plain
            &&& recipe.backdrop == BackdropQuality::Half <==> !plain && profile
                == PerformanceProfile::Balanced
            &&& recipe.backdrop == BackdropQuality::Full <==> !plain && profile
                == PerformanceProfile::Visual
        }),
{
}

/// A backdrop costs eight bytes for each pixel that is sampled, of which half
/// quality takes a quarter. It is allowed where the cache and the number of glass
/// surfaces are within the budget, and what costs nothing always is.
pub proof fn backdrops_cost_their_pixels(
    budget: MaterialBudget,
    recipe: GlassRecipe,
    width: u32,
    height: u32,
    active: u8,
)
    requires
        8 * (width * height) <= u64::MAX,
    ensures
        ({
            let cost = match recipe.backdrop {
                BackdropQuality::Disabled => 0,
                BackdropQuality::Half => 8 * ((width * height) as int / 4),
                BackdropQuality::Full => 8 * (width * height),
            };
            &&& recipe.cache(width, height) == cost
            &&& budget.allows(recipe, width, height, active) <==> recipe.backdrop
                == BackdropQuality::Disabled || (active <= budget.max_glass_surfaces && cost
                <= budget.max_cache_bytes)
        }),
        width * height >= 0,
{
    assert(width * height >= 0) by (nonlinear_arith)
        requires
            width >= 0,
            height >= 0,
    ;
}

/// What is asked for is applied exactly where the budget allows it; the density
/// is the observed one within the limit, and animations end at their limit.
pub proof fn policies_apply_what_is_allowed(
    profile: PerformanceProfile,
    reduce_transparency: bool,
    output: OutputMetrics,
    surface: GlassSurface,
    active: u8,
)
    ensures
        ({
            let policy = RenderPolicy::resolved(
                profile,
                reduce_transparency,
                output,
                surface,
                active,
            );
            let asked = recipe_of(profile, reduce_transparency, surface);
            let allowed = MaterialBudget::of_profile(profile).allows(
                asked,
                output.width,
                output.height,
                active,
            );
            &&& policy.profile == profile
            &&& policy.material.requested == asked
            &&& allowed ==> policy.material.applied == asked && !policy.material.degraded_to_opaque
            &&& !allowed ==> policy.material.applied.opaque_content
                && policy.material.degraded_to_opaque
            &&& output.observed_dpr_milli <= policy.budget.max_dpr_milli ==> policy.dpr_milli
                == output.observed_dpr_milli
            &&& output.observed_dpr_milli > policy.budget.max_dpr_milli ==> policy.dpr_milli
                == policy.budget.max_dpr_milli
            &&& policy.animation_cap_ms == policy.budget.max_animation_ms
        }),
{
}

/// A visible surface is redrawn for damage, and for an animation where the
/// profile has any.
pub proof fn visible_surfaces_are_redrawn(policy: RenderPolicy, damaged: bool, animating: bool)
    ensures
        damaged ==> policy.redraws(true, damaged, animating),
        policy.animation_cap_ms > 0 && animating ==> policy.redraws(true, damaged, animating),
        !damaged && !animating ==> !policy.redraws(true, damaged, animating),
{
}

} // verus!
