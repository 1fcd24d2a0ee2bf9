//! The materials of the shell: what glass costs, and what a performance
//! profile allows.

use vstd::prelude::*;

verus! {

#[derive(Debug, Clone, Copy, PartialEq, Eq, Structural)]
pub enum PerformanceProfile {
    LowEnd,
    BatterySaver,
    Balanced,
    Visual,
}

impl PerformanceProfile {
    /// Whether the profile goes without glass and animations.
    pub open spec fn saves(self) -> bool {
        self == PerformanceProfile::LowEnd || self == PerformanceProfile::BatterySaver
    }

    pub fn is_saving(self) -> (yes: bool)
        ensures
            yes == self.saves(),
    {
        self == PerformanceProfile::LowEnd || self == PerformanceProfile::BatterySaver
    }
}

impl Default for PerformanceProfile {
    fn default() -> (profile: Self)
        ensures
            profile == PerformanceProfile::Balanced,
    {
        PerformanceProfile::Balanced
    }
}

/// At which resolution a backdrop is sampled.
#[derive(Debug, Clone, Copy, PartialEq, Eq, Structural)]
pub enum BackdropQuality {
    Disabled,
    /// Half of the width and half of the height.
    Half,
    Full,
}

#[derive(Debug, Clone, Copy, PartialEq, Eq, Structural)]
pub enum GlassSurface {
    TopBar,
    Dock,
    ControlCenter,
    Notifications,
    WindowChrome,
}

/// How a surface is made.
#[derive(Debug, Clone, Copy, PartialEq, Eq, Structural)]
pub struct GlassRecipe {
    pub backdrop: BackdropQuality,
    pub opaque_content: bool,
}

/// What a profile may spend.
#[derive(Debug, Clone, Copy, PartialEq, Eq, Structural)]
pub struct MaterialBudget {
    pub max_dpr_milli: u16,
    pub target_fps: u16,
    pub max_animation_ms: u16,
    pub max_cache_bytes: u64,
    pub max_glass_surfaces: u8,
}

impl BackdropQuality {
    pub open spec fn samples(self, width: u32, height: u32) -> int {
        match self {
            BackdropQuality::Disabled => 0,
            BackdropQuality::Half => (width * height) as int / 4,
            BackdropQuality::Full => width * height,
        }
    }

    /// The pixels that are sampled of an output.
    pub fn sampled_pixels(self, width: u32, height: u32) -> (count: u64)
        ensures
            count == self.samples(width, height),
    {
        proof {
            output_fits(width, height);
        }
        match self {
            BackdropQuality::Disabled => 0,
            BackdropQuality::Half => (width as u64 * height as u64) / 4,
            BackdropQuality::Full => width as u64 * height as u64,
        }
    }
}

proof fn output_fits(width: u32, height: u32)
    ensures
        0 <= width * height <= 0xffff_fffe_0000_0001,
{
    assert(0 <= width * height <= 0xffff_ffff * 0xffff_ffff) by (nonlinear_arith)
        requires
            0 <= width <= 0xffff_ffff,
            0 <= height <= 0xffff_ffff,
    ;
}

impl GlassRecipe {
    /// Two buffers of four bytes for each pixel that is sampled, as far as 64
    /// bits can count them.
    pub open spec fn cache(self, width: u32, height: u32) -> int {
        let bytes = 8 * self.backdrop.samples(width, height);
        if bytes <= u64::MAX {
            bytes
        } else {
            u64::MAX as int
        }
    }

    pub fn estimated_cache_bytes(self, width: u32, height: u32) -> (bytes: u64)
        ensures
            bytes == self.cache(width, height),
    {
        let samples: u64 = self.backdrop.sampled_pixels(width, height);
        if samples > u64::MAX / 8 {
            u64::MAX
        } else {
            8 * samples
        }
    }
}

/// The recipe of a surface. Window chrome is always opaque, and so is
/// everything where transparency is reduced or the profile saves.
pub open spec fn recipe_of(profile: PerformanceProfile, reduce_transparency: bool, surface: GlassSurface) -> GlassRecipe {
    if reduce_transparency || profile.saves() || surface == GlassSurface::WindowChrome {
        GlassRecipe { backdrop: BackdropQuality::Disabled, opaque_content: true }
    } else if profile == PerformanceProfile::Balanced {
        GlassRecipe { backdrop: BackdropQuality::Half, opaque_content: false }
    } else {
        GlassRecipe { backdrop: BackdropQuality::Full, opaque_content: false }
    }
}

pub fn glass_recipe(profile: PerformanceProfile, reduce_transparency: bool, surface: GlassSurface) -> (recipe:
    GlassRecipe)
    ensures
        recipe == recipe_of(profile, reduce_transparency, surface),
{
    if reduce_transparency || profile.is_saving() || surface == GlassSurface::WindowChrome {
        GlassRecipe { backdrop: BackdropQuality::Disabled, opaque_content: true }
    } else if profile == PerformanceProfile::Balanced {
        GlassRecipe { backdrop: BackdropQuality::Half, opaque_content: false }
    } else {
        GlassRecipe { backdrop: BackdropQuality::Full, opaque_content: false }
    }
}

impl MaterialBudget {
    pub open spec fn of_profile(profile: PerformanceProfile) -> Self {
        match profile {
            PerformanceProfile::LowEnd | PerformanceProfile::BatterySaver => MaterialBudget {
                max_dpr_milli: 1000,
                target_fps: 30,
                max_animation_ms: 0,
                max_cache_bytes: 0,
                max_glass_surfaces: 0,
            },
            PerformanceProfile::Balanced => MaterialBudget {
                max_dpr_milli: 1500,
                target_fps: 60,
                max_animation_ms: 360,
                max_cache_bytes: 8_388_608,
                max_glass_surfaces: 2,
            },
            PerformanceProfile::Visual => MaterialBudget {
                max_dpr_milli: 2000,
                target_fps: 60,
                max_animation_ms: 480,
                max_cache_bytes: 33_554_432,
                max_glass_surfaces: 4,
            },
        }
    }

    pub fn for_profile(profile: PerformanceProfile) -> (budget: Self)
        ensures
            budget == Self::of_profile(profile),
    {
        match profile {
            PerformanceProfile::LowEnd | PerformanceProfile::BatterySaver => MaterialBudget {
                max_dpr_milli: 1000,
                target_fps: 30,
                max_animation_ms: 0,
                max_cache_bytes: 0,
                max_glass_surfaces: 0,
            },
            PerformanceProfile::Balanced => MaterialBudget {
                max_dpr_milli: 1500,
                target_fps: 60,
                max_animation_ms: 360,
                max_cache_bytes: 8_388_608,
                max_glass_surfaces: 2,
            },
            PerformanceProfile::Visual => MaterialBudget {
                max_dpr_milli: 2000,
                target_fps: 60,
                max_animation_ms: 480,
                max_cache_bytes: 33_554_432,
                max_glass_surfaces: 4,
            },
        }
    }

    pub open spec fn dpr_within(self, observed: u16) -> u16 {
        if observed <= self.max_dpr_milli {
            observed
        } else {
            self.max_dpr_milli
        }
    }

    pub fn clamp_dpr_milli(self, observed: u16) -> (dpr: u16)
        ensures
            dpr == self.dpr_within(observed),
    {
        if observed <= self.max_dpr_milli {
            observed
        } else {
            self.max_dpr_milli
        }
    }

    /// Whether a recipe is within the budget: one without a backdrop always
    /// is; another needs room in the cache and among the surfaces.
    pub open spec fn allows(self, recipe: GlassRecipe, width: u32, height: u32, active: u8) -> bool {
        recipe.backdrop == BackdropQuality::Disabled || (active <= self.max_glass_surfaces
            && recipe.cache(width, height) <= self.max_cache_bytes)
    }

    pub fn allows_backdrop(self, recipe: GlassRecipe, width: u32, height: u32, active: u8) -> (yes:
        bool)
        ensures
            yes == self.allows(recipe, width, height, active),
    {
        recipe.backdrop == BackdropQuality::Disabled || (active <= self.max_glass_surfaces
            && recipe.estimated_cache_bytes(width, height) <= self.max_cache_bytes)
    }
}

} // verus!
