//! What the renderer decides: how the surface is configured, when it has to
//! be configured anew, and what to do when a frame could not be presented.

use vstd::prelude::*;
use crate::array_buffer::ArrayBuffer;
use crate::fxaa::{EdgeThresholdMax, EdgeThresholdMin, FXAADetails, FXAADetailsUniform};
use crate::material::{Material, MaterialUniform, MAX_MATERIALS};
use crate::model::{Model, ModelUniform, MAX_MODELS};
use crate::pipelines::{
    build_chain, chain_len, grown_times, is_size, ray_resolution, ray_sizes_fit, stage_at,
    PipelineChain, Resolution,
};

verus! {

/// How finished frames are handed to the display.
#[derive(Clone, Copy, Debug, PartialEq, Eq, Structural)]
pub enum PresentMode {
    AutoVsync,
    AutoNoVsync,
    Mailbox,
    Fifo,
    FifoRelaxed,
    Immediate,
}

/// The name of a present mode as shown to the user.
pub open spec fn present_mode_text(mode: PresentMode) -> Seq<char> {
    match mode {
        PresentMode::AutoVsync => "Auto Vsync"@,
        PresentMode::AutoNoVsync => "Auto No Vsync"@,
        PresentMode::Mailbox => "Mailbox"@,
        PresentMode::Fifo => "Fifo"@,
        PresentMode::FifoRelaxed => "Fifo Relaxed"@,
        PresentMode::Immediate => "Immediate"@,
    }
}

/// Names a present mode.
pub fn present_mode_to_string(mode: PresentMode) -> (name: String)
    ensures
        name@ == present_mode_text(mode),
{
    match mode {
        PresentMode::AutoVsync => "Auto Vsync".to_owned(),
        PresentMode::AutoNoVsync => "Auto No Vsync".to_owned(),
        PresentMode::Mailbox => "Mailbox".to_owned(),
        PresentMode::Fifo => "Fifo".to_owned(),
        PresentMode::FifoRelaxed => "Fifo Relaxed".to_owned(),
        PresentMode::Immediate => "Immediate".to_owned(),
    }
}

/// How the presentation surface is configured.
#[derive(Clone, Copy, Debug, PartialEq, Eq, Structural)]
pub struct SurfaceConfiguration {
    pub width: u32,
    pub height: u32,
    pub present_mode: PresentMode,
}

/// Why the surface gave no frame to draw on.
#[derive(Clone, Copy, Debug, PartialEq, Eq, Structural)]
pub enum SurfaceError {
    Timeout,
    Outdated,
    Lost,
    OutOfMemory,
}

/// What the frame loop does after trying to draw a frame.
#[derive(Clone, Copy, Debug, PartialEq, Eq, Structural)]
pub enum FrameAction {
    /// The frame was presented; go on.
    Continue,
    /// Configure the surface anew at the window's size, then go on.
    Reconfigure,
    /// Leave the frame loop.
    Exit,
    /// Nothing was presented and nothing changed; go on.
    SkipFrame,
}

/// What follows each outcome of drawing a frame.
pub open spec fn action_after(outcome: Result<(), SurfaceError>) -> FrameAction {
    match outcome {
        Ok(_) => FrameAction::Continue,
        Err(SurfaceError::Lost) => FrameAction::Reconfigure,
        Err(SurfaceError::Outdated) => FrameAction::Reconfigure,
        Err(SurfaceError::OutOfMemory) => FrameAction::Exit,
        Err(SurfaceError::Timeout) => FrameAction::SkipFrame,
    }
}

/// Decides what the frame loop does after trying to draw a frame.
pub fn handle_frame_outcome(outcome: Result<(), SurfaceError>) -> (action: FrameAction)
    ensures
        action == action_after(outcome),
{
    match outcome {
        Ok(_) => FrameAction::Continue,
        Err(SurfaceError::Lost) => FrameAction::Reconfigure,
        Err(SurfaceError::Outdated) => FrameAction::Reconfigure,
        Err(SurfaceError::OutOfMemory) => FrameAction::Exit,
        Err(SurfaceError::Timeout) => FrameAction::SkipFrame,
    }
}

/// The whole-number settings of the ray stages.
#[derive(Clone, Copy, Debug, PartialEq, Eq, Structural)]
pub struct RayDetails {
    pub material_count: i32,
    pub model_count: i32,
    pub integration_method: i32,
    pub max_iterations: i32,
    pub show_disk_texture: i32,
    pub show_red_shift: i32,
}

/// The resolution of the first ray stage.
pub open spec fn base_resolution() -> Resolution {
    Resolution { width: 8, height: 4 }
}

/// The factor by which each ray stage outgrows the one before it.
pub const RAY_MULTIPLIER: u32 = 4;

/// The number of ray stages.
pub const RAY_STAGES: usize = 5;

/// The number of halving bloom stages, and of doubling ones.
pub const BLOOM_STAGES: usize = 6;

/// The renderer's settings and the layout of its stages.
pub struct Renderer {
    pub surface_config: SurfaceConfiguration,
    pub present_mode: PresentMode,
    pub fxaa_details: FXAADetails,
    pub fxaa_details_uniform: FXAADetailsUniform,
    pub ray_details: RayDetails,
    pub chain: PipelineChain,
}

/// The ray stages of the renderer's chain all have 32-bit sizes: they are 8
/// by 4, 29 by 13, 113 by 49, 449 by 193 and 1793 by 769.
pub proof fn lemma_renderer_sizes_fit()
    ensures
        ray_sizes_fit(base_resolution(), RAY_MULTIPLIER, RAY_STAGES as nat),
        ray_resolution(base_resolution(), RAY_MULTIPLIER, 4) == (Resolution {
            width: 1793,
            height: 769,
        }),
{
    reveal_with_fuel(grown_times, 6);
    assert forall|i: nat| i < 5 implies is_size(#[trigger] grown_times(8, 4, i)) && is_size(
        grown_times(4, 4, i),
    ) by {
        assert(i == 0 || i == 1 || i == 2 || i == 3 || i == 4);
    }
}

impl Renderer {
    /// The renderer's chain is the one laid out from the renderer's constants.
    pub open spec fn chain_laid_out(&self) -> bool {
        &&& self.chain.ray_stages == RAY_STAGES
        &&& self.chain.bloom_stages == BLOOM_STAGES
        &&& self.chain.stages@.len() == chain_len(RAY_STAGES as nat, BLOOM_STAGES as nat)
        &&& forall|i: int|
            0 <= i < self.chain.stages@.len() ==> #[trigger] self.chain.stages@[i] == stage_at(
                base_resolution(),
                RAY_MULTIPLIER,
                RAY_STAGES as nat,
                BLOOM_STAGES as nat,
                i as nat,
            )
    }

    /// A renderer for a window of the given size, a size of zero counting as
    /// one. Frames are presented with automatic vertical sync.
    pub fn new(width: u32, height: u32) -> (renderer: Renderer)
        ensures
            renderer.surface_config == (SurfaceConfiguration {
                width: if width == 0 {
                    1
                } else {
                    width
                },
                height: if height == 0 {
                    1
                } else {
                    height
                },
                present_mode: PresentMode::AutoVsync,
            }),
            renderer.present_mode == PresentMode::AutoVsync,
            renderer.fxaa_details == (FXAADetails {
                edge_threshold_min: EdgeThresholdMin::Ultra,
                edge_threshold_max: EdgeThresholdMax::Ultra,
                iterations: 12,
                subpixel_quality: 7500,
            }),
            renderer.ray_details == (RayDetails {
                material_count: 0,
                model_count: 0,
                integration_method: 0,
                max_iterations: 2000,
                show_disk_texture: 0,
                show_red_shift: 0,
            }),
            renderer.fxaa_details_uniform == (FXAADetailsUniform {
                edge_threshold_min: 0,
                edge_threshold_max: 0,
                iterations: 0,
                subpixel_quality: 0,
            }),
            renderer.chain_laid_out(),
    {
        proof {
            lemma_renderer_sizes_fit();
        }
        let chain = match build_chain(
            Resolution { width: 8, height: 4 },
            RAY_MULTIPLIER,
            RAY_STAGES,
            BLOOM_STAGES,
        ) {
            Ok(chain) => chain,
            Err(_) => vstd::pervasive::unreached(),
        };
        Renderer {
            surface_config: SurfaceConfiguration {
                width: if width == 0 {
                    1
                } else {
                    width
                },
                height: if height == 0 {
                    1
                } else {
                    height
                },
                present_mode: PresentMode::AutoVsync,
            },
            present_mode: PresentMode::AutoVsync,
            fxaa_details: FXAADetails {
                edge_threshold_min: EdgeThresholdMin::Ultra,
                edge_threshold_max: EdgeThresholdMax::Ultra,
                iterations: 12,
                subpixel_quality: 7500,
            },
            fxaa_details_uniform: FXAADetailsUniform::default(),
            ray_details: RayDetails {
                material_count: 0,
                model_count: 0,
                integration_method: 0,
                max_iterations: 2000,
                show_disk_texture: 0,
                show_red_shift: 0,
            },
            chain,
        }
    }

    /// Takes the chosen present mode into the surface configuration. The
    /// surface has to be configured anew afterwards.
    pub fn update_present_mode(&mut self)
        ensures
            final(self).surface_config == (SurfaceConfiguration {
                present_mode: old(self).present_mode,
                ..old(self).surface_config
            }),
            *final(self) == (Renderer { surface_config: final(self).surface_config, ..*old(self) }),
    {
        self.surface_config.present_mode = self.present_mode;
    }

    /// Takes a new surface size, and tells whether the surface has to be
    /// configured anew. A size with a zero width or height is ignored.
    pub fn resize(&mut self, width: u32, height: u32) -> (reconfigure: bool)
        ensures
            reconfigure == (width > 0 && height > 0),
            reconfigure ==> final(self).surface_config == (SurfaceConfiguration {
                width,
                height,
                ..old(self).surface_config
            }),
            !reconfigure ==> final(self).surface_config == old(self).surface_config,
            *final(self) == (Renderer { surface_config: final(self).surface_config, ..*old(self) }),
    {
        if width > 0 && height > 0 {
            self.surface_config.width = width;
            self.surface_config.height = height;
            true
        } else {
            false
        }
    }

    /// Makes the settings ready for a frame: takes a changed present mode
    /// into the surface configuration, counts the scene's materials and
    /// models, and refreshes the edge-smoothing record. Tells whether the
    /// surface has to be configured anew before the frame is drawn.
    pub fn prepare_frame(
        &mut self,
        materials: &ArrayBuffer<MAX_MATERIALS, Material, MaterialUniform>,
        models: &ArrayBuffer<MAX_MODELS, Model, ModelUniform>,
    ) -> (reconfigure: bool)
        requires
            materials.well_formed(),
            models.well_formed(),
        ensures
            reconfigure == (old(self).present_mode != old(self).surface_config.present_mode),
            final(self).surface_config == (SurfaceConfiguration {
                present_mode: old(self).present_mode,
                ..old(self).surface_config
            }),
            final(self).ray_details == (RayDetails {
                material_count: materials.entities().len() as i32,
                model_count: models.entities().len() as i32,
                ..old(self).ray_details
            }),
            final(self).fxaa_details_uniform == FXAADetailsUniform::of(old(self).fxaa_details),
            *final(self) == (Renderer {
                surface_config: final(self).surface_config,
                ray_details: final(self).ray_details,
                fxaa_details_uniform: final(self).fxaa_details_uniform,
                ..*old(self)
            }),
    {
        let reconfigure = self.present_mode != self.surface_config.present_mode;
        if reconfigure {
            self.update_present_mode();
        }
        self.ray_details.material_count = materials.size() as i32;
        self.ray_details.model_count = models.size() as i32;
        self.fxaa_details_uniform.update(&self.fxaa_details);
        reconfigure
    }
}

} // verus!
