use vstd::prelude::*;
use crate::capture::CaptureOptions;
use crate::postfx::{blend_pixel, current_weight, previous_weight, PersistenceBlend};
use crate::screen_buffer::{in_bounds, next_frame_id, pixel_at, ScreenBuffer};
use crate::timing::CrossoverSync;
use crate::video::{
    TextVideoController, COLOR_PHOSPHOR_GREEN, DEFAULT_TEXT_BASE, FRAME_HEIGHT, FRAME_WIDTH,
};

verus! {

/// The refresh rate of the emulated machine: 59.92 Hz.
pub const APPLE2E_NTSC_MILLIHERTZ: u64 = 59_920;
/// The host rate assumed when the display does not report one: 60 Hz.
pub const HOST_DISPLAY_MILLIHERTZ_FALLBACK: u64 = 60_000;
/// The pause between frames when neither vsync nor the pacer sets the pace.
pub const FIXED_FRAME_DELAY_MS: u32 = 16;
pub const DEFAULT_WINDOW_TITLE: &'static str = "Echo Lab SDL3 Display";
pub const DEFAULT_CONFIG_PATH: &'static str = "echolab.toml";

/// How the display is driven.
#[derive(Debug, Clone)]
pub struct SdlDisplayCoreOptions {
    pub title: String,
    pub config_path: String,
    pub config_path_explicit: bool,
    pub capture: CaptureOptions,
    pub fullscreen: bool,
    pub vsync_off: bool,
    pub crossover_vsync_off: bool,
    pub text_base: u16,
    pub foreground_color: u32,
}

impl Default for SdlDisplayCoreOptions {
    fn default() -> (r: Self)
        ensures
            r.title@ == DEFAULT_WINDOW_TITLE@,
            r.config_path@ == DEFAULT_CONFIG_PATH@,
            !r.config_path_explicit,
            !r.capture.screenshot_requested,
            r.capture.screenshot_dir_override is None,
            !r.fullscreen,
            !r.vsync_off,
            !r.crossover_vsync_off,
            r.text_base == DEFAULT_TEXT_BASE,
            r.foreground_color == COLOR_PHOSPHOR_GREEN,
    {
        SdlDisplayCoreOptions {
            title: DEFAULT_WINDOW_TITLE.to_owned(),
            config_path: DEFAULT_CONFIG_PATH.to_owned(),
            config_path_explicit: false,
            capture: CaptureOptions::default(),
            fullscreen: false,
            vsync_off: false,
            crossover_vsync_off: false,
            text_base: DEFAULT_TEXT_BASE,
            foreground_color: COLOR_PHOSPHOR_GREEN,
        }
    }
}

/// What sets the pace of the display loop after a frame is presented.
#[derive(Debug, Clone, Copy, PartialEq, Eq, Structural)]
pub enum FramePacing {
    /// The renderer waits for the host's vertical sync.
    Vsync,
    /// The frame pacer sleeps and spins to the next host-period deadline.
    Timer,
    /// A fixed pause of `FIXED_FRAME_DELAY_MS`.
    FixedDelay,
}

/// The loop's decisions that follow from the options alone.
#[derive(Debug, Clone, Copy, PartialEq, Eq, Structural)]
pub struct DisplayPlan {
    /// Guest steps per host tick come from the rate crossover (else one per tick).
    pub use_crossover_sync: bool,
    /// Whether the renderer is asked to wait for vertical sync.
    pub renderer_vsync: bool,
    pub pacing: FramePacing,
}

pub open spec fn plan_spec(vsync_off: bool, crossover_vsync_off: bool) -> DisplayPlan {
    DisplayPlan {
        use_crossover_sync: !vsync_off,
        renderer_vsync: !vsync_off && !crossover_vsync_off,
        pacing: if !vsync_off && crossover_vsync_off {
            FramePacing::Timer
        } else if vsync_off {
            FramePacing::FixedDelay
        } else {
            FramePacing::Vsync
        },
    }
}

impl DisplayPlan {
    pub fn from_options(options: &SdlDisplayCoreOptions) -> (r: DisplayPlan)
        ensures
            r == plan_spec(options.vsync_off, options.crossover_vsync_off),
    {
        let use_crossover_sync = !options.vsync_off;
        let pacing = if use_crossover_sync && options.crossover_vsync_off {
            FramePacing::Timer
        } else if options.vsync_off {
            FramePacing::FixedDelay
        } else {
            FramePacing::Vsync
        };
        DisplayPlan {
            use_crossover_sync,
            renderer_vsync: !(options.vsync_off || options.crossover_vsync_off),
            pacing,
        }
    }

    /// The guest steps to run for this host tick.
    pub fn guest_steps(&self, crossover: &mut CrossoverSync) -> (r: usize)
        requires
            old(crossover)@.wf(),
        ensures
            final(crossover)@.wf(),
            self.use_crossover_sync ==> final(crossover)@ == old(crossover)@.tick().0 && r == old(
                crossover,
            )@.tick().1,
            !self.use_crossover_sync ==> final(crossover)@ == old(crossover)@ && r == 1,
    {
        if self.use_crossover_sync {
            crossover.on_host_tick()
        } else {
            1
        }
    }

    /// Whether measured present intervals should refine the host period:
    /// only under vsync, and only when the display did not report its rate.
    pub fn measures_host_period(&self, mode_rate_known: bool) -> (r: bool)
        ensures
            r == (self.use_crossover_sync && self.renderer_vsync && !mode_rate_known),
    {
        self.use_crossover_sync && self.renderer_vsync && !mode_rate_known
    }
}

/// Produces the next displayed frame: `frame` gets the rendered text page,
/// or is filled with `override_color` when the caller supplies one, and is
/// published; then `frame` is blended into `displayed`.
pub fn compose_frame(
    video: &TextVideoController,
    ram: &[u8; 65536],
    override_color: Option<u32>,
    blend: &PersistenceBlend,
    frame: &mut ScreenBuffer,
    displayed: &mut ScreenBuffer,
)
    requires
        video@.wf(),
        old(frame)@.wf(),
        old(frame)@.width == FRAME_WIDTH,
        old(frame)@.height == FRAME_HEIGHT,
        old(displayed)@.wf(),
        old(displayed)@.width == FRAME_WIDTH,
        old(displayed)@.height == FRAME_HEIGHT,
    ensures
        final(frame)@.wf(),
        final(frame)@.width == FRAME_WIDTH,
        final(frame)@.height == FRAME_HEIGHT,
        final(frame)@.frame_id == next_frame_id(old(frame)@.frame_id),
        forall|x: int, y: int|
            in_bounds(final(frame)@, x, y) ==> #[trigger] pixel_at(final(frame)@, x, y) == match override_color {
                Some(c) => c,
                None => video@.frame_pixel(ram@, x, y),
            },
        final(displayed)@.wf(),
        final(displayed)@.width == FRAME_WIDTH,
        final(displayed)@.height == FRAME_HEIGHT,
        final(displayed)@.frame_id == old(displayed)@.frame_id,
        final(displayed)@.pixels == Seq::new(
            old(displayed)@.pixels.len(),
            |i: int|
                blend_pixel(
                    final(frame)@.pixels[i],
                    old(displayed)@.pixels[i],
                    current_weight(blend@),
                    previous_weight(blend@),
                ),
        ),
{
    match override_color {
        Some(c) => {
            frame.clear(c);
            proof {
                let m = frame@;
                assert forall|x: int, y: int| in_bounds(m, x, y) implies #[trigger] pixel_at(m, x, y)
                    == c by {
                    crate::screen_buffer::lemma_index_in_range(m.width, m.height, x, y);
                }
            }
            let ghost cleared = frame@;
            frame.publish_frame();
            assert forall|x: int, y: int| in_bounds(frame@, x, y) implies #[trigger] pixel_at(
                frame@,
                x,
                y,
            ) == c by {
                assert(pixel_at(cleared, x, y) == pixel_at(frame@, x, y));
            }
        },
        None => {
            video.render_frame(ram, frame);
        },
    }
    blend.apply(frame.pixels(), displayed.pixels_mut());
}

} // verus!
