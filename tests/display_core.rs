use echo_lab::postfx::PersistenceBlend;
use echo_lab::screen_buffer::ScreenBuffer;
use echo_lab::sdl_display_core::{compose_frame, DisplayPlan, FramePacing, SdlDisplayCoreOptions};
use echo_lab::timing::CrossoverSync;
use echo_lab::video::{TextVideoController, COLOR_BLACK, FRAME_HEIGHT, FRAME_WIDTH};

#[test]
fn default_options_use_vsync_and_crossover() {
    let options = SdlDisplayCoreOptions::default();
    assert_eq!(options.title, "Echo Lab SDL3 Display");
    assert_eq!(options.config_path, "echolab.toml");
    assert_eq!(options.text_base, 0x0400);
    let plan = DisplayPlan::from_options(&options);
    assert_eq!(
        plan,
        DisplayPlan { use_crossover_sync: true, renderer_vsync: true, pacing: FramePacing::Vsync }
    );
    assert!(plan.measures_host_period(false));
    assert!(!plan.measures_host_period(true));
}

#[test]
fn crossover_without_vsync_paces_by_timer() {
    let options = SdlDisplayCoreOptions { crossover_vsync_off: true, ..SdlDisplayCoreOptions::default() };
    let plan = DisplayPlan::from_options(&options);
    assert_eq!(
        plan,
        DisplayPlan { use_crossover_sync: true, renderer_vsync: false, pacing: FramePacing::Timer }
    );
    assert!(!plan.measures_host_period(false));
}

#[test]
fn vsync_off_uses_one_step_per_frame_and_a_fixed_delay() {
    let options = SdlDisplayCoreOptions { vsync_off: true, ..SdlDisplayCoreOptions::default() };
    let plan = DisplayPlan::from_options(&options);
    assert_eq!(plan.pacing, FramePacing::FixedDelay);
    assert!(!plan.renderer_vsync);
    let mut sync = CrossoverSync::new(59_920, 60_000);
    for _ in 0..5 {
        assert_eq!(plan.guest_steps(&mut sync), 1);
    }
    // The crossover was not consulted: its first tick still yields the extra step.
    assert_eq!(sync.on_host_tick(), 1);
}

#[test]
fn compose_frame_renders_then_blends() {
    let mut ram = [b' '; 65536];
    ram[0x0400] = b'#';
    let video = TextVideoController::default();
    let blend = PersistenceBlend::new(0);
    let mut frame = ScreenBuffer::new(FRAME_WIDTH, FRAME_HEIGHT);
    let mut displayed = ScreenBuffer::new(FRAME_WIDTH, FRAME_HEIGHT);
    displayed.clear(COLOR_BLACK);
    compose_frame(&video, &ram, None, &blend, &mut frame, &mut displayed);
    assert_eq!(frame.frame_id(), 1);
    assert_eq!(displayed.frame_id(), 0);
    assert_eq!(displayed.pixels(), frame.pixels());

    let blend = PersistenceBlend::default();
    compose_frame(&video, &ram, Some(0xff00_0000), &blend, &mut frame, &mut displayed);
    assert_eq!(frame.frame_id(), 2);
    assert!(frame.pixels().iter().all(|p| *p == 0xff00_0000));
    // Green 0xff channel decays to 255 * 196 / 256 = 195 where the glyph was lit.
    let lit = displayed.pixels().iter().filter(|p| (**p >> 8) & 0xff == 195).count();
    assert!(lit > 0);
}
