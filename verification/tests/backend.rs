use drm_fourcc::{DrmFormat, DrmFourcc, DrmModifier};
use kms_backend::allocator::{Allocator, Buffer, BufferSize};
use kms_backend::connector::{
    ConnectorInfo, ConnectorState, DeviceResources, EncoderInfo, Interface, Mode,
};
use kms_backend::frame::{FrameKind, FrameStep};
use kms_backend::node::DeviceNode;
use kms_backend::output::{LogicalOutput, OutputId, OutputMode, PhysicalSize, Point, Subpixel};
use kms_backend::pointer::{CursorFrame, TextureId};
use kms_backend::scanner::{ScanResult, Scanner};
use kms_backend::scheduler::{FailureCause, FrameAction, FrameState, SwapBuffersError};
use kms_backend::session::{render_on_signal, SessionFd, SessionSignal};
use kms_backend::surface::RenderSurface;
use kms_backend::udev::UdevData;

struct Bo {
    id: usize,
}

impl Buffer for Bo {
    fn size_spec(&self) -> BufferSize {
        self.size()
    }
    fn size(&self) -> BufferSize {
        BufferSize { w: 0, h: 0 }
    }
    fn format(&self) -> DrmFormat {
        DrmFormat { code: DrmFourcc::Argb8888, modifier: DrmModifier::Linear }
    }
}

struct Gbm {
    made: usize,
    budget: usize,
}

impl Gbm {
    fn new() -> Gbm {
        Gbm { made: 0, budget: usize::MAX }
    }
}

impl Allocator<Bo> for Gbm {
    type Error = String;

    fn create_buffer(
        &mut self,
        _width: u32,
        _height: u32,
        _fourcc: DrmFourcc,
        _modifiers: &[DrmModifier],
    ) -> Result<Bo, String> {
        if self.made >= self.budget {
            return Err("out of buffers".to_string());
        }
        self.made += 1;
        Ok(Bo { id: self.made })
    }
}

type Backend = UdevData<Gbm, Bo>;

const CARD0: u64 = 0xe200;
const CARD1: u64 = 0xe201;
const RENDER: u64 = 0xe280;

fn node(dev: u64) -> DeviceNode {
    DeviceNode::from_dev_id(dev)
}

fn full_hd() -> Mode {
    Mode { width: 1920, height: 1080, vrefresh: 60 }
}

fn quad_hd() -> Mode {
    Mode { width: 2560, height: 1440, vrefresh: 144 }
}

fn monitor(handle: u32, interface: Interface, id: u32, mode: Mode, mask: u32) -> ConnectorInfo {
    ConnectorInfo {
        handle,
        interface,
        interface_id: id,
        state: ConnectorState::Connected,
        size: Some((600, 340)),
        modes: vec![mode, Mode { width: 640, height: 480, vrefresh: 60 }],
        encoders: vec![EncoderInfo { handle: handle + 100, possible_crtcs: mask }],
    }
}

fn unplugged(handle: u32, interface: Interface, id: u32) -> ConnectorInfo {
    ConnectorInfo {
        handle,
        interface,
        interface_id: id,
        state: ConnectorState::Disconnected,
        size: None,
        modes: Vec::new(),
        encoders: vec![EncoderInfo { handle: handle + 100, possible_crtcs: 0b11 }],
    }
}

fn hdmi_only() -> DeviceResources {
    DeviceResources {
        crtcs: vec![41, 42],
        connectors: vec![
            monitor(7, Interface::HDMIA, 1, full_hd(), 0b11),
            unplugged(8, Interface::DisplayPort, 1),
        ],
    }
}

fn hdmi_and_dp() -> DeviceResources {
    DeviceResources {
        crtcs: vec![41, 42],
        connectors: vec![
            monitor(7, Interface::HDMIA, 1, full_hd(), 0b11),
            monitor(8, Interface::DisplayPort, 1, quad_hd(), 0b11),
        ],
    }
}

fn dp_only() -> DeviceResources {
    DeviceResources {
        crtcs: vec![41, 42],
        connectors: vec![
            unplugged(7, Interface::HDMIA, 1),
            monitor(8, Interface::DisplayPort, 1, quad_hd(), 0b11),
        ],
    }
}

fn nothing_plugged() -> DeviceResources {
    DeviceResources {
        crtcs: vec![41, 42],
        connectors: vec![unplugged(7, Interface::HDMIA, 1), unplugged(8, Interface::DisplayPort, 1)],
    }
}

fn first_scan(dev: u64, resources: DeviceResources, gbm: &mut Gbm) -> ScanResult<Bo> {
    let mut scanner: Scanner<Bo> = Scanner::new(node(dev), resources, Some(node(RENDER)));
    while let Some(attempt) = scanner.next_attempt() {
        let surface = RenderSurface::new(
            gbm,
            attempt.mode.width as u32,
            attempt.mode.height as u32,
            DrmFourcc::Argb8888,
            vec![DrmModifier::Linear],
        );
        match surface {
            Ok(surface) => assert!(scanner.attempt_succeeded(surface)),
            Err(_) => assert!(scanner.attempt_failed()),
        }
    }
    scanner.finish()
}

fn add(backend: &mut Backend, dev: u64, resources: DeviceResources) {
    let mut gbm = Gbm::new();
    let result = first_scan(dev, resources, &mut gbm);
    assert!(backend.device_added(SessionFd(10), gbm, dev + 1000, result).is_none());
}

fn change(backend: &mut Backend, dev: u64, resources: DeviceResources) -> bool {
    if !backend.device_changed(node(dev)) {
        return false;
    }
    let mut scanner: Scanner<Bo> = Scanner::new(node(dev), resources, Some(node(RENDER)));
    while let Some(attempt) = scanner.next_attempt() {
        let created = backend
            .create_surface(
                node(dev),
                attempt.mode.width as u32,
                attempt.mode.height as u32,
                DrmFourcc::Argb8888,
                vec![DrmModifier::Linear],
            )
            .expect("the device is live");
        match created {
            Ok(surface) => assert!(scanner.attempt_succeeded(surface)),
            Err(_) => assert!(scanner.attempt_failed()),
        }
    }
    assert!(backend.device_rescanned(scanner.finish()));
    true
}

fn outputs(backend: &Backend) -> Vec<LogicalOutput> {
    let layout = backend.layout();
    (0..layout.len()).map(|i| layout.get(i).unwrap().clone()).collect()
}

fn names(backend: &Backend) -> Vec<String> {
    outputs(backend).into_iter().map(|o| o.name).collect()
}

fn state(backend: &Backend, dev: u64, crtc: u32) -> FrameState {
    backend.surface(node(dev), crtc).unwrap().state()
}

fn initial_render(backend: &mut Backend, dev: u64, crtc: u32) -> FrameAction {
    let (step, error) = backend.frame_begin(node(dev), crtc, FrameKind::Initial);
    assert!(error.is_none());
    let slot = match step {
        FrameStep::Bind { slot, age } => {
            assert_eq!(age, 0);
            slot
        }
        other => panic!("unexpected step {:?}", other),
    };
    assert_eq!(
        backend.frame_drawn(node(dev), crtc, FrameKind::Initial, Ok(true)),
        FrameStep::Flip { slot }
    );
    backend.frame_flipped(node(dev), crtc, FrameKind::Initial, Ok(()))
}

fn vblank_frame(backend: &mut Backend, dev: u64, crtc: u32) -> (usize, u8, FrameAction) {
    let (step, error) = backend.frame_begin(node(dev), crtc, FrameKind::Regular);
    assert!(error.is_none());
    let (slot, age) = match step {
        FrameStep::Bind { slot, age } => (slot, age),
        other => panic!("unexpected step {:?}", other),
    };
    assert_eq!(
        backend.frame_drawn(node(dev), crtc, FrameKind::Regular, Ok(true)),
        FrameStep::Flip { slot }
    );
    let action = backend.frame_flipped(node(dev), crtc, FrameKind::Regular, Ok(()));
    (slot, age, action)
}

#[test]
fn new_backend_is_empty() {
    let backend = Backend::new(node(RENDER));
    assert_eq!(backend.primary_gpu(), node(RENDER));
    assert_eq!(backend.device_count(), 0);
    assert_eq!(backend.layout().len(), 0);
    assert_eq!(backend.render(node(CARD0), None), Vec::<u32>::new());
    assert_eq!(backend.early_import(), (Some(node(RENDER)), node(RENDER)));
}

#[test]
fn cold_start_with_one_hdmi_monitor() {
    let mut backend = Backend::new(node(RENDER));
    add(&mut backend, CARD0, hdmi_only());
    assert_eq!(backend.device_count(), 1);
    let outputs = outputs(&backend);
    assert_eq!(outputs.len(), 1);
    let output = &outputs[0];
    assert_eq!(output.name, "HDMI-A-1");
    let mode = OutputMode { width: 1920, height: 1080, refresh: 60_000 };
    assert_eq!(output.current_mode, Some(mode));
    assert_eq!(output.preferred_mode, output.current_mode);
    assert_eq!(output.position, Point { x: 0, y: 0 });
    assert_eq!(output.id, OutputId { device_id: node(CARD0), crtc: 41 });
    assert_eq!(output.physical.size, PhysicalSize { w: 600, h: 340 });
    assert_eq!(output.physical.subpixel, Subpixel::Unknown);
    assert_eq!(output.physical.make, "Smithay");
    assert_eq!(output.physical.model, "Generic DRM");

    // One surface, so one first frame is scheduled.
    assert_eq!(backend.render(node(CARD0), None), vec![41]);
    assert_eq!(state(&backend, CARD0, 41), FrameState::Idle);
    assert_eq!(initial_render(&mut backend, CARD0, 41), FrameAction::Wait);
    assert_eq!(state(&backend, CARD0, 41), FrameState::AwaitingVBlank);

    // The first vertical blank renders the CRTC it is for.
    assert_eq!(backend.render(node(CARD0), Some(41)), vec![41]);
    let (slot, age, action) = vblank_frame(&mut backend, CARD0, 41);
    assert_ne!(slot, 1);
    assert_eq!(age, 0);
    assert_eq!(action, FrameAction::Wait);
    assert_eq!(state(&backend, CARD0, 41), FrameState::Idle);
    let surface = backend.surface(node(CARD0), 41).unwrap();
    assert_eq!(surface.render_node(), node(RENDER));
    assert_eq!(surface.device_id(), node(CARD0));
    assert_eq!(surface.surface().current(), 1);
    assert_eq!(surface.surface().pending(), Some(slot));
}

#[test]
fn hot_plug_of_a_second_monitor() {
    let mut backend = Backend::new(node(RENDER));
    add(&mut backend, CARD0, hdmi_only());
    initial_render(&mut backend, CARD0, 41);

    // The change is announced: the old outputs are unmapped.
    assert!(backend.device_changed(node(CARD0)));
    assert_eq!(backend.layout().len(), 0);
    assert_eq!(backend.render(node(CARD0), None), vec![41]);

    assert!(change(&mut backend, CARD0, hdmi_and_dp()));
    assert_eq!(names(&backend), vec!["HDMI-A-1", "DP-1"]);
    let outputs = outputs(&backend);
    assert_eq!(outputs[0].position, Point { x: 0, y: 0 });
    assert_eq!(outputs[1].position, Point { x: 1920, y: 0 });
    assert_eq!(
        outputs[1].current_mode,
        Some(OutputMode { width: 2560, height: 1440, refresh: 144_000 })
    );
    assert_eq!(outputs[0].id.crtc, 41);
    assert_eq!(outputs[1].id.crtc, 42);

    // Both surfaces are new and get a first frame.
    assert_eq!(backend.render(node(CARD0), None), vec![41, 42]);
    for crtc in [41, 42] {
        assert_eq!(state(&backend, CARD0, crtc), FrameState::Idle);
        assert_eq!(initial_render(&mut backend, CARD0, crtc), FrameAction::Wait);
        assert_eq!(state(&backend, CARD0, crtc), FrameState::AwaitingVBlank);
    }
}

#[test]
fn monitor_disconnect() {
    let mut backend = Backend::new(node(RENDER));
    add(&mut backend, CARD0, hdmi_and_dp());
    assert_eq!(names(&backend), vec!["HDMI-A-1", "DP-1"]);
    assert!(change(&mut backend, CARD0, dp_only()));
    assert_eq!(names(&backend), vec!["DP-1"]);
    let outputs = outputs(&backend);
    assert_eq!(outputs[0].position, Point { x: 0, y: 0 });
    assert_eq!(outputs[0].id, OutputId { device_id: node(CARD0), crtc: 41 });
    assert_eq!(backend.render(node(CARD0), None), vec![41]);
    assert!(backend.surface(node(CARD0), 42).is_none());

    assert!(change(&mut backend, CARD0, nothing_plugged()));
    assert_eq!(backend.layout().len(), 0);
    assert_eq!(backend.render(node(CARD0), None), Vec::<u32>::new());
    assert_eq!(backend.device_count(), 1);
}

#[test]
fn suspended_session_schedules_no_retry() {
    let mut backend = Backend::new(node(RENDER));
    add(&mut backend, CARD0, hdmi_only());
    initial_render(&mut backend, CARD0, 41);

    let (step, _) = backend.frame_begin(node(CARD0), 41, FrameKind::Regular);
    let slot = match step {
        FrameStep::Bind { slot, .. } => slot,
        other => panic!("unexpected step {:?}", other),
    };
    assert_eq!(
        backend.frame_drawn(node(CARD0), 41, FrameKind::Regular, Ok(true)),
        FrameStep::Flip { slot }
    );
    let inactive = SwapBuffersError::TemporaryFailure(FailureCause::DeviceInactive);
    assert_eq!(
        backend.frame_flipped(node(CARD0), 41, FrameKind::Regular, Err(inactive)),
        FrameAction::Wait
    );
    assert_eq!(state(&backend, CARD0, 41), FrameState::Idle);
    assert_eq!(backend.surface(node(CARD0), 41).unwrap().surface().pending(), None);

    // Nothing happens while paused; the resume renders every CRTC of the device.
    assert!(!render_on_signal(SessionSignal::Paused));
    assert!(render_on_signal(SessionSignal::Resumed));
    assert_eq!(backend.render(node(CARD0), None), vec![41]);
    let (again, _, action) = vblank_frame(&mut backend, CARD0, 41);
    assert_eq!(again, slot);
    assert_eq!(action, FrameAction::Wait);
    assert_eq!(backend.surface(node(CARD0), 41).unwrap().surface().pending(), Some(slot));
}

#[test]
fn activation_renders_every_live_device() {
    let mut backend = Backend::new(node(RENDER));
    assert_eq!(backend.restart(SessionSignal::Resumed), Vec::<DeviceNode>::new());
    add(&mut backend, CARD1, hdmi_only());
    add(&mut backend, CARD0, nothing_plugged());
    assert_eq!(backend.nodes(), vec![node(CARD1), node(CARD0)]);
    assert_eq!(backend.restart(SessionSignal::Resumed), vec![node(CARD1), node(CARD0)]);
    assert_eq!(
        backend.restart(SessionSignal::DeviceActivated { node: node(CARD1) }),
        vec![node(CARD1), node(CARD0)]
    );
    assert_eq!(backend.restart(SessionSignal::Paused), Vec::<DeviceNode>::new());
    assert_eq!(
        backend.restart(SessionSignal::DeviceDeactivated { node: node(CARD1) }),
        Vec::<DeviceNode>::new()
    );
    backend.device_removed(node(CARD1));
    assert_eq!(backend.restart(SessionSignal::Resumed), vec![node(CARD0)]);
}

#[test]
fn frames_are_drawn_across_gpus() {
    let mut backend = Backend::new(node(CARD1));
    add(&mut backend, CARD0, hdmi_only());
    let regular = backend.renderer(node(CARD0), 41, FrameKind::Regular).unwrap();
    assert_eq!(regular.allocation, node(CARD1));
    assert_eq!(regular.target, node(RENDER));
    assert!(regular.imports());
    let initial = backend.renderer(node(CARD0), 41, FrameKind::Initial).unwrap();
    assert_eq!(initial.allocation, node(RENDER));
    assert_eq!(initial.target, node(RENDER));
    assert!(!initial.imports());
    assert_eq!(backend.renderer(node(CARD0), 42, FrameKind::Regular), None);
    assert_eq!(backend.renderer(node(CARD1), 41, FrameKind::Initial), None);
}

#[test]
fn io_error_schedules_a_retry() {
    let mut backend = Backend::new(node(RENDER));
    add(&mut backend, CARD0, hdmi_only());
    backend.frame_begin(node(CARD0), 41, FrameKind::Regular);
    backend.frame_drawn(node(CARD0), 41, FrameKind::Regular, Ok(true));
    let failure = SwapBuffersError::TemporaryFailure(FailureCause::Io);
    assert_eq!(
        backend.frame_flipped(node(CARD0), 41, FrameKind::Regular, Err(failure)),
        FrameAction::RetryAfter { delay_ms: 16 }
    );
    assert_eq!(state(&backend, CARD0, 41), FrameState::StalledRetrying);
    // The retry timer fires and the frame goes through.
    assert_eq!(backend.render(node(CARD0), Some(41)), vec![41]);
    let (_, _, action) = vblank_frame(&mut backend, CARD0, 41);
    assert_eq!(action, FrameAction::Wait);
    assert_eq!(state(&backend, CARD0, 41), FrameState::Idle);
}

#[test]
fn pending_frame_schedules_no_retry() {
    let mut backend = Backend::new(node(RENDER));
    add(&mut backend, CARD0, hdmi_only());
    initial_render(&mut backend, CARD0, 41);
    // A first frame is pending and no vertical blank came: draw the first frame again.
    let (step, _) = backend.frame_begin(node(CARD0), 41, FrameKind::Initial);
    assert!(matches!(step, FrameStep::Bind { .. }));
    assert_eq!(
        backend.frame_drawn(node(CARD0), 41, FrameKind::Initial, Ok(true)),
        FrameStep::Done(FrameAction::Wait)
    );
    assert_eq!(state(&backend, CARD0, 41), FrameState::AwaitingVBlank);
}

#[test]
fn render_failure_ends_the_pass() {
    let mut backend = Backend::new(node(RENDER));
    add(&mut backend, CARD0, hdmi_only());
    backend.frame_begin(node(CARD0), 41, FrameKind::Regular);
    let failure = SwapBuffersError::TemporaryFailure(FailureCause::Rendering);
    assert_eq!(
        backend.frame_drawn(node(CARD0), 41, FrameKind::Regular, Err(failure)),
        FrameStep::Done(FrameAction::RetryAfter { delay_ms: 16 })
    );
    backend.frame_begin(node(CARD0), 41, FrameKind::Regular);
    assert_eq!(
        backend.frame_drawn(node(CARD0), 41, FrameKind::Regular, Ok(false)),
        FrameStep::Done(FrameAction::RetryAfter { delay_ms: 16 })
    );
    backend.frame_begin(node(CARD0), 41, FrameKind::Regular);
    let lost = SwapBuffersError::ContextLost(FailureCause::Rendering);
    assert_eq!(
        backend.frame_drawn(node(CARD0), 41, FrameKind::Regular, Err(lost)),
        FrameStep::Done(FrameAction::Terminate)
    );
    assert_eq!(state(&backend, CARD0, 41), FrameState::StalledRetrying);
}

#[test]
fn surface_without_output_has_nothing_to_render() {
    let mut backend = Backend::new(node(RENDER));
    add(&mut backend, CARD0, hdmi_only());
    assert!(backend.device_changed(node(CARD0)));
    // The outputs are unmapped but the surfaces are still there.
    let (step, error) = backend.frame_begin(node(CARD0), 41, FrameKind::Regular);
    assert_eq!(step, FrameStep::Done(FrameAction::Wait));
    assert!(error.is_none());
    // A first frame needs no output.
    let (step, _) = backend.frame_begin(node(CARD0), 41, FrameKind::Initial);
    assert_eq!(step, FrameStep::Bind { slot: 1, age: 0 });
}

#[test]
fn first_frame_retries_are_bounded() {
    let mut backend = Backend::new(node(RENDER));
    add(&mut backend, CARD0, hdmi_only());
    let failure = SwapBuffersError::TemporaryFailure(FailureCause::Io);
    for retries in 0..3u8 {
        assert_eq!(backend.surface(node(CARD0), 41).unwrap().initial_retries(), retries);
        backend.frame_begin(node(CARD0), 41, FrameKind::Initial);
        backend.frame_drawn(node(CARD0), 41, FrameKind::Initial, Ok(true));
        assert_eq!(
            backend.frame_flipped(node(CARD0), 41, FrameKind::Initial, Err(failure)),
            FrameAction::RetryWhenIdle
        );
        assert_eq!(state(&backend, CARD0, 41), FrameState::StalledRetrying);
    }
    backend.frame_begin(node(CARD0), 41, FrameKind::Initial);
    backend.frame_drawn(node(CARD0), 41, FrameKind::Initial, Ok(true));
    assert_eq!(
        backend.frame_flipped(node(CARD0), 41, FrameKind::Initial, Err(failure)),
        FrameAction::Wait
    );
    assert_eq!(state(&backend, CARD0, 41), FrameState::Idle);
    assert_eq!(backend.surface(node(CARD0), 41).unwrap().initial_retries(), 0);
}

#[test]
fn first_frame_forgets_buffer_ages() {
    let mut backend = Backend::new(node(RENDER));
    add(&mut backend, CARD0, hdmi_only());
    initial_render(&mut backend, CARD0, 41);
    let (_, age, _) = vblank_frame(&mut backend, CARD0, 41);
    assert_eq!(age, 0);
    let (slot, age, _) = vblank_frame(&mut backend, CARD0, 41);
    // The buffer of the first frame was queued before the reset.
    assert_eq!((slot, age), (1, 0));
    let (_, age, _) = vblank_frame(&mut backend, CARD0, 41);
    assert_eq!(age, 2);
}

#[test]
fn failed_allocation_counts_as_context_loss() {
    let mut backend = Backend::new(node(RENDER));
    let mut gbm = Gbm::new();
    gbm.budget = 1;
    let result = first_scan(CARD0, hdmi_only(), &mut gbm);
    assert_eq!(result.len(), 1);
    backend.device_added(SessionFd(10), gbm, 1, result);
    let (step, error) = backend.frame_begin(node(CARD0), 41, FrameKind::Regular);
    assert_eq!(step, FrameStep::Done(FrameAction::Terminate));
    assert_eq!(error, Some("out of buffers".to_string()));
}

#[test]
fn unknown_surface_is_left_alone() {
    let mut backend = Backend::new(node(RENDER));
    add(&mut backend, CARD0, hdmi_only());
    for (dev, crtc) in [(CARD0, 42), (CARD1, 41)] {
        let (step, error) = backend.frame_begin(node(dev), crtc, FrameKind::Regular);
        assert_eq!(step, FrameStep::Done(FrameAction::Wait));
        assert!(error.is_none());
        assert_eq!(
            backend.frame_drawn(node(dev), crtc, FrameKind::Regular, Ok(true)),
            FrameStep::Done(FrameAction::Wait)
        );
        let lost = SwapBuffersError::ContextLost(FailureCause::Io);
        assert_eq!(
            backend.frame_flipped(node(dev), crtc, FrameKind::Regular, Err(lost)),
            FrameAction::Wait
        );
        assert!(!backend.reset_buffers(OutputId { device_id: node(dev), crtc }));
        assert!(backend.surface(node(dev), crtc).is_none());
    }
    assert_eq!(backend.render(node(CARD0), Some(42)), Vec::<u32>::new());
    assert_eq!(backend.render(node(CARD1), Some(41)), Vec::<u32>::new());
    assert_eq!(backend.render(node(CARD1), None), Vec::<u32>::new());
    assert!(!backend.device_changed(node(CARD1)));
    assert!(backend.device_removed(node(CARD1)).is_none());
    assert!(backend
        .create_surface(node(CARD1), 8, 8, DrmFourcc::Argb8888, Vec::new())
        .is_none());
}

#[test]
fn rescan_of_an_unknown_device_is_dropped() {
    let mut backend = Backend::new(node(RENDER));
    add(&mut backend, CARD0, hdmi_only());
    let mut gbm = Gbm::new();
    let result = first_scan(CARD1, hdmi_and_dp(), &mut gbm);
    assert!(!backend.device_rescanned(result));
    assert_eq!(names(&backend), vec!["HDMI-A-1"]);
    assert_eq!(backend.device_count(), 1);
}

#[test]
fn device_with_nothing_plugged_is_added_without_outputs() {
    let mut backend = Backend::new(node(RENDER));
    add(&mut backend, CARD0, nothing_plugged());
    assert_eq!(backend.device_count(), 1);
    assert_eq!(backend.layout().len(), 0);
    assert_eq!(backend.render(node(CARD0), None), Vec::<u32>::new());
    // It presents nothing until a change is announced.
    assert!(change(&mut backend, CARD0, hdmi_only()));
    assert_eq!(names(&backend), vec!["HDMI-A-1"]);
}

#[test]
fn outputs_of_a_second_device_go_to_the_right() {
    let mut backend = Backend::new(node(RENDER));
    add(&mut backend, CARD0, hdmi_and_dp());
    add(&mut backend, CARD1, hdmi_only());
    assert_eq!(names(&backend), vec!["HDMI-A-1", "DP-1", "HDMI-A-1"]);
    let outputs = outputs(&backend);
    assert_eq!(outputs[2].position, Point { x: 1920 + 2560, y: 0 });
    assert_eq!(outputs[2].id, OutputId { device_id: node(CARD1), crtc: 41 });
    assert_eq!(backend.render(node(CARD0), None), vec![41, 42]);
    assert_eq!(backend.render(node(CARD1), None), vec![41]);
    assert_eq!(backend.device_count(), 2);
}

#[test]
fn every_output_is_scanned_out_by_a_live_surface() {
    let mut backend = Backend::new(node(RENDER));
    add(&mut backend, CARD0, hdmi_and_dp());
    add(&mut backend, CARD1, hdmi_only());
    change(&mut backend, CARD0, dp_only());
    for output in outputs(&backend) {
        let surface = backend.surface(output.id.device_id, output.id.crtc).unwrap();
        assert_eq!(surface.crtc(), output.id.crtc);
        assert_eq!(surface.device_id(), output.id.device_id);
        assert!(output.current_mode.is_some());
    }
    backend.device_removed(node(CARD1));
    for output in outputs(&backend) {
        assert!(backend.surface(output.id.device_id, output.id.crtc).is_some());
    }
}

#[test]
fn removal_undoes_addition() {
    let mut backend = Backend::new(node(RENDER));
    add(&mut backend, CARD0, hdmi_and_dp());
    let before = outputs(&backend);
    add(&mut backend, CARD1, hdmi_only());
    let removed = backend.device_removed(node(CARD1)).unwrap();
    assert_eq!(removed.node(), node(CARD1));
    assert_eq!(removed.fd(), SessionFd(10));
    assert_eq!(removed.registration_token(), CARD1 + 1000);
    assert_eq!(removed.surface_count(), 0);
    assert_eq!(removed.into_allocator().made, 1);
    assert_eq!(outputs(&backend), before);
    assert_eq!(backend.device_count(), 1);
    assert_eq!(backend.render(node(CARD0), None), vec![41, 42]);
    assert_eq!(backend.primary_gpu(), node(RENDER));
}

#[test]
fn removal_lays_the_outputs_left_out_anew() {
    let mut backend = Backend::new(node(RENDER));
    add(&mut backend, CARD0, hdmi_only());
    add(&mut backend, CARD1, hdmi_and_dp());
    assert_eq!(outputs(&backend)[1].position, Point { x: 1920, y: 0 });
    assert!(backend.device_removed(node(CARD0)).is_some());
    assert_eq!(names(&backend), vec!["HDMI-A-1", "DP-1"]);
    let outputs = outputs(&backend);
    assert_eq!(outputs[0].position, Point { x: 0, y: 0 });
    assert_eq!(outputs[1].position, Point { x: 1920, y: 0 });
    assert_eq!(outputs[0].id.device_id, node(CARD1));
}

#[test]
fn removed_device_renders_nothing() {
    let mut backend = Backend::new(node(RENDER));
    add(&mut backend, CARD0, hdmi_and_dp());
    initial_render(&mut backend, CARD0, 41);
    assert!(backend.device_removed(node(CARD0)).is_some());
    assert_eq!(backend.render(node(CARD0), None), Vec::<u32>::new());
    assert_eq!(backend.render(node(CARD0), Some(41)), Vec::<u32>::new());
    let (step, error) = backend.frame_begin(node(CARD0), 41, FrameKind::Regular);
    assert_eq!(step, FrameStep::Done(FrameAction::Wait));
    assert!(error.is_none());
    assert_eq!(backend.layout().len(), 0);
    assert_eq!(backend.device_count(), 0);
    assert!(backend.device_removed(node(CARD0)).is_none());
}

#[test]
fn rescan_without_a_change_changes_nothing() {
    let mut backend = Backend::new(node(RENDER));
    add(&mut backend, CARD1, hdmi_only());
    add(&mut backend, CARD0, hdmi_and_dp());
    assert!(change(&mut backend, CARD0, hdmi_and_dp()));
    let once = outputs(&backend);
    let crtcs = backend.render(node(CARD0), None);
    let bindings: Vec<_> =
        crtcs.iter().map(|c| backend.surface(node(CARD0), *c).unwrap().binding()).collect();
    assert!(change(&mut backend, CARD0, hdmi_and_dp()));
    assert_eq!(outputs(&backend), once);
    assert_eq!(backend.render(node(CARD0), None), crtcs);
    let again: Vec<_> =
        crtcs.iter().map(|c| backend.surface(node(CARD0), *c).unwrap().binding()).collect();
    assert_eq!(again, bindings);
    assert_eq!(crtcs, vec![41, 42]);
    assert_eq!(bindings[0].mode, full_hd());
    assert_eq!(bindings[1].mode, quad_hd());
    assert_eq!(names(&backend), vec!["HDMI-A-1", "HDMI-A-1", "DP-1"]);
}

#[test]
fn adding_a_live_device_replaces_it() {
    let mut backend = Backend::new(node(RENDER));
    add(&mut backend, CARD0, hdmi_and_dp());
    add(&mut backend, CARD1, hdmi_only());
    let mut gbm = Gbm::new();
    let result = first_scan(CARD0, dp_only(), &mut gbm);
    let replaced = backend.device_added(SessionFd(11), gbm, 77, result).unwrap();
    assert_eq!(replaced.node(), node(CARD0));
    assert_eq!(replaced.registration_token(), CARD0 + 1000);
    assert_eq!(backend.device_count(), 2);
    assert_eq!(names(&backend), vec!["HDMI-A-1", "DP-1"]);
    let outputs = outputs(&backend);
    assert_eq!(outputs[0].id.device_id, node(CARD1));
    assert_eq!(outputs[0].position, Point { x: 0, y: 0 });
    assert_eq!(outputs[1].id, OutputId { device_id: node(CARD0), crtc: 41 });
    assert_eq!(outputs[1].position, Point { x: 1920, y: 0 });
}

#[test]
fn crtcs_of_a_device_are_all_different() {
    let mut backend = Backend::new(node(RENDER));
    add(&mut backend, CARD0, hdmi_and_dp());
    add(&mut backend, CARD1, hdmi_and_dp());
    for dev in [CARD0, CARD1] {
        let mut crtcs = backend.render(node(dev), None);
        let count = crtcs.len();
        crtcs.sort();
        crtcs.dedup();
        assert_eq!(crtcs.len(), count);
        assert_eq!(count, 2);
    }
}

#[test]
fn reset_buffers_of_an_output() {
    let mut backend = Backend::new(node(RENDER));
    add(&mut backend, CARD0, hdmi_only());
    vblank_frame(&mut backend, CARD0, 41);
    vblank_frame(&mut backend, CARD0, 41);
    let output = outputs(&backend)[0].id;
    assert!(backend.reset_buffers(output));
    let (_, age, _) = vblank_frame(&mut backend, CARD0, 41);
    assert_eq!(age, 0);
}

#[test]
fn record_holds_the_allocator_the_device_was_added_with() {
    let mut backend = Backend::new(node(RENDER));
    let mut gbm = Gbm::new();
    gbm.budget = 3;
    let result = first_scan(CARD0, hdmi_only(), &mut gbm);
    backend.device_added(SessionFd(10), gbm, 1, result);
    add(&mut backend, CARD1, hdmi_and_dp());
    {
        let allocator = backend.backend(node(CARD0)).unwrap().allocator();
        assert_eq!((allocator.made, allocator.budget), (1, 3));
    }
    assert_eq!(backend.backend(node(CARD1)).unwrap().allocator().made, 2);
    assert!(backend.backend(node(RENDER)).is_none());
    // A frame that needs a new buffer asks the allocator of its device, and no other.
    vblank_frame(&mut backend, CARD0, 41);
    assert_eq!(backend.backend(node(CARD0)).unwrap().allocator().made, 2);
    assert_eq!(backend.backend(node(CARD1)).unwrap().allocator().made, 2);
    // The next frame draws into the buffer that was on screen first.
    vblank_frame(&mut backend, CARD0, 41);
    backend.reset_buffers(OutputId { device_id: node(CARD0), crtc: 41 });
    backend.device_changed(node(CARD1));
    assert_eq!(backend.backend(node(CARD0)).unwrap().allocator().made, 2);
    let removed = backend.device_removed(node(CARD0)).unwrap();
    assert_eq!(removed.allocator().budget, 3);
    assert_eq!(removed.into_allocator().made, 2);
    assert_eq!(backend.backend(node(CARD1)).unwrap().allocator().made, 2);
}

#[test]
fn rescan_uses_the_allocator_of_the_device() {
    let mut backend = Backend::new(node(RENDER));
    add(&mut backend, CARD0, hdmi_only());
    let created =
        backend.create_surface(node(CARD0), 8, 8, DrmFourcc::Argb8888, Vec::new()).unwrap();
    let surface = created.unwrap();
    // The first scan made one buffer with this allocator.
    assert_eq!(surface.buffer(0).unwrap().id, 2);
    assert_eq!(names(&backend), vec!["HDMI-A-1"]);
}

fn cursor(delay: u32, pixel: u8) -> CursorFrame {
    CursorFrame {
        size: 24,
        width: 2,
        height: 1,
        xhot: 0,
        yhot: 0,
        delay,
        pixels_rgba: vec![pixel, 0, 0, 255, 1, 2, 3, 4],
        pixels_argb: vec![255, pixel, 0, 0, 4, 1, 2, 3],
    }
}

#[test]
fn pointer_images_are_uploaded_once() {
    let mut backend = Backend::new(node(RENDER));
    assert_eq!(backend.pointer_texture(&cursor(50, 1)), None);
    assert_eq!(backend.cache_pointer_texture(cursor(50, 1), TextureId(7)), TextureId(7));
    assert_eq!(backend.pointer_texture(&cursor(50, 1)), Some(TextureId(7)));
    assert_eq!(backend.pointer_texture(&cursor(50, 2)), None);
    assert_eq!(backend.pointer_texture(&cursor(51, 1)), None);
    // A second upload of the same frame is not kept.
    assert_eq!(backend.cache_pointer_texture(cursor(50, 1), TextureId(8)), TextureId(7));
    assert_eq!(backend.cache_pointer_texture(cursor(50, 2), TextureId(9)), TextureId(9));
    assert_eq!(backend.pointer_texture(&cursor(50, 1)), Some(TextureId(7)));
    assert_eq!(backend.pointer_texture(&cursor(50, 2)), Some(TextureId(9)));
}
