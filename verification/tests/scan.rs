use drm_fourcc::{DrmFormat, DrmFourcc, DrmModifier};
use kms_backend::allocator::{Allocator, Buffer, BufferSize};
use kms_backend::connector::{
    candidate_crtcs, filter_crtcs, ConnectorInfo, ConnectorState, DeviceResources, EncoderInfo,
    Interface, Mode,
};
use kms_backend::node::DeviceNode;
use kms_backend::scanner::{Attempt, ScanResult, Scanner};
use kms_backend::surface::RenderSurface;

struct FakeBuffer {
    w: u32,
    h: u32,
}

impl Buffer for FakeBuffer {
    fn size_spec(&self) -> BufferSize {
        self.size()
    }
    fn size(&self) -> BufferSize {
        BufferSize { w: self.w as i32, h: self.h as i32 }
    }
    fn format(&self) -> DrmFormat {
        DrmFormat { code: DrmFourcc::Argb8888, modifier: DrmModifier::Linear }
    }
}

struct FakeAllocator {
    fail: bool,
    made: usize,
}

impl Allocator<FakeBuffer> for FakeAllocator {
    type Error = String;

    fn create_buffer(
        &mut self,
        width: u32,
        height: u32,
        _fourcc: DrmFourcc,
        _modifiers: &[DrmModifier],
    ) -> Result<FakeBuffer, String> {
        if self.fail {
            Err("out of memory".to_string())
        } else {
            self.made += 1;
            Ok(FakeBuffer { w: width, h: height })
        }
    }
}

fn connector(
    handle: u32,
    interface: Interface,
    interface_id: u32,
    state: ConnectorState,
    modes: Vec<Mode>,
    encoders: Vec<EncoderInfo>,
) -> ConnectorInfo {
    ConnectorInfo { handle, interface, interface_id, state, size: Some((520, 290)), modes, encoders }
}

fn full_hd() -> Mode {
    Mode { width: 1920, height: 1080, vrefresh: 60 }
}

fn quad_hd() -> Mode {
    Mode { width: 2560, height: 1440, vrefresh: 144 }
}

fn run_scan(
    node: DeviceNode,
    resources: DeviceResources,
    render_node: Option<DeviceNode>,
    refuse: &[(u32, u32)],
) -> (ScanResult<FakeBuffer>, Vec<Attempt>) {
    let mut allocator = FakeAllocator { fail: false, made: 0 };
    let mut scanner: Scanner<FakeBuffer> = Scanner::new(node, resources, render_node);
    let mut attempts = Vec::new();
    while let Some(attempt) = scanner.next_attempt() {
        attempts.push(attempt);
        if refuse.contains(&(attempt.connector, attempt.crtc)) {
            assert!(scanner.attempt_failed());
        } else {
            let surface = RenderSurface::new(
                &mut allocator,
                attempt.mode.width as u32,
                attempt.mode.height as u32,
                DrmFourcc::Argb8888,
                vec![DrmModifier::Linear],
            )
            .unwrap();
            assert!(scanner.attempt_succeeded(surface));
        }
    }
    (scanner.finish(), attempts)
}

#[test]
fn single_connector_gets_first_permitted_crtc() {
    let resources = DeviceResources {
        crtcs: vec![41, 42, 43],
        connectors: vec![connector(
            7,
            Interface::HDMIA,
            1,
            ConnectorState::Connected,
            vec![full_hd(), quad_hd()],
            vec![EncoderInfo { handle: 30, possible_crtcs: 0b110 }],
        )],
    };
    let node = DeviceNode::from_dev_id(0xe200);
    let (result, attempts) = run_scan(node, resources, Some(DeviceNode::from_dev_id(0xe280)), &[]);
    assert_eq!(attempts, vec![Attempt { connector: 7, crtc: 42, mode: full_hd() }]);
    assert_eq!(result.len(), 1);
    let surface = result.get(0).unwrap();
    assert_eq!(surface.crtc(), 42);
    assert_eq!(surface.device_id(), node);
    assert_eq!(surface.render_node(), DeviceNode::from_dev_id(0xe280));
    assert_eq!(surface.binding().mode, full_hd());
    assert!(result.get(1).is_none());
}

fn hdmi(handle: u32, id: u32, mask: u32) -> ConnectorInfo {
    connector(
        handle,
        Interface::HDMIA,
        id,
        ConnectorState::Connected,
        vec![full_hd()],
        vec![EncoderInfo { handle: 100 + handle, possible_crtcs: mask }],
    )
}

fn card() -> DeviceNode {
    DeviceNode::from_dev_id(0xe200)
}

fn render() -> Option<DeviceNode> {
    Some(DeviceNode::from_dev_id(0xe280))
}

#[test]
fn filter_keeps_permitted_positions_in_order() {
    assert_eq!(filter_crtcs(&vec![41, 42, 43], 0b000), Vec::<u32>::new());
    assert_eq!(filter_crtcs(&vec![41, 42, 43], 0b001), vec![41]);
    assert_eq!(filter_crtcs(&vec![41, 42, 43], 0b110), vec![42, 43]);
    assert_eq!(filter_crtcs(&vec![41, 42, 43], 0b111), vec![41, 42, 43]);
    assert_eq!(filter_crtcs(&vec![41, 42, 43], 0b1000), Vec::<u32>::new());
    assert_eq!(filter_crtcs(&vec![41, 42, 43], u32::MAX), vec![41, 42, 43]);
    assert_eq!(filter_crtcs(&Vec::new(), u32::MAX), Vec::<u32>::new());
}

#[test]
fn filter_ignores_crtcs_past_the_mask() {
    let crtcs: Vec<u32> = (1..=40).collect();
    let all: Vec<u32> = (1..=32).collect();
    assert_eq!(filter_crtcs(&crtcs, u32::MAX), all);
    assert_eq!(filter_crtcs(&crtcs, 1 << 31), vec![32]);
}

#[test]
fn candidates_follow_the_encoders() {
    let encoders = vec![
        EncoderInfo { handle: 1, possible_crtcs: 0b100 },
        EncoderInfo { handle: 2, possible_crtcs: 0b011 },
        EncoderInfo { handle: 3, possible_crtcs: 0b010 },
    ];
    assert_eq!(candidate_crtcs(&encoders, &vec![41, 42, 43]), vec![43, 41, 42, 42]);
    assert_eq!(candidate_crtcs(&Vec::new(), &vec![41, 42, 43]), Vec::<u32>::new());
    assert_eq!(candidate_crtcs(&encoders, &Vec::new()), Vec::<u32>::new());
}

#[test]
fn no_connected_connector_gives_no_surface() {
    let resources = DeviceResources {
        crtcs: vec![41, 42],
        connectors: vec![
            connector(
                7,
                Interface::HDMIA,
                1,
                ConnectorState::Disconnected,
                vec![full_hd()],
                vec![EncoderInfo { handle: 30, possible_crtcs: 0b11 }],
            ),
            connector(
                8,
                Interface::DisplayPort,
                1,
                ConnectorState::Unknown,
                vec![full_hd()],
                vec![EncoderInfo { handle: 31, possible_crtcs: 0b11 }],
            ),
        ],
    };
    let (result, attempts) = run_scan(card(), resources, render(), &[]);
    assert!(attempts.is_empty());
    assert_eq!(result.len(), 0);
    assert_eq!(result.node(), card());
}

#[test]
fn device_without_connectors_gives_no_surface() {
    let resources = DeviceResources { crtcs: vec![41], connectors: Vec::new() };
    let (result, attempts) = run_scan(card(), resources, render(), &[]);
    assert!(attempts.is_empty());
    assert_eq!(result.len(), 0);
}

#[test]
fn no_render_node_gives_no_surface() {
    let resources = DeviceResources { crtcs: vec![41, 42], connectors: vec![hdmi(7, 1, 0b11)] };
    let (result, attempts) = run_scan(card(), resources, None, &[]);
    assert!(attempts.is_empty());
    assert_eq!(result.len(), 0);
}

#[test]
fn contended_crtc_goes_to_the_first_connector() {
    let resources = DeviceResources {
        crtcs: vec![41, 42],
        connectors: vec![hdmi(7, 1, 0b01), hdmi(8, 2, 0b01)],
    };
    let (result, attempts) = run_scan(card(), resources, render(), &[]);
    assert_eq!(attempts, vec![Attempt { connector: 7, crtc: 41, mode: full_hd() }]);
    assert_eq!(result.len(), 1);
    assert_eq!(result.get(0).unwrap().binding().connector, 7);
    assert_eq!(result.get(0).unwrap().crtc(), 41);
}

#[test]
fn later_connector_takes_the_next_free_crtc() {
    let resources = DeviceResources {
        crtcs: vec![41, 42, 43],
        connectors: vec![hdmi(7, 1, 0b111), hdmi(8, 2, 0b111), hdmi(9, 3, 0b011)],
    };
    let (result, attempts) = run_scan(card(), resources, render(), &[]);
    assert_eq!(
        attempts,
        vec![
            Attempt { connector: 7, crtc: 41, mode: full_hd() },
            Attempt { connector: 8, crtc: 42, mode: full_hd() },
        ]
    );
    assert_eq!(result.len(), 2);
    assert_eq!(result.get(0).unwrap().crtc(), 41);
    assert_eq!(result.get(1).unwrap().crtc(), 42);
}

#[test]
fn failed_attempt_moves_on_to_the_next_candidate() {
    let resources = DeviceResources {
        crtcs: vec![41, 42, 43],
        connectors: vec![hdmi(7, 1, 0b111), hdmi(8, 2, 0b001)],
    };
    let (result, attempts) = run_scan(card(), resources, render(), &[(7, 41)]);
    assert_eq!(
        attempts,
        vec![
            Attempt { connector: 7, crtc: 41, mode: full_hd() },
            Attempt { connector: 7, crtc: 42, mode: full_hd() },
            Attempt { connector: 8, crtc: 41, mode: full_hd() },
        ]
    );
    assert_eq!(result.len(), 2);
    assert_eq!(result.get(0).unwrap().crtc(), 42);
    assert_eq!(result.get(1).unwrap().crtc(), 41);
}

#[test]
fn connector_is_passed_over_when_every_attempt_fails() {
    let resources = DeviceResources {
        crtcs: vec![41, 42],
        connectors: vec![hdmi(7, 1, 0b11), hdmi(8, 2, 0b10)],
    };
    let (result, attempts) = run_scan(card(), resources, render(), &[(7, 41), (7, 42)]);
    assert_eq!(
        attempts,
        vec![
            Attempt { connector: 7, crtc: 41, mode: full_hd() },
            Attempt { connector: 7, crtc: 42, mode: full_hd() },
            Attempt { connector: 8, crtc: 42, mode: full_hd() },
        ]
    );
    assert_eq!(result.len(), 1);
    assert_eq!(result.get(0).unwrap().binding().connector, 8);
}

#[test]
fn crtc_permitted_by_two_encoders_is_tried_twice() {
    let resources = DeviceResources {
        crtcs: vec![41],
        connectors: vec![connector(
            7,
            Interface::DisplayPort,
            1,
            ConnectorState::Connected,
            vec![quad_hd()],
            vec![
                EncoderInfo { handle: 30, possible_crtcs: 0b1 },
                EncoderInfo { handle: 31, possible_crtcs: 0b1 },
            ],
        )],
    };
    let (result, attempts) = run_scan(card(), resources, render(), &[(7, 41)]);
    assert_eq!(
        attempts,
        vec![
            Attempt { connector: 7, crtc: 41, mode: quad_hd() },
            Attempt { connector: 7, crtc: 41, mode: quad_hd() },
        ]
    );
    assert_eq!(result.len(), 0);
}

#[test]
fn connected_connector_without_modes_is_passed_over() {
    let resources = DeviceResources {
        crtcs: vec![41, 42],
        connectors: vec![
            connector(
                7,
                Interface::HDMIA,
                1,
                ConnectorState::Connected,
                Vec::new(),
                vec![EncoderInfo { handle: 30, possible_crtcs: 0b11 }],
            ),
            hdmi(8, 2, 0b11),
        ],
    };
    let (result, attempts) = run_scan(card(), resources, render(), &[]);
    assert_eq!(attempts, vec![Attempt { connector: 8, crtc: 41, mode: full_hd() }]);
    assert_eq!(result.len(), 1);
}

#[test]
fn connector_without_encoders_is_passed_over() {
    let resources = DeviceResources {
        crtcs: vec![41],
        connectors: vec![connector(
            7,
            Interface::HDMIA,
            1,
            ConnectorState::Connected,
            vec![full_hd()],
            Vec::new(),
        )],
    };
    let (result, attempts) = run_scan(card(), resources, render(), &[]);
    assert!(attempts.is_empty());
    assert_eq!(result.len(), 0);
}

#[test]
fn pending_attempt_is_proposed_again_until_answered() {
    let resources = DeviceResources { crtcs: vec![41, 42], connectors: vec![hdmi(7, 1, 0b11)] };
    let mut scanner: Scanner<FakeBuffer> = Scanner::new(card(), resources, render());
    assert_eq!(scanner.pending_attempt(), None);
    assert!(!scanner.attempt_failed());
    let first = scanner.next_attempt();
    assert_eq!(first, Some(Attempt { connector: 7, crtc: 41, mode: full_hd() }));
    assert_eq!(scanner.next_attempt(), first);
    assert_eq!(scanner.pending_attempt(), first);
    assert!(scanner.attempt_failed());
    assert!(!scanner.attempt_failed());
    assert_eq!(
        scanner.next_attempt(),
        Some(Attempt { connector: 7, crtc: 42, mode: full_hd() })
    );
    assert!(scanner.attempt_failed());
    assert_eq!(scanner.next_attempt(), None);
    assert_eq!(scanner.next_attempt(), None);
    assert_eq!(scanner.finish().len(), 0);
}

#[test]
fn surface_given_without_an_attempt_is_not_recorded() {
    let resources = DeviceResources { crtcs: vec![41], connectors: vec![hdmi(7, 1, 0b1)] };
    let mut allocator = FakeAllocator { fail: false, made: 0 };
    let mut scanner: Scanner<FakeBuffer> = Scanner::new(card(), resources, render());
    let surface =
        RenderSurface::new(&mut allocator, 8, 8, DrmFourcc::Xrgb8888, Vec::new()).unwrap();
    assert!(!scanner.attempt_succeeded(surface));
    assert_eq!(scanner.finish().len(), 0);
}

#[test]
fn scanning_twice_gives_the_same_bindings() {
    let resources = || DeviceResources {
        crtcs: vec![41, 42, 43],
        connectors: vec![
            hdmi(7, 1, 0b110),
            connector(
                8,
                Interface::DisplayPort,
                1,
                ConnectorState::Connected,
                vec![quad_hd(), full_hd()],
                vec![EncoderInfo { handle: 31, possible_crtcs: 0b111 }],
            ),
        ],
    };
    let (first, first_attempts) = run_scan(card(), resources(), render(), &[]);
    let (second, second_attempts) = run_scan(card(), resources(), render(), &[]);
    assert_eq!(first_attempts, second_attempts);
    assert_eq!(first.len(), second.len());
    for i in 0..first.len() {
        assert_eq!(first.get(i).unwrap().binding(), second.get(i).unwrap().binding());
    }
    assert_eq!(first.get(0).unwrap().crtc(), 42);
    assert_eq!(first.get(1).unwrap().crtc(), 41);
    assert_eq!(first.get(1).unwrap().binding().mode, quad_hd());
}

#[test]
fn bound_crtcs_are_all_different() {
    let resources = DeviceResources {
        crtcs: vec![41, 42, 43, 44],
        connectors: vec![
            hdmi(7, 1, 0b1111),
            hdmi(8, 2, 0b0011),
            hdmi(9, 3, 0b0001),
            hdmi(10, 4, 0b1111),
        ],
    };
    let (result, _) = run_scan(card(), resources, render(), &[]);
    let mut crtcs: Vec<u32> = (0..result.len()).map(|i| result.get(i).unwrap().crtc()).collect();
    assert_eq!(crtcs, vec![41, 42, 43]);
    crtcs.dedup();
    assert_eq!(crtcs.len(), 3);
}

#[test]
fn failed_allocation_refuses_the_surface() {
    let mut allocator = FakeAllocator { fail: true, made: 0 };
    let created: Result<RenderSurface<FakeBuffer>, String> =
        RenderSurface::new(&mut allocator, 8, 8, DrmFourcc::Argb8888, Vec::new());
    assert_eq!(created.err(), Some("out of memory".to_string()));
}
