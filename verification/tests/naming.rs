use kms_backend::connector::{Interface, Mode};
use kms_backend::node::DeviceNode;
use kms_backend::output::{
    compose_name, decimal, interface_short_name, is_conventional, output_name, physical_size,
    short_name, LogicalOutput, OutputId, OutputMode, PhysicalSize, Point, Subpixel,
};

#[test]
fn conventional_short_names() {
    assert_eq!(interface_short_name(Interface::DVII), "DVI-I");
    assert_eq!(interface_short_name(Interface::DVID), "DVI-D");
    assert_eq!(interface_short_name(Interface::DVIA), "DVI-A");
    assert_eq!(interface_short_name(Interface::SVideo), "S-VIDEO");
    assert_eq!(interface_short_name(Interface::DisplayPort), "DP");
    assert_eq!(interface_short_name(Interface::HDMIA), "HDMI-A");
    assert_eq!(interface_short_name(Interface::HDMIB), "HDMI-B");
    assert_eq!(interface_short_name(Interface::EmbeddedDisplayPort), "eDP");
}

#[test]
fn other_interfaces_go_by_their_debug_name() {
    assert_eq!(interface_short_name(Interface::Unknown), "Unknown");
    assert_eq!(interface_short_name(Interface::VGA), "VGA");
    assert_eq!(interface_short_name(Interface::Composite), "Composite");
    assert_eq!(interface_short_name(Interface::LVDS), "LVDS");
    assert_eq!(interface_short_name(Interface::Component), "Component");
    assert_eq!(interface_short_name(Interface::NinePinDIN), "NinePinDIN");
    assert_eq!(interface_short_name(Interface::TV), "TV");
    assert_eq!(interface_short_name(Interface::Virtual), "Virtual");
    assert_eq!(interface_short_name(Interface::DSI), "DSI");
    assert_eq!(interface_short_name(Interface::DPI), "DPI");
}

#[test]
fn debug_name_is_not_the_kernel_number() {
    let name = interface_short_name(Interface::LVDS);
    assert_ne!(name, Interface::LVDS.code().to_string());
    assert_eq!(name, format!("{:?}", drm::control::connector::Interface::LVDS));
}

#[test]
fn short_name_falls_back_to_what_it_is_given() {
    assert_eq!(short_name(Interface::VGA, "whatever".to_string()), "whatever");
    assert_eq!(short_name(Interface::HDMIA, "whatever".to_string()), "HDMI-A");
}

#[test]
fn names_join_short_name_and_id() {
    assert_eq!(output_name(Interface::HDMIA, 1), "HDMI-A-1");
    assert_eq!(output_name(Interface::DisplayPort, 2), "DP-2");
    assert_eq!(output_name(Interface::EmbeddedDisplayPort, 1), "eDP-1");
    assert_eq!(output_name(Interface::VGA, 3), "VGA-3");
    assert_eq!(output_name(Interface::DVID, 0), "DVI-D-0");
    assert_eq!(output_name(Interface::HDMIB, 4294967295), "HDMI-B-4294967295");
    assert_eq!(compose_name("X".to_string(), 10), "X-10");
    assert_eq!(compose_name(String::new(), 7), "-7");
}

#[test]
fn name_law_on_every_interface() {
    let all = [
        Interface::Unknown,
        Interface::VGA,
        Interface::DVII,
        Interface::DVID,
        Interface::DVIA,
        Interface::Composite,
        Interface::SVideo,
        Interface::LVDS,
        Interface::Component,
        Interface::NinePinDIN,
        Interface::DisplayPort,
        Interface::HDMIA,
        Interface::HDMIB,
        Interface::TV,
        Interface::EmbeddedDisplayPort,
        Interface::Virtual,
        Interface::DSI,
        Interface::DPI,
    ];
    for interface in all {
        for id in [0u32, 1, 9, 10, 99, 100, 12345] {
            let expected = format!("{}-{}", interface_short_name(interface), id);
            assert_eq!(output_name(interface, id), expected);
        }
    }
}

#[test]
fn decimal_digits() {
    assert_eq!(decimal(0), "0");
    assert_eq!(decimal(7), "7");
    assert_eq!(decimal(10), "10");
    assert_eq!(decimal(109), "109");
    assert_eq!(decimal(4000000000), "4000000000");
    assert_eq!(decimal(u32::MAX), u32::MAX.to_string());
}

#[test]
fn interface_codes_round_trip() {
    for code in 0u32..=17 {
        assert_eq!(Interface::from_code(code).code(), code);
        assert_eq!(
            u32::from(drm::control::connector::Interface::from(code)),
            Interface::from_code(code).code()
        );
    }
    assert_eq!(Interface::from_code(18), Interface::Unknown);
    assert_eq!(Interface::from_code(u32::MAX), Interface::Unknown);
    assert_eq!(Interface::HDMIA.code(), 11);
    assert_eq!(Interface::EmbeddedDisplayPort.code(), 14);
}

#[test]
fn advertised_mode_is_in_millihertz() {
    let mode = OutputMode::from_mode(Mode { width: 1920, height: 1080, vrefresh: 60 });
    assert_eq!(mode, OutputMode { width: 1920, height: 1080, refresh: 60_000 });
    let mode = OutputMode::from_mode(Mode { width: 2560, height: 1440, vrefresh: 144 });
    assert_eq!(mode, OutputMode { width: 2560, height: 1440, refresh: 144_000 });
    let mode = OutputMode::from_mode(Mode { width: 65535, height: 0, vrefresh: 0 });
    assert_eq!(mode, OutputMode { width: 65535, height: 0, refresh: 0 });
}

#[test]
fn advertised_refresh_is_held_at_the_largest_value() {
    let mode = OutputMode::from_mode(Mode { width: 1, height: 1, vrefresh: 2_147_483 });
    assert_eq!(mode.refresh, 2_147_483_000);
    let mode = OutputMode::from_mode(Mode { width: 1, height: 1, vrefresh: 2_147_484 });
    assert_eq!(mode.refresh, i32::MAX);
    let mode = OutputMode::from_mode(Mode { width: 1, height: 1, vrefresh: u32::MAX });
    assert_eq!(mode.refresh, i32::MAX);
}

#[test]
fn physical_size_defaults_to_zero() {
    assert_eq!(physical_size(Some((520, 290))), PhysicalSize { w: 520, h: 290 });
    assert_eq!(physical_size(None), PhysicalSize { w: 0, h: 0 });
}

#[test]
fn connector_output_attributes() {
    let id = OutputId { device_id: DeviceNode::from_dev_id(0xe200), crtc: 42 };
    let output = LogicalOutput::for_connector(
        Interface::HDMIA,
        1,
        PhysicalSize { w: 520, h: 290 },
        Mode { width: 1920, height: 1080, vrefresh: 60 },
        id,
        Point { x: 0, y: 0 },
    );
    assert_eq!(output.name, "HDMI-A-1");
    assert_eq!(output.physical.size, PhysicalSize { w: 520, h: 290 });
    assert_eq!(output.physical.subpixel, Subpixel::Unknown);
    assert_eq!(output.physical.make, "Smithay");
    assert_eq!(output.physical.model, "Generic DRM");
    let mode = OutputMode { width: 1920, height: 1080, refresh: 60_000 };
    assert_eq!(output.current_mode, Some(mode));
    assert_eq!(output.preferred_mode, Some(mode));
    assert_eq!(output.position, Point { x: 0, y: 0 });
    assert_eq!(output.id, id);
}

#[test]
fn eight_interfaces_have_a_conventional_name() {
    let conventional: Vec<u32> =
        (0u32..=17).filter(|code| is_conventional(Interface::from_code(*code))).collect();
    assert_eq!(conventional, vec![2, 3, 4, 6, 10, 11, 12, 14]);
}
