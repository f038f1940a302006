//! Logical outputs: how they are named and what they advertise.

use vstd::prelude::*;
use crate::connector::{Interface, Mode};
use crate::node::DeviceNode;

verus! {

/// The name that `Debug` formatting gives the interface with kernel number
/// `code` in the `drm` crate. It is not spelled out here: whatever that
/// crate prints is the name.
pub uninterp spec fn interface_debug_name(code: u32) -> Seq<char>;

/// Trusted, not proved: formats `drm::control::connector::Interface::from(code)`
/// with `{:?}`, that is with the `Debug` impl that the `drm` crate derives
/// for `Interface`. The contract claims one thing of it, that the text
/// depends on `code` alone.
#[verifier::external_body]
fn debug_name(code: u32) -> (name: String)
    ensures
        name@ == interface_debug_name(code),
{
    format!("{:?}", drm::control::connector::Interface::from(code))
}

/// The short name of an interface in output names, given the name that
/// `Debug` formatting has for it: eight interfaces have a conventional
/// short name, the others go by their `Debug` name.
pub open spec fn short_name_spec(interface: Interface, debug: Seq<char>) -> Seq<char> {
    match interface {
        Interface::DVII => "DVI-I"@,
        Interface::DVID => "DVI-D"@,
        Interface::DVIA => "DVI-A"@,
        Interface::SVideo => "S-VIDEO"@,
        Interface::DisplayPort => "DP"@,
        Interface::HDMIA => "HDMI-A"@,
        Interface::HDMIB => "HDMI-B"@,
        Interface::EmbeddedDisplayPort => "eDP"@,
        _ => debug,
    }
}

/// Whether an interface has a conventional short name.
pub open spec fn has_short_name(interface: Interface) -> bool {
    interface == Interface::DVII || interface == Interface::DVID || interface == Interface::DVIA
        || interface == Interface::SVideo || interface == Interface::DisplayPort || interface
        == Interface::HDMIA || interface == Interface::HDMIB || interface
        == Interface::EmbeddedDisplayPort
}

/// The character of the decimal digit `d`.
pub open spec fn digit_char(d: nat) -> char {
    if d == 0 {
        '0'
    } else if d == 1 {
        '1'
    } else if d == 2 {
        '2'
    } else if d == 3 {
        '3'
    } else if d == 4 {
        '4'
    } else if d == 5 {
        '5'
    } else if d == 6 {
        '6'
    } else if d == 7 {
        '7'
    } else if d == 8 {
        '8'
    } else {
        '9'
    }
}

/// `n` in decimal, without leading zeros.
pub open spec fn decimal_spec(n: nat) -> Seq<char>
    decreases n,
{
    if n < 10 {
        seq![digit_char(n)]
    } else {
        decimal_spec(n / 10).push(digit_char(n % 10))
    }
}

/// An output's name: the interface's short name, a hyphen, and the
/// interface id in decimal.
pub open spec fn compose_name_spec(short: Seq<char>, interface_id: u32) -> Seq<char> {
    short + seq!['-'] + decimal_spec(interface_id as nat)
}

/// The name of the output on connector `interface`-`interface_id`.
pub open spec fn output_name_spec(interface: Interface, interface_id: u32) -> Seq<char> {
    compose_name_spec(
        short_name_spec(interface, interface_debug_name(interface.code_spec())),
        interface_id,
    )
}

fn digit_str(d: u32) -> (s: &'static str)
    requires
        d < 10,
    ensures
        s@ == seq![digit_char(d as nat)],
{
    proof {
        reveal_strlit("0");
        reveal_strlit("1");
        reveal_strlit("2");
        reveal_strlit("3");
        reveal_strlit("4");
        reveal_strlit("5");
        reveal_strlit("6");
        reveal_strlit("7");
        reveal_strlit("8");
        reveal_strlit("9");
    }
    let s = match d {
        0 => "0",
        1 => "1",
        2 => "2",
        3 => "3",
        4 => "4",
        5 => "5",
        6 => "6",
        7 => "7",
        8 => "8",
        _ => "9",
    };
    assert(s@ =~= seq![digit_char(d as nat)]);
    s
}

/// `n` in decimal.
pub fn decimal(n: u32) -> (text: String)
    ensures
        text@ == decimal_spec(n as nat),
    decreases n,
{
    if n < 10 {
        String::from_str(digit_str(n))
    } else {
        let mut text = decimal(n / 10);
        text.append(digit_str(n % 10));
        assert(text@ =~= decimal_spec(n as nat));
        text
    }
}

/// The short name under which `interface` appears in output names, where
/// `debug` is the name `Debug` formatting has for it.
pub fn short_name(interface: Interface, debug: String) -> (name: String)
    ensures
        name@ == short_name_spec(interface, debug@),
{
    match interface {
        Interface::DVII => String::from_str("DVI-I"),
        Interface::DVID => String::from_str("DVI-D"),
        Interface::DVIA => String::from_str("DVI-A"),
        Interface::SVideo => String::from_str("S-VIDEO"),
        Interface::DisplayPort => String::from_str("DP"),
        Interface::HDMIA => String::from_str("HDMI-A"),
        Interface::HDMIB => String::from_str("HDMI-B"),
        Interface::EmbeddedDisplayPort => String::from_str("eDP"),
        _ => debug,
    }
}

/// Joins a short interface name and an interface id into an output name.
pub fn compose_name(short: String, interface_id: u32) -> (name: String)
    ensures
        name@ == compose_name_spec(short@, interface_id),
{
    proof {
        reveal_strlit("-");
    }
    let mut name = short;
    name.append("-");
    assert("-"@ =~= seq!['-']);
    let id = decimal(interface_id);
    name.append(id.as_str());
    name
}

/// Whether `interface` has a conventional short name.
pub fn is_conventional(interface: Interface) -> (conventional: bool)
    ensures
        conventional == has_short_name(interface),
{
    match interface {
        Interface::DVII => true,
        Interface::DVID => true,
        Interface::DVIA => true,
        Interface::SVideo => true,
        Interface::DisplayPort => true,
        Interface::HDMIA => true,
        Interface::HDMIB => true,
        Interface::EmbeddedDisplayPort => true,
        _ => false,
    }
}

/// The short name under which `interface` appears in output names: its
/// conventional short name if it has one, else its `Debug` name.
pub fn interface_short_name(interface: Interface) -> (name: String)
    ensures
        name@ == short_name_spec(interface, interface_debug_name(interface.code_spec())),
        has_short_name(interface) ==> name@ == short_name_spec(interface, Seq::empty()),
{
    if is_conventional(interface) {
        short_name(interface, String::new())
    } else {
        short_name(interface, debug_name(interface.code()))
    }
}

/// The name of the output on connector `interface`-`interface_id`.
pub fn output_name(interface: Interface, interface_id: u32) -> (name: String)
    ensures
        name@ == output_name_spec(interface, interface_id),
{
    compose_name(interface_short_name(interface), interface_id)
}

/// Pixel size and refresh rate of an output, as advertised to clients.
#[derive(Clone, Copy, Debug, PartialEq, Eq, Hash, Structural)]
pub struct OutputMode {
    pub width: i32,
    pub height: i32,
    /// Refresh rate in millihertz.
    pub refresh: i32,
}

/// The refresh rate advertised for a mode of `vrefresh` hertz: a thousand
/// times as many millihertz, held at `i32::MAX` where that does not fit.
pub open spec fn refresh_millihertz(vrefresh: u32) -> i32 {
    if vrefresh * 1000 <= i32::MAX {
        (vrefresh * 1000) as i32
    } else {
        i32::MAX
    }
}

impl OutputMode {
    /// What is advertised for the kernel mode `mode`.
    pub open spec fn from_mode_spec(mode: Mode) -> OutputMode {
        OutputMode {
            width: mode.width as i32,
            height: mode.height as i32,
            refresh: refresh_millihertz(mode.vrefresh),
        }
    }

    /// What is advertised for the kernel mode `mode`.
    pub fn from_mode(mode: Mode) -> (advertised: OutputMode)
        ensures
            advertised == OutputMode::from_mode_spec(mode),
            0 <= advertised.width <= u16::MAX,
    {
        let millihertz: u64 = mode.vrefresh as u64 * 1000;
        let refresh: i32 = if millihertz <= i32::MAX as u64 {
            millihertz as i32
        } else {
            i32::MAX
        };
        OutputMode { width: mode.width as i32, height: mode.height as i32, refresh }
    }
}

/// A position in the global layout.
#[derive(Clone, Copy, Debug, PartialEq, Eq, Hash, Structural)]
pub struct Point {
    pub x: i32,
    pub y: i32,
}

/// Physical size of a display in millimetres.
#[derive(Clone, Copy, Debug, PartialEq, Eq, Hash, Structural)]
pub struct PhysicalSize {
    pub w: u32,
    pub h: u32,
}

/// Sub-pixel layout of a display.
#[derive(Clone, Copy, Debug, PartialEq, Eq, Hash, Structural)]
pub enum Subpixel {
    Unknown,
    NoSubpixels,
    HorizontalRgb,
    HorizontalBgr,
    VerticalRgb,
    VerticalBgr,
}

/// The device and CRTC that an output is scanned out by.
#[derive(Clone, Copy, Debug, PartialEq, Eq, Hash, Structural)]
pub struct OutputId {
    pub device_id: DeviceNode,
    pub crtc: u32,
}

/// What an output advertises of the display behind it.
#[derive(Clone, Debug, PartialEq, Eq)]
pub struct PhysicalProperties {
    pub size: PhysicalSize,
    pub subpixel: Subpixel,
    pub make: String,
    pub model: String,
}

/// An output as the compositor sees it.
#[derive(Clone, Debug, PartialEq, Eq)]
pub struct LogicalOutput {
    pub name: String,
    pub physical: PhysicalProperties,
    pub current_mode: Option<OutputMode>,
    pub preferred_mode: Option<OutputMode>,
    pub position: Point,
    pub id: OutputId,
}

/// A logical output as a mathematical value.
pub struct LogicalOutputView {
    pub name: Seq<char>,
    pub physical_size: PhysicalSize,
    pub subpixel: Subpixel,
    pub make: Seq<char>,
    pub model: Seq<char>,
    pub current_mode: Option<OutputMode>,
    pub preferred_mode: Option<OutputMode>,
    pub position: Point,
    pub id: OutputId,
}

impl View for LogicalOutput {
    type V = LogicalOutputView;

    open spec fn view(&self) -> LogicalOutputView {
        LogicalOutputView {
            name: self.name@,
            physical_size: self.physical.size,
            subpixel: self.physical.subpixel,
            make: self.physical.make@,
            model: self.physical.model@,
            current_mode: self.current_mode,
            preferred_mode: self.preferred_mode,
            position: self.position,
            id: self.id,
        }
    }
}

/// The physical size advertised for a display that reports `size`: what it
/// reports, and zero by zero where it reports none.
pub open spec fn physical_size_spec(size: Option<(u32, u32)>) -> PhysicalSize {
    match size {
        Some(s) => PhysicalSize { w: s.0, h: s.1 },
        None => PhysicalSize { w: 0, h: 0 },
    }
}

/// The physical size advertised for a display that reports `size`.
pub fn physical_size(size: Option<(u32, u32)>) -> (advertised: PhysicalSize)
    ensures
        advertised == physical_size_spec(size),
{
    match size {
        Some(s) => PhysicalSize { w: s.0, h: s.1 },
        None => PhysicalSize { w: 0, h: 0 },
    }
}

/// The output registered for a connector driven by `id` in mode `mode`,
/// placed at `position`.
pub open spec fn connector_output_spec(
    interface: Interface,
    interface_id: u32,
    size: PhysicalSize,
    mode: Mode,
    id: OutputId,
    position: Point,
) -> LogicalOutputView {
    LogicalOutputView {
        name: output_name_spec(interface, interface_id),
        physical_size: size,
        subpixel: Subpixel::Unknown,
        make: "Smithay"@,
        model: "Generic DRM"@,
        current_mode: Some(OutputMode::from_mode_spec(mode)),
        preferred_mode: Some(OutputMode::from_mode_spec(mode)),
        position,
        id,
    }
}

impl LogicalOutput {
    /// Registers the output of a connector: named after the connector, with
    /// the display's physical size, unknown sub-pixel layout, and `mode` as
    /// both its current and its preferred mode.
    pub fn for_connector(
        interface: Interface,
        interface_id: u32,
        size: PhysicalSize,
        mode: Mode,
        id: OutputId,
        position: Point,
    ) -> (output: LogicalOutput)
        ensures
            output@ == connector_output_spec(interface, interface_id, size, mode, id, position),
    {
        let advertised = OutputMode::from_mode(mode);
        LogicalOutput {
            name: output_name(interface, interface_id),
            physical: PhysicalProperties {
                size,
                subpixel: Subpixel::Unknown,
                make: String::from_str("Smithay"),
                model: String::from_str("Generic DRM"),
            },
            current_mode: Some(advertised),
            preferred_mode: Some(advertised),
            position,
            id,
        }
    }

    /// Width of the area the output covers: that of its current mode, zero
    /// without one.
    pub open spec fn width_spec(&self) -> int {
        match self.current_mode {
            Some(mode) => mode.width as int,
            None => 0,
        }
    }
}

} // verus!
