//! What a device reports about its connectors, encoders and CRTCs, and which
//! CRTCs a connector may be driven by.

use vstd::prelude::*;

verus! {

/// The physical interface of a connector.
#[allow(clippy::upper_case_acronyms)]
#[derive(Clone, Copy, Debug, PartialEq, Eq, Hash, Structural)]
pub enum Interface {
    Unknown,
    VGA,
    DVII,
    DVID,
    DVIA,
    Composite,
    SVideo,
    LVDS,
    Component,
    NinePinDIN,
    DisplayPort,
    HDMIA,
    HDMIB,
    TV,
    EmbeddedDisplayPort,
    Virtual,
    DSI,
    DPI,
}

impl Interface {
    /// The kernel's number for this interface.
    pub open spec fn code_spec(self) -> u32 {
        match self {
            Interface::Unknown => 0,
            Interface::VGA => 1,
            Interface::DVII => 2,
            Interface::DVID => 3,
            Interface::DVIA => 4,
            Interface::Composite => 5,
            Interface::SVideo => 6,
            Interface::LVDS => 7,
            Interface::Component => 8,
            Interface::NinePinDIN => 9,
            Interface::DisplayPort => 10,
            Interface::HDMIA => 11,
            Interface::HDMIB => 12,
            Interface::TV => 13,
            Interface::EmbeddedDisplayPort => 14,
            Interface::Virtual => 15,
            Interface::DSI => 16,
            Interface::DPI => 17,
        }
    }

    /// The interface with kernel number `code`; `Unknown` for a number
    /// that names none.
    pub open spec fn from_code_spec(code: u32) -> Interface {
        if code == 1 {
            Interface::VGA
        } else if code == 2 {
            Interface::DVII
        } else if code == 3 {
            Interface::DVID
        } else if code == 4 {
            Interface::DVIA
        } else if code == 5 {
            Interface::Composite
        } else if code == 6 {
            Interface::SVideo
        } else if code == 7 {
            Interface::LVDS
        } else if code == 8 {
            Interface::Component
        } else if code == 9 {
            Interface::NinePinDIN
        } else if code == 10 {
            Interface::DisplayPort
        } else if code == 11 {
            Interface::HDMIA
        } else if code == 12 {
            Interface::HDMIB
        } else if code == 13 {
            Interface::TV
        } else if code == 14 {
            Interface::EmbeddedDisplayPort
        } else if code == 15 {
            Interface::Virtual
        } else if code == 16 {
            Interface::DSI
        } else if code == 17 {
            Interface::DPI
        } else {
            Interface::Unknown
        }
    }

    /// The kernel's number for this interface.
    pub fn code(self) -> (code: u32)
        ensures
            code == self.code_spec(),
    {
        match self {
            Interface::Unknown => 0,
            Interface::VGA => 1,
            Interface::DVII => 2,
            Interface::DVID => 3,
            Interface::DVIA => 4,
            Interface::Composite => 5,
            Interface::SVideo => 6,
            Interface::LVDS => 7,
            Interface::Component => 8,
            Interface::NinePinDIN => 9,
            Interface::DisplayPort => 10,
            Interface::HDMIA => 11,
            Interface::HDMIB => 12,
            Interface::TV => 13,
            Interface::EmbeddedDisplayPort => 14,
            Interface::Virtual => 15,
            Interface::DSI => 16,
            Interface::DPI => 17,
        }
    }

    /// The interface with kernel number `code`.
    pub fn from_code(code: u32) -> (interface: Interface)
        ensures
            interface == Interface::from_code_spec(code),
    {
        match code {
            1 => Interface::VGA,
            2 => Interface::DVII,
            3 => Interface::DVID,
            4 => Interface::DVIA,
            5 => Interface::Composite,
            6 => Interface::SVideo,
            7 => Interface::LVDS,
            8 => Interface::Component,
            9 => Interface::NinePinDIN,
            10 => Interface::DisplayPort,
            11 => Interface::HDMIA,
            12 => Interface::HDMIB,
            13 => Interface::TV,
            14 => Interface::EmbeddedDisplayPort,
            15 => Interface::Virtual,
            16 => Interface::DSI,
            17 => Interface::DPI,
            _ => Interface::Unknown,
        }
    }
}

/// Every interface is found again from its kernel number.
pub proof fn lemma_interface_code_round_trip(interface: Interface)
    ensures
        Interface::from_code_spec(interface.code_spec()) == interface,
{
}

/// Whether something is plugged into a connector.
#[derive(Clone, Copy, Debug, PartialEq, Eq, Hash, Structural)]
pub enum ConnectorState {
    Connected,
    Disconnected,
    Unknown,
}

/// Resolution and refresh rate of a display mode, as the kernel reports it.
#[derive(Clone, Copy, Debug, PartialEq, Eq, Hash, Structural)]
pub struct Mode {
    pub width: u16,
    pub height: u16,
    /// Vertical refresh rate in hertz.
    pub vrefresh: u32,
}

/// An encoder and the CRTCs it can take its pixels from.
#[derive(Clone, Copy, Debug, PartialEq, Eq, Hash, Structural)]
pub struct EncoderInfo {
    pub handle: u32,
    /// Bit `n` set: the device's `n`-th CRTC can feed this encoder.
    pub possible_crtcs: u32,
}

/// A connector as the device reports it, with those of its encoders that
/// could be queried, in the order the connector lists them.
#[derive(Clone, Debug, PartialEq, Eq)]
pub struct ConnectorInfo {
    pub handle: u32,
    pub interface: Interface,
    pub interface_id: u32,
    pub state: ConnectorState,
    /// Physical size in millimetres, where the display tells it.
    pub size: Option<(u32, u32)>,
    /// Supported modes, the preferred one first.
    pub modes: Vec<Mode>,
    pub encoders: Vec<EncoderInfo>,
}

/// The modesetting resources of one device: its CRTCs and connectors, each
/// in the order the device reports them.
#[derive(Clone, Debug, PartialEq, Eq)]
pub struct DeviceResources {
    pub crtcs: Vec<u32>,
    pub connectors: Vec<ConnectorInfo>,
}

/// Whether `mask` permits the CRTC at position `n` of its device.
pub open spec fn permits(mask: u32, n: int) -> bool {
    0 <= n < 32 && (1u32 << (n as u32)) & mask != 0
}

/// The CRTCs among `crtcs` that `mask` permits, in device order.
pub open spec fn filter_crtcs_spec(crtcs: Seq<u32>, mask: u32) -> Seq<u32>
    decreases crtcs.len(),
{
    if crtcs.len() == 0 {
        Seq::empty()
    } else {
        let front = filter_crtcs_spec(crtcs.drop_last(), mask);
        if permits(mask, crtcs.len() - 1) {
            front.push(crtcs.last())
        } else {
            front
        }
    }
}

/// The CRTCs that the encoders permit: for each encoder in turn, the
/// CRTCs its mask permits, in device order. A CRTC that several encoders
/// permit occurs once for each.
pub open spec fn candidate_crtcs_spec(encoders: Seq<EncoderInfo>, crtcs: Seq<u32>) -> Seq<u32>
    decreases encoders.len(),
{
    if encoders.len() == 0 {
        Seq::empty()
    } else {
        candidate_crtcs_spec(encoders.drop_last(), crtcs) + filter_crtcs_spec(
            crtcs,
            encoders.last().possible_crtcs,
        )
    }
}

/// Every CRTC the filter lets through is one of the device's, at a position
/// the mask permits.
pub proof fn lemma_filter_crtcs_members(crtcs: Seq<u32>, mask: u32, crtc: u32)
    ensures
        filter_crtcs_spec(crtcs, mask).contains(crtc) <==> exists|n: int|
            0 <= n < crtcs.len() && permits(mask, n) && crtcs[n] == crtc,
    decreases crtcs.len(),
{
    if crtcs.len() == 0 {
        assert(!filter_crtcs_spec(crtcs, mask).contains(crtc));
    } else {
        let head = crtcs.drop_last();
        let last = crtcs.len() - 1;
        lemma_filter_crtcs_members(head, mask, crtc);
        let front = filter_crtcs_spec(head, mask);
        let all = filter_crtcs_spec(crtcs, mask);
        if all.contains(crtc) {
            let k = choose|k: int| 0 <= k < all.len() && all[k] == crtc;
            if permits(mask, last) && k == front.len() {
                assert(crtcs[last] == crtc);
            } else {
                assert(front[k] == crtc);
                assert(front.contains(crtc));
                let n = choose|n: int| 0 <= n < head.len() && permits(mask, n) && head[n] == crtc;
                assert(crtcs[n] == crtc);
            }
        }
        if exists|n: int| 0 <= n < crtcs.len() && permits(mask, n) && crtcs[n] == crtc {
            let n = choose|n: int| 0 <= n < crtcs.len() && permits(mask, n) && crtcs[n] == crtc;
            if n == last {
                assert(all[front.len() as int] == crtc);
            } else {
                assert(head[n] == crtc);
                assert(front.contains(crtc));
                let k = choose|k: int| 0 <= k < front.len() && front[k] == crtc;
                assert(all[k] == crtc);
            }
        }
    }
}

/// The CRTCs of a device that an encoder's mask permits.
pub fn filter_crtcs(crtcs: &Vec<u32>, mask: u32) -> (allowed: Vec<u32>)
    ensures
        allowed@ == filter_crtcs_spec(crtcs@, mask),
{
    let mut allowed: Vec<u32> = Vec::new();
    let mut n: usize = 0;
    while n < crtcs.len()
        invariant
            n <= crtcs.len(),
            allowed@ == filter_crtcs_spec(crtcs@.take(n as int), mask),
        decreases crtcs.len() - n,
    {
        assert(crtcs@.take(n as int + 1).drop_last() =~= crtcs@.take(n as int));
        assert(crtcs@.take(n as int + 1).last() == crtcs@[n as int]);
        if n < 32 && (1u32 << (n as u32)) & mask != 0 {
            allowed.push(crtcs[n]);
        }
        n += 1;
    }
    assert(crtcs@.take(n as int) =~= crtcs@);
    allowed
}

/// The CRTCs a connector with these encoders may be driven by, in the order
/// in which they are to be tried.
pub fn candidate_crtcs(encoders: &Vec<EncoderInfo>, crtcs: &Vec<u32>) -> (candidates: Vec<u32>)
    ensures
        candidates@ == candidate_crtcs_spec(encoders@, crtcs@),
{
    let mut candidates: Vec<u32> = Vec::new();
    let mut e: usize = 0;
    while e < encoders.len()
        invariant
            e <= encoders.len(),
            candidates@ == candidate_crtcs_spec(encoders@.take(e as int), crtcs@),
        decreases encoders.len() - e,
    {
        assert(encoders@.take(e as int + 1).drop_last() =~= encoders@.take(e as int));
        assert(encoders@.take(e as int + 1).last() == encoders@[e as int]);
        let mut allowed = filter_crtcs(crtcs, encoders[e].possible_crtcs);
        candidates.append(&mut allowed);
        e += 1;
    }
    assert(encoders@.take(e as int) =~= encoders@);
    candidates
}

} // verus!
