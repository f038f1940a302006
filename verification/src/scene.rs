//! What is drawn over the scene of an output: the drag-and-drop icon and
//! the cursor.

use vstd::prelude::*;
use crate::output::Point;
use crate::pointer::TextureId;

verus! {

/// How the client that has the pointer wants the cursor to look.
#[derive(Clone, Copy, Debug, PartialEq, Eq, Hash, Structural)]
pub enum CursorImageStatus {
    /// No cursor.
    Hidden,
    /// Whatever the compositor's own cursor is.
    Default,
    /// The contents of a surface of the client.
    Image { surface: u32 },
}

/// Something drawn over the scene, at the pointer.
#[derive(Clone, Copy, Debug, PartialEq, Eq, Hash, Structural)]
pub enum OverlayElement {
    /// The icon of a drag-and-drop operation.
    DndIcon { surface: u32, at: Point },
    /// The cursor surface of a client.
    Cursor { surface: u32, at: Point },
    /// The compositor's own pointer image.
    Pointer { texture: TextureId, at: Point },
}

/// What the compositor knows of the pointer when a frame is drawn.
#[derive(Clone, Copy, Debug, PartialEq, Eq, Hash, Structural)]
pub struct PointerState {
    /// Where the pointer is, in whole pixels.
    pub at: Point,
    /// Whether the pointer is on the output that is drawn.
    pub on_output: bool,
    /// The surface of the drag-and-drop icon, if there is one.
    pub dnd_icon: Option<u32>,
    /// Whether that surface is alive.
    pub dnd_icon_alive: bool,
    /// Whether the surface of the cursor image is alive, if the cursor is
    /// one.
    pub cursor_alive: bool,
}

/// The cursor status after a frame: a cursor image whose surface is gone is
/// given up for the default cursor, but only by a frame that has the
/// pointer on its output.
pub open spec fn status_after(status: CursorImageStatus, pointer: PointerState) -> CursorImageStatus {
    if pointer.on_output && status is Image && !pointer.cursor_alive {
        CursorImageStatus::Default
    } else {
        status
    }
}

/// The icon of the drag-and-drop operation, if there is one and its surface
/// is alive.
pub open spec fn dnd_elements(pointer: PointerState) -> Seq<OverlayElement> {
    match pointer.dnd_icon {
        Some(surface) => if pointer.dnd_icon_alive {
            seq![OverlayElement::DndIcon { surface, at: pointer.at }]
        } else {
            Seq::empty()
        },
        None => Seq::empty(),
    }
}

/// What is drawn over the scene of an output on real hardware: nothing
/// while the pointer is elsewhere; else the drag-and-drop icon if there is
/// a live one, and then the client's cursor surface if it has a live one,
/// the compositor's pointer image if not.
pub open spec fn overlay_spec(
    status: CursorImageStatus,
    pointer: PointerState,
    pointer_image: TextureId,
) -> Seq<OverlayElement> {
    if !pointer.on_output {
        Seq::empty()
    } else {
        dnd_elements(pointer).push(
            match status_after(status, pointer) {
                CursorImageStatus::Image { surface } => OverlayElement::Cursor {
                    surface,
                    at: pointer.at,
                },
                _ => OverlayElement::Pointer { texture: pointer_image, at: pointer.at },
            },
        )
    }
}

/// The pointer as a window of a host display server sees it: always on
/// its one output.
pub open spec fn in_window(pointer: PointerState) -> PointerState {
    PointerState { on_output: true, ..pointer }
}

/// What is drawn over the scene in a window of a host display server: the
/// drag-and-drop icon if there is a live one, and then the client's cursor
/// surface if it has a live one. Without one the host draws its own cursor.
pub open spec fn windowed_overlay_spec(
    status: CursorImageStatus,
    pointer: PointerState,
) -> Seq<OverlayElement> {
    match status_after(status, in_window(pointer)) {
        CursorImageStatus::Image { surface } => dnd_elements(pointer).push(
            OverlayElement::Cursor { surface, at: pointer.at },
        ),
        _ => dnd_elements(pointer),
    }
}

/// Whether the host shows its own cursor over the window: it does unless
/// the client has a live cursor surface.
pub open spec fn host_cursor_visible(status: CursorImageStatus, pointer: PointerState) -> bool {
    !(status_after(status, in_window(pointer)) is Image)
}

/// Gives up a cursor image whose surface is gone.
fn settle(status: &mut CursorImageStatus, pointer: PointerState)
    ensures
        *final(status) == status_after(*old(status), pointer),
{
    if pointer.on_output {
        match *status {
            CursorImageStatus::Image { .. } => {
                if !pointer.cursor_alive {
                    *status = CursorImageStatus::Default;
                }
            },
            _ => {},
        }
    }
}

/// Starts the list of elements with the drag-and-drop icon.
fn dnd(pointer: PointerState) -> (elements: Vec<OverlayElement>)
    ensures
        elements@ == dnd_elements(pointer),
{
    let mut elements: Vec<OverlayElement> = Vec::new();
    match pointer.dnd_icon {
        Some(surface) => {
            if pointer.dnd_icon_alive {
                elements.push(OverlayElement::DndIcon { surface, at: pointer.at });
            }
        },
        None => {},
    }
    elements
}

/// Says what is drawn over the scene of an output on real hardware, and
/// gives up a cursor image whose surface is gone.
pub fn overlay_elements(
    status: &mut CursorImageStatus,
    pointer: PointerState,
    pointer_image: TextureId,
) -> (elements: Vec<OverlayElement>)
    ensures
        *final(status) == status_after(*old(status), pointer),
        elements@ == overlay_spec(*old(status), pointer, pointer_image),
{
    if !pointer.on_output {
        return Vec::new();
    }
    let mut elements = dnd(pointer);
    settle(status, pointer);
    match *status {
        CursorImageStatus::Image { surface } => {
            elements.push(OverlayElement::Cursor { surface, at: pointer.at });
        },
        _ => {
            elements.push(OverlayElement::Pointer { texture: pointer_image, at: pointer.at });
        },
    }
    elements
}

/// Says what is drawn over the scene in a window of a host display server
/// and whether the host shows its own cursor, and gives up a cursor image
/// whose surface is gone. The pointer counts as being on the output,
/// whatever `pointer` says of that.
pub fn windowed_overlay_elements(status: &mut CursorImageStatus, pointer: PointerState) -> (drawn: (
    Vec<OverlayElement>,
    bool,
))
    ensures
        *final(status) == status_after(*old(status), in_window(pointer)),
        drawn.0@ == windowed_overlay_spec(*old(status), pointer),
        drawn.1 == host_cursor_visible(*old(status), pointer),
{
    let here = PointerState {
        at: pointer.at,
        on_output: true,
        dnd_icon: pointer.dnd_icon,
        dnd_icon_alive: pointer.dnd_icon_alive,
        cursor_alive: pointer.cursor_alive,
    };
    let mut elements = dnd(pointer);
    settle(status, here);
    match *status {
        CursorImageStatus::Image { surface } => {
            elements.push(OverlayElement::Cursor { surface, at: pointer.at });
            (elements, false)
        },
        _ => (elements, true),
    }
}

} // verus!
