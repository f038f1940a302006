//! The windows of the compositor in stacking order, with the box each
//! covers.

use vstd::prelude::*;
use crate::output::Point;

verus! {

/// A toplevel surface as its shell reports it.
#[derive(Clone, Copy, Debug, PartialEq, Eq, Hash, Structural)]
pub struct Toplevel {
    /// What tells this toplevel from every other of its shell.
    pub id: u32,
    /// Whether the client still has it.
    pub alive: bool,
    /// The surface it shows, if it has one.
    pub surface: Option<u32>,
}

/// A toplevel surface of one of the two shells.
#[derive(Clone, Copy, Debug, PartialEq, Eq, Hash, Structural)]
pub enum Kind {
    Xdg(Toplevel),
    Wl(Toplevel),
}

impl Kind {
    /// The toplevel behind the handle.
    pub open spec fn toplevel(self) -> Toplevel {
        match self {
            Kind::Xdg(t) => t,
            Kind::Wl(t) => t,
        }
    }

    /// Whether two handles refer to the same toplevel surface: one of the
    /// same shell, with the same id.
    pub open spec fn equals_spec(self, other: Kind) -> bool {
        (self is Xdg <==> other is Xdg) && self.toplevel().id == other.toplevel().id
    }

    /// Whether the client still has the toplevel.
    pub fn alive(&self) -> (alive: bool)
        ensures
            alive == self.toplevel().alive,
    {
        match *self {
            Kind::Xdg(t) => t.alive,
            Kind::Wl(t) => t.alive,
        }
    }

    /// The surface the toplevel shows.
    pub fn get_surface(&self) -> (surface: Option<u32>)
        ensures
            surface == self.toplevel().surface,
    {
        match *self {
            Kind::Xdg(t) => t.surface,
            Kind::Wl(t) => t.surface,
        }
    }

    /// Whether this handle and the other refer to the same toplevel
    /// surface.
    pub fn equals(&self, other: &Kind) -> (same: bool)
        ensures
            same == self.equals_spec(*other),
    {
        match (*self, *other) {
            (Kind::Xdg(a), Kind::Xdg(b)) => a.id == b.id,
            (Kind::Wl(a), Kind::Wl(b)) => a.id == b.id,
            _ => false,
        }
    }
}

/// `v`, held within the range of `i32`.
pub open spec fn clamp(v: int) -> i32 {
    if v > i32::MAX {
        i32::MAX
    } else if v < i32::MIN {
        i32::MIN
    } else {
        v as i32
    }
}

fn clamped(v: i64) -> (c: i32)
    ensures
        c == clamp(v as int),
{
    if v > i32::MAX as i64 {
        i32::MAX
    } else if v < i32::MIN as i64 {
        i32::MIN
    } else {
        v as i32
    }
}

/// A box on the screen.
#[derive(Clone, Copy, Debug, PartialEq, Eq, Hash, Structural)]
pub struct Rectangle {
    pub x: i32,
    pub y: i32,
    pub width: i32,
    pub height: i32,
}

impl Rectangle {
    /// Whether `point` lies in the box: at or after its left and top edge,
    /// before its right and bottom edge.
    pub open spec fn contains_spec(self, point: Point) -> bool {
        self.x <= point.x < self.x + self.width && self.y <= point.y < self.y + self.height
    }

    /// Whether `point` lies in the box.
    pub fn contains(&self, point: Point) -> (inside: bool)
        ensures
            inside == self.contains_spec(point),
    {
        point.x >= self.x && (point.x as i64) < self.x as i64 + self.width as i64 && point.y
            >= self.y && (point.y as i64) < self.y as i64 + self.height as i64
    }
}

/// The box around a window and the surfaces below it, while it is being
/// measured.
#[derive(Clone, Copy, Debug, PartialEq, Eq, Hash, Structural)]
pub struct BoundingBox {
    pub min_x: i32,
    pub min_y: i32,
    pub max_x: i32,
    pub max_y: i32,
}

/// The lesser of two numbers.
pub open spec fn least(a: i32, b: i32) -> i32 {
    if a <= b {
        a
    } else {
        b
    }
}

/// The greater of two numbers.
pub open spec fn greatest(a: i32, b: i32) -> i32 {
    if a >= b {
        a
    } else {
        b
    }
}

impl BoundingBox {
    /// The box of a window at `location` before any surface is measured:
    /// the point itself.
    pub open spec fn at(location: Point) -> BoundingBox {
        BoundingBox {
            min_x: location.x,
            min_y: location.y,
            max_x: location.x,
            max_y: location.y,
        }
    }

    /// Where a surface lies whose parent lies at `parent`: moved by its
    /// offset if it is a subsurface. Coordinates are held within the range
    /// of `i32`.
    pub open spec fn place(parent: Point, offset: Option<Point>) -> Point {
        match offset {
            Some(by) => Point { x: clamp(parent.x + by.x), y: clamp(parent.y + by.y) },
            None => parent,
        }
    }

    /// The box grown to hold a surface of size `size` at `at`.
    pub open spec fn grown(self, at: Point, size: Point) -> BoundingBox {
        BoundingBox {
            min_x: least(self.min_x, at.x),
            min_y: least(self.min_y, at.y),
            max_x: greatest(self.max_x, clamp(at.x + size.x)),
            max_y: greatest(self.max_y, clamp(at.y + size.y)),
        }
    }

    /// The box as a rectangle, its width and height held within the range
    /// of `i32`.
    pub open spec fn rectangle_spec(self) -> Rectangle {
        Rectangle {
            x: self.min_x,
            y: self.min_y,
            width: clamp(self.max_x - self.min_x),
            height: clamp(self.max_y - self.min_y),
        }
    }

    /// Starts measuring a window at `location`.
    pub fn new(location: Point) -> (bbox: BoundingBox)
        ensures
            bbox == BoundingBox::at(location),
    {
        BoundingBox {
            min_x: location.x,
            min_y: location.y,
            max_x: location.x,
            max_y: location.y,
        }
    }

    /// Measures one surface of the window's tree, whose parent lies at
    /// `parent`. `offset` is its offset from the parent if it is a
    /// subsurface, `size` its size if it is mapped. A mapped surface grows
    /// the box, and its place is returned for its children to be measured
    /// from. A surface that is not mapped hides its children: nothing
    /// changes and nothing is returned.
    pub fn visit(&mut self, parent: Point, offset: Option<Point>, size: Option<Point>) -> (place:
        Option<Point>)
        ensures
            match size {
                Some(s) => place == Some(BoundingBox::place(parent, offset)) && *final(self)
                    == old(self).grown(BoundingBox::place(parent, offset), s),
                None => place is None && *final(self) == *old(self),
            },
    {
        match size {
            Some(s) => {
                let at = match offset {
                    Some(by) => Point {
                        x: clamped(parent.x as i64 + by.x as i64),
                        y: clamped(parent.y as i64 + by.y as i64),
                    },
                    None => parent,
                };
                let right = clamped(at.x as i64 + s.x as i64);
                let bottom = clamped(at.y as i64 + s.y as i64);
                if at.x < self.min_x {
                    self.min_x = at.x;
                }
                if at.y < self.min_y {
                    self.min_y = at.y;
                }
                if right > self.max_x {
                    self.max_x = right;
                }
                if bottom > self.max_y {
                    self.max_y = bottom;
                }
                Some(at)
            },
            None => None,
        }
    }

    /// The box as a rectangle.
    pub fn rectangle(&self) -> (r: Rectangle)
        ensures
            r == self.rectangle_spec(),
    {
        Rectangle {
            x: self.min_x,
            y: self.min_y,
            width: clamped(self.max_x as i64 - self.min_x as i64),
            height: clamped(self.max_y as i64 - self.min_y as i64),
        }
    }
}

/// A window: a toplevel at a place, and the box around it and its
/// children.
#[derive(Clone, Copy, Debug, PartialEq, Eq, Hash, Structural)]
pub struct Window {
    pub location: Point,
    pub bbox: Rectangle,
    pub toplevel: Kind,
}

/// A surface found under a point, with the place it lies at.
#[derive(Clone, Copy, Debug, PartialEq, Eq, Hash, Structural)]
pub struct SurfaceHit {
    pub surface: u32,
    pub location: Point,
}

/// The place of the first of `windows` from `from` on whose toplevel is
/// `toplevel`.
pub open spec fn window_of(windows: Seq<Window>, toplevel: Kind, from: int) -> Option<int>
    decreases windows.len() - from,
{
    if from < 0 || from >= windows.len() {
        None
    } else if windows[from].toplevel.equals_spec(toplevel) {
        Some(from)
    } else {
        window_of(windows, toplevel, from + 1)
    }
}

/// Whether the window at place `i` has a surface under `point`: the point
/// lies in its box and a closer look found a surface there.
pub open spec fn hit_at(
    windows: Seq<Window>,
    point: Point,
    found: Seq<Option<SurfaceHit>>,
    i: int,
) -> bool {
    0 <= i < windows.len() && i < found.len() && windows[i].bbox.contains_spec(point)
        && found[i] is Some
}

/// The place of the topmost window from `from` on that has a surface under
/// `point`.
pub open spec fn topmost_hit(
    windows: Seq<Window>,
    point: Point,
    found: Seq<Option<SurfaceHit>>,
    from: int,
) -> Option<int>
    decreases windows.len() - from,
{
    if from < 0 || from >= windows.len() {
        None
    } else if hit_at(windows, point, found, from) {
        Some(from)
    } else {
        topmost_hit(windows, point, found, from + 1)
    }
}

/// `windows` after a refresh that found `updates`: a window whose update
/// is `None` is gone, one whose update is a box has that box, and one
/// without an update is as it was.
pub open spec fn refreshed(windows: Seq<Window>, updates: Seq<Option<Rectangle>>) -> Seq<Window>
    decreases windows.len(),
{
    if windows.len() == 0 {
        Seq::empty()
    } else {
        let front = refreshed(windows.drop_last(), updates);
        let i = windows.len() - 1;
        if i < updates.len() {
            match updates[i] {
                Some(bbox) => front.push(Window { bbox, ..windows.last() }),
                None => front,
            }
        } else {
            front.push(windows.last())
        }
    }
}

/// The windows of the compositor, the topmost first.
pub struct WindowMap {
    windows: Vec<Window>,
}

impl View for WindowMap {
    type V = Seq<Window>;

    closed spec fn view(&self) -> Seq<Window> {
        self.windows@
    }
}

impl WindowMap {
    /// A map without windows.
    pub fn new() -> (map: WindowMap)
        ensures
            map@ == Seq::<Window>::empty(),
    {
        WindowMap { windows: Vec::new() }
    }

    /// Number of windows.
    pub fn len(&self) -> (n: usize)
        ensures
            n == self@.len(),
    {
        self.windows.len()
    }

    /// Puts a new window on top of all others: `toplevel` at `location`,
    /// with `bbox` as the box around it and its children.
    pub fn insert(&mut self, toplevel: Kind, location: Point, bbox: Rectangle)
        ensures
            final(self)@ == seq![Window { location, bbox, toplevel }] + old(self)@,
    {
        self.windows.insert(0, Window { location, bbox, toplevel });
        assert(self@ =~= seq![Window { location, bbox, toplevel }] + old(self)@);
    }

    /// The place of the topmost window that has a surface under `point`,
    /// where `found[i]` is what a closer look at the window at place `i`
    /// found under the point.
    fn topmost(&self, point: Point, found: &Vec<Option<SurfaceHit>>) -> (place: Option<usize>)
        ensures
            match place {
                Some(i) => topmost_hit(self@, point, found@, 0) == Some(i as int) && hit_at(
                    self@,
                    point,
                    found@,
                    i as int,
                ),
                None => topmost_hit(self@, point, found@, 0) is None,
            },
    {
        let mut i: usize = 0;
        while i < self.windows.len()
            invariant
                i <= self.windows.len(),
                topmost_hit(self@, point, found@, 0) == topmost_hit(self@, point, found@, i as int),
            decreases self.windows.len() - i,
        {
            if i < found.len() && self.windows[i].bbox.contains(point) && found[i].is_some() {
                return Some(i);
            }
            i += 1;
        }
        None
    }

    /// The surface under `point` in the topmost window that has one there,
    /// where `found[i]` is what a closer look at the window at place `i`
    /// found under the point. A window whose box does not hold the point
    /// is passed over whatever was found.
    pub fn get_surface_under(&self, point: Point, found: &Vec<Option<SurfaceHit>>) -> (hit: Option<
        SurfaceHit,
    >)
        ensures
            match topmost_hit(self@, point, found@, 0) {
                Some(i) => hit == found@[i],
                None => hit is None,
            },
    {
        match self.topmost(point, found) {
            Some(i) => found[i],
            None => None,
        }
    }

    /// As `get_surface_under`, and the window the surface is found in goes
    /// on top of all others.
    pub fn get_surface_and_bring_to_top(
        &mut self,
        point: Point,
        found: &Vec<Option<SurfaceHit>>,
    ) -> (hit: Option<SurfaceHit>)
        ensures
            match topmost_hit(old(self)@, point, found@, 0) {
                Some(i) => hit == found@[i] && final(self)@ == seq![old(self)@[i]] + old(
                    self,
                )@.remove(i),
                None => hit is None && final(self)@ == old(self)@,
            },
    {
        match self.topmost(point, found) {
            Some(i) => {
                let winner = self.windows.remove(i);
                self.windows.insert(0, winner);
                assert(self@ =~= seq![old(self)@[i as int]] + old(self)@.remove(i as int));
                found[i]
            },
            None => None,
        }
    }

    /// The windows from the bottom of the stack to its top.
    pub fn with_windows_from_bottom_to_top(&self) -> (windows: Vec<Window>)
        ensures
            windows@ == self@.reverse(),
    {
        let mut windows: Vec<Window> = Vec::new();
        let mut i: usize = self.windows.len();
        while i > 0
            invariant
                i <= self.windows.len(),
                windows@.len() == self.windows.len() - i,
                forall|j: int|
                    0 <= j < windows@.len() ==> windows@[j] == self@[self@.len() - 1 - j],
            decreases i,
        {
            i -= 1;
            windows.push(self.windows[i]);
        }
        assert(windows@ =~= self@.reverse());
        windows
    }

    /// Takes over what a look at every window found: `updates[i]` is
    /// `None` if the toplevel of the window at place `i` is gone, and the
    /// box around the window and its children if it is alive. Windows whose
    /// toplevel is gone are dropped, the others get their new box.
    pub fn refresh(&mut self, updates: &Vec<Option<Rectangle>>)
        ensures
            final(self)@ == refreshed(old(self)@, updates@),
    {
        let ghost before = self@;
        let mut kept: Vec<Window> = Vec::new();
        let mut i: usize = 0;
        while i < self.windows.len()
            invariant
                i <= self.windows.len(),
                self@ == before,
                kept@ == refreshed(before.take(i as int), updates@),
            decreases self.windows.len() - i,
        {
            assert(before.take(i as int + 1).drop_last() =~= before.take(i as int));
            assert(before.take(i as int + 1).last() == before[i as int]);
            let window = self.windows[i];
            if i < updates.len() {
                match updates[i] {
                    Some(bbox) => {
                        kept.push(
                            Window { location: window.location, bbox, toplevel: window.toplevel },
                        );
                    },
                    None => {},
                }
            } else {
                kept.push(window);
            }
            i += 1;
        }
        assert(before.take(i as int) =~= before);
        self.windows = kept;
    }

    /// Drops every window.
    pub fn clear(&mut self)
        ensures
            final(self)@ == Seq::<Window>::empty(),
    {
        self.windows.clear();
    }

    /// The place of the topmost window of `toplevel`.
    fn find(&self, toplevel: &Kind) -> (place: Option<usize>)
        ensures
            match place {
                Some(i) => window_of(self@, *toplevel, 0) == Some(i as int) && i < self@.len(),
                None => window_of(self@, *toplevel, 0) is None,
            },
    {
        let mut i: usize = 0;
        while i < self.windows.len()
            invariant
                i <= self.windows.len(),
                window_of(self@, *toplevel, 0) == window_of(self@, *toplevel, i as int),
            decreases self.windows.len() - i,
        {
            if self.windows[i].toplevel.equals(toplevel) {
                return Some(i);
            }
            i += 1;
        }
        None
    }

    /// Where the window of `toplevel` is, if it has one.
    pub fn location(&self, toplevel: &Kind) -> (location: Option<Point>)
        ensures
            match window_of(self@, *toplevel, 0) {
                Some(i) => location == Some(self@[i].location),
                None => location is None,
            },
    {
        match self.find(toplevel) {
            Some(i) => Some(self.windows[i].location),
            None => None,
        }
    }

    /// Moves the window of `toplevel`, if it has one, to `location`, where
    /// `bbox` is the box around it and its children.
    pub fn set_location(&mut self, toplevel: &Kind, location: Point, bbox: Rectangle)
        ensures
            match window_of(old(self)@, *toplevel, 0) {
                Some(i) => final(self)@ == old(self)@.update(
                    i,
                    Window { location, bbox, ..old(self)@[i] },
                ),
                None => final(self)@ == old(self)@,
            },
    {
        match self.find(toplevel) {
            Some(i) => {
                let window = self.windows[i];
                self.windows.set(i, Window { location, bbox, toplevel: window.toplevel });
            },
            None => {},
        }
    }
}

} // verus!
