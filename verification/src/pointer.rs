//! The textures of the pointer images seen so far.

use vstd::prelude::*;

verus! {

/// One frame of a cursor: its geometry, how long it is shown, and its
/// pixels.
#[derive(Clone, Debug, PartialEq, Eq)]
pub struct CursorFrame {
    /// The nominal size of the image.
    pub size: u32,
    pub width: u32,
    pub height: u32,
    pub xhot: u32,
    pub yhot: u32,
    /// Milliseconds for which the frame is shown.
    pub delay: u32,
    pub pixels_rgba: Vec<u8>,
    pub pixels_argb: Vec<u8>,
}

/// A cursor frame as a mathematical value.
pub struct CursorFrameView {
    pub size: u32,
    pub width: u32,
    pub height: u32,
    pub xhot: u32,
    pub yhot: u32,
    pub delay: u32,
    pub pixels_rgba: Seq<u8>,
    pub pixels_argb: Seq<u8>,
}

impl View for CursorFrame {
    type V = CursorFrameView;

    open spec fn view(&self) -> CursorFrameView {
        CursorFrameView {
            size: self.size,
            width: self.width,
            height: self.height,
            xhot: self.xhot,
            yhot: self.yhot,
            delay: self.delay,
            pixels_rgba: self.pixels_rgba@,
            pixels_argb: self.pixels_argb@,
        }
    }
}

/// An uploaded texture, by the handle the renderer knows it by.
#[derive(Clone, Copy, Debug, PartialEq, Eq, Hash, Structural)]
pub struct TextureId(pub u64);

/// A cached pointer image as a mathematical value.
pub struct CachedImage {
    pub frame: CursorFrameView,
    pub texture: TextureId,
}

/// The place of the first of `entries` that holds `frame`, from `from` on.
pub open spec fn cached_at(entries: Seq<CachedImage>, frame: CursorFrameView, from: int) -> Option<
    int,
>
    decreases entries.len() - from,
{
    if from < 0 || from >= entries.len() {
        None
    } else if entries[from].frame == frame {
        Some(from)
    } else {
        cached_at(entries, frame, from + 1)
    }
}

/// The texture cached for `frame`.
pub open spec fn cached_texture(entries: Seq<CachedImage>, frame: CursorFrameView) -> Option<
    TextureId,
> {
    match cached_at(entries, frame, 0) {
        Some(i) => Some(entries[i].texture),
        None => None,
    }
}

/// No frame is cached twice.
pub open spec fn frames_distinct(entries: Seq<CachedImage>) -> bool {
    forall|i: int, j: int|
        0 <= i < j < entries.len() ==> (#[trigger] entries[i]).frame != (
        #[trigger] entries[j]).frame
}

/// Where `cached_at` points, the frame is cached; where it points nowhere,
/// the frame is not cached from `from` on.
pub proof fn lemma_cached_at(entries: Seq<CachedImage>, frame: CursorFrameView, from: int)
    requires
        0 <= from,
    ensures
        match cached_at(entries, frame, from) {
            Some(i) => from <= i < entries.len() && entries[i].frame == frame,
            None => forall|j: int| from <= j < entries.len() ==> (#[trigger] entries[j]).frame
                != frame,
        },
    decreases entries.len() - from,
{
    if from < entries.len() && entries[from].frame != frame {
        lemma_cached_at(entries, frame, from + 1);
    }
}

/// Whether two byte strings are the same.
fn same_bytes(a: &Vec<u8>, b: &Vec<u8>) -> (same: bool)
    ensures
        same == (a@ == b@),
{
    if a.len() != b.len() {
        return false;
    }
    let mut i: usize = 0;
    while i < a.len()
        invariant
            i <= a.len(),
            a.len() == b.len(),
            forall|j: int| 0 <= j < i ==> a@[j] == b@[j],
        decreases a.len() - i,
    {
        if a[i] != b[i] {
            return false;
        }
        i += 1;
    }
    assert(a@ =~= b@);
    true
}

/// Whether two frames are the same image: the same geometry, delay and
/// pixels.
pub fn same_frame(a: &CursorFrame, b: &CursorFrame) -> (same: bool)
    ensures
        same == (a@ == b@),
{
    a.size == b.size && a.width == b.width && a.height == b.height && a.xhot == b.xhot && a.yhot
        == b.yhot && a.delay == b.delay && same_bytes(&a.pixels_rgba, &b.pixels_rgba)
        && same_bytes(&a.pixels_argb, &b.pixels_argb)
}

struct CacheEntry {
    frame: CursorFrame,
    texture: TextureId,
}

/// The pointer images that were uploaded, one entry for each distinct frame,
/// in the order in which they were first seen.
pub struct PointerCache {
    entries: Vec<CacheEntry>,
}

impl View for PointerCache {
    type V = Seq<CachedImage>;

    closed spec fn view(&self) -> Seq<CachedImage> {
        Seq::new(
            self.entries@.len(),
            |i: int|
                CachedImage { frame: self.entries@[i].frame@, texture: self.entries@[i].texture },
        )
    }
}

impl PointerCache {
    /// No frame is cached twice.
    pub open spec fn wf(&self) -> bool {
        frames_distinct(self@)
    }

    /// A cache without entries.
    pub fn new() -> (cache: PointerCache)
        ensures
            cache.wf(),
            cache@ == Seq::<CachedImage>::empty(),
    {
        let cache = PointerCache { entries: Vec::new() };
        assert(cache@ =~= Seq::<CachedImage>::empty());
        cache
    }

    /// Number of cached images.
    pub fn len(&self) -> (n: usize)
        ensures
            n == self@.len(),
    {
        self.entries.len()
    }

    /// The texture cached for `frame`, if it was uploaded before.
    pub fn lookup(&self, frame: &CursorFrame) -> (texture: Option<TextureId>)
        ensures
            texture == cached_texture(self@, frame@),
    {
        let mut i: usize = 0;
        while i < self.entries.len()
            invariant
                i <= self.entries.len(),
                cached_at(self@, frame@, 0) == cached_at(self@, frame@, i as int),
            decreases self.entries.len() - i,
        {
            assert(self@[i as int].frame == self.entries@[i as int].frame@);
            if same_frame(&self.entries[i].frame, frame) {
                return Some(self.entries[i].texture);
            }
            i += 1;
        }
        None
    }

    /// Caches `texture` for `frame` unless a texture is cached for it
    /// already, and returns the texture that is cached for it now.
    pub fn insert(&mut self, frame: CursorFrame, texture: TextureId) -> (cached: TextureId)
        requires
            old(self).wf(),
        ensures
            final(self).wf(),
            match cached_texture(old(self)@, frame@) {
                Some(known) => cached == known && final(self)@ == old(self)@,
                None => cached == texture && final(self)@ == old(self)@.push(
                    CachedImage { frame: frame@, texture },
                ),
            },
            cached_texture(final(self)@, frame@) == Some(cached),
    {
        let ghost before = self@;
        proof {
            lemma_cached_at(before, frame@, 0);
        }
        match self.lookup(&frame) {
            Some(known) => known,
            None => {
                let ghost added = CachedImage { frame: frame@, texture };
                self.entries.push(CacheEntry { frame, texture });
                proof {
                    assert(self@ =~= before.push(added));
                    lemma_cached_at(self@, added.frame, 0);
                    assert(self@[before.len() as int].frame == added.frame);
                    match cached_at(self@, added.frame, 0) {
                        Some(i) => {
                            if i < before.len() {
                                assert(before[i].frame == self@[i].frame);
                            }
                        },
                        None => {},
                    }
                }
                texture
            },
        }
    }
}

} // verus!
