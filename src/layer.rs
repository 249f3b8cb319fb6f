//! Layer shell windows.

use vstd::prelude::*;

use crate::geometry::Point;
use crate::window::{collect_survivors, survivors, Window};

verus! {

/// Stacking layer of a layer shell window, from the bottom up.
#[derive(Clone, Copy, Debug, PartialEq, Eq, Structural)]
pub enum Layer {
    Background,
    Bottom,
    Top,
    Overlay,
}

/// The first window of `ws` that holds the point.
pub open spec fn first_at(ws: Seq<Window>, p: Point) -> Option<Window>
    decreases ws.len(),
{
    if ws.len() == 0 {
        None
    } else if ws[0]@.rectangle.holds(p) {
        Some(ws[0])
    } else {
        first_at(ws.drop_first(), p)
    }
}

/// The first window of `ws` that holds the point.
fn find_at(ws: &Vec<Window>, p: Point) -> (r: Option<Window>)
    ensures
        r == first_at(ws@, p),
{
    let mut i: usize = 0;
    assert(ws@.subrange(0, ws@.len() as int) =~= ws@);
    while i < ws.len()
        invariant
            i <= ws@.len(),
            first_at(ws@.subrange(i as int, ws@.len() as int), p) == first_at(ws@, p),
        decreases ws@.len() - i,
    {
        let ghost rest = ws@.subrange(i as int, ws@.len() as int);
        assert(rest[0] == ws@[i as int]);
        if ws[i].contains(p) {
            return Some(ws[i]);
        }
        assert(rest.drop_first() =~= ws@.subrange(i as int + 1, ws@.len() as int));
        i += 1;
    }
    None
}

/// What is known of the layer shell windows.
pub struct LayersModel {
    pub background: Seq<Window>,
    pub bottom: Seq<Window>,
    pub top: Seq<Window>,
    pub overlay: Seq<Window>,
}

/// Layer shell windows.
#[derive(Debug)]
pub struct Layers {
    background: Vec<Window>,
    bottom: Vec<Window>,
    top: Vec<Window>,
    overlay: Vec<Window>,
}

impl View for Layers {
    type V = LayersModel;

    closed spec fn view(&self) -> LayersModel {
        LayersModel {
            background: self.background@,
            bottom: self.bottom@,
            top: self.top@,
            overlay: self.overlay@,
        }
    }
}

impl Layers {
    /// No layer shell windows.
    pub fn new() -> (r: Layers)
        ensures
            r@.background.len() == 0,
            r@.bottom.len() == 0,
            r@.top.len() == 0,
            r@.overlay.len() == 0,
    {
        Layers { background: Vec::new(), bottom: Vec::new(), top: Vec::new(), overlay: Vec::new() }
    }

    /// Add a new layer shell window with identifier `id` on top of its layer. Layer shell
    /// windows are never tiled.
    pub fn add(&mut self, layer: Layer, id: u64)
        ensures
            final(self)@ == (match layer {
                Layer::Background => LayersModel {
                    background: old(self)@.background.push(Window::new_spec(id, false)),
                    ..old(self)@
                },
                Layer::Bottom => LayersModel {
                    bottom: old(self)@.bottom.push(Window::new_spec(id, false)),
                    ..old(self)@
                },
                Layer::Top => LayersModel { top: old(self)@.top.push(Window::new_spec(id, false)), ..old(self)@ },
                Layer::Overlay => LayersModel {
                    overlay: old(self)@.overlay.push(Window::new_spec(id, false)),
                    ..old(self)@
                },
            }),
    {
        let window = Window::new(id, false);
        match layer {
            Layer::Background => self.background.push(window),
            Layer::Bottom => self.bottom.push(window),
            Layer::Top => self.top.push(window),
            Layer::Overlay => self.overlay.push(window),
        }
    }

    /// All layer shell windows, from the bottom layer up.
    pub fn iter(&self) -> (r: Vec<Window>)
        ensures
            r@ == self@.background + self@.bottom + self@.top + self@.overlay,
    {
        let mut r: Vec<Window> = Vec::new();
        append_all(&mut r, &self.background);
        append_all(&mut r, &self.bottom);
        append_all(&mut r, &self.top);
        append_all(&mut r, &self.overlay);
        r
    }

    /// Windows that are asked for a new frame: every layer shell window, from the bottom layer
    /// up.
    pub fn request_frames(&self) -> (r: Vec<u64>)
        ensures
            r@ == (self@.background + self@.bottom + self@.top + self@.overlay).map_values(
                |w: Window| w@.id,
            ),
    {
        let all = self.iter();
        let mut r: Vec<u64> = Vec::new();
        let mut i: usize = 0;
        while i < all.len()
            invariant
                i <= all@.len(),
                r@ == all@.take(i as int).map_values(|w: Window| w@.id),
            decreases all@.len() - i,
        {
            r.push(all[i].id());
            assert(all@.take(i as int + 1).map_values(|w: Window| w@.id) =~= all@.take(
                i as int,
            ).map_values(|w: Window| w@.id).push(all@[i as int]@.id));
            i += 1;
        }
        assert(all@.take(i as int) =~= all@);
        r
    }

    /// Foreground window at the specified position: the first overlay window that holds it,
    /// else the first top one.
    pub fn foreground_window_at(&self, p: Point) -> (r: Option<Window>)
        ensures
            r == (match first_at(self@.overlay, p) {
                Some(w) => Some(w),
                None => first_at(self@.top, p),
            }),
    {
        match find_at(&self.overlay, p) {
            Some(w) => Some(w),
            None => find_at(&self.top, p),
        }
    }

    /// Background window at the specified position: the first bottom window that holds it,
    /// else the first background one.
    pub fn background_window_at(&self, p: Point) -> (r: Option<Window>)
        ensures
            r == (match first_at(self@.bottom, p) {
                Some(w) => Some(w),
                None => first_at(self@.background, p),
            }),
    {
        match find_at(&self.bottom, p) {
            Some(w) => Some(w),
            None => find_at(&self.background, p),
        }
    }

    /// Record that the client of window `id` has gone, in whichever layer holds it.
    pub fn mark_dead(&mut self, id: u64)
        ensures
            final(self)@ == (LayersModel {
                background: dead_marked(old(self)@.background, id),
                bottom: dead_marked(old(self)@.bottom, id),
                top: dead_marked(old(self)@.top, id),
                overlay: dead_marked(old(self)@.overlay, id),
            }),
    {
        mark_dead_in(&mut self.background, id);
        mark_dead_in(&mut self.bottom, id);
        mark_dead_in(&mut self.top, id);
        mark_dead_in(&mut self.overlay, id);
    }

    /// Apply all pending transactional updates: dead windows are removed and the others take
    /// their staged geometry.
    pub fn apply_transaction(&mut self)
        ensures
            final(self)@ == (LayersModel {
                background: survivors(old(self)@.background),
                bottom: survivors(old(self)@.bottom),
                top: survivors(old(self)@.top),
                overlay: survivors(old(self)@.overlay),
            }),
    {
        self.background = collect_survivors(&self.background);
        self.bottom = collect_survivors(&self.bottom);
        self.top = collect_survivors(&self.top);
        self.overlay = collect_survivors(&self.overlay);
    }
}

/// The windows with the one whose identifier is `id` marked dead.
pub open spec fn dead_marked(ws: Seq<Window>, id: u64) -> Seq<Window> {
    ws.map_values(|w: Window| if w@.id == id { w.killed() } else { w })
}

/// Append every window of `src` to `dst`.
fn append_all(dst: &mut Vec<Window>, src: &Vec<Window>)
    ensures
        final(dst)@ == old(dst)@ + src@,
{
    let mut i: usize = 0;
    while i < src.len()
        invariant
            i <= src@.len(),
            dst@ == old(dst)@ + src@.take(i as int),
        decreases src@.len() - i,
    {
        dst.push(src[i]);
        assert(src@.take(i as int + 1) =~= src@.take(i as int).push(src@[i as int]));
        i += 1;
    }
    assert(src@.take(i as int) =~= src@);
}

/// Mark every window of `ws` whose identifier is `id` dead.
fn mark_dead_in(ws: &mut Vec<Window>, id: u64)
    ensures
        final(ws)@ == dead_marked(old(ws)@, id),
{
    let mut i: usize = 0;
    while i < ws.len()
        invariant
            i <= ws@.len(),
            ws@.len() == old(ws)@.len(),
            forall|k: int| 0 <= k < i ==> ws@[k] == dead_marked(old(ws)@, id)[k],
            forall|k: int| i <= k < ws@.len() ==> ws@[k] == old(ws)@[k],
        decreases ws@.len() - i,
    {
        if ws[i].id() == id {
            let w = ws[i].kill();
            ws.set(i, w);
        }
        i += 1;
    }
    assert(ws@ =~= dead_marked(old(ws)@, id));
}

} // verus!
