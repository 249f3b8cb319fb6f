//! Windows, their staged geometry, and the registry that commits it atomically.

use vstd::prelude::*;

use crate::geometry::{Output, Point, Rect, Rectangle, Size};
use crate::overview::{
    abs, clamp, focused, lowest_offset, DropTarget, Overview, HOLD_DURATION_MS, MAX_CLOSE_OFFSET,
    MAX_WINDOWS, OVERDRAG_LIMIT,
};

verus! {

/// Time after which a pending transaction is committed whether or not every window is ready.
pub const MAX_TRANSACTION_DURATION_MS: u64 = 200;

/// Work the registry asks of the protocol layer.
#[derive(Clone, Copy, Debug, PartialEq, Eq, Structural)]
pub enum Action {
    /// Send the window a configure with this size: tiled where its protocol version supports
    /// tiling, else maximized, and with compositor-drawn decorations where asked.
    Configure { window: u64, size: Size, tiled: bool, server_side_decorations: bool },
    /// Tell the window's surfaces that they entered the output.
    Enter { window: u64 },
    /// Tell the window's surfaces that they left the output.
    Leave { window: u64 },
    /// Ask the window to close.
    Close { window: u64 },
}

/// Compositor window arrangements.
#[derive(Clone, Copy, Debug, PartialEq, Eq, Structural)]
pub enum Arrangement {
    /// List of all open windows.
    Overview(Overview),
    /// Currently active windows.
    Workspace,
}

/// What is known of a window.
pub struct WindowModel {
    pub id: u64,
    pub alive: bool,
    pub tiling_supported: bool,
    pub initial_configure_sent: bool,
    pub buffers_pending: bool,
    pub acked_size: Size,
    pub rectangle: Rectangle,
    pub pending: Option<Rectangle>,
    pub visible: bool,
    pub texture_size: Size,
}

/// Wayland client window state.
#[derive(Clone, Copy, Debug)]
pub struct Window {
    /// Initial size configure status.
    pub initial_configure_sent: bool,
    /// Buffers pending to be imported.
    pub buffers_pending: bool,
    /// Last configure size acked by the client.
    pub acked_size: Size,
    /// Identifier of the window in the registry.
    pub id: u64,
    /// The client is still connected.
    pub alive: bool,
    /// The client's protocol version knows tiled states.
    pub tiling_supported: bool,
    /// Current geometry.
    pub rectangle: Rectangle,
    /// Size covered by the textures imported last.
    pub texture_size: Size,
    /// Shown on the output.
    pub visible: bool,
    /// Geometry staged by a pending transaction.
    pub pending: Option<Rectangle>,
}

impl View for Window {
    type V = WindowModel;

    open spec fn view(&self) -> WindowModel {
        WindowModel {
            id: self.id,
            alive: self.alive,
            tiling_supported: self.tiling_supported,
            initial_configure_sent: self.initial_configure_sent,
            buffers_pending: self.buffers_pending,
            acked_size: self.acked_size,
            rectangle: self.rectangle,
            pending: self.pending,
            visible: self.visible,
            texture_size: self.texture_size,
        }
    }
}

/// Configure of the window `w` to `size`: tiled where its protocol version supports tiling,
/// else maximized, and always with compositor-drawn decorations.
pub open spec fn configure_action(w: WindowModel, size: Size) -> Action {
    Action::Configure {
        window: w.id,
        size,
        tiled: w.tiling_supported,
        server_side_decorations: true,
    }
}

/// Size the window is configured to: the staged one during a transaction.
pub open spec fn target_size(w: WindowModel) -> Size {
    match w.pending {
        Some(r) => r.size,
        None => w.rectangle.size,
    }
}

/// The window has acked the size of its staged rectangle, or has none staged.
pub open spec fn is_ready(w: WindowModel) -> bool {
    match w.pending {
        Some(r) => w.acked_size == r.size,
        None => true,
    }
}

/// Window geometry staged by a transaction, or its current one.
pub open spec fn staged_rectangle(w: WindowModel) -> Rectangle {
    match w.pending {
        Some(r) => r,
        None => w.rectangle,
    }
}

/// The other arrangement: the overview opens at its start, and leaves for the workspace.
pub open spec fn toggled(view: Arrangement) -> Arrangement {
    match view {
        Arrangement::Workspace => Arrangement::Overview(Overview::initial()),
        Arrangement::Overview(_) => Arrangement::Workspace,
    }
}

impl Window {
    /// A new, live window that has not been configured.
    pub open spec fn new_spec(id: u64, tiling_supported: bool) -> Window {
        Window {
            initial_configure_sent: false,
            buffers_pending: false,
            acked_size: Size { w: 0, h: 0 },
            id,
            alive: true,
            tiling_supported,
            rectangle: Rectangle { loc: Point { x: 0, y: 0 }, size: Size { w: 0, h: 0 } },
            texture_size: Size { w: 0, h: 0 },
            visible: false,
            pending: None,
        }
    }

    /// The window with its client gone.
    pub open spec fn killed(self) -> Window {
        Window { alive: false, ..self }
    }

    /// The window with `rectangle` staged.
    pub open spec fn with_staged(self, rectangle: Rectangle) -> Window {
        Window { pending: Some(rectangle), ..self }
    }

    /// The window taken off the output and staged at the full output size.
    pub open spec fn left(self, output: Output) -> Window {
        Window {
            visible: false,
            pending: Some(Rectangle { size: output.size, ..staged_rectangle(self@) }),
            ..self
        }
    }

    /// Actions queued when the window leaves the output: the leave itself, then a configure
    /// where its staged size changes.
    pub open spec fn leave_actions(self, output: Output) -> Seq<Action> {
        seq![Action::Leave { window: self.id }] + Window::staged(
            WindowModel { visible: false, ..self@ },
            Rectangle { size: output.size, ..staged_rectangle(self@) },
        ).1
    }

    /// The window once its staged geometry is applied.
    pub open spec fn applied(self) -> Window {
        Window { rectangle: staged_rectangle(self@), pending: None, ..self }
    }

    /// The window after `rectangle` is staged: its view, and the configure it sends.
    pub open spec fn staged(w: WindowModel, rectangle: Rectangle) -> (WindowModel, Seq<Action>) {
        let changed = staged_rectangle(w) != rectangle;
        (
            WindowModel { pending: Some(rectangle), ..w },
            if changed && w.initial_configure_sent {
                seq![configure_action(w, rectangle.size)]
            } else {
                Seq::empty()
            },
        )
    }

    /// A new, live window that has not been configured.
    pub fn new(id: u64, tiling_supported: bool) -> (r: Window)
        ensures
            r == Window::new_spec(id, tiling_supported),
            r@ == (WindowModel {
                id,
                alive: true,
                tiling_supported,
                initial_configure_sent: false,
                buffers_pending: false,
                acked_size: Size { w: 0, h: 0 },
                rectangle: Rectangle { loc: Point { x: 0, y: 0 }, size: Size { w: 0, h: 0 } },
                pending: None,
                visible: false,
                texture_size: Size { w: 0, h: 0 },
            }),
    {
        Window {
            initial_configure_sent: false,
            buffers_pending: false,
            acked_size: Size { w: 0, h: 0 },
            id,
            alive: true,
            tiling_supported,
            rectangle: Rectangle { loc: Point { x: 0, y: 0 }, size: Size { w: 0, h: 0 } },
            texture_size: Size { w: 0, h: 0 },
            visible: false,
            pending: None,
        }
    }

    /// Identifier of the window.
    pub fn id(&self) -> (r: u64)
        ensures
            r == self@.id,
    {
        self.id
    }

    /// Check if window is visible on the output.
    pub fn visible(&self) -> (r: bool)
        ensures
            r == self@.visible,
    {
        self.visible
    }

    /// Whether the client of the window is still connected.
    pub fn alive(&self) -> (r: bool)
        ensures
            r == self@.alive,
    {
        self.alive
    }

    /// Current geometry of the window.
    pub fn rectangle(&self) -> (r: Rectangle)
        ensures
            r == self@.rectangle,
    {
        self.rectangle
    }

    /// The window with its client gone.
    pub fn kill(&self) -> (r: Window)
        ensures
            r == self.killed(),
            r@ == (WindowModel { alive: false, ..self@ }),
    {
        Window { alive: false, ..*self }
    }

    /// Whether the point lies inside the window's current geometry.
    pub fn contains(&self, p: Point) -> (r: bool)
        ensures
            r == self@.rectangle.holds(p),
    {
        self.rectangle.contains(p)
    }

    /// Geometry staged by the pending transaction, if there is one.
    pub fn pending_rectangle(&self) -> (r: Option<Rectangle>)
        ensures
            r == self@.pending,
    {
        self.pending
    }

    /// Configure for the latest window properties: the staged size during a transaction, else
    /// the current one.
    pub fn reconfigure(&self) -> (r: Action)
        ensures
            r == configure_action(self@, target_size(self@)),
    {
        let size = match self.pending {
            Some(r) => r.size,
            None => self.rectangle.size,
        };
        Action::Configure {
            window: self.id,
            size,
            tiled: self.tiling_supported,
            server_side_decorations: true,
        }
    }

    /// Whether the window has acked the size of its staged geometry, or has none staged.
    pub fn ready(&self) -> (r: bool)
        ensures
            r == is_ready(self@),
    {
        match self.pending {
            Some(r) => self.acked_size == r.size,
            None => true,
        }
    }

    /// Stage a new geometry. A configure is sent only where the geometry differs from the
    /// staged one and the initial configure has gone out.
    pub fn update_dimensions(&mut self, rectangle: Rectangle, actions: &mut Vec<Action>)
        ensures
            *final(self) == old(self).with_staged(rectangle),
            final(self)@ == Window::staged(old(self)@, rectangle).0,
            final(actions)@ == old(actions)@ + Window::staged(old(self)@, rectangle).1,
    {
        let previous = match self.pending {
            Some(r) => r,
            None => self.rectangle,
        };
        self.pending = Some(rectangle);
        if previous != rectangle && self.initial_configure_sent {
            actions.push(self.reconfigure());
        }
        proof {
            let expected = Window::staged(old(self)@, rectangle).1;
            if !(previous != rectangle && self.initial_configure_sent) {
                assert(final(actions)@ =~= old(actions)@ + expected);
            } else {
                assert(final(actions)@ =~= old(actions)@ + expected);
            }
        }
    }

    /// Show the window on the output.
    pub fn enter(&mut self, actions: &mut Vec<Action>)
        ensures
            *final(self) == (Window { visible: true, ..*old(self) }),
            final(actions)@ == old(actions)@.push(Action::Enter { window: old(self)@.id }),
    {
        actions.push(Action::Enter { window: self.id });
        self.visible = true;
    }

    /// Take the window off the output and stage it at the full output size, as the overview
    /// shows it.
    pub fn leave(&mut self, output: &Output, actions: &mut Vec<Action>)
        ensures
            *final(self) == old(self).left(*output),
            final(actions)@ == old(actions)@ + old(self).leave_actions(*output),
    {
        actions.push(Action::Leave { window: self.id });
        self.visible = false;
        let staged = match self.pending {
            Some(r) => r,
            None => self.rectangle,
        };
        let full = Rectangle { loc: staged.loc, size: output.size };
        let ghost a1 = actions@;
        self.update_dimensions(full, actions);
        assert(actions@ =~= old(actions)@ + old(self).leave_actions(*output));
    }

    /// Whether the buffers of the window are to be imported before drawing: some are
    /// pending and no transaction holds the window's state.
    pub fn needs_import(&self) -> (r: bool)
        ensures
            r == (self@.pending is None && self@.buffers_pending),
    {
        self.pending.is_none() && self.buffers_pending
    }

    /// Record that the buffers were imported, their textures covering `texture_size`.
    pub fn imported(&mut self, texture_size: Size)
        ensures
            final(self)@ == (WindowModel { texture_size, buffers_pending: false, ..old(self)@ }),
    {
        self.texture_size = texture_size;
        self.buffers_pending = false;
    }

    /// Where the window's textures are drawn in the workspace: centred inside its
    /// rectangle, never left of or above it, with the output's size.
    pub fn draw_bounds(&self, output_size: Size) -> (r: Rect)
        ensures
            ({
                let w = self@.rectangle.size.w - self@.texture_size.w;
                let h = self@.rectangle.size.h - self@.texture_size.h;
                r == (Rect {
                    x: (self@.rectangle.loc.x + (if w > 0 { w / 2 } else { 0 })) as i64,
                    y: (self@.rectangle.loc.y + (if h > 0 { h / 2 } else { 0 })) as i64,
                    w: output_size.w as i64,
                    h: output_size.h as i64,
                })
            }),
    {
        let w: i64 = self.rectangle.size.w as i64 - self.texture_size.w as i64;
        let h: i64 = self.rectangle.size.h as i64 - self.texture_size.h as i64;
        let dx: i64 = if w > 0 { w / 2 } else { 0 };
        let dy: i64 = if h > 0 { h / 2 } else { 0 };
        Rect {
            x: self.rectangle.loc.x as i64 + dx,
            y: self.rectangle.loc.y as i64 + dy,
            w: output_size.w as i64,
            h: output_size.h as i64,
        }
    }

    /// Apply the staged geometry, if there is one, and end the window's transaction.
    pub fn apply_transaction(&mut self)
        ensures
            *final(self) == old(self).applied(),
            final(self)@ == (WindowModel {
                rectangle: staged_rectangle(old(self)@),
                pending: None,
                ..old(self)@
            }),
    {
        if let Some(r) = self.pending {
            self.rectangle = r;
        }
        self.pending = None;
    }
}


/// The sequence holds a window whose identifier is `id`.
pub open spec fn holds_id(ws: Seq<Window>, id: Option<u64>) -> bool {
    exists|i: int| 0 <= i < ws.len() && id == Some((#[trigger] ws[i])@.id)
}

/// The sequence holds a live window whose identifier is `id`.
pub open spec fn holds_live(ws: Seq<Window>, id: Option<u64>) -> bool {
    exists|i: int| 0 <= i < ws.len() && id == Some((#[trigger] ws[i])@.id) && ws[i]@.alive
}

/// No two windows of the sequence share an identifier.
pub open spec fn unique_ids(ws: Seq<Window>) -> bool {
    forall|i: int, j: int|
        0 <= i < ws.len() && 0 <= j < ws.len() && i != j ==> (#[trigger] ws[i])@.id != (
        #[trigger] ws[j])@.id
}

/// `b` holds the windows of `a`, in the same order, with the same identity, liveness and
/// current geometry: only what is staged or shown may differ.
pub open spec fn same_windows(a: Seq<Window>, b: Seq<Window>) -> bool {
    &&& a.len() == b.len()
    &&& forall|k: int|
        0 <= k < a.len() ==> {
            &&& (#[trigger] b[k])@.id == a[k]@.id
            &&& b[k]@.alive == a[k]@.alive
            &&& b[k]@.rectangle == a[k]@.rectangle
            &&& b[k]@.acked_size == a[k]@.acked_size
            &&& b[k]@.initial_configure_sent == a[k]@.initial_configure_sent
            &&& b[k]@.buffers_pending == a[k]@.buffers_pending
        }
}

/// Index of the window whose identifier is `id`.
fn find_index(ws: &Vec<Window>, id: Option<u64>) -> (r: Option<usize>)
    ensures
        match r {
            Some(i) => i < ws@.len() && id == Some(ws@[i as int]@.id),
            None => !holds_id(ws@, id),
        },
{
    let target = match id {
        Some(t) => t,
        None => return None,
    };
    let mut i: usize = 0;
    while i < ws.len()
        invariant
            i <= ws@.len(),
            id == Some(target),
            forall|k: int| 0 <= k < i ==> (#[trigger] ws@[k])@.id != target,
        decreases ws@.len() - i,
    {
        if ws[i].id == target {
            return Some(i);
        }
        i += 1;
    }
    None
}

/// Atomic changes to [`Windows`].
#[derive(Clone, Copy, Debug)]
pub struct Transaction {
    /// Primary window once the transaction commits.
    pub primary: Option<u64>,
    /// Secondary window once the transaction commits.
    pub secondary: Option<u64>,
    /// Arrangement once the transaction commits, if it changes.
    pub view: Option<Arrangement>,
    /// Time at which the transaction started.
    pub start: u64,
}

/// Index of the window whose identifier is `id`, where the sequence holds one.
pub open spec fn index_of(ws: Seq<Window>, id: Option<u64>) -> int {
    choose|i: int| 0 <= i < ws.len() && id == Some((#[trigger] ws[i])@.id)
}

/// In a sequence with unique identifiers, `i` is the index of the window whose identifier it
/// holds.
pub proof fn lemma_index_of(ws: Seq<Window>, id: Option<u64>, i: int)
    requires
        unique_ids(ws),
        0 <= i < ws.len(),
        id == Some(ws[i]@.id),
    ensures
        holds_id(ws, id),
        index_of(ws, id) == i,
{
    assert(holds_id(ws, id));
    let j = index_of(ws, id);
    assert(ws[j]@.id == ws[i]@.id);
}

/// Area staged for the primary window of `t`: split where the sequence holds its secondary.
pub open spec fn primary_area_for(ws: Seq<Window>, t: Transaction, output: Output) -> Rectangle {
    output.primary_area(holds_id(ws, t.secondary))
}

/// The windows once the primary window of `t` has its area staged.
pub open spec fn primary_dimensioned(ws: Seq<Window>, t: Transaction, output: Output) -> Seq<Window> {
    if holds_id(ws, t.primary) {
        let i = index_of(ws, t.primary);
        ws.update(i, ws[i].with_staged(primary_area_for(ws, t, output)))
    } else {
        ws
    }
}

/// The windows once the primary and secondary windows of `t` have their areas staged.
pub open spec fn dimensioned(ws: Seq<Window>, t: Transaction, output: Output) -> Seq<Window> {
    let ws1 = primary_dimensioned(ws, t, output);
    if holds_id(ws, t.secondary) {
        let j = index_of(ws, t.secondary);
        ws1.update(j, ws1[j].with_staged(output.secondary))
    } else {
        ws1
    }
}

/// Configures queued while the windows of `t` are staged: the primary window's, then the
/// secondary window's.
pub open spec fn dimension_actions(ws: Seq<Window>, t: Transaction, output: Output) -> Seq<Action> {
    let ws1 = primary_dimensioned(ws, t, output);
    let first = if holds_id(ws, t.primary) {
        Window::staged(ws[index_of(ws, t.primary)]@, primary_area_for(ws, t, output)).1
    } else {
        Seq::empty()
    };
    let second = if holds_id(ws, t.secondary) {
        Window::staged(ws1[index_of(ws, t.secondary)]@, output.secondary).1
    } else {
        Seq::empty()
    };
    first + second
}

impl Transaction {
    /// Stage the geometry of the transaction's primary and secondary windows: the primary
    /// takes the primary area, split where a secondary window is present, and the secondary
    /// takes the secondary area. Each sends a configure where its staged geometry changes.
    pub fn update_dimensions(&self, windows: &mut Vec<Window>, output: &Output, actions: &mut Vec<Action>)
        requires
            unique_ids(old(windows)@),
        ensures
            final(windows)@ == dimensioned(old(windows)@, *self, *output),
            final(actions)@ == old(actions)@ + dimension_actions(old(windows)@, *self, *output),
            same_windows(old(windows)@, final(windows)@),
            old(actions)@.is_prefix_of(final(actions)@),
    {
        let ghost ws = windows@;
        let secondary_index = find_index(windows, self.secondary);
        proof {
            if let Some(j) = secondary_index {
                lemma_index_of(ws, self.secondary, j as int);
            }
        }
        if let Some(i) = find_index(windows, self.primary) {
            proof {
                lemma_index_of(ws, self.primary, i as int);
            }
            let rectangle = output.primary_rectangle(secondary_index.is_some());
            let mut w = windows[i];
            w.update_dimensions(rectangle, actions);
            windows.set(i, w);
        }
        let ghost mid = windows@;
        let ghost mid_actions = actions@;
        assert(mid == primary_dimensioned(ws, *self, *output));
        if let Some(j) = secondary_index {
            let mut w = windows[j];
            w.update_dimensions(output.secondary_rectangle(), actions);
            windows.set(j, w);
        }
        proof {
            assert(windows@ == dimensioned(ws, *self, *output));
            assert(actions@ =~= old(actions)@ + dimension_actions(ws, *self, *output));
            assert(old(actions)@.is_prefix_of(actions@));
        }
    }
}

/// What is known of the registry.
pub struct WindowsModel {
    pub windows: Seq<Window>,
    pub primary: Option<u64>,
    pub secondary: Option<u64>,
    pub transaction: Option<Transaction>,
    pub view: Arrangement,
    pub actions: Seq<Action>,
    pub next_id: u64,
}

/// The arrangement keeps the overview's offsets within their bounds for `n` windows.
pub open spec fn arrangement_ok(view: Arrangement, n: int) -> bool {
    match view {
        Arrangement::Overview(o) => o.wf(n),
        Arrangement::Workspace => true,
    }
}

/// A staged overview keeps its vertical offset within bounds.
pub open spec fn staged_view_ok(view: Option<Arrangement>) -> bool {
    match view {
        Some(Arrangement::Overview(o)) => abs(o.y_offset as int) <= MAX_CLOSE_OFFSET,
        _ => true,
    }
}

/// The transaction that staging works on: the pending one, or a new one that starts at `now`
/// from the current primary and secondary windows.
pub open spec fn opened(m: WindowsModel, now: u64) -> Transaction {
    match m.transaction {
        Some(t) => t,
        None => Transaction { primary: m.primary, secondary: m.secondary, view: None, start: now },
    }
}

/// Primary and secondary windows that a transaction `t` stages when `window` becomes the
/// primary one among the windows `ws`; `from_index` tells whether `window` was named, or else
/// taken from the staged secondary window.
pub open spec fn primary_staging(ws: Seq<Window>, t: Transaction, window: Option<u64>, from_index: bool) -> (
    Option<u64>,
    Option<u64>,
) {
    let secondary = if from_index {
        t.secondary
    } else {
        None
    };
    if window == t.primary {
        (t.primary, secondary)
    } else {
        let secondary = if window == secondary {
            None
        } else {
            secondary
        };
        (window, if holds_id(ws, secondary) {
            secondary
        } else {
            t.primary
        })
    }
}

/// Primary and secondary windows that a transaction `t` stages when `window` becomes the
/// secondary one.
pub open spec fn secondary_staging(t: Transaction, window: Option<u64>) -> (Option<u64>, Option<u64>) {
    (if window.is_some() && window == t.primary {
        None
    } else {
        t.primary
    }, window)
}

/// Live windows of the sequence, in order, each with its staged geometry applied.
pub open spec fn survivors(ws: Seq<Window>) -> Seq<Window>
    decreases ws.len(),
{
    if ws.len() == 0 {
        ws
    } else {
        let rest = survivors(ws.drop_last());
        if ws.last()@.alive {
            rest.push(ws.last().applied())
        } else {
            rest
        }
    }
}

/// The window belongs to part `k` of the arrangement for primary `p` and secondary `s`: the
/// primary window first, then the secondary one, then the others.
pub open spec fn in_part(w: Window, p: Option<u64>, s: Option<u64>, k: int) -> bool {
    let id = Some(w@.id);
    if k == 0 {
        id == p
    } else if k == 1 {
        id == s && id != p
    } else {
        id != p && id != s
    }
}

/// The windows of part `k` of the arrangement, in order.
pub open spec fn part(ws: Seq<Window>, p: Option<u64>, s: Option<u64>, k: int) -> Seq<Window>
    decreases ws.len(),
{
    if ws.len() == 0 {
        ws
    } else {
        let rest = part(ws.drop_last(), p, s, k);
        if in_part(ws.last(), p, s, k) {
            rest.push(ws.last())
        } else {
            rest
        }
    }
}

/// The windows reordered so that the primary window comes first and the secondary one next,
/// the others keeping their order.
pub open spec fn arranged(ws: Seq<Window>, p: Option<u64>, s: Option<u64>) -> Seq<Window> {
    part(ws, p, s, 0) + part(ws, p, s, 1) + part(ws, p, s, 2)
}

/// Every window has acked the size it is staged at.
pub open spec fn all_ready(ws: Seq<Window>) -> bool {
    forall|i: int| 0 <= i < ws.len() ==> is_ready((#[trigger] ws[i])@)
}

/// The transaction has run past [`MAX_TRANSACTION_DURATION_MS`] at time `now`.
pub open spec fn expired(t: Transaction, now: u64) -> bool {
    now > t.start + MAX_TRANSACTION_DURATION_MS
}

/// A check at time `now` commits the transaction `t` over the windows `ws`.
pub open spec fn commits(ws: Seq<Window>, t: Transaction, now: u64) -> bool {
    expired(t, now) || all_ready(ws)
}

/// The arrangement with the overview's offset limited for `n` windows.
pub open spec fn limited(view: Arrangement, n: int) -> Arrangement {
    match view {
        Arrangement::Overview(o) => Arrangement::Overview(
            Overview {
                x_offset: clamp(o.x_offset as int, lowest_offset(n), OVERDRAG_LIMIT as int) as i64,
                ..o
            },
        ),
        Arrangement::Workspace => Arrangement::Workspace,
    }
}

/// Every window of `a` has the identifier of a window of `b`.
pub open spec fn ids_within(a: Seq<Window>, b: Seq<Window>) -> bool {
    forall|j: int| 0 <= j < a.len() ==> exists|i: int| 0 <= i < b.len() && (#[trigger] a[j])@.id == (#[trigger] b[i])@.id
}

proof fn lemma_survivors(ws: Seq<Window>)
    ensures
        survivors(ws).len() <= ws.len(),
        ids_within(survivors(ws), ws),
        unique_ids(ws) ==> unique_ids(survivors(ws)),
    decreases ws.len(),
{
    if ws.len() > 0 {
        let init = ws.drop_last();
        lemma_survivors(init);
        let rest = survivors(init);
        let out = survivors(ws);
        assert forall|j: int| 0 <= j < out.len() implies exists|i: int| 0 <= i < ws.len() && (#[trigger] out[j])@.id == (#[trigger] ws[i])@.id by {
            if j < rest.len() {
                assert(out[j] == rest[j]);
                let i = choose|i: int| 0 <= i < init.len() && rest[j]@.id == (#[trigger] init[i])@.id;
                assert(ws[i] == init[i]);
            } else {
                assert(out[j]@.id == ws[ws.len() - 1]@.id);
            }
        }
        if unique_ids(ws) {
            assert(unique_ids(init)) by {
                assert forall|a: int, b: int|
                    0 <= a < init.len() && 0 <= b < init.len() && a != b implies (#[trigger] init[a])@.id != (
                    #[trigger] init[b])@.id by {
                    assert(init[a] == ws[a] && init[b] == ws[b]);
                }
            }
            assert forall|a: int, b: int|
                0 <= a < out.len() && 0 <= b < out.len() && a != b implies (#[trigger] out[a])@.id != (
                #[trigger] out[b])@.id by {
                if a < rest.len() && b < rest.len() {
                    assert(out[a] == rest[a] && out[b] == rest[b]);
                } else if a < rest.len() {
                    assert(out[a] == rest[a]);
                    let i = choose|i: int| 0 <= i < init.len() && rest[a]@.id == (#[trigger] init[i])@.id;
                    assert(ws[i] == init[i]);
                } else if b < rest.len() {
                    assert(out[b] == rest[b]);
                    let i = choose|i: int| 0 <= i < init.len() && rest[b]@.id == (#[trigger] init[i])@.id;
                    assert(ws[i] == init[i]);
                }
            }
        }
    }
}

proof fn lemma_part(ws: Seq<Window>, p: Option<u64>, s: Option<u64>, k: int)
    ensures
        ids_within(part(ws, p, s, k), ws),
        unique_ids(ws) ==> unique_ids(part(ws, p, s, k)),
        forall|j: int| 0 <= j < part(ws, p, s, k).len() ==> in_part(#[trigger] part(ws, p, s, k)[j], p, s, k),
    decreases ws.len(),
{
    if ws.len() > 0 {
        let init = ws.drop_last();
        lemma_part(init, p, s, k);
        let rest = part(init, p, s, k);
        let out = part(ws, p, s, k);
        assert forall|j: int| 0 <= j < out.len() implies exists|i: int| 0 <= i < ws.len() && (#[trigger] out[j])@.id == (#[trigger] ws[i])@.id by {
            if j < rest.len() {
                assert(out[j] == rest[j]);
                let i = choose|i: int| 0 <= i < init.len() && rest[j]@.id == (#[trigger] init[i])@.id;
                assert(ws[i] == init[i]);
            } else {
                assert(out[j] == ws[ws.len() - 1]);
            }
        }
        assert forall|j: int| 0 <= j < out.len() implies in_part(#[trigger] out[j], p, s, k) by {
            if j < rest.len() {
                assert(out[j] == rest[j]);
            }
        }
        if unique_ids(ws) {
            assert(unique_ids(init)) by {
                assert forall|a: int, b: int|
                    0 <= a < init.len() && 0 <= b < init.len() && a != b implies (#[trigger] init[a])@.id != (
                    #[trigger] init[b])@.id by {
                    assert(init[a] == ws[a] && init[b] == ws[b]);
                }
            }
            assert forall|a: int, b: int|
                0 <= a < out.len() && 0 <= b < out.len() && a != b implies (#[trigger] out[a])@.id != (
                #[trigger] out[b])@.id by {
                if a < rest.len() && b < rest.len() {
                    assert(out[a] == rest[a] && out[b] == rest[b]);
                } else if a < rest.len() {
                    assert(out[a] == rest[a]);
                    let i = choose|i: int| 0 <= i < init.len() && rest[a]@.id == (#[trigger] init[i])@.id;
                    assert(ws[i] == init[i]);
                } else if b < rest.len() {
                    assert(out[b] == rest[b]);
                    let i = choose|i: int| 0 <= i < init.len() && rest[b]@.id == (#[trigger] init[i])@.id;
                    assert(ws[i] == init[i]);
                }
            }
        }
    }
}

proof fn lemma_parts_len(ws: Seq<Window>, p: Option<u64>, s: Option<u64>)
    ensures
        part(ws, p, s, 0).len() + part(ws, p, s, 1).len() + part(ws, p, s, 2).len() == ws.len(),
    decreases ws.len(),
{
    if ws.len() > 0 {
        lemma_parts_len(ws.drop_last(), p, s);
    }
}

/// Committing keeps identifiers unique, draws them from the windows committed, and never
/// makes the registry longer.
proof fn lemma_arranged(ws: Seq<Window>, p: Option<u64>, s: Option<u64>)
    requires
        unique_ids(ws),
    ensures
        unique_ids(arranged(survivors(ws), p, s)),
        ids_within(arranged(survivors(ws), p, s), ws),
        arranged(survivors(ws), p, s).len() <= ws.len(),
{
    let live = survivors(ws);
    lemma_survivors(ws);
    lemma_part(live, p, s, 0);
    lemma_part(live, p, s, 1);
    lemma_part(live, p, s, 2);
    lemma_parts_len(live, p, s);
    let a = part(live, p, s, 0);
    let b = part(live, p, s, 1);
    let c = part(live, p, s, 2);
    let out = arranged(live, p, s);
    assert(out == a + b + c);
    assert forall|j: int| 0 <= j < out.len() implies (if j < a.len() {
        out[j] == a[j]
    } else if j < a.len() + b.len() {
        out[j] == b[j - a.len()]
    } else {
        out[j] == c[j - a.len() - b.len()]
    }) by {}
    assert forall|x: int, y: int|
        0 <= x < out.len() && 0 <= y < out.len() && x != y implies (#[trigger] out[x])@.id != (
        #[trigger] out[y])@.id by {
        let kx = if x < a.len() { 0int } else if x < a.len() + b.len() { 1int } else { 2int };
        let ky = if y < a.len() { 0int } else if y < a.len() + b.len() { 1int } else { 2int };
        assert(in_part(out[x], p, s, kx));
        assert(in_part(out[y], p, s, ky));
    }
    assert forall|j: int| 0 <= j < out.len() implies exists|i: int| 0 <= i < ws.len() && (#[trigger] out[j])@.id == (#[trigger] ws[i])@.id by {
        let w = out[j];
        let i0 = choose|i: int| 0 <= i < live.len() && w@.id == (#[trigger] live[i])@.id;
        let i1 = choose|i: int| 0 <= i < ws.len() && live[i0]@.id == (#[trigger] ws[i])@.id;
    }
}

/// The live windows of `ws`, in order, each with its staged geometry applied.
pub fn collect_survivors(ws: &Vec<Window>) -> (r: Vec<Window>)
    ensures
        r@ == survivors(ws@),
{
    let mut r: Vec<Window> = Vec::new();
    let mut i: usize = 0;
    while i < ws.len()
        invariant
            i <= ws@.len(),
            r@ == survivors(ws@.take(i as int)),
        decreases ws@.len() - i,
    {
        let mut w = ws[i];
        assert(ws@.take(i as int + 1).drop_last() =~= ws@.take(i as int));
        if w.alive {
            w.apply_transaction();
            r.push(w);
        }
        i += 1;
    }
    assert(ws@.take(i as int) =~= ws@);
    r
}

/// Append the windows of part `k` of the arrangement of `ws` to `out`.
fn collect_part(ws: &Vec<Window>, p: Option<u64>, s: Option<u64>, k: u8, out: &mut Vec<Window>)
    ensures
        final(out)@ == old(out)@ + part(ws@, p, s, k as int),
{
    let mut i: usize = 0;
    while i < ws.len()
        invariant
            i <= ws@.len(),
            out@ == old(out)@ + part(ws@.take(i as int), p, s, k as int),
        decreases ws@.len() - i,
    {
        let w = ws[i];
        let id = Some(w.id);
        let keep = if k == 0 {
            id == p
        } else if k == 1 {
            id == s && id != p
        } else {
            id != p && id != s
        };
        assert(ws@.take(i as int + 1).drop_last() =~= ws@.take(i as int));
        assert(ws@.take(i as int + 1).last() == w);
        if keep {
            out.push(w);
            assert(out@ =~= old(out)@ + part(ws@.take(i as int + 1), p, s, k as int));
        }
        i += 1;
    }
    assert(ws@.take(i as int) =~= ws@);
}

/// Identifiers of the visible windows: the primary one, then the secondary one, each where
/// the sequence holds it.
pub open spec fn visible_ids(ws: Seq<Window>, p: Option<u64>, s: Option<u64>) -> Seq<u64> {
    (if holds_id(ws, p) {
        seq![p.unwrap()]
    } else {
        Seq::empty()
    }) + (if holds_id(ws, s) {
        seq![s.unwrap()]
    } else {
        Seq::empty()
    })
}

/// A transaction in which no window has geometry staged commits at the next check, whatever
/// the time; one in which some window has not acked its staged size commits exactly once it has
/// run past [`MAX_TRANSACTION_DURATION_MS`].
pub proof fn lemma_transaction_liveness(ws: Seq<Window>, t: Transaction, now: u64)
    ensures
        (forall|i: int| 0 <= i < ws.len() ==> (#[trigger] ws[i])@.pending is None) ==> commits(ws, t, now),
        (exists|i: int| 0 <= i < ws.len() && !is_ready((#[trigger] ws[i])@)) ==> (commits(ws, t, now)
            <==> now > t.start + MAX_TRANSACTION_DURATION_MS),
{
}

proof fn lemma_survivors_hold(ws: Seq<Window>, id: Option<u64>)
    ensures
        holds_id(survivors(ws), id) <==> holds_live(ws, id),
    decreases ws.len(),
{
    if ws.len() > 0 {
        let init = ws.drop_last();
        lemma_survivors_hold(init, id);
        let rest = survivors(init);
        let out = survivors(ws);
        if holds_live(ws, id) {
            let i = choose|i: int| 0 <= i < ws.len() && id == Some((#[trigger] ws[i])@.id) && ws[i]@.alive;
            if i < ws.len() - 1 {
                assert(init[i] == ws[i]);
                let j = choose|j: int| 0 <= j < rest.len() && id == Some((#[trigger] rest[j])@.id);
                assert(out[j] == rest[j]);
            } else {
                assert(out[out.len() - 1]@.id == ws[i]@.id);
            }
        }
        if holds_id(out, id) {
            let j = choose|j: int| 0 <= j < out.len() && id == Some((#[trigger] out[j])@.id);
            if j < rest.len() {
                assert(out[j] == rest[j]);
                let i = choose|i: int| 0 <= i < init.len() && id == Some((#[trigger] init[i])@.id) && init[i]@.alive;
                assert(ws[i] == init[i]);
            } else {
                assert(out[j]@.id == ws[ws.len() - 1]@.id);
            }
        }
    }
}

proof fn lemma_part_holds(ws: Seq<Window>, p: Option<u64>, s: Option<u64>, k: int, id: Option<u64>)
    requires
        unique_ids(ws),
        forall|w: Window| #[trigger] in_part(w, p, s, k) ==> Some(w@.id) == id,
    ensures
        holds_id(ws, id) && (exists|i: int| 0 <= i < ws.len() && in_part(#[trigger] ws[i], p, s, k))
            ==> part(ws, p, s, k).len() == 1,
        part(ws, p, s, k).len() <= 1,
{
    lemma_part(ws, p, s, k);
    let out = part(ws, p, s, k);
    if out.len() > 1 {
        assert(out[0]@.id == out[1]@.id);
    }
    if exists|i: int| 0 <= i < ws.len() && in_part(#[trigger] ws[i], p, s, k) {
        let i = choose|i: int| 0 <= i < ws.len() && in_part(#[trigger] ws[i], p, s, k);
        lemma_part_nonempty(ws, p, s, k, i);
    }
}

proof fn lemma_part_nonempty(ws: Seq<Window>, p: Option<u64>, s: Option<u64>, k: int, i: int)
    requires
        0 <= i < ws.len(),
        in_part(ws[i], p, s, k),
    ensures
        part(ws, p, s, k).len() > 0,
    decreases ws.len(),
{
    if i < ws.len() - 1 {
        assert(ws.drop_last()[i] == ws[i]);
        lemma_part_nonempty(ws.drop_last(), p, s, k, i);
    }
}

/// After a commit the primary window, where it is still alive, comes first, and the secondary
/// one, where it is alive and distinct from the primary, right after it, or first where no
/// primary window survives.
pub proof fn lemma_commit_order(ws: Seq<Window>, p: Option<u64>, s: Option<u64>)
    requires
        unique_ids(ws),
    ensures
        holds_live(ws, p) ==> arranged(survivors(ws), p, s)[0]@.id == p.unwrap(),
        holds_live(ws, s) && s != p ==> arranged(survivors(ws), p, s)[if holds_live(ws, p) {
            1int
        } else {
            0int
        }]@.id == s.unwrap(),
{
    let live = survivors(ws);
    lemma_survivors(ws);
    lemma_survivors_hold(ws, p);
    lemma_survivors_hold(ws, s);
    lemma_part(live, p, s, 0);
    lemma_part(live, p, s, 1);
    let a = part(live, p, s, 0);
    let b = part(live, p, s, 1);
    let out = arranged(live, p, s);
    lemma_part_holds(live, p, s, 0, p);
    if holds_live(ws, p) {
        let i = choose|i: int| 0 <= i < live.len() && p == Some((#[trigger] live[i])@.id);
        assert(in_part(live[i], p, s, 0));
        assert(a.len() == 1);
        assert(out[0] == a[0]);
        assert(in_part(a[0], p, s, 0));
    } else {
        if a.len() > 0 {
            assert(in_part(a[0], p, s, 0));
            let w = a[0];
            assert(exists|i: int| 0 <= i < live.len() && w@.id == (#[trigger] live[i])@.id);
        }
        assert(a.len() == 0);
    }
    if holds_live(ws, s) && s != p {
        lemma_part_holds(live, p, s, 1, s);
        let i = choose|i: int| 0 <= i < live.len() && s == Some((#[trigger] live[i])@.id);
        assert(in_part(live[i], p, s, 1));
        assert(b.len() == 1);
        assert(out[a.len() as int] == b[0]);
        assert(in_part(b[0], p, s, 1));
    }
}

/// The registry once the transaction `t` has committed: dead windows reaped, staged geometry
/// applied, the primary window first and the secondary one next, and the staged primary,
/// secondary and arrangement current.
pub open spec fn committed_model(m: WindowsModel, t: Transaction) -> WindowsModel {
    let ws = arranged(survivors(m.windows), t.primary, t.secondary);
    WindowsModel {
        windows: ws,
        primary: t.primary,
        secondary: t.secondary,
        transaction: None,
        view: limited(
            match t.view {
                Some(v) => v,
                None => m.view,
            },
            ws.len() as int,
        ),
        ..m
    }
}

/// The transaction that reaping dead visible windows stages at time `now`: a dead secondary
/// window is dropped, and a dead primary one replaced by the secondary window.
pub open spec fn reaped_transaction(m: WindowsModel, now: u64) -> Transaction {
    let t0 = opened(m, now);
    let secondary = if holds_live(m.windows, t0.secondary) {
        t0.secondary
    } else {
        None
    };
    if holds_live(m.windows, t0.primary) {
        Transaction { secondary, ..t0 }
    } else {
        Transaction { primary: secondary, secondary: None, ..t0 }
    }
}

/// The identifier is none, or one already handed out.
pub open spec fn id_below(id: Option<u64>, next_id: u64) -> bool {
    match id {
        Some(i) => i < next_id,
        None => true,
    }
}

/// The windows with the one at `i`, if any, shown on the output.
pub open spec fn shown(ws: Seq<Window>, index: Option<usize>) -> Seq<Window> {
    match index {
        Some(i) => ws.update(i as int, Window { visible: true, ..ws[i as int] }),
        None => ws,
    }
}

/// The enter action queued for the window at `i`, if any.
pub open spec fn enter_actions(ws: Seq<Window>, index: Option<usize>) -> Seq<Action> {
    match index {
        Some(i) => seq![Action::Enter { window: ws[i as int]@.id }],
        None => Seq::empty(),
    }
}

/// The windows, and the actions queued, once the window `id`, where the sequence holds it,
/// has left the output.
pub open spec fn left_windows(ws: Seq<Window>, id: Option<u64>, output: Output) -> (Seq<Window>, Seq<Action>) {
    if holds_id(ws, id) {
        let i = index_of(ws, id);
        (ws.update(i, ws[i].left(output)), ws[i].leave_actions(output))
    } else {
        (ws, Seq::empty())
    }
}

/// The registry once the window at `index`, or else the staged secondary one, is staged as
/// the primary window at time `now`.
pub open spec fn primary_set(m: WindowsModel, output: Output, index: Option<usize>, now: u64) -> WindowsModel {
    let t0 = opened(m, now);
    let ws = m.windows;
    let window = match index {
        Some(i) => Some(ws[i as int]@.id),
        None => t0.secondary,
    };
    let staged = primary_staging(ws, t0, window, index is Some);
    let t = Transaction { primary: staged.0, secondary: staged.1, ..t0 };
    if window == t0.primary {
        WindowsModel { transaction: Some(t), ..m }
    } else {
        let secondary = if index is Some {
            t0.secondary
        } else {
            None
        };
        let secondary = if window == secondary {
            None
        } else {
            secondary
        };
        let (ws1, a1) = if holds_id(ws, secondary) {
            left_windows(ws, t0.primary, output)
        } else {
            (ws, Seq::empty())
        };
        let ws2 = shown(ws1, index);
        WindowsModel {
            windows: dimensioned(ws2, t, output),
            actions: m.actions + a1 + enter_actions(ws1, index) + dimension_actions(ws2, t, output),
            transaction: Some(t),
            ..m
        }
    }
}

/// The registry once the window at `index`, or none, is staged as the secondary window at
/// time `now`.
pub open spec fn secondary_set(m: WindowsModel, output: Output, index: Option<usize>, now: u64) -> WindowsModel {
    let t0 = opened(m, now);
    let ws = m.windows;
    let (ws1, a1) = left_windows(ws, t0.secondary, output);
    let ws2 = shown(ws1, index);
    let window = match index {
        Some(i) => Some(ws[i as int]@.id),
        None => None,
    };
    let staged = secondary_staging(t0, window);
    let t = Transaction { primary: staged.0, secondary: staged.1, ..t0 };
    WindowsModel {
        windows: dimensioned(ws2, t, output),
        actions: m.actions + a1 + enter_actions(ws1, index) + dimension_actions(ws2, t, output),
        transaction: Some(t),
        ..m
    }
}

/// A window named as the new primary one is the staged primary window, whatever was staged
/// before; once that transaction commits, it is the current primary window. Tapping the
/// focused window in the overview and dropping it in the top third stage it this way.
pub proof fn lemma_named_primary_commits(m: WindowsModel, t0: Transaction, id: u64, view: Option<Arrangement>)
    ensures
        primary_staging(m.windows, t0, Some(id), true).0 == Some(id),
        committed_model(
            m,
            Transaction {
                primary: primary_staging(m.windows, t0, Some(id), true).0,
                secondary: primary_staging(m.windows, t0, Some(id), true).1,
                view,
                ..t0
            },
        ).primary == Some(id),
{
}

/// The registry once a new window `id` is appended and staged as the primary one at `now`.
pub open spec fn added(m: WindowsModel, id: u64, tiling_supported: bool, output: Output, now: u64) -> WindowsModel {
    primary_set(
        WindowsModel {
            windows: m.windows.push(Window::new_spec(id, tiling_supported)),
            next_id: (id + 1) as u64,
            ..m
        },
        output,
        Some(m.windows.len() as usize),
        now,
    )
}

proof fn lemma_same_windows_trans(a: Seq<Window>, b: Seq<Window>, c: Seq<Window>)
    requires
        same_windows(a, b),
        same_windows(b, c),
    ensures
        same_windows(a, c),
{
    assert forall|k: int| 0 <= k < a.len() implies {
        &&& (#[trigger] c[k])@.id == a[k]@.id
        &&& c[k]@.alive == a[k]@.alive
        &&& c[k]@.rectangle == a[k]@.rectangle
        &&& c[k]@.acked_size == a[k]@.acked_size
        &&& c[k]@.initial_configure_sent == a[k]@.initial_configure_sent
        &&& c[k]@.buffers_pending == a[k]@.buffers_pending
    } by {
        assert(b[k]@.id == a[k]@.id);
    }
}

proof fn lemma_dimensioned_same(ws: Seq<Window>, t: Transaction, output: Output)
    ensures
        same_windows(ws, primary_dimensioned(ws, t, output)),
        same_windows(ws, dimensioned(ws, t, output)),
{
    let ws1 = primary_dimensioned(ws, t, output);
    if holds_id(ws, t.primary) {
        let i = index_of(ws, t.primary);
        assert forall|k: int| 0 <= k < ws.len() implies (#[trigger] ws1[k])@.id == ws[k]@.id && ws1[k]@.alive == ws[k]@.alive && ws1[k]@.rectangle == ws[k]@.rectangle && ws1[k]@.acked_size == ws[k]@.acked_size && ws1[k]@.initial_configure_sent == ws[k]@.initial_configure_sent && ws1[k]@.buffers_pending == ws[k]@.buffers_pending by {
            if k == i {
            }
        }
    }
    let ws2 = dimensioned(ws, t, output);
    if holds_id(ws, t.secondary) {
        let j = index_of(ws, t.secondary);
        assert forall|k: int| 0 <= k < ws.len() implies (#[trigger] ws2[k])@.id == ws1[k]@.id && ws2[k]@.alive == ws1[k]@.alive && ws2[k]@.rectangle == ws1[k]@.rectangle && ws2[k]@.acked_size == ws1[k]@.acked_size && ws2[k]@.initial_configure_sent == ws1[k]@.initial_configure_sent && ws2[k]@.buffers_pending == ws1[k]@.buffers_pending by {
            if k == j {
            }
        }
    }
    assert(same_windows(ws1, ws2));
    lemma_same_windows_trans(ws, ws1, ws2);
}

proof fn lemma_primary_set_same(m: WindowsModel, output: Output, index: Option<usize>, now: u64)
    requires
        index matches Some(i) ==> i < m.windows.len(),
    ensures
        same_windows(m.windows, primary_set(m, output, index, now).windows),
{
    let t0 = opened(m, now);
    let ws = m.windows;
    let window = match index {
        Some(i) => Some(ws[i as int]@.id),
        None => t0.secondary,
    };
    if window != t0.primary {
        let secondary = if index is Some {
            t0.secondary
        } else {
            None
        };
        let secondary = if window == secondary {
            None
        } else {
            secondary
        };
        let ws1 = if holds_id(ws, secondary) {
            left_windows(ws, t0.primary, output).0
        } else {
            ws
        };
        assert(same_windows(ws, ws1)) by {
            if holds_id(ws, secondary) && holds_id(ws, t0.primary) {
                let i = index_of(ws, t0.primary);
                assert forall|k: int| 0 <= k < ws.len() implies (#[trigger] ws1[k])@.id == ws[k]@.id && ws1[k]@.alive == ws[k]@.alive && ws1[k]@.rectangle == ws[k]@.rectangle && ws1[k]@.acked_size == ws[k]@.acked_size && ws1[k]@.initial_configure_sent == ws[k]@.initial_configure_sent && ws1[k]@.buffers_pending == ws[k]@.buffers_pending by {
                    if k == i {
                    }
                }
            }
        }
        let ws2 = shown(ws1, index);
        assert(same_windows(ws1, ws2)) by {
            if let Some(i) = index {
                assert forall|k: int| 0 <= k < ws1.len() implies (#[trigger] ws2[k])@.id == ws1[k]@.id && ws2[k]@.alive == ws1[k]@.alive && ws2[k]@.rectangle == ws1[k]@.rectangle && ws2[k]@.acked_size == ws1[k]@.acked_size && ws2[k]@.initial_configure_sent == ws1[k]@.initial_configure_sent && ws2[k]@.buffers_pending == ws1[k]@.buffers_pending by {
                    if k == i as int {
                    }
                }
            }
        }
        let staged = primary_staging(ws, t0, window, index is Some);
        let t = Transaction { primary: staged.0, secondary: staged.1, ..t0 };
        lemma_dimensioned_same(ws2, t, output);
        lemma_same_windows_trans(ws, ws1, ws2);
        lemma_same_windows_trans(ws, ws2, dimensioned(ws2, t, output));
    }
}

proof fn lemma_survivors_all_alive(ws: Seq<Window>)
    requires
        forall|i: int| 0 <= i < ws.len() ==> (#[trigger] ws[i])@.alive,
    ensures
        survivors(ws).len() == ws.len(),
    decreases ws.len(),
{
    if ws.len() > 0 {
        let init = ws.drop_last();
        assert forall|i: int| 0 <= i < init.len() implies (#[trigger] init[i])@.alive by {
            assert(init[i] == ws[i]);
        }
        lemma_survivors_all_alive(init);
    }
}

/// Three windows added to an empty registry, once their transaction commits: the last one
/// added is the primary window and comes first, the first one added is the secondary window
/// and comes second, and the middle one is neither and comes third.
pub proof fn lemma_three_windows(
    m0: WindowsModel,
    output: Output,
    a: u64,
    b: u64,
    c: u64,
    tiling: (bool, bool, bool),
    now: u64,
)
    requires
        m0.windows.len() == 0,
        m0.transaction is None,
        m0.primary is None,
        m0.secondary is None,
        a != b,
        b != c,
        a != c,
    ensures
        match added(added(added(m0, a, tiling.0, output, now), b, tiling.1, output, now), c, tiling.2, output, now).transaction {
            Some(t) => {
                let m3 = added(
                    added(added(m0, a, tiling.0, output, now), b, tiling.1, output, now),
                    c,
                    tiling.2,
                    output,
                    now,
                );
                let done = committed_model(m3, t);
                &&& done.windows.len() == 3
                &&& done.windows[0]@.id == c
                &&& done.primary == Some(c)
                &&& done.windows[1]@.id == a
                &&& done.secondary == Some(a)
                &&& done.windows[2]@.id == b
            },
            None => false,
        },
{
    let g1 = WindowsModel { windows: m0.windows.push(Window::new_spec(a, tiling.0)), next_id: (a + 1) as u64, ..m0 };
    let m1 = added(m0, a, tiling.0, output, now);
    lemma_primary_set_same(g1, output, Some(0), now);
    assert(m1.transaction == Some(Transaction { primary: Some(a), secondary: None, view: None, start: now }));
    let g2 = WindowsModel { windows: m1.windows.push(Window::new_spec(b, tiling.1)), next_id: (b + 1) as u64, ..m1 };
    let m2 = added(m1, b, tiling.1, output, now);
    lemma_primary_set_same(g2, output, Some(1), now);
    assert(g2.windows[1]@.id == b);
    assert(m2.transaction == Some(Transaction { primary: Some(b), secondary: Some(a), view: None, start: now }));
    let g3 = WindowsModel { windows: m2.windows.push(Window::new_spec(c, tiling.2)), next_id: (c + 1) as u64, ..m2 };
    let m3 = added(m2, c, tiling.2, output, now);
    lemma_primary_set_same(g3, output, Some(2), now);
    assert(g1.windows[0]@.id == a);
    assert(m1.windows[0]@.id == a);
    assert(g2.windows[0] == m1.windows[0]);
    assert(m2.windows[0]@.id == a);
    assert(m2.windows[1]@.id == b);
    assert(g3.windows[0] == m2.windows[0]);
    assert(g3.windows[2]@.id == c);
    assert(holds_id(g3.windows, Some(a)));
    assert(m3.transaction == Some(Transaction { primary: Some(c), secondary: Some(a), view: None, start: now }));
    let ws = m3.windows;
    assert(ws[0]@.id == a && ws[1]@.id == b && ws[2]@.id == c);
    assert(g3.windows[1] == m2.windows[1]);
    assert(g2.windows[0] == m1.windows[0]);
    assert forall|i: int| 0 <= i < ws.len() implies (#[trigger] ws[i])@.alive by {
        assert(g3.windows[i]@.alive == ws[i]@.alive);
        if i < 2 {
            assert(g3.windows[i] == m2.windows[i]);
            assert(g2.windows[i]@.alive == m2.windows[i]@.alive);
            if i < 1 {
                assert(g2.windows[i] == m1.windows[i]);
                assert(g1.windows[i]@.alive == m1.windows[i]@.alive);
            }
        }
    }
    assert(unique_ids(ws));
    lemma_survivors_all_alive(ws);
    lemma_parts_len(survivors(ws), Some(c), Some(a));
    lemma_arranged(ws, Some(c), Some(a));
    assert(ws[2]@.alive && ws[0]@.alive);
    assert(holds_live(ws, Some(c)));
    assert(holds_live(ws, Some(a)));
    lemma_commit_order(ws, Some(c), Some(a));
    let out = arranged(survivors(ws), Some(c), Some(a));
    assert(out.len() == 3);
    let i = choose|i: int| 0 <= i < ws.len() && (#[trigger] out[2])@.id == (#[trigger] ws[i])@.id;
    assert(out[2]@.id != out[0]@.id);
    assert(out[2]@.id != out[1]@.id);
}

/// Container tracking all known clients.
#[derive(Debug)]
pub struct Windows {
    windows: Vec<Window>,
    primary: Option<u64>,
    secondary: Option<u64>,
    transaction: Option<Transaction>,
    view: Arrangement,
    actions: Vec<Action>,
    next_id: u64,
}

impl View for Windows {
    type V = WindowsModel;

    closed spec fn view(&self) -> WindowsModel {
        WindowsModel {
            windows: self.windows@,
            primary: self.primary,
            secondary: self.secondary,
            transaction: self.transaction,
            view: self.view,
            actions: self.actions@,
            next_id: self.next_id,
        }
    }
}

impl Windows {
    /// Identifiers are unique and below the next one to hand out, the registry holds at most
    /// [`MAX_WINDOWS`] windows, and the overview's offsets are within their bounds.
    pub open spec fn wf(&self) -> bool {
        &&& unique_ids(self@.windows)
        &&& forall|i: int| 0 <= i < self@.windows.len() ==> (#[trigger] self@.windows[i])@.id < self@.next_id
        &&& self@.windows.len() <= MAX_WINDOWS
        &&& arrangement_ok(self@.view, self@.windows.len() as int)
        &&& match self@.transaction {
            Some(t) => staged_view_ok(t.view) && id_below(t.primary, self@.next_id) && id_below(
                t.secondary,
                self@.next_id,
            ),
            None => true,
        }
        &&& id_below(self@.primary, self@.next_id)
        &&& id_below(self@.secondary, self@.next_id)
    }

    /// An empty registry showing the workspace.
    pub fn new() -> (r: Windows)
        ensures
            r.wf(),
            r@.windows.len() == 0,
            r@.primary is None,
            r@.secondary is None,
            r@.transaction is None,
            r@.view == Arrangement::Workspace,
            r@.actions.len() == 0,
    {
        Windows {
            windows: Vec::new(),
            primary: None,
            secondary: None,
            transaction: None,
            view: Arrangement::Workspace,
            actions: Vec::new(),
            next_id: 0,
        }
    }

    /// Create a new transaction, or access the active one.
    pub fn start_transaction(&mut self, now: u64) -> (r: Transaction)
        ensures
            r == opened(old(self)@, now),
            final(self)@ == (WindowsModel { transaction: Some(r), ..old(self)@ }),
    {
        match self.transaction {
            Some(t) => t,
            None => {
                let t = Transaction { primary: self.primary, secondary: self.secondary, view: None, start: now };
                self.transaction = Some(t);
                t
            },
        }
    }

    /// Take the window `id`, if the registry holds it, off the output.
    fn leave_window(&mut self, id: Option<u64>, output: &Output)
        requires
            old(self).wf(),
        ensures
            final(self).wf(),
            restaged(old(self)@, final(self)@),
            if holds_id(old(self)@.windows, id) {
                let ws = old(self)@.windows;
                let i = index_of(ws, id);
                final(self)@ == WindowsModel {
                    windows: ws.update(i, ws[i].left(*output)),
                    actions: old(self)@.actions + ws[i].leave_actions(*output),
                    ..old(self)@
                }
            } else {
                final(self)@ == old(self)@
            },
    {
        if let Some(p) = find_index(&self.windows, id) {
            proof {
                lemma_index_of(self@.windows, id, p as int);
            }
            let mut w = self.windows[p];
            w.leave(output, &mut self.actions);
            self.windows.set(p, w);
        }
        proof {
            lemma_same_windows(old(self)@.windows, self@.windows, self.next_id);
        }
    }

    /// Show the window at index `i` on the output.
    fn enter_window(&mut self, i: usize)
        requires
            old(self).wf(),
            i < old(self)@.windows.len(),
        ensures
            final(self).wf(),
            restaged(old(self)@, final(self)@),
            final(self)@ == (WindowsModel {
                windows: old(self)@.windows.update(
                    i as int,
                    Window { visible: true, ..old(self)@.windows[i as int] },
                ),
                actions: old(self)@.actions.push(Action::Enter { window: old(self)@.windows[i as int]@.id }),
                ..old(self)@
            }),
    {
        let mut w = self.windows[i];
        w.enter(&mut self.actions);
        self.windows.set(i, w);
        proof {
            lemma_same_windows(old(self)@.windows, self@.windows, self.next_id);
        }
    }

    /// Stage the geometry of the windows that `t` names, and make `t` the pending transaction.
    fn commit_staging(&mut self, t: Transaction, output: &Output)
        requires
            old(self).wf(),
            staged_view_ok(t.view),
            id_below(t.primary, old(self)@.next_id),
            id_below(t.secondary, old(self)@.next_id),
        ensures
            final(self).wf(),
            restaged(old(self)@, WindowsModel { transaction: old(self)@.transaction, ..final(self)@ }),
            final(self)@ == (WindowsModel {
                windows: dimensioned(old(self)@.windows, t, *output),
                actions: old(self)@.actions + dimension_actions(old(self)@.windows, t, *output),
                transaction: Some(t),
                ..old(self)@
            }),
    {
        t.update_dimensions(&mut self.windows, output, &mut self.actions);
        self.transaction = Some(t);
        proof {
            lemma_same_windows(old(self)@.windows, self@.windows, self.next_id);
        }
    }

    /// Stage a new primary window: the window at `index`, or else the staged secondary one.
    ///
    /// The new window enters the output. The former primary window becomes the secondary one
    /// where no secondary remains, and else leaves the output.
    #[verifier::rlimit(50)]
    fn set_primary(&mut self, output: &Output, index: Option<usize>, now: u64)
        requires
            old(self).wf(),
            index matches Some(i) ==> i < old(self)@.windows.len(),
        ensures
            final(self).wf(),
            final(self)@ == primary_set(old(self)@, *output, index, now),
            restaged(old(self)@, WindowsModel { transaction: old(self)@.transaction, ..final(self)@ }),
            match index {
                Some(i) => Some(old(self)@.windows[i as int]@.id) != opened(old(self)@, now).primary
                    ==> final(self)@.windows[i as int]@.visible,
                None => true,
            },
    {
        let mut t = self.start_transaction(now);
        let ghost m1 = self@;
        let window = match index {
            Some(i) => Some(self.windows[i].id),
            None => {
                let s = t.secondary;
                t.secondary = None;
                s
            },
        };
        if window == t.primary {
            self.transaction = Some(t);
            assert(self@.actions =~= old(self)@.actions);
            return;
        }
        if window == t.secondary {
            t.secondary = None;
        }
        let old_primary = t.primary;
        let keep_old = find_index(&self.windows, t.secondary).is_none();
        let ghost lw = if !keep_old {
            left_windows(m1.windows, old_primary, *output)
        } else {
            (m1.windows, Seq::<Action>::empty())
        };
        if !keep_old {
            self.leave_window(old_primary, output);
        }
        let ghost m2 = self@;
        assert(m2.windows == lw.0 && m2.actions =~= m1.actions + lw.1);
        if let Some(i) = index {
            self.enter_window(i);
        }
        let ghost m3 = self@;
        assert(m3.windows == shown(lw.0, index));
        assert(m3.actions =~= m1.actions + lw.1 + enter_actions(lw.0, index));
        t.primary = window;
        proof {
            if keep_old {
                assert(m2 == m1);
            }
            lemma_restaged_trans(m1, m2, m3);
            lemma_same_windows(old(self)@.windows, self@.windows, self.next_id);
            lemma_same_windows(old(self)@.windows, m1.windows, self.next_id);
        }
        if keep_old {
            t.secondary = old_primary;
        }
        self.commit_staging(t, output);
        proof {
            let m4 = WindowsModel { transaction: m3.transaction, ..self@ };
            lemma_restaged_trans(m1, m3, m4);
            assert(self@.actions =~= primary_set(old(self)@, *output, index, now).actions);
        }
    }

    /// Stage a new secondary window: the window at `index`, or none.
    ///
    /// The former secondary window leaves the output and the new one enters it; where the
    /// new one was the primary window, no primary remains.
    fn set_secondary(&mut self, output: &Output, index: Option<usize>, now: u64)
        requires
            old(self).wf(),
            index matches Some(i) ==> i < old(self)@.windows.len(),
        ensures
            final(self).wf(),
            final(self)@ == secondary_set(old(self)@, *output, index, now),
            restaged(old(self)@, WindowsModel { transaction: old(self)@.transaction, ..final(self)@ }),
            match index {
                Some(i) => final(self)@.windows[i as int]@.visible,
                None => true,
            },
    {
        let mut t = self.start_transaction(now);
        let ghost m1 = self@;
        self.leave_window(t.secondary, output);
        let ghost m2 = self@;
        let window = match index {
            Some(i) => {
                self.enter_window(i);
                Some(self.windows[i].id)
            },
            None => None,
        };
        let ghost m3 = self@;
        if window.is_some() && window == t.primary {
            t.primary = None;
        }
        t.secondary = window;
        proof {
            lemma_same_windows(old(self)@.windows, self@.windows, self.next_id);
        }
        self.commit_staging(t, output);
        proof {
            lemma_restaged_trans(m1, m2, m3);
            let m4 = WindowsModel { transaction: m3.transaction, ..self@ };
            lemma_restaged_trans(m1, m3, m4);
            assert(self@.actions =~= secondary_set(old(self)@, *output, index, now).actions);
        }
    }

    /// Add a new window and stage it as the primary one; the former primary window becomes
    /// the secondary one where there is none. `tiling_supported` tells whether the client's
    /// protocol version knows tiled states. Returns the new window's identifier, or `None`
    /// where the registry is full or has handed out every identifier.
    pub fn add(&mut self, output: &Output, tiling_supported: bool, now: u64) -> (r: Option<u64>)
        requires
            old(self).wf(),
        ensures
            final(self).wf(),
            r is None <==> (old(self)@.windows.len() >= MAX_WINDOWS || old(self)@.next_id == u64::MAX),
            r is None ==> final(self)@ == old(self)@,
            r matches Some(id) ==> {
                let ws = old(self)@.windows.push(Window::new_spec(id, tiling_supported));
                &&& id == old(self)@.next_id
                &&& final(self)@ == added(old(self)@, id, tiling_supported, *output, now)
                &&& same_windows(ws, final(self)@.windows)
                &&& final(self)@.windows[ws.len() - 1]@.visible
                &&& final(self)@.primary == old(self)@.primary
                &&& final(self)@.secondary == old(self)@.secondary
                &&& final(self)@.view == old(self)@.view
                &&& final(self)@.transaction matches Some(t) && t.primary == Some(id)
            },
    {
        if self.windows.len() >= MAX_WINDOWS || self.next_id == u64::MAX {
            return None;
        }
        let id = self.next_id;
        self.next_id = id + 1;
        self.windows.push(Window::new(id, tiling_supported));
        proof {
            let ws = self@.windows;
            assert(ws[ws.len() - 1]@.id == id);
            assert forall|i: int, j: int|
                0 <= i < ws.len() && 0 <= j < ws.len() && i != j implies (#[trigger] ws[i])@.id != (
                #[trigger] ws[j])@.id by {
                if i < ws.len() - 1 && j < ws.len() - 1 {
                    assert(old(self)@.windows[i] == ws[i]);
                    assert(old(self)@.windows[j] == ws[j]);
                } else if i < ws.len() - 1 {
                    assert(old(self)@.windows[i] == ws[i]);
                } else if j < ws.len() - 1 {
                    assert(old(self)@.windows[j] == ws[j]);
                }
            }
            assert forall|i: int| 0 <= i < ws.len() implies (#[trigger] ws[i])@.id < self.next_id by {
                if i < ws.len() - 1 {
                    assert(old(self)@.windows[i] == ws[i]);
                }
            }
            assert(ws == old(self)@.windows.push(Window::new_spec(id, tiling_supported)));
            assert(self@ == WindowsModel { windows: ws, next_id: (id + 1) as u64, ..old(self)@ });
        }
        let last = self.windows.len() - 1;
        self.set_primary(output, Some(last), now);
        Some(id)
    }

    /// Reap dead visible windows: a dead secondary window is dropped, and a dead primary one
    /// is replaced by the secondary window.
    fn refresh_visible(&mut self, output: &Output, now: u64)
        requires
            old(self).wf(),
        ensures
            final(self).wf(),
            final(self)@.transaction == Some(reaped_transaction(old(self)@, now)),
            restaged(old(self)@, WindowsModel { transaction: old(self)@.transaction, ..final(self)@ }),
    {
        let mut t = self.start_transaction(now);
        if !self.live(t.secondary) {
            t.secondary = None;
        }
        if !self.live(t.primary) {
            t.primary = t.secondary;
            t.secondary = None;
        }
        self.commit_staging(t, output);
    }

    /// Whether the registry holds a live window whose identifier is `id`.
    fn live(&self, id: Option<u64>) -> (r: bool)
        requires
            self.wf(),
        ensures
            r == holds_live(self@.windows, id),
    {
        match find_index(&self.windows, id) {
            Some(i) => {
                proof {
                    if holds_live(self@.windows, id) {
                        let k = choose|k: int|
                            0 <= k < self@.windows.len() && id == Some((#[trigger] self@.windows[k])@.id)
                                && self@.windows[k]@.alive;
                        assert(k == i);
                    }
                }
                self.windows[i].alive
            },
            None => false,
        }
    }

    /// Stage a switch between the workspace and the overview, which opens at its start.
    pub fn toggle_view(&mut self, now: u64)
        requires
            old(self).wf(),
        ensures
            final(self).wf(),
            final(self)@ == (WindowsModel {
                transaction: Some(
                    Transaction { view: Some(toggled(old(self)@.view)), ..opened(old(self)@, now) },
                ),
                ..old(self)@
            }),
    {
        let new_view = match self.view {
            Arrangement::Workspace => Arrangement::Overview(Overview::new()),
            Arrangement::Overview(_) => Arrangement::Workspace,
        };
        let mut t = self.start_transaction(now);
        t.view = Some(new_view);
        self.transaction = Some(t);
    }

    /// Whether every window has acked the size it is staged at.
    fn all_ready(&self) -> (r: bool)
        ensures
            r == all_ready(self@.windows),
    {
        let mut i: usize = 0;
        while i < self.windows.len()
            invariant
                i <= self@.windows.len(),
                forall|k: int| 0 <= k < i ==> is_ready((#[trigger] self@.windows[k])@),
            decreases self@.windows.len() - i,
        {
            if !self.windows[i].ready() {
                return false;
            }
            i += 1;
        }
        true
    }

    /// Attempt to commit the pending transaction at time `now`.
    ///
    /// It commits once every window has acked the size it is staged at, or once it has run
    /// past [`MAX_TRANSACTION_DURATION_MS`]. Then the dead windows are reaped, every window
    /// takes its staged geometry, the primary window moves to the front and the secondary one
    /// after it, and the staged primary, secondary and arrangement become current. Returns
    /// whether it committed.
    pub fn update_transaction(&mut self, now: u64) -> (r: bool)
        requires
            old(self).wf(),
        ensures
            final(self).wf(),
            match old(self)@.transaction {
                None => !r && final(self)@ == old(self)@,
                Some(t) => {
                    &&& r == commits(old(self)@.windows, t, now)
                    &&& !r ==> final(self)@ == old(self)@
                    &&& r ==> final(self)@ == committed_model(old(self)@, t)
                },
            },
    {
        let t = match self.transaction {
            Some(t) => t,
            None => return false,
        };
        let expired = now > t.start && now - t.start > MAX_TRANSACTION_DURATION_MS;
        if !expired && !self.all_ready() {
            return false;
        }
        proof {
            lemma_arranged(self@.windows, t.primary, t.secondary);
        }
        let live = collect_survivors(&self.windows);
        let mut windows: Vec<Window> = Vec::new();
        collect_part(&live, t.primary, t.secondary, 0, &mut windows);
        collect_part(&live, t.primary, t.secondary, 1, &mut windows);
        collect_part(&live, t.primary, t.secondary, 2, &mut windows);
        assert(windows@ =~= arranged(survivors(old(self)@.windows), t.primary, t.secondary));
        let ghost ws = old(self)@.windows;
        self.windows = windows;
        self.transaction = None;
        self.primary = t.primary;
        self.secondary = t.secondary;
        let view = match t.view {
            Some(v) => v,
            None => self.view,
        };
        self.view = match view {
            Arrangement::Overview(o) => {
                let mut o = o;
                o.limit_offset(self.windows.len());
                Arrangement::Overview(o)
            },
            Arrangement::Workspace => Arrangement::Workspace,
        };
        proof {
            let out = self@.windows;
            assert forall|j: int| 0 <= j < out.len() implies (#[trigger] out[j])@.id < self.next_id by {
                let i = choose|i: int| 0 <= i < ws.len() && out[j]@.id == (#[trigger] ws[i])@.id;
            }
        }
        true
    }

    /// Handle the start of a touch at `p`. In the overview, a touch inside `focused_bounds`,
    /// the area where the focused window is drawn, starts the hold timer.
    pub fn on_touch_start(&mut self, p: Point, focused_bounds: Rectangle, now: u64)
        requires
            old(self).wf(),
        ensures
            final(self).wf(),
            final(self)@ == (WindowsModel {
                view: match old(self)@.view {
                    Arrangement::Overview(o) => Arrangement::Overview(
                        Overview {
                            hold_start: if focused_bounds.holds(p) {
                                Some(now)
                            } else {
                                o.hold_start
                            },
                            last_drag_point: p,
                            ..o
                        },
                    ),
                    Arrangement::Workspace => Arrangement::Workspace,
                },
                ..old(self)@
            }),
    {
        if let Arrangement::Overview(o) = self.view {
            let mut o = o;
            o.touch_start(p, focused_bounds, now);
            self.view = Arrangement::Overview(o);
        }
    }

    /// Handle a quick tap at `p`. In the overview, a tap inside `focused_bounds`, the area
    /// where the focused window is drawn, stages that window as primary, clearing the secondary
    /// one unless no primary window is current, and goes back to the workspace.
    pub fn on_tap(&mut self, output: &Output, p: Point, focused_bounds: Rectangle, now: u64)
        requires
            old(self).wf(),
        ensures
            final(self).wf(),
            match old(self)@.view {
                Arrangement::Workspace => final(self)@ == old(self)@,
                Arrangement::Overview(o) => {
                    let ws = old(self)@.windows;
                    let n = ws.len();
                    let missed = WindowsModel {
                        view: Arrangement::Overview(Overview { hold_start: None, ..o }),
                        ..old(self)@
                    };
                    if focused_bounds.holds(p) && n > 0 {
                        let id = ws[focused(o.x_offset as int, n as int)]@.id;
                        let t0 = opened(old(self)@, now);
                        let staged = primary_staging(ws, t0, Some(id), true);
                        &&& final(self)@.view == missed.view
                        &&& same_windows(ws, final(self)@.windows)
                        &&& final(self)@.primary == old(self)@.primary
                        &&& final(self)@.secondary == old(self)@.secondary
                        &&& final(self)@.transaction == Some(
                            Transaction {
                                primary: Some(id),
                                secondary: if holds_id(ws, old(self)@.primary) {
                                    None
                                } else {
                                    staged.1
                                },
                                view: Some(Arrangement::Workspace),
                                ..t0
                            },
                        )
                    } else {
                        final(self)@ == missed
                    }
                },
            },
    {
        let mut o = match self.view {
            Arrangement::Overview(o) => o,
            Arrangement::Workspace => return,
        };
        o.hold_start = None;
        self.view = Arrangement::Overview(o);
        let n = self.windows.len();
        if focused_bounds.contains(p) && n > 0 {
            let index = o.focused_index(n);
            let ghost m1 = self@;
            let ghost t0 = opened(old(self)@, now);
            let ghost staged = primary_staging(m1.windows, t0, Some(m1.windows[index as int]@.id), true);
            self.set_primary(output, Some(index), now);
            let ghost m2 = self@;
            proof {
                assert(m2.transaction == Some(Transaction { primary: staged.0, secondary: staged.1, ..t0 }));
                assert(staged.0 == Some(m1.windows[index as int]@.id));
                lemma_same_windows(m1.windows, m2.windows, self.next_id);
            }
            if find_index(&self.windows, self.primary).is_some() {
                self.set_secondary(output, None, now);
                proof {
                    lemma_restaged_trans(
                        WindowsModel { transaction: m1.transaction, ..m1 },
                        WindowsModel { transaction: m1.transaction, ..m2 },
                        WindowsModel { transaction: m1.transaction, ..self@ },
                    );
                }
            }
            self.toggle_view(now);
        }
    }

    /// Handle a drag to `p`.
    ///
    /// In the overview a floating window follows the touch. Otherwise the first move fixes
    /// the axis of the gesture: a horizontal drag pages through the windows within the
    /// overdrag limits, a vertical one moves the focused window, and once it is half the output
    /// height away the window is asked to close and leaves the registry at once.
    pub fn on_drag(&mut self, output: &Output, p: Point, now: u64)
        requires
            old(self).wf(),
        ensures
            final(self).wf(),
            match old(self)@.view {
                Arrangement::Workspace => final(self)@ == old(self)@,
                Arrangement::Overview(o) => {
                    let ws = old(self)@.windows;
                    let n = ws.len() as int;
                    let (o2, close) = o.dragged(p, output.size.h as int, n, now);
                    if !close {
                        final(self)@ == WindowsModel { view: Arrangement::Overview(o2), ..old(self)@ }
                    } else {
                        let i = focused(o2.x_offset as int, n);
                        let rest = ws.remove(i);
                        &&& final(self)@.view == Arrangement::Overview(
                            Overview {
                                x_offset: clamp(
                                    o2.x_offset as int,
                                    lowest_offset(n - 1),
                                    OVERDRAG_LIMIT as int,
                                ) as i64,
                                ..o2
                            },
                        )
                        &&& o2.close_release_pending
                        &&& final(self)@.transaction == Some(
                            reaped_transaction(WindowsModel { windows: rest, ..old(self)@ }, now),
                        )
                        &&& final(self)@.primary == old(self)@.primary
                        &&& final(self)@.secondary == old(self)@.secondary
                        &&& final(self)@.windows.len() == rest.len()
                        &&& forall|k: int|
                            0 <= k < rest.len() ==> (#[trigger] final(self)@.windows[k])@.id
                                == rest[k]@.id
                        &&& old(self)@.actions.push(Action::Close { window: ws[i]@.id }).is_prefix_of(
                            final(self)@.actions,
                        )
                    }
                },
            },
    {
        let mut o = match self.view {
            Arrangement::Overview(o) => o,
            Arrangement::Workspace => return,
        };
        let n = self.windows.len();
        let close = o.drag(p, output.size.h, n, now);
        if !close {
            self.view = Arrangement::Overview(o);
            return;
        }
        let index = o.focused_index(n);
        let id = self.windows[index].id;
        self.actions.push(Action::Close { window: id });
        self.windows.remove(index);
        o.limit_offset(n - 1);
        self.view = Arrangement::Overview(o);
        let ghost m1 = self@;
        proof {
            let ws = old(self)@.windows;
            let out = self@.windows;
            assert(out =~= ws.remove(index as int));
            assert forall|a: int, b: int|
                0 <= a < out.len() && 0 <= b < out.len() && a != b implies (#[trigger] out[a])@.id != (
                #[trigger] out[b])@.id by {
                let ia = if a < index { a } else { a + 1 };
                let ib = if b < index { b } else { b + 1 };
                assert(out[a] == ws[ia] && out[b] == ws[ib]);
            }
            assert forall|a: int| 0 <= a < out.len() implies (#[trigger] out[a])@.id < self.next_id by {
                let ia = if a < index { a } else { a + 1 };
                assert(out[a] == ws[ia]);
            }
        }
        self.refresh_visible(output, now);
        proof {
            assert(m1.actions.is_prefix_of(self@.actions));
        }
    }

    /// Handle the end of a touch.
    ///
    /// A floating window dropped in the top third of the output is staged as primary, in the
    /// bottom third as secondary, and either goes back to the workspace. Otherwise the
    /// overview's offsets start to return, the next drag fixes its own axis, and the next
    /// vertical drag may close a window again.
    pub fn on_drag_release(&mut self, output: &Output, now: u64)
        requires
            old(self).wf(),
        ensures
            final(self).wf(),
            match old(self)@.view {
                Arrangement::Workspace => final(self)@ == old(self)@,
                Arrangement::Overview(o) => {
                    let ws = old(self)@.windows;
                    let n = ws.len() as int;
                    let target = o.drop_area(output.size.h as int);
                    if o.floating_anchor is Some && n > 0 && target != DropTarget::Cancel {
                        let id = ws[focused(o.x_offset as int, n)]@.id;
                        let t0 = opened(old(self)@, now);
                        let staged = if target == DropTarget::Primary {
                            primary_staging(ws, t0, Some(id), true)
                        } else {
                            secondary_staging(t0, Some(id))
                        };
                        &&& final(self)@.transaction == Some(
                            Transaction {
                                primary: staged.0,
                                secondary: staged.1,
                                view: Some(Arrangement::Workspace),
                                ..t0
                            },
                        )
                        &&& same_windows(ws, final(self)@.windows)
                        &&& final(self)@.primary == old(self)@.primary
                        &&& final(self)@.secondary == old(self)@.secondary
                        &&& final(self)@.view == old(self)@.view
                    } else {
                        final(self)@ == WindowsModel {
                            view: Arrangement::Overview(
                                Overview {
                                    last_overdrag_step: Some(now),
                                    close_release_pending: false,
                                    floating_anchor: None,
                                    drag_direction: None,
                                    ..o
                                },
                            ),
                            ..old(self)@
                        }
                    }
                },
            },
    {
        let mut o = match self.view {
            Arrangement::Overview(o) => o,
            Arrangement::Workspace => return,
        };
        let n = self.windows.len();
        if o.floating_anchor.is_some() && n > 0 {
            match o.drop_target(output.size.h) {
                DropTarget::Primary => {
                    let index = o.focused_index(n);
                    self.set_primary(output, Some(index), now);
                    self.toggle_view(now);
                    return;
                },
                DropTarget::Secondary => {
                    let index = o.focused_index(n);
                    self.set_secondary(output, Some(index), now);
                    self.toggle_view(now);
                    return;
                },
                DropTarget::Cancel => {},
            }
        }
        o.release(now);
        self.view = Arrangement::Overview(o);
    }

    /// Whether some window's client has gone.
    fn any_dead(&self) -> (r: bool)
        ensures
            r == exists|i: int| 0 <= i < self@.windows.len() && !(#[trigger] self@.windows[i])@.alive,
    {
        let mut i: usize = 0;
        while i < self.windows.len()
            invariant
                i <= self@.windows.len(),
                forall|k: int| 0 <= k < i ==> (#[trigger] self@.windows[k])@.alive,
            decreases self@.windows.len() - i,
        {
            if !self.windows[i].alive {
                return true;
            }
            i += 1;
        }
        false
    }

    /// Update window manager state at time `now`: where a window has died, its place is
    /// restaged, and in the overview a touch held on the focused window for
    /// [`HOLD_DURATION_MS`] lifts it for placement.
    pub fn refresh(&mut self, output: &Output, now: u64)
        requires
            old(self).wf(),
        ensures
            final(self).wf(),
            same_windows(old(self)@.windows, final(self)@.windows),
            final(self)@.transaction == if exists|i: int|
                0 <= i < old(self)@.windows.len() && !(#[trigger] old(self)@.windows[i])@.alive {
                Some(reaped_transaction(old(self)@, now))
            } else {
                old(self)@.transaction
            },
            final(self)@.primary == old(self)@.primary,
            final(self)@.secondary == old(self)@.secondary,
            final(self)@.next_id == old(self)@.next_id,
            final(self)@.view == match old(self)@.view {
                Arrangement::Overview(o) => if o.hold_start matches Some(start) && now >= start + HOLD_DURATION_MS {
                    Arrangement::Overview(
                        Overview { floating_anchor: Some(o.last_drag_point), hold_start: None, ..o },
                    )
                } else {
                    Arrangement::Overview(o)
                },
                Arrangement::Workspace => Arrangement::Workspace,
            },
    {
        if self.any_dead() {
            self.refresh_visible(output, now);
        }
        if let Arrangement::Overview(o) = self.view {
            if o.hold_elapsed(now) {
                let mut o = o;
                o.start_floating();
                self.view = Arrangement::Overview(o);
            }
        }
    }

    /// Frame step at time `now`, before the caller draws: commit the pending transaction where
    /// it is due, and in the overview without a floating window, step the bounce-back of its
    /// offsets.
    pub fn draw(&mut self, now: u64)
        requires
            old(self).wf(),
        ensures
            final(self).wf(),
            ({
                let after = match old(self)@.transaction {
                    Some(t) => if commits(old(self)@.windows, t, now) {
                        committed_model(old(self)@, t)
                    } else {
                        old(self)@
                    },
                    None => old(self)@,
                };
                final(self)@ == WindowsModel {
                    view: match after.view {
                        Arrangement::Overview(o) => if o.floating_anchor is None {
                            Arrangement::Overview(o.clamped(after.windows.len() as int, now))
                        } else {
                            Arrangement::Overview(o)
                        },
                        Arrangement::Workspace => Arrangement::Workspace,
                    },
                    ..after
                }
            }),
    {
        self.update_transaction(now);
        if let Arrangement::Overview(o) = self.view {
            if o.floating_anchor.is_none() {
                let mut o = o;
                o.clamp_offset(self.windows.len(), now);
                self.view = Arrangement::Overview(o);
            }
        }
    }

    /// Indices of the visible windows: the primary one, then the secondary one, each where the
    /// registry holds it.
    pub fn with_visible(&self) -> (r: Vec<usize>)
        requires
            self.wf(),
        ensures
            r@.len() == visible_ids(self@.windows, self@.primary, self@.secondary).len(),
            forall|k: int|
                0 <= k < r@.len() ==> (#[trigger] r@[k]) < self@.windows.len()
                    && self@.windows[r@[k] as int]@.id == visible_ids(
                    self@.windows,
                    self@.primary,
                    self@.secondary,
                )[k],
    {
        let ghost ws = self@.windows;
        let ghost first: Seq<u64> = if holds_id(ws, self.primary) {
            seq![self.primary.unwrap()]
        } else {
            Seq::empty()
        };
        let mut r: Vec<usize> = Vec::new();
        if let Some(i) = find_index(&self.windows, self.primary) {
            r.push(i);
            assert(holds_id(ws, self.primary));
        }
        assert(r@.len() == first.len());
        assert(forall|k: int| 0 <= k < r@.len() ==> r@[k] < ws.len() && ws[r@[k] as int]@.id == first[k]);
        let ghost r1 = r@;
        if let Some(j) = find_index(&self.windows, self.secondary) {
            r.push(j);
            assert(holds_id(ws, self.secondary));
            assert(r@[r@.len() - 1] == j);
        }
        proof {
            let ids = visible_ids(ws, self.primary, self.secondary);
            assert(ids.len() == r@.len());
            assert forall|k: int| 0 <= k < r@.len() implies r@[k] < ws.len() && ws[r@[k] as int]@.id == ids[k] by {
                if k < r1.len() {
                    assert(r@[k] == r1[k]);
                }
            }
        }
        r
    }

    /// Windows that are asked for a new frame: the visible ones, in the workspace only.
    pub fn request_frames(&self) -> (r: Vec<u64>)
        requires
            self.wf(),
        ensures
            r@ == if self@.view == Arrangement::Workspace {
                visible_ids(self@.windows, self@.primary, self@.secondary)
            } else {
                Seq::empty()
            },
    {
        let mut r: Vec<u64> = Vec::new();
        if self.view == Arrangement::Workspace {
            let visible = self.with_visible();
            let ghost ids = visible_ids(self@.windows, self@.primary, self@.secondary);
            let mut k: usize = 0;
            while k < visible.len()
                invariant
                    k <= visible@.len(),
                    visible@.len() == ids.len(),
                    r@ == ids.take(k as int),
                    forall|j: int|
                        0 <= j < visible@.len() ==> (#[trigger] visible@[j]) < self@.windows.len()
                            && self@.windows[visible@[j] as int]@.id == ids[j],
                decreases visible@.len() - k,
            {
                r.push(self.windows[visible[k]].id);
                assert(ids.take(k as int + 1) =~= ids.take(k as int).push(ids[k as int]));
                k += 1;
            }
            assert(ids.take(k as int) =~= ids);
        } else {
            assert(r@ =~= Seq::<u64>::empty());
        }
        r
    }

    /// Index of the window whose identifier is `id`.
    pub fn find(&self, id: u64) -> (r: Option<usize>)
        requires
            self.wf(),
        ensures
            match r {
                Some(i) => i < self@.windows.len() && self@.windows[i as int]@.id == id,
                None => !holds_id(self@.windows, Some(id)),
            },
    {
        find_index(&self.windows, Some(id))
    }

    /// Number of windows.
    pub fn len(&self) -> (r: usize)
        ensures
            r == self@.windows.len(),
    {
        self.windows.len()
    }

    /// The window at `index`.
    pub fn window(&self, index: usize) -> (r: Window)
        requires
            index < self@.windows.len(),
        ensures
            r == self@.windows[index as int],
    {
        self.windows[index]
    }

    /// The current arrangement.
    pub fn arrangement(&self) -> (r: Arrangement)
        ensures
            r == self@.view,
    {
        self.view
    }

    /// The current primary window.
    pub fn primary(&self) -> (r: Option<u64>)
        ensures
            r == self@.primary,
    {
        self.primary
    }

    /// The current secondary window.
    pub fn secondary(&self) -> (r: Option<u64>)
        ensures
            r == self@.secondary,
    {
        self.secondary
    }

    /// The pending transaction.
    pub fn transaction(&self) -> (r: Option<Transaction>)
        ensures
            r == self@.transaction,
    {
        self.transaction
    }

    /// Hand out the actions queued so far, leaving the queue empty.
    pub fn take_actions(&mut self) -> (r: Vec<Action>)
        requires
            old(self).wf(),
        ensures
            final(self).wf(),
            r@ == old(self)@.actions,
            final(self)@ == (WindowsModel { actions: Seq::empty(), ..old(self)@ }),
    {
        let mut r: Vec<Action> = Vec::new();
        r.append(&mut self.actions);
        assert(self@.actions =~= Seq::<Action>::empty());
        assert(r@ =~= old(self)@.actions);
        r
    }

    /// Replace the window at `index` by `w`, which has the same identifier.
    fn put(&mut self, index: usize, w: Window)
        requires
            old(self).wf(),
            index < old(self)@.windows.len(),
            w@.id == old(self)@.windows[index as int]@.id,
        ensures
            final(self).wf(),
            final(self)@ == (WindowsModel {
                windows: old(self)@.windows.update(index as int, w),
                ..old(self)@
            }),
    {
        self.windows.set(index, w);
        proof {
            let ws = self@.windows;
            assert forall|a: int, b: int|
                0 <= a < ws.len() && 0 <= b < ws.len() && a != b implies (#[trigger] ws[a])@.id != (
                #[trigger] ws[b])@.id by {
                assert(old(self)@.windows[a]@.id == ws[a]@.id);
                assert(old(self)@.windows[b]@.id == ws[b]@.id);
            }
            assert forall|a: int| 0 <= a < ws.len() implies (#[trigger] ws[a])@.id < self.next_id by {
                assert(old(self)@.windows[a]@.id == ws[a]@.id);
            }
        }
    }

    /// Record that window `id` acked a configure of `size`.
    pub fn ack_configure(&mut self, id: u64, size: Size)
        requires
            old(self).wf(),
        ensures
            final(self).wf(),
            final(self)@ == (WindowsModel { windows: final(self)@.windows, ..old(self)@ }),
            final(self)@.windows.len() == old(self)@.windows.len(),
            forall|k: int|
                0 <= k < old(self)@.windows.len() ==> (#[trigger] final(self)@.windows[k])@ == (
                if old(self)@.windows[k]@.id == id {
                    WindowModel { acked_size: size, ..old(self)@.windows[k]@ }
                } else {
                    old(self)@.windows[k]@
                }),
    {
        if let Some(i) = find_index(&self.windows, Some(id)) {
            let mut w = self.windows[i];
            w.acked_size = size;
            self.put(i, w);
        }
    }

    /// Record that the initial configure of window `id` has been sent.
    pub fn mark_configured(&mut self, id: u64)
        requires
            old(self).wf(),
        ensures
            final(self).wf(),
            final(self)@ == (WindowsModel { windows: final(self)@.windows, ..old(self)@ }),
            final(self)@.windows.len() == old(self)@.windows.len(),
            forall|k: int|
                0 <= k < old(self)@.windows.len() ==> (#[trigger] final(self)@.windows[k])@ == (
                if old(self)@.windows[k]@.id == id {
                    WindowModel { initial_configure_sent: true, ..old(self)@.windows[k]@ }
                } else {
                    old(self)@.windows[k]@
                }),
    {
        if let Some(i) = find_index(&self.windows, Some(id)) {
            let mut w = self.windows[i];
            w.initial_configure_sent = true;
            self.put(i, w);
        }
    }

    /// Record that window `id` has committed new buffers, to import before its next draw.
    pub fn mark_buffers_pending(&mut self, id: u64)
        requires
            old(self).wf(),
        ensures
            final(self).wf(),
            final(self)@ == (WindowsModel { windows: final(self)@.windows, ..old(self)@ }),
            final(self)@.windows.len() == old(self)@.windows.len(),
            forall|k: int|
                0 <= k < old(self)@.windows.len() ==> (#[trigger] final(self)@.windows[k])@ == (
                if old(self)@.windows[k]@.id == id {
                    WindowModel { buffers_pending: true, ..old(self)@.windows[k]@ }
                } else {
                    old(self)@.windows[k]@
                }),
    {
        if let Some(i) = find_index(&self.windows, Some(id)) {
            let mut w = self.windows[i];
            w.buffers_pending = true;
            self.put(i, w);
        }
    }

    /// Record that the buffers of window `id` were imported, their textures covering
    /// `texture_size`.
    pub fn finish_import(&mut self, id: u64, texture_size: Size)
        requires
            old(self).wf(),
        ensures
            final(self).wf(),
            final(self)@ == (WindowsModel { windows: final(self)@.windows, ..old(self)@ }),
            final(self)@.windows.len() == old(self)@.windows.len(),
            forall|k: int|
                0 <= k < old(self)@.windows.len() ==> (#[trigger] final(self)@.windows[k])@ == (
                if old(self)@.windows[k]@.id == id {
                    WindowModel { texture_size, buffers_pending: false, ..old(self)@.windows[k]@ }
                } else {
                    old(self)@.windows[k]@
                }),
    {
        if let Some(i) = find_index(&self.windows, Some(id)) {
            let mut w = self.windows[i];
            w.imported(texture_size);
            self.put(i, w);
        }
    }

    /// Record that the client of window `id` has gone. The window stays until the next
    /// commit, which reaps it.
    pub fn mark_dead(&mut self, id: u64)
        requires
            old(self).wf(),
        ensures
            final(self).wf(),
            final(self)@.windows.len() == old(self)@.windows.len(),
            forall|k: int|
                0 <= k < old(self)@.windows.len() ==> (#[trigger] final(self)@.windows[k])@ == (
                if old(self)@.windows[k]@.id == id {
                    WindowModel { alive: false, ..old(self)@.windows[k]@ }
                } else {
                    old(self)@.windows[k]@
                }),
            final(self)@ == (WindowsModel { windows: final(self)@.windows, ..old(self)@ }),
    {
        if let Some(i) = find_index(&self.windows, Some(id)) {
            let mut w = self.windows[i];
            w.alive = false;
            self.windows.set(i, w);
            proof {
                let ws = self@.windows;
                assert forall|a: int, b: int|
                    0 <= a < ws.len() && 0 <= b < ws.len() && a != b implies (#[trigger] ws[a])@.id != (
                    #[trigger] ws[b])@.id by {
                    assert(old(self)@.windows[a]@.id == ws[a]@.id);
                    assert(old(self)@.windows[b]@.id == ws[b]@.id);
                }
                assert forall|a: int| 0 <= a < ws.len() implies (#[trigger] ws[a])@.id < self.next_id by {
                    assert(old(self)@.windows[a]@.id == ws[a]@.id);
                }
            }
        }
    }
}


/// `b` differs from `a` at most in what its windows stage or show, and in actions appended.
pub open spec fn restaged(a: WindowsModel, b: WindowsModel) -> bool {
    &&& same_windows(a.windows, b.windows)
    &&& a.actions.is_prefix_of(b.actions)
    &&& b.primary == a.primary
    &&& b.secondary == a.secondary
    &&& b.transaction == a.transaction
    &&& b.view == a.view
    &&& b.next_id == a.next_id
}

/// Windows that differ only in what they stage or show hold the same identifiers.
proof fn lemma_same_windows(a: Seq<Window>, b: Seq<Window>, next_id: u64)
    requires
        same_windows(a, b),
    ensures
        unique_ids(a) ==> unique_ids(b),
        (forall|i: int| 0 <= i < a.len() ==> (#[trigger] a[i])@.id < next_id) ==> (forall|i: int|
            0 <= i < b.len() ==> (#[trigger] b[i])@.id < next_id),
        forall|id: Option<u64>| holds_id(a, id) == #[trigger] holds_id(b, id),
        forall|id: Option<u64>| holds_live(a, id) == #[trigger] holds_live(b, id),
{
    if unique_ids(a) {
        assert forall|i: int, j: int|
            0 <= i < b.len() && 0 <= j < b.len() && i != j implies (#[trigger] b[i])@.id != (
            #[trigger] b[j])@.id by {
            assert(a[i]@.id != a[j]@.id);
        }
    }
    if forall|i: int| 0 <= i < a.len() ==> (#[trigger] a[i])@.id < next_id {
        assert forall|i: int| 0 <= i < b.len() implies (#[trigger] b[i])@.id < next_id by {
            assert(a[i]@.id < next_id);
        }
    }
    assert forall|id: Option<u64>| holds_id(a, id) == #[trigger] holds_id(b, id) by {
        if holds_id(a, id) {
            let k = choose|k: int| 0 <= k < a.len() && id == Some((#[trigger] a[k])@.id);
            assert(b[k]@.id == a[k]@.id);
        }
        if holds_id(b, id) {
            let k = choose|k: int| 0 <= k < b.len() && id == Some((#[trigger] b[k])@.id);
            assert(b[k]@.id == a[k]@.id);
        }
    }
    assert forall|id: Option<u64>| holds_live(a, id) == #[trigger] holds_live(b, id) by {
        if holds_live(a, id) {
            let k = choose|k: int| 0 <= k < a.len() && id == Some((#[trigger] a[k])@.id) && a[k]@.alive;
            assert(b[k]@.id == a[k]@.id);
        }
        if holds_live(b, id) {
            let k = choose|k: int| 0 <= k < b.len() && id == Some((#[trigger] b[k])@.id) && b[k]@.alive;
            assert(b[k]@.id == a[k]@.id);
        }
    }
}

/// Restaging twice is restaging.
proof fn lemma_restaged_trans(a: WindowsModel, b: WindowsModel, c: WindowsModel)
    requires
        restaged(a, b),
        restaged(b, c),
    ensures
        restaged(a, c),
{
    assert(a.actions.is_prefix_of(c.actions)) by {
        assert forall|i: int| 0 <= i < a.actions.len() implies a.actions[i] == c.actions[i] by {
            assert(b.actions[i] == c.actions[i]);
        }
    }
}
} // verus!
