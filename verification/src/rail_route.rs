//! Windowing policy of a RAIL (RDP remote application) session.
//!
//! Two questions are answered here. Classification: should a window order become
//! a native window, or is it an auxiliary window (tool window, tooltip, shadow
//! frame) that must not be mirrored? Routing: to which mirrored window do the
//! pixels of a surface belong?
//!
//! A GTK application arrives as two windows: a mostly transparent toplevel with
//! the drop shadow, which owns a nearly full-size child with the content. The only
//! reliable sign of such a frame is that it owns a child that covers at least 80%
//! of it. So a window is a frame, and not mirrored, where an order with style bits finds
//! it with a covering child, or where the covering child arrives after it. An order that
//! carries geometry alone never reclassifies the window that it is about.

use crate::idmap::IdMap;
use vstd::prelude::*;

verus! {

/// Extended style bit of a tool window.
pub const WS_EX_TOOLWINDOW: u32 = 0x0000_0080;

/// Extended style bit of a window that never takes the focus.
pub const WS_EX_NOACTIVATE: u32 = 0x0800_0000;

/// One of the two owner ids that mean "no owner".
pub const OWNER_NONE_A: u32 = 0;

/// The other owner id that means "no owner".
pub const OWNER_NONE_B: u32 = 0xffff_ffff;

/// Slack, in desktop pixels, when a child is tested to sit inside its owner.
pub const CONTAIN_SLACK: i64 = 8;

/// Whether a window is mirrored as a native window or suppressed.
#[derive(Clone, Copy, PartialEq, Eq, Debug, Structural)]
pub enum Kind {
    Mirror,
    Filtered,
}

/// A window's desktop rectangle, in physical pixels with a top-left origin.
#[derive(Clone, Copy, PartialEq, Eq, Debug, Structural)]
pub struct Rect {
    pub x: i32,
    pub y: i32,
    pub w: i32,
    pub h: i32,
}

/// A side length as it counts for an area: a negative one counts as 0.
pub open spec fn extent(v: i32) -> int {
    if v > 0 {
        v as int
    } else {
        0
    }
}

impl Rect {
    /// Number of pixels inside.
    pub open spec fn spec_area(self) -> int {
        extent(self.w) * extent(self.h)
    }

    /// `self` fills at least 80% of `owner` and sits inside it, up to the slack.
    pub open spec fn spec_covers(self, owner: Rect) -> bool {
        &&& owner.spec_area() != 0
        &&& self.spec_area() != 0
        &&& 5 * self.spec_area() >= 4 * owner.spec_area()
        &&& self.x >= owner.x - CONTAIN_SLACK
        &&& self.y >= owner.y - CONTAIN_SLACK
        &&& self.x + self.w <= owner.x + owner.w + CONTAIN_SLACK
        &&& self.y + self.h <= owner.y + owner.h + CONTAIN_SLACK
    }

    /// Number of pixels inside; 0 where a side is negative.
    pub fn area(&self) -> (a: i64)
        ensures
            a == self.spec_area(),
            0 <= a,
    {
        let w: i64 = if self.w > 0 { self.w as i64 } else { 0 };
        let h: i64 = if self.h > 0 { self.h as i64 } else { 0 };
        assert(0 <= w * h <= 0x7fff_ffff * 0x7fff_ffff) by (nonlinear_arith)
            requires
                0 <= w <= 0x7fff_ffff,
                0 <= h <= 0x7fff_ffff,
        ;
        w * h
    }

    /// True if `self` fills at least 80% of `owner` and sits (roughly) inside it:
    /// `self` is the content and `owner` a frame around it.
    pub fn covers(&self, owner: &Rect) -> (b: bool)
        ensures
            b == self.spec_covers(*owner),
    {
        let inner: i128 = self.area() as i128;
        let outer: i128 = owner.area() as i128;
        if outer == 0 || inner == 0 {
            return false;
        }
        if 5 * inner < 4 * outer {
            return false;
        }
        let t: i64 = CONTAIN_SLACK;
        self.x as i64 >= owner.x as i64 - t && self.y as i64 >= owner.y as i64 - t
            && self.x as i64 + self.w as i64 <= owner.x as i64 + owner.w as i64 + t
            && self.y as i64 + self.h as i64 <= owner.y as i64 + owner.h as i64 + t
    }
}

/// What is known of one window.
#[derive(Clone, Copy, PartialEq, Eq, Debug, Structural)]
pub struct Win {
    pub kind: Kind,
    pub owner: Option<u32>,
    pub rect: Rect,
}

/// Outcome of a window order.
#[derive(Clone, Copy, PartialEq, Eq, Debug, Structural)]
pub enum Order {
    /// A newly mirrored window: create its native window.
    NewMirror,
    /// A window that is mirrored already: a plain update.
    KnownMirror,
    /// A window that was mirrored and is now auxiliary: destroy its native window.
    NowFiltered,
    /// An auxiliary window, still suppressed.
    Filtered,
}

/// A tool window, or an owned window that cannot take the focus.
pub open spec fn spec_is_decoration(exstyle: u32, owner: Option<u32>) -> bool {
    exstyle & WS_EX_TOOLWINDOW != 0 || (owner is Some && exstyle & WS_EX_NOACTIVATE != 0)
}

/// The owner that an order names; both ids for "no owner" give none.
pub open spec fn spec_normalize_owner(owner: u32) -> Option<u32> {
    if owner == OWNER_NONE_A || owner == OWNER_NONE_B {
        None
    } else {
        Some(owner)
    }
}

/// The owner that an order's style field names, where it has one.
pub open spec fn named_owner(style: Option<(u32, u32)>) -> Option<u32> {
    match style {
        Some((_, owner)) => spec_normalize_owner(owner),
        None => None,
    }
}

/// The order carries style bits, and they are those of a decoration.
pub open spec fn styled_as_decoration(style: Option<(u32, u32)>, owner: Option<u32>) -> bool {
    match style {
        Some((exstyle, _)) => spec_is_decoration(exstyle, owner),
        None => false,
    }
}

/// Classifies a window by its style bits alone.
pub fn is_decoration(exstyle: u32, owner: Option<u32>) -> (b: bool)
    ensures
        b == spec_is_decoration(exstyle, owner),
{
    if exstyle & WS_EX_TOOLWINDOW != 0 {
        return true;
    }
    owner.is_some() && exstyle & WS_EX_NOACTIVATE != 0
}

/// Turns the two ids that mean "no owner" into `None`.
pub fn normalize_owner(owner: u32) -> (r: Option<u32>)
    ensures
        r == spec_normalize_owner(owner),
{
    if owner == OWNER_NONE_A || owner == OWNER_NONE_B {
        None
    } else {
        Some(owner)
    }
}

/// What a routing session knows.
pub struct RouterView {
    /// The live windows, by window id.
    pub windows: Map<u64, Win>,
    /// The window that each mapped surface belongs to, by surface id.
    pub surf_map: Map<u64, u32>,
    /// Windows that were mirrored and turned out to be frames, oldest first.
    pub demoted: Seq<u32>,
}

/// Some other window is an owned child that covers `id`.
pub open spec fn covered(windows: Map<u64, Win>, id: u64) -> bool {
    windows.contains_key(id) && exists|c: u64| #[trigger]
        windows.contains_key(c) && c != id && windows[c].owner == Some(id as u32)
            && windows[c].rect.spec_covers(windows[id].rect)
}

/// `id` is live and mirrored.
pub open spec fn is_mirrored(windows: Map<u64, Win>, id: u64) -> bool {
    windows.contains_key(id) && windows[id].kind == Kind::Mirror
}

/// Holds of every window but `id`.
pub open spec fn other_than(id: u32) -> spec_fn(u32) -> bool {
    |d: u32| d != id
}

impl RouterView {
    /// The kind that `id` has so far.
    pub open spec fn kind_of(self, id: u32) -> Option<Kind> {
        if self.windows.contains_key(id as u64) {
            Some(self.windows[id as u64].kind)
        } else {
            None
        }
    }

    /// The owner of `id` after an order: the one that the order names, or else the
    /// one that was learned before.
    pub open spec fn owner_after(self, id: u32, style: Option<(u32, u32)>) -> Option<u32> {
        if named_owner(style) is Some {
            named_owner(style)
        } else if self.windows.contains_key(id as u64) {
            self.windows[id as u64].owner
        } else {
            None
        }
    }

    /// The windows once the geometry and the owner of an order are recorded.
    pub open spec fn recorded(self, id: u32, style: Option<(u32, u32)>, rect: Rect) -> Map<
        u64,
        Win,
    > {
        self.windows.insert(
            id as u64,
            Win {
                kind: if self.kind_of(id) is Some {
                    self.kind_of(id)->0
                } else {
                    Kind::Mirror
                },
                owner: self.owner_after(id, style),
                rect,
            },
        )
    }

    /// The kind of `id` after an order. The style bits decide first, then the frame
    /// test. An order without style bits never reclassifies: a known window keeps its
    /// kind, an unknown one is mirrored.
    pub open spec fn kind_after(self, id: u32, style: Option<(u32, u32)>, rect: Rect) -> Kind {
        if style is None {
            if self.kind_of(id) is Some {
                self.kind_of(id)->0
            } else {
                Kind::Mirror
            }
        } else if styled_as_decoration(style, self.owner_after(id, style)) {
            Kind::Filtered
        } else if covered(self.recorded(id, style, rect), id as u64) {
            Kind::Filtered
        } else {
            Kind::Mirror
        }
    }

    /// The windows once `id` has its new kind.
    pub open spec fn classified(self, id: u32, style: Option<(u32, u32)>, rect: Rect) -> Map<
        u64,
        Win,
    > {
        self.windows.insert(
            id as u64,
            Win {
                kind: self.kind_after(id, style, rect),
                owner: self.owner_after(id, style),
                rect,
            },
        )
    }

    /// The order turns the mirrored owner of `id`, another window, into a frame.
    pub open spec fn demotes_owner(self, id: u32, style: Option<(u32, u32)>, rect: Rect) -> bool {
        let after = self.classified(id, style, rect);
        let owner = self.owner_after(id, style);
        owner is Some && owner->0 != id && is_mirrored(after, owner->0 as u64) && covered(
            after,
            owner->0 as u64,
        )
    }

    /// The state after a window order.
    pub open spec fn window_order(
        self,
        id: u32,
        style: Option<(u32, u32)>,
        rect: Rect,
    ) -> RouterView {
        let after = self.classified(id, style, rect);
        if self.demotes_owner(id, style, rect) {
            let p = self.owner_after(id, style)->0;
            RouterView {
                windows: after.insert(
                    p as u64,
                    Win { kind: Kind::Filtered, ..after[p as u64] },
                ),
                surf_map: self.surf_map,
                demoted: self.demoted.push(p),
            }
        } else {
            RouterView { windows: after, ..self }
        }
    }

    /// What a window order tells the bridge.
    pub open spec fn order_outcome(
        self,
        id: u32,
        style: Option<(u32, u32)>,
        rect: Rect,
    ) -> Order {
        let was = self.kind_of(id) == Some(Kind::Mirror);
        match self.kind_after(id, style, rect) {
            Kind::Mirror => if was {
                Order::KnownMirror
            } else {
                Order::NewMirror
            },
            Kind::Filtered => if was {
                Order::NowFiltered
            } else {
                Order::Filtered
            },
        }
    }

    /// The state once no surface is mapped to `id`.
    pub open spec fn unmap_window(self, id: u32) -> RouterView {
        RouterView {
            surf_map: self.surf_map.restrict(
                Set::new(|s: u64| self.surf_map.contains_key(s) && self.surf_map[s] != id),
            ),
            ..self
        }
    }

    /// The state once `id` is gone.
    pub open spec fn window_deleted(self, id: u32) -> RouterView {
        RouterView {
            windows: self.windows.remove(id as u64),
            surf_map: self.unmap_window(id).surf_map,
            demoted: self.demoted.filter(other_than(id)),
        }
    }

    /// The window that shows the pixels of a surface, if any.
    pub open spec fn resolve(self, surface_id: u16, surface_window_id: u32) -> Option<u32> {
        let candidate: Option<u32> = if self.surf_map.contains_key(surface_id as u64) {
            Some(self.surf_map[surface_id as u64])
        } else if surface_window_id != 0 {
            Some(surface_window_id)
        } else if self.windows.len() == 1 {
            Some(self.windows.dom().choose() as u32)
        } else {
            None
        };
        if candidate is Some && is_mirrored(self.windows, candidate->0 as u64) {
            candidate
        } else {
            None
        }
    }

    /// Ids fit their wire types.
    pub open spec fn wf(self) -> bool {
        &&& self.windows.dom().finite()
        &&& forall|id: u64| #[trigger] self.windows.contains_key(id) ==> id <= u32::MAX
        &&& forall|s: u64| #[trigger] self.surf_map.contains_key(s) ==> s <= u16::MAX
    }

    /// No window with a covering child is mirrored.
    pub open spec fn frames_filtered(self) -> bool {
        forall|id: u64| #[trigger]
            covered(self.windows, id) ==> self.windows[id].kind == Kind::Filtered
    }
}

/// All routing state of one session: which windows exist and which surface maps
/// to which window.
pub struct Router {
    windows: IdMap<Win>,
    surf_map: IdMap<u32>,
    demoted: Vec<u32>,
}

impl View for Router {
    type V = RouterView;

    closed spec fn view(&self) -> RouterView {
        RouterView {
            windows: self.windows@,
            surf_map: self.surf_map@,
            demoted: self.demoted@,
        }
    }
}

impl Router {
    /// The tables are sound and ids fit.
    pub closed spec fn wf(&self) -> bool {
        self.windows.wf() && self.surf_map.wf() && self@.wf()
    }

    /// What `wf` says of the view.
    pub proof fn lemma_wf(&self)
        requires
            self.wf(),
        ensures
            self@.wf(),
    {
    }

    /// A session without windows.
    pub fn new() -> (r: Self)
        ensures
            r.wf(),
            r@.windows == Map::<u64, Win>::empty(),
            r@.surf_map == Map::<u64, u32>::empty(),
            r@.demoted == Seq::<u32>::empty(),
    {
        Router { windows: IdMap::new(), surf_map: IdMap::new(), demoted: Vec::new() }
    }

    /// True if some other window is an owned child that covers `id`.
    fn has_covering_child(&self, id: u32) -> (b: bool)
        requires
            self.windows.wf(),
        ensures
            b == covered(self.windows@, id as u64),
    {
        let parent = match self.windows.get(id as u64) {
            Some(w) => w.rect,
            None => return false,
        };
        let n: usize = self.windows.len();
        proof {
            self.windows.lemma_ids();
        }
        let mut i: usize = 0;
        while i < n
            invariant
                self.windows.wf(),
                i <= n == self.windows.ids().len(),
                self.windows@.contains_key(id as u64),
                parent == self.windows@[id as u64].rect,
                forall|j: int|
                    0 <= j < i ==> {
                        let c = #[trigger] self.windows.ids()[j];
                        !(c != id && self.windows@[c].owner == Some(id)
                            && self.windows@[c].rect.spec_covers(parent))
                    },
            decreases n - i,
        {
            let cid: u64 = self.windows.id_at(i);
            let c: &Win = self.windows.value_at(i);
            if cid != id as u64 {
                if let Some(o) = c.owner {
                    if o == id && c.rect.covers(&parent) {
                        return true;
                    }
                }
            }
            i = i + 1;
        }
        false
    }

    /// Whether `id` is live and mirrored.
    fn is_mirror(&self, id: u32) -> (b: bool)
        requires
            self.windows.wf(),
        ensures
            b == is_mirrored(self.windows@, id as u64),
    {
        match self.windows.get(id as u64) {
            Some(w) => w.kind == Kind::Mirror,
            None => false,
        }
    }

    /// Feeds a window order. `style` holds the extended style and the owner where
    /// the order carried them; a geometry-only order never reclassifies its window: an
    /// unknown one is mirrored, a known one keeps its kind. `rect` is the window's
    /// desktop rectangle (x, y, w, h). An owner that turns out to be covered by this
    /// window is demoted.
    pub fn window_order(
        &mut self,
        id: u32,
        style: Option<(u32, u32)>,
        rect: (i32, i32, i32, i32),
    ) -> (r: Order)
        requires
            old(self).wf(),
        ensures
            final(self).wf(),
            final(self)@ == old(self)@.window_order(
                id,
                style,
                (Rect { x: rect.0, y: rect.1, w: rect.2, h: rect.3 }),
            ),
            r == old(self)@.order_outcome(
                id,
                style,
                (Rect { x: rect.0, y: rect.1, w: rect.2, h: rect.3 }),
            ),
    {
        let rect = Rect { x: rect.0, y: rect.1, w: rect.2, h: rect.3 };
        let (prev, learned) = match self.windows.get(id as u64) {
            Some(w) => (Some(w.kind), w.owner),
            None => (None, None),
        };
        let named: Option<u32> = match style {
            Some((_, o)) => normalize_owner(o),
            None => None,
        };
        let owner: Option<u32> = if named.is_some() {
            named
        } else {
            learned
        };
        let start: Kind = match prev {
            Some(k) => k,
            None => Kind::Mirror,
        };
        self.windows.insert(id as u64, Win { kind: start, owner, rect });
        let kind: Kind = match style {
            None => start,
            Some((exstyle, _)) => if is_decoration(exstyle, owner) || self.has_covering_child(id) {
                Kind::Filtered
            } else {
                Kind::Mirror
            },
        };
        self.windows.insert(id as u64, Win { kind, owner, rect });
        let ghost mid = self.windows@;
        assert(mid =~= old(self)@.classified(id, style, rect));
        if let Some(p) = owner {
            if p != id && self.is_mirror(p) && self.has_covering_child(p) {
                if let Some(w) = self.windows.get_mut(p as u64) {
                    w.kind = Kind::Filtered;
                }
                self.demoted.push(p);
            }
        }
        proof {
            assert(self@.windows =~= old(self)@.window_order(id, style, rect).windows);
        }
        let was: bool = match prev {
            Some(Kind::Mirror) => true,
            _ => false,
        };
        match kind {
            Kind::Mirror => if was {
                Order::KnownMirror
            } else {
                Order::NewMirror
            },
            Kind::Filtered => if was {
                Order::NowFiltered
            } else {
                Order::Filtered
            },
        }
    }

    /// Takes the latest window that was demoted from mirrored to frame, whose
    /// native window has to go, or `None` when there is none left.
    pub fn pop_demoted(&mut self) -> (r: Option<u32>)
        requires
            old(self).wf(),
        ensures
            final(self).wf(),
            final(self)@.windows == old(self)@.windows,
            final(self)@.surf_map == old(self)@.surf_map,
            r is Some == (old(self)@.demoted.len() > 0),
            r is Some ==> r->0 == old(self)@.demoted.last() && final(self)@.demoted
                == old(self)@.demoted.drop_last(),
            r is None ==> final(self)@.demoted == old(self)@.demoted,
    {
        let r = self.demoted.pop();
        assert(self@.windows == old(self)@.windows);
        assert(self@.surf_map == old(self)@.surf_map);
        r
    }

    /// Forgets a window. Returns whether it was mirrored, so that only a native
    /// window that exists is destroyed.
    pub fn window_deleted(&mut self, id: u32) -> (was_mirror: bool)
        requires
            old(self).wf(),
        ensures
            final(self).wf(),
            final(self)@ == old(self)@.window_deleted(id),
            was_mirror == is_mirrored(old(self)@.windows, id as u64),
    {
        let was_mirror: bool = match self.windows.remove(id as u64) {
            Some(w) => w.kind == Kind::Mirror,
            None => false,
        };
        self.unmap(id);
        let mut kept: Vec<u32> = Vec::new();
        let mut i: usize = 0;
        while i < self.demoted.len()
            invariant
                i <= self.demoted@.len(),
                kept@ == self.demoted@.take(i as int).filter(other_than(id)),
            decreases self.demoted@.len() - i,
        {
            let d: u32 = self.demoted[i];
            proof {
                let pre = self.demoted@.take(i as int);
                assert(self.demoted@.take(i + 1) =~= pre.push(d));
                pre.lemma_filter_push(d, other_than(id));
            }
            if d != id {
                kept.push(d);
            }
            i = i + 1;
        }
        assert(self.demoted@.take(i as int) =~= self.demoted@);
        self.demoted = kept;
        proof {
            let before = old(self)@;
            assert(self@.windows == before.windows.remove(id as u64));
            assert(self@.surf_map == before.unmap_window(id).surf_map);
            assert(self@ == before.window_deleted(id));
        }
        was_mirror
    }

    /// Drops every mapping to `id`.
    fn unmap(&mut self, id: u32)
        requires
            old(self).surf_map.wf(),
        ensures
            final(self).surf_map.wf(),
            final(self).windows == old(self).windows,
            final(self).demoted == old(self).demoted,
            final(self)@.surf_map == old(self)@.unmap_window(id).surf_map,
    {
        let mut kept: IdMap<u32> = IdMap::new();
        let n: usize = self.surf_map.len();
        proof {
            self.surf_map.lemma_ids();
        }
        let ghost whole = self.surf_map@;
        let ghost ids = self.surf_map.ids();
        let mut i: usize = 0;
        while i < n
            invariant
                self.surf_map.wf(),
                kept.wf(),
                self.surf_map@ == whole,
                self.surf_map.ids() == ids,
                i <= n == ids.len(),
                forall|k: u64| #[trigger]
                    kept@.contains_key(k) <==> whole.contains_key(k) && whole[k] != id && exists|
                        j: int,
                    |
                        0 <= j < i && ids[j] == k,
                forall|k: u64| #[trigger] kept@.contains_key(k) ==> kept@[k] == whole[k],
            decreases n - i,
        {
            let s: u64 = self.surf_map.id_at(i);
            let w: u32 = *self.surf_map.value_at(i);
            let ghost before = kept@;
            if w != id {
                kept.insert(s, w);
            }
            assert forall|k: u64| #[trigger]
                kept@.contains_key(k) <==> whole.contains_key(k) && whole[k] != id && exists|
                    j: int,
                |
                    0 <= j < i + 1 && ids[j] == k by {
                assert(kept@.contains_key(k) == (before.contains_key(k) || (w != id && k == s)));
                if exists|j: int| 0 <= j < i && ids[j] == k {
                    let j = choose|j: int| 0 <= j < i && ids[j] == k;
                    assert(0 <= j < i + 1);
                }
                assert(ids[i as int] == s);
            }
            i = i + 1;
        }
        self.surf_map = kept;
        assert(self.surf_map@ =~= old(self)@.unmap_window(id).surf_map);
    }

    /// Records that a surface belongs to a window.
    pub fn map_surface(&mut self, surface_id: u16, window_id: u32)
        requires
            old(self).wf(),
        ensures
            final(self).wf(),
            final(self)@.windows == old(self)@.windows,
            final(self)@.demoted == old(self)@.demoted,
            final(self)@.surf_map == old(self)@.surf_map.insert(surface_id as u64, window_id),
    {
        self.surf_map.insert(surface_id as u64, window_id);
        proof {
            assert(self@.windows == old(self)@.windows);
            let before = old(self)@.surf_map;
            assert(self@.surf_map == before.insert(surface_id as u64, window_id));
            assert forall|s: u64| #[trigger] self@.surf_map.contains_key(s) implies s <= u16::MAX by {
                assert(s == surface_id as u64 || before.contains_key(s));
            }
        }
    }

    /// Drops every surface mapping of a window.
    pub fn unmap_window(&mut self, window_id: u32)
        requires
            old(self).wf(),
        ensures
            final(self).wf(),
            final(self)@ == old(self)@.unmap_window(window_id),
    {
        self.unmap(window_id);
    }

    /// The mirrored window that shows a surface's pixels, or `None` to drop them.
    /// The explicit mapping comes first, then the surface's own window id, then,
    /// only where there is exactly one window, that window. A surface that leads
    /// to an auxiliary window is dropped.
    pub fn resolve(&self, surface_id: u16, surface_window_id: u32) -> (r: Option<u32>)
        requires
            self.wf(),
        ensures
            r == self@.resolve(surface_id, surface_window_id),
    {
        if let Some(w) = self.surf_map.get(surface_id as u64) {
            return self.mirrored(*w);
        }
        if surface_window_id != 0 {
            return self.mirrored(surface_window_id);
        }
        if self.windows.len() == 1 {
            let id: u64 = self.windows.id_at(0);
            proof {
                self.windows.lemma_ids();
                let other = self@.windows.dom().choose();
                assert(self@.windows.dom().len() == 1);
                assert(self@.windows.dom().contains(id));
                assert(self@.windows.dom().contains(other));
                let j = choose|j: int| 0 <= j < self.windows.ids().len() && self.windows.ids()[j]
                    == other;
                assert(j == 0);
            }
            return self.mirrored(id as u32);
        }
        None
    }

    /// `id`, where it is a live mirrored window.
    fn mirrored(&self, id: u32) -> (r: Option<u32>)
        requires
            self.windows.wf(),
        ensures
            r == if is_mirrored(self.windows@, id as u64) {
                Some(id)
            } else {
                None
            },
    {
        if self.is_mirror(id) {
            Some(id)
        } else {
            None
        }
    }
}

/// A geometry-only order never reclassifies its window: a known one keeps its kind, an
/// unknown one is mirrored, and no native window is given up on its account.
pub proof fn lemma_geometry_never_reclassifies(s: RouterView, id: u32, rect: Rect)
    ensures
        s.window_order(id, None, rect).kind_of(id) == if s.kind_of(id) is Some {
            s.kind_of(id)
        } else {
            Some(Kind::Mirror)
        },
        s.order_outcome(id, None, rect) == match s.kind_of(id) {
            Some(Kind::Mirror) => Order::KnownMirror,
            Some(Kind::Filtered) => Order::Filtered,
            None => Order::NewMirror,
        },
{
}

/// An order with style bits mirrors no frame: where no window with a covering child
/// was mirrored before, none is after it.
pub proof fn lemma_styled_order_keeps_frames_filtered(
    s: RouterView,
    id: u32,
    style: (u32, u32),
    rect: Rect,
)
    requires
        s.wf(),
        s.frames_filtered(),
    ensures
        s.window_order(id, Some(style), rect).frames_filtered(),
{
    let t = s.window_order(id, Some(style), rect);
    assert forall|q: u64| #[trigger] covered(t.windows, q) implies t.windows[q].kind
        == Kind::Filtered by {
        if is_mirrored(t.windows, q) {
            lemma_mirrored_frame_is_old_or_moved(s, id, Some(style), rect, q);
            assert(covered(s.windows, q));
        }
    }
}

/// A mirrored window has a covering child after an order only where it was mirrored and
/// had one before, or where the order is one of geometry alone and about that window.
pub proof fn lemma_mirrored_frame_is_old_or_moved(
    s: RouterView,
    id: u32,
    style: Option<(u32, u32)>,
    rect: Rect,
    q: u64,
)
    requires
        s.wf(),
        is_mirrored(s.window_order(id, style, rect).windows, q),
        covered(s.window_order(id, style, rect).windows, q),
    ensures
        (is_mirrored(s.windows, q) && covered(s.windows, q)) || (q == id as u64 && style is None),
{
    let t = s.window_order(id, style, rect);
    let rec = s.recorded(id, style, rect);
    let mid = s.classified(id, style, rect);
    let owner = s.owner_after(id, style);
    let c = choose|c: u64| #[trigger]
        t.windows.contains_key(c) && c != q && t.windows[c].owner == Some(q as u32)
            && t.windows[c].rect.spec_covers(t.windows[q].rect);
    assert(t.windows[c].owner == Some(q as u32));
    assert(q <= u32::MAX);
    assert(mid.contains_key(c) && rec.contains_key(c));
    assert(covered(mid, q));
    assert(covered(rec, q));
    if q != id as u64 && owner != Some(q as u32) {
        assert(c != id as u64);
        assert(s.windows.contains_key(c));
        assert(covered(s.windows, q));
    }
}

/// A surface without a mapping or a window id of its own is dropped unless there
/// is exactly one window.
pub proof fn lemma_ambiguous_surface_is_dropped(s: RouterView, surface_id: u16)
    requires
        s.wf(),
        !s.surf_map.contains_key(surface_id as u64),
        s.windows.len() != 1,
    ensures
        s.resolve(surface_id, 0) is None,
{
}

/// Pixels reach live mirrored windows only, never a filtered one; so while no frame is
/// mirrored, they reach no frame around its content.
pub proof fn lemma_pixels_reach_mirrored_windows_only(
    s: RouterView,
    surface_id: u16,
    surface_window_id: u32,
)
    requires
        s.wf(),
        s.resolve(surface_id, surface_window_id) is Some,
    ensures
        is_mirrored(s.windows, s.resolve(surface_id, surface_window_id)->0 as u64),
        s.frames_filtered() ==> !covered(
            s.windows,
            s.resolve(surface_id, surface_window_id)->0 as u64,
        ),
{
}

/// A surface that is mapped to a window never shows anywhere else.
pub proof fn lemma_mapping_wins(s: RouterView, surface_id: u16, surface_window_id: u32)
    requires
        s.surf_map.contains_key(surface_id as u64),
    ensures
        s.resolve(surface_id, surface_window_id) is None || s.resolve(surface_id, surface_window_id)
            == Some(s.surf_map[surface_id as u64]),
{
}

/// A child that covers its owner demotes it: after the child's order the owner is
/// not mirrored, and if it was, it is queued for destruction.
pub proof fn lemma_covering_child_demotes_owner(
    s: RouterView,
    id: u32,
    style: Option<(u32, u32)>,
    rect: Rect,
    owner: u32,
)
    requires
        s.wf(),
        owner != id,
        s.owner_after(id, style) == Some(owner),
        s.windows.contains_key(owner as u64),
        rect.spec_covers(s.windows[owner as u64].rect),
    ensures
        s.window_order(id, style, rect).windows[owner as u64].kind == Kind::Filtered,
        s.windows[owner as u64].kind == Kind::Mirror ==> s.window_order(id, style, rect).demoted
            == s.demoted.push(owner),
{
    let mid = s.classified(id, style, rect);
    assert(mid.contains_key(id as u64));
    assert(covered(mid, owner as u64));
}

/// A window that owns no covering child and whose order carries no decoration
/// style is mirrored.
pub proof fn lemma_standalone_window_is_mirrored(
    s: RouterView,
    id: u32,
    style: (u32, u32),
    rect: Rect,
)
    requires
        s.wf(),
        !spec_is_decoration(style.0, s.owner_after(id, Some(style))),
        !covered(s.recorded(id, Some(style), rect), id as u64),
    ensures
        is_mirrored(s.window_order(id, Some(style), rect).windows, id as u64),
{
}

/// Nothing of a deleted window is left: it is not live, no surface is mapped to it,
/// it is not queued for destruction, and no surface resolves to it. Frames that were
/// filtered stay so.
pub proof fn lemma_deleted_window_is_forgotten(
    s: RouterView,
    id: u32,
    surface_id: u16,
    surface_window_id: u32,
)
    requires
        s.wf(),
    ensures
        s.window_deleted(id).wf(),
        s.frames_filtered() ==> s.window_deleted(id).frames_filtered(),
        !s.window_deleted(id).windows.contains_key(id as u64),
        forall|k: u64| #[trigger]
            s.window_deleted(id).surf_map.contains_key(k) ==> s.window_deleted(id).surf_map[k] != id,
        !s.window_deleted(id).demoted.contains(id),
        s.window_deleted(id).resolve(surface_id, surface_window_id) != Some(id),
{
    let t = s.window_deleted(id);
    assert forall|q: u64| #[trigger] covered(t.windows, q) implies covered(s.windows, q) by {
        let c = choose|c: u64| #[trigger]
            t.windows.contains_key(c) && c != q && t.windows[c].owner == Some(q as u32)
                && t.windows[c].rect.spec_covers(t.windows[q].rect);
        assert(s.windows.contains_key(c));
    }
    let keep = other_than(id);
    assert(!t.demoted.contains(id)) by {
        if t.demoted.contains(id) {
            broadcast use vstd::seq_lib::group_filter_ensures;

            let i = t.demoted.index_of(id);
            assert(keep(t.demoted[i]));
        }
    }
}

/// The bridge's code of an outcome.
pub open spec fn order_code(o: Order) -> int {
    match o {
        Order::NewMirror => 1,
        Order::KnownMirror => 0,
        Order::NowFiltered => -1,
        Order::Filtered => -2,
    }
}

/// Clears all routing state, so that a new session inherits nothing.
pub fn rail_route_reset(router: &mut Router)
    ensures
        final(router).wf(),
        final(router)@.windows == Map::<u64, Win>::empty(),
        final(router)@.surf_map == Map::<u64, u32>::empty(),
        final(router)@.demoted == Seq::<u32>::empty(),
{
    *router = Router::new();
}

/// A window order as the bridge gives it. `has_style` is non-zero where `exstyle`
/// and `owner` are meaningful. Returns 1 for a new mirrored window, 0 for a known
/// one, -1 for one that is filtered from now on, -2 for one that stays filtered.
pub fn rail_route_window_order(
    router: &mut Router,
    id: u32,
    has_style: i32,
    exstyle: u32,
    owner: u32,
    rect: (i32, i32, i32, i32),
) -> (code: i32)
    requires
        old(router).wf(),
    ensures
        final(router).wf(),
        ({
            let style = if has_style != 0 {
                Some((exstyle, owner))
            } else {
                None
            };
            let area = Rect { x: rect.0, y: rect.1, w: rect.2, h: rect.3 };
            &&& final(router)@ == old(router)@.window_order(id, style, area)
            &&& code == order_code(old(router)@.order_outcome(id, style, area))
        }),
{
    let style: Option<(u32, u32)> = if has_style != 0 {
        Some((exstyle, owner))
    } else {
        None
    };
    match router.window_order(id, style, rect) {
        Order::NewMirror => 1,
        Order::KnownMirror => 0,
        Order::NowFiltered => -1,
        Order::Filtered => -2,
    }
}

/// The next demoted window, or 0 when there is none left.
pub fn rail_route_pop_demoted(router: &mut Router) -> (id: u32)
    requires
        old(router).wf(),
    ensures
        final(router).wf(),
        final(router)@.windows == old(router)@.windows,
        final(router)@.surf_map == old(router)@.surf_map,
        old(router)@.demoted.len() > 0 ==> id == old(router)@.demoted.last()
            && final(router)@.demoted == old(router)@.demoted.drop_last(),
        old(router)@.demoted.len() == 0 ==> id == 0 && final(router)@.demoted
            == old(router)@.demoted,
{
    match router.pop_demoted() {
        Some(id) => id,
        None => 0,
    }
}

/// Forgets a window; 1 where it was mirrored, else 0.
pub fn rail_route_window_deleted(router: &mut Router, id: u32) -> (code: i32)
    requires
        old(router).wf(),
    ensures
        final(router).wf(),
        final(router)@ == old(router)@.window_deleted(id),
        code == if is_mirrored(old(router)@.windows, id as u64) {
            1int
        } else {
            0
        },
{
    if router.window_deleted(id) {
        1
    } else {
        0
    }
}

/// The window that shows a surface's pixels, or 0 to drop them.
pub fn rail_route_resolve(router: &Router, surface_id: u16, surface_window_id: u32) -> (id: u32)
    requires
        router.wf(),
    ensures
        id == match router@.resolve(surface_id, surface_window_id) {
            Some(w) => w,
            None => 0,
        },
{
    match router.resolve(surface_id, surface_window_id) {
        Some(w) => w,
        None => 0,
    }
}

/// Records that a surface belongs to a window.
pub fn rail_route_map_surface(router: &mut Router, surface_id: u16, window_id: u32)
    requires
        old(router).wf(),
    ensures
        final(router).wf(),
        final(router)@.windows == old(router)@.windows,
        final(router)@.demoted == old(router)@.demoted,
        final(router)@.surf_map == old(router)@.surf_map.insert(surface_id as u64, window_id),
{
    router.map_surface(surface_id, window_id);
}

/// Drops every surface mapping of a window.
pub fn rail_route_unmap_window(router: &mut Router, window_id: u32)
    requires
        old(router).wf(),
    ensures
        final(router).wf(),
        final(router)@ == old(router)@.unmap_window(window_id),
{
    router.unmap_window(window_id);
}

/// What an order tells is what happened to its window: it is created where it came to be
/// mirrored, destroyed where it ceased to be, and otherwise left.
pub proof fn lemma_outcome_tells_what_happened(
    s: RouterView,
    id: u32,
    style: Option<(u32, u32)>,
    rect: Rect,
)
    ensures
        ({
            let before = is_mirrored(s.windows, id as u64);
            let after = is_mirrored(s.window_order(id, style, rect).windows, id as u64);
            let o = s.order_outcome(id, style, rect);
            &&& o == Order::NewMirror <==> !before && after
            &&& o == Order::KnownMirror <==> before && after
            &&& o == Order::NowFiltered <==> before && !after
            &&& o == Order::Filtered <==> !before && !after
        }),
{
}

/// An order records the geometry that it brings, and an owner where it names one, and
/// touches no window but its own and its owner.
pub proof fn lemma_order_records_its_window(
    s: RouterView,
    id: u32,
    style: Option<(u32, u32)>,
    rect: Rect,
    other: u64,
)
    requires
        other != id as u64,
    ensures
        ({
            let t = s.window_order(id, style, rect);
            let w = t.windows[id as u64];
            &&& t.windows.contains_key(id as u64)
            &&& w.rect == rect
            &&& style matches Some((_, owner)) ==> owner != 0 && owner != u32::MAX ==> w.owner
                == Some(owner)
            &&& style is None && s.windows.contains_key(id as u64) ==> w.owner
                == s.windows[id as u64].owner
            &&& s.windows.contains_key(other) && w.owner != Some(other as u32) ==> t.windows[other]
                == s.windows[other]
            &&& s.windows.contains_key(other) ==> t.windows[other].rect == s.windows[other].rect
            &&& t.surf_map == s.surf_map
        }),
{
}

/// Tool windows are never mirrored, and neither are owned windows that cannot take the
/// focus: the style bits are those of the protocol.
pub proof fn lemma_helpers_are_filtered(s: RouterView, id: u32, exstyle: u32, owner: u32, rect: Rect)
    ensures
        ({
            let k = s.kind_after(id, Some((exstyle, owner)), rect);
            &&& exstyle & 0x80u32 != 0 ==> k == Kind::Filtered
            &&& exstyle & 0x0800_0000u32 != 0 && owner != 0 && owner != u32::MAX ==> k
                == Kind::Filtered
        }),
{
}

/// A child covers its owner where it has at least four fifths of the owner's area and
/// sticks out by no more than 8 pixels on any side.
pub proof fn lemma_covering_is_four_fifths_inside(c: Rect, o: Rect)
    requires
        c.w > 0,
        c.h > 0,
        o.w > 0,
        o.h > 0,
    ensures
        c.spec_covers(o) <==> 5 * (c.w * c.h) >= 4 * (o.w * o.h) && o.x - c.x <= 8 && o.y - c.y <= 8
            && (c.x + c.w) - (o.x + o.w) <= 8 && (c.y + c.h) - (o.y + o.h) <= 8,
{
    assert(c.w * c.h > 0 && o.w * o.h > 0) by (nonlinear_arith)
        requires
            c.w > 0,
            c.h > 0,
            o.w > 0,
            o.h > 0,
    ;
}

/// A surface's pixels go to the window that it is mapped to, else to the window that it
/// names, else to the only window there is; and only where that window is mirrored.
pub proof fn lemma_pixels_find_their_window(s: RouterView, surface: u16, named: u32, w: u32)
    requires
        s.wf(),
    ensures
        s.surf_map.contains_key(surface as u64) && s.surf_map[surface as u64] == w ==> s.resolve(
            surface,
            named,
        ) == (if is_mirrored(s.windows, w as u64) {
            Some(w)
        } else {
            None
        }),
        !s.surf_map.contains_key(surface as u64) && named != 0 ==> s.resolve(surface, named) == (
        if is_mirrored(s.windows, named as u64) {
            Some(named)
        } else {
            None
        }),
        !s.surf_map.contains_key(surface as u64) && s.windows.dom() == Set::<u64>::empty().insert(
            w as u64,
        ) ==> s.resolve(surface, 0) == (if s.windows[w as u64].kind == Kind::Mirror {
            Some(w)
        } else {
            None
        }),
{
    let one = Set::<u64>::empty().insert(w as u64);
    if s.windows.dom() == one {
        assert(one.len() == 1);
        assert(one.contains(one.choose()));
    }
}

/// Surfaces that are unmapped from a window keep their other windows.
pub proof fn lemma_unmapping_spares_other_windows(s: RouterView, id: u32, surface: u64)
    ensures
        ({
            let t = s.unmap_window(id);
            &&& t.surf_map.contains_key(surface) <==> s.surf_map.contains_key(surface)
                && s.surf_map[surface] != id
            &&& t.surf_map.contains_key(surface) ==> t.surf_map[surface] == s.surf_map[surface]
            &&& t.windows == s.windows && t.demoted == s.demoted
        }),
{
}

/// The bridge's codes tell the outcomes apart: above 0 a window is created, at 0 it is
/// updated, below 0 it is not shown.
pub proof fn lemma_codes_tell_outcomes_apart(a: Order, b: Order)
    ensures
        order_code(a) == order_code(b) ==> a == b,
        order_code(a) == 1 <==> a == Order::NewMirror,
        order_code(a) == 0 <==> a == Order::KnownMirror,
        order_code(a) == -1 <==> a == Order::NowFiltered,
        order_code(a) == -2 <==> a == Order::Filtered,
{
}

} // verus!
