//! Surfaces inside surfaces: finding the window at the root.

use super::{post, quiet, Emit, State, StateView, Step, SubsurfaceRec};
use crate::cmd::WinCmd;
use crate::idmap::IdMap;
use crate::shm::PixelBuf;
use vstd::prelude::*;

verus! {

impl StateView {
    /// The subsurface record of a surface that has one.
    pub open spec fn sub_rec(self, sid: u64) -> SubsurfaceRec {
        self.subsurfaces[self.surface_subsurface[sid]]
    }

    /// The surface `n` steps up the parent chain.
    pub open spec fn ancestor(self, sid: u64, n: nat) -> u64
        decreases n,
    {
        if n == 0 {
            sid
        } else {
            self.sub_rec(self.ancestor(sid, (n - 1) as nat)).parent
        }
    }

    /// The first window up the parent chain belongs to the parent of the `n`th
    /// ancestor, and all surfaces up to there are subsurfaces.
    pub open spec fn root_at(self, sid: u64, n: nat) -> bool {
        &&& forall|i: nat|
            i <= n ==> self.surface_subsurface.contains_key(#[trigger] self.ancestor(sid, i))
        &&& self.window_of(self.sub_rec(self.ancestor(sid, n)).parent) is Some
        &&& forall|i: nat|
            i < n ==> self.window_of(
                self.sub_rec(#[trigger] self.ancestor(sid, i)).parent,
            ) is None
    }

    /// The sum of the positions of the first `n + 1` surfaces of the parent chain.
    pub open spec fn offset_to(self, sid: u64, n: nat) -> (i32, i32)
        decreases n,
    {
        let r = self.sub_rec(self.ancestor(sid, n));
        if n == 0 {
            (r.x, r.y)
        } else {
            let o = self.offset_to(sid, (n - 1) as nat);
            (o.0.wrapping_add(r.x), o.1.wrapping_add(r.y))
        }
    }

    /// The window at the root of a subsurface's parent chain, the subsurface's
    /// position in it, and its layer key; nothing where the chain does not end in a
    /// window.
    pub open spec fn resolve_subsurface(self, sid: u64) -> Option<(u32, i32, i32, u32)> {
        if exists|n: nat| self.root_at(sid, n) {
            let n = choose|n: nat| self.root_at(sid, n);
            Some(
                (
                    self.window_of(self.sub_rec(self.ancestor(sid, n)).parent)->0,
                    self.offset_to(sid, n).0,
                    self.offset_to(sid, n).1,
                    self.sub_rec(sid).sub_id,
                ),
            )
        } else {
            None
        }
    }

    /// A subsurface goes away with its layer.
    pub open spec fn reap_subsurface(self, sub: u64) -> Step {
        if !self.subsurfaces.contains_key(sub) {
            quiet(self)
        } else {
            let rec = self.subsurfaces[sub];
            Step {
                state: StateView {
                    subsurfaces: self.subsurfaces.remove(sub),
                    surface_subsurface: self.surface_subsurface.remove(rec.surface),
                    ..self
                },
                out: match self.resolve_subsurface(rec.surface) {
                    Some((window_id, _, _, _)) => seq![
                        post(WinCmd::SubDestroy { window_id, sub_id: rec.sub_id }),
                    ],
                    None => Seq::empty(),
                },
            }
        }
    }

    /// A subsurface's pixels go to its layer in the root window.
    pub open spec fn present_subsurface(self, sid: u64, pb: PixelBuf) -> Step {
        Step {
            state: self,
            out: match self.resolve_subsurface(sid) {
                Some((window_id, x, y, sub_id)) => seq![
                    post(
                        WinCmd::SubFrame {
                            window_id,
                            sub_id,
                            x,
                            y,
                            width: pb.width,
                            height: pb.height,
                            stride: pb.stride,
                            dst_w: self.look(sid).dst.0,
                            dst_h: self.look(sid).dst.1,
                            pixels: pb.bytes,
                            format: pb.format,
                            color: self.look(sid).color,
                        },
                    ),
                ],
                None => Seq::empty(),
            },
        }
    }

    /// How a surface's pixels are to be shown.
    pub open spec fn look(self, sid: u64) -> Look {
        if self.surfaces.contains_key(sid) {
            let s = self.surfaces[sid];
            Look {
                color: s.color,
                dst: match s.viewport_dst {
                    Some(d) => d,
                    None => (0, 0),
                },
                offset: s.geometry_offset,
                size: s.geometry_size,
            }
        } else {
            Look { color: None, dst: (0, 0), offset: (0, 0), size: (0, 0) }
        }
    }
}

/// How a surface's pixels are to be shown: color, viewport destination, and content
/// rectangle.
#[derive(Clone, Copy, Debug)]
pub struct Look {
    pub color: Option<crate::cmd::ColorDesc>,
    pub dst: (i32, i32),
    pub offset: (i32, i32),
    pub size: (i32, i32),
}

/// A chain has one first window.
pub proof fn lemma_root_is_unique(s: StateView, sid: u64, n: nat, m: nat)
    requires
        s.root_at(sid, n),
        s.root_at(sid, m),
    ensures
        n == m,
{
    if n < m {
        assert(s.window_of(s.sub_rec(s.ancestor(sid, n)).parent) is None);
    }
    if m < n {
        assert(s.window_of(s.sub_rec(s.ancestor(sid, m)).parent) is None);
    }
}

/// Once a surface repeats, the chain repeats.
proof fn lemma_chain_repeats(s: StateView, sid: u64, j: nat, k: nat, n: nat) -> (m: nat)
    requires
        j < k,
        j <= n,
        s.ancestor(sid, j) == s.ancestor(sid, k),
    ensures
        j <= m < k,
        s.ancestor(sid, n) == s.ancestor(sid, m),
    decreases n,
{
    if n < k {
        n
    } else if n == j {
        j
    } else {
        let p = lemma_chain_repeats(s, sid, j, k, (n - 1) as nat);
        assert(s.ancestor(sid, n) == s.sub_rec(s.ancestor(sid, (n - 1) as nat)).parent);
        assert(s.ancestor(sid, p + 1) == s.sub_rec(s.ancestor(sid, p)).parent);
        if p + 1 < k {
            p + 1
        } else {
            j
        }
    }
}

/// A chain that comes back to a surface it has passed leads to no window.
proof fn lemma_cycle_has_no_root(s: StateView, sid: u64, j: nat, k: nat)
    requires
        j < k,
        s.ancestor(sid, j) == s.ancestor(sid, k),
        forall|i: nat|
            i < k ==> s.window_of(s.sub_rec(#[trigger] s.ancestor(sid, i)).parent) is None,
    ensures
        forall|n: nat| !s.root_at(sid, n),
{
    assert forall|n: nat| !s.root_at(sid, n) by {
        if s.root_at(sid, n) {
            if n < k {
                assert(s.window_of(s.sub_rec(s.ancestor(sid, n)).parent) is None);
            } else {
                let m = lemma_chain_repeats(s, sid, j, k, n);
                assert(s.window_of(s.sub_rec(s.ancestor(sid, m)).parent) is None);
            }
        }
    }
}

/// Surfaces that are each other's ancestors are shown nowhere: a cycle resolves to no
/// window.
pub proof fn lemma_subsurface_cycle_is_not_shown(s: StateView, sid: u64, n: nat)
    requires
        n > 0,
        s.ancestor(sid, n) == sid,
        forall|i: nat|
            i < n ==> s.window_of(s.sub_rec(#[trigger] s.ancestor(sid, i)).parent) is None,
    ensures
        s.resolve_subsurface(sid) is None,
{
    lemma_cycle_has_no_root(s, sid, 0, n);
}

impl State {
    /// Walks a subsurface's parent chain to its root window and sums up the positions:
    /// (window, x, y, layer key). A malformed client can make a cycle; the walk stops
    /// where a surface repeats.
    pub fn resolve_subsurface(&self, sid: u64) -> (r: Option<(u32, i32, i32, u32)>)
        requires
            self.wf(),
        ensures
            r == self@.resolve_subsurface(sid),
    {
        let ghost s = self@;
        proof {
            self.lemma_wf();
            self.surface_subsurface.lemma_ids();
        }
        let leaf = match self.surface_subsurface.get(sid) {
            Some(o) => *o,
            None => {
                proof {
                    assert forall|n: nat| !s.root_at(sid, n) by {
                        assert(s.ancestor(sid, 0) == sid);
                    }
                }
                return None;
            },
        };
        let sub_id: u32 = match self.subsurfaces.get(leaf) {
            Some(rec) => rec.sub_id,
            None => {
                return None;
            },
        };
        let mut ox: i32 = 0;
        let mut oy: i32 = 0;
        let mut cur: u64 = sid;
        let mut passed: IdMap<()> = IdMap::new();
        let ghost mut k: nat = 0;
        loop
            invariant
                self.wf(),
                s == self@,
                s.roles_wf(),
                s.surface_subsurface.dom().finite(),
                s.surface_subsurface.contains_key(sid),
                sub_id == s.sub_rec(sid).sub_id,
                passed.wf(),
                cur == s.ancestor(sid, k),
                forall|i: nat|
                    i < k ==> s.surface_subsurface.contains_key(#[trigger] s.ancestor(sid, i)),
                forall|i: nat|
                    i < k ==> s.window_of(s.sub_rec(#[trigger] s.ancestor(sid, i)).parent) is None,
                forall|u: u64| #[trigger]
                    passed@.contains_key(u) ==> exists|i: nat| i < k && s.ancestor(sid, i) == u,
                passed@.dom().subset_of(s.surface_subsurface.dom()),
                k == 0 ==> ox == 0 && oy == 0,
                k > 0 ==> (ox, oy) == s.offset_to(sid, (k - 1) as nat),
            decreases s.surface_subsurface.dom().len() - passed@.dom().len(),
        {
            if passed.contains(cur) {
                proof {
                    let j = choose|j: nat| j < k && s.ancestor(sid, j) == cur;
                    lemma_cycle_has_no_root(s, sid, j, k);
                }
                return None;
            }
            let obj: u64 = match self.surface_subsurface.get(cur) {
                Some(o) => *o,
                None => {
                    proof {
                        assert forall|n: nat| !s.root_at(sid, n) by {
                            if s.root_at(sid, n) {
                                if n < k {
                                    assert(s.window_of(s.sub_rec(s.ancestor(sid, n)).parent)
                                        is None);
                                } else {
                                    assert(s.surface_subsurface.contains_key(
                                        s.ancestor(sid, k),
                                    ));
                                }
                            }
                        }
                    }
                    return None;
                },
            };
            let ghost before = passed@;
            passed.insert(cur, ());
            proof {
                passed.lemma_ids();
                assert(passed@.dom() =~= before.dom().insert(cur));
                vstd::set_lib::lemma_len_subset(passed@.dom(), s.surface_subsurface.dom());
                assert forall|u: u64| #[trigger] passed@.contains_key(u) implies exists|i: nat|
                    i < k + 1 && s.ancestor(sid, i) == u by {
                    if u == cur {
                        assert(s.ancestor(sid, k) == u);
                    } else {
                        let i = choose|i: nat| i < k && s.ancestor(sid, i) == u;
                        assert(i < k + 1);
                    }
                }
            }
            let rec: SubsurfaceRec = match self.subsurfaces.get(obj) {
                Some(rec) => *rec,
                None => {
                    return None;
                },
            };
            assert(rec == s.sub_rec(s.ancestor(sid, k)));
            assert(0i32.wrapping_add(rec.x) == rec.x && 0i32.wrapping_add(rec.y) == rec.y);
            ox = ox.wrapping_add(rec.x);
            oy = oy.wrapping_add(rec.y);
            assert((ox, oy) == s.offset_to(sid, k));
            if let Some(w) = self.window_for_surface(rec.parent) {
                proof {
                    assert(s.root_at(sid, k));
                    let n = choose|n: nat| s.root_at(sid, n);
                    lemma_root_is_unique(s, sid, k, n);
                }
                return Some((w, ox, oy, sub_id));
            }
            cur = rec.parent;
            proof {
                assert(s.ancestor(sid, k + 1) == cur);
                k = k + 1;
            }
        }
    }

    /// Forgets a subsurface and removes its layer. Unknown objects are ignored.
    pub fn reap_subsurface(&mut self, sub: u64) -> (out: Vec<Emit>)
        requires
            old(self).wf(),
        ensures
            final(self).wf(),
            (Step { state: final(self)@, out: out@ }) == old(self)@.reap_subsurface(sub),
    {
        let mut out: Vec<Emit> = Vec::new();
        let ghost want = old(self)@.reap_subsurface(sub);
        let rec: SubsurfaceRec = match self.subsurfaces.get(sub) {
            Some(rec) => *rec,
            None => {
                assert(out@ =~= want.out);
                return out;
            },
        };
        let root = self.resolve_subsurface(rec.surface);
        let _ = self.subsurfaces.remove(sub);
        let _ = self.surface_subsurface.remove(rec.surface);
        if let Some((window_id, _, _, _)) = root {
            out.push(Emit::Post { cmd: WinCmd::SubDestroy { window_id, sub_id: rec.sub_id } });
        }
        assert(out@ =~= want.out);
        assert(self@ == want.state);
        proof {
            assert(old(self)@.wf());
            assert(self@.roles_wf());
            assert(self@.windows_wf());
            assert(self@.apps_wf());
        }
        out
    }

    pub(super) fn surface_look(&self, sid: u64) -> (r: Look)
        requires
            self.tables_wf(),
        ensures
            r == self@.look(sid),
    {
        match self.surfaces.get(sid) {
            Some(s) => Look {
                color: s.color,
                dst: match s.viewport_dst {
                    Some(d) => d,
                    None => (0, 0),
                },
                offset: s.geometry_offset,
                size: s.geometry_size,
            },
            None => Look { color: None, dst: (0, 0), offset: (0, 0), size: (0, 0) },
        }
    }

    pub(super) fn present_subsurface(&mut self, sid: u64, pb: PixelBuf, out: &mut Vec<Emit>)
        requires
            old(self).wf(),
        ensures
            final(self)@ == old(self)@,
            final(self).wf(),
            final(out)@ == old(out)@ + old(self)@.present_subsurface(sid, pb).out,
    {
        let ghost want = old(self)@.present_subsurface(sid, pb).out;
        let look = self.surface_look(sid);
        if let Some((window_id, x, y, sub_id)) = self.resolve_subsurface(sid) {
            out.push(
                Emit::Post {
                    cmd: WinCmd::SubFrame {
                        window_id,
                        sub_id,
                        x,
                        y,
                        width: pb.width,
                        height: pb.height,
                        stride: pb.stride,
                        dst_w: look.dst.0,
                        dst_h: look.dst.1,
                        pixels: pb.bytes,
                        format: pb.format,
                        color: look.color,
                    },
                },
            );
        }
        assert(out@ =~= old(out)@ + want);
    }
}

} // verus!
