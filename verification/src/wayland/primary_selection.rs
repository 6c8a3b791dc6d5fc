//! The primary (middle-click) selection, from client to client. It never touches the
//! pasteboard.

use super::mimes::{of_other, types_of, MimeTable};
use super::Device;
use vstd::prelude::*;

verus! {

/// What the primary selection knows.
pub struct PrimaryView {
    pub devices: Seq<Device>,
    pub mimes: Seq<(u64, String)>,
    /// The source that owns the selection.
    pub active_source: Option<u64>,
}

/// What is to be done about clients and their objects.
#[derive(Debug, PartialEq, Eq)]
pub enum PrimaryEmit {
    /// The device's selection is empty.
    ClearSelection { device: u64 },
    /// Make an offer of the source on the device: introduce it, name the source's
    /// types, and select it.
    OfferSource { device: u64, source: u64 },
    /// The source is no longer the selection.
    Cancel { source: u64 },
}

/// How a device learns of the selection.
pub open spec fn shown(source: Option<u64>, device: u64) -> PrimaryEmit {
    match source {
        Some(source) => PrimaryEmit::OfferSource { device, source },
        None => PrimaryEmit::ClearSelection { device },
    }
}

/// How every device learns of the selection.
pub open spec fn shown_to_all(source: Option<u64>, devices: Seq<Device>) -> Seq<PrimaryEmit> {
    devices.map_values(|d: Device| shown(source, d.id))
}

impl PrimaryView {
    /// A device joins.
    pub open spec fn joined(self, d: Device) -> (PrimaryView, Seq<PrimaryEmit>) {
        (
            PrimaryView { devices: self.devices.push(d), ..self },
            if self.active_source is Some {
                seq![shown(self.active_source, d.id)]
            } else {
                Seq::empty()
            },
        )
    }

    /// A client selects one of its sources, or nothing.
    pub open spec fn selected(self, source: Option<u64>) -> (PrimaryView, Seq<PrimaryEmit>) {
        (
            PrimaryView { active_source: source, ..self },
            (if self.active_source is Some && self.active_source != source {
                seq![PrimaryEmit::Cancel { source: self.active_source->0 }]
            } else {
                Seq::empty()
            }) + shown_to_all(source, self.devices),
        )
    }

    /// A source is gone.
    pub open spec fn forgotten(self, source: u64) -> (PrimaryView, Seq<PrimaryEmit>) {
        (
            PrimaryView {
                mimes: self.mimes.filter(of_other(source)),
                active_source: if self.active_source == Some(source) {
                    None
                } else {
                    self.active_source
                },
                ..self
            },
            if self.active_source == Some(source) {
                shown_to_all(None, self.devices)
            } else {
                Seq::empty()
            },
        )
    }
}

/// The primary selection.
pub struct PrimarySelection {
    devices: Vec<Device>,
    mimes: MimeTable,
    active_source: Option<u64>,
}

impl View for PrimarySelection {
    type V = PrimaryView;

    closed spec fn view(&self) -> PrimaryView {
        PrimaryView {
            devices: self.devices@,
            mimes: self.mimes@,
            active_source: self.active_source,
        }
    }
}

impl PrimarySelection {
    /// Nothing selected.
    pub fn new() -> (p: Self)
        ensures
            p@ == (PrimaryView {
                devices: Seq::empty(),
                mimes: Seq::empty(),
                active_source: None,
            }),
    {
        let p = PrimarySelection {
            devices: Vec::new(),
            mimes: MimeTable::new(),
            active_source: None,
        };
        assert(p@.devices =~= Seq::<Device>::empty());
        p
    }

    fn advertise_to(&self, device: u64) -> (e: PrimaryEmit)
        ensures
            e == shown(self@.active_source, device),
    {
        match self.active_source {
            Some(source) => PrimaryEmit::OfferSource { device, source },
            None => PrimaryEmit::ClearSelection { device },
        }
    }

    fn advertise_to_all(&self, out: &mut Vec<PrimaryEmit>)
        ensures
            final(out)@ == old(out)@ + shown_to_all(self@.active_source, self@.devices),
    {
        let mut i: usize = 0;
        let ghost source = self@.active_source;
        while i < self.devices.len()
            invariant
                i <= self.devices@.len(),
                source == self@.active_source,
                out@ =~= old(out)@ + shown_to_all(source, self.devices@.take(i as int)),
            decreases self.devices@.len() - i,
        {
            out.push(self.advertise_to(self.devices[i].id));
            assert(shown_to_all(source, self.devices@.take(i + 1)) =~= shown_to_all(
                source,
                self.devices@.take(i as int),
            ).push(shown(source, self.devices@[i as int].id)));
            i = i + 1;
        }
        assert(self.devices@.take(i as int) =~= self.devices@);
    }

    /// Registers a client's device; it is told of a selection that exists.
    pub fn add_device(&mut self, d: Device) -> (out: Vec<PrimaryEmit>)
        ensures
            (final(self)@, out@) == old(self)@.joined(d),
    {
        let mut out: Vec<PrimaryEmit> = Vec::new();
        if self.active_source.is_some() {
            out.push(self.advertise_to(d.id));
            assert(out@ =~= seq![shown(old(self)@.active_source, d.id)]);
        } else {
            assert(out@ =~= Seq::<PrimaryEmit>::empty());
        }
        self.devices.push(d);
        out
    }

    /// Forgets a device that no longer lives.
    pub fn drop_device(&mut self, id: u64)
        ensures
            final(self)@ == (PrimaryView {
                devices: old(self)@.devices.filter(super::handlers::not_device(id)),
                ..old(self)@
            }),
    {
        self.devices = super::handlers::without_device(&self.devices, id);
    }

    /// A source offers a type.
    pub fn offer(&mut self, source: u64, mime: String)
        ensures
            final(self)@ == (PrimaryView {
                mimes: old(self)@.mimes.push((source, mime)),
                ..old(self)@
            }),
    {
        self.mimes.offer(source, mime);
    }

    /// The types of a source.
    pub fn types(&self, source: u64) -> (r: Vec<String>)
        ensures
            r@ == types_of(self@.mimes, source),
    {
        self.mimes.of(source)
    }

    /// A client made one of its sources the selection, or cleared it.
    pub fn set_selection(&mut self, source: Option<u64>) -> (out: Vec<PrimaryEmit>)
        ensures
            (final(self)@, out@) == old(self)@.selected(source),
    {
        let mut out: Vec<PrimaryEmit> = Vec::new();
        if let Some(prev) = self.active_source {
            let same: bool = match source {
                Some(s) => s == prev,
                None => false,
            };
            if !same {
                out.push(PrimaryEmit::Cancel { source: prev });
            }
        }
        let ghost head = if old(self)@.active_source is Some && old(self)@.active_source != source {
            seq![PrimaryEmit::Cancel { source: old(self)@.active_source->0 }]
        } else {
            Seq::<PrimaryEmit>::empty()
        };
        assert(out@ =~= head);
        self.active_source = source;
        self.advertise_to_all(&mut out);
        out
    }

    /// A source is gone. Where it owned the selection, every device learns that the
    /// selection is empty. Can be called more than once.
    pub fn forget_source(&mut self, source: u64) -> (out: Vec<PrimaryEmit>)
        ensures
            (final(self)@, out@) == old(self)@.forgotten(source),
    {
        let mut out: Vec<PrimaryEmit> = Vec::new();
        self.mimes.forget(source);
        if let Some(a) = self.active_source {
            if a == source {
                self.active_source = None;
                self.advertise_to_all(&mut out);
                assert(out@ =~= shown_to_all(None, old(self)@.devices));
                return out;
            }
        }
        assert(out@ =~= Seq::<PrimaryEmit>::empty());
        out
    }
}

/// What a client selects is offered to every device, in turn, and the source that was
/// selected before is told that it is not any more. Selecting nothing clears every device.
pub proof fn lemma_selection_reaches_every_device(p: PrimaryView, source: Option<u64>, i: int)
    requires
        0 <= i < p.devices.len(),
    ensures
        ({
            let (t, out) = p.selected(source);
            let replaced = p.active_source is Some && p.active_source != source;
            let first: int = if replaced {
                1
            } else {
                0
            };
            let device = p.devices[i].id;
            &&& t == (PrimaryView { active_source: source, ..p })
            &&& out.len() == first + p.devices.len()
            &&& replaced ==> out[0] == (PrimaryEmit::Cancel { source: p.active_source->0 })
            &&& source is Some ==> out[first + i] == (PrimaryEmit::OfferSource {
                device,
                source: source->0,
            })
            &&& source is None ==> out[first + i] == (PrimaryEmit::ClearSelection { device })
        }),
{
}

/// A device that joins late is told of what is selected; without a selection it is told
/// nothing.
pub proof fn lemma_late_device_learns_the_selection(p: PrimaryView, d: Device)
    ensures
        p.joined(d).0.devices == p.devices.push(d),
        p.active_source is Some ==> p.joined(d).1 == seq![
            PrimaryEmit::OfferSource { device: d.id, source: p.active_source->0 },
        ],
        p.active_source is None ==> p.joined(d).1 == Seq::<PrimaryEmit>::empty(),
{
}

/// A source that is gone takes its selection along: every device is cleared, once. One
/// that was not selected goes unnoticed.
pub proof fn lemma_gone_source_clears_every_device(p: PrimaryView, source: u64, i: int)
    requires
        0 <= i < p.devices.len(),
    ensures
        ({
            let (t, out) = p.forgotten(source);
            &&& p.active_source == Some(source) ==> out.len() == p.devices.len() && out[i]
                == (PrimaryEmit::ClearSelection { device: p.devices[i].id }) && t.active_source
                is None
            &&& p.active_source != Some(source) ==> out == Seq::<PrimaryEmit>::empty()
                && t.active_source == p.active_source
            &&& t.forgotten(source).1 == Seq::<PrimaryEmit>::empty()
            &&& types_of(t.mimes, source) == Seq::<String>::empty()
        }),
{
    let other: u64 = if source == 0 {
        1
    } else {
        0
    };
    super::mimes::lemma_forgotten_types(p.mimes, source, other);
}

} // verus!
