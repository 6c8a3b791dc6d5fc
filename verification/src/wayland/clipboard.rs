//! The clipboard: the Wayland selection on one side, the macOS pasteboard on the
//! other. Only plain text crosses.

use super::mimes::{of_other, pick_text_mime, picked, types_of, MimeTable};
use super::Device;
use vstd::prelude::*;
use vstd::string::*;
use vstd::utf8::{decode_utf8, encode_utf8, valid_utf8};

verus! {

/// A snapshot of the pasteboard that clients are offered.
#[derive(Debug)]
pub struct OfferData {
    pub bytes: Vec<u8>,
}

/// What is to be done about clients and their objects.
#[derive(Debug, PartialEq, Eq)]
pub enum ClipEmit {
    /// The device's selection is empty.
    ClearSelection { device: u64 },
    /// Make an offer of the pasteboard's text on the device: introduce it, name all
    /// text types, and select it.
    OfferText { device: u64 },
    /// The source is no longer the selection.
    Cancel { source: u64 },
    /// Ask the source to write its data of this type into a pipe.
    Pull { source: u64, mime: String },
}

/// What the clipboard knows.
pub struct ClipboardView {
    pub devices: Seq<Device>,
    pub mimes: Seq<(u64, String)>,
    /// The pasteboard's text as UTF-8, where it has any.
    pub mac_offer: Option<Seq<u8>>,
    /// The client source that owns the selection.
    pub active_source: Option<u64>,
}

/// How a device learns of the pasteboard.
pub open spec fn advertised(offer: Option<Seq<u8>>, device: u64) -> ClipEmit {
    match offer {
        Some(_) => ClipEmit::OfferText { device },
        None => ClipEmit::ClearSelection { device },
    }
}

/// How every device learns of the pasteboard.
pub open spec fn advertised_to_all(offer: Option<Seq<u8>>, devices: Seq<Device>) -> Seq<ClipEmit> {
    devices.map_values(|d: Device| advertised(offer, d.id))
}

/// How a client's devices learn of the pasteboard.
pub open spec fn advertised_to(offer: Option<Seq<u8>>, devices: Seq<Device>, client: u64) -> Seq<
    ClipEmit,
>
    decreases devices.len(),
{
    if devices.len() == 0 {
        Seq::empty()
    } else if devices.last().client == client {
        advertised_to(offer, devices.drop_last(), client).push(
            advertised(offer, devices.last().id),
        )
    } else {
        advertised_to(offer, devices.drop_last(), client)
    }
}

/// The bytes that stand for the pasteboard's text.
pub open spec fn offer_of(text: Option<String>) -> Option<Seq<u8>> {
    match text {
        Some(t) => Some(encode_utf8(t@)),
        None => None,
    }
}

/// A source loses the selection to another one.
pub open spec fn cancelled(previous: Option<u64>, next: Option<u64>) -> Seq<ClipEmit> {
    if previous is Some && previous != next {
        seq![ClipEmit::Cancel { source: previous->0 }]
    } else {
        Seq::empty()
    }
}

impl ClipboardView {
    /// The pasteboard holds something else.
    pub open spec fn pasteboard_changed(self, offer: Option<Seq<u8>>) -> (
        ClipboardView,
        Seq<ClipEmit>,
    ) {
        (
            ClipboardView { mac_offer: offer, active_source: None, ..self },
            cancelled(self.active_source, None) + advertised_to_all(offer, self.devices),
        )
    }

    /// A client selects one of its sources, or nothing.
    pub open spec fn selected(self, source: Option<u64>) -> (ClipboardView, Seq<ClipEmit>) {
        (
            ClipboardView { active_source: source, ..self },
            match source {
                None => Seq::empty(),
                Some(s) => {
                    let types = types_of(self.mimes, s);
                    let pull: Seq<ClipEmit> = match picked(types) {
                        Some(i) => seq![ClipEmit::Pull { source: s, mime: types[i] }],
                        None => Seq::empty(),
                    };
                    cancelled(self.active_source, source) + pull
                },
            },
        )
    }

    /// A source is gone.
    pub open spec fn source_gone(self, source: u64) -> ClipboardView {
        ClipboardView {
            mimes: self.mimes.filter(of_other(source)),
            active_source: if self.active_source == Some(source) {
                None
            } else {
                self.active_source
            },
            ..self
        }
    }
}

/// The clipboard.
pub struct Clipboard {
    devices: Vec<Device>,
    mimes: MimeTable,
    mac_offer: Option<OfferData>,
    active_source: Option<u64>,
}

impl View for Clipboard {
    type V = ClipboardView;

    closed spec fn view(&self) -> ClipboardView {
        ClipboardView {
            devices: self.devices@,
            mimes: self.mimes@,
            mac_offer: match self.mac_offer {
                Some(o) => Some(o.bytes@),
                None => None,
            },
            active_source: self.active_source,
        }
    }
}

impl Clipboard {
    /// An empty clipboard.
    pub fn new() -> (c: Self)
        ensures
            c@ == (ClipboardView {
                devices: Seq::empty(),
                mimes: Seq::empty(),
                mac_offer: None,
                active_source: None,
            }),
    {
        let c = Clipboard {
            devices: Vec::new(),
            mimes: MimeTable::new(),
            mac_offer: None,
            active_source: None,
        };
        assert(c@.devices =~= Seq::<Device>::empty());
        c
    }

    /// Registers a client's device. It is not told of the selection yet: a client makes
    /// its device before its toolkit is up. That waits for the keyboard focus.
    pub fn add_device(&mut self, d: Device)
        ensures
            final(self)@ == (ClipboardView { devices: old(self)@.devices.push(d), ..old(self)@ }),
    {
        self.devices.push(d);
    }

    /// Forgets a device that no longer lives.
    pub fn drop_device(&mut self, id: u64)
        ensures
            final(self)@ == (ClipboardView {
                devices: old(self)@.devices.filter(super::handlers::not_device(id)),
                ..old(self)@
            }),
    {
        self.devices = super::handlers::without_device(&self.devices, id);
    }

    /// A source offers a type.
    pub fn offer(&mut self, source: u64, mime: String)
        ensures
            final(self)@ == (ClipboardView {
                mimes: old(self)@.mimes.push((source, mime)),
                ..old(self)@
            }),
    {
        self.mimes.offer(source, mime);
    }

    /// A source is gone; where it owned the selection, nobody does now.
    pub fn drop_source(&mut self, source: u64)
        ensures
            final(self)@ == old(self)@.source_gone(source),
    {
        self.mimes.forget(source);
        if let Some(a) = self.active_source {
            if a == source {
                self.active_source = None;
            }
        }
    }

    fn advertise_to(&self, device: u64) -> (e: ClipEmit)
        ensures
            e == advertised(self@.mac_offer, device),
    {
        if self.mac_offer.is_some() {
            ClipEmit::OfferText { device }
        } else {
            ClipEmit::ClearSelection { device }
        }
    }

    /// Tells a client's devices of the pasteboard. This is for a client that gains the
    /// keyboard focus.
    pub fn advertise_to_client(&self, client: u64) -> (out: Vec<ClipEmit>)
        ensures
            out@ == advertised_to(self@.mac_offer, self@.devices, client),
    {
        let mut out: Vec<ClipEmit> = Vec::new();
        let mut i: usize = 0;
        while i < self.devices.len()
            invariant
                i <= self.devices@.len(),
                out@ == advertised_to(self@.mac_offer, self.devices@.take(i as int), client),
            decreases self.devices@.len() - i,
        {
            assert(self.devices@.take(i + 1).drop_last() =~= self.devices@.take(i as int));
            if self.devices[i].client == client {
                out.push(self.advertise_to(self.devices[i].id));
            }
            i = i + 1;
        }
        assert(self.devices@.take(i as int) =~= self.devices@);
        out
    }

    /// The pasteboard changed: it owns the clipboard now, a client source loses the
    /// selection, and every device is told.
    pub fn set_mac_selection(&mut self, text: Option<String>) -> (out: Vec<ClipEmit>)
        ensures
            (final(self)@, out@) == old(self)@.pasteboard_changed(offer_of(text)),
    {
        let ghost offer = offer_of(text);
        self.mac_offer =
        match text {
            Some(t) => {
                let bytes = t.as_str().as_bytes_vec();
                Some(OfferData { bytes })
            },
            None => None,
        };
        assert(self@.mac_offer == offer);
        let mut out: Vec<ClipEmit> = Vec::new();
        if let Some(source) = self.active_source {
            out.push(ClipEmit::Cancel { source });
        }
        self.active_source = None;
        let ghost head = out@;
        assert(head =~= cancelled(old(self)@.active_source, None));
        let mut i: usize = 0;
        while i < self.devices.len()
            invariant
                i <= self.devices@.len(),
                self.devices@ == old(self)@.devices,
                self@.mac_offer == offer,
                self@ == (ClipboardView { mac_offer: offer, active_source: None, ..old(self)@ }),
                out@ =~= head + advertised_to_all(offer, self.devices@.take(i as int)),
            decreases self.devices@.len() - i,
        {
            out.push(self.advertise_to(self.devices[i].id));
            assert(advertised_to_all(offer, self.devices@.take(i + 1)) =~= advertised_to_all(
                offer,
                self.devices@.take(i as int),
            ).push(advertised(offer, self.devices@[i as int].id)));
            i = i + 1;
        }
        assert(self.devices@.take(i as int) =~= self.devices@);
        out
    }

    /// A client made one of its sources the selection, or cleared it. Text is pulled
    /// from a new source of a text type; the one before loses the selection.
    pub fn set_selection(&mut self, source: Option<u64>) -> (out: Vec<ClipEmit>)
        ensures
            (final(self)@, out@) == old(self)@.selected(source),
    {
        let mut out: Vec<ClipEmit> = Vec::new();
        match source {
            None => {
                self.active_source = None;
            },
            Some(s) => {
                if let Some(prev) = self.active_source {
                    if prev != s {
                        out.push(ClipEmit::Cancel { source: prev });
                    }
                }
                assert(out@ =~= cancelled(old(self)@.active_source, source));
                let types: Vec<String> = self.mimes.of(s);
                if let Some(mime) = pick_text_mime(&types) {
                    out.push(ClipEmit::Pull { source: s, mime });
                }
                self.active_source = Some(s);
            },
        }
        proof {
            match source {
                None => {
                    assert(out@ =~= Seq::<ClipEmit>::empty());
                },
                Some(s) => {
                    let types = types_of(old(self)@.mimes, s);
                    let pull: Seq<ClipEmit> = match picked(types) {
                        Some(i) => seq![ClipEmit::Pull { source: s, mime: types[i] }],
                        None => Seq::empty(),
                    };
                    assert(out@ =~= cancelled(old(self)@.active_source, source) + pull);
                },
            }
        }
        out
    }

    /// The bytes that a client which pastes is given; none where nothing is offered.
    pub fn offered_bytes(&self) -> (r: Option<&Vec<u8>>)
        ensures
            r is Some == self@.mac_offer is Some,
            r is Some ==> r->0@ == self@.mac_offer->0,
    {
        match &self.mac_offer {
            Some(o) => Some(&o.bytes),
            None => None,
        }
    }
}

/// The text that bytes hold, with replacement characters for what is not UTF-8.
pub uninterp spec fn lossy_text(bytes: Seq<u8>) -> Seq<char>;

/// `String::from_utf8_lossy`: the text that the bytes hold, under the name
/// `lossy_text`; where the bytes are UTF-8 it is exactly what they encode.
#[verifier::external_body]
fn decode_lossy(bytes: &[u8]) -> (r: String)
    ensures
        r@ == lossy_text(bytes@),
        valid_utf8(bytes@) ==> r@ == decode_utf8(bytes@),
{
    String::from_utf8_lossy(bytes).into_owned()
}

/// The text to put on the pasteboard for what a client wrote; none where it wrote
/// nothing.
pub fn pulled_text(bytes: &[u8]) -> (r: Option<String>)
    ensures
        r is Some == (bytes@.len() > 0),
        r is Some ==> r->0@ == lossy_text(bytes@),
        r is Some && valid_utf8(bytes@) ==> r->0@ == decode_utf8(bytes@),
{
    if bytes.len() > 0 {
        Some(decode_lossy(bytes))
    } else {
        None
    }
}

/// Text survives the way over the pasteboard: the bytes that a client pastes are the
/// UTF-8 form of the text, and a client that writes those bytes copies the same text.
pub proof fn lemma_text_survives_the_clipboard(text: Seq<char>)
    ensures
        valid_utf8(encode_utf8(text)),
        decode_utf8(encode_utf8(text)) == text,
{
    broadcast use {vstd::utf8::encode_utf8_valid_utf8, vstd::utf8::encode_utf8_decode_utf8};

}

/// A client that selects a source has its text pulled, once, as the type that was picked
/// of those that this source offered, and the source that was selected before is told that
/// it is not any more. Selecting the same source again cancels nothing.
pub proof fn lemma_selected_text_is_pulled(c: ClipboardView, source: u64)
    ensures
        ({
            let (t, out) = c.selected(Some(source));
            let types = types_of(c.mimes, source);
            let other = c.active_source is Some && c.active_source != Some(source);
            &&& t.active_source == Some(source)
            &&& t.mac_offer == c.mac_offer && t.devices == c.devices && t.mimes == c.mimes
            &&& other ==> out.len() >= 1 && out[0] == (ClipEmit::Cancel {
                source: c.active_source->0,
            })
            &&& picked(types) is Some ==> out.len() >= 1 && out.last() == (ClipEmit::Pull {
                source,
                mime: types[picked(types)->0],
            })
            &&& out.len() == (if other {
                1int
            } else {
                0
            }) + (if picked(types) is Some {
                1int
            } else {
                0
            })
            &&& c.selected(None).1 == Seq::<ClipEmit>::empty()
            &&& c.selected(None).0.active_source is None
        }),
{
}

/// A pasteboard that changes takes the selection from the client that had it, and is
/// offered to every device where it holds text; where it holds none, every device is told
/// that nothing is selected.
pub proof fn lemma_pasteboard_is_offered_to_all(c: ClipboardView, offer: Option<Seq<u8>>, i: int)
    requires
        0 <= i < c.devices.len(),
    ensures
        ({
            let (t, out) = c.pasteboard_changed(offer);
            let first: int = if c.active_source is Some {
                1
            } else {
                0
            };
            &&& t.mac_offer == offer && t.active_source is None
            &&& t.devices == c.devices && t.mimes == c.mimes
            &&& out.len() == first + c.devices.len()
            &&& c.active_source is Some ==> out[0] == (ClipEmit::Cancel {
                source: c.active_source->0,
            })
            &&& offer is Some ==> out[first + i] == (ClipEmit::OfferText {
                device: c.devices[i].id,
            })
            &&& offer is None ==> out[first + i] == (ClipEmit::ClearSelection {
                device: c.devices[i].id,
            })
        }),
{
}

/// A client that is told of the pasteboard hears it on each of its devices in turn, and
/// no other client does.
pub proof fn lemma_client_devices_hear_in_turn(
    offer: Option<Seq<u8>>,
    before: Seq<Device>,
    d: Device,
    client: u64,
)
    ensures
        advertised_to(offer, before.push(d), client) == if d.client != client {
            advertised_to(offer, before, client)
        } else if offer is Some {
            advertised_to(offer, before, client).push(ClipEmit::OfferText { device: d.id })
        } else {
            advertised_to(offer, before, client).push(ClipEmit::ClearSelection { device: d.id })
        },
        advertised_to(offer, Seq::empty(), client) == Seq::<ClipEmit>::empty(),
{
    let all = before.push(d);
    assert(all.drop_last() =~= before);
    assert(all.last() == d);
}

/// A source that is gone offers nothing, and owns the selection no longer; others are not
/// touched.
pub proof fn lemma_gone_source_offers_nothing(c: ClipboardView, source: u64, other: u64)
    requires
        other != source,
    ensures
        types_of(c.source_gone(source).mimes, source) == Seq::<String>::empty(),
        types_of(c.source_gone(source).mimes, other) == types_of(c.mimes, other),
        c.source_gone(source).active_source != Some(source),
        c.active_source == Some(other) ==> c.source_gone(source).active_source == Some(other),
{
    super::mimes::lemma_forgotten_types(c.mimes, source, other);
}

} // verus!
