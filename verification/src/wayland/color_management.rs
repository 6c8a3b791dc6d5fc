//! Color descriptions: what clients build up, what comes of it, and what is reported
//! back. Protocol enumerations appear as their wire values.

use crate::cmd::{ColorDesc, PixelFormat, Primaries, TransferFn};
use crate::idmap::IdMap;
use crate::pixels::space_for;
use vstd::prelude::*;

verus! {

/// Wire value of the transfer function sRGB.
pub const TF_SRGB: u32 = 9;

/// Wire value of the transfer function extended sRGB.
pub const TF_EXT_SRGB: u32 = 10;

/// Wire value of the transfer function ST 2084 (PQ).
pub const TF_ST2084_PQ: u32 = 11;

/// Wire value of the transfer function HLG.
pub const TF_HLG: u32 = 13;

/// Wire value of the sRGB primaries.
pub const PRIMARIES_SRGB: u32 = 1;

/// Wire value of the BT.2020 primaries.
pub const PRIMARIES_BT2020: u32 = 6;

/// Wire value of the Display P3 primaries.
pub const PRIMARIES_DISPLAY_P3: u32 = 9;

/// Wire value of the perceptual rendering intent.
pub const INTENT_PERCEPTUAL: u32 = 0;

/// Wire value of the feature: parametric descriptions.
pub const FEATURE_PARAMETRIC: u32 = 1;

/// Wire value of the feature: luminances.
pub const FEATURE_SET_LUMINANCES: u32 = 4;

/// Wire value of the feature: mastering display primaries.
pub const FEATURE_SET_MASTERING_DISPLAY_PRIMARIES: u32 = 5;

/// The transfer function that a wire value stands for, as far as it is supported.
pub open spec fn spec_map_tf(tf: u32) -> Option<TransferFn> {
    if tf == TF_ST2084_PQ {
        Some(TransferFn::Pq)
    } else if tf == TF_HLG {
        Some(TransferFn::Hlg)
    } else if tf == TF_SRGB || tf == TF_EXT_SRGB {
        Some(TransferFn::Srgb)
    } else {
        None
    }
}

/// The primaries that a wire value stands for, as far as they are supported.
pub open spec fn spec_map_primaries(p: u32) -> Option<Primaries> {
    if p == PRIMARIES_SRGB {
        Some(Primaries::Srgb)
    } else if p == PRIMARIES_DISPLAY_P3 {
        Some(Primaries::DisplayP3)
    } else if p == PRIMARIES_BT2020 {
        Some(Primaries::Bt2020)
    } else {
        None
    }
}

/// The wire value of a transfer function.
pub open spec fn spec_to_wp_tf(tf: TransferFn) -> u32 {
    match tf {
        TransferFn::Pq => TF_ST2084_PQ,
        TransferFn::Hlg => TF_HLG,
        TransferFn::Srgb => TF_SRGB,
    }
}

/// The wire value of primaries.
pub open spec fn spec_to_wp_primaries(p: Primaries) -> u32 {
    match p {
        Primaries::Srgb => PRIMARIES_SRGB,
        Primaries::DisplayP3 => PRIMARIES_DISPLAY_P3,
        Primaries::Bt2020 => PRIMARIES_BT2020,
    }
}

/// Maps a transfer function: HDR curves to themselves, the sRGB family to sRGB, and
/// nothing else.
pub fn map_tf(tf: u32) -> (r: Option<TransferFn>)
    ensures
        r == spec_map_tf(tf),
{
    if tf == TF_ST2084_PQ {
        Some(TransferFn::Pq)
    } else if tf == TF_HLG {
        Some(TransferFn::Hlg)
    } else if tf == TF_SRGB || tf == TF_EXT_SRGB {
        Some(TransferFn::Srgb)
    } else {
        None
    }
}

/// Maps primaries.
pub fn map_primaries(p: u32) -> (r: Option<Primaries>)
    ensures
        r == spec_map_primaries(p),
{
    if p == PRIMARIES_SRGB {
        Some(Primaries::Srgb)
    } else if p == PRIMARIES_DISPLAY_P3 {
        Some(Primaries::DisplayP3)
    } else if p == PRIMARIES_BT2020 {
        Some(Primaries::Bt2020)
    } else {
        None
    }
}

/// The wire value of a transfer function.
pub fn to_wp_tf(tf: TransferFn) -> (r: u32)
    ensures
        r == spec_to_wp_tf(tf),
{
    match tf {
        TransferFn::Pq => TF_ST2084_PQ,
        TransferFn::Hlg => TF_HLG,
        TransferFn::Srgb => TF_SRGB,
    }
}

/// The wire value of primaries.
pub fn to_wp_primaries(p: Primaries) -> (r: u32)
    ensures
        r == spec_to_wp_primaries(p),
{
    match p {
        Primaries::Srgb => PRIMARIES_SRGB,
        Primaries::DisplayP3 => PRIMARIES_DISPLAY_P3,
        Primaries::Bt2020 => PRIMARIES_BT2020,
    }
}

/// What is reported to a client comes back as what was reported.
pub proof fn lemma_wire_values_round_trip(tf: TransferFn, p: Primaries)
    ensures
        spec_map_tf(spec_to_wp_tf(tf)) == Some(tf),
        spec_map_primaries(spec_to_wp_primaries(p)) == Some(p),
{
}

/// What is offered to clients, in order.
#[derive(Clone, Copy, PartialEq, Eq, Debug, Structural)]
pub enum ColorOffer {
    Intent { value: u32 },
    Feature { value: u32 },
    Primaries { value: u32 },
    TransferFunction { value: u32 },
    Done,
}

/// The offers: one intent, three features, three primaries, three transfer functions.
pub open spec fn color_offers() -> Seq<ColorOffer> {
    seq![
        ColorOffer::Intent { value: INTENT_PERCEPTUAL },
        ColorOffer::Feature { value: FEATURE_PARAMETRIC },
        ColorOffer::Feature { value: FEATURE_SET_LUMINANCES },
        ColorOffer::Feature { value: FEATURE_SET_MASTERING_DISPLAY_PRIMARIES },
        ColorOffer::Primaries { value: PRIMARIES_SRGB },
        ColorOffer::Primaries { value: PRIMARIES_DISPLAY_P3 },
        ColorOffer::Primaries { value: PRIMARIES_BT2020 },
        ColorOffer::TransferFunction { value: TF_SRGB },
        ColorOffer::TransferFunction { value: TF_ST2084_PQ },
        ColorOffer::TransferFunction { value: TF_HLG },
        ColorOffer::Done,
    ]
}

/// What a client that binds the color manager is told.
pub fn announce_color() -> (r: Vec<ColorOffer>)
    ensures
        r@ == color_offers(),
{
    let mut r: Vec<ColorOffer> = Vec::new();
    r.push(ColorOffer::Intent { value: INTENT_PERCEPTUAL });
    r.push(ColorOffer::Feature { value: FEATURE_PARAMETRIC });
    r.push(ColorOffer::Feature { value: FEATURE_SET_LUMINANCES });
    r.push(ColorOffer::Feature { value: FEATURE_SET_MASTERING_DISPLAY_PRIMARIES });
    r.push(ColorOffer::Primaries { value: PRIMARIES_SRGB });
    r.push(ColorOffer::Primaries { value: PRIMARIES_DISPLAY_P3 });
    r.push(ColorOffer::Primaries { value: PRIMARIES_BT2020 });
    r.push(ColorOffer::TransferFunction { value: TF_SRGB });
    r.push(ColorOffer::TransferFunction { value: TF_ST2084_PQ });
    r.push(ColorOffer::TransferFunction { value: TF_HLG });
    r.push(ColorOffer::Done);
    assert(r@ =~= color_offers());
    r
}

/// All that is offered can be used: each value maps to something.
pub proof fn lemma_offers_are_supported(i: int)
    requires
        0 <= i < color_offers().len(),
    ensures
        color_offers()[i] matches ColorOffer::Primaries { value } ==> spec_map_primaries(value)
            is Some,
        color_offers()[i] matches ColorOffer::TransferFunction { value } ==> spec_map_tf(value)
            is Some,
{
}

/// Parameters that a client builds up before it creates a description.
#[derive(Clone, Copy, PartialEq, Eq, Debug, Structural)]
pub struct ParamAccum {
    pub tf: Option<TransferFn>,
    pub primaries: Option<Primaries>,
    pub max_luminance: Option<u32>,
    pub ref_luminance: Option<u32>,
}

/// A parameter that a client sets. Luminances are in cd/m2.
#[derive(Clone, Copy, PartialEq, Eq, Debug, Structural)]
pub enum ParamRequest {
    SetTfNamed { tf: u32 },
    SetPrimariesNamed { primaries: u32 },
    SetLuminances { max_lum: u32, reference_lum: u32 },
    SetMasteringLuminance { max_lum: u32 },
}

/// Nothing set.
pub open spec fn no_params() -> ParamAccum {
    ParamAccum { tf: None, primaries: None, max_luminance: None, ref_luminance: None }
}

/// The parameters after a request; values that are not supported change nothing.
pub open spec fn params_after(p: ParamAccum, req: ParamRequest) -> ParamAccum {
    match req {
        ParamRequest::SetTfNamed { tf } => if spec_map_tf(tf) is Some {
            ParamAccum { tf: spec_map_tf(tf), ..p }
        } else {
            p
        },
        ParamRequest::SetPrimariesNamed { primaries } => if spec_map_primaries(primaries)
            is Some {
            ParamAccum { primaries: spec_map_primaries(primaries), ..p }
        } else {
            p
        },
        ParamRequest::SetLuminances { max_lum, reference_lum } => ParamAccum {
            max_luminance: Some(max_lum),
            ref_luminance: Some(reference_lum),
            ..p
        },
        ParamRequest::SetMasteringLuminance { max_lum } => ParamAccum {
            max_luminance: Some(max_lum),
            ..p
        },
    }
}

/// The description that parameters make: none unless transfer function and primaries
/// are both set.
pub open spec fn described(p: ParamAccum) -> Option<ColorDesc> {
    if p.tf is Some && p.primaries is Some {
        Some(
            ColorDesc {
                tf: p.tf->0,
                primaries: p.primaries->0,
                max_luminance: p.max_luminance,
                ref_luminance: p.ref_luminance,
            },
        )
    } else {
        None
    }
}

/// What a client is told of a description.
#[derive(Clone, Copy, PartialEq, Eq, Debug, Structural)]
pub struct ColorInfo {
    pub primaries: u32,
    pub tf: u32,
    /// Maximum and reference luminance, where both are known.
    pub max_luminance: Option<u32>,
    pub ref_luminance: Option<u32>,
}

/// What is reported of a description: luminances only where both are known.
pub open spec fn info_of(d: ColorDesc) -> ColorInfo {
    let both = d.max_luminance is Some && d.ref_luminance is Some;
    ColorInfo {
        primaries: spec_to_wp_primaries(d.primaries),
        tf: spec_to_wp_tf(d.tf),
        max_luminance: if both {
            d.max_luminance
        } else {
            None
        },
        ref_luminance: if both {
            d.ref_luminance
        } else {
            None
        },
    }
}

/// The display's own description.
pub open spec fn preferred() -> ColorDesc {
    ColorDesc {
        tf: TransferFn::Srgb,
        primaries: Primaries::Srgb,
        max_luminance: None,
        ref_luminance: None,
    }
}

/// The display's own description: plain sRGB, so that no client is pushed into HDR.
pub fn display_preferred_desc() -> (d: ColorDesc)
    ensures
        d == preferred(),
        d == (ColorDesc {
            tf: TransferFn::Srgb,
            primaries: Primaries::Srgb,
            max_luminance: None,
            ref_luminance: None,
        }),
        !d.spec_is_hdr(),
{
    ColorDesc {
        tf: TransferFn::Srgb,
        primaries: Primaries::Srgb,
        max_luminance: None,
        ref_luminance: None,
    }
}

/// What is known of colors.
pub struct ColorView {
    /// The finished descriptions.
    pub descs: Map<u64, ColorDesc>,
    /// The parameters being built up.
    pub creators: Map<u64, ParamAccum>,
}

impl ColorView {
    /// A description begins.
    pub open spec fn begun(self, id: u64) -> ColorView {
        ColorView { creators: self.creators.insert(id, no_params()), ..self }
    }

    /// Something is said of a description that has begun.
    pub open spec fn told(self, id: u64, req: ParamRequest) -> ColorView {
        if self.creators.contains_key(id) {
            ColorView {
                creators: self.creators.insert(id, params_after(self.creators[id], req)),
                ..self
            }
        } else {
            self
        }
    }

    /// A description is finished under `image`, where enough was said of it.
    pub open spec fn finished(self, id: u64, image: u64) -> (ColorView, bool) {
        let ready = self.creators.contains_key(id) && described(self.creators[id]) is Some;
        (
            ColorView {
                creators: self.creators.remove(id),
                descs: if ready {
                    self.descs.insert(image, described(self.creators[id])->0)
                } else {
                    self.descs
                },
            },
            ready,
        )
    }

    /// The display's own description is known under `image`.
    pub open spec fn with_preferred(self, image: u64) -> ColorView {
        ColorView { descs: self.descs.insert(image, preferred()), ..self }
    }

    /// The description of an object.
    pub open spec fn desc(self, image: u64) -> Option<ColorDesc> {
        if self.descs.contains_key(image) {
            Some(self.descs[image])
        } else {
            None
        }
    }

    /// What is told of the description of an object.
    pub open spec fn information(self, image: u64) -> Option<ColorInfo> {
        if self.descs.contains_key(image) {
            Some(info_of(self.descs[image]))
        } else {
            None
        }
    }

    /// A description is forgotten.
    pub open spec fn without(self, image: u64) -> ColorView {
        ColorView { descs: self.descs.remove(image), ..self }
    }
}

/// The descriptions and the ones being built up, by object id.
pub struct ColorManager {
    image_descs: IdMap<ColorDesc>,
    param_creators: IdMap<ParamAccum>,
}

impl View for ColorManager {
    type V = ColorView;

    closed spec fn view(&self) -> ColorView {
        ColorView { descs: self.image_descs@, creators: self.param_creators@ }
    }
}

impl ColorManager {
    /// The tables are sound.
    pub closed spec fn wf(&self) -> bool {
        self.image_descs.wf() && self.param_creators.wf()
    }

    /// The finished descriptions.
    pub open spec fn descs(&self) -> Map<u64, ColorDesc> {
        self@.descs
    }

    /// The parameters being built up.
    pub open spec fn creators(&self) -> Map<u64, ParamAccum> {
        self@.creators
    }

    /// No description yet.
    pub fn new() -> (m: Self)
        ensures
            m.wf(),
            m.descs() == Map::<u64, ColorDesc>::empty(),
            m.creators() == Map::<u64, ParamAccum>::empty(),
    {
        ColorManager { image_descs: IdMap::new(), param_creators: IdMap::new() }
    }

    /// A client starts to build a description up.
    pub fn create_creator(&mut self, id: u64)
        requires
            old(self).wf(),
        ensures
            final(self).wf(),
            final(self)@ == old(self)@.begun(id),
    {
        self.param_creators.insert(
            id,
            ParamAccum { tf: None, primaries: None, max_luminance: None, ref_luminance: None },
        );
    }

    /// A client sets a parameter. Unknown creators are ignored.
    pub fn set_param(&mut self, id: u64, req: ParamRequest)
        requires
            old(self).wf(),
        ensures
            final(self).wf(),
            final(self)@ == old(self)@.told(id, req),
    {
        let mut p: ParamAccum = match self.param_creators.get(id) {
            Some(p) => *p,
            None => {
                return;
            },
        };
        match req {
            ParamRequest::SetTfNamed { tf } => {
                if let Some(t) = map_tf(tf) {
                    p.tf = Some(t);
                }
            },
            ParamRequest::SetPrimariesNamed { primaries } => {
                if let Some(m) = map_primaries(primaries) {
                    p.primaries = Some(m);
                }
            },
            ParamRequest::SetLuminances { max_lum, reference_lum } => {
                p.max_luminance = Some(max_lum);
                p.ref_luminance = Some(reference_lum);
            },
            ParamRequest::SetMasteringLuminance { max_lum } => {
                p.max_luminance = Some(max_lum);
            },
        }
        self.param_creators.insert(id, p);
    }

    /// Finishes a description under the object `image` and uses the creator up. False
    /// where transfer function or primaries are missing: the description failed.
    pub fn create(&mut self, id: u64, image: u64) -> (ready: bool)
        requires
            old(self).wf(),
        ensures
            final(self).wf(),
            (final(self)@, ready) == old(self)@.finished(id, image),
    {
        match self.param_creators.remove(id) {
            Some(p) => match (p.tf, p.primaries) {
                (Some(tf), Some(primaries)) => {
                    self.image_descs.insert(
                        image,
                        ColorDesc {
                            tf,
                            primaries,
                            max_luminance: p.max_luminance,
                            ref_luminance: p.ref_luminance,
                        },
                    );
                    true
                },
                _ => false,
            },
            None => false,
        }
    }

    /// Registers the display's own description under `image`.
    pub fn prefer(&mut self, image: u64)
        requires
            old(self).wf(),
        ensures
            final(self).wf(),
            final(self)@ == old(self)@.with_preferred(image),
    {
        self.image_descs.insert(image, display_preferred_desc());
    }

    /// The description of an object.
    pub fn desc(&self, image: u64) -> (r: Option<ColorDesc>)
        requires
            self.wf(),
        ensures
            r == self@.desc(image),
    {
        match self.image_descs.get(image) {
            Some(d) => Some(*d),
            None => None,
        }
    }

    /// What a client is told of a description.
    pub fn get_information(&self, image: u64) -> (r: Option<ColorInfo>)
        requires
            self.wf(),
        ensures
            r == self@.information(image),
    {
        match self.image_descs.get(image) {
            Some(d) => {
                let both: bool = d.max_luminance.is_some() && d.ref_luminance.is_some();
                Some(
                    ColorInfo {
                        primaries: to_wp_primaries(d.primaries),
                        tf: to_wp_tf(d.tf),
                        max_luminance: if both { d.max_luminance } else { None },
                        ref_luminance: if both { d.ref_luminance } else { None },
                    },
                )
            },
            None => None,
        }
    }

    /// Forgets a description. Surfaces that use it keep their color.
    pub fn destroy(&mut self, image: u64)
        requires
            old(self).wf(),
        ensures
            final(self).wf(),
            final(self)@ == old(self)@.without(image),
    {
        let _ = self.image_descs.remove(image);
    }
}

/// The wire values that are understood, and what they mean: sRGB 9 and its extended form
/// 10, PQ 11 and HLG 13; sRGB primaries 1, BT.2020 6 and Display P3 9.
pub proof fn lemma_wire_values_are_the_protocols(v: u32)
    ensures
        spec_map_tf(v) == Some(TransferFn::Srgb) <==> v == 9 || v == 10,
        spec_map_tf(v) == Some(TransferFn::Pq) <==> v == 11,
        spec_map_tf(v) == Some(TransferFn::Hlg) <==> v == 13,
        spec_map_primaries(v) == Some(Primaries::Srgb) <==> v == 1,
        spec_map_primaries(v) == Some(Primaries::Bt2020) <==> v == 6,
        spec_map_primaries(v) == Some(Primaries::DisplayP3) <==> v == 9,
{
}

/// A description is what was said of it, in whatever order: the curve and the primaries,
/// and the luminances where they were given. Without both of the first there is none.
pub proof fn lemma_description_is_what_was_said(tf: u32, primaries: u32, max_lum: u32, ref_lum: u32)
    requires
        spec_map_tf(tf) is Some,
        spec_map_primaries(primaries) is Some,
    ensures
        ({
            let a = ParamRequest::SetTfNamed { tf };
            let b = ParamRequest::SetPrimariesNamed { primaries };
            let c = ParamRequest::SetLuminances { max_lum, reference_lum: ref_lum };
            let p = params_after(params_after(no_params(), a), b);
            &&& params_after(params_after(no_params(), b), a) == p
            &&& described(p) == Some(
                ColorDesc {
                    tf: spec_map_tf(tf)->0,
                    primaries: spec_map_primaries(primaries)->0,
                    max_luminance: None,
                    ref_luminance: None,
                },
            )
            &&& described(params_after(p, c)) == Some(
                ColorDesc {
                    max_luminance: Some(max_lum),
                    ref_luminance: Some(ref_lum),
                    ..described(p)->0
                },
            )
            &&& described(params_after(no_params(), a)) is None
            &&& described(params_after(no_params(), b)) is None
        }),
{
}

/// What is said last counts, a value that is not understood counts for nothing, and what
/// is said of one thing leaves the others.
pub proof fn lemma_last_word_counts(p: ParamAccum, first: u32, second: u32, max_lum: u32)
    ensures
        spec_map_tf(second) is Some ==> params_after(
            params_after(p, ParamRequest::SetTfNamed { tf: first }),
            ParamRequest::SetTfNamed { tf: second },
        ) == (ParamAccum { tf: spec_map_tf(second), ..p }),
        spec_map_tf(second) is None ==> params_after(p, ParamRequest::SetTfNamed { tf: second })
            == p,
        spec_map_primaries(second) is Some ==> params_after(
            p,
            ParamRequest::SetPrimariesNamed { primaries: second },
        ) == (ParamAccum { primaries: spec_map_primaries(second), ..p }),
        spec_map_primaries(second) is None ==> params_after(
            p,
            ParamRequest::SetPrimariesNamed { primaries: second },
        ) == p,
        params_after(p, ParamRequest::SetMasteringLuminance { max_lum }) == (ParamAccum {
            max_luminance: Some(max_lum),
            ..p
        }),
{
}

/// What a client is told of a description describes it: the values mean its curve and its
/// primaries, and luminances are told both or not at all.
pub proof fn lemma_information_describes(d: ColorDesc)
    ensures
        spec_map_tf(info_of(d).tf) == Some(d.tf),
        spec_map_primaries(info_of(d).primaries) == Some(d.primaries),
        d.max_luminance is Some && d.ref_luminance is Some ==> info_of(d).max_luminance
            == d.max_luminance && info_of(d).ref_luminance == d.ref_luminance,
        d.max_luminance is None || d.ref_luminance is None ==> info_of(d).max_luminance is None
            && info_of(d).ref_luminance is None,
{
}

/// A surface that takes the display's own description looks as it did without one, in
/// whatever format, and a client that asks is told plain sRGB without luminances.
pub proof fn lemma_preferred_changes_nothing(format: PixelFormat)
    ensures
        space_for(format, Some(preferred())) == space_for(format, None),
        !preferred().spec_is_hdr(),
        info_of(preferred()).tf == 9 && info_of(preferred()).primaries == 1,
        info_of(preferred()).max_luminance is None && info_of(preferred()).ref_luminance is None,
{
}

/// A description that is built up and finished is known under the object that it was
/// finished under, as it was said, and is told so; its creator is used up, and no other
/// description changes. One of which too little was said is not known.
pub proof fn lemma_finished_description_is_known(
    v: ColorView,
    id: u64,
    image: u64,
    tf: u32,
    primaries: u32,
    other: u64,
)
    requires
        spec_map_tf(tf) is Some,
        spec_map_primaries(primaries) is Some,
        other != image,
    ensures
        ({
            let half = v.begun(id).told(id, ParamRequest::SetTfNamed { tf });
            let whole = half.told(id, ParamRequest::SetPrimariesNamed { primaries });
            let (t, ready) = whole.finished(id, image);
            &&& ready
            &&& t.desc(image) == Some(
                ColorDesc {
                    tf: spec_map_tf(tf)->0,
                    primaries: spec_map_primaries(primaries)->0,
                    max_luminance: None,
                    ref_luminance: None,
                },
            )
            &&& t.information(image) is Some && spec_map_tf(t.information(image)->0.tf)
                == spec_map_tf(tf)
            &&& t.desc(other) == v.desc(other)
            &&& !t.finished(id, image).1
            &&& !half.finished(id, image).1
            &&& half.finished(id, image).0.desc(image) == v.desc(image)
        }),
{
}

/// The display's own description can be asked for under any object, and forgetting an
/// object forgets that one alone. What is said to no creator counts for nothing.
pub proof fn lemma_objects_are_kept_apart(
    v: ColorView,
    image: u64,
    other: u64,
    id: u64,
    req: ParamRequest,
)
    requires
        other != image,
    ensures
        v.with_preferred(image).desc(image) == Some(preferred()),
        v.with_preferred(image).desc(other) == v.desc(other),
        v.without(image).desc(image) is None,
        v.without(image).information(image) is None,
        v.without(image).desc(other) == v.desc(other),
        !v.creators.contains_key(id) ==> v.told(id, req) == v,
        v.told(id, req).descs == v.descs,
        v.begun(id).descs == v.descs,
{
}

} // verus!
