use vstd::prelude::*;

verus! {

/// How a texture is magnified.
#[derive(Debug, Copy, Clone, PartialEq, Eq, Structural)]
pub enum SamplerMagFilter {
    Nearest,
    Linear,
}

/// How a texture is minified.
#[derive(Debug, Copy, Clone, PartialEq, Eq, Structural)]
pub enum SamplerMinFilter {
    Nearest,
    Linear,
    NearestMipmapNearest,
    NearestMipmapLinear,
    LinearMipmapNearest,
    LinearMipmapLinear,
}

/// How texture coordinates outside of the texture are wrapped.
#[derive(Debug, Copy, Clone, PartialEq, Eq, Structural)]
pub enum SamplerWrap {
    ClampToEdge,
    Repeat,
    MirroredRepeat,
}

/// The sampling settings of a two-dimensional texture.
#[derive(Debug, Copy, Clone, PartialEq, Eq, Structural)]
pub struct Sampler2dParams {
    pub mag_filter: SamplerMagFilter,
    pub min_filter: SamplerMinFilter,
    pub wrap_s: SamplerWrap,
    pub wrap_t: SamplerWrap,
}

/// A change of one sampling setting of the bound texture.
#[derive(Debug, Copy, Clone, PartialEq, Eq, Structural)]
pub enum SamplerChange {
    MagFilter(SamplerMagFilter),
    MinFilter(SamplerMinFilter),
    WrapS(SamplerWrap),
    WrapT(SamplerWrap),
}

/// The initial sampling settings of a texture.
pub open spec fn default_sampler_params() -> Sampler2dParams {
    Sampler2dParams {
        mag_filter: SamplerMagFilter::Linear,
        min_filter: SamplerMinFilter::NearestMipmapLinear,
        wrap_s: SamplerWrap::Repeat,
        wrap_t: SamplerWrap::Repeat,
    }
}

impl Default for Sampler2dParams {
    /// Linear magnification, minification between the nearest texels of
    /// two mipmap levels, and repetition.
    fn default() -> (r: Self)
        ensures
            r == default_sampler_params(),
    {
        Sampler2dParams {
            mag_filter: SamplerMagFilter::Linear,
            min_filter: SamplerMinFilter::NearestMipmapLinear,
            wrap_s: SamplerWrap::Repeat,
            wrap_t: SamplerWrap::Repeat,
        }
    }
}

/// The changes that take the settings `cur` to `new`: one for each setting
/// that differs, in the order magnification, minification, wrapping in s,
/// wrapping in t.
pub open spec fn sampler_changes(new: Sampler2dParams, cur: Sampler2dParams) -> Seq<SamplerChange> {
    (if new.mag_filter != cur.mag_filter {
        seq![SamplerChange::MagFilter(new.mag_filter)]
    } else {
        seq![]
    }) + (if new.min_filter != cur.min_filter {
        seq![SamplerChange::MinFilter(new.min_filter)]
    } else {
        seq![]
    }) + (if new.wrap_s != cur.wrap_s {
        seq![SamplerChange::WrapS(new.wrap_s)]
    } else {
        seq![]
    }) + (if new.wrap_t != cur.wrap_t {
        seq![SamplerChange::WrapT(new.wrap_t)]
    } else {
        seq![]
    })
}

impl Sampler2dParams {
    /// The changes that take the sampling settings `current` to these.
    pub fn set_delta(&self, current: &Sampler2dParams) -> (r: Vec<SamplerChange>)
        ensures
            r@ == sampler_changes(*self, *current),
    {
        let mut r: Vec<SamplerChange> = Vec::new();
        if self.mag_filter != current.mag_filter {
            r.push(SamplerChange::MagFilter(self.mag_filter));
        }
        let ghost a = r@;
        if self.min_filter != current.min_filter {
            r.push(SamplerChange::MinFilter(self.min_filter));
        }
        let ghost b = r@;
        if self.wrap_s != current.wrap_s {
            r.push(SamplerChange::WrapS(self.wrap_s));
        }
        let ghost c = r@;
        if self.wrap_t != current.wrap_t {
            r.push(SamplerChange::WrapT(self.wrap_t));
        }
        r
    }
}

/// Applying the settings that are in place changes nothing, and applying
/// settings twice changes nothing the second time.
pub proof fn lemma_sampler_changes_same(params: Sampler2dParams)
    ensures
        sampler_changes(params, params) == Seq::<SamplerChange>::empty(),
{
    assert(sampler_changes(params, params) =~= Seq::<SamplerChange>::empty());
}

/// The sampling settings after the change `c`.
pub open spec fn apply_sampler_change(p: Sampler2dParams, c: SamplerChange) -> Sampler2dParams {
    match c {
        SamplerChange::MagFilter(f) => Sampler2dParams { mag_filter: f, ..p },
        SamplerChange::MinFilter(f) => Sampler2dParams { min_filter: f, ..p },
        SamplerChange::WrapS(w) => Sampler2dParams { wrap_s: w, ..p },
        SamplerChange::WrapT(w) => Sampler2dParams { wrap_t: w, ..p },
    }
}

/// The sampling settings after the changes `cs`, in order.
pub open spec fn apply_sampler_changes(p: Sampler2dParams, cs: Seq<SamplerChange>) -> Sampler2dParams
    decreases cs.len(),
{
    if cs.len() == 0 {
        p
    } else {
        apply_sampler_change(apply_sampler_changes(p, cs.drop_last()), cs.last())
    }
}

proof fn lemma_apply_sampler_append(p: Sampler2dParams, a: Seq<SamplerChange>, b: Seq<SamplerChange>)
    ensures
        apply_sampler_changes(p, a + b) == apply_sampler_changes(apply_sampler_changes(p, a), b),
    decreases b.len(),
{
    if b.len() == 0 {
        assert(a + b =~= a);
    } else {
        assert((a + b).drop_last() =~= a + b.drop_last());
        assert((a + b).last() == b.last());
        lemma_apply_sampler_append(p, a, b.drop_last());
    }
}

proof fn lemma_apply_sampler_optional(p: Sampler2dParams, changed: bool, c: SamplerChange)
    ensures
        apply_sampler_changes(p, if changed { seq![c] } else { Seq::<SamplerChange>::empty() }) == if changed {
            apply_sampler_change(p, c)
        } else {
            p
        },
{
    assert(seq![c].drop_last() =~= Seq::<SamplerChange>::empty());
    assert(seq![c].last() == c);
    assert(apply_sampler_changes(p, Seq::<SamplerChange>::empty()) == p);
    assert(apply_sampler_changes(p, seq![c]) == apply_sampler_change(
        apply_sampler_changes(p, seq![c].drop_last()),
        seq![c].last(),
    ));
}

/// Applying the changes that `set_delta` gives to a texture with the
/// settings `current` leaves it with the settings `new`.
pub proof fn lemma_sampler_changes_reach(new: Sampler2dParams, current: Sampler2dParams)
    ensures
        apply_sampler_changes(current, sampler_changes(new, current)) == new,
{
    let c1 = SamplerChange::MagFilter(new.mag_filter);
    let c2 = SamplerChange::MinFilter(new.min_filter);
    let c3 = SamplerChange::WrapS(new.wrap_s);
    let c4 = SamplerChange::WrapT(new.wrap_t);
    let b1 = new.mag_filter != current.mag_filter;
    let b2 = new.min_filter != current.min_filter;
    let b3 = new.wrap_s != current.wrap_s;
    let b4 = new.wrap_t != current.wrap_t;
    let m1 = if b1 { seq![c1] } else { Seq::<SamplerChange>::empty() };
    let m2 = if b2 { seq![c2] } else { Seq::<SamplerChange>::empty() };
    let m3 = if b3 { seq![c3] } else { Seq::<SamplerChange>::empty() };
    let m4 = if b4 { seq![c4] } else { Seq::<SamplerChange>::empty() };
    assert(sampler_changes(new, current) == m1 + m2 + m3 + m4);
    lemma_apply_sampler_append(current, m1 + m2 + m3, m4);
    lemma_apply_sampler_append(current, m1 + m2, m3);
    lemma_apply_sampler_append(current, m1, m2);
    let p1 = apply_sampler_changes(current, m1);
    let p2 = apply_sampler_changes(p1, m2);
    let p3 = apply_sampler_changes(p2, m3);
    lemma_apply_sampler_optional(current, b1, c1);
    lemma_apply_sampler_optional(p1, b2, c2);
    lemma_apply_sampler_optional(p2, b3, c3);
    lemma_apply_sampler_optional(p3, b4, c4);
}

} // verus!
