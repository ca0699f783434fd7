//! A per-provider table of target temperature ranges around one normalized
//! base value, built on the remap semantics of [`crate::scaling`].

use crate::scaling::{
    clamp_spec, in_bounds, lerp_spec, map_to_spec, Range, RangeModel, ENDPOINT_LIMIT,
    MICROS_PER_UNIT,
};
use vstd::prelude::*;

verus! {

/// An API target with its own valid temperature range: four fixed,
/// well-known kinds plus an open, named kind. Two `Custom` providers are
/// the same exactly when their labels are equal characterwise.
#[derive(Debug, Clone)]
pub enum LLMProvider {
    OpenAI,
    Anthropic,
    Gemini,
    Mistral,
    Custom(String),
}

/// Mathematical identity of a provider: the `Custom` label abstracted to
/// its character sequence.
pub enum ProviderId {
    OpenAI,
    Anthropic,
    Gemini,
    Mistral,
    Custom(Seq<char>),
}

impl View for LLMProvider {
    type V = ProviderId;

    open spec fn view(&self) -> ProviderId {
        match self {
            LLMProvider::OpenAI => ProviderId::OpenAI,
            LLMProvider::Anthropic => ProviderId::Anthropic,
            LLMProvider::Gemini => ProviderId::Gemini,
            LLMProvider::Mistral => ProviderId::Mistral,
            LLMProvider::Custom(s) => ProviderId::Custom(s@),
        }
    }
}

impl PartialEq for LLMProvider {
    fn eq(&self, other: &LLMProvider) -> (r: bool) {
        match (self, other) {
            (LLMProvider::OpenAI, LLMProvider::OpenAI) => true,
            (LLMProvider::Anthropic, LLMProvider::Anthropic) => true,
            (LLMProvider::Gemini, LLMProvider::Gemini) => true,
            (LLMProvider::Mistral, LLMProvider::Mistral) => true,
            (LLMProvider::Custom(a), LLMProvider::Custom(b)) => a.eq(b),
            _ => false,
        }
    }
}

impl vstd::std_specs::cmp::PartialEqSpecImpl for LLMProvider {
    open spec fn obeys_eq_spec() -> bool {
        true
    }

    open spec fn eq_spec(&self, other: &LLMProvider) -> bool {
        self@ == other@
    }
}

/// A provider's target temperature interval, in micro-units.
#[derive(Debug, Clone, Copy)]
pub struct TemperatureRange {
    pub min: i64,
    pub max: i64,
}

impl View for TemperatureRange {
    type V = RangeModel;

    open spec fn view(&self) -> RangeModel {
        RangeModel { min: self.min as int, max: self.max as int }
    }
}

/// The unit base range `[0, 1]` (in micro-units) that a normalized value
/// lives in.
pub open spec fn base_unit_range() -> RangeModel {
    RangeModel { min: 0, max: MICROS_PER_UNIT as int }
}

/// What `TemperatureRange::remap` returns: the normalized value clamped
/// into `[0, 1]` units and placed at that relative position within `t`.
pub open spec fn remap_spec(t: RangeModel, v: int) -> int {
    lerp_spec(t, clamp_spec(v, 0, MICROS_PER_UNIT as int), MICROS_PER_UNIT as int)
}

impl TemperatureRange {
    /// Endpoints small enough for the remap arithmetic.
    pub open spec fn wf(&self) -> bool {
        in_bounds(self@)
    }

    /// Remaps a normalized value (in micro-units of `[0, 1]`) into this
    /// range: the unit-base special case of the general mapper.
    pub fn remap(&self, normalized: i64) -> (r: i64)
        requires
            self.wf(),
        ensures
            r == remap_spec(self@, normalized as int),
    {
        let base = Range { min: 0, max: MICROS_PER_UNIT };
        let target = Range { min: self.min, max: self.max };
        base.map_to(target, normalized)
    }
}

/// The specialized remap and the general mapper agree: remapping a
/// normalized value into a range is exactly mapping it from the unit base
/// range into that range.
pub proof fn lemma_remap_matches_map_to(t: RangeModel, v: int)
    ensures
        remap_spec(t, v) == map_to_spec(base_unit_range(), t, v),
{
}

/// The mapping that a table of provider entries stands for: each entry's
/// provider identity bound to its range, later entries overriding earlier
/// ones (with unique keys, there is nothing to override).
pub open spec fn map_of(s: Seq<(LLMProvider, TemperatureRange)>) -> Map<ProviderId, RangeModel>
    decreases s.len(),
{
    if s.len() == 0 {
        Map::empty()
    } else {
        map_of(s.drop_last()).insert(s.last().0@, s.last().1@)
    }
}

/// No two entries are for the same provider.
pub open spec fn unique_keys(s: Seq<(LLMProvider, TemperatureRange)>) -> bool {
    forall|i: int, j: int| 0 <= i < j < s.len() ==> s[i].0@ != s[j].0@
}

proof fn lemma_unique_drop_last(s: Seq<(LLMProvider, TemperatureRange)>)
    requires
        unique_keys(s),
        s.len() > 0,
    ensures
        unique_keys(s.drop_last()),
{
    assert forall|i: int, j: int|
        0 <= i < j < s.drop_last().len() implies s.drop_last()[i].0@ != s.drop_last()[j].0@ by {
        assert(s.drop_last()[i] == s[i]);
        assert(s.drop_last()[j] == s[j]);
    }
}

/// A table's mapping holds a provider exactly when some entry is for it.
proof fn lemma_map_of_contains(s: Seq<(LLMProvider, TemperatureRange)>, k: ProviderId)
    ensures
        map_of(s).contains_key(k) <==> exists|i: int|
            0 <= i < s.len() && (#[trigger] s[i]).0@ == k,
    decreases s.len(),
{
    if s.len() > 0 {
        lemma_map_of_contains(s.drop_last(), k);
        if s.last().0@ == k {
            assert((s[s.len() - 1]).0@ == k);
        } else {
            if exists|i: int| 0 <= i < s.len() && (#[trigger] s[i]).0@ == k {
                let i = choose|i: int| 0 <= i < s.len() && (#[trigger] s[i]).0@ == k;
                assert(s.drop_last()[i] == s[i]);
            }
            if exists|i: int| 0 <= i < s.drop_last().len() && (#[trigger] s.drop_last()[i]).0@
                == k {
                let i = choose|i: int|
                    0 <= i < s.drop_last().len() && (#[trigger] s.drop_last()[i]).0@ == k;
                assert(s[i] == s.drop_last()[i]);
            }
        }
    }
}

/// With unique keys, the mapping sends each entry's provider to that
/// entry's range.
proof fn lemma_map_of_index(s: Seq<(LLMProvider, TemperatureRange)>, i: int)
    requires
        unique_keys(s),
        0 <= i < s.len(),
    ensures
        map_of(s).contains_key(s[i].0@),
        map_of(s)[s[i].0@] == s[i].1@,
    decreases s.len(),
{
    if i < s.len() - 1 {
        assert(s[s.len() - 1].0@ != s[i].0@);
        lemma_unique_drop_last(s);
        lemma_map_of_index(s.drop_last(), i);
        assert(s.drop_last()[i] == s[i]);
    }
}

/// Appending an entry inserts its binding into the mapping.
proof fn lemma_map_of_push(s: Seq<(LLMProvider, TemperatureRange)>, e: (LLMProvider, TemperatureRange))
    ensures
        map_of(s.push(e)) == map_of(s).insert(e.0@, e.1@),
{
    assert(s.push(e).drop_last() =~= s);
    assert(s.push(e).last() == e);
}

/// Overwriting the entry that already holds a provider's key inserts the
/// new binding into the mapping.
proof fn lemma_map_of_update(
    s: Seq<(LLMProvider, TemperatureRange)>,
    i: int,
    e: (LLMProvider, TemperatureRange),
)
    requires
        unique_keys(s),
        0 <= i < s.len(),
        s[i].0@ == e.0@,
    ensures
        map_of(s.update(i, e)) == map_of(s).insert(e.0@, e.1@),
    decreases s.len(),
{
    let su = s.update(i, e);
    if i == s.len() - 1 {
        assert(su.drop_last() =~= s.drop_last());
        assert(su.last() == e);
        assert(map_of(su) =~= map_of(s).insert(e.0@, e.1@));
    } else {
        assert(su.drop_last() =~= s.drop_last().update(i, e));
        assert(su.last() == s.last());
        assert(s[s.len() - 1].0@ != s[i].0@);
        lemma_unique_drop_last(s);
        lemma_map_of_update(s.drop_last(), i, e);
        assert(map_of(su) =~= map_of(s).insert(e.0@, e.1@));
    }
}

proof fn lemma_unique_after_update(
    s: Seq<(LLMProvider, TemperatureRange)>,
    i: int,
    e: (LLMProvider, TemperatureRange),
)
    requires
        unique_keys(s),
        0 <= i < s.len(),
        s[i].0@ == e.0@,
    ensures
        unique_keys(s.update(i, e)),
{
    let su = s.update(i, e);
    assert forall|a: int, b: int| 0 <= a < b < su.len() implies su[a].0@ != su[b].0@ by {
        assert(s[a].0@ != s[b].0@);
    }
}

proof fn lemma_unique_after_push(
    s: Seq<(LLMProvider, TemperatureRange)>,
    e: (LLMProvider, TemperatureRange),
)
    requires
        unique_keys(s),
        forall|j: int| 0 <= j < s.len() ==> (#[trigger] s[j]).0@ != e.0@,
    ensures
        unique_keys(s.push(e)),
{
    let sp = s.push(e);
    assert forall|a: int, b: int| 0 <= a < b < sp.len() implies sp[a].0@ != sp[b].0@ by {
        if b < s.len() {
            assert(s[a].0@ != s[b].0@);
        } else {
            assert(sp[a] == s[a]);
        }
    }
}

/// Mathematical model of a scaler: the clamped base value and the
/// provider-to-range mapping its table stands for.
pub struct ScalerModel {
    pub base: int,
    pub ranges: Map<ProviderId, RangeModel>,
}

/// The range used for an unconfigured provider: `[0, 1]` units.
pub open spec fn default_range() -> RangeModel {
    RangeModel { min: 0, max: MICROS_PER_UNIT as int }
}

/// The range a scaler uses for a provider: its configured one, or the
/// default for a provider with no entry.
pub open spec fn range_for(s: ScalerModel, p: ProviderId) -> RangeModel {
    if s.ranges.contains_key(p) {
        s.ranges[p]
    } else {
        default_range()
    }
}

/// What `for_provider` returns: the base value remapped into the range
/// the scaler uses for that provider.
pub open spec fn provider_temp(s: ScalerModel, p: ProviderId) -> int {
    remap_spec(range_for(s, p), s.base)
}

/// The four bindings every new scaler starts from.
pub open spec fn default_provider_ranges() -> Map<ProviderId, RangeModel> {
    map![
        ProviderId::OpenAI => RangeModel { min: 0, max: 2_000_000 },
        ProviderId::Anthropic => RangeModel { min: 0, max: 1_000_000 },
        ProviderId::Gemini => RangeModel { min: 0, max: 1_200_000 },
        ProviderId::Mistral => RangeModel { min: 0, max: 1_000_000 },
    ]
}

/// Holds one normalized control value and a table of per-provider target
/// ranges; produces the provider-specific temperature on demand.
#[derive(Debug, Clone)]
pub struct TemperatureScaler {
    /// Normalized temperature in micro-units of `[0, 1]`.
    pub base_normalized_temperature: i64,
    /// The target range per provider, each provider at most once.
    pub provider_ranges: Vec<(LLMProvider, TemperatureRange)>,
}

impl View for TemperatureScaler {
    type V = ScalerModel;

    open spec fn view(&self) -> ScalerModel {
        ScalerModel {
            base: self.base_normalized_temperature as int,
            ranges: map_of(self.provider_ranges@),
        }
    }
}

impl TemperatureScaler {
    /// The base value is a clamped normalized temperature, every stored
    /// range has workable endpoints, and no provider has two entries.
    pub open spec fn wf(&self) -> bool {
        &&& 0 <= self.base_normalized_temperature <= MICROS_PER_UNIT
        &&& forall|i: int|
            0 <= i < self.provider_ranges@.len() ==> (#[trigger] self.provider_ranges@[i]).1.wf()
        &&& unique_keys(self.provider_ranges@)
    }

    /// Builds a scaler around `base_normalized_temperature` (clamped into
    /// `[0, 1]` units), pre-populated with the four default provider
    /// ranges.
    pub fn new(base_normalized_temperature: i64) -> (r: TemperatureScaler)
        ensures
            r.wf(),
            r@.base == clamp_spec(base_normalized_temperature as int, 0, MICROS_PER_UNIT as int),
            r@.ranges == default_provider_ranges(),
    {
        let base: i64 = if base_normalized_temperature < 0 {
            0
        } else if base_normalized_temperature > MICROS_PER_UNIT {
            MICROS_PER_UNIT
        } else {
            base_normalized_temperature
        };
        let mut provider_ranges: Vec<(LLMProvider, TemperatureRange)> = Vec::new();
        provider_ranges.push((LLMProvider::OpenAI, TemperatureRange { min: 0, max: 2_000_000 }));
        provider_ranges.push((LLMProvider::Anthropic, TemperatureRange { min: 0, max: 1_000_000 }));
        provider_ranges.push((LLMProvider::Gemini, TemperatureRange { min: 0, max: 1_200_000 }));
        provider_ranges.push((LLMProvider::Mistral, TemperatureRange { min: 0, max: 1_000_000 }));
        proof {
            let e0 = (LLMProvider::OpenAI, TemperatureRange { min: 0i64, max: 2_000_000i64 });
            let e1 = (LLMProvider::Anthropic, TemperatureRange { min: 0i64, max: 1_000_000i64 });
            let e2 = (LLMProvider::Gemini, TemperatureRange { min: 0i64, max: 1_200_000i64 });
            let e3 = (LLMProvider::Mistral, TemperatureRange { min: 0i64, max: 1_000_000i64 });
            let s0 = Seq::<(LLMProvider, TemperatureRange)>::empty();
            assert(map_of(s0) == Map::<ProviderId, RangeModel>::empty());
            lemma_map_of_push(s0, e0);
            lemma_map_of_push(s0.push(e0), e1);
            lemma_map_of_push(s0.push(e0).push(e1), e2);
            lemma_map_of_push(s0.push(e0).push(e1).push(e2), e3);
            assert(provider_ranges@ == s0.push(e0).push(e1).push(e2).push(e3));
            assert(map_of(provider_ranges@) =~= default_provider_ranges());
        }
        TemperatureScaler { base_normalized_temperature: base, provider_ranges }
    }

    /// The position of the entry for `provider`, if the table has one.
    fn find_index(&self, provider: &LLMProvider) -> (r: Option<usize>)
        ensures
            match r {
                Some(i) => i < self.provider_ranges@.len() && self.provider_ranges@[i as int].0@
                    == provider@,
                None => forall|j: int|
                    0 <= j < self.provider_ranges@.len() ==> (#[trigger] self.provider_ranges@[j]).0@
                        != provider@,
            },
    {
        let n: usize = self.provider_ranges.len();
        let mut i: usize = 0;
        while i < n
            invariant
                i <= n,
                n == self.provider_ranges@.len(),
                forall|j: int|
                    0 <= j < i ==> (#[trigger] self.provider_ranges@[j]).0@ != provider@,
            decreases n - i,
        {
            if self.provider_ranges[i].0 == *provider {
                return Some(i);
            }
            i += 1;
        }
        None
    }

    /// The temperature to hand to `provider`: the base value remapped
    /// into the provider's configured range, or into the `[0, 1]` default
    /// for a provider with no entry. A pure query: the scaler is left
    /// untouched.
    pub fn for_provider(&self, provider: LLMProvider) -> (r: i64)
        requires
            self.wf(),
        ensures
            r == provider_temp(self@, provider@),
    {
        let range: TemperatureRange = match self.find_index(&provider) {
            Some(i) => {
                proof {
                    lemma_map_of_index(self.provider_ranges@, i as int);
                }
                self.provider_ranges[i].1
            },
            None => {
                proof {
                    lemma_map_of_contains(self.provider_ranges@, provider@);
                }
                TemperatureRange { min: 0, max: MICROS_PER_UNIT }
            },
        };
        range.remap(self.base_normalized_temperature)
    }

    /// Inserts or overwrites the target range for `provider`. No relation
    /// between `min` and `max` is asked for: an inverted range is kept as
    /// given and later queries respect it.
    pub fn set_range(&mut self, provider: LLMProvider, min: i64, max: i64)
        requires
            old(self).wf(),
            -ENDPOINT_LIMIT <= min <= ENDPOINT_LIMIT,
            -ENDPOINT_LIMIT <= max <= ENDPOINT_LIMIT,
        ensures
            final(self).wf(),
            final(self)@.base == old(self)@.base,
            final(self)@.ranges == old(self)@.ranges.insert(
                provider@,
                RangeModel { min: min as int, max: max as int },
            ),
    {
        let range = TemperatureRange { min, max };
        match self.find_index(&provider) {
            Some(i) => {
                proof {
                    lemma_unique_after_update(self.provider_ranges@, i as int, (provider, range));
                    lemma_map_of_update(self.provider_ranges@, i as int, (provider, range));
                }
                self.provider_ranges[i] = (provider, range);
            },
            None => {
                proof {
                    lemma_unique_after_push(self.provider_ranges@, (provider, range));
                    lemma_map_of_push(self.provider_ranges@, (provider, range));
                }
                self.provider_ranges.push((provider, range));
            },
        }
    }
}

/// Querying is idempotent: the contract of `for_provider` pins its result
/// to `provider_temp`, a function of the scaler's state and the provider
/// alone, so repeated calls on an unchanged scaler return identical
/// results.
pub proof fn lemma_for_provider_idempotent(s: ScalerModel, p: ProviderId, r1: int, r2: int)
    requires
        r1 == provider_temp(s, p),
        r2 == provider_temp(s, p),
    ensures
        r1 == r2,
{
}

} // verus!
