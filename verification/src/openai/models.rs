//! The model catalog: turning the provider's model list into model descriptors.
use vstd::prelude::*;

use crate::domain::{EffortLevel, GenerationLimits, ModelDescriptor};
use crate::text::{
    ascii_lowercase, chars_of, chars_start_with, eq_ignore_ascii_case, is_blank,
    lemma_seq_less_irreflexive, lemma_seq_less_total, lemma_seq_less_transitive, opt_view,
    seq_less, starts_with, str_eq_ignore_ascii_case, str_is, str_less, to_ascii_lowercase,
    trim_is_empty,
};

verus! {

/// One supported reasoning level of a model.
#[derive(Clone, Debug, PartialEq, Eq)]
pub struct ReasoningLevel {
    pub effort: String,
}

/// One model of the provider's catalog.
#[derive(Clone, Debug, PartialEq, Eq)]
pub struct ModelInfo {
    pub slug: String,
    pub display_name: Option<String>,
    pub description: Option<String>,
    pub default_reasoning_level: Option<String>,
    pub supported_reasoning_levels: Vec<ReasoningLevel>,
    pub visibility: Option<String>,
    pub priority: i32,
    pub context_window_tokens: Option<u64>,
    pub max_output_tokens: Option<u64>,
}

/// The catalog in any of the envelopes the provider uses.
#[derive(Clone, Debug, PartialEq, Eq)]
pub enum ModelsResponse {
    Models { models: Vec<ModelInfo> },
    Data { data: Vec<ModelInfo> },
    List(Vec<ModelInfo>),
}

impl ModelsResponse {
    /// The models, whichever envelope carried them.
    pub fn into_models(self) -> (models: Vec<ModelInfo>)
        ensures
            models == match self {
                ModelsResponse::Models { models } => models,
                ModelsResponse::Data { data } => data,
                ModelsResponse::List(models) => models,
            },
    {
        match self {
            ModelsResponse::Models { models } => models,
            ModelsResponse::Data { data } => data,
            ModelsResponse::List(models) => models,
        }
    }
}

/// The wire name of an effort level.
pub open spec fn effort_wire(e: EffortLevel) -> Seq<char> {
    match e {
        EffortLevel::NoReasoning => "none"@,
        EffortLevel::Minimal => "minimal"@,
        EffortLevel::Low => "low"@,
        EffortLevel::Medium => "medium"@,
        EffortLevel::High => "high"@,
        EffortLevel::XHigh => "xhigh"@,
        EffortLevel::Max => "max"@,
    }
}

/// The wire name of an effort level.
pub fn wire_value(e: EffortLevel) -> (name: &'static str)
    ensures
        name@ == effort_wire(e),
{
    match e {
        EffortLevel::NoReasoning => "none",
        EffortLevel::Minimal => "minimal",
        EffortLevel::Low => "low",
        EffortLevel::Medium => "medium",
        EffortLevel::High => "high",
        EffortLevel::XHigh => "xhigh",
        EffortLevel::Max => "max",
    }
}

/// The effort level with a wire name, if any.
pub open spec fn effort_from_wire_spec(value: Seq<char>) -> Option<EffortLevel> {
    if value == "none"@ {
        Some(EffortLevel::NoReasoning)
    } else if value == "minimal"@ {
        Some(EffortLevel::Minimal)
    } else if value == "low"@ {
        Some(EffortLevel::Low)
    } else if value == "medium"@ {
        Some(EffortLevel::Medium)
    } else if value == "high"@ {
        Some(EffortLevel::High)
    } else if value == "xhigh"@ {
        Some(EffortLevel::XHigh)
    } else if value == "max"@ {
        Some(EffortLevel::Max)
    } else {
        None
    }
}

/// Parses a wire name of an effort level.
pub fn effort_from_wire(value: &str) -> (e: Option<EffortLevel>)
    ensures
        e == effort_from_wire_spec(value@),
{
    if str_is(value, "none") {
        Some(EffortLevel::NoReasoning)
    } else if str_is(value, "minimal") {
        Some(EffortLevel::Minimal)
    } else if str_is(value, "low") {
        Some(EffortLevel::Low)
    } else if str_is(value, "medium") {
        Some(EffortLevel::Medium)
    } else if str_is(value, "high") {
        Some(EffortLevel::High)
    } else if str_is(value, "xhigh") {
        Some(EffortLevel::XHigh)
    } else if str_is(value, "max") {
        Some(EffortLevel::Max)
    } else {
        None
    }
}

/// The rank of an effort level, from least to most reasoning.
pub open spec fn effort_rank(e: EffortLevel) -> u8 {
    match e {
        EffortLevel::NoReasoning => 0,
        EffortLevel::Minimal => 1,
        EffortLevel::Low => 2,
        EffortLevel::Medium => 3,
        EffortLevel::High => 4,
        EffortLevel::XHigh => 5,
        EffortLevel::Max => 6,
    }
}

/// The rank of an effort level, from least to most reasoning.
pub fn effort_order(e: EffortLevel) -> (rank: u8)
    ensures
        rank == effort_rank(e),
{
    match e {
        EffortLevel::NoReasoning => 0,
        EffortLevel::Minimal => 1,
        EffortLevel::Low => 2,
        EffortLevel::Medium => 3,
        EffortLevel::High => 4,
        EffortLevel::XHigh => 5,
        EffortLevel::Max => 6,
    }
}

/// Every effort level, by rank.
pub open spec fn ranked_efforts() -> Seq<EffortLevel> {
    seq![
        EffortLevel::NoReasoning,
        EffortLevel::Minimal,
        EffortLevel::Low,
        EffortLevel::Medium,
        EffortLevel::High,
        EffortLevel::XHigh,
        EffortLevel::Max,
    ]
}

/// The levels a model supports when its catalog entry names none.
pub open spec fn default_efforts() -> Seq<EffortLevel> {
    seq![EffortLevel::Low, EffortLevel::Medium, EffortLevel::High, EffortLevel::XHigh, EffortLevel::Max]
}

/// The levels a model supports when its catalog entry names none.
pub fn all_efforts() -> (levels: Vec<EffortLevel>)
    ensures
        levels@ == default_efforts(),
{
    let levels = vec![EffortLevel::Low, EffortLevel::Medium, EffortLevel::High, EffortLevel::XHigh, EffortLevel::Max];
    assert(levels@ =~= default_efforts());
    levels
}

/// The effort levels named by a catalog entry that this client knows.
pub open spec fn parsed_efforts(levels: Seq<ReasoningLevel>) -> Seq<EffortLevel> {
    levels.map_values(|l: ReasoningLevel| effort_from_wire_spec(l.effort@)).filter(|o: Option<EffortLevel>| o is Some).map_values(|o: Option<EffortLevel>| o->0)
}

/// Whether some level of the entry names `e`.
pub open spec fn names_effort(levels: Seq<ReasoningLevel>, e: EffortLevel) -> bool {
    exists|i: int| 0 <= i < levels.len() && effort_from_wire_spec(#[trigger] levels[i].effort@) == Some(e)
}

/// The distinct named levels ordered by rank (the named levels sorted by rank and
/// deduplicated), or the default levels when none is named.
pub open spec fn supported_efforts_spec(levels: Seq<ReasoningLevel>) -> Seq<EffortLevel> {
    let named = ranked_efforts().filter(|e: EffortLevel| names_effort(levels, e));
    if named.len() == 0 {
        default_efforts()
    } else {
        named
    }
}

fn names(levels: &Vec<ReasoningLevel>, e: EffortLevel) -> (b: bool)
    ensures
        b == names_effort(levels@, e),
{
    let mut i: usize = 0;
    while i < levels.len()
        invariant
            i <= levels@.len(),
            forall|j: int| 0 <= j < i ==> effort_from_wire_spec(#[trigger] levels@[j].effort@) != Some(e),
        decreases levels.len() - i,
    {
        if effort_from_wire(levels[i].effort.as_str()) == Some(e) {
            return true;
        }
        i += 1;
    }
    false
}

/// The levels a model supports.
pub fn supported_efforts(levels: &Vec<ReasoningLevel>) -> (efforts: Vec<EffortLevel>)
    ensures
        efforts@ == supported_efforts_spec(levels@),
        efforts@.len() > 0,
{
    let ranked = vec![
        EffortLevel::NoReasoning,
        EffortLevel::Minimal,
        EffortLevel::Low,
        EffortLevel::Medium,
        EffortLevel::High,
        EffortLevel::XHigh,
        EffortLevel::Max,
    ];
    assert(ranked@ =~= ranked_efforts());
    let ghost pred = |e: EffortLevel| names_effort(levels@, e);
    let mut named: Vec<EffortLevel> = Vec::new();
    let mut i: usize = 0;
    while i < ranked.len()
        invariant
            i <= ranked@.len(),
            ranked@ == ranked_efforts(),
            pred == (|e: EffortLevel| names_effort(levels@, e)),
            named@ == ranked@.take(i as int).filter(pred),
        decreases ranked.len() - i,
    {
        proof {
            assert(ranked@.take(i + 1).drop_last() =~= ranked@.take(i as int));
            reveal_with_fuel(Seq::filter, 1);
        }
        if names(levels, ranked[i]) {
            named.push(ranked[i]);
        }
        i += 1;
    }
    assert(ranked@.take(ranked@.len() as int) =~= ranked@);
    if named.len() == 0 {
        all_efforts()
    } else {
        named
    }
}

/// The provider's own limits, when both are given, positive, and the output limit is
/// below the context window.
pub open spec fn valid_limits_spec(context: Option<u64>, output: Option<u64>) -> Option<GenerationLimits> {
    match (context, output) {
        (Some(c), Some(o)) => if c > 0 && o > 0 && o < c {
            Some(GenerationLimits { context_window_tokens: c, max_output_tokens: o })
        } else {
            None
        },
        _ => None,
    }
}

/// The provider's own limits, when they are usable.
pub fn valid_limits(context: Option<u64>, output: Option<u64>) -> (limits: Option<GenerationLimits>)
    ensures
        limits == valid_limits_spec(context, output),
{
    match (context, output) {
        (Some(c), Some(o)) => {
            if c > 0 && o > 0 && o < c {
                Some(GenerationLimits { context_window_tokens: c, max_output_tokens: o })
            } else {
                None
            }
        },
        _ => None,
    }
}

/// The limits this client knows for a model family, by slug prefix (ignoring ASCII
/// case); unknown models get unknown limits.
pub open spec fn known_limits_spec(slug: Seq<char>) -> GenerationLimits {
    let model = ascii_lowercase(slug);
    if starts_with(model, "gpt-5.4-mini"@) {
        GenerationLimits { context_window_tokens: 400_000, max_output_tokens: 128_000 }
    } else if starts_with(model, "gpt-6-astra"@) || starts_with(model, "gpt-5.6-"@) || starts_with(
        model,
        "gpt-5.5"@,
    ) || starts_with(model, "gpt-5.4"@) {
        GenerationLimits { context_window_tokens: 1_050_000, max_output_tokens: 128_000 }
    } else {
        GenerationLimits { context_window_tokens: 0, max_output_tokens: 0 }
    }
}

/// The limits this client knows for a model.
pub fn known_model_limits(slug: &str) -> (limits: GenerationLimits)
    ensures
        limits == known_limits_spec(slug@),
{
    let model = to_ascii_lowercase(slug);
    if chars_start_with(&model, "gpt-5.4-mini") {
        GenerationLimits { context_window_tokens: 400_000, max_output_tokens: 128_000 }
    } else if chars_start_with(&model, "gpt-6-astra") || chars_start_with(&model, "gpt-5.6-")
        || chars_start_with(&model, "gpt-5.5") || chars_start_with(&model, "gpt-5.4") {
        GenerationLimits { context_window_tokens: 1_050_000, max_output_tokens: 128_000 }
    } else {
        GenerationLimits { context_window_tokens: 0, max_output_tokens: 0 }
    }
}

/// Whether a catalog entry is shown: it has no visibility, or one other than
/// `hide`/`hidden` in any ASCII case.
pub open spec fn is_visible(model: ModelInfo) -> bool {
    match model.visibility {
        None => true,
        Some(v) => !eq_ignore_ascii_case(v@, "hide"@) && !eq_ignore_ascii_case(v@, "hidden"@),
    }
}

fn visible(model: &ModelInfo) -> (b: bool)
    ensures
        b == is_visible(*model),
{
    match &model.visibility {
        None => true,
        Some(v) => !str_eq_ignore_ascii_case(v.as_str(), "hide") && !str_eq_ignore_ascii_case(v.as_str(), "hidden"),
    }
}

/// A descriptor as plain values.
pub struct DescriptorView {
    pub provider: Seq<char>,
    pub id: Seq<char>,
    pub display_name: Seq<char>,
    pub description: Option<Seq<char>>,
    pub priority: i32,
    pub default_effort: EffortLevel,
    pub supported_efforts: Seq<EffortLevel>,
    pub limits: GenerationLimits,
}

pub open spec fn descriptor_view(d: ModelDescriptor) -> DescriptorView {
    DescriptorView {
        provider: d.provider@,
        id: d.id@,
        display_name: d.display_name@,
        description: opt_view(d.description),
        priority: d.priority,
        default_effort: d.default_effort,
        supported_efforts: d.supported_efforts@,
        limits: d.limits,
    }
}

/// The descriptor of a catalog entry: the display name falls back to the slug; an
/// entry whose slug or display name is blank is dropped; the default effort is the
/// named default when supported, else the first supported level; limits come from
/// the entry when usable, else from the known families.
pub open spec fn model_descriptor_spec(model: ModelInfo) -> Option<DescriptorView> {
    let display = match model.display_name {
        Some(d) => d@,
        None => model.slug@,
    };
    if is_blank(model.slug@) || is_blank(display) {
        None
    } else {
        let supported = supported_efforts_spec(model.supported_reasoning_levels@);
        let named_default = match model.default_reasoning_level {
            Some(d) => effort_from_wire_spec(d@),
            None => None,
        };
        let default_effort = match named_default {
            Some(e) => if supported.contains(e) {
                e
            } else {
                supported[0]
            },
            None => supported[0],
        };
        Some(
            DescriptorView {
                provider: "openai"@,
                id: model.slug@,
                display_name: display,
                description: opt_view(model.description),
                priority: model.priority,
                default_effort,
                supported_efforts: supported,
                limits: match valid_limits_spec(model.context_window_tokens, model.max_output_tokens) {
                    Some(l) => l,
                    None => known_limits_spec(model.slug@),
                },
            },
        )
    }
}

fn contains_effort(efforts: &Vec<EffortLevel>, e: EffortLevel) -> (b: bool)
    ensures
        b == efforts@.contains(e),
{
    let mut i: usize = 0;
    while i < efforts.len()
        invariant
            i <= efforts@.len(),
            forall|j: int| 0 <= j < i ==> efforts@[j] != e,
        decreases efforts.len() - i,
    {
        if efforts[i] == e {
            return true;
        }
        i += 1;
    }
    false
}

/// The descriptor of one catalog entry, if it is usable.
pub fn model_descriptor(model: ModelInfo) -> (descriptor: Option<ModelDescriptor>)
    ensures
        match descriptor {
            Some(d) => model_descriptor_spec(model) == Some(descriptor_view(d)),
            None => model_descriptor_spec(model) is None,
        },
{
    let display_name = match &model.display_name {
        Some(d) => d.clone(),
        None => model.slug.clone(),
    };
    if trim_is_empty(model.slug.as_str()) || trim_is_empty(display_name.as_str()) {
        return None;
    }
    let supported_efforts = supported_efforts(&model.supported_reasoning_levels);
    let named_default = match &model.default_reasoning_level {
        Some(d) => effort_from_wire(d.as_str()),
        None => None,
    };
    let default_effort = match named_default {
        Some(e) => {
            if contains_effort(&supported_efforts, e) {
                e
            } else {
                supported_efforts[0]
            }
        },
        None => supported_efforts[0],
    };
    let limits = match valid_limits(model.context_window_tokens, model.max_output_tokens) {
        Some(l) => l,
        None => known_model_limits(model.slug.as_str()),
    };
    let mut provider = String::new();
    crate::text::append_str(&mut provider, "openai");
    Some(ModelDescriptor {
        provider,
        id: model.slug,
        display_name,
        description: model.description,
        priority: model.priority,
        default_effort,
        supported_efforts,
        limits,
    })
}

/// The catalog order: higher priority first, then by id.
pub open spec fn descriptor_before(a: DescriptorView, b: DescriptorView) -> bool {
    a.priority > b.priority || (a.priority == b.priority && seq_less(a.id, b.id))
}

/// Where `x` goes in `sorted`: after every element that it does not come before.
pub open spec fn insert_sorted(sorted: Seq<DescriptorView>, x: DescriptorView) -> Seq<DescriptorView>
    decreases sorted.len(),
{
    if sorted.len() == 0 {
        seq![x]
    } else if descriptor_before(x, sorted.last()) {
        insert_sorted(sorted.drop_last(), x).push(sorted.last())
    } else {
        sorted.push(x)
    }
}

/// The stable sort of `s` in catalog order.
pub open spec fn sort_descriptors(s: Seq<DescriptorView>) -> Seq<DescriptorView>
    decreases s.len(),
{
    if s.len() == 0 {
        Seq::empty()
    } else {
        insert_sorted(sort_descriptors(s.drop_last()), s.last())
    }
}

/// The descriptors of the visible, usable entries, in catalog order.
pub open spec fn usable_descriptors(models: Seq<ModelInfo>) -> Seq<DescriptorView>
    decreases models.len(),
{
    if models.len() == 0 {
        Seq::empty()
    } else {
        let prev = usable_descriptors(models.drop_last());
        let m = models.last();
        if is_visible(m) && model_descriptor_spec(m) is Some {
            prev.push(model_descriptor_spec(m)->0)
        } else {
            prev
        }
    }
}

pub open spec fn descriptors_view(v: Seq<ModelDescriptor>) -> Seq<DescriptorView> {
    v.map_values(|d: ModelDescriptor| descriptor_view(d))
}

pub open spec fn models_of(response: ModelsResponse) -> Seq<ModelInfo> {
    match response {
        ModelsResponse::Models { models } => models@,
        ModelsResponse::Data { data } => data@,
        ModelsResponse::List(models) => models@,
    }
}

fn comes_before(x: &ModelDescriptor, y: &ModelDescriptor) -> (b: bool)
    ensures
        b == descriptor_before(descriptor_view(*x), descriptor_view(*y)),
{
    x.priority > y.priority || (x.priority == y.priority && str_less(x.id.as_str(), y.id.as_str()))
}

fn insert_descriptor(sorted: &mut Vec<ModelDescriptor>, x: ModelDescriptor)
    ensures
        descriptors_view(final(sorted)@) == insert_sorted(descriptors_view(old(sorted)@), descriptor_view(x)),
{
    let ghost xv = descriptor_view(x);
    let ghost old_view = descriptors_view(sorted@);
    let mut k = sorted.len();
    assert(old_view.take(k as int) =~= old_view);
    assert(old_view.skip(k as int) =~= Seq::<DescriptorView>::empty());
    let mut go = k > 0 && comes_before(&x, &sorted[k - 1]);
    while go
        invariant
            k <= sorted@.len(),
            sorted@.len() == old_view.len(),
            descriptors_view(sorted@) == old_view,
            xv == descriptor_view(x),
            insert_sorted(old_view, xv) == insert_sorted(old_view.take(k as int), xv) + old_view.skip(k as int),
            go == (k > 0 && descriptor_before(xv, old_view[k - 1])),
        decreases k,
    {
        proof {
            assert(old_view.take(k as int).drop_last() =~= old_view.take(k - 1));
            assert(old_view.take(k as int).last() == old_view[k - 1]);
            assert(old_view.skip(k - 1) =~= seq![old_view[k - 1]] + old_view.skip(k as int));
            assert(insert_sorted(old_view.take(k as int), xv) == insert_sorted(old_view.take(k - 1), xv).push(
                old_view[k - 1],
            ));
            assert(insert_sorted(old_view.take(k - 1), xv).push(old_view[k - 1]) + old_view.skip(k as int)
                =~= insert_sorted(old_view.take(k - 1), xv) + old_view.skip(k - 1));
        }
        k = k - 1;
        go = k > 0 && comes_before(&x, &sorted[k - 1]);
    }
    proof {
        if k > 0 {
            assert(old_view.take(k as int).last() == old_view[k - 1]);
            assert(!descriptor_before(xv, old_view.take(k as int).last()));
            assert(insert_sorted(old_view.take(k as int), xv) == old_view.take(k as int).push(xv));
        } else {
            assert(old_view.take(0) =~= Seq::<DescriptorView>::empty());
        }
    }
    sorted.insert(k, x);
    proof {
        assert(descriptors_view(sorted@) =~= old_view.take(k as int).push(xv) + old_view.skip(k as int));
    }
}

/// The descriptors of the catalog's visible, usable models, higher priority first
/// and then by id (models that tie keep their catalog order). Each is well formed, and
/// a descriptor is listed exactly when a visible model of the catalog gives it.
pub fn model_descriptors(response: ModelsResponse) -> (descriptors: Vec<ModelDescriptor>)
    ensures
        descriptors_view(descriptors@) == sort_descriptors(usable_descriptors(models_of(response))),
        forall|i: int| 0 <= i < descriptors@.len() ==> well_formed_descriptor(
            #[trigger] descriptors_view(descriptors@)[i],
        ),
        in_catalog_order(descriptors_view(descriptors@)),
        forall|d: DescriptorView| #[trigger] descriptors_view(descriptors@).contains(d) <==> offered_by(
            models_of(response),
            d,
        ),
{
    let ghost all = models_of(response);
    let mut models = response.into_models();
    let mut sorted: Vec<ModelDescriptor> = Vec::new();
    let ghost mut usable: Seq<DescriptorView> = Seq::empty();
    let ghost mut i: int = 0;
    assert(all.take(0) =~= Seq::<ModelInfo>::empty());
    while models.len() > 0
        invariant
            0 <= i <= all.len(),
            models@ == all.skip(i),
            usable == usable_descriptors(all.take(i)),
            descriptors_view(sorted@) == sort_descriptors(usable),
        decreases models.len(),
    {
        proof {
            assert(all.take(i + 1).drop_last() =~= all.take(i));
            assert(all.take(i + 1).last() == all[i]);
            assert(all.skip(i)[0] == all[i]);
        }
        let model = models.remove(0);
        let shown = visible(&model);
        if shown {
            match model_descriptor(model) {
                Some(d) => {
                    proof {
                        usable = usable.push(descriptor_view(d));
                    }
                    insert_descriptor(&mut sorted, d);
                    proof {
                        assert(usable.drop_last() =~= usable_descriptors(all.take(i)));
                    }
                },
                None => {},
            }
        }
        proof {
            i = i + 1;
            assert(models@ =~= all.skip(i));
        }
    }
    proof {
        assert(all.skip(i).len() == 0);
        assert(all.take(i) =~= all);
        lemma_catalog_descriptors_well_formed(all);
        lemma_catalog_membership(all);
    }
    sorted
}

/// Whether descriptors are in catalog order: none comes before an earlier one.
pub open spec fn in_catalog_order(s: Seq<DescriptorView>) -> bool {
    forall|i: int, j: int| 0 <= i < j < s.len() ==> !descriptor_before(#[trigger] s[j], #[trigger] s[i])
}

proof fn lemma_not_before_transitive(a: DescriptorView, b: DescriptorView, c: DescriptorView)
    requires
        !descriptor_before(a, b),
        !descriptor_before(b, c),
    ensures
        !descriptor_before(a, c),
{
    if descriptor_before(a, c) {
        if a.priority == b.priority && b.priority == c.priority {
            if a.id == b.id {
            } else {
                lemma_seq_less_total(a.id, b.id);
                lemma_seq_less_transitive(b.id, a.id, c.id);
            }
        }
    }
}

proof fn lemma_insert_sorted_ordered(t: Seq<DescriptorView>, x: DescriptorView)
    requires
        in_catalog_order(t),
    ensures
        in_catalog_order(insert_sorted(t, x)),
        insert_sorted(t, x).to_multiset() == t.to_multiset().insert(x),
        forall|e: DescriptorView| #[trigger] insert_sorted(t, x).contains(e) <==> (t.contains(e) || e == x),
    decreases t.len(),
{
    broadcast use vstd::seq_lib::group_to_multiset_ensures;
    let r = insert_sorted(t, x);
    if t.len() == 0 {
        assert(r =~= t.push(x));
    } else if descriptor_before(x, t.last()) {
        let t0 = t.drop_last();
        assert(in_catalog_order(t0)) by {
            assert forall|i: int, j: int| 0 <= i < j < t0.len() implies !descriptor_before(#[trigger] t0[j], #[trigger] t0[i]) by {
                assert(t0[i] == t[i] && t0[j] == t[j]);
            }
        }
        lemma_insert_sorted_ordered(t0, x);
        let r0 = insert_sorted(t0, x);
        assert(r == r0.push(t.last()));
        assert forall|i: int, j: int| 0 <= i < j < r.len() implies !descriptor_before(#[trigger] r[j], #[trigger] r[i]) by {
            if j == r.len() - 1 {
                assert(r[j] == t.last());
                assert(r0[i] == r[i]);
                assert(r0.contains(r[i]));
                if r[i] != x {
                    assert(t0.contains(r[i]));
                    let k = choose|k: int| 0 <= k < t0.len() && t0[k] == r[i];
                    assert(t[k] == t0[k]);
                    assert(!descriptor_before(t[t.len() - 1], t[k]));
                } else {
                    if descriptor_before(t.last(), x) {
                        if x.priority == t.last().priority {
                            lemma_seq_less_transitive(x.id, t.last().id, x.id);
                            lemma_seq_less_irreflexive(x.id);
                        }
                    }
                }
            } else {
                assert(r[i] == r0[i] && r[j] == r0[j]);
            }
        }
        assert(t =~= t0.push(t.last()));
        assert forall|e: DescriptorView| #[trigger] r.contains(e) <==> (t.contains(e) || e == x) by {
            if r.contains(e) {
                let k = choose|k: int| 0 <= k < r.len() && r[k] == e;
                if k < r.len() - 1 {
                    assert(r0[k] == e);
                    assert(r0.contains(e));
                    if e != x {
                        let m = choose|m: int| 0 <= m < t0.len() && t0[m] == e;
                        assert(t[m] == e);
                    }
                } else {
                    assert(t[t.len() - 1] == e);
                }
            }
            if t.contains(e) {
                let k = choose|k: int| 0 <= k < t.len() && t[k] == e;
                if k < t.len() - 1 {
                    assert(t0[k] == e);
                    assert(t0.contains(e));
                    assert(r0.contains(e));
                    let m = choose|m: int| 0 <= m < r0.len() && r0[m] == e;
                    assert(r[m] == e);
                } else {
                    assert(r[r.len() - 1] == e);
                }
            }
            if e == x {
                assert(r0.contains(x));
                let m = choose|m: int| 0 <= m < r0.len() && r0[m] == x;
                assert(r[m] == x);
            }
        }
    } else {
        assert(r == t.push(x));
        assert forall|i: int, j: int| 0 <= i < j < r.len() implies !descriptor_before(#[trigger] r[j], #[trigger] r[i]) by {
            if j == r.len() - 1 {
                assert(r[j] == x);
                assert(r[i] == t[i]);
                if i < t.len() - 1 {
                    assert(!descriptor_before(t[t.len() - 1], t[i]));
                    lemma_not_before_transitive(x, t[t.len() - 1], t[i]);
                }
            } else {
                assert(r[i] == t[i] && r[j] == t[j]);
            }
        }
        assert forall|e: DescriptorView| #[trigger] r.contains(e) <==> (t.contains(e) || e == x) by {
            if r.contains(e) {
                let k = choose|k: int| 0 <= k < r.len() && r[k] == e;
                if k < t.len() {
                    assert(t[k] == e);
                }
            }
            if t.contains(e) {
                let k = choose|k: int| 0 <= k < t.len() && t[k] == e;
                assert(r[k] == e);
            }
            if e == x {
                assert(r[r.len() - 1] == x);
            }
        }
    }
}

/// The catalog is sorted: the descriptors come in catalog order, and exactly the usable
/// ones appear.
pub proof fn lemma_catalog_is_sorted(s: Seq<DescriptorView>)
    ensures
        in_catalog_order(sort_descriptors(s)),
        sort_descriptors(s).to_multiset() == s.to_multiset(),
    decreases s.len(),
{
    broadcast use vstd::seq_lib::group_to_multiset_ensures;
    if s.len() == 0 {
        assert(s =~= Seq::<DescriptorView>::empty());
    } else {
        let s0 = s.drop_last();
        lemma_catalog_is_sorted(s0);
        lemma_insert_sorted_ordered(sort_descriptors(s0), s.last());
        assert(s =~= s0.push(s.last()));
    }
}

/// Levels in strictly increasing rank.
pub open spec fn strictly_ranked(levels: Seq<EffortLevel>) -> bool {
    forall|i: int, j: int| 0 <= i < j < levels.len() ==> effort_rank(#[trigger] levels[i]) < effort_rank(#[trigger] levels[j])
}

/// A descriptor as the catalog gives it: offered by OpenAI, with a non-blank id and
/// name, a non-empty list of supported levels in rank order without repeats, and a
/// default level among them.
pub open spec fn well_formed_descriptor(d: DescriptorView) -> bool {
    &&& d.provider == "openai"@
    &&& !is_blank(d.id)
    &&& !is_blank(d.display_name)
    &&& d.supported_efforts.len() > 0
    &&& strictly_ranked(d.supported_efforts)
    &&& d.supported_efforts.contains(d.default_effort)
}

proof fn lemma_filter_ranked(s: Seq<EffortLevel>, pred: spec_fn(EffortLevel) -> bool)
    requires
        strictly_ranked(s),
    ensures
        strictly_ranked(s.filter(pred)),
        forall|i: int| 0 <= i < s.filter(pred).len() ==> s.contains(#[trigger] s.filter(pred)[i]),
    decreases s.len(),
{
    reveal_with_fuel(Seq::filter, 1);
    if s.len() > 0 {
        let s0 = s.drop_last();
        assert(strictly_ranked(s0)) by {
            assert forall|i: int, j: int| 0 <= i < j < s0.len() implies effort_rank(#[trigger] s0[i]) < effort_rank(#[trigger] s0[j]) by {
                assert(s0[i] == s[i] && s0[j] == s[j]);
            }
        }
        lemma_filter_ranked(s0, pred);
        let f0 = s0.filter(pred);
        let f = s.filter(pred);
        assert forall|i: int| 0 <= i < f0.len() implies s.contains(#[trigger] f0[i]) && effort_rank(f0[i]) < effort_rank(s.last()) by {
            assert(s0.contains(f0[i]));
            let k = choose|k: int| 0 <= k < s0.len() && s0[k] == f0[i];
            assert(s[k] == s0[k]);
        }
        if pred(s.last()) {
            assert(f == f0.push(s.last()));
            assert forall|i: int, j: int| 0 <= i < j < f.len() implies effort_rank(#[trigger] f[i]) < effort_rank(#[trigger] f[j]) by {
                assert(f[i] == f0[i]);
                if j < f0.len() {
                    assert(f[j] == f0[j]);
                }
            }
            assert forall|i: int| 0 <= i < f.len() implies s.contains(#[trigger] f[i]) by {
                if i < f0.len() {
                    assert(f[i] == f0[i]);
                } else {
                    assert(s[s.len() - 1] == f[i]);
                }
            }
        } else {
            assert(f == f0);
        }
    }
}

proof fn lemma_descriptor_well_formed(model: ModelInfo)
    requires
        model_descriptor_spec(model) is Some,
    ensures
        well_formed_descriptor(model_descriptor_spec(model)->0),
{
    let levels = model.supported_reasoning_levels@;
    let pred = |e: EffortLevel| names_effort(levels, e);
    assert(strictly_ranked(ranked_efforts()));
    lemma_filter_ranked(ranked_efforts(), pred);
    assert(strictly_ranked(default_efforts()));
    let supported = supported_efforts_spec(levels);
    assert(supported.len() > 0);
    assert(supported.contains(supported[0]));
}

proof fn lemma_usable_well_formed(models: Seq<ModelInfo>)
    ensures
        forall|i: int| 0 <= i < usable_descriptors(models).len() ==> well_formed_descriptor(
            #[trigger] usable_descriptors(models)[i],
        ),
    decreases models.len(),
{
    if models.len() > 0 {
        lemma_usable_well_formed(models.drop_last());
        let m = models.last();
        if is_visible(m) && model_descriptor_spec(m) is Some {
            lemma_descriptor_well_formed(m);
            let prev = usable_descriptors(models.drop_last());
            assert forall|i: int| 0 <= i < usable_descriptors(models).len() implies well_formed_descriptor(
                #[trigger] usable_descriptors(models)[i],
            ) by {
                if i < prev.len() {
                    assert(usable_descriptors(models)[i] == prev[i]);
                }
            }
        } else {
            assert(usable_descriptors(models) == usable_descriptors(models.drop_last()));
        }
    }
}

/// Every descriptor of the catalog is well formed: offered by OpenAI, with a non-blank
/// id and name, a non-empty list of supported levels in rank order, and a default
/// among them; and the catalog comes ordered by priority, highest first, then by id.
pub proof fn lemma_catalog_descriptors_well_formed(models: Seq<ModelInfo>)
    ensures
        forall|i: int| 0 <= i < sort_descriptors(usable_descriptors(models)).len() ==> well_formed_descriptor(
            #[trigger] sort_descriptors(usable_descriptors(models))[i],
        ),
        in_catalog_order(sort_descriptors(usable_descriptors(models))),
{
    broadcast use vstd::seq_lib::group_to_multiset_ensures;
    let usable = usable_descriptors(models);
    let sorted = sort_descriptors(usable);
    lemma_usable_well_formed(models);
    lemma_catalog_is_sorted(usable);
    assert forall|i: int| 0 <= i < sorted.len() implies well_formed_descriptor(#[trigger] sorted[i]) by {
        assert(sorted.to_multiset().count(sorted[i]) > 0);
        assert(usable.to_multiset().count(sorted[i]) > 0);
        assert(usable.contains(sorted[i]));
        let k = choose|k: int| 0 <= k < usable.len() && usable[k] == sorted[i];
        assert(well_formed_descriptor(usable[k]));
    }
}

/// Whether a descriptor is that of a visible entry of the catalog.
pub open spec fn offered_by(models: Seq<ModelInfo>, d: DescriptorView) -> bool {
    exists|i: int| 0 <= i < models.len() && is_visible(models[i]) && #[trigger] model_descriptor_spec(models[i]) == Some(d)
}

proof fn lemma_usable_members(models: Seq<ModelInfo>)
    ensures
        forall|d: DescriptorView| #[trigger] usable_descriptors(models).contains(d) <==> offered_by(models, d),
    decreases models.len(),
{
    if models.len() > 0 {
        let rest = models.drop_last();
        lemma_usable_members(rest);
        let m = models.last();
        let prev = usable_descriptors(rest);
        let now = usable_descriptors(models);
        assert forall|d: DescriptorView| #[trigger] now.contains(d) <==> offered_by(models, d) by {
            if now.contains(d) {
                let k = choose|k: int| 0 <= k < now.len() && now[k] == d;
                if k < prev.len() && (is_visible(m) && model_descriptor_spec(m) is Some) {
                    assert(now[k] == prev[k]);
                    assert(prev.contains(d));
                } else if !(is_visible(m) && model_descriptor_spec(m) is Some) {
                    assert(prev.contains(d));
                }
                if prev.contains(d) {
                    assert(offered_by(rest, d));
                    let i = choose|i: int| 0 <= i < rest.len() && is_visible(rest[i]) && #[trigger] model_descriptor_spec(rest[i]) == Some(d);
                    assert(models[i] == rest[i]);
                } else {
                    assert(model_descriptor_spec(models[models.len() - 1]) == Some(d));
                }
            }
            if offered_by(models, d) {
                let i = choose|i: int| 0 <= i < models.len() && is_visible(models[i]) && #[trigger] model_descriptor_spec(models[i]) == Some(d);
                if i < rest.len() {
                    assert(rest[i] == models[i]);
                    assert(offered_by(rest, d));
                    assert(prev.contains(d));
                    let k = choose|k: int| 0 <= k < prev.len() && prev[k] == d;
                    if is_visible(m) && model_descriptor_spec(m) is Some {
                        assert(now[k] == prev[k]);
                    }
                } else {
                    assert(now[now.len() - 1] == d);
                }
            }
        }
    }
}

/// The catalog holds exactly the descriptors of its visible entries: each descriptor
/// shown is that of a visible entry whose slug and name are not blank, and each such
/// entry is shown.
pub proof fn lemma_catalog_membership(models: Seq<ModelInfo>)
    ensures
        forall|d: DescriptorView| #[trigger] sort_descriptors(usable_descriptors(models)).contains(d) <==> offered_by(models, d),
{
    broadcast use vstd::seq_lib::group_to_multiset_ensures;
    lemma_usable_members(models);
    let usable = usable_descriptors(models);
    let sorted = sort_descriptors(usable);
    lemma_catalog_is_sorted(usable);
    assert forall|d: DescriptorView| #[trigger] sorted.contains(d) <==> offered_by(models, d) by {
        assert(sorted.contains(d) <==> sorted.to_multiset().count(d) > 0);
        assert(usable.contains(d) <==> usable.to_multiset().count(d) > 0);
    }
}

/// The large model families have known limits of 1,050,000 context tokens and 128,000
/// output tokens: every slug that starts, in any ASCII case, with `gpt-6-astra`,
/// `gpt-5.6-`, `gpt-5.5`, or `gpt-5.4` but not `gpt-5.4-mini`; `gpt-5.4-mini` slugs have
/// 400,000 and 128,000.
pub proof fn lemma_known_family_limits(slug: Seq<char>)
    ensures
        ({
            let model = ascii_lowercase(slug);
            (starts_with(model, "gpt-6-astra"@) || starts_with(model, "gpt-5.6-"@) || starts_with(model, "gpt-5.5"@)
                || (starts_with(model, "gpt-5.4"@) && !starts_with(model, "gpt-5.4-mini"@))) ==> known_limits_spec(slug)
                == (GenerationLimits { context_window_tokens: 1_050_000, max_output_tokens: 128_000 })
        }),
        starts_with(ascii_lowercase(slug), "gpt-5.4-mini"@) ==> known_limits_spec(slug) == (GenerationLimits {
            context_window_tokens: 400_000,
            max_output_tokens: 128_000,
        }),
{
    let model = ascii_lowercase(slug);
    reveal_strlit("gpt-5.4-mini");
    reveal_strlit("gpt-6-astra");
    reveal_strlit("gpt-5.6-");
    reveal_strlit("gpt-5.5");
    if starts_with(model, "gpt-5.4-mini"@) {
        if starts_with(model, "gpt-6-astra"@) {
            assert(model[4] == "gpt-5.4-mini"@[4]);
            assert(model[4] == "gpt-6-astra"@[4]);
        }
        if starts_with(model, "gpt-5.6-"@) {
            assert(model[6] == "gpt-5.4-mini"@[6]);
            assert(model[6] == "gpt-5.6-"@[6]);
        }
        if starts_with(model, "gpt-5.5"@) {
            assert(model[6] == "gpt-5.4-mini"@[6]);
            assert(model[6] == "gpt-5.5"@[6]);
        }
    }
}

} // verus!
