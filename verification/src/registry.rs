//! The registry of one scrape: the gauge families of the samples, made
//! afresh for each scrape and registered together.
//!
//! The families and the registry are those of the `prometheus` crate. What
//! this module states of them rests on the contracts of the functions marked
//! `external_body` below; everything else is proved from those. A registry
//! decides by hashes whether it accepts a family, so the module speaks of
//! those hashes by name and says of a scrape exactly when its registry can
//! be built.

use crate::collector::{collection_samples, Collection};
use crate::metrics::{
    all_well_labelled, sample_views, well_labelled, Family, MetricSample, SampleView,
};
use crate::records::texts;
use vstd::prelude::*;

verus! {

/// The children of a gauge family: for each key, the label values that the
/// child was made with and the value it holds.
pub type Children = Map<u64, (Seq<Seq<char>>, int)>;

/// What a registry holds of one family: its name, its help text, its label
/// names and its children.
pub type FamilyModel = (Seq<char>, Seq<char>, Seq<Seq<char>>, Children);

/// Makes `prometheus::Registry` known as a type whose inside is not looked
/// into.
#[verifier::external_type_specification]
#[verifier::external_body]
pub struct ExRegistry(prometheus::Registry);

/// Makes `prometheus::Error` known as a type whose inside is not looked
/// into.
#[verifier::external_type_specification]
#[verifier::external_body]
pub struct ExError(prometheus::Error);

/// A family of integer gauges: a `prometheus::IntGaugeVec` that no one else
/// holds. Every such family is made of a name, a help text and label names
/// alone, so it has one descriptor and no constant labels. Its inside is not
/// looked into; [`gauge_name`], [`gauge_help`], [`gauge_label_names`] and
/// [`gauge_children`] stand for what it holds.
#[verifier::external_body]
pub struct GaugeFamily {
    inner: prometheus::IntGaugeVec,
}

/// The name that a gauge family was made with.
pub uninterp spec fn gauge_name(family: GaugeFamily) -> Seq<char>;

/// The help text that a gauge family was made with.
pub uninterp spec fn gauge_help(family: GaugeFamily) -> Seq<char>;

/// The label names that a gauge family was made with.
pub uninterp spec fn gauge_label_names(family: GaugeFamily) -> Seq<Seq<char>>;

/// The children that a gauge family holds, by the key that the family files
/// them under.
pub uninterp spec fn gauge_children(family: GaugeFamily) -> Map<u64, (Seq<Seq<char>>, int)>;

/// The key that a gauge family files a child under: the 64-bit FNV-1a hash
/// of the bytes of the child's label values, one value after the other.
pub uninterp spec fn label_values_hash(label_values: Seq<Seq<char>>) -> u64;

/// The id of the descriptor of a family without constant labels: the 64-bit
/// FNV-1a hash of the bytes of the family's name and of one byte `0xFF`
/// after them.
pub uninterp spec fn descriptor_id(name: Seq<char>) -> u64;

/// The hash of the dimensions of a family without constant labels: the
/// 64-bit FNV-1a hash that its descriptor holds of its help text and its
/// label names.
pub uninterp spec fn dimension_hash(help: Seq<char>, label_names: Seq<Seq<char>>) -> u64;

/// The ids of the descriptors that a registry holds.
pub uninterp spec fn registry_descriptor_ids(registry: prometheus::Registry) -> Set<u64>;

/// The hashes of dimensions that a registry has noted, by the name of the
/// family.
pub uninterp spec fn registry_dimensions(registry: prometheus::Registry) -> Map<Seq<char>, u64>;

/// The families that a registry holds, by the ids that it files them under.
/// A family with one descriptor is filed under the id of that descriptor.
pub uninterp spec fn registry_families(registry: prometheus::Registry) -> Map<
    u64,
    (Seq<char>, Seq<char>, Seq<Seq<char>>, Map<u64, (Seq<Seq<char>>, int)>),
>;

/// What a registry goes by when a family is registered with it.
pub struct RegistryState {
    /// The ids of the descriptors that it holds.
    pub ids: Set<u64>,
    /// The hashes of dimensions that it has noted, by the name of the family.
    pub dimensions: Map<Seq<char>, u64>,
    /// The families that it holds, by the ids that it files them under.
    pub families: Map<u64, FamilyModel>,
}

/// The state of a registry.
pub open spec fn state_of(registry: prometheus::Registry) -> RegistryState {
    RegistryState {
        ids: registry_descriptor_ids(registry),
        dimensions: registry_dimensions(registry),
        families: registry_families(registry),
    }
}

/// Whether a registry in `state` accepts a family with one descriptor, of the
/// given id, name and hash of dimensions. It refuses a descriptor id that it
/// holds, a name that it has noted with another hash of dimensions, and a
/// family whose id it files a family under already.
pub open spec fn accepts(state: RegistryState, id: u64, name: Seq<char>, dimensions: u64) -> bool {
    &&& !state.ids.contains(id)
    &&& state.dimensions.dom().contains(name) ==> state.dimensions[name] == dimensions
    &&& !state.families.dom().contains(id)
}

/// The state of a registry after a family with one descriptor was handed to
/// it. An accepted family is filed under its id, with its descriptor id and
/// the hash of its dimensions. A family that is refused for its descriptor
/// id or for its dimensions changes nothing; one that is refused only for
/// the id that it would be filed under leaves the hash of its dimensions
/// noted.
pub open spec fn after_registering(
    state: RegistryState,
    id: u64,
    name: Seq<char>,
    dimensions: u64,
    family: FamilyModel,
) -> RegistryState {
    if state.ids.contains(id) || (state.dimensions.dom().contains(name) && state.dimensions[name]
        != dimensions) {
        state
    } else if state.families.dom().contains(id) {
        RegistryState {
            ids: state.ids,
            dimensions: state.dimensions.insert(name, dimensions),
            families: state.families,
        }
    } else {
        RegistryState {
            ids: state.ids.insert(id),
            dimensions: state.dimensions.insert(name, dimensions),
            families: state.families.insert(id, family),
        }
    }
}

/// What a registry holds of a gauge family once the family is registered.
pub open spec fn model_of(family: GaugeFamily) -> FamilyModel {
    (gauge_name(family), gauge_help(family), gauge_label_names(family), gauge_children(family))
}

/// Whether `c` is an ASCII letter or an underscore.
pub open spec fn is_letter_or_underscore(c: char) -> bool {
    ('a' <= c && c <= 'z') || ('A' <= c && c <= 'Z') || c == '_'
}

/// Whether `c` is an ASCII digit.
pub open spec fn is_digit(c: char) -> bool {
    '0' <= c && c <= '9'
}

/// Whether `name` can name a label: a letter or an underscore, then letters,
/// underscores and digits.
pub open spec fn valid_label_name(name: Seq<char>) -> bool {
    &&& name.len() > 0
    &&& is_letter_or_underscore(name[0])
    &&& forall|i: int|
        0 < i < name.len() ==> is_letter_or_underscore(#[trigger] name[i]) || is_digit(name[i])
}

/// Whether `name` can name a metric: as a label name, with the colon as one
/// more letter.
pub open spec fn valid_metric_name(name: Seq<char>) -> bool {
    &&& name.len() > 0
    &&& (is_letter_or_underscore(name[0]) || name[0] == ':')
    &&& forall|i: int|
        0 < i < name.len() ==> is_letter_or_underscore(#[trigger] name[i]) || name[i] == ':'
            || is_digit(name[i])
}

/// Whether a gauge family can be made of a name, a help text and label
/// names: the help text is not empty, the name can name a metric, and the
/// label names can name labels and differ from one another.
pub open spec fn can_be_made(name: Seq<char>, help: Seq<char>, label_names: Seq<Seq<char>>)
    -> bool {
    &&& help.len() > 0
    &&& valid_metric_name(name)
    &&& forall|i: int| 0 <= i < label_names.len() ==> valid_label_name(#[trigger] label_names[i])
    &&& forall|i: int, j: int|
        0 <= i < j < label_names.len() ==> #[trigger] label_names[i] != #[trigger] label_names[j]
}

/// The children of a family after the child with `label_values`, filed under
/// `key`, was set to `value`. Where a child is filed under that key already,
/// that child takes the value and keeps the label values it was made with;
/// else a child is made.
pub open spec fn set_child(
    children: Children,
    key: u64,
    label_values: Seq<Seq<char>>,
    value: int,
) -> Children {
    if children.dom().contains(key) {
        let made_with = children[key].0;
        children.insert(key, (made_with, value))
    } else {
        children.insert(key, (label_values, value))
    }
}

/// The children of `family` after the samples have been set one by one:
/// each sample of the family sets its child, and the samples of other
/// families set nothing.
pub open spec fn children_of(family: Family, samples: Seq<SampleView>) -> Children
    decreases samples.len(),
{
    if samples.len() == 0 {
        Map::empty()
    } else {
        let before = children_of(family, samples.drop_last());
        let sample = samples.last();
        if sample.family == family {
            set_child(
                before,
                label_values_hash(sample.label_values),
                sample.label_values,
                sample.value,
            )
        } else {
            before
        }
    }
}

/// What the registry of a scrape holds of `family`.
pub open spec fn family_model(family: Family, samples: Seq<SampleView>) -> FamilyModel {
    (
        family.name_text(),
        family.help_text(),
        family.label_name_texts(),
        children_of(family, samples),
    )
}

/// The id of the descriptor of `family`.
pub open spec fn family_id(family: Family) -> u64 {
    descriptor_id(family.name_text())
}

/// The hash of the dimensions of `family`.
pub open spec fn family_dimensions(family: Family) -> u64 {
    dimension_hash(family.help_text(), family.label_name_texts())
}

/// The families of a scrape, in the order in which they are registered.
pub open spec fn scrape_order() -> Seq<Family> {
    seq![
        Family::InstanceTasks,
        Family::ResourcesRegistered,
        Family::ResourcesRemaining,
        Family::ServiceDesired,
        Family::ServiceCurrent,
        Family::ScrapeSuccess,
    ]
}

/// Whether the descriptor ids of `families` differ from one another.
pub open spec fn ids_differ(families: Seq<Family>) -> bool {
    forall|i: int, j: int|
        0 <= i < j < families.len() ==> family_id(#[trigger] families[i]) != family_id(
            #[trigger] families[j],
        )
}

/// Whether the descriptor id of family `k` is that of a family before it.
pub open spec fn clashes(families: Seq<Family>, k: int) -> bool {
    exists|j: int| 0 <= j < k && family_id(#[trigger] families[j]) == family_id(families[k])
}

/// What a registry that held nothing holds after `families` were registered
/// with it, each with the children that the samples set.
pub open spec fn families_registered(families: Seq<Family>, samples: Seq<SampleView>) -> Map<
    u64,
    FamilyModel,
>
    decreases families.len(),
{
    if families.len() == 0 {
        Map::empty()
    } else {
        families_registered(families.drop_last(), samples).insert(
            family_id(families.last()),
            family_model(families.last(), samples),
        )
    }
}

/// The families of the registry of a scrape: one for each [`Family`], each
/// filed under its descriptor id, with the children that the samples set.
pub open spec fn families_of(samples: Seq<SampleView>) -> Map<u64, FamilyModel> {
    families_registered(scrape_order(), samples)
}

/// Why the registry of a scrape could not be built: the registry refused a
/// family.
#[derive(Debug)]
pub struct RegistryError {
    /// The family that was refused.
    pub family: Family,
    /// The words of the error that the registry gave.
    pub message: String,
}

/// Calls `prometheus::IntGaugeVec::new` with `prometheus::Opts::new(name,
/// help)` and the label names. The call succeeds exactly where
/// [`can_be_made`] holds: it builds a descriptor, which is refused for an
/// empty help text, for a name that cannot name a metric, and for a label
/// name that cannot name a label or occurs twice. A family that was made has
/// the name, the help text and the label names it was asked for, and no
/// child yet.
#[verifier::external_body]
fn new_gauge_family(name: &str, help: &str, label_names: &Vec<String>) -> (made: Result<
    GaugeFamily,
    prometheus::Error,
>)
    ensures
        made is Ok <==> can_be_made(name@, help@, texts(label_names@)),
        made matches Ok(family) ==> gauge_name(family) == name@,
        made matches Ok(family) ==> gauge_help(family) == help@,
        made matches Ok(family) ==> gauge_label_names(family) == texts(label_names@),
        made matches Ok(family) ==> gauge_children(family) =~= Map::empty(),
{
    let names: Vec<&str> = label_names.iter().map(|n| n.as_str()).collect();
    match prometheus::IntGaugeVec::new(prometheus::Opts::new(name, help), &names) {
        Ok(inner) => Ok(GaugeFamily { inner }),
        Err(error) => Err(error),
    }
}

/// Calls `with_label_values` on the family and `set` on the gauge that it
/// hands out. `with_label_values` panics unless there is one value for each
/// label name, so that is required. The family keeps its name, its help
/// text and its label names, and its children change as [`set_child`] says.
#[verifier::external_body]
fn set_gauge(family: &mut GaugeFamily, label_values: &Vec<String>, value: i64)
    requires
        label_values@.len() == gauge_label_names(*old(family)).len(),
    ensures
        gauge_name(*final(family)) == gauge_name(*old(family)),
        gauge_help(*final(family)) == gauge_help(*old(family)),
        gauge_label_names(*final(family)) == gauge_label_names(*old(family)),
        gauge_children(*final(family)) == set_child(
            gauge_children(*old(family)),
            label_values_hash(texts(label_values@)),
            texts(label_values@),
            value as int,
        ),
{
    let values: Vec<&str> = label_values.iter().map(|v| v.as_str()).collect();
    family.inner.with_label_values(&values).set(value);
}

/// Calls `prometheus::Registry::new`. The new registry holds no family and
/// no descriptor id, and has noted no dimensions.
#[verifier::external_body]
pub(crate) fn new_registry() -> (registry: prometheus::Registry)
    ensures
        registry_descriptor_ids(registry) =~= Set::empty(),
        registry_dimensions(registry) =~= Map::empty(),
        registry_families(registry) =~= Map::empty(),
{
    prometheus::Registry::new()
}

/// Calls `register` on the registry with the family in a box. A gauge family
/// has one descriptor and no constant labels. For such a family the registry
/// looks, in this order, for the descriptor's id among the ids it holds, for
/// another hash of dimensions noted under the family's name, and for a
/// family filed under the id already, and refuses the family at the first
/// that it finds: the call succeeds exactly where [`accepts`] holds, and the
/// registry changes as [`after_registering`] says.
#[verifier::external_body]
fn register_family(registry: &mut prometheus::Registry, family: GaugeFamily) -> (done: Result<
    (),
    prometheus::Error,
>)
    ensures
        done is Ok <==> accepts(
            state_of(*old(registry)),
            descriptor_id(gauge_name(family)),
            gauge_name(family),
            dimension_hash(gauge_help(family), gauge_label_names(family)),
        ),
        state_of(*final(registry)) == after_registering(
            state_of(*old(registry)),
            descriptor_id(gauge_name(family)),
            gauge_name(family),
            dimension_hash(gauge_help(family), gauge_label_names(family)),
            model_of(family),
        ),
{
    registry.register(Box::new(family.inner))
}

/// The words of a `prometheus::Error`, as its `Display` gives them.
#[verifier::external_body]
fn error_message(error: &prometheus::Error) -> String {
    format!("{}", error)
}

/// A gauge family can be made of the name, the help text and the label
/// names of every [`Family`].
pub proof fn lemma_families_can_be_made(family: Family)
    ensures
        can_be_made(family.name_text(), family.help_text(), family.label_name_texts()),
{
    reveal_strlit("cluster_name");
    reveal_strlit("service_name");
    reveal_strlit("ec2_instance_id");
    reveal_strlit("state");
    reveal_strlit("resource");
    reveal_strlit("scraped_resource");
    assert(valid_label_name("cluster_name"@));
    assert(valid_label_name("service_name"@));
    assert(valid_label_name("ec2_instance_id"@));
    assert(valid_label_name("state"@));
    assert(valid_label_name("resource"@));
    assert(valid_label_name("scraped_resource"@));
    assert("cluster_name"@[0] != "service_name"@[0]);
    assert("cluster_name"@[0] != "ec2_instance_id"@[0]);
    assert("cluster_name"@[0] != "state"@[0]);
    assert("cluster_name"@[0] != "resource"@[0]);
    assert("cluster_name"@[1] != "scraped_resource"@[1]);
    assert("service_name"@[1] != "state"@[1]);
    assert("ec2_instance_id"@[0] != "state"@[0]);
    assert("ec2_instance_id"@[0] != "resource"@[0]);
    match family {
        Family::ServiceDesired => {
            reveal_strlit("aws_ecs_service_desired");
            reveal_strlit("Desired Number of ECS Services");
        },
        Family::ServiceCurrent => {
            reveal_strlit("aws_ecs_service_current_total");
            reveal_strlit("Current Number of ECS Services");
        },
        Family::InstanceTasks => {
            reveal_strlit("aws_ecs_instance_tasks_total");
            reveal_strlit("Tasks running on the Container Instances (ec2)");
        },
        Family::ResourcesRegistered => {
            reveal_strlit("aws_ecs_instance_resources_registered");
            reveal_strlit("Initial resources available on ECS Container Instance");
        },
        Family::ResourcesRemaining => {
            reveal_strlit("aws_ecs_instance_resources_remaining");
            reveal_strlit("Initial resources available on ECS Container Instance");
        },
        Family::ScrapeSuccess => {
            reveal_strlit("aws_ecs_cluster_scrape_success");
            reveal_strlit(
                "Whether the scrape for a particular cluster and resource kind was successful",
            );
        },
    }
}

/// Makes the gauge family of `family` and sets in it, one by one, the
/// samples that belong to it.
fn gauge_family_of(family: Family, samples: &Vec<MetricSample>) -> (gauges: GaugeFamily)
    requires
        all_well_labelled(sample_views(samples@)),
    ensures
        model_of(gauges) == family_model(family, sample_views(samples@)),
{
    let label_names = family.label_names();
    proof {
        lemma_families_can_be_made(family);
    }
    let mut gauges = new_gauge_family(family.name(), family.help(), &label_names).unwrap();
    let ghost views = sample_views(samples@);
    let mut i: usize = 0;
    while i < samples.len()
        invariant
            i <= samples.len(),
            views == sample_views(samples@),
            all_well_labelled(views),
            gauge_name(gauges) == family.name_text(),
            gauge_help(gauges) == family.help_text(),
            gauge_label_names(gauges) == family.label_name_texts(),
            gauge_children(gauges) == children_of(family, views.take(i as int)),
        decreases samples.len() - i,
    {
        let sample = &samples[i];
        proof {
            assert(views.take(i + 1).drop_last() == views.take(i as int));
            assert(views.take(i + 1).last() == views[i as int]);
            assert(views[i as int] == sample@);
            assert(well_labelled(views[i as int]));
        }
        if sample.family == family {
            set_gauge(&mut gauges, &sample.label_values, sample.value);
        }
        i += 1;
    }
    proof {
        assert(views.take(samples.len() as int) == views);
    }
    gauges
}

/// Makes the gauge family of `family` from the samples and registers it.
fn add_family(
    registry: &mut prometheus::Registry,
    family: Family,
    samples: &Vec<MetricSample>,
) -> (done: Result<(), RegistryError>)
    requires
        all_well_labelled(sample_views(samples@)),
    ensures
        done is Ok <==> accepts(
            state_of(*old(registry)),
            family_id(family),
            family.name_text(),
            family_dimensions(family),
        ),
        state_of(*final(registry)) == after_registering(
            state_of(*old(registry)),
            family_id(family),
            family.name_text(),
            family_dimensions(family),
            family_model(family, sample_views(samples@)),
        ),
        done matches Err(error) ==> error.family == family,
{
    let gauges = gauge_family_of(family, samples);
    match register_family(registry, gauges) {
        Ok(()) => Ok(()),
        Err(error) => Err(RegistryError { family, message: error_message(&error) }),
    }
}

/// Whether the samples of `family` are filed apart: no two of them with
/// different label values share a key.
pub open spec fn filed_apart(family: Family, samples: Seq<SampleView>) -> bool {
    forall|i: int, j: int|
        0 <= i < samples.len() && 0 <= j < samples.len() && (#[trigger] samples[i]).family == family
            && (#[trigger] samples[j]).family == family && label_values_hash(
            samples[i].label_values,
        ) == label_values_hash(samples[j].label_values) ==> samples[i].label_values
            == samples[j].label_values
}

/// Where the samples of a family are filed apart, the family holds for each
/// of them a child with the sample's label values, and the child holds the
/// value of the last sample with those label values.
pub proof fn lemma_children_hold_last_values(family: Family, samples: Seq<SampleView>, i: int)
    requires
        filed_apart(family, samples),
        0 <= i < samples.len(),
        samples[i].family == family,
        forall|j: int|
            i < j < samples.len() && (#[trigger] samples[j]).family == family
                ==> samples[j].label_values != samples[i].label_values,
    ensures
        children_of(family, samples).dom().contains(label_values_hash(samples[i].label_values)),
        children_of(family, samples)[label_values_hash(samples[i].label_values)] == (
            samples[i].label_values,
            samples[i].value,
        ),
    decreases samples.len(),
{
    let rest = samples.drop_last();
    let last = samples.last();
    let key = label_values_hash(samples[i].label_values);
    assert(last == samples[samples.len() - 1]);
    assert forall|a: int, b: int|
        0 <= a < rest.len() && 0 <= b < rest.len() && (#[trigger] rest[a]).family == family && (
        #[trigger] rest[b]).family == family && label_values_hash(rest[a].label_values)
            == label_values_hash(rest[b].label_values) implies rest[a].label_values
        == rest[b].label_values by {
        assert(rest[a] == samples[a]);
        assert(rest[b] == samples[b]);
    }
    if i == samples.len() - 1 {
        if children_of(family, rest).dom().contains(key) {
            lemma_children_come_from_samples(family, rest, key);
            let j = choose|j: int|
                0 <= j < rest.len() && (#[trigger] rest[j]).family == family && label_values_hash(
                    rest[j].label_values,
                ) == key && children_of(family, rest)[key].0 == rest[j].label_values;
            assert(rest[j] == samples[j]);
        }
    } else {
        assert(rest[i] == samples[i]);
        assert forall|j: int|
            i < j < rest.len() && (#[trigger] rest[j]).family == family implies rest[j].label_values
            != rest[i].label_values by {
            assert(rest[j] == samples[j]);
        }
        lemma_children_hold_last_values(family, rest, i);
    }
}

/// Every child of a family was made with the label values of a sample of
/// the family, and is filed under the key of those label values.
pub proof fn lemma_children_come_from_samples(family: Family, samples: Seq<SampleView>, key: u64)
    requires
        children_of(family, samples).dom().contains(key),
    ensures
        exists|j: int|
            0 <= j < samples.len() && (#[trigger] samples[j]).family == family && label_values_hash(
                samples[j].label_values,
            ) == key && children_of(family, samples)[key].0 == samples[j].label_values,
    decreases samples.len(),
{
    if samples.len() > 0 {
        let rest = samples.drop_last();
        let last = samples.last();
        assert(last == samples[samples.len() - 1]);
        if children_of(family, rest).dom().contains(key) {
            lemma_children_come_from_samples(family, rest, key);
            let j = choose|j: int|
                0 <= j < rest.len() && (#[trigger] rest[j]).family == family && label_values_hash(
                    rest[j].label_values,
                ) == key && children_of(family, rest)[key].0 == rest[j].label_values;
            assert(rest[j] == samples[j]);
        } else {
            assert(last.family == family && label_values_hash(last.label_values) == key);
        }
    }
}

/// Makes the gauge family of `family` from the samples of a collection and
/// registers it with a registry that the caller holds. The call succeeds
/// exactly where the registry [`accepts`] the family, and then the registry
/// holds the family beside those it held. Where the registry refuses the
/// family, as it does for a family that it holds already, it holds the
/// families it held, and the error names the family.
pub fn register_family_of(
    registry: &mut prometheus::Registry,
    family: Family,
    collection: &Collection,
) -> (done: Result<(), RegistryError>)
    ensures
        done is Ok <==> accepts(
            state_of(*old(registry)),
            family_id(family),
            family.name_text(),
            family_dimensions(family),
        ),
        state_of(*final(registry)) == after_registering(
            state_of(*old(registry)),
            family_id(family),
            family.name_text(),
            family_dimensions(family),
            family_model(family, collection_samples(collection@)),
        ),
        done matches Err(error) ==> error.family == family,
{
    let samples = collection.samples();
    add_family(registry, family, &samples)
}

/// The families of a scrape, in the order in which they are registered.
fn families_in_order() -> (families: Vec<Family>)
    ensures
        families@ == scrape_order(),
{
    let mut families: Vec<Family> = Vec::new();
    families.push(Family::InstanceTasks);
    families.push(Family::ResourcesRegistered);
    families.push(Family::ResourcesRemaining);
    families.push(Family::ServiceDesired);
    families.push(Family::ServiceCurrent);
    families.push(Family::ScrapeSuccess);
    assert(families@ =~= scrape_order());
    families
}

/// Whether a registry holds the first `count` of `families` and nothing
/// else, and has noted dimensions under their names alone.
spec fn holds_first(
    state: RegistryState,
    families: Seq<Family>,
    count: int,
    samples: Seq<SampleView>,
) -> bool {
    &&& forall|id: u64|
        state.ids.contains(id) <==> exists|j: int|
            0 <= j < count && family_id(#[trigger] families[j]) == id
    &&& forall|name: Seq<char>| #[trigger]
        state.dimensions.dom().contains(name) ==> state.ids.contains(descriptor_id(name))
    &&& state.families.dom() =~= state.ids
    &&& state.families == families_registered(families.take(count), samples)
}

/// Builds the registry of a scrape. The registry and its six families are
/// made anew by every call, so nothing of an earlier scrape is carried over.
/// Each family holds the children that the samples of the collection set,
/// and the family of the outcomes is there whether or not any fetch
/// succeeded.
///
/// Every family can be made, and a registry that holds nothing refuses a
/// family only for a descriptor id that it holds already. So the call
/// succeeds exactly where the descriptor ids of the six families differ from
/// one another, whatever the collection holds; where two of them are the
/// same, the error names the first family whose id is that of a family
/// before it.
pub fn scrape_registry(collection: &Collection) -> (built: Result<
    prometheus::Registry,
    RegistryError,
>)
    ensures
        built is Ok <==> ids_differ(scrape_order()),
        built matches Ok(registry) ==> registry_families(registry) == families_of(
            collection_samples(collection@),
        ),
        built matches Err(error) ==> exists|k: int|
            0 <= k < scrape_order().len() && #[trigger] scrape_order()[k] == error.family
                && clashes(scrape_order(), k) && ids_differ(scrape_order().take(k)),
{
    let samples = collection.samples();
    let families = families_in_order();
    let mut registry = new_registry();
    let ghost views = sample_views(samples@);
    let mut i: usize = 0;
    while i < families.len()
        invariant
            i <= families.len(),
            families@ == scrape_order(),
            views == sample_views(samples@),
            all_well_labelled(views),
            holds_first(state_of(registry), families@, i as int, views),
            ids_differ(families@.take(i as int)),
        decreases families.len() - i,
    {
        let family = families[i];
        let ghost before = state_of(registry);
        let done = add_family(&mut registry, family, &samples);
        proof {
            let order = families@;
            let id = family_id(family);
            assert(order.take(i + 1).drop_last() == order.take(i as int));
            assert(order.take(i + 1).last() == family);
            if before.ids.contains(id) {
                let j = choose|j: int| 0 <= j < i && family_id(#[trigger] order[j]) == id;
                assert(clashes(order, i as int));
                assert(order[j] == order.take(i + 1)[j]);
                assert(order[i as int] == order.take(i + 1)[i as int]);
                assert(!ids_differ(order));
            } else {
                assert(!before.dimensions.dom().contains(family.name_text()));
                assert(done is Ok);
                let after = state_of(registry);
                assert forall|key: u64| after.ids.contains(key) <==> exists|j: int|
                    0 <= j < i + 1 && family_id(#[trigger] order[j]) == key by {
                    if key == id {
                        assert(family_id(order[i as int]) == key);
                    } else if before.ids.contains(key) {
                        let j = choose|j: int| 0 <= j < i && family_id(#[trigger] order[j]) == key;
                        assert(0 <= j < i + 1 && family_id(order[j]) == key);
                    }
                }
                assert forall|a: int, b: int| 0 <= a < b < i + 1 implies family_id(
                    #[trigger] order.take(i + 1)[a],
                ) != family_id(#[trigger] order.take(i + 1)[b]) by {
                    assert(order.take(i + 1)[a] == order[a]);
                    assert(order.take(i + 1)[b] == order[b]);
                    if b < i {
                        assert(order.take(i as int)[a] == order[a]);
                        assert(order.take(i as int)[b] == order[b]);
                    } else {
                        assert(family_id(order[a]) != id);
                    }
                }
            }
        }
        match done {
            Ok(()) => {},
            Err(error) => {
                return Err(error);
            },
        }
        i += 1;
    }
    proof {
        assert(families@.take(families.len() as int) == families@);
    }
    Ok(registry)
}

} // verus!
