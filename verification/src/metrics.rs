//! Derivation of metric samples from the records of a collection pass.
//!
//! Nothing here performs a call or keeps state: every function maps the
//! records it is given to the samples they stand for.

use crate::records::{
    instance_views, resource_views, service_views, texts, ClusterName, ContainerInstanceRecord,
    ContainerInstanceView, ResourceEntry, ResourceView, ServiceRecord, ServiceView,
};
use vstd::prelude::*;

verus! {

/// The metric families that a scrape exposes.
#[derive(Clone, Copy, Debug, PartialEq, Eq, Structural)]
pub enum Family {
    /// The desired task count of a service.
    ServiceDesired,
    /// The observed task count of a service, per state.
    ServiceCurrent,
    /// The tasks on a container instance, per state.
    InstanceTasks,
    /// The total capacity of a container instance, per resource.
    ResourcesRegistered,
    /// The unallocated capacity of a container instance, per resource.
    ResourcesRemaining,
    /// Whether one kind of resource of one cluster was scraped.
    ScrapeSuccess,
}

impl Family {
    /// The name under which the family is exposed.
    pub open spec fn name_text(self) -> Seq<char> {
        match self {
            Family::ServiceDesired => "aws_ecs_service_desired"@,
            Family::ServiceCurrent => "aws_ecs_service_current_total"@,
            Family::InstanceTasks => "aws_ecs_instance_tasks_total"@,
            Family::ResourcesRegistered => "aws_ecs_instance_resources_registered"@,
            Family::ResourcesRemaining => "aws_ecs_instance_resources_remaining"@,
            Family::ScrapeSuccess => "aws_ecs_cluster_scrape_success"@,
        }
    }

    /// The text that explains the family to a reader of the exposition.
    pub open spec fn help_text(self) -> Seq<char> {
        match self {
            Family::ServiceDesired => "Desired Number of ECS Services"@,
            Family::ServiceCurrent => "Current Number of ECS Services"@,
            Family::InstanceTasks => "Tasks running on the Container Instances (ec2)"@,
            Family::ResourcesRegistered => "Initial resources available on ECS Container Instance"@,
            Family::ResourcesRemaining => "Initial resources available on ECS Container Instance"@,
            Family::ScrapeSuccess =>
                "Whether the scrape for a particular cluster and resource kind was successful"@,
        }
    }

    /// The names of the labels that tell the samples of the family apart.
    pub open spec fn label_name_texts(self) -> Seq<Seq<char>> {
        match self {
            Family::ServiceDesired => seq!["cluster_name"@, "service_name"@],
            Family::ServiceCurrent => seq!["cluster_name"@, "service_name"@, "state"@],
            Family::InstanceTasks => seq!["cluster_name"@, "ec2_instance_id"@, "state"@],
            Family::ResourcesRegistered => seq!["cluster_name"@, "ec2_instance_id"@, "resource"@],
            Family::ResourcesRemaining => seq!["cluster_name"@, "ec2_instance_id"@, "resource"@],
            Family::ScrapeSuccess => seq!["cluster_name"@, "scraped_resource"@],
        }
    }

    /// The name under which the family is exposed.
    pub fn name(&self) -> (name: &'static str)
        ensures
            name@ == self.name_text(),
    {
        match self {
            Family::ServiceDesired => "aws_ecs_service_desired",
            Family::ServiceCurrent => "aws_ecs_service_current_total",
            Family::InstanceTasks => "aws_ecs_instance_tasks_total",
            Family::ResourcesRegistered => "aws_ecs_instance_resources_registered",
            Family::ResourcesRemaining => "aws_ecs_instance_resources_remaining",
            Family::ScrapeSuccess => "aws_ecs_cluster_scrape_success",
        }
    }

    /// The text that explains the family to a reader of the exposition.
    pub fn help(&self) -> (help: &'static str)
        ensures
            help@ == self.help_text(),
    {
        match self {
            Family::ServiceDesired => "Desired Number of ECS Services",
            Family::ServiceCurrent => "Current Number of ECS Services",
            Family::InstanceTasks => "Tasks running on the Container Instances (ec2)",
            Family::ResourcesRegistered => "Initial resources available on ECS Container Instance",
            Family::ResourcesRemaining => "Initial resources available on ECS Container Instance",
            Family::ScrapeSuccess =>
                "Whether the scrape for a particular cluster and resource kind was successful",
        }
    }

    /// The names of the labels that tell the samples of the family apart.
    pub fn label_names(&self) -> (names: Vec<String>)
        ensures
            texts(names@) == self.label_name_texts(),
    {
        let mut names: Vec<String> = Vec::new();
        names.push("cluster_name".to_owned());
        match self {
            Family::ServiceDesired => {
                names.push("service_name".to_owned());
            },
            Family::ServiceCurrent => {
                names.push("service_name".to_owned());
                names.push("state".to_owned());
            },
            Family::InstanceTasks => {
                names.push("ec2_instance_id".to_owned());
                names.push("state".to_owned());
            },
            Family::ResourcesRegistered => {
                names.push("ec2_instance_id".to_owned());
                names.push("resource".to_owned());
            },
            Family::ResourcesRemaining => {
                names.push("ec2_instance_id".to_owned());
                names.push("resource".to_owned());
            },
            Family::ScrapeSuccess => {
                names.push("scraped_resource".to_owned());
            },
        }
        assert(texts(names@) =~= self.label_name_texts());
        names
    }
}

/// One value of a metric family, told apart by its label values.
#[derive(Debug)]
pub struct MetricSample {
    pub family: Family,
    /// The label values, in the order of the family's label names.
    pub label_values: Vec<String>,
    pub value: i64,
}

/// What a [`MetricSample`] holds, as mathematical values.
pub struct SampleView {
    pub family: Family,
    pub label_values: Seq<Seq<char>>,
    pub value: int,
}

impl View for MetricSample {
    type V = SampleView;

    open spec fn view(&self) -> SampleView {
        SampleView {
            family: self.family,
            label_values: texts(self.label_values@),
            value: self.value as int,
        }
    }
}

/// The views of a sequence of samples.
pub open spec fn sample_views(samples: Seq<MetricSample>) -> Seq<SampleView> {
    samples.map_values(|s: MetricSample| s@)
}

/// The resource label and the value that a resource entry is exposed under:
/// `CPU` as `cpu`, `MEMORY` as `ram`, and nothing for any other entry.
pub open spec fn resource_label(entry: ResourceView) -> Option<(Seq<char>, int)> {
    if entry.name == Some("CPU"@) {
        Some(("cpu"@, entry.integer_value))
    } else if entry.name == Some("MEMORY"@) {
        Some(("ram"@, entry.integer_value))
    } else {
        None
    }
}

/// Whether a record's identifying field can label a sample.
pub open spec fn identifies(name: Option<Seq<char>>) -> bool {
    name matches Some(n) && n.len() > 0
}

/// The sample of one resource entry of an instance, if the entry has one.
pub open spec fn resource_sample(
    family: Family,
    cluster: Seq<char>,
    instance: Seq<char>,
    entry: ResourceView,
) -> Option<SampleView> {
    match resource_label(entry) {
        Some((label, value)) => Some(
            SampleView { family, label_values: seq![cluster, instance, label], value },
        ),
        None => None,
    }
}

/// The samples of the resource entries of an instance, in the entries' order.
pub open spec fn resource_samples(
    family: Family,
    cluster: Seq<char>,
    instance: Seq<char>,
    entries: Seq<ResourceView>,
) -> Seq<SampleView> {
    entries.filter_map(|e: ResourceView| resource_sample(family, cluster, instance, e))
}

/// The samples of one container instance: its running and pending tasks,
/// then its remaining and its registered resources. An instance without an
/// id has no sample.
pub open spec fn instance_record_samples(
    cluster: Seq<char>,
    record: ContainerInstanceView,
) -> Seq<SampleView> {
    if identifies(record.ec2_instance_id) {
        let id = record.ec2_instance_id->0;
        seq![
            SampleView {
                family: Family::InstanceTasks,
                label_values: seq![cluster, id, "running"@],
                value: record.running_tasks_count,
            },
            SampleView {
                family: Family::InstanceTasks,
                label_values: seq![cluster, id, "pending"@],
                value: record.pending_tasks_count,
            },
        ] + resource_samples(Family::ResourcesRemaining, cluster, id, record.remaining_resources)
            + resource_samples(
            Family::ResourcesRegistered,
            cluster,
            id,
            record.registered_resources,
        )
    } else {
        Seq::empty()
    }
}

/// The samples of the container instances of a cluster, in the records' order.
pub open spec fn instance_samples_of(
    cluster: Seq<char>,
    records: Seq<ContainerInstanceView>,
) -> Seq<SampleView> {
    records.flat_map(|r: ContainerInstanceView| instance_record_samples(cluster, r))
}

/// The samples of one service: its desired count, then its running and its
/// pending count. A service without a name has no sample.
pub open spec fn service_record_samples(cluster: Seq<char>, record: ServiceView) -> Seq<
    SampleView,
> {
    if identifies(record.name) {
        let name = record.name->0;
        seq![
            SampleView {
                family: Family::ServiceDesired,
                label_values: seq![cluster, name],
                value: record.desired_count,
            },
            SampleView {
                family: Family::ServiceCurrent,
                label_values: seq![cluster, name, "running"@],
                value: record.running_count,
            },
            SampleView {
                family: Family::ServiceCurrent,
                label_values: seq![cluster, name, "pending"@],
                value: record.pending_count,
            },
        ]
    } else {
        Seq::empty()
    }
}

/// The samples of the services of a cluster, in the records' order.
pub open spec fn service_samples_of(cluster: Seq<char>, records: Seq<ServiceView>) -> Seq<
    SampleView,
> {
    records.flat_map(|r: ServiceView| service_record_samples(cluster, r))
}

/// Maps a resource entry to its resource label and value: `CPU` to `cpu`,
/// `MEMORY` to `ram`. Any other entry is dropped.
pub fn filter_resources(resource: &ResourceEntry) -> (kept: Option<(&'static str, i64)>)
    ensures
        match kept {
            Some((label, value)) => resource_label(resource@) == Some((label@, value as int)),
            None => resource_label(resource@) is None,
        },
{
    match &resource.name {
        Some(name) => {
            if *name == "CPU".to_owned() {
                Some(("cpu", resource.integer_value as i64))
            } else if *name == "MEMORY".to_owned() {
                Some(("ram", resource.integer_value as i64))
            } else {
                None
            }
        },
        None => None,
    }
}

/// Appends to `samples` the samples of the resource entries of one instance.
fn push_resource_samples(
    family: Family,
    cluster: &ClusterName,
    instance: &String,
    entries: &Vec<ResourceEntry>,
    samples: &mut Vec<MetricSample>,
)
    ensures
        sample_views(final(samples)@) == sample_views(old(samples)@) + resource_samples(
            family,
            cluster@,
            instance@,
            resource_views(entries@),
        ),
{
    let ghost before = sample_views(samples@);
    let ghost views = resource_views(entries@);
    let ghost pick = |e: ResourceView| resource_sample(family, cluster@, instance@, e);
    let mut i: usize = 0;
    while i < entries.len()
        invariant
            i <= entries.len(),
            views == resource_views(entries@),
            pick == |e: ResourceView| resource_sample(family, cluster@, instance@, e),
            sample_views(samples@) == before + views.take(i as int).filter_map(pick),
        decreases entries.len() - i,
    {
        proof {
            views.lemma_filter_map_take_succ(pick, i as int);
        }
        match filter_resources(&entries[i]) {
            Some((label, value)) => {
                let sample = sample_of(family, labels_of_three(cluster, instance, label), value);
                push_sample(samples, sample);
            },
            None => {},
        }
        i += 1;
    }
    proof {
        assert(views.take(entries.len() as int) == views);
    }
}

/// Builds one sample from its family, its label values and its value.
fn sample_of(family: Family, label_values: Vec<String>, value: i64) -> (sample: MetricSample)
    ensures
        sample@ == (SampleView { family, label_values: texts(label_values@), value: value as int }),
{
    MetricSample { family, label_values, value }
}

/// The label values of a sample that is told apart by a state or a resource.
fn labels_of_three(cluster: &ClusterName, name: &String, third: &str) -> (labels: Vec<String>)
    ensures
        texts(labels@) == seq![cluster@, name@, third@],
{
    let mut labels: Vec<String> = Vec::new();
    labels.push(cluster.as_str().to_owned());
    labels.push(name.clone());
    labels.push(third.to_owned());
    assert(texts(labels@) =~= seq![cluster@, name@, third@]);
    labels
}

/// Appends `sample` to `samples`.
fn push_sample(samples: &mut Vec<MetricSample>, sample: MetricSample)
    ensures
        final(samples)@ == old(samples)@.push(sample),
        sample_views(final(samples)@) == sample_views(old(samples)@).push(sample@),
{
    assert(sample_views(samples@.push(sample)) =~= sample_views(samples@).push(sample@));
    samples.push(sample);
}

/// Appends to `samples` the samples of one container instance.
fn push_instance_samples(
    cluster: &ClusterName,
    record: &ContainerInstanceRecord,
    samples: &mut Vec<MetricSample>,
)
    ensures
        sample_views(final(samples)@) == sample_views(old(samples)@) + instance_record_samples(
            cluster@,
            record@,
        ),
{
    let ghost before = sample_views(samples@);
    match &record.ec2_instance_id {
        Some(id) => {
            if id.as_str().is_empty() {
                assert(before + Seq::<SampleView>::empty() =~= before);
            } else {
                let running = sample_of(
                    Family::InstanceTasks,
                    labels_of_three(cluster, id, "running"),
                    record.running_tasks_count as i64,
                );
                push_sample(samples, running);
                let pending = sample_of(
                    Family::InstanceTasks,
                    labels_of_three(cluster, id, "pending"),
                    record.pending_tasks_count as i64,
                );
                push_sample(samples, pending);
                push_resource_samples(
                    Family::ResourcesRemaining,
                    cluster,
                    id,
                    &record.remaining_resources,
                    samples,
                );
                push_resource_samples(
                    Family::ResourcesRegistered,
                    cluster,
                    id,
                    &record.registered_resources,
                    samples,
                );
                assert(sample_views(samples@) =~= before + instance_record_samples(
                    cluster@,
                    record@,
                ));
            }
        },
        None => {
            assert(before + Seq::<SampleView>::empty() =~= before);
        },
    }
}

/// Derives the samples of the container instances of one cluster: for each
/// instance with an id, two task counts and one sample per `CPU` or `MEMORY`
/// entry of its remaining and of its registered resources. No label value of
/// a sample is empty.
pub fn instance_samples(
    cluster: &ClusterName,
    instances: &Vec<ContainerInstanceRecord>,
) -> (samples: Vec<MetricSample>)
    ensures
        sample_views(samples@) == instance_samples_of(cluster@, instance_views(instances@)),
        all_well_labelled(sample_views(samples@)),
{
    let mut samples: Vec<MetricSample> = Vec::new();
    let ghost views = instance_views(instances@);
    let ghost derive = |r: ContainerInstanceView| instance_record_samples(cluster@, r);
    let mut i: usize = 0;
    assert(sample_views(samples@) =~= views.take(0).flat_map(derive));
    while i < instances.len()
        invariant
            i <= instances.len(),
            views == instance_views(instances@),
            derive == |r: ContainerInstanceView| instance_record_samples(cluster@, r),
            sample_views(samples@) == views.take(i as int).flat_map(derive),
        decreases instances.len() - i,
    {
        proof {
            views.lemma_flat_map_take_append(derive, i as int);
        }
        push_instance_samples(cluster, &instances[i], &mut samples);
        i += 1;
    }
    proof {
        assert(views.take(instances.len() as int) == views);
        use_type_invariant(cluster);
        lemma_instance_samples_labelled(cluster@, views);
    }
    samples
}

/// Appends to `samples` the samples of one service.
fn push_service_samples(
    cluster: &ClusterName,
    record: &ServiceRecord,
    samples: &mut Vec<MetricSample>,
)
    ensures
        sample_views(final(samples)@) == sample_views(old(samples)@) + service_record_samples(
            cluster@,
            record@,
        ),
{
    let ghost before = sample_views(samples@);
    match &record.name {
        Some(name) => {
            if name.as_str().is_empty() {
                assert(before + Seq::<SampleView>::empty() =~= before);
            } else {
                let mut labels: Vec<String> = Vec::new();
                labels.push(cluster.as_str().to_owned());
                labels.push(name.clone());
                assert(texts(labels@) =~= seq![cluster@, name@]);
                let desired = sample_of(
                    Family::ServiceDesired,
                    labels,
                    record.desired_count as i64,
                );
                push_sample(samples, desired);
                let running = sample_of(
                    Family::ServiceCurrent,
                    labels_of_three(cluster, name, "running"),
                    record.running_count as i64,
                );
                push_sample(samples, running);
                let pending = sample_of(
                    Family::ServiceCurrent,
                    labels_of_three(cluster, name, "pending"),
                    record.pending_count as i64,
                );
                push_sample(samples, pending);
                assert(sample_views(samples@) =~= before + service_record_samples(
                    cluster@,
                    record@,
                ));
            }
        },
        None => {
            assert(before + Seq::<SampleView>::empty() =~= before);
        },
    }
}

/// Derives the samples of the services of one cluster: for each service with
/// a name, its desired count and its running and pending counts. No label
/// value of a sample is empty.
pub fn service_samples(cluster: &ClusterName, services: &Vec<ServiceRecord>) -> (samples: Vec<
    MetricSample,
>)
    ensures
        sample_views(samples@) == service_samples_of(cluster@, service_views(services@)),
        all_well_labelled(sample_views(samples@)),
{
    let mut samples: Vec<MetricSample> = Vec::new();
    let ghost views = service_views(services@);
    let ghost derive = |r: ServiceView| service_record_samples(cluster@, r);
    let mut i: usize = 0;
    assert(sample_views(samples@) =~= views.take(0).flat_map(derive));
    while i < services.len()
        invariant
            i <= services.len(),
            views == service_views(services@),
            derive == |r: ServiceView| service_record_samples(cluster@, r),
            sample_views(samples@) == views.take(i as int).flat_map(derive),
        decreases services.len() - i,
    {
        proof {
            views.lemma_flat_map_take_append(derive, i as int);
        }
        push_service_samples(cluster, &services[i], &mut samples);
        i += 1;
    }
    proof {
        assert(views.take(services.len() as int) == views);
        use_type_invariant(cluster);
        lemma_service_samples_labelled(cluster@, views);
    }
    samples
}

/// Whether a sample has one label value for each label name of its family,
/// none of them empty.
pub open spec fn well_labelled(sample: SampleView) -> bool {
    &&& sample.label_values.len() == sample.family.label_name_texts().len()
    &&& forall|i: int|
        0 <= i < sample.label_values.len() ==> (#[trigger] sample.label_values[i]).len() > 0
}

/// Whether every sample of a run is well labelled.
pub open spec fn all_well_labelled(samples: Seq<SampleView>) -> bool {
    forall|i: int| 0 <= i < samples.len() ==> well_labelled(#[trigger] samples[i])
}

/// Two runs of well-labelled samples make a run of well-labelled samples.
pub proof fn lemma_well_labelled_concat(a: Seq<SampleView>, b: Seq<SampleView>)
    requires
        all_well_labelled(a),
        all_well_labelled(b),
    ensures
        all_well_labelled(a + b),
{
    assert forall|i: int| 0 <= i < (a + b).len() implies well_labelled(#[trigger] (a + b)[i]) by {
        if i < a.len() {
            assert((a + b)[i] == a[i]);
        } else {
            assert((a + b)[i] == b[i - a.len()]);
        }
    }
}

/// The state and resource labels are not empty.
proof fn lemma_fixed_labels()
    ensures
        "running"@.len() > 0,
        "pending"@.len() > 0,
        "cpu"@.len() > 0,
        "ram"@.len() > 0,
{
    reveal_strlit("running");
    reveal_strlit("pending");
    reveal_strlit("cpu");
    reveal_strlit("ram");
}

/// Every resource sample of an instance that has an id, in a cluster that
/// has a name, is well labelled.
proof fn lemma_resource_samples_labelled(
    family: Family,
    cluster: Seq<char>,
    instance: Seq<char>,
    entries: Seq<ResourceView>,
)
    requires
        family == Family::ResourcesRegistered || family == Family::ResourcesRemaining,
        cluster.len() > 0,
        instance.len() > 0,
    ensures
        all_well_labelled(resource_samples(family, cluster, instance, entries)),
    decreases entries.len(),
{
    lemma_fixed_labels();
    if entries.len() > 0 {
        lemma_resource_samples_labelled(family, cluster, instance, entries.drop_last());
        let rest = resource_samples(family, cluster, instance, entries.drop_last());
        match resource_sample(family, cluster, instance, entries.last()) {
            Some(sample) => {
                assert(well_labelled(sample));
                assert(all_well_labelled(seq![sample]));
                lemma_well_labelled_concat(rest, seq![sample]);
            },
            None => {},
        }
    }
}

/// In a cluster that has a name, every sample of a container instance is
/// well labelled.
pub proof fn lemma_instance_samples_labelled(
    cluster: Seq<char>,
    records: Seq<ContainerInstanceView>,
)
    requires
        cluster.len() > 0,
    ensures
        all_well_labelled(instance_samples_of(cluster, records)),
    decreases records.len(),
{
    let derive = |r: ContainerInstanceView| instance_record_samples(cluster, r);
    if records.len() == 0 {
        assert(instance_samples_of(cluster, records) =~= Seq::<SampleView>::empty());
    } else {
        let rest = records.drop_last();
        let record = records.last();
        lemma_instance_samples_labelled(cluster, rest);
        assert(records == rest.push(record));
        rest.lemma_flat_map_push(derive, record);
        if identifies(record.ec2_instance_id) {
            let id = record.ec2_instance_id->0;
            lemma_fixed_labels();
            lemma_resource_samples_labelled(
                Family::ResourcesRemaining,
                cluster,
                id,
                record.remaining_resources,
            );
            lemma_resource_samples_labelled(
                Family::ResourcesRegistered,
                cluster,
                id,
                record.registered_resources,
            );
            let tasks = seq![
                SampleView {
                    family: Family::InstanceTasks,
                    label_values: seq![cluster, id, "running"@],
                    value: record.running_tasks_count,
                },
                SampleView {
                    family: Family::InstanceTasks,
                    label_values: seq![cluster, id, "pending"@],
                    value: record.pending_tasks_count,
                },
            ];
            assert(all_well_labelled(tasks));
            let remaining = resource_samples(
                Family::ResourcesRemaining,
                cluster,
                id,
                record.remaining_resources,
            );
            lemma_well_labelled_concat(tasks, remaining);
            let registered = resource_samples(
                Family::ResourcesRegistered,
                cluster,
                id,
                record.registered_resources,
            );
            lemma_well_labelled_concat(tasks + remaining, registered);
        }
        lemma_well_labelled_concat(rest.flat_map(derive), instance_record_samples(cluster, record));
    }
}

/// In a cluster that has a name, every sample of a service is well
/// labelled.
pub proof fn lemma_service_samples_labelled(cluster: Seq<char>, records: Seq<ServiceView>)
    requires
        cluster.len() > 0,
    ensures
        all_well_labelled(service_samples_of(cluster, records)),
    decreases records.len(),
{
    let derive = |r: ServiceView| service_record_samples(cluster, r);
    if records.len() == 0 {
        assert(service_samples_of(cluster, records) =~= Seq::<SampleView>::empty());
    } else {
        let rest = records.drop_last();
        let record = records.last();
        lemma_service_samples_labelled(cluster, rest);
        assert(records == rest.push(record));
        rest.lemma_flat_map_push(derive, record);
        lemma_fixed_labels();
        assert(all_well_labelled(service_record_samples(cluster, record)));
        lemma_well_labelled_concat(rest.flat_map(derive), service_record_samples(cluster, record));
    }
}

} // verus!
