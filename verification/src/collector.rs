//! Collection of the records of several clusters, with one outcome for each
//! kind of resource of each cluster.
//!
//! The two kinds of a cluster are fetched apart from one another, and so are
//! the clusters: a fetch that fails is recorded as failed and leaves the
//! cluster without records of that kind, and nothing else changes.

use crate::metrics::{
    all_well_labelled, instance_samples, instance_samples_of, lemma_instance_samples_labelled,
    lemma_service_samples_labelled, lemma_well_labelled_concat, sample_views, service_samples,
    service_samples_of, well_labelled, Family, MetricSample, SampleView,
};
use crate::records::{
    instance_views, service_views, texts, ClusterName, ContainerInstanceRecord,
    ContainerInstanceView, ServiceRecord, ServiceView,
};
use vstd::prelude::*;

verus! {

/// The kinds of resource that are scraped in each cluster.
#[derive(Clone, Copy, Debug, PartialEq, Eq, Structural)]
pub enum ScrapedResource {
    ClusterInstances,
    Services,
}

impl ScrapedResource {
    /// The label value that stands for the kind.
    pub open spec fn label_text(self) -> Seq<char> {
        match self {
            ScrapedResource::ClusterInstances => "cluster_instances"@,
            ScrapedResource::Services => "services"@,
        }
    }

    /// The label value that stands for the kind.
    pub fn label(&self) -> (label: &'static str)
        ensures
            label@ == self.label_text(),
    {
        match self {
            ScrapedResource::ClusterInstances => "cluster_instances",
            ScrapedResource::Services => "services",
        }
    }
}

/// Whether one kind of resource of one cluster was fetched.
#[derive(Debug)]
pub struct PipelineOutcome {
    pub cluster_name: ClusterName,
    pub resource: ScrapedResource,
    pub success: bool,
}

/// What a [`PipelineOutcome`] holds, as mathematical values.
pub struct OutcomeView {
    pub cluster_name: Seq<char>,
    pub resource: ScrapedResource,
    pub success: bool,
}

impl View for PipelineOutcome {
    type V = OutcomeView;

    open spec fn view(&self) -> OutcomeView {
        OutcomeView {
            cluster_name: self.cluster_name@,
            resource: self.resource,
            success: self.success,
        }
    }
}

/// A fetch that failed, with the error that failed it.
#[derive(Debug)]
pub struct PipelineFailure<E> {
    pub resource: ScrapedResource,
    pub error: E,
}

/// The services and container instances of one cluster at the time of a
/// scrape.
#[derive(Debug)]
pub struct ClusterSnapshot {
    pub cluster_name: ClusterName,
    pub services: Vec<ServiceRecord>,
    pub instances: Vec<ContainerInstanceRecord>,
}

/// What a [`ClusterSnapshot`] holds, as mathematical values.
pub struct SnapshotView {
    pub cluster_name: Seq<char>,
    pub services: Seq<ServiceView>,
    pub instances: Seq<ContainerInstanceView>,
}

impl View for ClusterSnapshot {
    type V = SnapshotView;

    open spec fn view(&self) -> SnapshotView {
        SnapshotView {
            cluster_name: self.cluster_name@,
            services: service_views(self.services@),
            instances: instance_views(self.instances@),
        }
    }
}

/// The records that a fetch brought: those it returned, and none where it
/// failed.
pub open spec fn fetched<R, E>(result: Result<Vec<R>, E>) -> Seq<R> {
    match result {
        Ok(records) => records@,
        Err(_) => Seq::empty(),
    }
}

/// The failures among the two fetches of a cluster, instances first.
pub open spec fn failures_among<E>(
    instances: Result<Vec<ContainerInstanceRecord>, E>,
    services: Result<Vec<ServiceRecord>, E>,
) -> Seq<PipelineFailure<E>> {
    let of_instances = match instances {
        Ok(_) => Seq::empty(),
        Err(error) => seq![PipelineFailure { resource: ScrapedResource::ClusterInstances, error }],
    };
    let of_services = match services {
        Ok(_) => Seq::empty(),
        Err(error) => seq![PipelineFailure { resource: ScrapedResource::Services, error }],
    };
    of_instances + of_services
}

/// The snapshots and the outcomes of one scrape.
#[derive(Debug)]
pub struct Collection {
    snapshots: Vec<ClusterSnapshot>,
    outcomes: Vec<PipelineOutcome>,
}

/// What a [`Collection`] holds, as mathematical values.
pub struct CollectionView {
    pub snapshots: Seq<SnapshotView>,
    pub outcomes: Seq<OutcomeView>,
}

impl View for Collection {
    type V = CollectionView;

    closed spec fn view(&self) -> CollectionView {
        CollectionView {
            snapshots: self.snapshots@.map_values(|s: ClusterSnapshot| s@),
            outcomes: self.outcomes@.map_values(|o: PipelineOutcome| o@),
        }
    }
}

/// The sample that exposes one outcome: 1 for a fetch that succeeded, 0 for
/// one that failed.
pub open spec fn outcome_sample(outcome: OutcomeView) -> SampleView {
    SampleView {
        family: Family::ScrapeSuccess,
        label_values: seq![outcome.cluster_name, outcome.resource.label_text()],
        value: if outcome.success {
            1
        } else {
            0
        },
    }
}

/// The samples of one cluster: those of its instances, then those of its
/// services.
pub open spec fn snapshot_samples(snapshot: SnapshotView) -> Seq<SampleView> {
    instance_samples_of(snapshot.cluster_name, snapshot.instances) + service_samples_of(
        snapshot.cluster_name,
        snapshot.services,
    )
}

/// The samples of the records of a scrape: those of each cluster in turn.
pub open spec fn cluster_samples(snapshots: Seq<SnapshotView>) -> Seq<SampleView> {
    snapshots.flat_map(|s: SnapshotView| snapshot_samples(s))
}

/// The samples of the outcomes of a scrape: one for each outcome.
pub open spec fn health_samples(outcomes: Seq<OutcomeView>) -> Seq<SampleView> {
    outcomes.map_values(|o: OutcomeView| outcome_sample(o))
}

/// The samples of a scrape: those of the records, then those of the
/// outcomes.
pub open spec fn collection_samples(collection: CollectionView) -> Seq<SampleView> {
    cluster_samples(collection.snapshots) + health_samples(collection.outcomes)
}

impl Collection {
    /// A collection without any cluster.
    pub fn new() -> (collection: Collection)
        ensures
            collection@.snapshots == Seq::<SnapshotView>::empty(),
            collection@.outcomes == Seq::<OutcomeView>::empty(),
    {
        let collection = Collection { snapshots: Vec::new(), outcomes: Vec::new() };
        assert(collection@.snapshots =~= Seq::<SnapshotView>::empty());
        assert(collection@.outcomes =~= Seq::<OutcomeView>::empty());
        collection
    }

    /// The snapshots, in the order in which the clusters were recorded.
    pub fn snapshots(&self) -> (snapshots: &Vec<ClusterSnapshot>)
        ensures
            snapshots@.map_values(|s: ClusterSnapshot| s@) == self@.snapshots,
    {
        &self.snapshots
    }

    /// The outcomes: for each cluster that of its instances, then that of its
    /// services.
    pub fn outcomes(&self) -> (outcomes: &Vec<PipelineOutcome>)
        ensures
            outcomes@.map_values(|o: PipelineOutcome| o@) == self@.outcomes,
    {
        &self.outcomes
    }

    /// Records what the two fetches of one cluster brought. The cluster gets
    /// a snapshot with the records of each fetch that succeeded and none for
    /// one that failed, and an outcome for each fetch. What was recorded for
    /// other clusters stays as it is. The failures are handed back, instances
    /// first, for the caller to log.
    pub fn record<E>(
        &mut self,
        cluster_name: ClusterName,
        instances: Result<Vec<ContainerInstanceRecord>, E>,
        services: Result<Vec<ServiceRecord>, E>,
    ) -> (failures: Vec<PipelineFailure<E>>)
        ensures
            final(self)@.snapshots == old(self)@.snapshots.push(
                SnapshotView {
                    cluster_name: cluster_name@,
                    services: service_views(fetched(services)),
                    instances: instance_views(fetched(instances)),
                },
            ),
            final(self)@.outcomes == old(self)@.outcomes.push(
                OutcomeView {
                    cluster_name: cluster_name@,
                    resource: ScrapedResource::ClusterInstances,
                    success: instances is Ok,
                },
            ).push(
                OutcomeView {
                    cluster_name: cluster_name@,
                    resource: ScrapedResource::Services,
                    success: services is Ok,
                },
            ),
            failures@ == failures_among(instances, services),
    {
        let mut failures: Vec<PipelineFailure<E>> = Vec::new();
        let instances_ok = instances.is_ok();
        let services_ok = services.is_ok();
        let instance_records = match instances {
            Ok(records) => records,
            Err(error) => {
                failures.push(
                    PipelineFailure { resource: ScrapedResource::ClusterInstances, error },
                );
                Vec::new()
            },
        };
        let service_records = match services {
            Ok(records) => records,
            Err(error) => {
                failures.push(PipelineFailure { resource: ScrapedResource::Services, error });
                Vec::new()
            },
        };
        assert(failures@ =~= failures_among(instances, services));
        let of_instances = PipelineOutcome {
            cluster_name: cluster_name.duplicate(),
            resource: ScrapedResource::ClusterInstances,
            success: instances_ok,
        };
        let of_services = PipelineOutcome {
            cluster_name: cluster_name.duplicate(),
            resource: ScrapedResource::Services,
            success: services_ok,
        };
        let snapshot = ClusterSnapshot {
            cluster_name,
            services: service_records,
            instances: instance_records,
        };
        let ghost before = self@;
        self.snapshots.push(snapshot);
        self.outcomes.push(of_instances);
        self.outcomes.push(of_services);
        assert(self@.snapshots =~= before.snapshots.push(snapshot@));
        assert(self@.outcomes =~= before.outcomes.push(of_instances@).push(of_services@));
        failures
    }

    /// Derives the samples of the scrape: for each cluster those of its
    /// instances and of its services, then one sample for each outcome.
    pub fn samples(&self) -> (samples: Vec<MetricSample>)
        ensures
            sample_views(samples@) == collection_samples(self@),
            all_well_labelled(sample_views(samples@)),
    {
        let mut samples: Vec<MetricSample> = Vec::new();
        let ghost snapshots = self@.snapshots;
        let ghost derive = |s: SnapshotView| snapshot_samples(s);
        let mut i: usize = 0;
        assert(sample_views(samples@) =~= snapshots.take(0).flat_map(derive));
        while i < self.snapshots.len()
            invariant
                i <= self.snapshots.len(),
                snapshots == self@.snapshots,
                derive == |s: SnapshotView| snapshot_samples(s),
                sample_views(samples@) == snapshots.take(i as int).flat_map(derive),
                forall|k: int| 0 <= k < i ==> (#[trigger] snapshots[k]).cluster_name.len() > 0,
            decreases self.snapshots.len() - i,
        {
            proof {
                snapshots.lemma_flat_map_take_append(derive, i as int);
            }
            let snapshot = &self.snapshots[i];
            proof {
                use_type_invariant(&snapshot.cluster_name);
            }
            let mut of_instances = instance_samples(&snapshot.cluster_name, &snapshot.instances);
            let mut of_services = service_samples(&snapshot.cluster_name, &snapshot.services);
            proof {
                lemma_sample_views_concat(samples@, of_instances@);
                lemma_sample_views_concat(samples@ + of_instances@, of_services@);
            }
            samples.append(&mut of_instances);
            samples.append(&mut of_services);
            assert(sample_views(samples@) =~= snapshots.take(i as int).flat_map(derive)
                + snapshot_samples(snapshots[i as int]));
            i += 1;
        }
        proof {
            assert(snapshots.take(self.snapshots.len() as int) == snapshots);
        }
        let ghost of_clusters = sample_views(samples@);
        let ghost outcomes = self@.outcomes;
        let mut j: usize = 0;
        while j < self.outcomes.len()
            invariant
                j <= self.outcomes.len(),
                outcomes == self@.outcomes,
                sample_views(samples@) == of_clusters + outcomes.take(j as int).map_values(
                    |o: OutcomeView| outcome_sample(o),
                ),
                forall|k: int| 0 <= k < j ==> (#[trigger] outcomes[k]).cluster_name.len() > 0,
            decreases self.outcomes.len() - j,
        {
            let outcome = &self.outcomes[j];
            proof {
                use_type_invariant(&outcome.cluster_name);
            }
            let mut label_values: Vec<String> = Vec::new();
            label_values.push(outcome.cluster_name.as_str().to_owned());
            label_values.push(outcome.resource.label().to_owned());
            assert(texts(label_values@) =~= seq![
                outcome@.cluster_name,
                outcome@.resource.label_text(),
            ]);
            let value: i64 = if outcome.success {
                1
            } else {
                0
            };
            let sample = MetricSample { family: Family::ScrapeSuccess, label_values, value };
            assert(sample@ == outcome_sample(outcomes[j as int]));
            assert(sample_views(samples@.push(sample)) =~= sample_views(samples@).push(sample@));
            samples.push(sample);
            assert(sample_views(samples@) =~= of_clusters + outcomes.take(j + 1).map_values(
                |o: OutcomeView| outcome_sample(o),
            ));
            j += 1;
        }
        proof {
            assert(outcomes.take(self.outcomes.len() as int) == outcomes);
            lemma_collection_samples_labelled(self@);
        }
        samples
    }
}

/// A fetch that failed brings no record, and so the cluster has no sample of
/// that kind.
pub proof fn lemma_failed_fetch_has_no_sample<E>(cluster: Seq<char>, error: E)
    ensures
        instance_samples_of(
            cluster,
            instance_views(fetched(Err::<Vec<ContainerInstanceRecord>, E>(error))),
        ) == Seq::<SampleView>::empty(),
        service_samples_of(cluster, service_views(fetched(Err::<Vec<ServiceRecord>, E>(error))))
            == Seq::<SampleView>::empty(),
{
    assert(instance_samples_of(
        cluster,
        instance_views(fetched(Err::<Vec<ContainerInstanceRecord>, E>(error))),
    ) =~= Seq::<SampleView>::empty());
    assert(service_samples_of(cluster, service_views(fetched(Err::<Vec<ServiceRecord>, E>(error))))
        =~= Seq::<SampleView>::empty());
}

/// Recording a cluster adds the samples of that cluster's own records and
/// the samples of its two outcomes. Every sample of the clusters recorded
/// before stays as it was, whatever the fetches of this cluster brought.
pub proof fn lemma_recorded_cluster_adds_its_own_samples(
    snapshots: Seq<SnapshotView>,
    outcomes: Seq<OutcomeView>,
    snapshot: SnapshotView,
    of_instances: OutcomeView,
    of_services: OutcomeView,
)
    ensures
        cluster_samples(snapshots.push(snapshot)) == cluster_samples(snapshots) + snapshot_samples(
            snapshot,
        ),
        health_samples(outcomes.push(of_instances).push(of_services)) == health_samples(outcomes)
            + seq![outcome_sample(of_instances), outcome_sample(of_services)],
{
    snapshots.lemma_flat_map_push(|s: SnapshotView| snapshot_samples(s), snapshot);
    assert(health_samples(outcomes.push(of_instances).push(of_services)) =~= health_samples(
        outcomes,
    ) + seq![outcome_sample(of_instances), outcome_sample(of_services)]);
}

/// Whether the cluster of every snapshot has a name.
pub open spec fn all_snapshots_named(snapshots: Seq<SnapshotView>) -> bool {
    forall|i: int| 0 <= i < snapshots.len() ==> (#[trigger] snapshots[i]).cluster_name.len() > 0
}

/// Whether every cluster of a collection has a name.
pub open spec fn all_named(collection: CollectionView) -> bool {
    &&& all_snapshots_named(collection.snapshots)
    &&& forall|i: int|
        0 <= i < collection.outcomes.len() ==> (
        #[trigger] collection.outcomes[i]).cluster_name.len() > 0
}

/// Every sample of a scrape has one label value for each label name of its
/// family, and none of them is empty: a record that lacks its identifying
/// field has no sample at all.
pub proof fn lemma_collection_samples_labelled(collection: CollectionView)
    requires
        all_named(collection),
    ensures
        all_well_labelled(collection_samples(collection)),
{
    lemma_snapshot_samples_labelled(collection.snapshots);
    let health = collection.outcomes.map_values(|o: OutcomeView| outcome_sample(o));
    assert forall|i: int| 0 <= i < health.len() implies well_labelled(#[trigger] health[i]) by {
        reveal_strlit("cluster_instances");
        reveal_strlit("services");
        assert(collection.outcomes[i].cluster_name.len() > 0);
        assert(health[i] == outcome_sample(collection.outcomes[i]));
    }
    lemma_well_labelled_concat(
        collection.snapshots.flat_map(|s: SnapshotView| snapshot_samples(s)),
        health,
    );
}

/// Every sample of the records of named clusters is well labelled.
proof fn lemma_snapshot_samples_labelled(snapshots: Seq<SnapshotView>)
    requires
        all_snapshots_named(snapshots),
    ensures
        all_well_labelled(cluster_samples(snapshots)),
    decreases snapshots.len(),
{
    let derive = |s: SnapshotView| snapshot_samples(s);
    if snapshots.len() == 0 {
        assert(snapshots.flat_map(derive) =~= Seq::<SampleView>::empty());
    } else {
        let rest = snapshots.drop_last();
        let snapshot = snapshots.last();
        assert forall|i: int| 0 <= i < rest.len() implies (#[trigger] rest[i]).cluster_name.len()
            > 0 by {
            assert(rest[i] == snapshots[i]);
        }
        lemma_snapshot_samples_labelled(rest);
        assert(snapshots == rest.push(snapshot));
        rest.lemma_flat_map_push(derive, snapshot);
        assert(snapshot == snapshots[snapshots.len() - 1]);
        lemma_instance_samples_labelled(snapshot.cluster_name, snapshot.instances);
        lemma_service_samples_labelled(snapshot.cluster_name, snapshot.services);
        lemma_well_labelled_concat(
            instance_samples_of(snapshot.cluster_name, snapshot.instances),
            service_samples_of(snapshot.cluster_name, snapshot.services),
        );
        lemma_well_labelled_concat(rest.flat_map(derive), snapshot_samples(snapshot));
    }
}

/// The views of two runs of samples, one after the other.
pub proof fn lemma_sample_views_concat(a: Seq<MetricSample>, b: Seq<MetricSample>)
    ensures
        sample_views(a + b) == sample_views(a) + sample_views(b),
{
    assert(sample_views(a + b) =~= sample_views(a) + sample_views(b));
}

} // verus!
