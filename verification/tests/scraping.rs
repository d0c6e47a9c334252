use aws_ecs_exporter::collector::{Collection, ScrapedResource};
use aws_ecs_exporter::describer::{DescribeResponse, DescribeStep, Describer, Failure};
use aws_ecs_exporter::exporter::{reply_to, RequestStatus};
use aws_ecs_exporter::lister::{ListStep, Lister, Page};
use aws_ecs_exporter::metrics::Family;
use aws_ecs_exporter::records::{
    ClusterName, ContainerInstanceRecord, ResourceEntry, ServiceRecord,
};
use aws_ecs_exporter::registry::{register_family_of, scrape_registry};
use prometheus::proto::MetricFamily;

fn cluster(name: &str) -> ClusterName {
    ClusterName::new(name.to_string()).unwrap()
}

fn service(name: &str, desired: i32, running: i32, pending: i32) -> ServiceRecord {
    ServiceRecord {
        name: Some(name.to_string()),
        desired_count: desired,
        running_count: running,
        pending_count: pending,
    }
}

fn instance(id: &str, running: i32, pending: i32, cpu: (i32, i32), ram: (i32, i32)) -> ContainerInstanceRecord {
    ContainerInstanceRecord {
        ec2_instance_id: Some(id.to_string()),
        running_tasks_count: running,
        pending_tasks_count: pending,
        registered_resources: vec![
            ResourceEntry { name: Some("CPU".to_string()), integer_value: cpu.0 },
            ResourceEntry { name: Some("MEMORY".to_string()), integer_value: ram.0 },
            ResourceEntry { name: Some("PORTS".to_string()), integer_value: 0 },
        ],
        remaining_resources: vec![
            ResourceEntry { name: Some("CPU".to_string()), integer_value: cpu.1 },
            ResourceEntry { name: Some("MEMORY".to_string()), integer_value: ram.1 },
            ResourceEntry { name: Some("GPU".to_string()), integer_value: 1 },
        ],
    }
}

/// The samples of a gathered family, as label values and value, in the order
/// of the exposition.
fn samples_of(families: &[MetricFamily], name: &str) -> Vec<(Vec<String>, f64)> {
    families
        .iter()
        .filter(|f| f.get_name() == name)
        .flat_map(|f| f.get_metric().iter())
        .map(|m| {
            (
                m.get_label().iter().map(|l| l.get_value().to_string()).collect(),
                m.get_gauge().get_value(),
            )
        })
        .collect()
}

fn label_names_of(families: &[MetricFamily], name: &str) -> Vec<String> {
    let family = families.iter().find(|f| f.get_name() == name).unwrap();
    family.get_metric()[0].get_label().iter().map(|l| l.get_name().to_string()).collect()
}

fn names_of(families: &[MetricFamily]) -> Vec<String> {
    families.iter().map(|f| f.get_name().to_string()).collect()
}

fn row(values: &[&str], value: f64) -> (Vec<String>, f64) {
    (values.iter().map(|v| v.to_string()).collect(), value)
}

/// What the structure of a gathered registry is: names, help, label names,
/// label values and values.
fn shape(families: &[MetricFamily]) -> Vec<(String, String, Vec<(Vec<(String, String)>, f64)>)> {
    families
        .iter()
        .map(|f| {
            (
                f.get_name().to_string(),
                f.get_help().to_string(),
                f.get_metric()
                    .iter()
                    .map(|m| {
                        (
                            m.get_label()
                                .iter()
                                .map(|l| (l.get_name().to_string(), l.get_value().to_string()))
                                .collect(),
                            m.get_gauge().get_value(),
                        )
                    })
                    .collect(),
            )
        })
        .collect()
}

fn two_clusters() -> Collection {
    let mut collection = Collection::new();
    let failures = collection.record(
        cluster("a"),
        Err("instances unreachable".to_string()),
        Ok(vec![service("api", 2, 2, 0)]),
    );
    assert_eq!(failures.len(), 1);
    let failures = collection.record::<String>(
        cluster("b"),
        Ok(vec![instance("i-1", 3, 1, (2048, 1024), (8192, 4096))]),
        Ok(vec![service("web", 4, 3, 1), service("worker", 1, 0, 1)]),
    );
    assert!(failures.is_empty());
    collection
}

#[test]
fn new_collection_is_empty() {
    let collection = Collection::new();
    assert!(collection.snapshots().is_empty());
    assert!(collection.outcomes().is_empty());
    assert!(collection.samples().is_empty());
}

#[test]
fn resource_kind_labels_are_fixed() {
    assert_eq!(ScrapedResource::ClusterInstances.label(), "cluster_instances");
    assert_eq!(ScrapedResource::Services.label(), "services");
}

#[test]
fn record_keeps_what_each_fetch_brought() {
    let collection = two_clusters();
    let snapshots = collection.snapshots();
    assert_eq!(snapshots.len(), 2);
    assert_eq!(snapshots[0].cluster_name.as_str(), "a");
    assert!(snapshots[0].instances.is_empty());
    assert_eq!(snapshots[0].services.len(), 1);
    assert_eq!(snapshots[1].cluster_name.as_str(), "b");
    assert_eq!(snapshots[1].instances.len(), 1);
    assert_eq!(snapshots[1].services.len(), 2);
}

#[test]
fn record_gives_one_outcome_for_each_kind() {
    let collection = two_clusters();
    let outcomes: Vec<(String, ScrapedResource, bool)> = collection
        .outcomes()
        .iter()
        .map(|o| (o.cluster_name.as_str().to_string(), o.resource, o.success))
        .collect();
    assert_eq!(
        outcomes,
        vec![
            ("a".to_string(), ScrapedResource::ClusterInstances, false),
            ("a".to_string(), ScrapedResource::Services, true),
            ("b".to_string(), ScrapedResource::ClusterInstances, true),
            ("b".to_string(), ScrapedResource::Services, true),
        ]
    );
}

#[test]
fn record_hands_back_the_failures_instances_first() {
    let mut collection = Collection::new();
    let failures = collection.record(
        cluster("a"),
        Err::<Vec<ContainerInstanceRecord>, &str>("first"),
        Err::<Vec<ServiceRecord>, &str>("second"),
    );
    assert_eq!(failures.len(), 2);
    assert_eq!(failures[0].resource, ScrapedResource::ClusterInstances);
    assert_eq!(failures[0].error, "first");
    assert_eq!(failures[1].resource, ScrapedResource::Services);
    assert_eq!(failures[1].error, "second");
    assert!(collection.snapshots()[0].instances.is_empty());
    assert!(collection.snapshots()[0].services.is_empty());
}

#[test]
fn samples_follow_clusters_then_outcomes() {
    let collection = two_clusters();
    let samples = collection.samples();
    let families: Vec<Family> = samples.iter().map(|s| s.family).collect();
    let mut expected = vec![Family::ServiceDesired, Family::ServiceCurrent, Family::ServiceCurrent];
    expected.extend(vec![Family::InstanceTasks, Family::InstanceTasks]);
    expected.extend(vec![Family::ResourcesRemaining, Family::ResourcesRemaining]);
    expected.extend(vec![Family::ResourcesRegistered, Family::ResourcesRegistered]);
    expected.extend(vec![Family::ServiceDesired, Family::ServiceCurrent, Family::ServiceCurrent]);
    expected.extend(vec![Family::ServiceDesired, Family::ServiceCurrent, Family::ServiceCurrent]);
    expected.extend(vec![Family::ScrapeSuccess; 4]);
    assert_eq!(families, expected);
    let health: Vec<i64> =
        samples.iter().filter(|s| s.family == Family::ScrapeSuccess).map(|s| s.value).collect();
    assert_eq!(health, vec![0, 1, 1, 1]);
}

#[test]
fn failed_instance_fetch_of_one_cluster_leaves_the_other_whole() {
    let registry = scrape_registry(&two_clusters()).unwrap();
    let families = registry.gather();
    assert_eq!(
        names_of(&families),
        vec![
            "aws_ecs_cluster_scrape_success",
            "aws_ecs_instance_resources_registered",
            "aws_ecs_instance_resources_remaining",
            "aws_ecs_instance_tasks_total",
            "aws_ecs_service_current_total",
            "aws_ecs_service_desired",
        ]
    );
    assert_eq!(
        samples_of(&families, "aws_ecs_instance_tasks_total"),
        vec![row(&["b", "i-1", "pending"], 1.0), row(&["b", "i-1", "running"], 3.0)]
    );
    assert_eq!(
        samples_of(&families, "aws_ecs_instance_resources_registered"),
        vec![row(&["b", "i-1", "cpu"], 2048.0), row(&["b", "i-1", "ram"], 8192.0)]
    );
    assert_eq!(
        samples_of(&families, "aws_ecs_instance_resources_remaining"),
        vec![row(&["b", "i-1", "cpu"], 1024.0), row(&["b", "i-1", "ram"], 4096.0)]
    );
    assert_eq!(
        samples_of(&families, "aws_ecs_service_desired"),
        vec![row(&["a", "api"], 2.0), row(&["b", "web"], 4.0), row(&["b", "worker"], 1.0)]
    );
    assert_eq!(
        samples_of(&families, "aws_ecs_service_current_total"),
        vec![
            row(&["a", "api", "pending"], 0.0),
            row(&["a", "api", "running"], 2.0),
            row(&["b", "web", "pending"], 1.0),
            row(&["b", "web", "running"], 3.0),
            row(&["b", "worker", "pending"], 1.0),
            row(&["b", "worker", "running"], 0.0),
        ]
    );
    assert_eq!(
        samples_of(&families, "aws_ecs_cluster_scrape_success"),
        vec![
            row(&["a", "cluster_instances"], 0.0),
            row(&["a", "services"], 1.0),
            row(&["b", "cluster_instances"], 1.0),
            row(&["b", "services"], 1.0),
        ]
    );
}

#[test]
fn gathered_families_carry_their_label_names_and_help() {
    let families = scrape_registry(&two_clusters()).unwrap().gather();
    for family in [
        Family::ServiceDesired,
        Family::ServiceCurrent,
        Family::InstanceTasks,
        Family::ResourcesRegistered,
        Family::ResourcesRemaining,
        Family::ScrapeSuccess,
    ] {
        assert_eq!(label_names_of(&families, family.name()), family.label_names());
        let gathered = families.iter().find(|f| f.get_name() == family.name()).unwrap();
        assert_eq!(gathered.get_help(), family.help());
        assert_eq!(gathered.get_field_type(), prometheus::proto::MetricType::GAUGE);
    }
}

#[test]
fn health_is_exposed_when_every_fetch_failed() {
    let mut collection = Collection::new();
    collection.record(
        cluster("a"),
        Err::<Vec<ContainerInstanceRecord>, &str>("down"),
        Err::<Vec<ServiceRecord>, &str>("down"),
    );
    collection.record(
        cluster("b"),
        Err::<Vec<ContainerInstanceRecord>, &str>("down"),
        Err::<Vec<ServiceRecord>, &str>("down"),
    );
    let families = scrape_registry(&collection).unwrap().gather();
    assert_eq!(names_of(&families), vec!["aws_ecs_cluster_scrape_success"]);
    assert_eq!(
        samples_of(&families, "aws_ecs_cluster_scrape_success"),
        vec![
            row(&["a", "cluster_instances"], 0.0),
            row(&["a", "services"], 0.0),
            row(&["b", "cluster_instances"], 0.0),
            row(&["b", "services"], 0.0),
        ]
    );
}

#[test]
fn empty_cluster_exposes_only_its_health() {
    let mut collection = Collection::new();
    collection.record::<String>(cluster("quiet"), Ok(vec![]), Ok(vec![]));
    let families = scrape_registry(&collection).unwrap().gather();
    assert_eq!(names_of(&families), vec!["aws_ecs_cluster_scrape_success"]);
    assert_eq!(
        samples_of(&families, "aws_ecs_cluster_scrape_success"),
        vec![row(&["quiet", "cluster_instances"], 1.0), row(&["quiet", "services"], 1.0)]
    );
}

#[test]
fn scrape_without_cluster_exposes_nothing() {
    let registry = scrape_registry(&Collection::new()).unwrap();
    assert!(registry.gather().is_empty());
}

#[test]
fn later_sample_with_the_same_labels_overrides_the_earlier() {
    let mut collection = Collection::new();
    collection.record::<String>(
        cluster("c"),
        Ok(vec![]),
        Ok(vec![service("twice", 1, 1, 0), service("twice", 9, 8, 7)]),
    );
    let families = scrape_registry(&collection).unwrap().gather();
    assert_eq!(samples_of(&families, "aws_ecs_service_desired"), vec![row(&["c", "twice"], 9.0)]);
    assert_eq!(
        samples_of(&families, "aws_ecs_service_current_total"),
        vec![row(&["c", "twice", "pending"], 7.0), row(&["c", "twice", "running"], 8.0)]
    );
}

#[test]
fn label_values_that_join_to_the_same_text_share_a_child() {
    let mut collection = Collection::new();
    collection.record::<String>(cluster("ab"), Ok(vec![]), Ok(vec![service("c", 1, 1, 0)]));
    collection.record::<String>(cluster("a"), Ok(vec![]), Ok(vec![service("bc", 2, 2, 0)]));
    let samples = collection.samples();
    let desired: Vec<(Vec<String>, i64)> = samples
        .iter()
        .filter(|s| s.family == Family::ServiceDesired)
        .map(|s| (s.label_values.clone(), s.value))
        .collect();
    assert_eq!(
        desired,
        vec![
            (vec!["ab".to_string(), "c".to_string()], 1),
            (vec!["a".to_string(), "bc".to_string()], 2),
        ]
    );
    let families = scrape_registry(&collection).unwrap().gather();
    assert_eq!(samples_of(&families, "aws_ecs_service_desired"), vec![row(&["ab", "c"], 2.0)]);
}

#[test]
fn negative_and_large_values_are_exposed_as_they_are() {
    let mut collection = Collection::new();
    collection.record::<String>(
        cluster("c"),
        Ok(vec![]),
        Ok(vec![service("s", i32::MAX, -5, i32::MIN)]),
    );
    let families = scrape_registry(&collection).unwrap().gather();
    assert_eq!(
        samples_of(&families, "aws_ecs_service_desired"),
        vec![row(&["c", "s"], 2147483647.0)]
    );
    assert_eq!(
        samples_of(&families, "aws_ecs_service_current_total"),
        vec![row(&["c", "s", "pending"], -2147483648.0), row(&["c", "s", "running"], -5.0)]
    );
}

#[test]
fn two_scrapes_build_registries_of_the_same_shape() {
    let first = scrape_registry(&two_clusters()).unwrap();
    let second = scrape_registry(&two_clusters()).unwrap();
    assert_eq!(shape(&first.gather()), shape(&second.gather()));
    assert_eq!(first.gather().len(), 6);
}

#[test]
fn scraping_one_collection_twice_registers_nothing_twice() {
    let collection = two_clusters();
    let first = scrape_registry(&collection);
    let second = scrape_registry(&collection);
    assert!(first.is_ok());
    assert!(second.is_ok());
    assert_eq!(shape(&first.unwrap().gather()), shape(&second.unwrap().gather()));
}

#[test]
fn one_family_can_be_registered_with_a_registry_of_the_caller() {
    let mut registry = prometheus::Registry::new();
    let done = register_family_of(&mut registry, Family::ServiceDesired, &two_clusters());
    assert!(done.is_ok());
    let families = registry.gather();
    assert_eq!(names_of(&families), vec!["aws_ecs_service_desired"]);
    assert_eq!(
        samples_of(&families, "aws_ecs_service_desired"),
        vec![row(&["a", "api"], 2.0), row(&["b", "web"], 4.0), row(&["b", "worker"], 1.0)]
    );
}

#[test]
fn registering_a_family_twice_is_refused_and_changes_nothing() {
    let mut registry = prometheus::Registry::new();
    register_family_of(&mut registry, Family::ScrapeSuccess, &two_clusters()).unwrap();
    let before = shape(&registry.gather());

    let mut other = Collection::new();
    other.record::<String>(cluster("z"), Ok(vec![]), Ok(vec![]));
    let error = register_family_of(&mut registry, Family::ScrapeSuccess, &other).unwrap_err();
    assert_eq!(error.family, Family::ScrapeSuccess);
    assert_eq!(error.message, "Duplicate metrics collector registration attempted");
    assert_eq!(shape(&registry.gather()), before);
}

#[test]
fn a_name_noted_with_other_dimensions_is_refused() {
    let mut registry = prometheus::Registry::new();
    let other = prometheus::IntGauge::with_opts(
        prometheus::Opts::new("aws_ecs_service_desired", "Another help text")
            .const_label("zone", "a"),
    )
    .unwrap();
    registry.register(Box::new(other)).unwrap();
    let before = shape(&registry.gather());

    let error =
        register_family_of(&mut registry, Family::ServiceDesired, &two_clusters()).unwrap_err();
    assert_eq!(error.family, Family::ServiceDesired);
    assert!(error.message.starts_with("Error: a previously registered descriptor"));
    assert_eq!(shape(&registry.gather()), before);
}

#[test]
fn families_of_other_names_are_accepted_beside_one_another() {
    let mut registry = prometheus::Registry::new();
    let collection = two_clusters();
    for family in [
        Family::ScrapeSuccess,
        Family::ServiceCurrent,
        Family::ServiceDesired,
        Family::ResourcesRemaining,
        Family::ResourcesRegistered,
        Family::InstanceTasks,
    ] {
        assert!(register_family_of(&mut registry, family, &collection).is_ok());
    }
    assert_eq!(
        shape(&registry.gather()),
        shape(&scrape_registry(&collection).unwrap().gather())
    );
}

#[test]
fn a_scrape_registry_refuses_a_family_it_holds() {
    let mut registry = scrape_registry(&two_clusters()).unwrap();
    let error = register_family_of(&mut registry, Family::InstanceTasks, &two_clusters())
        .unwrap_err();
    assert_eq!(error.family, Family::InstanceTasks);
    assert_eq!(registry.gather().len(), 6);
}

#[test]
fn successful_scrape_is_answered_with_its_registry() {
    let registry = scrape_registry(&two_clusters()).unwrap();
    let reply = reply_to::<String>(Ok(registry));
    assert_eq!(reply.status, RequestStatus::Success);
    assert_eq!(reply.status.label(), "success");
    assert!(reply.error.is_none());
    assert_eq!(reply.registry.gather().len(), 6);
}

#[test]
fn failed_scrape_is_answered_with_an_empty_registry() {
    let reply = reply_to(Err("no credentials".to_string()));
    assert_eq!(reply.status, RequestStatus::Error);
    assert_eq!(reply.status.label(), "error");
    assert_eq!(reply.error, Some("no credentials".to_string()));
    assert!(reply.registry.gather().is_empty());
}

/// Lists with the given pages, then describes what was listed with a call
/// that names the identifiers in `missing` as failed.
fn list_and_describe(pages: Vec<Page>, missing: &[&str]) -> Vec<ServiceRecord> {
    let mut lister = Lister::new();
    let mut listed = None;
    for page in pages {
        match lister.accept::<String>(Ok(page)).unwrap() {
            ListStep::Continue(next) => lister = next,
            ListStep::Finished(identifiers) => {
                listed = Some(identifiers);
                break;
            }
        }
    }
    let mut step = Describer::<ServiceRecord>::begin(listed.unwrap());
    loop {
        match step {
            DescribeStep::Finished(described) => return described.records,
            DescribeStep::Continue(describer) => {
                let mut records = Vec::new();
                let mut failures = Vec::new();
                for id in describer.batch() {
                    if missing.contains(&id.as_str()) {
                        failures.push(Failure {
                            arn: Some(id),
                            reason: Some("MISSING".to_string()),
                            detail: None,
                        });
                    } else {
                        records.push(service(&id, 2, 1, 1));
                    }
                }
                step = describer
                    .accept::<String>(Ok(DescribeResponse { records, failures }))
                    .unwrap();
            }
        }
    }
}

#[test]
fn twelve_services_with_one_named_failure_expose_eleven() {
    let names: Vec<String> =
        (0..12).map(|i| if i == 4 { "X".to_string() } else { format!("svc-{:02}", i) }).collect();
    let pages = vec![
        Page { identifiers: names[0..10].to_vec(), next_token: Some("next".to_string()) },
        Page { identifiers: names[10..12].to_vec(), next_token: None },
    ];
    let services = list_and_describe(pages, &["X"]);
    assert_eq!(services.len(), 11);
    assert!(services.iter().all(|s| s.name.as_deref() != Some("X")));

    let mut collection = Collection::new();
    collection.record::<String>(cluster("demo"), Ok(vec![]), Ok(services));
    let families = scrape_registry(&collection).unwrap().gather();

    let expected: Vec<String> = names.iter().filter(|n| n.as_str() != "X").cloned().collect();
    let desired = samples_of(&families, "aws_ecs_service_desired");
    assert_eq!(desired.len(), 11);
    for (sample, name) in desired.iter().zip(expected.iter()) {
        assert_eq!(sample, &row(&["demo", name], 2.0));
    }
    let current = samples_of(&families, "aws_ecs_service_current_total");
    assert_eq!(current.len(), 22);
    for (pair, name) in current.chunks(2).zip(expected.iter()) {
        assert_eq!(pair[0], row(&["demo", name, "pending"], 1.0));
        assert_eq!(pair[1], row(&["demo", name, "running"], 1.0));
    }
    assert!(desired.iter().all(|(labels, _)| labels[1] != "X"));
    assert!(current.iter().all(|(labels, _)| labels[1] != "X"));
}
