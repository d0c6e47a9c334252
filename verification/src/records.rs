//! The domain objects of one collection pass: cluster names, services,
//! container instances and the snapshot that groups them per cluster.

use vstd::prelude::*;

verus! {

/// The views of a sequence of strings, element by element.
pub open spec fn texts(strings: Seq<String>) -> Seq<Seq<char>> {
    strings.map_values(|s: String| s@)
}

/// The views of two runs of strings, one after the other.
pub proof fn lemma_texts_concat(a: Seq<String>, b: Seq<String>)
    ensures
        texts(a + b) == texts(a) + texts(b),
{
    assert(texts(a + b) =~= texts(a) + texts(b));
}

/// The view of an optional string.
pub open spec fn opt_text(s: Option<String>) -> Option<Seq<char>> {
    match s {
        Some(t) => Some(t@),
        None => None,
    }
}

/// The name of a cluster: any string but the empty one.
#[derive(Debug)]
pub struct ClusterName {
    name: String,
}

impl View for ClusterName {
    type V = Seq<char>;

    closed spec fn view(&self) -> Seq<char> {
        self.name@
    }
}

impl ClusterName {
    /// What holds of every cluster name: it is not empty.
    #[verifier::type_invariant]
    pub open spec fn well_formed(self) -> bool {
        self@.len() > 0
    }

    /// Accepts every name but the empty one.
    pub fn new(name: String) -> (cluster: Option<ClusterName>)
        ensures
            cluster is None <==> name@.len() == 0,
            cluster matches Some(c) ==> c@ == name@,
    {
        if name.as_str().is_empty() {
            None
        } else {
            Some(ClusterName { name })
        }
    }

    /// The name as text. It is never empty.
    pub fn as_str(&self) -> (name: &str)
        ensures
            name@ == self@,
            name@.len() > 0,
    {
        proof {
            use_type_invariant(self);
        }
        self.name.as_str()
    }

    /// A copy of the name.
    pub fn duplicate(&self) -> (copy: ClusterName)
        ensures
            copy@ == self@,
    {
        proof {
            use_type_invariant(self);
        }
        ClusterName { name: self.name.clone() }
    }
}

/// A service of a cluster, as the orchestration API described it.
#[derive(Debug)]
pub struct ServiceRecord {
    /// The identifying name; absent when the API left it out.
    pub name: Option<String>,
    pub desired_count: i32,
    pub running_count: i32,
    pub pending_count: i32,
}

/// What a [`ServiceRecord`] holds, as mathematical values.
pub struct ServiceView {
    pub name: Option<Seq<char>>,
    pub desired_count: int,
    pub running_count: int,
    pub pending_count: int,
}

impl View for ServiceRecord {
    type V = ServiceView;

    open spec fn view(&self) -> ServiceView {
        ServiceView {
            name: opt_text(self.name),
            desired_count: self.desired_count as int,
            running_count: self.running_count as int,
            pending_count: self.pending_count as int,
        }
    }
}

/// One capacity dimension of a container instance, by name.
#[derive(Debug)]
pub struct ResourceEntry {
    /// The name of the dimension, such as `CPU` or `MEMORY`.
    pub name: Option<String>,
    pub integer_value: i32,
}

/// What a [`ResourceEntry`] holds, as mathematical values.
pub struct ResourceView {
    pub name: Option<Seq<char>>,
    pub integer_value: int,
}

impl View for ResourceEntry {
    type V = ResourceView;

    open spec fn view(&self) -> ResourceView {
        ResourceView { name: opt_text(self.name), integer_value: self.integer_value as int }
    }
}

/// The views of a sequence of resource entries.
pub open spec fn resource_views(entries: Seq<ResourceEntry>) -> Seq<ResourceView> {
    entries.map_values(|e: ResourceEntry| e@)
}

/// A host registered to a cluster, as the orchestration API described it.
#[derive(Debug)]
pub struct ContainerInstanceRecord {
    /// The identifying host id; absent when the API left it out.
    pub ec2_instance_id: Option<String>,
    pub running_tasks_count: i32,
    pub pending_tasks_count: i32,
    /// The total capacity of the host.
    pub registered_resources: Vec<ResourceEntry>,
    /// The capacity of the host that is not allocated.
    pub remaining_resources: Vec<ResourceEntry>,
}

/// What a [`ContainerInstanceRecord`] holds, as mathematical values.
pub struct ContainerInstanceView {
    pub ec2_instance_id: Option<Seq<char>>,
    pub running_tasks_count: int,
    pub pending_tasks_count: int,
    pub registered_resources: Seq<ResourceView>,
    pub remaining_resources: Seq<ResourceView>,
}

impl View for ContainerInstanceRecord {
    type V = ContainerInstanceView;

    open spec fn view(&self) -> ContainerInstanceView {
        ContainerInstanceView {
            ec2_instance_id: opt_text(self.ec2_instance_id),
            running_tasks_count: self.running_tasks_count as int,
            pending_tasks_count: self.pending_tasks_count as int,
            registered_resources: resource_views(self.registered_resources@),
            remaining_resources: resource_views(self.remaining_resources@),
        }
    }
}

/// The views of a sequence of services.
pub open spec fn service_views(records: Seq<ServiceRecord>) -> Seq<ServiceView> {
    records.map_values(|r: ServiceRecord| r@)
}

/// The views of a sequence of container instances.
pub open spec fn instance_views(records: Seq<ContainerInstanceRecord>) -> Seq<
    ContainerInstanceView,
> {
    records.map_values(|r: ContainerInstanceRecord| r@)
}

} // verus!
