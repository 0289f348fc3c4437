//! The user-facing resource model: the embedded Spark specification with its
//! driver, executor, dependency and fragment fields, the kind-specific
//! payloads (job, schedule, session), and the user-facing resource kinds
//! themselves.

use vstd::prelude::*;
use vstd::string::StringExecFns;

use crate::conf::ConfMap;
use crate::crd::SparkCatalogDef;
use crate::crd::SparkEnvSetDef;
use crate::k8s::EnvVar;
use crate::metadata::ObjectMeta;
use crate::metadata::clone_opt_string;
use crate::s3::S3ConnectionDef;
use crate::tree::view_of_strings;

verus! {

/// The view of an optional string.
pub open spec fn ostr(o: &Option<String>) -> Option<Seq<char>> {
    match o {
        Some(s) => Some(s@),
        None => None,
    }
}

/// The view of an optional string list.
pub open spec fn olist(o: &Option<Vec<String>>) -> Option<Seq<Seq<char>>> {
    match o {
        Some(v) => Some(view_of_strings(v@)),
        None => None,
    }
}

/// The view of an optional configuration map.
pub open spec fn omap(o: &Option<ConfMap>) -> Option<Map<Seq<char>, Seq<char>>> {
    match o {
        Some(m) => Some(m@),
        None => None,
    }
}

/// The string list held by an optional list, absent meaning empty.
pub open spec fn olist_or_empty(o: &Option<Vec<String>>) -> Seq<Seq<char>> {
    match o {
        Some(v) => view_of_strings(v@),
        None => Seq::empty(),
    }
}

/// The kind of workload a job runs.
#[derive(Clone, Copy, Debug, PartialEq, Eq, Structural)]
pub enum SparkJobType {
    SqlJob,
    SqlFileJob,
    JarJob,
    JavaJob,
    ScalaJob,
    PythonJob,
    RJob,
}

impl Default for SparkJobType {
    /// The default job type runs an inline SQL statement.
    fn default() -> (r: SparkJobType)
        ensures
            r == SparkJobType::SqlJob,
    {
        SparkJobType::SqlJob
    }
}

/// The wire name of a job type.
pub open spec fn job_type_name(t: SparkJobType) -> Seq<char> {
    match t {
        SparkJobType::SqlJob => "SqlJob"@,
        SparkJobType::SqlFileJob => "SqlFileJob"@,
        SparkJobType::JarJob => "JarJob"@,
        SparkJobType::JavaJob => "JavaJob"@,
        SparkJobType::ScalaJob => "ScalaJob"@,
        SparkJobType::PythonJob => "PythonJob"@,
        SparkJobType::RJob => "RJob"@,
    }
}

impl SparkJobType {
    pub fn as_str(&self) -> (r: &'static str)
        ensures
            r@ == job_type_name(*self),
    {
        match self {
            SparkJobType::SqlJob => "SqlJob",
            SparkJobType::SqlFileJob => "SqlFileJob",
            SparkJobType::JarJob => "JarJob",
            SparkJobType::JavaJob => "JavaJob",
            SparkJobType::ScalaJob => "ScalaJob",
            SparkJobType::PythonJob => "PythonJob",
            SparkJobType::RJob => "RJob",
        }
    }
}

/// When the container image is pulled.
#[derive(Clone, Copy, Debug, PartialEq, Eq, Structural)]
pub enum ImagePullPolicy {
    Always,
    IfNotPresent,
    Never,
}

/// The wire name of a pull policy.
pub open spec fn pull_policy_name(p: ImagePullPolicy) -> Seq<char> {
    match p {
        ImagePullPolicy::Always => "Always"@,
        ImagePullPolicy::IfNotPresent => "IfNotPresent"@,
        ImagePullPolicy::Never => "Never"@,
    }
}

/// The pull policy a wire name denotes, if any.
pub open spec fn pull_policy_of(s: Seq<char>) -> Option<ImagePullPolicy> {
    if s == "Always"@ {
        Some(ImagePullPolicy::Always)
    } else if s == "IfNotPresent"@ {
        Some(ImagePullPolicy::IfNotPresent)
    } else if s == "Never"@ {
        Some(ImagePullPolicy::Never)
    } else {
        None
    }
}

impl ImagePullPolicy {
    pub fn as_str(&self) -> (r: &'static str)
        ensures
            r@ == pull_policy_name(*self),
    {
        match self {
            ImagePullPolicy::Always => "Always",
            ImagePullPolicy::IfNotPresent => "IfNotPresent",
            ImagePullPolicy::Never => "Never",
        }
    }

    /// Parse a wire name back into a policy.
    pub fn parse(s: &String) -> (r: Option<ImagePullPolicy>)
        ensures
            r == pull_policy_of(s@),
    {
        proof {
            reveal_strlit("Always");
            reveal_strlit("IfNotPresent");
            reveal_strlit("Never");
        }
        if *s == String::from_str("Always") {
            Some(ImagePullPolicy::Always)
        } else if *s == String::from_str("IfNotPresent") {
            Some(ImagePullPolicy::IfNotPresent)
        } else if *s == String::from_str("Never") {
            Some(ImagePullPolicy::Never)
        } else {
            None
        }
    }
}

/// How a session's services are exposed.
#[derive(Clone, Copy, Debug, PartialEq, Eq, Structural)]
pub enum ServiceType {
    ClusterIP,
    NodePort,
    LoadBalancer,
    ExternalName,
}

impl Default for ServiceType {
    /// Sessions default to node-port services.
    fn default() -> (r: ServiceType)
        ensures
            r == ServiceType::NodePort,
    {
        ServiceType::NodePort
    }
}

/// The wire name of a service type.
pub open spec fn service_type_name(t: ServiceType) -> Seq<char> {
    match t {
        ServiceType::ClusterIP => "ClusterIP"@,
        ServiceType::NodePort => "NodePort"@,
        ServiceType::LoadBalancer => "LoadBalancer"@,
        ServiceType::ExternalName => "ExternalName"@,
    }
}

impl ServiceType {
    pub fn as_str(&self) -> (r: &'static str)
        ensures
            r@ == service_type_name(*self),
    {
        match self {
            ServiceType::ClusterIP => "ClusterIP",
            ServiceType::NodePort => "NodePort",
            ServiceType::LoadBalancer => "LoadBalancer",
            ServiceType::ExternalName => "ExternalName",
        }
    }
}

/// Captures information of a secret mounted into a pod.
pub struct SecretInfo {
    pub name: String,
    pub path: String,
    /// The secret handling class; plain secrets use `Generic`.
    pub typ: String,
}

impl SecretInfo {
    pub open spec fn same_as(&self, other: &SecretInfo) -> bool {
        self.name@ == other.name@ && self.path@ == other.path@ && self.typ@ == other.typ@
    }

    pub fn clone_info(&self) -> (r: SecretInfo)
        ensures
            r.same_as(self),
    {
        SecretInfo { name: self.name.clone(), path: self.path.clone(), typ: self.typ.clone() }
    }
}

/// A pair of a name and a path to which the named object is mounted.
pub struct NamePath {
    pub name: String,
    pub path: String,
}

impl NamePath {
    pub open spec fn same_as(&self, other: &NamePath) -> bool {
        self.name@ == other.name@ && self.path@ == other.path@
    }
}

/// The port definition in the pod objects.
pub struct Port {
    pub name: String,
    pub protocol: String,
    pub container_port: i32,
}

impl Port {
    pub open spec fn same_as(&self, other: &Port) -> bool {
        self.name@ == other.name@ && self.protocol@ == other.protocol@ && self.container_port
            == other.container_port
    }
}

/// Restart behaviour of the downstream application.
pub struct RestartPolicy {
    /// One of `Never`, `Always` and `OnFailure`.
    pub typ: Option<String>,
    pub on_submission_failure_retries: Option<i32>,
    pub on_failure_retries: Option<i32>,
    pub on_submission_failure_retry_interval: Option<i64>,
    pub on_failure_retry_interval: Option<i64>,
}

impl RestartPolicy {
    pub open spec fn same_as(&self, other: &RestartPolicy) -> bool {
        ostr(&self.typ) == ostr(&other.typ) && self.on_submission_failure_retries
            == other.on_submission_failure_retries && self.on_failure_retries
            == other.on_failure_retries && self.on_submission_failure_retry_interval
            == other.on_submission_failure_retry_interval && self.on_failure_retry_interval
            == other.on_failure_retry_interval
    }
}

/// The dependency lists of an application: jars, files, Python files, maven
/// packages, exclusions and repositories.  Accumulation appends, it never
/// de-duplicates.
pub struct Dependencies {
    pub jars: Option<Vec<String>>,
    pub files: Option<Vec<String>>,
    pub py_files: Option<Vec<String>>,
    pub packages: Option<Vec<String>>,
    pub exclude_packages: Option<Vec<String>>,
    pub repositories: Option<Vec<String>>,
}

impl Default for Dependencies {
    /// All lists absent.
    fn default() -> (r: Dependencies)
        ensures
            r.jars is None,
            r.files is None,
            r.py_files is None,
            r.packages is None,
            r.exclude_packages is None,
            r.repositories is None,
    {
        Dependencies {
            jars: None,
            files: None,
            py_files: None,
            packages: None,
            exclude_packages: None,
            repositories: None,
        }
    }
}

/// Append the second list to the first, treating an absent list as empty;
/// the result is always present.
fn extend_opt_list(a: &mut Option<Vec<String>>, b: &Option<Vec<String>>)
    ensures
        (*final(a)) matches Some(v) && view_of_strings(v@) == olist_or_empty(&*old(a))
            + olist_or_empty(b),
{
    let mut v = match a.take() {
        Some(v) => v,
        None => Vec::new(),
    };
    proof {
        assert(view_of_strings(v@) =~= olist_or_empty(old(a)));
    }
    let ghost base = view_of_strings(v@);
    match b {
        Some(other) => {
            let n = other.len();
            let mut i: usize = 0;
            while i < n
                invariant
                    i <= n,
                    n == other@.len(),
                    v@.len() == base.len() + i,
                    forall|k: int| 0 <= k < base.len() ==> (#[trigger] v@[k])@ == base[k],
                    forall|k: int| 0 <= k < i ==> (#[trigger] v@[base.len() + k])@ == other@[k]@,
                decreases n - i,
            {
                v.push(other[i].clone());
                i = i + 1;
            }
            proof {
                assert forall|j: int| base.len() <= j < v@.len() implies (#[trigger] v@[j])@
                    == other@[j - base.len()]@ by {
                    assert(v@[base.len() + (j - base.len())]@ == other@[j - base.len()]@);
                }
                assert(view_of_strings(v@) =~= base + olist_or_empty(b));
            }
        }
        None => {
            proof {
                assert(view_of_strings(v@) =~= base + olist_or_empty(b));
            }
        }
    }
    *a = Some(v);
}

impl Dependencies {
    /// Append every list of `other` to the corresponding list here, in
    /// order, keeping duplicates.  All lists are present afterwards.
    pub fn extend(&mut self, other: Dependencies)
        ensures
            final(self).jars matches Some(v) && view_of_strings(v@) == olist_or_empty(
                &old(self).jars,
            ) + olist_or_empty(&other.jars),
            final(self).files matches Some(v) && view_of_strings(v@) == olist_or_empty(
                &old(self).files,
            ) + olist_or_empty(&other.files),
            final(self).py_files matches Some(v) && view_of_strings(v@) == olist_or_empty(
                &old(self).py_files,
            ) + olist_or_empty(&other.py_files),
            final(self).packages matches Some(v) && view_of_strings(v@) == olist_or_empty(
                &old(self).packages,
            ) + olist_or_empty(&other.packages),
            final(self).exclude_packages matches Some(v) && view_of_strings(v@) == olist_or_empty(
                &old(self).exclude_packages,
            ) + olist_or_empty(&other.exclude_packages),
            final(self).repositories matches Some(v) && view_of_strings(v@) == olist_or_empty(
                &old(self).repositories,
            ) + olist_or_empty(&other.repositories),
    {
        extend_opt_list(&mut self.jars, &other.jars);
        extend_opt_list(&mut self.files, &other.files);
        extend_opt_list(&mut self.py_files, &other.py_files);
        extend_opt_list(&mut self.packages, &other.packages);
        extend_opt_list(&mut self.exclude_packages, &other.exclude_packages);
        extend_opt_list(&mut self.repositories, &other.repositories);
    }

    /// Append jars only.
    pub fn extend_jars(&mut self, jars: Vec<String>)
        ensures
            final(self).jars matches Some(v) && view_of_strings(v@) == olist_or_empty(
                &old(self).jars,
            ) + view_of_strings(jars@),
            final(self).files == old(self).files,
            final(self).py_files == old(self).py_files,
            final(self).packages == old(self).packages,
            final(self).exclude_packages == old(self).exclude_packages,
            final(self).repositories == old(self).repositories,
    {
        extend_opt_list(&mut self.jars, &Some(jars));
    }

    pub open spec fn same_as(&self, other: &Dependencies) -> bool {
        olist(&self.jars) == olist(&other.jars) && olist(&self.files) == olist(&other.files)
            && olist(&self.py_files) == olist(&other.py_files) && olist(&self.packages) == olist(
            &other.packages,
        ) && olist(&self.exclude_packages) == olist(&other.exclude_packages) && olist(
            &self.repositories,
        ) == olist(&other.repositories)
    }

    /// Copy the dependency lists.
    pub fn clone_deps(&self) -> (r: Dependencies)
        ensures
            r.same_as(self),
    {
        Dependencies {
            jars: clone_opt_list(&self.jars),
            files: clone_opt_list(&self.files),
            py_files: clone_opt_list(&self.py_files),
            packages: clone_opt_list(&self.packages),
            exclude_packages: clone_opt_list(&self.exclude_packages),
            repositories: clone_opt_list(&self.repositories),
        }
    }
}

/// Copy an optional string list, keeping its view.
pub fn clone_opt_list(o: &Option<Vec<String>>) -> (r: Option<Vec<String>>)
    ensures
        olist(&r) == olist(o),
{
    match o {
        Some(v) => Some(crate::tree::clone_strings(v)),
        None => None,
    }
}

/// Element-wise equality of optional port lists.
pub open spec fn ports_same(a: &Option<Vec<Port>>, b: &Option<Vec<Port>>) -> bool {
    match (a, b) {
        (Some(x), Some(y)) => x@.len() == y@.len() && forall|i: int|
            0 <= i < x@.len() ==> (#[trigger] x@[i]).same_as(&y@[i]),
        (None, None) => true,
        _ => false,
    }
}

/// Element-wise equality of optional name/path lists.
pub open spec fn name_paths_same(a: &Option<Vec<NamePath>>, b: &Option<Vec<NamePath>>) -> bool {
    match (a, b) {
        (Some(x), Some(y)) => x@.len() == y@.len() && forall|i: int|
            0 <= i < x@.len() ==> (#[trigger] x@[i]).same_as(&y@[i]),
        (None, None) => true,
        _ => false,
    }
}

/// Element-wise equality of optional secret lists.
pub open spec fn secrets_same(a: &Option<Vec<SecretInfo>>, b: &Option<Vec<SecretInfo>>) -> bool {
    match (a, b) {
        (Some(x), Some(y)) => x@.len() == y@.len() && forall|i: int|
            0 <= i < x@.len() ==> (#[trigger] x@[i]).same_as(&y@[i]),
        (None, None) => true,
        _ => false,
    }
}

/// Element-wise equality of optional environment variable lists.
pub open spec fn envs_same(a: &Option<Vec<EnvVar>>, b: &Option<Vec<EnvVar>>) -> bool {
    match (a, b) {
        (Some(x), Some(y)) => x@.len() == y@.len() && forall|i: int|
            0 <= i < x@.len() ==> (#[trigger] x@[i]).same_as(&y@[i]),
        (None, None) => true,
        _ => false,
    }
}

/// Equality of optional configuration maps.
pub open spec fn omap_same(a: &Option<ConfMap>, b: &Option<ConfMap>) -> bool {
    omap(a) == omap(b)
}

/// The monitoring specification.
pub struct MonitoringSpec {
    /// Whether to expose metrics on the driver.
    pub expose_driver_metrics: bool,
    /// Whether to expose metrics on the executors.
    pub expose_executor_metrics: bool,
    /// The content of a custom metrics properties file.
    pub metrics_properties: Option<String>,
    /// The container-local path of the metrics properties file.
    pub metrics_properties_file: Option<String>,
    pub prometheus: Option<PrometheusSpec>,
}

impl MonitoringSpec {
    pub open spec fn same_as(&self, other: &MonitoringSpec) -> bool {
        self.expose_driver_metrics == other.expose_driver_metrics && self.expose_executor_metrics
            == other.expose_executor_metrics && ostr(&self.metrics_properties) == ostr(
            &other.metrics_properties,
        ) && ostr(&self.metrics_properties_file) == ostr(&other.metrics_properties_file) && (match (
            &self.prometheus,
            &other.prometheus,
        ) {
            (Some(a), Some(b)) => a.same_as(b),
            (None, None) => true,
            _ => false,
        })
    }
}

/// Configuration of the Prometheus JMX exporter.
pub struct PrometheusSpec {
    /// The path to the exporter jar in the container.
    pub jmx_exporter_jar: String,
    pub port: Option<i32>,
    pub port_name: Option<String>,
    pub config_file: Option<String>,
    pub configuration: Option<String>,
}

impl PrometheusSpec {
    pub open spec fn same_as(&self, other: &PrometheusSpec) -> bool {
        self.jmx_exporter_jar@ == other.jmx_exporter_jar@ && self.port == other.port && ostr(
            &self.port_name,
        ) == ostr(&other.port_name) && ostr(&self.config_file) == ostr(&other.config_file) && ostr(
            &self.configuration,
        ) == ostr(&other.configuration)
    }
}

/// Options for the batch scheduler, if one is used.
pub struct BatchSchedulerConfiguration {
    /// The resource queue the application belongs to.
    pub queue: Option<String>,
    /// The name of the priority class resource.
    pub priority_class_name: Option<String>,
    /// The lower-bound resource request list.
    pub resources: Option<String>,
}

impl BatchSchedulerConfiguration {
    pub open spec fn same_as(&self, other: &BatchSchedulerConfiguration) -> bool {
        ostr(&self.queue) == ostr(&other.queue) && ostr(&self.priority_class_name) == ostr(
            &other.priority_class_name,
        ) && ostr(&self.resources) == ostr(&other.resources)
    }
}

/// Options of the driver web UI service.
pub struct SparkUIConfiguration {
    /// The port at service level, which may differ from the target port.
    pub service_port: i32,
    /// The name of the service port.
    pub service_port_name: String,
    /// The type of the service.
    pub service_type: String,
    pub service_annotations: Option<ConfMap>,
}

impl SparkUIConfiguration {
    pub open spec fn same_as(&self, other: &SparkUIConfiguration) -> bool {
        self.service_port == other.service_port && self.service_port_name@
            == other.service_port_name@ && self.service_type@ == other.service_type@ && omap_same(
            &self.service_annotations,
            &other.service_annotations,
        )
    }
}

/// Configuration options for dynamic executor allocation.
pub struct DynamicAllocation {
    pub enabled: Option<bool>,
    pub initial_executors: Option<i32>,
    pub min_executors: Option<i32>,
    pub max_executors: Option<i32>,
    /// Timeout in milliseconds for executors holding shuffle data.
    pub shuffle_tracking_timeout: Option<i32>,
}

impl DynamicAllocation {
    pub open spec fn same_as(&self, other: &DynamicAllocation) -> bool {
        self.enabled == other.enabled && self.initial_executors == other.initial_executors
            && self.min_executors == other.min_executors && self.max_executors
            == other.max_executors && self.shuffle_tracking_timeout
            == other.shuffle_tracking_timeout
    }
}

/// The driver pod settings.
pub struct DriverSpec {
    /// The physical CPU core request for the driver.
    pub core_request: Option<String>,
    /// Extra JVM options to pass to the driver.
    pub java_options: Option<String>,
    /// The custom service account used by the pod.
    pub service_account: Option<String>,
    pub cores: Option<i32>,
    pub core_limit: Option<String>,
    pub memory: Option<String>,
    pub memory_overhead: Option<String>,
    /// Ports settings for the pod.
    pub ports: Option<Vec<Port>>,
    /// Other config maps to add to the pod.
    pub config_maps: Option<Vec<NamePath>>,
    /// Secrets to add to the pod.
    pub secrets: Option<Vec<SecretInfo>>,
    /// Environment variables to add to the pod.
    pub env: Option<Vec<EnvVar>>,
    pub node_selector: Option<ConfMap>,
}

impl Default for DriverSpec {
    /// All settings absent.
    fn default() -> (r: DriverSpec)
        ensures
            r.core_request is None,
            r.java_options is None,
            r.service_account is None,
            r.cores is None,
            r.core_limit is None,
            r.memory is None,
            r.memory_overhead is None,
            r.ports is None,
            r.config_maps is None,
            r.secrets is None,
            r.env is None,
            r.node_selector is None,
    {
        DriverSpec {
            core_request: None,
            java_options: None,
            service_account: None,
            cores: None,
            core_limit: None,
            memory: None,
            memory_overhead: None,
            ports: None,
            config_maps: None,
            secrets: None,
            env: None,
            node_selector: None,
        }
    }
}

impl DriverSpec {
    pub open spec fn same_as(&self, other: &DriverSpec) -> bool {
        ostr(&self.core_request) == ostr(&other.core_request) && ostr(&self.java_options) == ostr(
            &other.java_options,
        ) && ostr(&self.service_account) == ostr(&other.service_account) && self.cores
            == other.cores && ostr(&self.core_limit) == ostr(&other.core_limit) && ostr(
            &self.memory,
        ) == ostr(&other.memory) && ostr(&self.memory_overhead) == ostr(&other.memory_overhead)
            && ports_same(&self.ports, &other.ports) && name_paths_same(
            &self.config_maps,
            &other.config_maps,
        ) && secrets_same(&self.secrets, &other.secrets) && envs_same(&self.env, &other.env)
            && omap_same(&self.node_selector, &other.node_selector)
    }
}

/// The executor pod settings.
pub struct ExecutorSpec {
    /// The number of executor instances.
    pub instances: Option<i32>,
    /// The physical CPU core request for the executors.
    pub core_request: Option<String>,
    /// Extra JVM options to pass to the executors.
    pub java_options: Option<String>,
    /// Whether executor pods are deleted on termination.
    pub delete_on_termination: Option<bool>,
    /// The custom service account used by the pods.
    pub service_account: Option<String>,
    pub cores: Option<i32>,
    pub core_limit: Option<String>,
    pub memory: Option<String>,
    pub memory_overhead: Option<String>,
    /// Secrets to add to the pods.
    pub secrets: Option<Vec<SecretInfo>>,
    /// Environment variables to add to the pods.
    pub env: Option<Vec<EnvVar>>,
    pub node_selector: Option<ConfMap>,
}

impl Default for ExecutorSpec {
    /// All settings absent.
    fn default() -> (r: ExecutorSpec)
        ensures
            r.instances is None,
            r.core_request is None,
            r.java_options is None,
            r.delete_on_termination is None,
            r.service_account is None,
            r.cores is None,
            r.core_limit is None,
            r.memory is None,
            r.memory_overhead is None,
            r.secrets is None,
            r.env is None,
            r.node_selector is None,
    {
        ExecutorSpec {
            instances: None,
            core_request: None,
            java_options: None,
            delete_on_termination: None,
            service_account: None,
            cores: None,
            core_limit: None,
            memory: None,
            memory_overhead: None,
            secrets: None,
            env: None,
            node_selector: None,
        }
    }
}

impl ExecutorSpec {
    pub open spec fn same_as(&self, other: &ExecutorSpec) -> bool {
        self.instances == other.instances && ostr(&self.core_request) == ostr(&other.core_request)
            && ostr(&self.java_options) == ostr(&other.java_options) && self.delete_on_termination
            == other.delete_on_termination && ostr(&self.service_account) == ostr(
            &other.service_account,
        ) && self.cores == other.cores && ostr(&self.core_limit) == ostr(&other.core_limit) && ostr(
            &self.memory,
        ) == ostr(&other.memory) && ostr(&self.memory_overhead) == ostr(&other.memory_overhead)
            && secrets_same(&self.secrets, &other.secrets) && envs_same(&self.env, &other.env)
            && omap_same(&self.node_selector, &other.node_selector)
    }
}

/// The embedded Spark specification: cluster, image, resourcing and
/// configuration, together with the attached configuration fragments.
/// Templates carry the same shape.
pub struct SparkSpec {
    pub spark_version: String,
    /// The deployment mode: cluster or client.
    pub mode: Option<String>,
    pub proxy_user: Option<String>,
    /// The container image for driver and executors.
    pub image: Option<String>,
    pub image_pull_policy: Option<ImagePullPolicy>,
    pub image_pull_secrets: Option<Vec<String>>,
    pub spark_conf: Option<ConfMap>,
    pub hadoop_conf: Option<ConfMap>,
    pub spark_config_map: Option<String>,
    pub hadoop_config_map: Option<String>,
    pub driver: DriverSpec,
    pub executor: Option<ExecutorSpec>,
    pub deps: Option<Dependencies>,
    pub restart_policy: Option<RestartPolicy>,
    pub node_selector: Option<ConfMap>,
    pub failure_retries: Option<i32>,
    pub retry_interval: Option<i64>,
    pub memory_overhead_factor: Option<String>,
    pub monitoring: Option<MonitoringSpec>,
    /// Which batch scheduler to use for scheduling.
    pub batch_scheduler: Option<String>,
    pub batch_scheduler_options: Option<BatchSchedulerConfiguration>,
    pub time_to_live_seconds: Option<i64>,
    pub spark_uioptions: Option<SparkUIConfiguration>,
    pub dynamic_allocation: Option<DynamicAllocation>,
    /// The S3 connection this application reads from and writes to.
    pub s3_connection: Option<S3ConnectionDef>,
    /// The catalogs this application uses, in order.
    pub catalogs: Option<Vec<SparkCatalogDef>>,
    /// The environment sets this application pulls in, in order.
    pub env_sets: Option<Vec<SparkEnvSetDef>>,
}

impl Default for SparkSpec {
    /// An empty specification: version empty, driver empty, all else
    /// absent.
    fn default() -> (r: SparkSpec)
        ensures
            r.spark_version@ == Seq::<char>::empty(),
            r.mode is None,
            r.proxy_user is None,
            r.image is None,
            r.image_pull_policy is None,
            r.image_pull_secrets is None,
            r.spark_conf is None,
            r.hadoop_conf is None,
            r.spark_config_map is None,
            r.hadoop_config_map is None,
            r.driver.core_request is None,
            r.driver.java_options is None,
            r.driver.service_account is None,
            r.driver.cores is None,
            r.driver.core_limit is None,
            r.driver.memory is None,
            r.driver.memory_overhead is None,
            r.driver.ports is None,
            r.driver.config_maps is None,
            r.driver.secrets is None,
            r.driver.env is None,
            r.driver.node_selector is None,
            r.executor is None,
            r.deps is None,
            r.restart_policy is None,
            r.node_selector is None,
            r.failure_retries is None,
            r.retry_interval is None,
            r.memory_overhead_factor is None,
            r.monitoring is None,
            r.batch_scheduler is None,
            r.batch_scheduler_options is None,
            r.time_to_live_seconds is None,
            r.spark_uioptions is None,
            r.dynamic_allocation is None,
            r.s3_connection is None,
            r.catalogs is None,
            r.env_sets is None,
    {
        SparkSpec {
            spark_version: String::new(),
            mode: None,
            proxy_user: None,
            image: None,
            image_pull_policy: None,
            image_pull_secrets: None,
            spark_conf: None,
            hadoop_conf: None,
            spark_config_map: None,
            hadoop_config_map: None,
            driver: DriverSpec::default(),
            executor: None,
            deps: None,
            restart_policy: None,
            node_selector: None,
            failure_retries: None,
            retry_interval: None,
            memory_overhead_factor: None,
            monitoring: None,
            batch_scheduler: None,
            batch_scheduler_options: None,
            time_to_live_seconds: None,
            spark_uioptions: None,
            dynamic_allocation: None,
            s3_connection: None,
            catalogs: None,
            env_sets: None,
        }
    }
}
/// Equality of attached S3 connection definitions.
pub open spec fn conn_def_same(a: &S3ConnectionDef, b: &S3ConnectionDef) -> bool {
    match (a, b) {
        (S3ConnectionDef::Inline(x), S3ConnectionDef::Inline(y)) => x.same_as(y),
        (S3ConnectionDef::Reference(x), S3ConnectionDef::Reference(y)) => x@ == y@,
        _ => false,
    }
}

/// Equality of optional attached S3 connections.
pub open spec fn s3_def_same(a: &Option<S3ConnectionDef>, b: &Option<S3ConnectionDef>) -> bool {
    match (a, b) {
        (Some(x), Some(y)) => conn_def_same(x, y),
        (None, None) => true,
        _ => false,
    }
}

/// Equality of attached catalog definitions.
pub open spec fn catalog_def_same(a: &SparkCatalogDef, b: &SparkCatalogDef) -> bool {
    match (a, b) {
        (SparkCatalogDef::Inline(x), SparkCatalogDef::Inline(y)) => x.same_as(y),
        (SparkCatalogDef::Reference(x), SparkCatalogDef::Reference(y)) => x@ == y@,
        _ => false,
    }
}

/// Element-wise equality of optional catalog lists.
pub open spec fn catalogs_same(a: &Option<Vec<SparkCatalogDef>>, b: &Option<Vec<SparkCatalogDef>>) -> bool {
    match (a, b) {
        (Some(x), Some(y)) => x@.len() == y@.len() && forall|i: int|
            0 <= i < x@.len() ==> catalog_def_same(&x@[i], &y@[i]),
        (None, None) => true,
        _ => false,
    }
}

/// Equality of attached environment-set definitions.
pub open spec fn env_set_def_same(a: &SparkEnvSetDef, b: &SparkEnvSetDef) -> bool {
    match (a, b) {
        (SparkEnvSetDef::Inline(x), SparkEnvSetDef::Inline(y)) => x.same_as(y),
        (SparkEnvSetDef::Reference(x), SparkEnvSetDef::Reference(y)) => x@ == y@,
        _ => false,
    }
}

/// Element-wise equality of optional environment-set lists.
pub open spec fn env_sets_same(a: &Option<Vec<SparkEnvSetDef>>, b: &Option<Vec<SparkEnvSetDef>>) -> bool {
    match (a, b) {
        (Some(x), Some(y)) => x@.len() == y@.len() && forall|i: int|
            0 <= i < x@.len() ==> env_set_def_same(&x@[i], &y@[i]),
        (None, None) => true,
        _ => false,
    }
}

impl SparkSpec {
    /// Field-by-field equality of specifications, compared as values: same
    /// strings, same maps, same lists, same attached fragments.
    pub open spec fn same_as(&self, other: &SparkSpec) -> bool {
        &&& self.spark_version@ == other.spark_version@
        &&& ostr(&self.mode) == ostr(&other.mode)
        &&& ostr(&self.proxy_user) == ostr(&other.proxy_user)
        &&& ostr(&self.image) == ostr(&other.image)
        &&& self.image_pull_policy == other.image_pull_policy
        &&& olist(&self.image_pull_secrets) == olist(&other.image_pull_secrets)
        &&& omap_same(&self.spark_conf, &other.spark_conf)
        &&& omap_same(&self.hadoop_conf, &other.hadoop_conf)
        &&& ostr(&self.spark_config_map) == ostr(&other.spark_config_map)
        &&& ostr(&self.hadoop_config_map) == ostr(&other.hadoop_config_map)
        &&& self.driver.same_as(&other.driver)
        &&& match (&self.executor, &other.executor) {
            (Some(a), Some(b)) => a.same_as(b),
            (None, None) => true,
            _ => false,
        }
        &&& match (&self.deps, &other.deps) {
            (Some(a), Some(b)) => a.same_as(b),
            (None, None) => true,
            _ => false,
        }
        &&& match (&self.restart_policy, &other.restart_policy) {
            (Some(a), Some(b)) => a.same_as(b),
            (None, None) => true,
            _ => false,
        }
        &&& omap_same(&self.node_selector, &other.node_selector)
        &&& self.failure_retries == other.failure_retries
        &&& self.retry_interval == other.retry_interval
        &&& ostr(&self.memory_overhead_factor) == ostr(&other.memory_overhead_factor)
        &&& match (&self.monitoring, &other.monitoring) {
            (Some(a), Some(b)) => a.same_as(b),
            (None, None) => true,
            _ => false,
        }
        &&& ostr(&self.batch_scheduler) == ostr(&other.batch_scheduler)
        &&& match (&self.batch_scheduler_options, &other.batch_scheduler_options) {
            (Some(a), Some(b)) => a.same_as(b),
            (None, None) => true,
            _ => false,
        }
        &&& self.time_to_live_seconds == other.time_to_live_seconds
        &&& match (&self.spark_uioptions, &other.spark_uioptions) {
            (Some(a), Some(b)) => a.same_as(b),
            (None, None) => true,
            _ => false,
        }
        &&& match (&self.dynamic_allocation, &other.dynamic_allocation) {
            (Some(a), Some(b)) => a.same_as(b),
            (None, None) => true,
            _ => false,
        }
        &&& s3_def_same(&self.s3_connection, &other.s3_connection)
        &&& catalogs_same(&self.catalogs, &other.catalogs)
        &&& env_sets_same(&self.env_sets, &other.env_sets)
    }
}

/// The payload of an inline-SQL job.
pub struct SqlJobSpec {
    pub statement: String,
}

/// The payload of a SQL-file job.
pub struct SqlFileJobSpec {
    pub file: String,
}

/// The payload of a JAR job: the bundled application file, the main class
/// and arguments.
pub struct JarJobSpec {
    /// The path to the bundled JAR of the application.
    pub main_application_file: String,
    /// The fully-qualified main class; only Java and Scala applications
    /// carry one.
    pub main_class: Option<String>,
    /// Arguments passed to the application.
    pub arguments: Option<Vec<String>>,
}

/// The payload of a Python job.
pub struct PythonJobSpec {
    /// The major Python version of the image, `2` or `3`.
    pub python_version: Option<String>,
    /// Becomes the main application file downstream.
    pub application_file: String,
}

/// The payload of an R job.
pub struct RJobSpec {
    /// Becomes the main application file downstream.
    pub application_file: String,
}

/// The job descriptor: the job type plus its type-specific payload.
pub struct JobSpec {
    pub typ: SparkJobType,
    pub sql: Option<String>,
    pub sql_file: Option<String>,
    pub jar: Option<JarJobSpec>,
    pub python: Option<PythonJobSpec>,
    pub r: Option<RJobSpec>,
}

impl Default for JobSpec {
    /// An inline-SQL job with no payload yet.
    fn default() -> (r: JobSpec)
        ensures
            r.typ == SparkJobType::SqlJob,
            r.sql is None,
            r.sql_file is None,
            r.jar is None,
            r.python is None,
            r.r is None,
    {
        JobSpec { typ: SparkJobType::SqlJob, sql: None, sql_file: None, jar: None, python: None, r: None }
    }
}

/// The schedule of a scheduled job.
pub struct ScheduleSpec {
    /// A cron schedule.
    pub schedule: String,
    /// One of `Allow`, `Forbid` and `Replace`.
    pub concurrency_policy: Option<String>,
    pub failed_run_history_limit: Option<i32>,
    pub successful_run_history_limit: Option<i32>,
    pub suspend: Option<bool>,
}

/// Options of one of the session's two services.
pub struct SparkHiveserver2ServiceConfiguration {
    /// The port at service level, which may differ from the target port.
    pub service_port: Option<i32>,
    /// The name of the service port.
    pub service_port_name: Option<String>,
    /// The type of the service.
    pub service_type: Option<ServiceType>,
    pub service_annotations: Option<ConfMap>,
}

impl Default for SparkHiveserver2ServiceConfiguration {
    /// All options absent.
    fn default() -> (r: SparkHiveserver2ServiceConfiguration)
        ensures
            r.service_port is None,
            r.service_port_name is None,
            r.service_type is None,
            r.service_annotations is None,
    {
        SparkHiveserver2ServiceConfiguration {
            service_port: None,
            service_port_name: None,
            service_type: None,
            service_annotations: None,
        }
    }
}

/// The session payload: options of the Thrift service and of the web UI
/// service.
pub struct SessionSpec {
    pub hive_server2_thrift_options: Option<SparkHiveserver2ServiceConfiguration>,
    pub hive_server2_ui_options: Option<SparkHiveserver2ServiceConfiguration>,
}

impl Default for SessionSpec {
    /// Both services use their defaults.
    fn default() -> (r: SessionSpec)
        ensures
            r.hive_server2_thrift_options is None,
            r.hive_server2_ui_options is None,
    {
        SessionSpec { hive_server2_thrift_options: None, hive_server2_ui_options: None }
    }
}

/// A reusable base specification that instances may inherit from by name.
pub struct SparkTemplate {
    pub metadata: ObjectMeta,
    pub spec: SparkSpec,
}

/// The specification of an ad-hoc job resource.
pub struct SparkJobSpec {
    /// The name of the template this job inherits from, if any.
    pub spark_template: Option<String>,
    pub spark: SparkSpec,
    pub job: JobSpec,
}

/// An ad-hoc job resource.
pub struct SparkJob {
    pub metadata: ObjectMeta,
    pub spec: SparkJobSpec,
    pub status: Option<crate::crd::SparkApplicationStatus>,
}

/// The specification of a scheduled job resource.
pub struct SparkScheduledJobSpec {
    /// The name of the template this job inherits from, if any.
    pub spark_template: Option<String>,
    pub spark: SparkSpec,
    pub job: JobSpec,
    pub schedule: ScheduleSpec,
}

/// A scheduled job resource.
pub struct SparkScheduledJob {
    pub metadata: ObjectMeta,
    pub spec: SparkScheduledJobSpec,
    pub status: Option<crate::crd::SparkApplicationStatus>,
}

/// The specification of a long-running SQL session resource.
pub struct SparkSessionSpec {
    /// The name of the template this session inherits from, if any.
    pub spark_template: Option<String>,
    pub spark: SparkSpec,
    pub session: SessionSpec,
}

/// A long-running SQL session resource.
pub struct SparkSession {
    pub metadata: ObjectMeta,
    pub spec: SparkSessionSpec,
    pub status: Option<crate::crd::SparkApplicationStatus>,
}

/// The name of the auxiliary SQL config map for an application name: a
/// fixed prefix plus the sanitized name.  Callers that manage sibling kinds
/// under one user-given name must pass a kind-suffixed `app_name` here, or
/// the derived names collide.
pub open spec fn sql_config_map_name_view(app_name: Seq<char>) -> Seq<char> {
    "sql-statement-"@ + crate::utils::repaired(app_name)
}

impl JobSpec {
    /// The name of the auxiliary SQL config map for this application name.
    pub fn sql_config_map_name(&self, app_name: &String) -> (r: String)
        ensures
            r@ == sql_config_map_name_view(app_name@),
    {
        let mut s = String::from_str(crate::constants::SQL_FILE_CONFIG_MAP_PREFIX);
        let repaired_name = crate::utils::repair_resource_name(app_name);
        s.append(repaired_name.as_str());
        s
    }

    /// The auxiliary config map holding the inline SQL text under the fixed
    /// file name; an inline-SQL job without SQL text is rejected.
    pub fn sql_config_map(&self, metadata: ObjectMeta) -> (r: Result<
        crate::k8s::ConfigMap,
        crate::crd::Error,
    >)
        ensures
            self.sql is None ==> (r matches Err(e) && e.is_missing_job_field(
                SparkJobType::SqlJob,
                "sql"@,
            )),
            self.sql matches Some(sql) ==> (r matches Ok(cm) && {
                &&& cm.metadata == metadata
                &&& cm.data matches Some(d) && d@ == Map::<Seq<char>, Seq<char>>::empty().insert(
                    "statement.sql"@,
                    sql@,
                )
                &&& cm.immutable == Some(true)
            }),
    {
        match &self.sql {
            Some(sql) => {
                let mut data = crate::conf::ConfMap::new();
                data.insert(
                    String::from_str(crate::constants::SQL_FILE_LOCAL_FILE_NAME),
                    sql.clone(),
                );
                Ok(crate::k8s::ConfigMap { metadata, data: Some(data), immutable: Some(true) })
            }
            None => Err(
                crate::crd::Error::MissingJobField {
                    job_type: SparkJobType::SqlJob,
                    field_name: "sql".to_owned(),
                },
            ),
        }
    }
}

/// Append one string to an optional list; the list is present afterwards.
fn push_opt_string(a: &mut Option<Vec<String>>, v: String)
    ensures
        (*final(a)) matches Some(l) && view_of_strings(l@) == olist_or_empty(&*old(a))
            + seq![v@],
{
    let mut l = match a.take() {
        Some(l) => l,
        None => Vec::new(),
    };
    proof {
        assert(view_of_strings(l@) =~= olist_or_empty(&*old(a)));
    }
    let ghost base = view_of_strings(l@);
    l.push(v);
    proof {
        assert(view_of_strings(l@) =~= base + seq![l@.last()@]);
    }
    *a = Some(l);
}

/// Append one name/path pair to an optional list; the list is present
/// afterwards.
fn push_opt_name_path(a: &mut Option<Vec<NamePath>>, v: NamePath)
    ensures
        (*final(a)) matches Some(l) && l@.len() == (match &*old(a) {
            Some(o) => o@.len() + 1,
            None => 1,
        }) && l@.last() == v && (match &*old(a) {
            Some(o) => forall|i: int| 0 <= i < o@.len() ==> l@[i] == o@[i],
            None => true,
        }),
{
    let mut l = match a.take() {
        Some(l) => l,
        None => Vec::new(),
    };
    l.push(v);
    *a = Some(l);
}

/// The downstream application language for a job type: SQL and Java jobs
/// run as Java, and Scala, Python and R jobs as their own languages.
pub open spec fn sko_application_type_view(typ: SparkJobType) -> Seq<char> {
    match typ {
        SparkJobType::SqlJob => "Java"@,
        SparkJobType::SqlFileJob => "Java"@,
        SparkJobType::JarJob => "Java"@,
        SparkJobType::JavaJob => "Java"@,
        SparkJobType::ScalaJob => "Scala"@,
        SparkJobType::PythonJob => "Python"@,
        SparkJobType::RJob => "R"@,
    }
}

/// The downstream application language for a job type.
pub fn sko_application_type(typ: &SparkJobType) -> (r: String)
    ensures
        r@ == sko_application_type_view(*typ),
{
    match typ {
        SparkJobType::SqlJob | SparkJobType::SqlFileJob | SparkJobType::JarJob
            | SparkJobType::JavaJob => crate::constants::SKO_APPLICATION_TYPE_JAVA.to_owned(),
        SparkJobType::ScalaJob => crate::constants::SKO_APPLICATION_TYPE_SCALA.to_owned(),
        SparkJobType::PythonJob => crate::constants::SKO_APPLICATION_TYPE_PYTHON.to_owned(),
        SparkJobType::RJob => crate::constants::SKO_APPLICATION_TYPE_R.to_owned(),
    }
}

/// All downstream fields except the entrypoint-related ones (entrypoint
/// artifact, main class, Python version, arguments) and the driver are
/// unchanged between the two values.
pub open spec fn sko_entry_frame(
    old_spec: &crate::sko_spark_application::SKOSparkApplicationSpec,
    new_spec: &crate::sko_spark_application::SKOSparkApplicationSpec,
) -> bool {
    &&& new_spec.typ == old_spec.typ
    &&& new_spec.spark_version == old_spec.spark_version
    &&& new_spec.mode == old_spec.mode
    &&& new_spec.proxy_user == old_spec.proxy_user
    &&& new_spec.image == old_spec.image
    &&& new_spec.image_pull_policy == old_spec.image_pull_policy
    &&& new_spec.image_pull_secrets == old_spec.image_pull_secrets
    &&& new_spec.spark_conf == old_spec.spark_conf
    &&& new_spec.hadoop_conf == old_spec.hadoop_conf
    &&& new_spec.spark_config_map == old_spec.spark_config_map
    &&& new_spec.hadoop_config_map == old_spec.hadoop_config_map
    &&& new_spec.executor == old_spec.executor
    &&& new_spec.deps == old_spec.deps
    &&& new_spec.restart_policy == old_spec.restart_policy
    &&& new_spec.node_selector == old_spec.node_selector
    &&& new_spec.failure_retries == old_spec.failure_retries
    &&& new_spec.retry_interval == old_spec.retry_interval
    &&& new_spec.memory_overhead_factor == old_spec.memory_overhead_factor
    &&& new_spec.monitoring == old_spec.monitoring
    &&& new_spec.batch_scheduler == old_spec.batch_scheduler
    &&& new_spec.batch_scheduler_options == old_spec.batch_scheduler_options
    &&& new_spec.time_to_live_seconds == old_spec.time_to_live_seconds
    &&& new_spec.spark_uioptions == old_spec.spark_uioptions
    &&& new_spec.dynamic_allocation == old_spec.dynamic_allocation
}

/// All driver fields except the config-map mounts are unchanged between the
/// two values.
pub open spec fn driver_conf_maps_frame(old_driver: &DriverSpec, new_driver: &DriverSpec) -> bool {
    &&& new_driver.core_request == old_driver.core_request
    &&& new_driver.java_options == old_driver.java_options
    &&& new_driver.service_account == old_driver.service_account
    &&& new_driver.cores == old_driver.cores
    &&& new_driver.core_limit == old_driver.core_limit
    &&& new_driver.memory == old_driver.memory
    &&& new_driver.memory_overhead == old_driver.memory_overhead
    &&& new_driver.ports == old_driver.ports
    &&& new_driver.secrets == old_driver.secrets
    &&& new_driver.env == old_driver.env
    &&& new_driver.node_selector == old_driver.node_selector
}

impl JobSpec {
    /// Populate the job-type-specific fields of the downstream
    /// specification: the entrypoint artifact, the main class, the
    /// arguments, and for inline SQL the driver's config-map mount.  A
    /// missing type-specific payload is rejected, naming the job type and
    /// the field, and leaves the specification untouched.
    pub fn populate_sko_fields(
        &self,
        app_name: &String,
        sko: &mut crate::sko_spark_application::SKOSparkApplicationSpec,
    ) -> (r: Result<(), crate::crd::Error>)
        ensures
            r is Err ==> *final(sko) == *old(sko),
            (self.typ == SparkJobType::JarJob || self.typ == SparkJobType::JavaJob || self.typ
                == SparkJobType::ScalaJob) ==> match &self.jar {
                None => r matches Err(e) && e.is_missing_job_field(self.typ, "jar"@),
                Some(jar) => r is Ok && {
                    &&& final(sko).main_application_file matches Some(f) && f@
                        == jar.main_application_file@
                    &&& ostr(&final(sko).main_class) == ostr(&jar.main_class)
                    &&& sko_entry_frame(old(sko), final(sko))
                    &&& final(sko).python_verison == old(sko).python_verison
                    &&& final(sko).arguments == old(sko).arguments
                    &&& final(sko).driver == old(sko).driver
                },
            },
            self.typ == SparkJobType::SqlJob ==> r is Ok && {
                &&& final(sko).main_application_file matches Some(f) && f@
                    == "local:///opt/spark/jars/spark-oper-sql_3.1.1-0.1.0.jar"@
                &&& final(sko).main_class matches Some(c) && c@
                    == "org.apache.spark.sql.hive.thriftserver.SparkSqlScriptCli"@
                &&& final(sko).arguments matches Some(args) && view_of_strings(args@)
                    == olist_or_empty(&old(sko).arguments) + seq![
                    "-f"@ + "/bytenative/sqls"@ + "/"@ + "statement.sql"@,
                ]
                &&& final(sko).driver.config_maps matches Some(cms) && {
                    &&& cms@.len() == (match &old(sko).driver.config_maps {
                        Some(o) => o@.len() + 1,
                        None => 1,
                    })
                    &&& (match &old(sko).driver.config_maps {
                        Some(o) => forall|i: int| 0 <= i < o@.len() ==> cms@[i] == o@[i],
                        None => true,
                    })
                    &&& cms@.last().name@ == sql_config_map_name_view(app_name@)
                    &&& cms@.last().path@ == "/bytenative/sqls"@
                }
                &&& sko_entry_frame(old(sko), final(sko))
                &&& final(sko).python_verison == old(sko).python_verison
                &&& driver_conf_maps_frame(&old(sko).driver, &final(sko).driver)
            },
            self.typ == SparkJobType::SqlFileJob ==> match &self.sql_file {
                None => r matches Err(e) && e.is_missing_job_field(self.typ, "sqlFile"@),
                Some(file) => r is Ok && {
                    &&& final(sko).main_application_file matches Some(f) && f@
                        == "local:///opt/spark/jars/spark-oper-sql_3.1.1-0.1.0.jar"@
                    &&& final(sko).main_class matches Some(c) && c@
                        == "org.apache.spark.sql.hive.thriftserver.SparkSqlScriptCli"@
                    &&& final(sko).arguments matches Some(args) && view_of_strings(args@)
                        == olist_or_empty(&old(sko).arguments) + seq!["-f"@ + file@]
                    &&& sko_entry_frame(old(sko), final(sko))
                    &&& final(sko).python_verison == old(sko).python_verison
                    &&& final(sko).driver == old(sko).driver
                },
            },
            self.typ == SparkJobType::PythonJob ==> match &self.python {
                None => r matches Err(e) && e.is_missing_job_field(self.typ, "python file"@),
                Some(py) => r is Ok && {
                    &&& final(sko).main_application_file matches Some(f) && f@
                        == py.application_file@
                    &&& ostr(&final(sko).python_verison) == ostr(&py.python_version)
                    &&& sko_entry_frame(old(sko), final(sko))
                    &&& final(sko).main_class == old(sko).main_class
                    &&& final(sko).arguments == old(sko).arguments
                    &&& final(sko).driver == old(sko).driver
                },
            },
            self.typ == SparkJobType::RJob ==> match &self.r {
                None => r matches Err(e) && e.is_missing_job_field(self.typ, "r file"@),
                Some(rj) => r is Ok && {
                    &&& final(sko).main_application_file matches Some(f) && f@
                        == rj.application_file@
                    &&& sko_entry_frame(old(sko), final(sko))
                    &&& final(sko).main_class == old(sko).main_class
                    &&& final(sko).python_verison == old(sko).python_verison
                    &&& final(sko).arguments == old(sko).arguments
                    &&& final(sko).driver == old(sko).driver
                },
            },
    {
        match self.typ {
            SparkJobType::JarJob | SparkJobType::JavaJob | SparkJobType::ScalaJob => {
                let jar = match &self.jar {
                    Some(jar) => jar,
                    None => {
                        return Err(
                            crate::crd::Error::MissingJobField {
                                job_type: self.typ,
                                field_name: "jar".to_owned(),
                            },
                        );
                    }
                };
                sko.main_application_file = Some(jar.main_application_file.clone());
                sko.main_class = clone_opt_string(&jar.main_class);
                Ok(())
            }
            SparkJobType::SqlJob => {
                sko.main_application_file = Some(
                    crate::constants::SPARK_MAIN_APPLICATION_FILE.to_owned(),
                );
                sko.main_class = Some(crate::constants::SPARK_SQL_MAIN_CLASS.to_owned());
                let mut sql_file = String::from_str("-f");
                sql_file.append(crate::constants::SQL_FILE_LOCAL_DIR_NAME);
                sql_file.append("/");
                sql_file.append(crate::constants::SQL_FILE_LOCAL_FILE_NAME);
                push_opt_string(&mut sko.arguments, sql_file);
                let mount = NamePath {
                    name: self.sql_config_map_name(app_name),
                    path: crate::constants::SQL_FILE_LOCAL_DIR_NAME.to_owned(),
                };
                push_opt_name_path(&mut sko.driver.config_maps, mount);
                Ok(())
            }
            SparkJobType::SqlFileJob => {
                let file = match &self.sql_file {
                    Some(file) => file,
                    None => {
                        return Err(
                            crate::crd::Error::MissingJobField {
                                job_type: self.typ,
                                field_name: "sqlFile".to_owned(),
                            },
                        );
                    }
                };
                sko.main_application_file = Some(
                    crate::constants::SPARK_MAIN_APPLICATION_FILE.to_owned(),
                );
                sko.main_class = Some(crate::constants::SPARK_SQL_MAIN_CLASS.to_owned());
                let mut arg = String::from_str("-f");
                arg.append(file.as_str());
                push_opt_string(&mut sko.arguments, arg);
                Ok(())
            }
            SparkJobType::PythonJob => {
                let py = match &self.python {
                    Some(py) => py,
                    None => {
                        return Err(
                            crate::crd::Error::MissingJobField {
                                job_type: self.typ,
                                field_name: "python file".to_owned(),
                            },
                        );
                    }
                };
                sko.main_application_file = Some(py.application_file.clone());
                sko.python_verison = clone_opt_string(&py.python_version);
                Ok(())
            }
            SparkJobType::RJob => {
                let rj = match &self.r {
                    Some(rj) => rj,
                    None => {
                        return Err(
                            crate::crd::Error::MissingJobField {
                                job_type: self.typ,
                                field_name: "r file".to_owned(),
                            },
                        );
                    }
                };
                sko.main_application_file = Some(rj.application_file.clone());
                Ok(())
            }
        }
    }
}

} // verus!
