//! The downstream application model consumed by the execution operator:
//! the flattened application specification, the scheduled variant, and the
//! status shapes read back from them.

use vstd::prelude::*;

use crate::conf::ConfMap;
use crate::metadata::ObjectMeta;
use crate::spark_application::Dependencies;
use crate::spark_application::DriverSpec;
use crate::spark_application::ExecutorSpec;
use crate::spark_application::ImagePullPolicy;
use crate::spark_application::MonitoringSpec;
use crate::spark_application::BatchSchedulerConfiguration;
use crate::spark_application::RestartPolicy;
use crate::spark_application::SparkUIConfiguration;
use crate::spark_application::DynamicAllocation;

verus! {

/// The resolved, flattened downstream application specification.  Produced
/// fresh on every reconcile, never mutated in place.
pub struct SKOSparkApplicationSpec {
    /// The application language type: Java, Scala, Python or R.
    pub typ: String,
    pub spark_version: String,
    pub mode: Option<String>,
    pub proxy_user: Option<String>,
    pub image: Option<String>,
    pub image_pull_policy: Option<ImagePullPolicy>,
    pub image_pull_secrets: Option<Vec<String>>,
    /// The entrypoint artifact.
    pub main_application_file: Option<String>,
    /// The main class, for Java and Scala applications.
    pub main_class: Option<String>,
    pub python_verison: Option<String>,
    /// Arguments passed to the application.
    pub arguments: Option<Vec<String>>,
    pub spark_conf: Option<ConfMap>,
    pub hadoop_conf: Option<ConfMap>,
    pub spark_config_map: Option<String>,
    pub hadoop_config_map: Option<String>,
    pub driver: DriverSpec,
    pub executor: Option<ExecutorSpec>,
    pub deps: Option<Dependencies>,
    pub restart_policy: Option<RestartPolicy>,
    pub node_selector: Option<ConfMap>,
    pub failure_retries: Option<i32>,
    pub retry_interval: Option<i64>,
    pub memory_overhead_factor: Option<String>,
    pub monitoring: Option<MonitoringSpec>,
    pub batch_scheduler: Option<String>,
    pub batch_scheduler_options: Option<BatchSchedulerConfiguration>,
    pub time_to_live_seconds: Option<i64>,
    pub spark_uioptions: Option<SparkUIConfiguration>,
    pub dynamic_allocation: Option<DynamicAllocation>,
}

/// The downstream scheduled application: a cron schedule around an
/// application template.
pub struct SKOScheduledSparkApplicationSpec {
    /// A cron schedule on which the application runs.
    pub schedule: String,
    /// The application created for each run.
    pub template: SKOSparkApplicationSpec,
    /// Suspends subsequent runs when true.
    pub suspend: Option<bool>,
    /// One of `Allow`, `Forbid` and `Replace`.
    pub concurrency_policy: Option<String>,
    pub successful_run_history_limit: Option<i32>,
    pub failed_run_history_limit: Option<i32>,
}

/// The status the execution operator writes on a downstream application.
pub struct SparkApplicationStatus {
    pub spark_application_id: Option<String>,
    pub submission_id: Option<String>,
    pub last_submission_attempt_time: Option<String>,
    pub termination_time: Option<String>,
    pub driver_info: DriverInfo,
    /// The overall application state.
    pub app_state: Option<ApplicationState>,
    /// The state of executors by executor pod name.
    pub executor_state: Option<ConfMap>,
    pub execution_attempts: Option<i32>,
    pub submission_attempts: Option<i32>,
}

/// The overall state of a downstream application.
pub struct ApplicationState {
    pub state: String,
    pub error_message: Option<String>,
}

/// Information about the driver the execution operator reports.
pub struct DriverInfo {
    pub web_uiservice_name: Option<String>,
    pub web_uiport: Option<i32>,
    pub web_uiaddress: Option<String>,
    pub web_uiingress_name: Option<String>,
    pub web_uiingress_address: Option<String>,
    pub pod_name: Option<String>,
}

impl Default for DriverInfo {
    /// No driver information yet.
    fn default() -> (r: DriverInfo)
        ensures
            r.web_uiservice_name is None,
            r.web_uiport is None,
            r.web_uiaddress is None,
            r.web_uiingress_name is None,
            r.web_uiingress_address is None,
            r.pod_name is None,
    {
        DriverInfo {
            web_uiservice_name: None,
            web_uiport: None,
            web_uiaddress: None,
            web_uiingress_name: None,
            web_uiingress_address: None,
            pod_name: None,
        }
    }
}

/// The status the execution operator writes on a scheduled application.
pub struct ScheduledSparkApplicationStatus {
    pub last_run: Option<String>,
    pub next_run: Option<String>,
    pub last_run_name: Option<String>,
    pub past_successful_run_names: Option<Vec<String>>,
    pub past_failed_run_names: Option<Vec<String>>,
    /// The current scheduling state: `FailedValidation` or `Scheduled`.
    pub schedule_state: Option<String>,
    pub reason: Option<String>,
}

/// A downstream application object.
pub struct SparkApplication {
    pub metadata: ObjectMeta,
    pub spec: SKOSparkApplicationSpec,
    pub status: Option<SparkApplicationStatus>,
}

/// A downstream scheduled application object.
pub struct ScheduledSparkApplication {
    pub metadata: ObjectMeta,
    pub spec: SKOScheduledSparkApplicationSpec,
    pub status: Option<ScheduledSparkApplicationStatus>,
}

impl Default for SKOSparkApplicationSpec {
    /// An empty downstream specification: type and version empty, driver
    /// empty, all else absent.
    fn default() -> (r: SKOSparkApplicationSpec)
        ensures
            r.typ@ == Seq::<char>::empty(),
            r.spark_version@ == Seq::<char>::empty(),
            r.mode is None,
            r.proxy_user is None,
            r.image is None,
            r.image_pull_policy is None,
            r.image_pull_secrets is None,
            r.main_application_file is None,
            r.main_class is None,
            r.python_verison is None,
            r.arguments is None,
            r.spark_conf is None,
            r.hadoop_conf is None,
            r.spark_config_map is None,
            r.hadoop_config_map is None,
            r.driver.config_maps is None,
            r.executor is None,
            r.deps is None,
            r.restart_policy is None,
            r.node_selector is None,
            r.failure_retries is None,
            r.retry_interval is None,
            r.memory_overhead_factor is None,
            r.monitoring is None,
            r.batch_scheduler is None,
            r.batch_scheduler_options is None,
            r.time_to_live_seconds is None,
            r.spark_uioptions is None,
            r.dynamic_allocation is None,
    {
        SKOSparkApplicationSpec {
            typ: String::new(),
            spark_version: String::new(),
            mode: None,
            proxy_user: None,
            image: None,
            image_pull_policy: None,
            image_pull_secrets: None,
            main_application_file: None,
            main_class: None,
            python_verison: None,
            arguments: None,
            spark_conf: None,
            hadoop_conf: None,
            spark_config_map: None,
            hadoop_config_map: None,
            driver: crate::spark_application::DriverSpec::default(),
            executor: None,
            deps: None,
            restart_policy: None,
            node_selector: None,
            failure_retries: None,
            retry_interval: None,
            memory_overhead_factor: None,
            monitoring: None,
            batch_scheduler: None,
            batch_scheduler_options: None,
            time_to_live_seconds: None,
            spark_uioptions: None,
            dynamic_allocation: None,
        }
    }
}

} // verus!
