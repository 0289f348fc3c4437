use spark_operator::conf::ConfMap;
use spark_operator::controller::OwnerType;
use spark_operator::controller::ReconcileStep;
use spark_operator::controller::SparkApplicationAction;
use spark_operator::controller::determine_action;
use spark_operator::controller::determine_spark_app;
use spark_operator::controller::reconcile_plan;
use spark_operator::controller::status_phase;
use spark_operator::crd::Error;
use spark_operator::crd::SparkCatalogDef;
use spark_operator::crd::SparkCatalogSpec;
use spark_operator::metadata::ObjectLabels;
use spark_operator::metadata::ObjectMeta;
use spark_operator::metadata::OwnerReference;
use spark_operator::metadata::OwnerReferenceBuilder;
use spark_operator::metadata::get_recommended_labels;
use spark_operator::s3::S3ConnectionDef;
use spark_operator::s3::S3ConnectionSpec;
use spark_operator::s3::S3Credentials;
use spark_operator::sko_spark_application::ApplicationState;
use spark_operator::sko_spark_application::SKOSparkApplicationSpec;
use spark_operator::spark_application::JarJobSpec;
use spark_operator::spark_application::JobSpec;
use spark_operator::spark_application::SparkJobType;
use spark_operator::sko_spark_application::DriverInfo;
use spark_operator::sko_spark_application::SparkApplicationStatus;
use spark_operator::spark_application::Dependencies;
use spark_operator::spark_application::DriverSpec;
use spark_operator::spark_application::SparkSpec;
use spark_operator::tree::Tree;
use spark_operator::tree::merge_trees;
use spark_operator::utils::repair_resource_name;

fn sample_spec() -> SparkSpec {
    let mut conf = ConfMap::new();
    conf.insert("spark.executor.memory".to_string(), "2g".to_string());
    SparkSpec {
        spark_version: "3.1.1".to_string(),
        mode: Some("cluster".to_string()),
        spark_conf: Some(conf),
        image: Some("spark:3.1.1".to_string()),
        driver: DriverSpec {
            cores: Some(2),
            service_account: Some("spark".to_string()),
            ..Default::default()
        },
        deps: Some(Dependencies {
            jars: Some(vec!["x.jar".to_string()]),
            ..Default::default()
        }),
        s3_connection: Some(S3ConnectionDef::Reference("minio".to_string())),
        catalogs: Some(vec![SparkCatalogDef::Reference("iceberg".to_string())]),
        ..Default::default()
    }
}

#[test]
fn merge_with_itself_is_identity() {
    let spec = sample_spec();
    let merged = spec.merge_template_opt(Some(&sample_spec())).expect("merge");
    assert_eq!(merged.spark_version, "3.1.1");
    assert_eq!(merged.mode.as_deref(), Some("cluster"));
    assert_eq!(merged.image.as_deref(), Some("spark:3.1.1"));
    assert_eq!(merged.driver.cores, Some(2));
    assert_eq!(merged.driver.service_account.as_deref(), Some("spark"));
    let conf = merged.spark_conf.expect("conf");
    let key = "spark.executor.memory".to_string();
    assert_eq!(conf.get(&key).map(|s| s.as_str()), Some("2g"));
    let deps = merged.deps.expect("deps");
    assert_eq!(deps.jars, Some(vec!["x.jar".to_string()]));
    match merged.s3_connection {
        Some(S3ConnectionDef::Reference(name)) => assert_eq!(name, "minio"),
        _ => panic!("connection changed shape"),
    }
    match merged.catalogs.as_deref() {
        Some([SparkCatalogDef::Reference(name)]) => assert_eq!(name, "iceberg"),
        _ => panic!("catalogs changed shape"),
    }
}

#[test]
fn merge_precedence_instance_wins() {
    let template = SparkSpec {
        spark_version: "3.1.1".to_string(),
        mode: Some("cluster".to_string()),
        driver: DriverSpec { cores: Some(1), ..Default::default() },
        ..Default::default()
    };
    let instance = SparkSpec {
        spark_version: "3.2.0".to_string(),
        image: Some("img".to_string()),
        driver: DriverSpec { cores: Some(2), ..Default::default() },
        ..Default::default()
    };
    let merged = instance.merge_template_opt(Some(&template)).expect("merge");
    // absent in the override: kept from the template
    assert_eq!(merged.mode.as_deref(), Some("cluster"));
    // present in the override: the override wins, nested objects included
    assert_eq!(merged.spark_version, "3.2.0");
    assert_eq!(merged.driver.cores, Some(2));
    assert_eq!(merged.image.as_deref(), Some("img"));
}

#[test]
fn merge_of_tree_objects_prefers_patch() {
    let base = Tree::Obj(vec![(1, Tree::Int(1)), (2, Tree::Int(2))]);
    let patch = Tree::Obj(vec![(2, Tree::Int(3))]);
    let merged = merge_trees(&base, &patch);
    match merged {
        Tree::Obj(members) => {
            assert_eq!(members.len(), 2);
            assert!(matches!(members[0], (1, Tree::Int(1))));
            assert!(matches!(members[1], (2, Tree::Int(3))));
        }
        _ => panic!("merge of objects must stay an object"),
    }
}

#[test]
fn merge_of_mismatched_fragments_fails() {
    let template = SparkSpec {
        s3_connection: Some(S3ConnectionDef::Inline(S3ConnectionSpec {
            host: Some("host".to_string()),
            port: None,
            access_style: None,
            credentials_inline: None,
            credentials: None,
            tls: None,
        })),
        ..Default::default()
    };
    let instance = SparkSpec {
        s3_connection: Some(S3ConnectionDef::Reference("minio".to_string())),
        ..Default::default()
    };
    match instance.merge_template_opt(Some(&template)) {
        Err(Error::FailedMergeObjects { .. }) => {}
        _ => panic!("conflicting fragment variants must fail the merge"),
    }
}

#[test]
fn conf_accumulation_later_source_wins() {
    let mut first = ConfMap::new();
    first.insert("k".to_string(), "v1".to_string());
    let mut second = ConfMap::new();
    second.insert("k".to_string(), "v2".to_string());
    first.extend(&second);
    let key = "k".to_string();
    assert_eq!(first.get(&key).map(|s| s.as_str()), Some("v2"));
}

#[test]
fn dependency_accumulation_appends_in_order() {
    let mut deps = Dependencies { jars: Some(vec!["x.jar".to_string()]), ..Default::default() };
    let other = Dependencies { jars: Some(vec!["y.jar".to_string()]), ..Default::default() };
    deps.extend(other);
    assert_eq!(deps.jars, Some(vec!["x.jar".to_string(), "y.jar".to_string()]));
}

#[test]
fn sanitize_replaces_dots_and_is_idempotent() {
    let name = "a.b.c".to_string();
    let once = repair_resource_name(&name);
    assert_eq!(once, "a-b-c");
    let twice = repair_resource_name(&once);
    assert_eq!(twice, once);
}

#[test]
fn state_machine_creates_then_parks() {
    let fresh = ObjectMeta::empty();
    assert!(matches!(determine_action(&fresh), SparkApplicationAction::Create));
    let mut managed = ObjectMeta::empty();
    managed.finalizers = Some(vec!["spark.bytenative.com/finalizer".to_string()]);
    assert!(matches!(determine_action(&managed), SparkApplicationAction::NoOp));
    let mut deleting = managed;
    deleting.deletion_timestamp = Some("2023-01-01T00:00:00Z".to_string());
    assert!(matches!(determine_action(&deleting), SparkApplicationAction::Delete));
}

#[test]
fn delete_plan_removes_finalizer_last() {
    let steps = reconcile_plan(&SparkApplicationAction::Delete);
    assert_eq!(steps.len(), 2);
    assert!(matches!(steps[0], ReconcileStep::DeleteDownstream));
    assert!(matches!(steps[1], ReconcileStep::RemoveFinalizer));
}

fn owner_ref(kind: &str) -> OwnerReference {
    OwnerReference {
        api_version: "spark.bytenative.com/v1".to_string(),
        block_owner_deletion: None,
        controller: None,
        kind: kind.to_string(),
        name: "job-1".to_string(),
        uid: "uid-1".to_string(),
    }
}

#[test]
fn classification_prefers_job_over_scheduled_job() {
    let mut meta = ObjectMeta::empty();
    meta.owner_references = Some(vec![owner_ref("SparkScheduledJob"), owner_ref("SparkJob")]);
    assert!(matches!(determine_spark_app(&meta), Some(OwnerType::SparkJob)));
    let mut other = ObjectMeta::empty();
    other.owner_references = Some(vec![owner_ref("Deployment")]);
    assert!(matches!(determine_spark_app(&other), Some(OwnerType::Other)));
}

#[test]
fn endpoint_is_built_from_host_port_and_tls() {
    let mut conn = S3ConnectionSpec {
        host: Some("minio.example".to_string()),
        port: Some(8080),
        access_style: None,
        credentials_inline: None,
        credentials: None,
        tls: None,
    };
    assert_eq!(conn.endpoint().as_deref(), Some("http://minio.example:8080"));
    conn.tls = Some("tls-secret".to_string());
    conn.port = None;
    assert_eq!(conn.endpoint().as_deref(), Some("https://minio.example"));
}

#[test]
fn catalog_configs_are_prefixed() {
    let mut catalog_configs = ConfMap::new();
    catalog_configs.insert("warehouse".to_string(), "s3a://bucket".to_string());
    let catalog = SparkCatalogSpec {
        name: "ice".to_string(),
        impl_class: Some("org.apache.iceberg.spark.SparkCatalog".to_string()),
        jars: None,
        catalog_configs: Some(catalog_configs),
        spark_configs: None,
    };
    let configs = catalog.spark_configs();
    let prefixed = "spark.sql.catalog.ice.warehouse".to_string();
    assert_eq!(configs.get(&prefixed).map(|s| s.as_str()), Some("s3a://bucket"));
    let class_key = "spark.sql.catalog.ice".to_string();
    assert_eq!(
        configs.get(&class_key).map(|s| s.as_str()),
        Some("org.apache.iceberg.spark.SparkCatalog"),
    );
}

#[test]
fn anonymous_credentials_use_anonymous_provider() {
    let configs = S3Credentials::spark_configs_anonymous();
    let key = "spark.hadoop.fs.s3a.aws.credentials.provider".to_string();
    assert_eq!(
        configs.get(&key).map(|s| s.as_str()),
        Some("org.apache.hadoop.fs.s3a.AnonymousAWSCredentialsProvider"),
    );
}

#[test]
fn owner_reference_requires_every_key() {
    match OwnerReferenceBuilder::new().build() {
        Err(Error::MissingObjectKey { key }) => assert_eq!(key, "api_version"),
        _ => panic!("an empty builder must miss its api version"),
    }
    let built = OwnerReferenceBuilder::new()
        .api_version("spark.bytenative.com/v1".to_string())
        .kind("SparkJob".to_string())
        .name("job-1".to_string())
        .uid("uid-1".to_string())
        .build()
        .expect("complete builder");
    assert_eq!(built.kind, "SparkJob");
    assert_eq!(built.uid, "uid-1");
}

#[test]
fn recommended_labels_compose_managed_by() {
    let labels = get_recommended_labels(ObjectLabels {
        owner_name: "job-1".to_string(),
        app_name: "bn-spark".to_string(),
        app_version: "3.1.1".to_string(),
        operator_name: "bn-spark-operator".to_string(),
        controller_name: "sparkjob".to_string(),
        role: "spark-k8s-operator".to_string(),
        role_group: "sparkjob".to_string(),
    });
    let managed_by = "app.kubernetes.io/managed-by".to_string();
    assert_eq!(
        labels.get(&managed_by).map(|s| s.as_str()),
        Some("bn-spark-operator_sparkjob"),
    );
    let instance = "app.kubernetes.io/instance".to_string();
    assert_eq!(labels.get(&instance).map(|s| s.as_str()), Some("job-1"));
}

#[test]
fn status_phase_defaults_to_unknown() {
    assert_eq!(status_phase(&None), "Unknown");
    let status = SparkApplicationStatus {
        spark_application_id: None,
        submission_id: None,
        last_submission_attempt_time: None,
        termination_time: None,
        driver_info: DriverInfo::default(),
        app_state: Some(ApplicationState { state: "RUNNING".to_string(), error_message: None }),
        executor_state: None,
        execution_attempts: None,
        submission_attempts: None,
    };
    assert_eq!(status_phase(&Some(status)), "RUNNING");
}

#[test]
fn jar_job_requires_jar_and_sets_entrypoint() {
    let mut sko = SKOSparkApplicationSpec::default();
    let missing = JobSpec { typ: SparkJobType::JarJob, ..Default::default() };
    match missing.populate_sko_fields(&"job-1".to_string(), &mut sko) {
        Err(Error::MissingJobField { job_type, field_name }) => {
            assert!(matches!(job_type, SparkJobType::JarJob));
            assert_eq!(field_name, "jar");
        }
        _ => panic!("a jar job without a jar must be rejected"),
    }
    let job = JobSpec {
        typ: SparkJobType::JarJob,
        jar: Some(JarJobSpec {
            main_application_file: "local:///app/app.jar".to_string(),
            main_class: Some("com.example.Main".to_string()),
            arguments: None,
        }),
        ..Default::default()
    };
    job.populate_sko_fields(&"job-1".to_string(), &mut sko).expect("populate");
    assert_eq!(sko.main_application_file.as_deref(), Some("local:///app/app.jar"));
    assert_eq!(sko.main_class.as_deref(), Some("com.example.Main"));
}

#[test]
fn sql_job_mounts_one_config_map_and_one_argument() {
    let mut sko = SKOSparkApplicationSpec::default();
    let job = JobSpec {
        typ: SparkJobType::SqlJob,
        sql: Some("SELECT 1".to_string()),
        ..Default::default()
    };
    job.populate_sko_fields(&"my.job".to_string(), &mut sko).expect("populate");
    assert_eq!(
        sko.arguments,
        Some(vec!["-f/bytenative/sqls/statement.sql".to_string()]),
    );
    let mounts = sko.driver.config_maps.expect("config map mount");
    assert_eq!(mounts.len(), 1);
    assert_eq!(mounts[0].name, "sql-statement-my-job");
    assert_eq!(mounts[0].path, "/bytenative/sqls");
    let cm = job.sql_config_map(ObjectMeta::empty()).expect("config map");
    let data = cm.data.expect("data");
    let key = "statement.sql".to_string();
    assert_eq!(data.get(&key).map(|s| s.as_str()), Some("SELECT 1"));
    assert_eq!(cm.immutable, Some(true));
}
