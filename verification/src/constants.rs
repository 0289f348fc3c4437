//! Process-wide constants: operator identity, controller names, downstream
//! artifact locations, fixed ports and configuration keys.

use vstd::prelude::*;

verus! {

pub const APP_NAME: &'static str = "bn-spark";

pub const OPERATOR_NAME: &'static str = "bn-spark-operator";

pub const OPERATOR_LOG_ENV: &'static str = "BN_SPARK_OPERATOR_LOG";

pub const CONTROLLER_KIND_JOB: &'static str = "SparkJob";

pub const CONTROLLER_KIND_SCHD_JOB: &'static str = "SparkScheduledJob";

pub const CONTROLLER_KIND_SESSION: &'static str = "SparkSession";

pub const CONTROLLER_KIND_SKO_APPLICATION: &'static str = "SparkApplication";

pub const CONTROLLER_KIND_SKO_SCHEDULED_APPLICATION: &'static str = "ScheduledSparkApplication";

pub const CONTROLLER_NAME_JOB: &'static str = "sparkjob";

pub const CONTROLLER_NAME_SCHD_JOB: &'static str = "sparkscheduledjob";

pub const CONTROLLER_NAME_SESSION: &'static str = "sparksession";

pub const CONTROLLER_NAME_SKO_APPLICATION: &'static str = "sko-application";

pub const SKO_DEFAULT_SERVICE_ACCOUNT: &'static str = "sparkoperator-spark";

pub const RESOURCE_ROLE_SKO: &'static str = "spark-k8s-operator";

pub const SPARK_DEFAULT_VERSION: &'static str = "3.1.1";

pub const SKO_APPLICATION_TYPE_SCALA: &'static str = "Scala";

pub const SKO_APPLICATION_TYPE_JAVA: &'static str = "Java";

pub const SKO_APPLICATION_TYPE_PYTHON: &'static str = "Python";

pub const SKO_APPLICATION_TYPE_R: &'static str = "R";

pub const SPARK_MAIN_APPLICATION_FILE: &'static str =
    "local:///opt/spark/jars/spark-oper-sql_3.1.1-0.1.0.jar";

pub const SPARK_SQL_MAIN_CLASS: &'static str =
    "org.apache.spark.sql.hive.thriftserver.SparkSqlScriptCli";

pub const SPARK_SESSION_MAIN_CLASS: &'static str =
    "org.apache.spark.sql.hive.thriftserver.SparkSqlHiveThrift2";

pub const HIVE_SERVER2_THRIFT_DEFAULT_PORT: i32 = 10001;

pub const HIVE_SERVER2_THRIFT_DEFAULT_NODE_PORT: i32 = 10001;

pub const HIVE_SERVER2_UI_DEFAULT_PORT: i32 = 8009;

pub const HIVE_SERVER2_UI_DEFAULT_NODE_PORT: i32 = 8009;

pub const SPARK_HIVE_SERVER2_WEBUI_HOST: &'static str = "spark.hive.server2.webui.host";

pub const SPARK_HIVE_SERVER2_WEBUI_PORT: &'static str = "spark.hive.server2.webui.port";

pub const SPARK_HIVE_SERVER2_THRIFT_BIND_HOST: &'static str = "spark.hive.server2.thrift.bind.host";

pub const SPARK_HIVE_SERVER2_THRIFT_PORT: &'static str = "spark.hive.server2.thrift.port";

pub const SPARK_HIVE_SERVER2_ENABLE_DOAS: &'static str = "spark.hive.server2.enable.doAs";

pub const SQL_FILE_CONFIG_MAP_PREFIX: &'static str = "sql-statement-";

pub const SQL_FILE_LOCAL_FILE_NAME: &'static str = "statement.sql";

pub const SQL_FILE_LOCAL_DIR_NAME: &'static str = "/bytenative/sqls";

pub const S3_SECRET_DIR_NAME: &'static str = "/bytenative/secrets";

pub const S3_ACCESS_KEY_ID: &'static str = "accessKey";

pub const S3_SECRET_ACCESS_KEY: &'static str = "secretKey";

pub const FINALIZER_NAME: &'static str = "spark.bytenative.com/finalizer";

pub const API_GROUP_VERSION: &'static str = "spark.bytenative.com/v1";

pub const SKO_API_GROUP_VERSION: &'static str = "sparkoperator.k8s.io/v1beta2";

} // verus!
