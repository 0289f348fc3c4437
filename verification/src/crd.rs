//! Errors of the translation engine, and the shared configuration fragments
//! (catalogs and environment sets) that specifications may pull in, inlined
//! or by name.

use vstd::prelude::*;
use vstd::string::StringExecFns;

use crate::conf::ConfMap;
use crate::conf::map_of;
use crate::spark_application::Dependencies;
use crate::spark_application::SparkJobType;

verus! {

/// Everything that can go wrong while resolving and translating a
/// specification.
#[derive(Debug)]
pub enum Error {
    /// A referenced S3 connection does not exist in the store.
    MissingS3Connection { name: String },
    /// A referenced S3 bucket does not exist in the store.
    MissingS3Bucket { name: String },
    /// A referenced Spark catalog does not exist in the store.
    MissingSparkCatalog { name: String },
    /// A referenced Spark environment set does not exist in the store.
    MissingSparEnvSet { name: String },
    /// A referenced Spark template does not exist in the store.
    MissingSparkTemplate { name: String },
    /// An object could not be serialized.
    FailedSerializeResource { internal: String },
    /// An owner reference could not be built for the named object.
    FailedBuildOwnerReference { name: String },
    /// A job-type-specific required field is absent.
    MissingJobField { job_type: SparkJobType, field_name: String },
    /// A required metadata key is absent.
    MissingObjectKey { key: String },
    /// The merged intermediate representation has the wrong shape.
    FailedMergeObjects { internal: String },
    /// The object carries no namespace.
    ResourceNamespaceNotExists { name: String },
}

impl Error {
    pub open spec fn is_missing_object_key(&self, key: Seq<char>) -> bool {
        match self {
            Error::MissingObjectKey { key: k } => k@ == key,
            _ => false,
        }
    }

    pub open spec fn is_missing_job_field(&self, job_type: SparkJobType, field: Seq<char>) -> bool {
        match self {
            Error::MissingJobField { job_type: t, field_name: f } => *t == job_type && f@ == field,
            _ => false,
        }
    }

    pub open spec fn is_missing_spark_template(&self, name: Seq<char>) -> bool {
        match self {
            Error::MissingSparkTemplate { name: n } => n@ == name,
            _ => false,
        }
    }

    pub open spec fn is_missing_s3_connection(&self, name: Seq<char>) -> bool {
        match self {
            Error::MissingS3Connection { name: n } => n@ == name,
            _ => false,
        }
    }

    pub open spec fn is_missing_s3_bucket(&self, name: Seq<char>) -> bool {
        match self {
            Error::MissingS3Bucket { name: n } => n@ == name,
            _ => false,
        }
    }

    pub open spec fn is_missing_spark_catalog(&self, name: Seq<char>) -> bool {
        match self {
            Error::MissingSparkCatalog { name: n } => n@ == name,
            _ => false,
        }
    }

    pub open spec fn is_missing_spark_env_set(&self, name: Seq<char>) -> bool {
        match self {
            Error::MissingSparEnvSet { name: n } => n@ == name,
            _ => false,
        }
    }

    pub open spec fn is_merge_failure(&self) -> bool {
        self is FailedMergeObjects
    }

    pub fn missing_object_key(key: &str) -> (r: Error)
        ensures
            r.is_missing_object_key(key@),
    {
        Error::MissingObjectKey { key: key.to_owned() }
    }
}

/// Which user-facing object type a command or a controller works on.
#[derive(Clone, Copy, Debug, PartialEq, Eq, Structural)]
pub enum ObjectType {
    Job,
    Session,
    ScheduledJob,
}

/// The status reflected onto user-facing objects: a single phase string.
pub struct SparkApplicationStatus {
    pub phase: String,
}

/// A reusable catalog definition: its name, the implementation class, extra
/// jars, catalog-scoped configuration and raw Spark configuration.
pub struct SparkCatalogSpec {
    pub name: String,
    /// Absent means the catalog needs no implementation class entry value.
    pub impl_class: Option<String>,
    /// The jars to be added for this catalog.
    pub jars: Option<Vec<String>>,
    /// Applied under `spark.sql.catalog.{name}.{key}`.
    pub catalog_configs: Option<ConfMap>,
    /// Directly applied to the Spark application.
    pub spark_configs: Option<ConfMap>,
}

/// The key prefix under which a catalog's own configuration entries go.
pub open spec fn catalog_prefix(name: Seq<char>) -> Seq<char> {
    "spark.sql.catalog."@ + name + "."@
}

/// The key naming a catalog's implementation class.
pub open spec fn catalog_class_key(name: Seq<char>) -> Seq<char> {
    "spark.sql.catalog."@ + name
}

/// The catalog configuration re-keyed under the catalog's prefix.
pub open spec fn prefixed_view(m: Map<Seq<char>, Seq<char>>, name: Seq<char>) -> Map<
    Seq<char>,
    Seq<char>,
> {
    Map::new(
        |k: Seq<char>|
            k.len() >= catalog_prefix(name).len() && k.subrange(
                0,
                catalog_prefix(name).len() as int,
            ) == catalog_prefix(name) && m.contains_key(
                k.subrange(catalog_prefix(name).len() as int, k.len() as int),
            ),
        |k: Seq<char>| m[k.subrange(catalog_prefix(name).len() as int, k.len() as int)],
    )
}

proof fn lemma_prefixed_insert(m: Map<Seq<char>, Seq<char>>, name: Seq<char>, k0: Seq<char>, v: Seq<char>)
    ensures
        prefixed_view(m.insert(k0, v), name) == prefixed_view(m, name).insert(
            catalog_prefix(name) + k0,
            v,
        ),
{
    let p = catalog_prefix(name);
    assert((p + k0).subrange(0, p.len() as int) =~= p);
    assert((p + k0).subrange(p.len() as int, (p + k0).len() as int) =~= k0);
    assert forall|k: Seq<char>|
        prefixed_view(m.insert(k0, v), name).contains_key(k) <==> prefixed_view(m, name).insert(
            p + k0,
            v,
        ).contains_key(k) by {
        if k.len() >= p.len() && k.subrange(0, p.len() as int) == p && k.subrange(
            p.len() as int,
            k.len() as int,
        ) == k0 {
            assert(k =~= p + k0);
        }
    }
    assert forall|k: Seq<char>| #[trigger]
        prefixed_view(m.insert(k0, v), name).contains_key(k) implies prefixed_view(
        m.insert(k0, v),
        name,
    )[k] == prefixed_view(m, name).insert(p + k0, v)[k] by {
        if k.subrange(p.len() as int, k.len() as int) == k0 {
            assert(k =~= p + k0);
        }
    }
    assert(prefixed_view(m.insert(k0, v), name) =~= prefixed_view(m, name).insert(p + k0, v));
}

proof fn lemma_prefixed_empty(name: Seq<char>)
    ensures
        prefixed_view(Map::<Seq<char>, Seq<char>>::empty(), name) == Map::<
            Seq<char>,
            Seq<char>,
        >::empty(),
{
    assert(prefixed_view(Map::<Seq<char>, Seq<char>>::empty(), name) =~= Map::<
        Seq<char>,
        Seq<char>,
    >::empty());
}

impl SparkCatalogSpec {
    /// The Spark configuration this catalog contributes: its own entries
    /// re-keyed under the catalog prefix, then the implementation class
    /// entry, then the raw entries, later ones overwriting earlier ones.
    pub fn spark_configs(&self) -> (r: ConfMap)
        ensures
            r@ == prefixed_view(
                match &self.catalog_configs {
                    Some(c) => c@,
                    None => Map::<Seq<char>, Seq<char>>::empty(),
                },
                self.name@,
            ).insert(
                catalog_class_key(self.name@),
                match &self.impl_class {
                    Some(c) => c@,
                    None => Seq::<char>::empty(),
                },
            ).union_prefer_right(
                match &self.spark_configs {
                    Some(c) => c@,
                    None => Map::<Seq<char>, Seq<char>>::empty(),
                },
            ),
    {
        let mut prefix = String::from_str("spark.sql.catalog.");
        prefix.append(self.name.as_str());
        let class_key = prefix.clone();
        prefix.append(".");
        let ghost p = catalog_prefix(self.name@);
        proof {
            assert(prefix@ == p);
            assert(class_key@ == catalog_class_key(self.name@));
        }
        let mut all_configs = ConfMap::new();
        proof {
            lemma_prefixed_empty(self.name@);
        }
        match &self.catalog_configs {
            Some(catalog_configs) => {
                let n = catalog_configs.entries.len();
                let mut i: usize = 0;
                proof {
                    assert(catalog_configs.entries@.subrange(0, 0) =~= Seq::<
                        (String, String),
                    >::empty());
                }
                while i < n
                    invariant
                        i <= n,
                        n == catalog_configs.entries@.len(),
                        prefix@ == p,
                        p == catalog_prefix(self.name@),
                        all_configs@ == prefixed_view(
                            map_of(catalog_configs.entries@.subrange(0, i as int)),
                            self.name@,
                        ),
                    decreases n - i,
                {
                    let mut key = prefix.clone();
                    key.append(catalog_configs.entries[i].0.as_str());
                    let value = catalog_configs.entries[i].1.clone();
                    proof {
                        let sub = catalog_configs.entries@.subrange(0, i as int);
                        let sub1 = catalog_configs.entries@.subrange(0, i + 1 as int);
                        assert(sub1.drop_last() =~= sub);
                        assert(sub1.last() == catalog_configs.entries@[i as int]);
                        lemma_prefixed_insert(
                            map_of(sub),
                            self.name@,
                            catalog_configs.entries@[i as int].0@,
                            catalog_configs.entries@[i as int].1@,
                        );
                    }
                    all_configs.insert(key, value);
                    i = i + 1;
                }
                proof {
                    assert(catalog_configs.entries@.subrange(0, n as int)
                        =~= catalog_configs.entries@);
                }
            }
            None => {}
        }
        let impl_class = match &self.impl_class {
            Some(c) => c.clone(),
            None => String::new(),
        };
        all_configs.insert(class_key, impl_class);
        match &self.spark_configs {
            Some(sc) => {
                all_configs.extend(sc);
            }
            None => {
                proof {
                    assert(all_configs@.union_prefer_right(
                        Map::<Seq<char>, Seq<char>>::empty(),
                    ) =~= all_configs@);
                }
            }
        }
        all_configs
    }

    /// A catalog definition equal to this one, field by field.
    pub open spec fn same_as(&self, other: &SparkCatalogSpec) -> bool {
        self.name@ == other.name@ && crate::spark_application::ostr(&self.impl_class)
            == crate::spark_application::ostr(&other.impl_class) && crate::spark_application::olist(
            &self.jars,
        ) == crate::spark_application::olist(&other.jars) && crate::spark_application::omap(
            &self.catalog_configs,
        ) == crate::spark_application::omap(&other.catalog_configs)
            && crate::spark_application::omap(&self.spark_configs)
            == crate::spark_application::omap(&other.spark_configs)
    }

    /// Copy the catalog definition.
    pub fn clone_spec(&self) -> (r: SparkCatalogSpec)
        ensures
            r.same_as(self),
    {
        SparkCatalogSpec {
            name: self.name.clone(),
            impl_class: crate::metadata::clone_opt_string(&self.impl_class),
            jars: match &self.jars {
                Some(j) => Some(crate::tree::clone_strings(j)),
                None => None,
            },
            catalog_configs: match &self.catalog_configs {
                Some(c) => Some(c.clone()),
                None => None,
            },
            spark_configs: match &self.spark_configs {
                Some(c) => Some(c.clone()),
                None => None,
            },
        }
    }
}

/// A catalog attached to a specification: the definition inlined, or the
/// name of a stored catalog object.
pub enum SparkCatalogDef {
    Inline(SparkCatalogSpec),
    Reference(String),
}

/// A reusable set of configuration entries and dependencies that a
/// specification may pull in whole.
pub struct SparkEnvSetSpec {
    /// Directly applied to the Spark application.
    pub configs: Option<ConfMap>,
    /// The dependencies, including jars and files, this set contributes.
    pub deps: Option<Dependencies>,
}

impl SparkEnvSetSpec {
    /// An environment set equal to this one, field by field.
    pub open spec fn same_as(&self, other: &SparkEnvSetSpec) -> bool {
        crate::spark_application::omap(&self.configs) == crate::spark_application::omap(
            &other.configs,
        ) && (match (&self.deps, &other.deps) {
            (Some(a), Some(b)) => a.same_as(b),
            (None, None) => true,
            _ => false,
        })
    }

    /// Copy the environment set.
    pub fn clone_spec(&self) -> (r: SparkEnvSetSpec)
        ensures
            r.same_as(self),
    {
        SparkEnvSetSpec {
            configs: match &self.configs {
                Some(c) => Some(c.clone()),
                None => None,
            },
            deps: match &self.deps {
                Some(d) => Some(d.clone_deps()),
                None => None,
            },
        }
    }
}

/// An environment set attached to a specification: inlined, or the name of a
/// stored environment-set object.
pub enum SparkEnvSetDef {
    Inline(SparkEnvSetSpec),
    Reference(String),
}

} // verus!
