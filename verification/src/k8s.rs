//! Plain models of the Kubernetes object fragments the operator reads and
//! writes: environment variables, secret volumes, config maps and services.
//! Only the fields the operator's logic touches are modelled; the values are
//! plain strings and integers.

use vstd::prelude::*;

use crate::conf::ConfMap;
use crate::metadata::ObjectMeta;

verus! {

/// Selects a key of a named secret.
pub struct SecretKeySelector {
    pub key: String,
    pub name: Option<String>,
    pub optional: Option<bool>,
}

/// The source of an environment variable's value.
pub struct EnvVarSource {
    pub secret_key_ref: Option<SecretKeySelector>,
}

/// An environment variable of a container: a literal value or a reference
/// into a secret.
pub struct EnvVar {
    pub name: String,
    pub value: Option<String>,
    pub value_from: Option<EnvVarSource>,
}

/// A volume mount point of a container.
pub struct VolumeMount {
    pub name: String,
    pub mount_path: String,
    pub read_only: Option<bool>,
}

/// Maps a secret key to a path within a volume.
pub struct KeyToPath {
    pub key: String,
    pub path: String,
    pub mode: Option<i32>,
}

/// A volume fed from a secret.
pub struct SecretVolumeSource {
    pub secret_name: Option<String>,
    pub default_mode: Option<i32>,
    pub items: Option<Vec<KeyToPath>>,
    pub optional: Option<bool>,
}

/// A pod volume; only secret-backed volumes are used here.
pub struct Volume {
    pub name: String,
    pub secret: Option<SecretVolumeSource>,
}

/// A config map object: metadata plus string data.
pub struct ConfigMap {
    pub metadata: ObjectMeta,
    pub data: Option<ConfMap>,
    pub immutable: Option<bool>,
}

/// One exposed port of a service.
pub struct ServicePort {
    pub name: Option<String>,
    pub app_protocol: Option<String>,
    pub node_port: Option<i32>,
    pub port: i32,
    pub protocol: Option<String>,
    pub target_port: Option<i32>,
}

/// The specification of a service.
pub struct ServiceSpec {
    pub type_: Option<String>,
    pub ports: Option<Vec<ServicePort>>,
    pub selector: Option<ConfMap>,
}

/// A service object: metadata plus specification.
pub struct Service {
    pub metadata: ObjectMeta,
    pub spec: Option<ServiceSpec>,
}

impl SecretKeySelector {
    pub open spec fn same_as(&self, other: &SecretKeySelector) -> bool {
        self.key@ == other.key@ && (match (&self.name, &other.name) {
            (Some(a), Some(b)) => a@ == b@,
            (None, None) => true,
            _ => false,
        }) && self.optional == other.optional
    }
}

impl EnvVarSource {
    pub open spec fn same_as(&self, other: &EnvVarSource) -> bool {
        match (&self.secret_key_ref, &other.secret_key_ref) {
            (Some(x), Some(y)) => x.same_as(y),
            (None, None) => true,
            _ => false,
        }
    }
}

impl EnvVar {
    pub open spec fn same_as(&self, other: &EnvVar) -> bool {
        self.name@ == other.name@ && (match (&self.value, &other.value) {
            (Some(a), Some(b)) => a@ == b@,
            (None, None) => true,
            _ => false,
        }) && (match (&self.value_from, &other.value_from) {
            (Some(a), Some(b)) => a.same_as(b),
            (None, None) => true,
            _ => false,
        })
    }

    /// Copy the environment variable.
    pub fn clone_env(&self) -> (r: EnvVar)
        ensures
            r.same_as(self),
    {
        EnvVar {
            name: self.name.clone(),
            value: crate::metadata::clone_opt_string(&self.value),
            value_from: match &self.value_from {
                Some(src) => Some(
                    EnvVarSource {
                        secret_key_ref: match &src.secret_key_ref {
                            Some(sel) => Some(
                                SecretKeySelector {
                                    key: sel.key.clone(),
                                    name: crate::metadata::clone_opt_string(&sel.name),
                                    optional: sel.optional,
                                },
                            ),
                            None => None,
                        },
                    },
                ),
                None => None,
            },
        }
    }
}

} // verus!
