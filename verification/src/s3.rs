//! S3 connections and buckets: endpoint construction, credential handling
//! and the Spark configuration entries they contribute.

use vstd::prelude::*;
use vstd::string::StringExecFns;

use crate::conf::ConfMap;
use crate::k8s::EnvVar;
use crate::k8s::EnvVarSource;
use crate::k8s::KeyToPath;
use crate::k8s::SecretKeySelector;
use crate::k8s::SecretVolumeSource;
use crate::k8s::Volume;
use crate::k8s::VolumeMount;
use crate::spark_application::SecretInfo;
use crate::spark_application::ostr;
use crate::utils::dec_digits;
use crate::utils::u16_to_string;

verus! {

/// Inlined S3 credentials: the key pair itself.
pub struct InlineS3Credentials {
    pub access_key: String,
    pub secret_key: String,
}

impl InlineS3Credentials {
    pub open spec fn same_as(&self, other: &InlineS3Credentials) -> bool {
        self.access_key@ == other.access_key@ && self.secret_key@ == other.secret_key@
    }

    pub fn clone_credentials(&self) -> (r: InlineS3Credentials)
        ensures
            r.same_as(self),
    {
        InlineS3Credentials {
            access_key: self.access_key.clone(),
            secret_key: self.secret_key.clone(),
        }
    }
}

/// How an S3 connection authenticates: through a named secret, through
/// inlined keys, or anonymously.
pub enum S3Credentials {
    Secret(String),
    Inline(InlineS3Credentials),
    Anonymous(String),
}

impl S3Credentials {
    pub open spec fn same_as(&self, other: &S3Credentials) -> bool {
        match (self, other) {
            (S3Credentials::Secret(a), S3Credentials::Secret(b)) => a@ == b@,
            (S3Credentials::Inline(a), S3Credentials::Inline(b)) => a.same_as(b),
            (S3Credentials::Anonymous(a), S3Credentials::Anonymous(b)) => a@ == b@,
            _ => false,
        }
    }

    pub fn clone_credentials(&self) -> (r: S3Credentials)
        ensures
            r.same_as(self),
    {
        match self {
            S3Credentials::Secret(s) => S3Credentials::Secret(s.clone()),
            S3Credentials::Inline(i) => S3Credentials::Inline(i.clone_credentials()),
            S3Credentials::Anonymous(s) => S3Credentials::Anonymous(s.clone()),
        }
    }
}

/// Which access style to use; defaults to virtual hosted-style.
#[derive(Clone, Copy, Debug, PartialEq, Eq, Structural)]
pub enum S3AccessStyle {
    /// Use path-style access.
    Path,
    /// Use virtual hosted-style access.
    VirtualHosted,
}

impl Default for S3AccessStyle {
    /// Virtual hosted-style is the default.
    fn default() -> (r: S3AccessStyle)
        ensures
            r == S3AccessStyle::VirtualHosted,
    {
        S3AccessStyle::VirtualHosted
    }
}

/// The wire name of an access style.
pub open spec fn access_style_name(s: S3AccessStyle) -> Seq<char> {
    match s {
        S3AccessStyle::Path => "Path"@,
        S3AccessStyle::VirtualHosted => "VirtualHosted"@,
    }
}

/// The access style a wire name denotes, if any.
pub open spec fn access_style_of(s: Seq<char>) -> Option<S3AccessStyle> {
    if s == "Path"@ {
        Some(S3AccessStyle::Path)
    } else if s == "VirtualHosted"@ {
        Some(S3AccessStyle::VirtualHosted)
    } else {
        None
    }
}

impl S3AccessStyle {
    pub fn as_str(&self) -> (r: &'static str)
        ensures
            r@ == access_style_name(*self),
    {
        match self {
            S3AccessStyle::Path => "Path",
            S3AccessStyle::VirtualHosted => "VirtualHosted",
        }
    }

    /// Parse a wire name back into an access style.
    pub fn parse(s: &String) -> (r: Option<S3AccessStyle>)
        ensures
            r == access_style_of(s@),
    {
        proof {
            reveal_strlit("Path");
            reveal_strlit("VirtualHosted");
        }
        if *s == String::from_str("Path") {
            Some(S3AccessStyle::Path)
        } else if *s == String::from_str("VirtualHosted") {
            Some(S3AccessStyle::VirtualHosted)
        } else {
            None
        }
    }
}

/// An S3 connection: host, port, access style, credentials and TLS secret.
pub struct S3ConnectionSpec {
    /// Hostname of the S3 server without any protocol or port.
    pub host: Option<String>,
    /// Port the S3 server listens on; absent lets the product decide.
    pub port: Option<u16>,
    pub access_style: Option<S3AccessStyle>,
    pub credentials_inline: Option<InlineS3Credentials>,
    pub credentials: Option<S3Credentials>,
    /// The name of the TLS secret; absent means no TLS validation.
    pub tls: Option<String>,
}

/// The endpoint URL a connection denotes: protocol, host and optional port.
pub open spec fn endpoint_view(c: &S3ConnectionSpec) -> Option<Seq<char>> {
    match &c.host {
        Some(h) => Some(
            (if c.tls is Some {
                "https"@
            } else {
                "http"@
            }) + "://"@ + h@ + (match c.port {
                Some(p) => ":"@ + dec_digits(p as nat),
                None => Seq::<char>::empty(),
            }),
        ),
        None => None,
    }
}

impl S3ConnectionSpec {
    /// Build the endpoint URL from this connection.
    pub fn endpoint(&self) -> (r: Option<String>)
        ensures
            ostr(&r) == endpoint_view(self),
    {
        match &self.host {
            Some(h) => {
                let mut out = if self.tls.is_some() {
                    String::from_str("https")
                } else {
                    String::from_str("http")
                };
                out.append("://");
                out.append(h.as_str());
                match self.port {
                    Some(p) => {
                        out.append(":");
                        let digits = u16_to_string(p);
                        out.append(digits.as_str());
                    }
                    None => {}
                }
                proof {
                    assert(out@ =~= endpoint_view(self)->Some_0);
                }
                Some(out)
            }
            None => None,
        }
    }

    /// The Spark configuration entries for this connection: the endpoint,
    /// the filesystem implementation and the access-style flag.  A
    /// connection without a host has no endpoint, so one is required.
    pub fn spark_configs(&self) -> (r: ConfMap)
        requires
            self.host is Some,
        ensures
            r@ == Map::<Seq<char>, Seq<char>>::empty().insert(
                "spark.hadoop.fs.s3a.endpoint"@,
                endpoint_view(self)->Some_0,
            ).insert("spark.hadoop.fs.s3a.impl"@, "org.apache.hadoop.fs.s3a.S3AFileSystem"@).insert(
                "spark.hadoop.fs.s3a.path.style.access"@,
                if self.access_style == Some(S3AccessStyle::Path) {
                    "true"@
                } else {
                    "false"@
                },
            ),
    {
        let mut ret = ConfMap::new();
        let endpoint = match self.endpoint() {
            Some(e) => e,
            None => String::new(),
        };
        ret.insert("spark.hadoop.fs.s3a.endpoint".to_owned(), endpoint);
        ret.insert(
            "spark.hadoop.fs.s3a.impl".to_owned(),
            "org.apache.hadoop.fs.s3a.S3AFileSystem".to_owned(),
        );
        let path_style = match self.access_style {
            Some(S3AccessStyle::Path) => "true",
            _ => "false",
        };
        ret.insert("spark.hadoop.fs.s3a.path.style.access".to_owned(), path_style.to_owned());
        ret
    }

    pub open spec fn same_as(&self, other: &S3ConnectionSpec) -> bool {
        ostr(&self.host) == ostr(&other.host) && self.port == other.port && self.access_style
            == other.access_style && (match (&self.credentials_inline, &other.credentials_inline) {
            (Some(a), Some(b)) => a.same_as(b),
            (None, None) => true,
            _ => false,
        }) && (match (&self.credentials, &other.credentials) {
            (Some(a), Some(b)) => a.same_as(b),
            (None, None) => true,
            _ => false,
        }) && ostr(&self.tls) == ostr(&other.tls)
    }

    /// Copy the connection.
    pub fn clone_spec(&self) -> (r: S3ConnectionSpec)
        ensures
            r.same_as(self),
    {
        S3ConnectionSpec {
            host: crate::metadata::clone_opt_string(&self.host),
            port: self.port,
            access_style: self.access_style,
            credentials_inline: match &self.credentials_inline {
                Some(c) => Some(c.clone_credentials()),
                None => None,
            },
            credentials: match &self.credentials {
                Some(c) => Some(c.clone_credentials()),
                None => None,
            },
            tls: crate::metadata::clone_opt_string(&self.tls),
        }
    }
}

/// An S3 connection attached to a specification: inlined, or the name of a
/// stored connection object.
pub enum S3ConnectionDef {
    Inline(S3ConnectionSpec),
    Reference(String),
}

/// An S3 bucket: its name and an optional connection.
pub struct S3BucketSpec {
    pub bucket_name: Option<String>,
    pub connection: Option<S3ConnectionDef>,
}

/// An S3 bucket attached to a specification: inlined, or the name of a
/// stored bucket object.
pub enum S3BucketDef {
    Inline(S3BucketSpec),
    Reference(String),
}

/// A bucket with its connection resolved.
pub struct InlinedS3BucketSpec {
    pub bucket_name: Option<String>,
    pub connection: Option<S3ConnectionSpec>,
}

impl InlinedS3BucketSpec {
    /// Build the endpoint URL from the resolved connection.
    pub fn endpoint(&self) -> (r: Option<String>)
        ensures
            ostr(&r) == match &self.connection {
                Some(c) => endpoint_view(c),
                None => None,
            },
    {
        match &self.connection {
            Some(c) => c.endpoint(),
            None => None,
        }
    }
}

impl S3Credentials {
    /// The Spark configuration entries these credentials contribute: the
    /// provider class plus, for secret-backed credentials, shell lookups of
    /// the mounted key files, or, for inlined credentials, the keys
    /// themselves.
    pub fn spark_configs(&self) -> (r: ConfMap)
        ensures
            r@ == match self {
                S3Credentials::Secret(secret) => Map::<Seq<char>, Seq<char>>::empty().insert(
                    "spark.hadoop.fs.s3a.aws.credentials.provider"@,
                    "org.apache.hadoop.fs.s3a.SimpleAWSCredentialsProvider"@,
                ).insert(
                    "spark.hadoop.fs.s3a.access.key"@,
                    "${cat "@ + "/bytenative/secrets"@ + "/"@ + secret@ + "/"@ + "accessKey"@
                        + "}"@,
                ).insert(
                    "spark.hadoop.fs.s3a.secret.key"@,
                    "${cat "@ + "/bytenative/secrets"@ + "/"@ + secret@ + "/"@ + "secretKey"@
                        + "}"@,
                ),
                S3Credentials::Inline(inline) => Map::<Seq<char>, Seq<char>>::empty().insert(
                    "spark.hadoop.fs.s3a.aws.credentials.provider"@,
                    "org.apache.hadoop.fs.s3a.SimpleAWSCredentialsProvider"@,
                ).insert("spark.hadoop.fs.s3a.access.key"@, inline.access_key@).insert(
                    "spark.hadoop.fs.s3a.secret.key"@,
                    inline.secret_key@,
                ),
                S3Credentials::Anonymous(_) => Map::<Seq<char>, Seq<char>>::empty().insert(
                    "spark.hadoop.fs.s3a.aws.credentials.provider"@,
                    "org.apache.hadoop.fs.s3a.AnonymousAWSCredentialsProvider"@,
                ),
            },
    {
        match self {
            S3Credentials::Secret(secret) => {
                let mut ret = ConfMap::new();
                ret.insert(
                    "spark.hadoop.fs.s3a.aws.credentials.provider".to_owned(),
                    "org.apache.hadoop.fs.s3a.SimpleAWSCredentialsProvider".to_owned(),
                );
                let mut access = String::from_str("${cat ");
                access.append(crate::constants::S3_SECRET_DIR_NAME);
                access.append("/");
                access.append(secret.as_str());
                access.append("/");
                access.append(crate::constants::S3_ACCESS_KEY_ID);
                access.append("}");
                ret.insert("spark.hadoop.fs.s3a.access.key".to_owned(), access);
                let mut key = String::from_str("${cat ");
                key.append(crate::constants::S3_SECRET_DIR_NAME);
                key.append("/");
                key.append(secret.as_str());
                key.append("/");
                key.append(crate::constants::S3_SECRET_ACCESS_KEY);
                key.append("}");
                ret.insert("spark.hadoop.fs.s3a.secret.key".to_owned(), key);
                ret
            }
            S3Credentials::Inline(inline) => {
                let mut ret = ConfMap::new();
                ret.insert(
                    "spark.hadoop.fs.s3a.aws.credentials.provider".to_owned(),
                    "org.apache.hadoop.fs.s3a.SimpleAWSCredentialsProvider".to_owned(),
                );
                ret.insert("spark.hadoop.fs.s3a.access.key".to_owned(), inline.access_key.clone());
                ret.insert("spark.hadoop.fs.s3a.secret.key".to_owned(), inline.secret_key.clone());
                ret
            }
            S3Credentials::Anonymous(_) => S3Credentials::spark_configs_anonymous(),
        }
    }

    /// The provider entry for anonymous access.
    pub fn spark_configs_anonymous() -> (r: ConfMap)
        ensures
            r@ == Map::<Seq<char>, Seq<char>>::empty().insert(
                "spark.hadoop.fs.s3a.aws.credentials.provider"@,
                "org.apache.hadoop.fs.s3a.AnonymousAWSCredentialsProvider"@,
            ),
    {
        let mut ret = ConfMap::new();
        ret.insert(
            "spark.hadoop.fs.s3a.aws.credentials.provider".to_owned(),
            "org.apache.hadoop.fs.s3a.AnonymousAWSCredentialsProvider".to_owned(),
        );
        ret
    }

    /// The pod environment variables these credentials contribute: key pairs
    /// referencing the secret, the inlined values, or nothing for anonymous
    /// access.
    pub fn env_vars(&self) -> (r: Option<Vec<EnvVar>>)
        ensures
            match self {
                S3Credentials::Secret(secret) => r matches Some(v) && {
                    &&& v@.len() == 2
                    &&& v@[0].name@ == "AWS_ACCESS_KEY_ID"@
                    &&& v@[0].value is None
                    &&& v@[0].value_from matches Some(src) && src.secret_key_ref matches Some(
                        sel,
                    ) && {
                        &&& sel.key@ == "accessKey"@
                        &&& ostr(&sel.name) == Some(secret@)
                        &&& sel.optional == Some(true)
                    }
                    &&& v@[1].name@ == "AWS_SECRET_ACCESS_KEY"@
                    &&& v@[1].value is None
                    &&& v@[1].value_from matches Some(src) && src.secret_key_ref matches Some(
                        sel,
                    ) && {
                        &&& sel.key@ == "secretKey"@
                        &&& ostr(&sel.name) == Some(secret@)
                        &&& sel.optional == Some(true)
                    }
                },
                S3Credentials::Inline(inline) => r matches Some(v) && {
                    &&& v@.len() == 2
                    &&& v@[0].name@ == "AWS_ACCESS_KEY_ID"@
                    &&& ostr(&v@[0].value) == Some(inline.access_key@)
                    &&& v@[0].value_from is None
                    &&& v@[1].name@ == "AWS_SECRET_ACCESS_KEY"@
                    &&& ostr(&v@[1].value) == Some(inline.secret_key@)
                    &&& v@[1].value_from is None
                },
                S3Credentials::Anonymous(_) => r is None,
            },
    {
        match self {
            S3Credentials::Secret(secret) => {
                let mut v: Vec<EnvVar> = Vec::new();
                v.push(
                    EnvVar {
                        name: "AWS_ACCESS_KEY_ID".to_owned(),
                        value: None,
                        value_from: Some(
                            EnvVarSource {
                                secret_key_ref: Some(
                                    SecretKeySelector {
                                        key: crate::constants::S3_ACCESS_KEY_ID.to_owned(),
                                        name: Some(secret.clone()),
                                        optional: Some(true),
                                    },
                                ),
                            },
                        ),
                    },
                );
                v.push(
                    EnvVar {
                        name: "AWS_SECRET_ACCESS_KEY".to_owned(),
                        value: None,
                        value_from: Some(
                            EnvVarSource {
                                secret_key_ref: Some(
                                    SecretKeySelector {
                                        key: crate::constants::S3_SECRET_ACCESS_KEY.to_owned(),
                                        name: Some(secret.clone()),
                                        optional: Some(true),
                                    },
                                ),
                            },
                        ),
                    },
                );
                Some(v)
            }
            S3Credentials::Inline(inline) => {
                let mut v: Vec<EnvVar> = Vec::new();
                v.push(
                    EnvVar {
                        name: "AWS_ACCESS_KEY_ID".to_owned(),
                        value: Some(inline.access_key.clone()),
                        value_from: None,
                    },
                );
                v.push(
                    EnvVar {
                        name: "AWS_SECRET_ACCESS_KEY".to_owned(),
                        value: Some(inline.secret_key.clone()),
                        value_from: None,
                    },
                );
                Some(v)
            }
            S3Credentials::Anonymous(_) => None,
        }
    }

    /// The secret-backed volume for mounted credentials, mapping both keys
    /// to files below the secret directory.
    pub fn secret_volume(&self, volume_name: &str) -> (r: Option<Volume>)
        ensures
            r matches Some(v) && {
                &&& v.name@ == volume_name@
                &&& v.secret matches Some(s) && {
                    &&& ostr(&s.secret_name) == Some(volume_name@)
                    &&& s.default_mode == Some(0o420i32)
                    &&& s.optional == Some(true)
                    &&& s.items matches Some(items) && {
                        &&& items@.len() == 2
                        &&& items@[0].key@ == "accessKey"@
                        &&& items@[0].path@ == "/bytenative/secrets"@ + "/"@ + "accessKey"@
                        &&& items@[0].mode == Some(0o420i32)
                        &&& items@[1].key@ == "secretKey"@
                        &&& items@[1].path@ == "/bytenative/secrets"@ + "/"@ + "secretKey"@
                        &&& items@[1].mode == Some(0o420i32)
                    }
                }
            },
    {
        let mut access_path = String::from_str(crate::constants::S3_SECRET_DIR_NAME);
        access_path.append("/");
        access_path.append(crate::constants::S3_ACCESS_KEY_ID);
        let mut secret_path = String::from_str(crate::constants::S3_SECRET_DIR_NAME);
        secret_path.append("/");
        secret_path.append(crate::constants::S3_SECRET_ACCESS_KEY);
        let mut items: Vec<KeyToPath> = Vec::new();
        items.push(
            KeyToPath {
                key: crate::constants::S3_ACCESS_KEY_ID.to_owned(),
                path: access_path,
                mode: Some(0o420i32),
            },
        );
        items.push(
            KeyToPath {
                key: crate::constants::S3_SECRET_ACCESS_KEY.to_owned(),
                path: secret_path,
                mode: Some(0o420i32),
            },
        );
        Some(
            Volume {
                name: volume_name.to_owned(),
                secret: Some(
                    SecretVolumeSource {
                        secret_name: Some(volume_name.to_owned()),
                        default_mode: Some(0o420i32),
                        items: Some(items),
                        optional: Some(true),
                    },
                ),
            },
        )
    }

    /// The secret mount for secret-backed credentials; other credential
    /// kinds mount nothing.
    pub fn secret_mount(&self) -> (r: Option<SecretInfo>)
        ensures
            match self {
                S3Credentials::Secret(name) => r matches Some(s) && {
                    &&& s.name@ == name@
                    &&& s.path@ == "/bytenative/secrets"@
                    &&& s.typ@ == "Generic"@
                },
                _ => r is None,
            },
    {
        match self {
            S3Credentials::Secret(name) => Some(
                SecretInfo {
                    name: name.clone(),
                    path: crate::constants::S3_SECRET_DIR_NAME.to_owned(),
                    typ: "Generic".to_owned(),
                },
            ),
            _ => None,
        }
    }

    /// The volume mount for secret-backed credentials; other credential
    /// kinds mount nothing.
    pub fn volume_mounts(&self) -> (r: Option<VolumeMount>)
        ensures
            match self {
                S3Credentials::Secret(secret) => r matches Some(m) && {
                    &&& m.name@ == secret@
                    &&& m.mount_path@ == "/bytenative/secrets"@ + "/"@ + secret@
                    &&& m.read_only == Some(true)
                },
                _ => r is None,
            },
    {
        match self {
            S3Credentials::Secret(secret) => {
                let mut dir = String::from_str(crate::constants::S3_SECRET_DIR_NAME);
                dir.append("/");
                dir.append(secret.as_str());
                Some(VolumeMount { name: secret.clone(), mount_path: dir, read_only: Some(true) })
            }
            _ => None,
        }
    }
}

} // verus!
