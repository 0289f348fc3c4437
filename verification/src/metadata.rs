//! Object metadata: names, namespaces, owner references and the recommended
//! label set, with builders for metadata and owner references.

use vstd::prelude::*;
use vstd::string::StringExecFns;

use crate::conf::ConfMap;
use crate::crd::Error;

verus! {

/// The name of the application.
pub const APP_NAME_LABEL: &'static str = "app.kubernetes.io/name";

/// A unique name identifying the instance of an application.
pub const APP_INSTANCE_LABEL: &'static str = "app.kubernetes.io/instance";

/// The current version of the application.
pub const APP_VERSION_LABEL: &'static str = "app.kubernetes.io/version";

/// The component within the architecture.
pub const APP_COMPONENT_LABEL: &'static str = "app.kubernetes.io/component";

/// The name of a higher level application this one is part of.
pub const APP_PART_OF_LABEL: &'static str = "app.kubernetes.io/part-of";

/// The tool being used to manage the operation of an application.
pub const APP_MANAGED_BY_LABEL: &'static str = "app.kubernetes.io/managed-by";

pub const APP_ROLE_GROUP_LABEL: &'static str = "app.kubernetes.io/role-group";

/// Object metadata: the identifying and lifecycle fields the operator reads
/// and writes.
pub struct ObjectMeta {
    pub name: Option<String>,
    pub generate_name: Option<String>,
    pub namespace: Option<String>,
    pub uid: Option<String>,
    pub labels: Option<ConfMap>,
    pub annotations: Option<ConfMap>,
    pub owner_references: Option<Vec<OwnerReference>>,
    pub finalizers: Option<Vec<String>>,
    pub deletion_timestamp: Option<String>,
}

/// A pointer from a child object to the object that owns it.
pub struct OwnerReference {
    pub api_version: String,
    pub block_owner_deletion: Option<bool>,
    pub controller: Option<bool>,
    pub kind: String,
    pub name: String,
    pub uid: String,
}

/// The name an object goes by: its name if set, else its generate-name, else
/// the empty string.
pub open spec fn name_any_view(m: &ObjectMeta) -> Seq<char> {
    match m.name {
        Some(n) => n@,
        None => match m.generate_name {
            Some(g) => g@,
            None => Seq::<char>::empty(),
        },
    }
}

impl ObjectMeta {
    /// Metadata with every field absent.
    pub fn empty() -> (r: ObjectMeta)
        ensures
            r.name is None,
            r.generate_name is None,
            r.namespace is None,
            r.uid is None,
            r.labels is None,
            r.annotations is None,
            r.owner_references is None,
            r.finalizers is None,
            r.deletion_timestamp is None,
    {
        ObjectMeta {
            name: None,
            generate_name: None,
            namespace: None,
            uid: None,
            labels: None,
            annotations: None,
            owner_references: None,
            finalizers: None,
            deletion_timestamp: None,
        }
    }

    /// The name this object goes by.
    pub fn name_any(&self) -> (r: String)
        ensures
            r@ == name_any_view(self),
    {
        match &self.name {
            Some(n) => n.clone(),
            None => match &self.generate_name {
                Some(g) => g.clone(),
                None => String::new(),
            },
        }
    }
}

/// Builds [`ObjectMeta`], field by field.
pub struct ObjectMetaBuilder {
    pub name: Option<String>,
    pub generate_name: Option<String>,
    pub namespace: Option<String>,
    pub ownerreference: Option<OwnerReference>,
    pub labels: Option<ConfMap>,
    pub annotations: Option<ConfMap>,
}

impl ObjectMetaBuilder {
    pub fn new() -> (r: ObjectMetaBuilder)
        ensures
            r.name is None,
            r.generate_name is None,
            r.namespace is None,
            r.ownerreference is None,
            r.labels is None,
            r.annotations is None,
    {
        ObjectMetaBuilder {
            name: None,
            generate_name: None,
            namespace: None,
            ownerreference: None,
            labels: None,
            annotations: None,
        }
    }

    /// This sets the name and namespace from the given object's metadata.
    pub fn name_and_namespace(self, meta: &ObjectMeta) -> (r: ObjectMetaBuilder)
        ensures
            r.name matches Some(n) && n@ == name_any_view(meta),
            r.namespace == meta.namespace,
            r.generate_name == self.generate_name,
            r.ownerreference == self.ownerreference,
            r.labels == self.labels,
            r.annotations == self.annotations,
    {
        let name = meta.name_any();
        let namespace = match &meta.namespace {
            Some(ns) => Some(ns.clone()),
            None => None,
        };
        ObjectMetaBuilder { name: Some(name), namespace, ..self }
    }

    pub fn name_opt(self, name: Option<String>) -> (r: ObjectMetaBuilder)
        ensures
            r == (ObjectMetaBuilder { name: name, ..self }),
    {
        ObjectMetaBuilder { name, ..self }
    }

    pub fn name(self, name: String) -> (r: ObjectMetaBuilder)
        ensures
            r == (ObjectMetaBuilder { name: Some(name), ..self }),
    {
        ObjectMetaBuilder { name: Some(name), ..self }
    }

    pub fn generate_name(self, generate_name: String) -> (r: ObjectMetaBuilder)
        ensures
            r == (ObjectMetaBuilder { generate_name: Some(generate_name), ..self }),
    {
        ObjectMetaBuilder { generate_name: Some(generate_name), ..self }
    }

    pub fn generate_name_opt(self, generate_name: Option<String>) -> (r: ObjectMetaBuilder)
        ensures
            r == (ObjectMetaBuilder { generate_name: generate_name, ..self }),
    {
        ObjectMetaBuilder { generate_name, ..self }
    }

    pub fn namespace_opt(self, namespace: Option<String>) -> (r: ObjectMetaBuilder)
        ensures
            r == (ObjectMetaBuilder { namespace: namespace, ..self }),
    {
        ObjectMetaBuilder { namespace, ..self }
    }

    pub fn namespace(self, namespace: String) -> (r: ObjectMetaBuilder)
        ensures
            r == (ObjectMetaBuilder { namespace: Some(namespace), ..self }),
    {
        ObjectMetaBuilder { namespace: Some(namespace), ..self }
    }

    pub fn ownerreference(self, ownerreference: OwnerReference) -> (r: ObjectMetaBuilder)
        ensures
            r == (ObjectMetaBuilder { ownerreference: Some(ownerreference), ..self }),
    {
        ObjectMetaBuilder { ownerreference: Some(ownerreference), ..self }
    }

    pub fn ownerreference_opt(self, ownerreference: Option<OwnerReference>) -> (
        r: ObjectMetaBuilder)
        ensures
            r == (ObjectMetaBuilder { ownerreference: ownerreference, ..self }),
    {
        ObjectMetaBuilder { ownerreference, ..self }
    }

    /// Set the owner reference to the given resource, identified by its api
    /// version, kind and metadata.  Fails when the metadata carries no UID:
    /// an owner that has not been persisted cannot be referenced.
    pub fn ownerreference_from_resource(
        self,
        api_version: &str,
        kind: &str,
        meta: &ObjectMeta,
        block_owner_deletion: Option<bool>,
        controller: Option<bool>,
    ) -> (r: Result<ObjectMetaBuilder, Error>)
        ensures
            meta.uid is Some ==> (r matches Ok(b) && {
                &&& b.ownerreference matches Some(o) && {
                    &&& o.api_version@ == api_version@
                    &&& o.kind@ == kind@
                    &&& o.name@ == name_any_view(meta)
                    &&& o.uid@ == meta.uid->Some_0@
                    &&& o.block_owner_deletion == block_owner_deletion
                    &&& o.controller == controller
                }
                &&& b.name == self.name
                &&& b.generate_name == self.generate_name
                &&& b.namespace == self.namespace
                &&& b.labels == self.labels
                &&& b.annotations == self.annotations
            }),
            meta.uid is None ==> (r matches Err(e) && e.is_missing_object_key("uid"@)),
    {
        let ownerreference = OwnerReferenceBuilder::new().initialize_from_resource(
            api_version,
            kind,
            meta,
        ).block_owner_deletion_opt(block_owner_deletion).controller_opt(controller).build()?;
        Ok(ObjectMetaBuilder { ownerreference: Some(ownerreference), ..self })
    }

    /// This adds a single annotation to the existing annotations.
    /// It'll override an annotation with the same key.
    pub fn with_annotation(self, annotation_key: String, annotation_value: String) -> (
        r: ObjectMetaBuilder)
        ensures
            r.annotations matches Some(a) && a@ == match self.annotations {
                Some(old_a) => old_a@.insert(annotation_key@, annotation_value@),
                None => Map::<Seq<char>, Seq<char>>::empty().insert(
                    annotation_key@,
                    annotation_value@,
                ),
            },
            r.name == self.name,
            r.generate_name == self.generate_name,
            r.namespace == self.namespace,
            r.ownerreference == self.ownerreference,
            r.labels == self.labels,
    {
        let mut annotations = match self.annotations {
            Some(a) => a,
            None => ConfMap::new(),
        };
        annotations.insert(annotation_key, annotation_value);
        ObjectMetaBuilder { annotations: Some(annotations), ..self }
    }

    /// This adds multiple annotations; existing annotations with the same
    /// keys are overwritten.
    pub fn with_annotations(self, annotations: ConfMap) -> (r: ObjectMetaBuilder)
        ensures
            r.annotations matches Some(a) && a@ == match self.annotations {
                Some(old_a) => old_a@.union_prefer_right(annotations@),
                None => Map::<Seq<char>, Seq<char>>::empty().union_prefer_right(annotations@),
            },
            r.name == self.name,
            r.generate_name == self.generate_name,
            r.namespace == self.namespace,
            r.ownerreference == self.ownerreference,
            r.labels == self.labels,
    {
        let mut merged = match self.annotations {
            Some(a) => a,
            None => ConfMap::new(),
        };
        merged.extend(&annotations);
        ObjectMetaBuilder { annotations: Some(merged), ..self }
    }

    /// This replaces all existing annotations.
    pub fn annotations(self, annotations: ConfMap) -> (r: ObjectMetaBuilder)
        ensures
            r == (ObjectMetaBuilder { annotations: Some(annotations), ..self }),
    {
        ObjectMetaBuilder { annotations: Some(annotations), ..self }
    }

    /// This adds a single label to the existing labels.
    /// It'll override a label with the same key.
    pub fn with_label(self, label_key: String, label_value: String) -> (r: ObjectMetaBuilder)
        ensures
            r.labels matches Some(l) && l@ == match self.labels {
                Some(old_l) => old_l@.insert(label_key@, label_value@),
                None => Map::<Seq<char>, Seq<char>>::empty().insert(label_key@, label_value@),
            },
            r.name == self.name,
            r.generate_name == self.generate_name,
            r.namespace == self.namespace,
            r.ownerreference == self.ownerreference,
            r.annotations == self.annotations,
    {
        let mut labels = match self.labels {
            Some(l) => l,
            None => ConfMap::new(),
        };
        labels.insert(label_key, label_value);
        ObjectMetaBuilder { labels: Some(labels), ..self }
    }

    /// This adds multiple labels; existing labels with the same keys are
    /// overwritten.
    pub fn with_labels(self, labels: ConfMap) -> (r: ObjectMetaBuilder)
        ensures
            r.labels matches Some(l) && l@ == match self.labels {
                Some(old_l) => old_l@.union_prefer_right(labels@),
                None => Map::<Seq<char>, Seq<char>>::empty().union_prefer_right(labels@),
            },
            r.name == self.name,
            r.generate_name == self.generate_name,
            r.namespace == self.namespace,
            r.ownerreference == self.ownerreference,
            r.annotations == self.annotations,
    {
        let mut merged = match self.labels {
            Some(l) => l,
            None => ConfMap::new(),
        };
        merged.extend(&labels);
        ObjectMetaBuilder { labels: Some(merged), ..self }
    }

    /// This replaces all existing labels.
    pub fn labels(self, labels: ConfMap) -> (r: ObjectMetaBuilder)
        ensures
            r == (ObjectMetaBuilder { labels: Some(labels), ..self }),
    {
        ObjectMetaBuilder { labels: Some(labels), ..self }
    }

    /// Add the recommended label set computed from the given owner identity.
    pub fn with_recommended_labels(self, object_labels: ObjectLabels) -> (r: ObjectMetaBuilder)
        ensures
            r.labels matches Some(l) && l@ == match self.labels {
                Some(old_l) => old_l@.union_prefer_right(recommended_labels_view(&object_labels)),
                None => Map::<Seq<char>, Seq<char>>::empty().union_prefer_right(
                    recommended_labels_view(&object_labels),
                ),
            },
            r.name == self.name,
            r.generate_name == self.generate_name,
            r.namespace == self.namespace,
            r.ownerreference == self.ownerreference,
            r.annotations == self.annotations,
    {
        let recommended = get_recommended_labels(object_labels);
        self.with_labels(recommended)
    }

    /// Assemble the metadata from the fields set so far.
    pub fn build(&self) -> (r: ObjectMeta)
        ensures
            r.name == self.name,
            r.generate_name == self.generate_name,
            r.namespace == self.namespace,
            match (&r.labels, &self.labels) {
                (Some(a), Some(b)) => a@ == b@,
                (None, None) => true,
                _ => false,
            },
            match (&r.annotations, &self.annotations) {
                (Some(a), Some(b)) => a@ == b@,
                (None, None) => true,
                _ => false,
            },
            match &self.ownerreference {
                Some(o) => r.owner_references matches Some(os) && os@.len() == 1 && os@[0] == *o,
                None => r.owner_references is None,
            },
            r.uid is None,
            r.finalizers is None,
            r.deletion_timestamp is None,
    {
        let owner_references = match &self.ownerreference {
            Some(o) => Some(vec![o.clone_ref()]),
            None => None,
        };
        ObjectMeta {
            name: clone_opt_string(&self.name),
            generate_name: clone_opt_string(&self.generate_name),
            namespace: clone_opt_string(&self.namespace),
            uid: None,
            labels: match &self.labels {
                Some(l) => Some(l.clone()),
                None => None,
            },
            annotations: match &self.annotations {
                Some(a) => Some(a.clone()),
                None => None,
            },
            owner_references,
            finalizers: None,
            deletion_timestamp: None,
        }
    }
}

/// Copy an optional string; `clone` on `Option` itself says nothing to the
/// verifier, so the cases are spelt out.
pub fn clone_opt_string(o: &Option<String>) -> (r: Option<String>)
    ensures
        r == *o,
{
    match o {
        Some(s) => Some(s.clone()),
        None => None,
    }
}

impl OwnerReference {
    /// Copy the reference field by field.
    pub fn clone_ref(&self) -> (r: OwnerReference)
        ensures
            r == *self,
    {
        OwnerReference {
            api_version: self.api_version.clone(),
            block_owner_deletion: self.block_owner_deletion,
            controller: self.controller,
            kind: self.kind.clone(),
            name: self.name.clone(),
            uid: self.uid.clone(),
        }
    }
}

/// Builds [`OwnerReference`], field by field; `build` reports the first
/// required field that is still missing.
pub struct OwnerReferenceBuilder {
    pub api_version: Option<String>,
    pub block_owner_deletion: Option<bool>,
    pub controller: Option<bool>,
    pub kind: Option<String>,
    pub name: Option<String>,
    pub uid: Option<String>,
}

impl OwnerReferenceBuilder {
    pub fn new() -> (r: OwnerReferenceBuilder)
        ensures
            r.api_version is None,
            r.block_owner_deletion is None,
            r.controller is None,
            r.kind is None,
            r.name is None,
            r.uid is None,
    {
        OwnerReferenceBuilder {
            api_version: None,
            block_owner_deletion: None,
            controller: None,
            kind: None,
            name: None,
            uid: None,
        }
    }

    pub fn api_version(self, api_version: String) -> (r: OwnerReferenceBuilder)
        ensures
            r == (OwnerReferenceBuilder { api_version: Some(api_version), ..self }),
    {
        OwnerReferenceBuilder { api_version: Some(api_version), ..self }
    }

    pub fn api_version_opt(self, api_version: Option<String>) -> (r: OwnerReferenceBuilder)
        ensures
            r == (OwnerReferenceBuilder { api_version: api_version, ..self }),
    {
        OwnerReferenceBuilder { api_version, ..self }
    }

    pub fn block_owner_deletion(self, block_owner_deletion: bool) -> (r: OwnerReferenceBuilder)
        ensures
            r == (OwnerReferenceBuilder {
                block_owner_deletion: Some(block_owner_deletion),
                ..self
            }),
    {
        OwnerReferenceBuilder { block_owner_deletion: Some(block_owner_deletion), ..self }
    }

    pub fn block_owner_deletion_opt(self, block_owner_deletion: Option<bool>) -> (
        r: OwnerReferenceBuilder)
        ensures
            r == (OwnerReferenceBuilder { block_owner_deletion: block_owner_deletion, ..self }),
    {
        OwnerReferenceBuilder { block_owner_deletion, ..self }
    }

    pub fn controller(self, controller: bool) -> (r: OwnerReferenceBuilder)
        ensures
            r == (OwnerReferenceBuilder { controller: Some(controller), ..self }),
    {
        OwnerReferenceBuilder { controller: Some(controller), ..self }
    }

    pub fn controller_opt(self, controller: Option<bool>) -> (r: OwnerReferenceBuilder)
        ensures
            r == (OwnerReferenceBuilder { controller: controller, ..self }),
    {
        OwnerReferenceBuilder { controller, ..self }
    }

    pub fn kind(self, kind: String) -> (r: OwnerReferenceBuilder)
        ensures
            r == (OwnerReferenceBuilder { kind: Some(kind), ..self }),
    {
        OwnerReferenceBuilder { kind: Some(kind), ..self }
    }

    pub fn kind_opt(self, kind: Option<String>) -> (r: OwnerReferenceBuilder)
        ensures
            r == (OwnerReferenceBuilder { kind: kind, ..self }),
    {
        OwnerReferenceBuilder { kind, ..self }
    }

    pub fn name(self, name: String) -> (r: OwnerReferenceBuilder)
        ensures
            r == (OwnerReferenceBuilder { name: Some(name), ..self }),
    {
        OwnerReferenceBuilder { name: Some(name), ..self }
    }

    pub fn name_opt(self, name: Option<String>) -> (r: OwnerReferenceBuilder)
        ensures
            r == (OwnerReferenceBuilder { name: name, ..self }),
    {
        OwnerReferenceBuilder { name, ..self }
    }

    pub fn uid(self, uid: String) -> (r: OwnerReferenceBuilder)
        ensures
            r == (OwnerReferenceBuilder { uid: Some(uid), ..self }),
    {
        OwnerReferenceBuilder { uid: Some(uid), ..self }
    }

    pub fn uid_opt(self, uid: Option<String>) -> (r: OwnerReferenceBuilder)
        ensures
            r == (OwnerReferenceBuilder { uid: uid, ..self }),
    {
        OwnerReferenceBuilder { uid, ..self }
    }

    /// Take api version, kind, name and UID from the given resource.
    pub fn initialize_from_resource(self, api_version: &str, kind: &str, meta: &ObjectMeta) -> (
        r: OwnerReferenceBuilder)
        ensures
            r.api_version matches Some(a) && a@ == api_version@,
            r.kind matches Some(k) && k@ == kind@,
            r.name matches Some(n) && n@ == name_any_view(meta),
            r.uid == meta.uid,
            r.block_owner_deletion == self.block_owner_deletion,
            r.controller == self.controller,
    {
        let name = meta.name_any();
        self.api_version(api_version.to_owned()).kind(kind.to_owned()).name(name).uid_opt(
            clone_opt_string(&meta.uid),
        )
    }

    /// Assemble the owner reference; the first missing required field, in
    /// the order api version, kind, name, UID, is reported as an error.
    pub fn build(&self) -> (r: Result<OwnerReference, Error>)
        ensures
            self.api_version is None ==> (r matches Err(e) && e.is_missing_object_key(
                "api_version"@,
            )),
            self.api_version is Some && self.kind is None ==> (r matches Err(e)
                && e.is_missing_object_key("kind"@)),
            self.api_version is Some && self.kind is Some && self.name is None ==> (r matches Err(
                e,
            ) && e.is_missing_object_key("name"@)),
            self.api_version is Some && self.kind is Some && self.name is Some && self.uid is None
                ==> (r matches Err(e) && e.is_missing_object_key("uid"@)),
            self.api_version is Some && self.kind is Some && self.name is Some && self.uid is Some
                ==> (r matches Ok(o) && {
                &&& o.api_version == self.api_version->Some_0
                &&& o.kind == self.kind->Some_0
                &&& o.name == self.name->Some_0
                &&& o.uid == self.uid->Some_0
                &&& o.block_owner_deletion == self.block_owner_deletion
                &&& o.controller == self.controller
            }),
    {
        let api_version = match &self.api_version {
            None => {
                return Err(Error::missing_object_key("api_version"));
            }
            Some(a) => a.clone(),
        };
        let kind = match &self.kind {
            None => {
                return Err(Error::missing_object_key("kind"));
            }
            Some(k) => k.clone(),
        };
        let name = match &self.name {
            None => {
                return Err(Error::missing_object_key("name"));
            }
            Some(n) => n.clone(),
        };
        let uid = match &self.uid {
            None => {
                return Err(Error::missing_object_key("uid"));
            }
            Some(u) => u.clone(),
        };
        proof {
            assert(api_version == self.api_version->Some_0);
        }
        Ok(
            OwnerReference {
                api_version,
                block_owner_deletion: self.block_owner_deletion,
                controller: self.controller,
                kind,
                name,
                uid,
            },
        )
    }
}

/// The identity a managed object is labelled with: who owns it, which
/// application and version it belongs to, and which operator and controller
/// manage it.
pub struct ObjectLabels {
    pub owner_name: String,
    pub app_name: String,
    pub app_version: String,
    /// The DNS-style name of the operator managing the object.
    pub operator_name: String,
    pub controller_name: String,
    pub role: String,
    pub role_group: String,
}

/// The labels every managed object carries: the application name and the
/// owner's name as the instance.
pub open spec fn common_labels_view(app_name: Seq<char>, owner_name: Seq<char>) -> Map<
    Seq<char>,
    Seq<char>,
> {
    Map::<Seq<char>, Seq<char>>::empty().insert("app.kubernetes.io/name"@, app_name).insert(
        "app.kubernetes.io/instance"@,
        owner_name,
    )
}

/// Common labels plus the component role.
pub open spec fn role_labels_view(app_name: Seq<char>, owner_name: Seq<char>, role: Seq<char>) -> Map<
    Seq<char>,
    Seq<char>,
> {
    common_labels_view(app_name, owner_name).insert("app.kubernetes.io/component"@, role)
}

/// Role labels plus the role group.
pub open spec fn role_group_labels_view(
    app_name: Seq<char>,
    owner_name: Seq<char>,
    role: Seq<char>,
    role_group: Seq<char>,
) -> Map<Seq<char>, Seq<char>> {
    role_labels_view(app_name, owner_name, role).insert("app.kubernetes.io/role-group"@, role_group)
}

/// The full recommended label set: role-group labels plus the version and
/// the managed-by value composed from operator and controller name.
pub open spec fn recommended_labels_view(l: &ObjectLabels) -> Map<Seq<char>, Seq<char>> {
    role_group_labels_view(l.app_name@, l.owner_name@, l.role@, l.role_group@).insert(
        "app.kubernetes.io/version"@,
        l.app_version@,
    ).insert("app.kubernetes.io/managed-by"@, l.operator_name@ + "_"@ + l.controller_name@)
}

/// The labels shared by all objects managed for one owner.
pub fn build_common_labels_for_all_managed_resources(app_name: &str, owner_name: &str) -> (
    r: ConfMap)
    ensures
        r@ == common_labels_view(app_name@, owner_name@),
{
    let mut labels = ConfMap::new();
    labels.insert(APP_NAME_LABEL.to_owned(), app_name.to_owned());
    labels.insert(APP_INSTANCE_LABEL.to_owned(), owner_name.to_owned());
    labels
}

/// The labels selecting one role of one owner's objects.
pub fn role_selector_labels(owner_name: &str, app_name: &str, role: &str) -> (r: ConfMap)
    ensures
        r@ == role_labels_view(app_name@, owner_name@, role@),
{
    let mut labels = build_common_labels_for_all_managed_resources(app_name, owner_name);
    labels.insert(APP_COMPONENT_LABEL.to_owned(), role.to_owned());
    labels
}

/// The labels selecting one role group of one owner's objects.
pub fn role_group_selector_labels(owner_name: &str, app_name: &str, role: &str, role_group: &str) -> (
    r: ConfMap)
    ensures
        r@ == role_group_labels_view(app_name@, owner_name@, role@, role_group@),
{
    let mut labels = role_selector_labels(owner_name, app_name, role);
    labels.insert(APP_ROLE_GROUP_LABEL.to_owned(), role_group.to_owned());
    labels
}

/// The recommended label set for an object with the given identity.
pub fn get_recommended_labels(l: ObjectLabels) -> (r: ConfMap)
    ensures
        r@ == recommended_labels_view(&l),
{
    let mut labels = role_group_selector_labels(
        l.owner_name.as_str(),
        l.app_name.as_str(),
        l.role.as_str(),
        l.role_group.as_str(),
    );
    labels.insert(APP_VERSION_LABEL.to_owned(), l.app_version.clone());
    let mut managed_by = l.operator_name.clone();
    managed_by.append("_");
    managed_by.append(l.controller_name.as_str());
    labels.insert(APP_MANAGED_BY_LABEL.to_owned(), managed_by);
    labels
}

} // verus!
