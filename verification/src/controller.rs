//! The reconciliation state machine and status propagation: which action an
//! observed object calls for, the ordered steps that action takes, which
//! user-facing kind owns a downstream object, and the phase written back to
//! the parent.

use vstd::prelude::*;
use vstd::string::StringExecFns;

use crate::metadata::ObjectMeta;
use crate::metadata::OwnerReference;

verus! {

/// Action to be taken upon a specific resource during reconciliation.
pub enum SparkApplicationAction {
    /// Create the subresources of the object.
    Create,
    /// Delete all subresources created in the `Create` phase.
    Delete,
    /// The resource is in the desired state; nothing to do.
    NoOp,
}

/// The action an object's lifecycle fields call for: deletion once the
/// deletion timestamp is set; creation while no finalizer is present;
/// nothing otherwise.
pub open spec fn action_of(m: &ObjectMeta) -> SparkApplicationAction {
    if m.deletion_timestamp is Some {
        SparkApplicationAction::Delete
    } else if (match &m.finalizers {
        Some(f) => f@.len() == 0,
        None => true,
    }) {
        SparkApplicationAction::Create
    } else {
        SparkApplicationAction::NoOp
    }
}

/// Decide the reconciliation action from the observed metadata.
pub fn determine_action(meta: &ObjectMeta) -> (r: SparkApplicationAction)
    ensures
        r == action_of(meta),
{
    if meta.deletion_timestamp.is_some() {
        SparkApplicationAction::Delete
    } else {
        let empty = match &meta.finalizers {
            Some(f) => f.len() == 0,
            None => true,
        };
        if empty {
            SparkApplicationAction::Create
        } else {
            SparkApplicationAction::NoOp
        }
    }
}

/// One step of a reconciliation plan, in the order the caller must perform
/// them against the store.
pub enum ReconcileStep {
    /// Patch the finalizer onto the object.
    AddFinalizer,
    /// Create the downstream and auxiliary objects.
    DeployDownstream,
    /// Delete the downstream object.
    DeleteDownstream,
    /// Remove the finalizers, releasing the object for deletion.
    RemoveFinalizer,
}

/// The ordered steps an action takes: creation adds the finalizer and then
/// deploys; deletion deletes the downstream object and only then removes
/// the finalizer; a steady object needs no steps.
pub open spec fn plan_of(action: SparkApplicationAction) -> Seq<ReconcileStep> {
    match action {
        SparkApplicationAction::Create => seq![
            ReconcileStep::AddFinalizer,
            ReconcileStep::DeployDownstream,
        ],
        SparkApplicationAction::Delete => seq![
            ReconcileStep::DeleteDownstream,
            ReconcileStep::RemoveFinalizer,
        ],
        SparkApplicationAction::NoOp => Seq::empty(),
    }
}

/// The steps to perform for the action, in order.
pub fn reconcile_plan(action: &SparkApplicationAction) -> (r: Vec<ReconcileStep>)
    ensures
        r@ == plan_of(*action),
{
    let mut steps: Vec<ReconcileStep> = Vec::new();
    match action {
        SparkApplicationAction::Create => {
            steps.push(ReconcileStep::AddFinalizer);
            steps.push(ReconcileStep::DeployDownstream);
            proof {
                assert(steps@ =~= plan_of(*action));
            }
        }
        SparkApplicationAction::Delete => {
            steps.push(ReconcileStep::DeleteDownstream);
            steps.push(ReconcileStep::RemoveFinalizer);
            proof {
                assert(steps@ =~= plan_of(*action));
            }
        }
        SparkApplicationAction::NoOp => {
            proof {
                assert(steps@ =~= plan_of(*action));
            }
        }
    }
    steps
}

/// In every plan, the downstream deletion comes before the finalizer
/// removal: an object is never released before its children are deleted.
pub proof fn lemma_delete_precedes_finalizer_removal(action: SparkApplicationAction, i: int, j: int)
    requires
        0 <= i < plan_of(action).len(),
        0 <= j < plan_of(action).len(),
        plan_of(action)[i] is RemoveFinalizer,
        plan_of(action)[j] is DeleteDownstream,
    ensures
        j < i,
{
}

/// An object with no finalizer and no deletion timestamp is created; once
/// the finalizer is present and no deletion is pending, the object is
/// steady and no further creation is attempted.
pub proof fn lemma_create_once(before: &ObjectMeta, after: &ObjectMeta)
    requires
        before.deletion_timestamp is None,
        before.finalizers is None || before.finalizers->Some_0@.len() == 0,
        after.deletion_timestamp is None,
        after.finalizers matches Some(f) && f@.len() > 0,
    ensures
        action_of(before) is Create,
        action_of(after) is NoOp,
{
}

/// The owning kind an owner reference kind string denotes.
#[derive(Clone, Copy, Debug, PartialEq, Eq, Structural)]
pub enum OwnerType {
    SparkJob,
    SparkSession,
    SparkScheduledJob,
    ScheduledSparkApplication,
    Other,
}

/// The total mapping from a wire kind string to the owning kind; every
/// unrecognized string is explicitly other.
pub open spec fn owner_type_of(kind: Seq<char>) -> OwnerType {
    if kind == "SparkJob"@ {
        OwnerType::SparkJob
    } else if kind == "SparkSession"@ {
        OwnerType::SparkSession
    } else if kind == "SparkScheduledJob"@ {
        OwnerType::SparkScheduledJob
    } else if kind == "ScheduledSparkApplication"@ {
        OwnerType::ScheduledSparkApplication
    } else {
        OwnerType::Other
    }
}

impl OwnerType {
    /// Map a wire kind string to the owning kind.
    pub fn from_kind(kind: &String) -> (r: OwnerType)
        ensures
            r == owner_type_of(kind@),
    {
        proof {
            reveal_strlit("SparkJob");
            reveal_strlit("SparkSession");
            reveal_strlit("SparkScheduledJob");
            reveal_strlit("ScheduledSparkApplication");
        }
        if *kind == String::from_str("SparkJob") {
            OwnerType::SparkJob
        } else if *kind == String::from_str("SparkSession") {
            OwnerType::SparkSession
        } else if *kind == String::from_str("SparkScheduledJob") {
            OwnerType::SparkScheduledJob
        } else if *kind == String::from_str("ScheduledSparkApplication") {
            OwnerType::ScheduledSparkApplication
        } else {
            OwnerType::Other
        }
    }
}

/// Classification of a downstream object by its owner references, with
/// first-match precedence: a job owner wins over a session owner, which
/// wins over a scheduled-job owner, which wins over a scheduled-downstream
/// owner; anything else is other.
pub open spec fn classify_owners(kinds: Seq<Seq<char>>) -> OwnerType {
    if exists|i: int| 0 <= i < kinds.len() && #[trigger] kinds[i] == "SparkJob"@ {
        OwnerType::SparkJob
    } else if exists|i: int| 0 <= i < kinds.len() && #[trigger] kinds[i] == "SparkSession"@ {
        OwnerType::SparkSession
    } else if exists|i: int| 0 <= i < kinds.len() && #[trigger] kinds[i] == "SparkScheduledJob"@ {
        OwnerType::SparkScheduledJob
    } else if exists|i: int|
        0 <= i < kinds.len() && #[trigger] kinds[i] == "ScheduledSparkApplication"@ {
        OwnerType::ScheduledSparkApplication
    } else {
        OwnerType::Other
    }
}

/// The kind strings of an owner reference list.
pub open spec fn kinds_of(refs: Seq<OwnerReference>) -> Seq<Seq<char>> {
    Seq::new(refs.len(), |i: int| refs[i].kind@)
}

/// Classify a downstream object's owning kind from its owner references.
/// An object without an owner reference list cannot be classified.
pub fn determine_spark_app(meta: &ObjectMeta) -> (r: Option<OwnerType>)
    ensures
        match &meta.owner_references {
            Some(refs) => r == Some(classify_owners(kinds_of(refs@))),
            None => r is None,
        },
{
    let refs = match &meta.owner_references {
        Some(refs) => refs,
        None => {
            return None;
        }
    };
    let ghost kinds = kinds_of(refs@);
    let mut has_job = false;
    let mut has_session = false;
    let mut has_schd_job = false;
    let mut has_schd_app = false;
    let mut i: usize = 0;
    while i < refs.len()
        invariant
            i <= refs.len(),
            kinds == kinds_of(refs@),
            kinds.len() == refs@.len(),
            has_job == exists|k: int| 0 <= k < i && #[trigger] kinds[k] == "SparkJob"@,
            has_session == exists|k: int| 0 <= k < i && #[trigger] kinds[k] == "SparkSession"@,
            has_schd_job == exists|k: int| 0 <= k < i && #[trigger] kinds[k]
                == "SparkScheduledJob"@,
            has_schd_app == exists|k: int| 0 <= k < i && #[trigger] kinds[k]
                == "ScheduledSparkApplication"@,
        decreases refs.len() - i,
    {
        if refs[i].kind == String::from_str("SparkJob") {
            has_job = true;
        } else if refs[i].kind == String::from_str("SparkSession") {
            has_session = true;
        } else if refs[i].kind == String::from_str("SparkScheduledJob") {
            has_schd_job = true;
        } else if refs[i].kind == String::from_str("ScheduledSparkApplication") {
            has_schd_app = true;
        }
        proof {
            reveal_strlit("SparkJob");
            reveal_strlit("SparkSession");
            reveal_strlit("SparkScheduledJob");
            reveal_strlit("ScheduledSparkApplication");
            assert(kinds[i as int] == refs@[i as int].kind@);
        }
        i = i + 1;
    }
    if has_job {
        Some(OwnerType::SparkJob)
    } else if has_session {
        Some(OwnerType::SparkSession)
    } else if has_schd_job {
        Some(OwnerType::SparkScheduledJob)
    } else if has_schd_app {
        Some(OwnerType::ScheduledSparkApplication)
    } else {
        Some(OwnerType::Other)
    }
}

/// The phase to patch onto the parent: the downstream application state, or
/// the explicit unknown sentinel when the downstream carries no state.
pub fn status_phase(status: &Option<crate::sko_spark_application::SparkApplicationStatus>) -> (
    r: String)
    ensures
        match status {
            Some(s) => match &s.app_state {
                Some(state) => r@ == state.state@,
                None => r@ == "Unknown"@,
            },
            None => r@ == "Unknown"@,
        },
{
    match status {
        Some(s) => match &s.app_state {
            Some(state) => state.state.clone(),
            None => "Unknown".to_owned(),
        },
        None => "Unknown".to_owned(),
    }
}

/// The phase for a scheduled downstream object: its schedule state, or the
/// unknown sentinel.
pub fn scheduled_status_phase(
    status: &Option<crate::sko_spark_application::ScheduledSparkApplicationStatus>,
) -> (r: String)
    ensures
        match status {
            Some(s) => match &s.schedule_state {
                Some(state) => r@ == state@,
                None => r@ == "Unknown"@,
            },
            None => r@ == "Unknown"@,
        },
{
    match status {
        Some(s) => match &s.schedule_state {
            Some(state) => state.clone(),
            None => "Unknown".to_owned(),
        },
        None => "Unknown".to_owned(),
    }
}

} // verus!
