//! Per-workspace cleanup policy over the global configuration.

use crate::config::{keep_view, DaemonConfig, WsCkptError};
use crate::retention::{format_retention, CleanupRetention, RetentionJson, RetentionView};
use crate::text_list::join;
use vstd::prelude::*;

verus! {

/// Versioned schema tag for [`WorkspacePolicyJson`].
pub const WORKSPACE_POLICY_JSON_SCHEMA: &'static str = "ws-ckpt-policy/v1";

/// Field-level patch: leave the field as it is, or set it.
#[derive(Debug, PartialEq, Default)]
pub enum PolicyFieldOp<T> {
    #[default]
    Unchanged,
    SetTo(T),
}

impl<T> PolicyFieldOp<T> {
    /// The value of the field after the patch.
    pub open spec fn applied(self, current: Option<T>) -> Option<T> {
        match self {
            PolicyFieldOp::Unchanged => current,
            PolicyFieldOp::SetTo(v) => Some(v),
        }
    }

    /// Applies this patch to a field's existing value.
    pub fn apply(self, current: Option<T>) -> (r: Option<T>)
        ensures
            r == self.applied(current),
    {
        match self {
            PolicyFieldOp::Unchanged => current,
            PolicyFieldOp::SetTo(v) => Some(v),
        }
    }
}

/// The view of a retention patch.
pub open spec fn keep_op(op: PolicyFieldOp<CleanupRetention>) -> PolicyFieldOp<RetentionView> {
    match op {
        PolicyFieldOp::Unchanged => PolicyFieldOp::Unchanged,
        PolicyFieldOp::SetTo(k) => PolicyFieldOp::SetTo(k@),
    }
}

/// Per-workspace override of the global policy; a field that is not set inherits the global
/// value.
#[derive(Debug, PartialEq)]
pub struct WorkspacePolicy {
    pub auto_cleanup: Option<bool>,
    pub auto_cleanup_keep: Option<CleanupRetention>,
}

/// What a policy says.
pub struct PolicyView {
    pub auto_cleanup: Option<bool>,
    pub auto_cleanup_keep: Option<RetentionView>,
}

impl PolicyView {
    /// The policy that inherits everything.
    pub open spec fn inherit() -> PolicyView {
        PolicyView { auto_cleanup: None, auto_cleanup_keep: None }
    }

    /// The policy that stands in for one that could not be read: cleanup is off.
    pub open spec fn failsafe() -> PolicyView {
        PolicyView { auto_cleanup: Some(false), auto_cleanup_keep: None }
    }

    /// The policy in force over the global settings: field by field, the override where there
    /// is one.
    pub open spec fn over(self, global: EffectiveView) -> EffectiveView {
        EffectiveView {
            auto_cleanup: self.auto_cleanup.unwrap_or(global.auto_cleanup),
            auto_cleanup_keep: self.auto_cleanup_keep.unwrap_or(global.auto_cleanup_keep),
        }
    }

    /// The policy after a patch.
    pub open spec fn patched(
        self,
        auto_cleanup: PolicyFieldOp<bool>,
        auto_cleanup_keep: PolicyFieldOp<RetentionView>,
    ) -> PolicyView {
        PolicyView {
            auto_cleanup: auto_cleanup.applied(self.auto_cleanup),
            auto_cleanup_keep: auto_cleanup_keep.applied(self.auto_cleanup_keep),
        }
    }
}

impl View for WorkspacePolicy {
    type V = PolicyView;

    open spec fn view(&self) -> PolicyView {
        PolicyView {
            auto_cleanup: self.auto_cleanup,
            auto_cleanup_keep: keep_view(self.auto_cleanup_keep),
        }
    }
}

impl Default for WorkspacePolicy {
    fn default() -> (r: Self)
        ensures
            r@ == PolicyView::inherit(),
    {
        WorkspacePolicy { auto_cleanup: None, auto_cleanup_keep: None }
    }
}

impl Clone for WorkspacePolicy {
    fn clone(&self) -> (r: Self)
        ensures
            r@ == self@,
    {
        WorkspacePolicy {
            auto_cleanup: self.auto_cleanup,
            auto_cleanup_keep: match &self.auto_cleanup_keep {
                Some(k) => Some(k.clone()),
                None => None,
            },
        }
    }
}

impl WorkspacePolicy {
    /// Whether no field is set: the workspace inherits everything.
    pub fn is_empty(&self) -> (r: bool)
        ensures
            r == (self@ == PolicyView::inherit()),
    {
        self.auto_cleanup.is_none() && self.auto_cleanup_keep.is_none()
    }

    /// Overlays this policy on the global configuration.
    pub fn effective_for(&self, global: &DaemonConfig) -> (r: EffectivePolicy)
        ensures
            r@ == self@.over(global_view(*global)),
    {
        EffectivePolicy {
            auto_cleanup: match self.auto_cleanup {
                Some(v) => v,
                None => global.auto_cleanup,
            },
            auto_cleanup_keep: match &self.auto_cleanup_keep {
                Some(k) => k.clone(),
                None => global.auto_cleanup_keep.clone(),
            },
        }
    }

    /// The policy after a patch.
    pub fn patch(
        &self,
        auto_cleanup: PolicyFieldOp<bool>,
        auto_cleanup_keep: PolicyFieldOp<CleanupRetention>,
    ) -> (r: WorkspacePolicy)
        ensures
            r@ == self@.patched(auto_cleanup, keep_op(auto_cleanup_keep)),
    {
        let current = self.clone();
        WorkspacePolicy {
            auto_cleanup: auto_cleanup.apply(current.auto_cleanup),
            auto_cleanup_keep: auto_cleanup_keep.apply(current.auto_cleanup_keep),
        }
    }
}

/// Merged cleanup behaviour applied to one workspace.
#[derive(Debug, PartialEq)]
pub struct EffectivePolicy {
    pub auto_cleanup: bool,
    pub auto_cleanup_keep: CleanupRetention,
}

/// What a merged policy says.
pub struct EffectiveView {
    pub auto_cleanup: bool,
    pub auto_cleanup_keep: RetentionView,
}

impl EffectiveView {
    /// Whether cleanup does nothing: it is off, or its retention disables it.
    pub open spec fn is_disabled(self) -> bool {
        !self.auto_cleanup || self.auto_cleanup_keep.is_disabled()
    }
}

impl View for EffectivePolicy {
    type V = EffectiveView;

    open spec fn view(&self) -> EffectiveView {
        EffectiveView {
            auto_cleanup: self.auto_cleanup,
            auto_cleanup_keep: self.auto_cleanup_keep@,
        }
    }
}

impl EffectivePolicy {
    /// Whether the scheduler should skip this workspace.
    pub fn is_disabled(&self) -> (r: bool)
        ensures
            r == self@.is_disabled(),
    {
        !self.auto_cleanup || self.auto_cleanup_keep.is_disabled()
    }
}

/// The global policy fields of a configuration.
pub open spec fn global_view(cfg: DaemonConfig) -> EffectiveView {
    EffectiveView { auto_cleanup: cfg.auto_cleanup, auto_cleanup_keep: cfg.auto_cleanup_keep@ }
}

/// The global policy fields at query time.
#[derive(Debug, PartialEq)]
pub struct GlobalPolicySnapshot {
    pub auto_cleanup: bool,
    pub auto_cleanup_keep: CleanupRetention,
}

impl View for GlobalPolicySnapshot {
    type V = EffectiveView;

    open spec fn view(&self) -> EffectiveView {
        EffectiveView {
            auto_cleanup: self.auto_cleanup,
            auto_cleanup_keep: self.auto_cleanup_keep@,
        }
    }
}

impl GlobalPolicySnapshot {
    /// The policy fields of a configuration.
    pub fn from_config(cfg: &DaemonConfig) -> (r: Self)
        ensures
            r@ == global_view(*cfg),
    {
        GlobalPolicySnapshot {
            auto_cleanup: cfg.auto_cleanup,
            auto_cleanup_keep: cfg.auto_cleanup_keep.clone(),
        }
    }
}

/// JSON shape of a workspace policy query.
#[derive(Debug, PartialEq)]
pub struct WorkspacePolicyJson {
    pub schema: &'static str,
    pub ws_id: String,
    pub effective: EffectivePolicyJson,
    pub local: LocalPolicyJson,
    pub global: GlobalPolicyValuesJson,
}

/// JSON shape of the policy in force.
#[derive(Debug, PartialEq)]
pub struct EffectivePolicyJson {
    pub auto_cleanup: bool,
    pub auto_cleanup_keep: RetentionJson,
    /// Whether cleanup does nothing, computed here so that consumers need not.
    pub is_disabled: bool,
}

/// JSON shape of the workspace's own policy.
#[derive(Debug, PartialEq)]
pub struct LocalPolicyJson {
    pub auto_cleanup: Option<bool>,
    pub auto_cleanup_keep: Option<RetentionJson>,
}

/// JSON shape of the global policy fields.
#[derive(Debug, PartialEq)]
pub struct GlobalPolicyValuesJson {
    pub auto_cleanup: bool,
    pub auto_cleanup_keep: RetentionJson,
}

impl WorkspacePolicyJson {
    /// Builds the JSON shape from the three views of a policy.
    pub fn from_views(
        ws_id: String,
        effective: &EffectivePolicy,
        local: &WorkspacePolicy,
        global: &GlobalPolicySnapshot,
    ) -> (r: Self)
        ensures
            r.schema@ == WORKSPACE_POLICY_JSON_SCHEMA@,
            r.ws_id@ == ws_id@,
            r.effective.auto_cleanup == effective.auto_cleanup,
            r.effective.auto_cleanup_keep.stands_for() == effective.auto_cleanup_keep@,
            r.effective.is_disabled == effective@.is_disabled(),
            r.local.auto_cleanup == local.auto_cleanup,
            match r.local.auto_cleanup_keep {
                Some(k) => local@.auto_cleanup_keep == Some(k.stands_for()),
                None => local@.auto_cleanup_keep is None,
            },
            r.global.auto_cleanup == global.auto_cleanup,
            r.global.auto_cleanup_keep.stands_for() == global.auto_cleanup_keep@,
    {
        WorkspacePolicyJson {
            schema: WORKSPACE_POLICY_JSON_SCHEMA,
            ws_id,
            effective: EffectivePolicyJson {
                auto_cleanup: effective.auto_cleanup,
                auto_cleanup_keep: RetentionJson::from(&effective.auto_cleanup_keep),
                is_disabled: effective.is_disabled(),
            },
            local: LocalPolicyJson {
                auto_cleanup: local.auto_cleanup,
                auto_cleanup_keep: match &local.auto_cleanup_keep {
                    Some(k) => Some(RetentionJson::from(k)),
                    None => None,
                },
            },
            global: GlobalPolicyValuesJson {
                auto_cleanup: global.auto_cleanup,
                auto_cleanup_keep: RetentionJson::from(&global.auto_cleanup_keep),
            },
        }
    }
}

/// What reading a workspace's policy file gave: no file, or a policy.
#[derive(Debug, PartialEq)]
pub enum LoadPolicyOutcome {
    /// No policy file: inherit the global policy.
    Missing,
    /// The policy that the file holds.
    Loaded(WorkspacePolicy),
}

impl LoadPolicyOutcome {
    /// The policy that the outcome stands for.
    pub open spec fn policy(self) -> PolicyView {
        match self {
            LoadPolicyOutcome::Missing => PolicyView::inherit(),
            LoadPolicyOutcome::Loaded(p) => p@,
        }
    }
}

/// The policy read at startup, where there is no earlier one to keep: a missing file stands for
/// the policy that inherits everything, and an error stays an error.
pub fn load_workspace_policy_or_default(loaded: Result<LoadPolicyOutcome, WsCkptError>) -> (r:
    Result<WorkspacePolicy, WsCkptError>)
    ensures
        match loaded {
            Ok(o) => r is Ok && r->Ok_0@ == o.policy(),
            Err(e) => r == Err::<WorkspacePolicy, WsCkptError>(e),
        },
{
    match loaded {
        Ok(LoadPolicyOutcome::Missing) => Ok(WorkspacePolicy::default()),
        Ok(LoadPolicyOutcome::Loaded(p)) => Ok(p),
        Err(e) => Err(e),
    }
}

/// The policy to register a workspace with, and whether it is a stand-in. Where the file could
/// not be read, inheriting the global policy could delete protected snapshots, so cleanup is
/// switched off until the file is read or reset.
pub fn load_workspace_policy_with_failsafe(loaded: Result<LoadPolicyOutcome, WsCkptError>) -> (r: (
    WorkspacePolicy,
    bool,
))
    ensures
        match loaded {
            Ok(o) => r.0@ == o.policy() && !r.1,
            Err(_) => r.0@ == PolicyView::failsafe() && r.1,
        },
{
    match loaded {
        Ok(LoadPolicyOutcome::Missing) => (WorkspacePolicy::default(), false),
        Ok(LoadPolicyOutcome::Loaded(p)) => (p, false),
        Err(_) => (WorkspacePolicy { auto_cleanup: Some(false), auto_cleanup_keep: None }, true),
    }
}

/// The two reasons for which a policy in force does nothing, each with the layer to change.
pub open spec fn disabled_reasons(effective: EffectiveView, local: PolicyView) -> Seq<Seq<char>> {
    let cleanup = if effective.auto_cleanup {
        seq![]
    } else if local.auto_cleanup == Some(false) {
        seq![
            "local auto_cleanup is false (override with `--enable-auto-cleanup` on this command)"@,
        ]
    } else {
        seq![
            "global auto_cleanup is false (pass `--enable-auto-cleanup` here for a per-ws override, or `ws-ckpt config -g --enable-auto-cleanup` to flip it globally)"@,
        ]
    };
    let keep = if !effective.auto_cleanup_keep.is_disabled() {
        seq![]
    } else if local.auto_cleanup_keep matches Some(k) && k.is_disabled() {
        seq![
            "local auto_cleanup_keep is "@ + local.auto_cleanup_keep->0.text()
                + " (override with `--auto-cleanup-keep <N>`, N >= 1)"@,
        ]
    } else {
        seq![
            "global auto_cleanup_keep is "@ + effective.auto_cleanup_keep.text()
                + " (pass `--auto-cleanup-keep <N>` here, or `ws-ckpt config -g --auto-cleanup-keep N`)"@,
        ]
    };
    cleanup + keep
}

/// The warning for a user who set a policy field and yet has cleanup disabled, naming what
/// disables it.
pub fn disabled_warning_for(
    asked_enable: bool,
    supplied_keep: bool,
    effective: &EffectivePolicy,
    local: &WorkspacePolicy,
) -> (r: Option<String>)
    ensures
        r is Some <==> (asked_enable || supplied_keep) && effective@.is_disabled(),
        r matches Some(m) ==> m@ == "auto-cleanup is still effectively disabled \u{2014} "@ + join(
            disabled_reasons(effective@, local@),
            "; "@,
        ) + "."@,
{
    if !(asked_enable || supplied_keep) || !effective.is_disabled() {
        return None;
    }
    let ghost reasons = disabled_reasons(effective@, local@);
    let mut text = String::new();
    let mut any = false;
    if !effective.auto_cleanup {
        let local_off = match local.auto_cleanup {
            Some(v) => !v,
            None => false,
        };
        if local_off {
            text.append(
                "local auto_cleanup is false (override with `--enable-auto-cleanup` on this command)",
            );
        } else {
            text.append(
                "global auto_cleanup is false (pass `--enable-auto-cleanup` here for a per-ws override, or `ws-ckpt config -g --enable-auto-cleanup` to flip it globally)",
            );
        }
        any = true;
        proof {
            assert(text@ =~= reasons[0]);
        }
    }
    if effective.auto_cleanup_keep.is_disabled() {
        if any {
            text.append("; ");
        }
        let ghost before = text@;
        let local_keep = match &local.auto_cleanup_keep {
            Some(k) => if k.is_disabled() {
                Some(format_retention(k))
            } else {
                None
            },
            None => None,
        };
        match local_keep {
            Some(shown) => {
                text.append("local auto_cleanup_keep is ");
                text.append(shown.as_str());
                text.append(" (override with `--auto-cleanup-keep <N>`, N >= 1)");
            },
            None => {
                text.append("global auto_cleanup_keep is ");
                text.append(format_retention(&effective.auto_cleanup_keep).as_str());
                text.append(
                    " (pass `--auto-cleanup-keep <N>` here, or `ws-ckpt config -g --auto-cleanup-keep N`)",
                );
            },
        }
        proof {
            assert(text@ =~= before + reasons.last());
        }
    }
    proof {
        if reasons.len() == 2 {
            assert(reasons.drop_last().len() == 1);
            assert(reasons.drop_last()[0] == reasons[0]);
        }
        reveal_with_fuel(join, 3);
        assert(text@ =~= join(reasons, "; "@));
    }
    let mut m = "auto-cleanup is still effectively disabled \u{2014} ".to_owned();
    m.append(text.as_str());
    m.append(".");
    Some(m)
}

/// A policy that inherits everything puts the global settings in force.
pub proof fn lemma_inherit_is_global(global: EffectiveView)
    ensures
        PolicyView::inherit().over(global) == global,
{
}

/// Whatever the global settings, the stand-in for an unreadable policy disables cleanup.
pub proof fn lemma_failsafe_disables(global: EffectiveView)
    ensures
        PolicyView::failsafe().over(global).is_disabled(),
{
}

/// Patches of different fields, made one after the other in either order, both take effect:
/// neither loses the other's.
pub proof fn lemma_field_patches_accumulate(p: PolicyView, on: bool, keep: RetentionView)
    ensures
        p.patched(PolicyFieldOp::SetTo(on), PolicyFieldOp::Unchanged).patched(
            PolicyFieldOp::Unchanged,
            PolicyFieldOp::SetTo(keep),
        ) == p.patched(PolicyFieldOp::SetTo(on), PolicyFieldOp::SetTo(keep)),
        p.patched(PolicyFieldOp::Unchanged, PolicyFieldOp::SetTo(keep)).patched(
            PolicyFieldOp::SetTo(on),
            PolicyFieldOp::Unchanged,
        ) == p.patched(PolicyFieldOp::SetTo(on), PolicyFieldOp::SetTo(keep)),
        p.patched(PolicyFieldOp::Unchanged, PolicyFieldOp::Unchanged) == p,
{
}

/// A patched field is in force whatever the global settings; a field that is not patched is in
/// force as before.
pub proof fn lemma_patch_takes_effect(p: PolicyView, on: bool, global: EffectiveView)
    ensures
        p.patched(PolicyFieldOp::SetTo(on), PolicyFieldOp::Unchanged).over(global) == (EffectiveView {
            auto_cleanup: on,
            auto_cleanup_keep: p.over(global).auto_cleanup_keep,
        }),
{
}

} // verus!
