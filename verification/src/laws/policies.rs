//! Promises about cleanup policies and the configuration.

use crate::config::{
    config_report_to_global_json, file_config_to_global_json, validate_file_config, BackendType,
    ConfigReport, DaemonConfig, FileConfig, GlobalConfigJson, GlobalUpdate, Percent, WsCkptError,
};
use crate::laws::display::{ends_with, holds, lemma_stands};
use crate::policy::{
    disabled_warning_for, load_workspace_policy_or_default, load_workspace_policy_with_failsafe,
    EffectivePolicy, GlobalPolicySnapshot, LoadPolicyOutcome, PolicyFieldOp, WorkspacePolicy,
    WorkspacePolicyJson,
};
use crate::retention::{
    default_auto_cleanup_keep, format_retention, parse_cleanup_retention, parse_duration_secs,
    CleanupRetention, RetentionJson, RetentionView,
};
use crate::settings::{report_update, unlanded_global_settings, ReloadReply, UpdateReport};
use crate::text::{decimal, parsed_number, trimmed};
use crate::text_list::{join, texts};
use vstd::prelude::*;

verus! {

/// Whether nothing is cleaned up under a policy in force: cleanup is off, no snapshots are to be
/// kept, or they are to be kept for no time.
pub open spec fn does_nothing(auto_cleanup: bool, keep: RetentionView) -> bool {
    ||| !auto_cleanup
    ||| keep == RetentionView::Count(0)
    ||| keep matches RetentionView::Age { secs, .. } && secs == 0
}

/// The workspace's own setting is in force where there is one, and the global one where there is
/// none, for each field by itself.
pub proof fn lemma_own_settings_come_first(
    local: WorkspacePolicy,
    global: DaemonConfig,
    snapshot: GlobalPolicySnapshot,
    r: EffectivePolicy,
)
    requires
        call_ensures(WorkspacePolicy::effective_for, (&local, &global), r),
        call_ensures(GlobalPolicySnapshot::from_config, (&global,), snapshot),
    ensures
        local.auto_cleanup matches Some(b) ==> r.auto_cleanup == b,
        local.auto_cleanup is None ==> r.auto_cleanup == global.auto_cleanup,
        local.auto_cleanup_keep matches Some(k) ==> r.auto_cleanup_keep@ == k@,
        local.auto_cleanup_keep is None ==> r.auto_cleanup_keep@ == global.auto_cleanup_keep@,
        snapshot.auto_cleanup == global.auto_cleanup,
        snapshot.auto_cleanup_keep@ == global.auto_cleanup_keep@,
{
}

/// A workspace is skipped exactly where cleaning it up does nothing.
pub proof fn lemma_skipping(p: EffectivePolicy, keep: CleanupRetention, r: bool, k: bool)
    requires
        call_ensures(EffectivePolicy::is_disabled, (&p,), r),
        call_ensures(CleanupRetention::is_disabled, (&keep,), k),
    ensures
        r <==> does_nothing(p.auto_cleanup, p.auto_cleanup_keep@),
        k <==> does_nothing(true, keep@),
{
}

/// A patch sets the fields that it mentions, to the values that it has, and leaves the others.
pub proof fn lemma_patches_touch_what_they_mention(
    before: WorkspacePolicy,
    auto_cleanup: PolicyFieldOp<bool>,
    keep: PolicyFieldOp<CleanupRetention>,
    after: WorkspacePolicy,
)
    requires
        call_ensures(WorkspacePolicy::patch, (&before, auto_cleanup, keep), after),
    ensures
        auto_cleanup matches PolicyFieldOp::SetTo(b) ==> after.auto_cleanup == Some(b),
        auto_cleanup is Unchanged ==> after.auto_cleanup == before.auto_cleanup,
        keep matches PolicyFieldOp::SetTo(k) ==> (after.auto_cleanup_keep matches Some(n) && n@
            == k@),
        keep is Unchanged ==> (after.auto_cleanup_keep is None <==> before.auto_cleanup_keep
            is None),
        keep is Unchanged ==> (before.auto_cleanup_keep matches Some(k)
            ==> after.auto_cleanup_keep->0@ == k@),
{
    let a = after@;
    let b = before@;
    assert(a.auto_cleanup_keep == crate::config::keep_view(after.auto_cleanup_keep));
    assert(b.auto_cleanup_keep == crate::config::keep_view(before.auto_cleanup_keep));
}

/// A policy is empty exactly where neither field is set.
pub proof fn lemma_empty_policies(p: WorkspacePolicy, r: bool)
    requires
        call_ensures(WorkspacePolicy::is_empty, (&p,), r),
    ensures
        r <==> p.auto_cleanup is None && p.auto_cleanup_keep is None,
{
    assert(p@.auto_cleanup_keep == crate::config::keep_view(p.auto_cleanup_keep));
}

/// The JSON shape of a policy says what the policy says: what is in force, what is local and what
/// is global each in its place.
pub proof fn lemma_policy_json(
    ws_id: String,
    effective: EffectivePolicy,
    local: WorkspacePolicy,
    global: GlobalPolicySnapshot,
    r: WorkspacePolicyJson,
)
    requires
        call_ensures(WorkspacePolicyJson::from_views, (ws_id, &effective, &local, &global), r),
    ensures
        r.ws_id@ == ws_id@,
        r.effective.auto_cleanup == effective.auto_cleanup,
        same_retention(r.effective.auto_cleanup_keep, effective.auto_cleanup_keep),
        r.effective.is_disabled <==> does_nothing(
            effective.auto_cleanup,
            effective.auto_cleanup_keep@,
        ),
        r.local.auto_cleanup == local.auto_cleanup,
        match (r.local.auto_cleanup_keep, local.auto_cleanup_keep) {
            (Some(a), Some(b)) => same_retention(a, b),
            (None, None) => true,
            _ => false,
        },
        r.global.auto_cleanup == global.auto_cleanup,
        same_retention(r.global.auto_cleanup_keep, global.auto_cleanup_keep),
{
    assert(local@.auto_cleanup_keep == crate::config::keep_view(local.auto_cleanup_keep));
}

/// Whether a tagged retention is a retention.
pub open spec fn same_retention(j: RetentionJson, k: CleanupRetention) -> bool {
    match (j, k) {
        (RetentionJson::Count { count }, CleanupRetention::Count(n)) => count == n,
        (RetentionJson::Age { raw: a, secs: x }, CleanupRetention::Age { raw: b, secs: y }) => a@
            == b@ && x == y,
        _ => false,
    }
}

/// A missing policy file inherits everything, a file that was read says what it says, and one that
/// could not be read switches cleanup off until it can; only then is the policy a stand-in.
pub proof fn lemma_unreadable_policies_clean_nothing(
    loaded: Result<LoadPolicyOutcome, WsCkptError>,
    r: (WorkspacePolicy, bool),
    plain: Result<WorkspacePolicy, WsCkptError>,
)
    requires
        call_ensures(load_workspace_policy_with_failsafe, (loaded,), r),
        call_ensures(load_workspace_policy_or_default, (loaded,), plain),
    ensures
        r.1 <==> loaded is Err,
        loaded is Err ==> r.0.auto_cleanup == Some(false),
        loaded matches Ok(LoadPolicyOutcome::Missing) ==> r.0.auto_cleanup is None
            && r.0.auto_cleanup_keep is None,
        loaded matches Ok(LoadPolicyOutcome::Loaded(p)) ==> r.0.auto_cleanup == p.auto_cleanup
            && r.0@ == p@,
        plain is Ok <==> loaded is Ok,
        plain matches Ok(p) ==> p@ == r.0@,
        plain matches Err(e) ==> loaded == Err::<LoadPolicyOutcome, WsCkptError>(e),
{
    assert(r.0@.auto_cleanup_keep == crate::config::keep_view(r.0.auto_cleanup_keep));
}

/// A user who asked for cleanup is warned exactly where nothing is cleaned up all the same, and is
/// told which layer to change for each reason.
pub proof fn lemma_warnings_name_the_layer(
    asked_enable: bool,
    supplied_keep: bool,
    effective: EffectivePolicy,
    local: WorkspacePolicy,
    r: Option<String>,
)
    requires
        call_ensures(
            disabled_warning_for,
            (asked_enable, supplied_keep, &effective, &local),
            r,
        ),
    ensures
        r is Some <==> (asked_enable || supplied_keep) && does_nothing(
            effective.auto_cleanup,
            effective.auto_cleanup_keep@,
        ),
        r matches Some(m) ==> {
            &&& !effective.auto_cleanup && local.auto_cleanup == Some(false) ==> holds(
                m@,
                "local auto_cleanup is false (override with `--enable-auto-cleanup` on this command)"@,
            )
            &&& !effective.auto_cleanup && local.auto_cleanup != Some(false) ==> holds(
                m@,
                "global auto_cleanup is false (pass `--enable-auto-cleanup` here for a per-ws override, or `ws-ckpt config -g --enable-auto-cleanup` to flip it globally)"@,
            )
            &&& does_nothing(true, effective.auto_cleanup_keep@) ==> if local.auto_cleanup_keep
                matches Some(k) && does_nothing(true, k@) {
                holds(m@, "local auto_cleanup_keep is "@ + local.auto_cleanup_keep->0@.text())
            } else {
                holds(m@, "global auto_cleanup_keep is "@ + effective.auto_cleanup_keep@.text())
            }
        },
{
    assert(local@.auto_cleanup_keep == crate::config::keep_view(local.auto_cleanup_keep));
    if let Some(m) = r {
        let e = effective@;
        let l = local@;
        let p = "auto-cleanup is still effectively disabled \u{2014} "@;
        let reasons = crate::policy::disabled_reasons(e, l);
        let sep = "; "@;
        let off = !e.auto_cleanup;
        let zero = e.auto_cleanup_keep.is_disabled();
        let last = reasons.last();
        if off && zero {
            assert(reasons.len() == 2);
            assert(reasons.drop_last().len() == 1);
            assert(reasons.drop_last()[0] == reasons[0]);
            assert(join(reasons.drop_last(), sep) == reasons[0]);
            assert(join(reasons, sep) == reasons[0] + sep + last);
            lemma_stands(m@, p, reasons[0], sep + last + "."@);
        } else {
            assert(reasons.len() == 1);
            assert(join(reasons, sep) == reasons[0]);
            lemma_stands(m@, p, reasons[0], "."@);
        }
        if zero {
            let own = l.auto_cleanup_keep is Some && l.auto_cleanup_keep->0.is_disabled();
            let head = if own {
                "local auto_cleanup_keep is "@ + l.auto_cleanup_keep->0.text()
            } else {
                "global auto_cleanup_keep is "@ + e.auto_cleanup_keep.text()
            };
            let tail = if own {
                " (override with `--auto-cleanup-keep <N>`, N >= 1)"@
            } else {
                " (pass `--auto-cleanup-keep <N>` here, or `ws-ckpt config -g --auto-cleanup-keep N`)"@
            };
            assert(last == head + tail);
            if off {
                lemma_stands(m@, p + reasons[0] + sep, head, tail + "."@);
            } else {
                lemma_stands(m@, p, head, tail + "."@);
            }
        }
    }
}

/// A duration is a number of seconds, minutes, hours, days or weeks, and nothing without a unit.
pub proof fn lemma_units_of_duration(s: &str, r: Result<u64, String>)
    requires
        call_ensures(parse_duration_secs, (s,), r),
    ensures
        trimmed(s@).len() == 0 ==> r is Err,
        trimmed(s@).len() > 0 ==> {
            let t = trimmed(s@);
            let n = parsed_number(t.drop_last(), u64::MAX as nat);
            let u = t.last();
            &&& n is None ==> r is Err
            &&& !(u == 's' || u == 'S' || u == 'm' || u == 'M' || u == 'h' || u == 'H' || u == 'd'
                || u == 'D' || u == 'w' || u == 'W') ==> r is Err
            &&& n matches Some(k) ==> {
                &&& (u == 's' || u == 'S') ==> (if k <= 0x7fff_ffff_ffff_ffff {
                    r matches Ok(v) && v == k
                } else {
                    r is Err
                })
                &&& (u == 'm' || u == 'M') ==> (if k * 60 <= 0x7fff_ffff_ffff_ffff {
                    r matches Ok(v) && v == k * 60
                } else {
                    r is Err
                })
                &&& (u == 'h' || u == 'H') ==> (if k * 3600 <= 0x7fff_ffff_ffff_ffff {
                    r matches Ok(v) && v == k * 3600
                } else {
                    r is Err
                })
                &&& (u == 'd' || u == 'D') ==> (if k * 86400 <= 0x7fff_ffff_ffff_ffff {
                    r matches Ok(v) && v == k * 86400
                } else {
                    r is Err
                })
                &&& (u == 'w' || u == 'W') ==> (if k * 604800 <= 0x7fff_ffff_ffff_ffff {
                    r matches Ok(v) && v == k * 604800
                } else {
                    r is Err
                })
            }
        },
{
    let t = trimmed(s@);
    if t.len() > 0 {
        let u = t.last();
        let l = crate::retention::ascii_lower(u);
        assert('A' <= u <= 'Z' ==> l as int == u as int + 32);
        let factor = crate::retention::unit_secs(l);
        if let Some(k) = parsed_number(t.drop_last(), u64::MAX as nat) {
            if let Some(f) = factor {
                assert(f == 1 ==> k * f == k) by (nonlinear_arith);
                assert(f == 60 ==> k * f == k * 60) by (nonlinear_arith);
                assert(f == 3600 ==> k * f == k * 3600) by (nonlinear_arith);
                assert(f == 86400 ==> k * f == k * 86400) by (nonlinear_arith);
                assert(f == 604800 ==> k * f == k * 604800) by (nonlinear_arith);
            }
        }
    }
}

/// A text that is no duration is told what is wrong with it: that it is empty, that it lacks the
/// letter of a unit, that no number stands before that letter, or that there is no such unit.
pub proof fn lemma_durations_are_told_what_is_wrong(s: &str, r: Result<u64, String>)
    requires
        call_ensures(parse_duration_secs, (s,), r),
    ensures
        ({
            let t = trimmed(s@);
            let u = t.last();
            let n = parsed_number(t.drop_last(), u64::MAX as nat);
            let letter = ('a' <= u && u <= 'z') || ('A' <= u && u <= 'Z');
            let unit = u == 's' || u == 'S' || u == 'm' || u == 'M' || u == 'h' || u == 'H' || u
                == 'd' || u == 'D' || u == 'w' || u == 'W';
            &&& t.len() == 0 ==> (r matches Err(e) && e@ == "empty duration"@)
            &&& t.len() > 0 && !letter ==> (r matches Err(e) && e@ == "duration '"@ + t
                + "' missing unit suffix (s/m/h/d/w)"@)
            &&& t.len() > 0 && letter && n is None ==> (r matches Err(e) && e@ == "duration '"@ + t
                + "': invalid number '"@ + t.drop_last() + "'"@)
            &&& t.len() > 0 && letter && n is Some && !unit ==> (r matches Err(e) && holds(
                e@,
                "': invalid unit '"@,
            ))
        }),
{
    let t = trimmed(s@);
    let u = crate::retention::ascii_lower(t.last());
    if let Err(e) = r {
        let p = "duration '"@ + t;
        let m = "': invalid unit '"@;
        let q = seq![u] + "' (expected s/m/h/d/w)"@;
        if e@ == "duration '"@ + t + m + seq![u] + "' (expected s/m/h/d/w)"@ {
            lemma_stands(e@, p, m, q);
        }
    }
}

/// Whether a retention was made of a duration: it keeps the text, and what the text denotes.
pub open spec fn is_age_of(r: CleanupRetention, text: Seq<char>, secs: u64) -> bool {
    r matches CleanupRetention::Age { raw, secs: n } && raw@ == text && n == secs
}

/// An age is made of every duration that can be read, and of nothing else, from the command line as
/// from a file. It keeps the text and what it denotes. On the command line a bare number is a
/// count.
pub proof fn lemma_ages_are_durations(
    s: &str,
    d: Result<u64, String>,
    made: Result<CleanupRetention, String>,
    read: Result<CleanupRetention, String>,
    given: Result<CleanupRetention, String>,
)
    requires
        call_ensures(parse_duration_secs, (s,), d),
        call_ensures(CleanupRetention::age, (s,), made),
        call_ensures(CleanupRetention::from_text, (s,), read),
        call_ensures(parse_cleanup_retention, (s,), given),
    ensures
        made is Ok <==> d is Ok,
        read is Ok <==> d is Ok,
        made matches Ok(a) ==> is_age_of(a, s@, d->Ok_0),
        read matches Ok(a) ==> is_age_of(a, s@, d->Ok_0),
        made matches Err(e) ==> d == Err::<u64, String>(e) || e@ == d->Err_0@,
        read matches Err(e) ==> ends_with(e@, d->Err_0@),
        ({
            let n = parsed_number(s@, u32::MAX as nat);
            &&& n matches Some(k) ==> (given matches Ok(c) && (c matches CleanupRetention::Count(m)
                && m == k))
            &&& n is None ==> (given is Ok <==> d is Ok)
            &&& n is None ==> (given matches Ok(a) ==> is_age_of(a, s@, d->Ok_0))
            &&& given matches Err(e) ==> ends_with(e@, d->Err_0@)
        }),
{
    if let Err(e) = d {
        if let Err(x) = read {
            let p = "auto_cleanup_keep age mode: "@;
            assert((p + e@).skip(p.len() as int) =~= e@);
        }
        if let Err(x) = given {
            let p = "invalid value '"@ + s@ + "': "@;
            assert((p + e@).skip(p.len() as int) =~= e@);
        }
    }
}

/// A count is taken from a file exactly where it fits, and is that number.
pub proof fn lemma_counts_are_numbers(
    u: u64,
    i: i64,
    a: Result<CleanupRetention, String>,
    b: Result<CleanupRetention, String>,
)
    requires
        call_ensures(CleanupRetention::from_unsigned, (u,), a),
        call_ensures(CleanupRetention::from_signed, (i,), b),
    ensures
        a is Ok <==> u <= 0xffff_ffff,
        a matches Ok(c) ==> (c matches CleanupRetention::Count(n) && n == u),
        b is Ok <==> 0 <= i <= 0xffff_ffff,
        b matches Ok(c) ==> (c matches CleanupRetention::Count(n) && n == i),
{
}

/// A retention is shown as its count, or as its text in quotes; the default is twenty.
pub proof fn lemma_retentions_are_shown(
    k: CleanupRetention,
    a: String,
    b: String,
    default_keep: CleanupRetention,
)
    requires
        call_ensures(CleanupRetention::to_text, (&k,), a),
        call_ensures(format_retention, (&k,), b),
        call_ensures(default_auto_cleanup_keep, (), default_keep),
    ensures
        a@ == b@,
        k matches CleanupRetention::Count(n) ==> a@ == decimal(n as nat),
        k matches CleanupRetention::Age { raw, .. } ==> a@ == seq!['"'] + raw@ + seq!['"'],
        default_keep matches CleanupRetention::Count(n) && n == 20,
{
    reveal_strlit("\"");
    assert("\""@ =~= seq!['"']);
}

/// Two retentions are the same where their mode, and all that it holds, is.
pub proof fn lemma_same_retentions(a: CleanupRetention, b: CleanupRetention, r: bool)
    requires
        call_ensures(CleanupRetention::same, (&a, &b), r),
    ensures
        r <==> match (a, b) {
            (CleanupRetention::Count(m), CleanupRetention::Count(n)) => m == n,
            (
                CleanupRetention::Age { raw: x, secs: m },
                CleanupRetention::Age { raw: y, secs: n },
            ) => x@ == y@ && m == n,
            _ => false,
        },
{
}

/// What a configuration file sets is in force, and every other setting is at its default.
pub proof fn lemma_files_set_what_they_set(
    f: FileConfig,
    on: bool,
    keep: CleanupRetention,
    cleanup: u64,
    health: u64,
    size: u64,
    percent: Percent,
)
    requires
        call_ensures(FileConfig::auto_cleanup, (&f,), on),
        call_ensures(FileConfig::keep, (&f,), keep),
        call_ensures(FileConfig::cleanup_interval, (&f,), cleanup),
        call_ensures(FileConfig::health_interval, (&f,), health),
        call_ensures(FileConfig::img_size, (&f,), size),
        call_ensures(FileConfig::img_max_percent, (&f,), percent),
    ensures
        in_force(f, on, keep@, cleanup, health),
        image_in_force(f, size, percent),
{
}

/// Whether settings are those of a file, or the defaults where it has none: cleanup off, keeping
/// twenty snapshots, once a day, and a health check every five minutes.
pub open spec fn in_force(
    f: FileConfig,
    on: bool,
    keep: RetentionView,
    cleanup: u64,
    health: u64,
) -> bool {
    &&& f.auto_cleanup matches Some(b) ==> on == b
    &&& f.auto_cleanup is None ==> !on
    &&& f.auto_cleanup_keep matches Some(k) ==> keep == k@
    &&& f.auto_cleanup_keep is None ==> keep == RetentionView::Count(20)
    &&& f.auto_cleanup_interval_secs matches Some(n) ==> cleanup == n
    &&& f.auto_cleanup_interval_secs is None ==> cleanup == 86400
    &&& f.health_check_interval_secs matches Some(n) ==> health == n
    &&& f.health_check_interval_secs is None ==> health == 300
}

/// Whether image settings are those of a file, or the defaults where it has none: 30 GB, and at
/// most the share whose bit pattern is that of 40.
pub open spec fn image_in_force(f: FileConfig, size: u64, percent: Percent) -> bool {
    &&& f.backend.btrfs_loop matches Some(b) ==> {
        &&& b.img_size matches Some(n) ==> size == n
        &&& b.img_size is None ==> size == 30
        &&& b.img_max_percent matches Some(p) ==> percent == p
        &&& b.img_max_percent is None ==> percent.bits == 0x4044_0000_0000_0000
    }
    &&& f.backend.btrfs_loop is None ==> size == 30 && percent.bits == 0x4044_0000_0000_0000
}

/// A daemon starts with the paths of the command line and the settings of the file. A reload
/// changes what the file says, and leaves the paths and the image settings as they are.
pub proof fn lemma_reloads_follow_the_file(
    mount_path: String,
    socket_path: String,
    log_level: String,
    first: FileConfig,
    second: FileConfig,
    started: DaemonConfig,
    c: &mut DaemonConfig,
)
    requires
        call_ensures(DaemonConfig::at_startup, (mount_path, socket_path, log_level, &first), started),
        *old(c) == started,
        call_ensures(DaemonConfig::apply_global_config, (c, &second), ()),
    ensures
        started.mount_path@ == mount_path@,
        started.socket_path@ == socket_path@,
        started.log_level@ == log_level@,
        started.backend_type@ == first.backend.kind@,
        in_force(
            first,
            started.auto_cleanup,
            started.auto_cleanup_keep@,
            started.auto_cleanup_interval_secs,
            started.health_check_interval_secs,
        ),
        image_in_force(first, started.img_size, started.img_max_percent),
        final(c).mount_path@ == mount_path@,
        final(c).socket_path@ == socket_path@,
        final(c).log_level@ == log_level@,
        final(c).backend_type@ == second.backend.kind@,
        in_force(
            second,
            final(c).auto_cleanup,
            final(c).auto_cleanup_keep@,
            final(c).auto_cleanup_interval_secs,
            final(c).health_check_interval_secs,
        ),
        image_in_force(first, final(c).img_size, final(c).img_max_percent),
        final(c).min_free_bytes == started.min_free_bytes,
        final(c).min_free_percent == started.min_free_percent,
{
}

/// The backend is the one that the configuration names, and is detected for any other text.
pub proof fn lemma_backends_have_names(c: DaemonConfig, r: Option<BackendType>)
    requires
        call_ensures(DaemonConfig::parse_backend_type, (&c,), r),
    ensures
        r == Some(BackendType::BtrfsLoop) <==> c.backend_type@ == "btrfs-loop"@,
        r == Some(BackendType::BtrfsBase) <==> c.backend_type@ == "btrfs-base"@,
{
    reveal_strlit("btrfs-loop");
    reveal_strlit("btrfs-base");
    assert("btrfs-loop"@[6] != "btrfs-base"@[6]);
}

/// A report, and the JSON made of it, repeat the configuration.
pub proof fn lemma_reports_repeat_the_configuration(
    c: DaemonConfig,
    r: ConfigReport,
    j: GlobalConfigJson,
)
    requires
        call_ensures(DaemonConfig::report, (&c,), r),
        call_ensures(config_report_to_global_json, (&r,), j),
    ensures
        repeats(r, c),
        j.mount_path@ == c.mount_path@,
        j.socket_path@ == c.socket_path@,
        j.auto_cleanup == c.auto_cleanup,
        j.auto_cleanup_keep.stands_for() == c.auto_cleanup_keep@,
        j.auto_cleanup_is_disabled <==> does_nothing(c.auto_cleanup, c.auto_cleanup_keep@),
        j.auto_cleanup_interval_secs == c.auto_cleanup_interval_secs,
        j.health_check_interval_secs == c.health_check_interval_secs,
        j.img_size_gb == c.img_size,
        j.img_max_percent == c.img_max_percent,
{
}

/// Whether a report repeats a configuration.
pub open spec fn repeats(r: ConfigReport, c: DaemonConfig) -> bool {
    &&& r.mount_path@ == c.mount_path@
    &&& r.socket_path@ == c.socket_path@
    &&& r.log_level@ == c.log_level@
    &&& r.auto_cleanup == c.auto_cleanup
    &&& r.auto_cleanup_keep@ == c.auto_cleanup_keep@
    &&& r.auto_cleanup_interval_secs == c.auto_cleanup_interval_secs
    &&& r.health_check_interval_secs == c.health_check_interval_secs
    &&& r.img_size == c.img_size
    &&& r.img_max_percent == c.img_max_percent
}

/// The JSON of a configuration file says what the file puts in force.
pub proof fn lemma_file_json(f: FileConfig, j: GlobalConfigJson)
    requires
        call_ensures(file_config_to_global_json, (&f,), j),
    ensures
        in_force(
            f,
            j.auto_cleanup,
            j.auto_cleanup_keep.stands_for(),
            j.auto_cleanup_interval_secs,
            j.health_check_interval_secs,
        ),
        image_in_force(f, j.img_size_gb, j.img_max_percent),
        j.auto_cleanup_is_disabled <==> does_nothing(
            j.auto_cleanup,
            j.auto_cleanup_keep.stands_for(),
        ),
{
}

/// A file is refused exactly where it sets a percentage that is no finite number from 0 to 100: the
/// patterns up to that of 100, and that of negative zero, are such numbers.
pub proof fn lemma_percentages_are_checked(
    f: FileConfig,
    path: &str,
    shown: &str,
    r: Result<(), WsCkptError>,
)
    requires
        call_ensures(validate_file_config, (&f, path, shown), r),
    ensures
        r is Err <==> (f.backend.btrfs_loop matches Some(b) && (b.img_max_percent matches Some(p)
            && p.bits > 0x4059_0000_0000_0000 && p.bits != 0x8000_0000_0000_0000)),
        r matches Err(e) ==> (e matches WsCkptError::Config(m) && holds(m@, path@) && holds(
            m@,
            shown@,
        )),
{
    if let Err(WsCkptError::Config(m)) = r {
        let p = "backend.btrfs-loop.img_max_percent in "@;
        let q = ": expected a finite value in 0.0..=100.0 (got "@;
        lemma_stands(m@, p, path@, q + shown@ + ")"@);
        lemma_stands(m@, p + path@ + q, shown@, ")"@);
    }
}

/// An update of the file sets what it mentions and leaves the rest.
pub proof fn lemma_updates_set_what_they_mention(
    f: &mut FileConfig,
    u: GlobalUpdate,
    touches: bool,
)
    requires
        call_ensures(FileConfig::apply_update, (f, u), ()),
        call_ensures(GlobalUpdate::has_img_settings, (&u,), touches),
    ensures
        touches <==> u.img_size is Some || u.img_max_percent is Some,
        final(f).backend.kind == old(f).backend.kind,
        u.auto_cleanup matches Some(b) ==> final(f).auto_cleanup == Some(b),
        u.auto_cleanup is None ==> final(f).auto_cleanup == old(f).auto_cleanup,
        u.auto_cleanup_keep matches Some(k) ==> (final(f).auto_cleanup_keep matches Some(n) && n@
            == k@),
        u.auto_cleanup_keep is None ==> crate::config::keep_view(final(f).auto_cleanup_keep)
            == crate::config::keep_view(old(f).auto_cleanup_keep),
        u.auto_cleanup_interval_secs matches Some(n) ==> final(f).auto_cleanup_interval_secs
            == Some(n),
        u.auto_cleanup_interval_secs is None ==> final(f).auto_cleanup_interval_secs == old(f).auto_cleanup_interval_secs,
        u.health_check_interval matches Some(n) ==> final(f).health_check_interval_secs == Some(n),
        u.health_check_interval is None ==> final(f).health_check_interval_secs == old(f).health_check_interval_secs,
        !touches ==> final(f).backend.btrfs_loop == old(f).backend.btrfs_loop,
        touches ==> (final(f).backend.btrfs_loop matches Some(b) && {
            &&& u.img_size matches Some(n) ==> b.img_size == Some(n)
            &&& u.img_max_percent matches Some(p) ==> b.img_max_percent == Some(p)
            &&& u.img_size is None ==> (old(f).backend.btrfs_loop matches Some(x)
                ==> b.img_size == x.img_size)
            &&& u.img_size is None && old(f).backend.btrfs_loop is None ==> b.img_size is None
            &&& u.img_max_percent is None ==> (old(f).backend.btrfs_loop matches Some(x)
                ==> b.img_max_percent == x.img_max_percent)
            &&& u.img_max_percent is None && old(f).backend.btrfs_loop is None
                ==> b.img_max_percent is None
        }),
{
}

/// Whether two files hold the same settings.
pub open spec fn same_settings(a: FileConfig, b: FileConfig) -> bool {
    &&& a.auto_cleanup == b.auto_cleanup
    &&& crate::config::keep_view(a.auto_cleanup_keep) == crate::config::keep_view(
        b.auto_cleanup_keep,
    )
    &&& a.auto_cleanup_interval_secs == b.auto_cleanup_interval_secs
    &&& a.health_check_interval_secs == b.health_check_interval_secs
    &&& a.backend.kind@ == b.backend.kind@
    &&& match (a.backend.btrfs_loop, b.backend.btrfs_loop) {
        (Some(x), Some(y)) => x.img_size == y.img_size && match (
            x.img_max_percent,
            y.img_max_percent,
        ) {
            (Some(p), Some(q)) => p.same_number(q),
            (None, None) => true,
            _ => false,
        },
        (None, None) => true,
        _ => false,
    }
}

/// A change is reported as not loaded exactly where what the daemon loaded differs from what was
/// saved, or where it refused to reload; and a restart is advised only for image settings that the
/// daemon has loaded.
pub proof fn lemma_unloaded_changes_are_reported(
    saved: FileConfig,
    image_settings: bool,
    reply: ReloadReply,
    shown: (&str, &str),
    r: UpdateReport,
)
    requires
        call_ensures(report_update, (&saved, image_settings, &reply, shown), r),
    ensures
        r.error is Some <==> (reply is Refused || (reply matches ReloadReply::Reloaded { file } && (
        file matches Some(f) && !same_settings(saved, f)))),
        reply matches ReloadReply::Refused(m) ==> ends_with(r.error->0@, m@),
        r.status@.len() == 1 + (if reply is Reloaded || reply is Unreachable {
            1int
        } else {
            0
        }) + (if image_settings && reply is Reloaded && r.error is None {
            1int
        } else {
            0
        }),
{
    if let ReloadReply::Reloaded { file: Some(f) } = reply {
        crate::settings::lemma_unlanded_iff_different(saved, f, (shown.0@, shown.1@));
    }
    if let ReloadReply::Refused(m) = reply {
        let p = "daemon reload failed: "@;
        assert((p + m@).skip(p.len() as int) =~= m@);
    }
    assert(texts(r.status@).len() == r.status@.len());
}

/// Nothing is listed of a file that was loaded as it was saved, and something is of every other.
pub proof fn lemma_differences_are_listed(
    saved: FileConfig,
    landed: FileConfig,
    shown: (&str, &str),
    r: Vec<String>,
)
    requires
        call_ensures(unlanded_global_settings, (&saved, &landed, shown), r),
    ensures
        r@.len() == 0 <==> same_settings(saved, landed),
{
    crate::settings::lemma_unlanded_iff_different(saved, landed, (shown.0@, shown.1@));
    assert(texts(r@).len() == r@.len());
}

/// A daemon starts with half a GiB, and a percentage whose bit pattern is that of 1, as the free
/// space below which it reports.
pub proof fn lemma_free_space_is_watched(
    mount_path: String,
    socket_path: String,
    log_level: String,
    file: FileConfig,
    r: DaemonConfig,
)
    requires
        call_ensures(DaemonConfig::at_startup, (mount_path, socket_path, log_level, &file), r),
    ensures
        r.min_free_bytes == 512 * 1024 * 1024,
        r.min_free_percent.bits == 0x3ff0_0000_0000_0000,
{
}

/// Whether a line about a setting that was not loaded is among others: what the file has comes
/// first, and then what the daemon has.
pub open spec fn differs_line(
    lines: Seq<Seq<char>>,
    name: Seq<char>,
    file: Seq<char>,
    daemon: Seq<char>,
) -> bool {
    lines.contains(name + ": file has "@ + file + ", daemon has "@ + daemon)
}

/// A number as a setting is shown, where it is set.
pub open spec fn number_shown(n: Option<u64>) -> Seq<char> {
    match n {
        Some(n) => decimal(n as nat),
        None => "unset"@,
    }
}

/// A flag as a setting is shown, where it is set.
pub open spec fn switch_shown(b: Option<bool>) -> Seq<char> {
    match b {
        Some(b) => if b {
            "true"@
        } else {
            "false"@
        },
        None => "unset"@,
    }
}

/// Every setting that was not loaded is listed, with what the file has and what the daemon has; the
/// switch and the intervals, the backend and the image size, each under its name.
pub proof fn lemma_differences_are_told(
    saved: FileConfig,
    landed: FileConfig,
    shown: (&str, &str),
    r: Vec<String>,
)
    requires
        call_ensures(unlanded_global_settings, (&saved, &landed, shown), r),
    ensures
        ({
            let l = texts(r@);
            let a = saved;
            let b = landed;
            &&& a.auto_cleanup != b.auto_cleanup ==> differs_line(
                l,
                "auto-cleanup"@,
                switch_shown(a.auto_cleanup),
                switch_shown(b.auto_cleanup),
            )
            &&& a.auto_cleanup_interval_secs != b.auto_cleanup_interval_secs ==> differs_line(
                l,
                "auto-cleanup-interval"@,
                number_shown(a.auto_cleanup_interval_secs),
                number_shown(b.auto_cleanup_interval_secs),
            )
            &&& a.health_check_interval_secs != b.health_check_interval_secs ==> differs_line(
                l,
                "health-check-interval"@,
                number_shown(a.health_check_interval_secs),
                number_shown(b.health_check_interval_secs),
            )
            &&& a.backend.kind@ != b.backend.kind@ ==> differs_line(
                l,
                "backend type"@,
                a.backend.kind@,
                b.backend.kind@,
            )
            &&& a.set_img_size() != b.set_img_size() ==> differs_line(
                l,
                "img-size"@,
                number_shown(a.set_img_size()),
                number_shown(b.set_img_size()),
            )
        }),
{
    let a = saved;
    let b = landed;
    let l = texts(r@);
    let p1 = crate::settings::setting_line(
        a.auto_cleanup != b.auto_cleanup,
        "auto-cleanup"@,
        crate::settings::opt_flag(a.auto_cleanup),
        crate::settings::opt_flag(b.auto_cleanup),
    );
    let p2 = crate::settings::setting_line(
        crate::config::keep_view(a.auto_cleanup_keep) != crate::config::keep_view(
            b.auto_cleanup_keep,
        ),
        "auto-cleanup-keep"@,
        crate::settings::opt_keep(crate::config::keep_view(a.auto_cleanup_keep)),
        crate::settings::opt_keep(crate::config::keep_view(b.auto_cleanup_keep)),
    );
    let p3 = crate::settings::setting_line(
        a.auto_cleanup_interval_secs != b.auto_cleanup_interval_secs,
        "auto-cleanup-interval"@,
        crate::settings::opt_number(a.auto_cleanup_interval_secs),
        crate::settings::opt_number(b.auto_cleanup_interval_secs),
    );
    let p4 = crate::settings::setting_line(
        a.health_check_interval_secs != b.health_check_interval_secs,
        "health-check-interval"@,
        crate::settings::opt_number(a.health_check_interval_secs),
        crate::settings::opt_number(b.health_check_interval_secs),
    );
    let p5 = crate::settings::setting_line(
        a.backend.kind@ != b.backend.kind@,
        "backend type"@,
        Some(a.backend.kind@),
        Some(b.backend.kind@),
    );
    let p6 = crate::settings::setting_line(
        a.set_img_size() != b.set_img_size(),
        "img-size"@,
        crate::settings::opt_number(a.set_img_size()),
        crate::settings::opt_number(b.set_img_size()),
    );
    let p7 = crate::settings::setting_line(
        !crate::settings::same_percent(a.set_img_max_percent(), b.set_img_max_percent()),
        "img-max-percent"@,
        crate::settings::opt_percent(a.set_img_max_percent(), shown.0@),
        crate::settings::opt_percent(b.set_img_max_percent(), shown.1@),
    );
    let d = crate::settings::differing_settings(a, b, (shown.0@, shown.1@));
    assert(d == p1 + p2 + p3 + p4 + p5 + p6 + p7);
    lemma_pieces(p1, p2, p3, p4, p5, p6, p7);
    assert(d.contains(p1[0]) || p1.len() == 0);
    if p1.len() + p3.len() + p4.len() + p5.len() + p6.len() > 0 {
        assert(d.len() > 0);
        assert(!crate::settings::same_file(a, b));
        assert(l == d);
    }
}

proof fn lemma_joined(a: Seq<Seq<char>>, b: Seq<Seq<char>>, x: Seq<char>)
    ensures
        a.contains(x) || b.contains(x) ==> (a + b).contains(x),
{
    if a.contains(x) {
        let i = choose|i: int| 0 <= i < a.len() && a[i] == x;
        assert((a + b)[i] == x);
    } else if b.contains(x) {
        let i = choose|i: int| 0 <= i < b.len() && b[i] == x;
        assert((a + b)[a.len() + i] == x);
    }
}

proof fn lemma_pieces(
    p1: Seq<Seq<char>>,
    p2: Seq<Seq<char>>,
    p3: Seq<Seq<char>>,
    p4: Seq<Seq<char>>,
    p5: Seq<Seq<char>>,
    p6: Seq<Seq<char>>,
    p7: Seq<Seq<char>>,
)
    ensures
        ({
            let d = p1 + p2 + p3 + p4 + p5 + p6 + p7;
            &&& p1.len() > 0 ==> d.contains(p1[0])
            &&& p3.len() > 0 ==> d.contains(p3[0])
            &&& p4.len() > 0 ==> d.contains(p4[0])
            &&& p5.len() > 0 ==> d.contains(p5[0])
            &&& p6.len() > 0 ==> d.contains(p6[0])
            &&& d.len() >= p1.len() + p3.len() + p4.len() + p5.len() + p6.len()
        }),
{
    lemma_kept(p1[0], p1, p2, p3, p4, p5, p6, p7);
    lemma_kept(p3[0], p1, p2, p3, p4, p5, p6, p7);
    lemma_kept(p4[0], p1, p2, p3, p4, p5, p6, p7);
    lemma_kept(p5[0], p1, p2, p3, p4, p5, p6, p7);
    lemma_kept(p6[0], p1, p2, p3, p4, p5, p6, p7);
}

proof fn lemma_kept(
    x: Seq<char>,
    p1: Seq<Seq<char>>,
    p2: Seq<Seq<char>>,
    p3: Seq<Seq<char>>,
    p4: Seq<Seq<char>>,
    p5: Seq<Seq<char>>,
    p6: Seq<Seq<char>>,
    p7: Seq<Seq<char>>,
)
    ensures
        p1.contains(x) || p3.contains(x) || p4.contains(x) || p5.contains(x) || p6.contains(x) ==> (
        p1 + p2 + p3 + p4 + p5 + p6 + p7).contains(x),
{
    lemma_joined(p1, p2, x);
    lemma_joined(p1 + p2, p3, x);
    lemma_joined(p1 + p2 + p3, p4, x);
    lemma_joined(p1 + p2 + p3 + p4, p5, x);
    lemma_joined(p1 + p2 + p3 + p4 + p5, p6, x);
    lemma_joined(p1 + p2 + p3 + p4 + p5 + p6, p7, x);
}

/// The defaults of a daemon are those of a file that sets nothing, at the usual places.
pub proof fn lemma_defaults(d: DaemonConfig, f: FileConfig)
    requires
        call_ensures(DaemonConfig::default, (), d),
        call_ensures(FileConfig::default, (), f),
    ensures
        in_force(
            f,
            d.auto_cleanup,
            d.auto_cleanup_keep@,
            d.auto_cleanup_interval_secs,
            d.health_check_interval_secs,
        ),
        image_in_force(f, d.img_size, d.img_max_percent),
        f.auto_cleanup is None && f.auto_cleanup_keep is None && f.auto_cleanup_interval_secs is None
            && f.health_check_interval_secs is None && f.backend.btrfs_loop is None,
        d.backend_type@ == f.backend.kind@,
        d.mount_path@ == "/mnt/btrfs-workspace"@,
        d.socket_path@ == "/run/ws-ckpt/ws-ckpt.sock"@,
        d.log_level@ == "info"@,
        d.min_free_bytes == 512 * 1024 * 1024,
        d.min_free_percent.bits == 0x3ff0_0000_0000_0000,
{
}

/// The JSON shapes say what they are, and where the configuration is.
pub proof fn lemma_json_is_tagged(
    c: ConfigReport,
    f: FileConfig,
    a: GlobalConfigJson,
    b: GlobalConfigJson,
    ws_id: String,
    effective: EffectivePolicy,
    local: WorkspacePolicy,
    global: GlobalPolicySnapshot,
    p: WorkspacePolicyJson,
)
    requires
        call_ensures(config_report_to_global_json, (&c,), a),
        call_ensures(file_config_to_global_json, (&f,), b),
        call_ensures(WorkspacePolicyJson::from_views, (ws_id, &effective, &local, &global), p),
    ensures
        a.schema@ == "ws-ckpt-config/v1"@,
        b.schema@ == a.schema@,
        a.config_file@ == "/etc/ws-ckpt/config.toml"@,
        b.config_file@ == a.config_file@,
        b.mount_path@ == "/mnt/btrfs-workspace"@,
        b.socket_path@ == "/run/ws-ckpt/ws-ckpt.sock"@,
        p.schema@ == "ws-ckpt-policy/v1"@,
{
}

} // verus!
