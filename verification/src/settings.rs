//! Changing the global configuration, and whether the change has reached the daemon.

use crate::config::{joined, keep_view, FileConfig, Percent, CONFIG_FILE_PATH};
use crate::render::{flag_shown, flag_text};
use crate::retention::{format_retention, CleanupRetention, RetentionView};
use crate::text::{decimal, decimal_text, str_eq};
use crate::text_list::{join, push_text, texts};
use vstd::prelude::*;

verus! {

/// A setting as it is shown: its text, or that it is not set.
pub open spec fn setting_text(v: Option<Seq<char>>) -> Seq<char> {
    match v {
        Some(t) => t,
        None => "unset"@,
    }
}

/// The text of an optional flag.
pub open spec fn opt_flag(v: Option<bool>) -> Option<Seq<char>> {
    match v {
        Some(b) => Some(flag_text(b)),
        None => None,
    }
}

/// The text of an optional retention.
pub open spec fn opt_keep(v: Option<RetentionView>) -> Option<Seq<char>> {
    match v {
        Some(k) => Some(k.text()),
        None => None,
    }
}

/// The text of an optional number.
pub open spec fn opt_number(v: Option<u64>) -> Option<Seq<char>> {
    match v {
        Some(n) => Some(decimal(n as nat)),
        None => None,
    }
}

/// The text of an optional percentage, given how it is displayed.
pub open spec fn opt_percent(v: Option<Percent>, shown: Seq<char>) -> Option<Seq<char>> {
    match v {
        Some(_) => Some(shown),
        None => None,
    }
}

/// Whether two optional percentages are the same number, or both not set.
pub open spec fn same_percent(a: Option<Percent>, b: Option<Percent>) -> bool {
    match (a, b) {
        (Some(x), Some(y)) => x.same_number(y),
        (None, None) => true,
        _ => false,
    }
}

/// Whether two files hold the same settings, with the same sections.
pub open spec fn same_file(a: FileConfig, b: FileConfig) -> bool {
    &&& a.auto_cleanup == b.auto_cleanup
    &&& keep_view(a.auto_cleanup_keep) == keep_view(b.auto_cleanup_keep)
    &&& a.auto_cleanup_interval_secs == b.auto_cleanup_interval_secs
    &&& a.health_check_interval_secs == b.health_check_interval_secs
    &&& a.backend.kind@ == b.backend.kind@
    &&& (a.backend.btrfs_loop is Some) == (b.backend.btrfs_loop is Some)
    &&& a.set_img_size() == b.set_img_size()
    &&& same_percent(a.set_img_max_percent(), b.set_img_max_percent())
}

/// The line about a setting, if the two files differ in it.
pub open spec fn setting_line(
    differs: bool,
    name: Seq<char>,
    file: Option<Seq<char>>,
    daemon: Option<Seq<char>>,
) -> Seq<Seq<char>> {
    if differs {
        seq![name + ": file has "@ + setting_text(file) + ", daemon has "@ + setting_text(daemon)]
    } else {
        seq![]
    }
}

/// The lines about the settings in which two files differ. `shown` is how their image
/// percentages are displayed.
pub open spec fn differing_settings(a: FileConfig, b: FileConfig, shown: (Seq<char>, Seq<char>)) -> Seq<
    Seq<char>,
> {
    setting_line(
        a.auto_cleanup != b.auto_cleanup,
        "auto-cleanup"@,
        opt_flag(a.auto_cleanup),
        opt_flag(b.auto_cleanup),
    ) + setting_line(
        keep_view(a.auto_cleanup_keep) != keep_view(b.auto_cleanup_keep),
        "auto-cleanup-keep"@,
        opt_keep(keep_view(a.auto_cleanup_keep)),
        opt_keep(keep_view(b.auto_cleanup_keep)),
    ) + setting_line(
        a.auto_cleanup_interval_secs != b.auto_cleanup_interval_secs,
        "auto-cleanup-interval"@,
        opt_number(a.auto_cleanup_interval_secs),
        opt_number(b.auto_cleanup_interval_secs),
    ) + setting_line(
        a.health_check_interval_secs != b.health_check_interval_secs,
        "health-check-interval"@,
        opt_number(a.health_check_interval_secs),
        opt_number(b.health_check_interval_secs),
    ) + setting_line(
        a.backend.kind@ != b.backend.kind@,
        "backend type"@,
        Some(a.backend.kind@),
        Some(b.backend.kind@),
    ) + setting_line(
        a.set_img_size() != b.set_img_size(),
        "img-size"@,
        opt_number(a.set_img_size()),
        opt_number(b.set_img_size()),
    ) + setting_line(
        !same_percent(a.set_img_max_percent(), b.set_img_max_percent()),
        "img-max-percent"@,
        opt_percent(a.set_img_max_percent(), shown.0),
        opt_percent(b.set_img_max_percent(), shown.1),
    )
}

/// The lines about a saved file that the daemon did not load: none where it loaded the same,
/// and at least one where it did not.
pub open spec fn unlanded_lines(
    saved: FileConfig,
    landed: FileConfig,
    shown: (Seq<char>, Seq<char>),
) -> Seq<Seq<char>> {
    let lines = differing_settings(saved, landed, shown);
    if same_file(saved, landed) {
        seq![]
    } else if lines.len() == 0 {
        seq!["config file contents differ (unrecognized field)"@]
    } else {
        lines
    }
}

fn put_setting(
    lines: &mut Vec<String>,
    differs: bool,
    name: &str,
    file: &Option<String>,
    daemon: &Option<String>,
)
    ensures
        texts(final(lines)@) == texts(old(lines)@) + setting_line(
            differs,
            name@,
            crate::text_list::opt_text(*file),
            crate::text_list::opt_text(*daemon),
        ),
{
    let ghost before = texts(lines@);
    if differs {
        let mut m = joined(name, ": file has ");
        match file {
            Some(t) => {
                m.append(t.as_str());
            },
            None => {
                m.append("unset");
            },
        }
        m.append(", daemon has ");
        match daemon {
            Some(t) => {
                m.append(t.as_str());
            },
            None => {
                m.append("unset");
            },
        }
        lines.push(m);
        proof {
            assert(texts(lines@) =~= before.push(m@));
        }
    }
    proof {
        assert(texts(lines@) =~= before + setting_line(
            differs,
            name@,
            crate::text_list::opt_text(*file),
            crate::text_list::opt_text(*daemon),
        ));
    }
}

fn flag(v: Option<bool>) -> (r: Option<String>)
    ensures
        crate::text_list::opt_text(r) == opt_flag(v),
{
    match v {
        Some(b) => Some(flag_shown(b).to_owned()),
        None => None,
    }
}

fn keep(v: &Option<CleanupRetention>) -> (r: Option<String>)
    ensures
        crate::text_list::opt_text(r) == opt_keep(keep_view(*v)),
{
    match v {
        Some(k) => Some(format_retention(k)),
        None => None,
    }
}

fn number(v: Option<u64>) -> (r: Option<String>)
    ensures
        crate::text_list::opt_text(r) == opt_number(v),
{
    match v {
        Some(n) => Some(decimal_text(n)),
        None => None,
    }
}

fn percent(v: Option<Percent>, shown: &str) -> (r: Option<String>)
    ensures
        crate::text_list::opt_text(r) == opt_percent(v, shown@),
{
    match v {
        Some(_) => Some(shown.to_owned()),
        None => None,
    }
}

fn opt_bool_eq(a: Option<bool>, b: Option<bool>) -> (r: bool)
    ensures
        r == (a == b),
{
    match (a, b) {
        (Some(x), Some(y)) => x == y,
        (None, None) => true,
        _ => false,
    }
}

fn opt_u64_eq(a: Option<u64>, b: Option<u64>) -> (r: bool)
    ensures
        r == (a == b),
{
    match (a, b) {
        (Some(x), Some(y)) => x == y,
        (None, None) => true,
        _ => false,
    }
}

fn opt_keep_eq(a: &Option<CleanupRetention>, b: &Option<CleanupRetention>) -> (r: bool)
    ensures
        r == (keep_view(*a) == keep_view(*b)),
{
    match (a, b) {
        (Some(x), Some(y)) => x.same(y),
        (None, None) => true,
        _ => false,
    }
}

fn opt_percent_eq(a: Option<Percent>, b: Option<Percent>) -> (r: bool)
    ensures
        r == same_percent(a, b),
{
    match (a, b) {
        (Some(x), Some(y)) => x == y,
        (None, None) => true,
        _ => false,
    }
}

/// The settings in which the file just written differs from the one that the daemon loaded. The
/// percentages are handed in as they are displayed, the saved one first.
pub fn unlanded_global_settings(
    saved: &FileConfig,
    landed: &FileConfig,
    shown: (&str, &str),
) -> (r: Vec<String>)
    ensures
        texts(r@) == unlanded_lines(*saved, *landed, (shown.0@, shown.1@)),
{
    let mut lines: Vec<String> = Vec::new();
    proof {
        assert(texts(lines@) =~= Seq::<Seq<char>>::empty());
    }
    let cleanup = !opt_bool_eq(saved.auto_cleanup, landed.auto_cleanup);
    let keep_differs = !opt_keep_eq(&saved.auto_cleanup_keep, &landed.auto_cleanup_keep);
    let interval = !opt_u64_eq(
        saved.auto_cleanup_interval_secs,
        landed.auto_cleanup_interval_secs,
    );
    let health = !opt_u64_eq(saved.health_check_interval_secs, landed.health_check_interval_secs);
    let kind = !str_eq(saved.backend.kind.as_str(), landed.backend.kind.as_str());
    let (saved_size, landed_size) = (saved.configured_img_size(), landed.configured_img_size());
    let size = !opt_u64_eq(saved_size, landed_size);
    let (saved_pct, landed_pct) = (
        saved.configured_img_max_percent(),
        landed.configured_img_max_percent(),
    );
    let pct = !opt_percent_eq(saved_pct, landed_pct);
    put_setting(
        &mut lines,
        cleanup,
        "auto-cleanup",
        &flag(saved.auto_cleanup),
        &flag(landed.auto_cleanup),
    );
    put_setting(
        &mut lines,
        keep_differs,
        "auto-cleanup-keep",
        &keep(&saved.auto_cleanup_keep),
        &keep(&landed.auto_cleanup_keep),
    );
    put_setting(
        &mut lines,
        interval,
        "auto-cleanup-interval",
        &number(saved.auto_cleanup_interval_secs),
        &number(landed.auto_cleanup_interval_secs),
    );
    put_setting(
        &mut lines,
        health,
        "health-check-interval",
        &number(saved.health_check_interval_secs),
        &number(landed.health_check_interval_secs),
    );
    put_setting(
        &mut lines,
        kind,
        "backend type",
        &Some(saved.backend.kind.clone()),
        &Some(landed.backend.kind.clone()),
    );
    put_setting(&mut lines, size, "img-size", &number(saved_size), &number(landed_size));
    put_setting(
        &mut lines,
        pct,
        "img-max-percent",
        &percent(saved_pct, shown.0),
        &percent(landed_pct, shown.1),
    );
    proof {
        assert(texts(lines@) =~= differing_settings(*saved, *landed, (shown.0@, shown.1@)));
        assert(texts(lines@).len() == lines@.len());
    }
    if lines.len() == 0 && saved.backend.btrfs_loop.is_some()
        != landed.backend.btrfs_loop.is_some() {
        lines.push("config file contents differ (unrecognized field)".to_owned());
        proof {
            assert(texts(lines@) =~= unlanded_lines(*saved, *landed, (shown.0@, shown.1@)));
        }
    }
    proof {
        let d = differing_settings(*saved, *landed, (shown.0@, shown.1@));
        if same_file(*saved, *landed) {
            assert(d =~= Seq::<Seq<char>>::empty());
            assert(texts(lines@) =~= Seq::<Seq<char>>::empty());
        }
    }
    lines
}

/// What the daemon answered to the request to reload the file just written.
pub enum ReloadReply {
    /// It reloaded, and perhaps says what file it loaded.
    Reloaded { file: Option<FileConfig> },
    /// It refused.
    Refused(String),
    /// It cannot be reached.
    Unreachable,
    /// It answered something else.
    Other,
}

/// What is reported about a change of the global configuration.
pub struct UpdateReport {
    /// Lines about what was done.
    pub status: Vec<String>,
    /// Why the change has not reached the daemon, if it has not.
    pub error: Option<String>,
}

/// The error about a file that the daemon did not load.
pub open spec fn unlanded_error(lines: Seq<Seq<char>>) -> Seq<char> {
    "daemon did not load the settings written to "@ + CONFIG_FILE_PATH@ + ":\n  "@ + join(
        lines,
        "\n  "@,
    )
        + "\nThe daemon reloads its own view of that path \u{2014} if it runs in a separate container or mount namespace, "@
        + CONFIG_FILE_PATH@ + " must be on a volume shared with this CLI."@
}

/// Why a change has not reached the daemon, if it has not.
pub open spec fn update_error(
    saved: FileConfig,
    reply: ReloadReply,
    shown: (Seq<char>, Seq<char>),
) -> Option<Seq<char>> {
    match reply {
        ReloadReply::Reloaded { file } => match file {
            Some(f) => if unlanded_lines(saved, f, shown).len() > 0 {
                Some(unlanded_error(unlanded_lines(saved, f, shown)))
            } else {
                None
            },
            None => None,
        },
        ReloadReply::Refused(m) => Some("daemon reload failed: "@ + m@),
        _ => None,
    }
}

/// The lines about what was done. A restart is advised only once the file is known to have
/// reached the daemon.
pub open spec fn update_status(image_settings: bool, reply: ReloadReply, failed: bool) -> Seq<
    Seq<char>,
> {
    let saved = seq![
        "\x1b[32m\u{2713} Configuration saved to "@ + CONFIG_FILE_PATH@ + "\x1b[0m"@,
    ];
    let done = match reply {
        ReloadReply::Reloaded { .. } => seq![
            "\x1b[32m\u{2713} Daemon reloaded configuration\x1b[0m"@,
        ],
        ReloadReply::Unreachable => seq![
            "\x1b[33m\u{26a0} Daemon not running, changes will take effect on next start\x1b[0m"@,
        ],
        _ => seq![],
    };
    let note = if image_settings && !failed && reply is Reloaded {
        seq![
            "\x1b[33m\u{26a0} Note: btrfs-loop image settings (img-size, img-max-percent) require daemon restart to take effect.\x1b[0m"@,
        ]
    } else {
        seq![]
    };
    saved + done + note
}

/// The texts of a list, separated by `sep`.
pub fn join_texts(parts: &Vec<String>, sep: &str) -> (r: String)
    ensures
        r@ == join(texts(parts@), sep@),
{
    let ghost all = texts(parts@);
    let mut m = String::new();
    let mut i: usize = 0;
    proof {
        assert(all.take(0) =~= Seq::<Seq<char>>::empty());
    }
    while i < parts.len()
        invariant
            i <= parts@.len(),
            all == texts(parts@),
            m@ == join(all.take(i as int), sep@),
        decreases parts@.len() - i,
    {
        let ghost more = all.take(i + 1);
        proof {
            assert(more.drop_last() =~= all.take(i as int));
            assert(more.last() == all[i as int]);
        }
        if i > 0 {
            m.append(sep);
        }
        m.append(parts[i].as_str());
        proof {
            if i == 0 {
                assert(m@ =~= more[0]);
            }
        }
        i = i + 1;
    }
    proof {
        assert(all.take(all.len() as int) =~= all);
    }
    m
}

/// Reports about a change of the global configuration, once the file was written and the daemon
/// asked to reload it. The percentages are handed in as they are displayed, the saved one first.
pub fn report_update(
    saved: &FileConfig,
    image_settings: bool,
    reply: &ReloadReply,
    shown: (&str, &str),
) -> (r: UpdateReport)
    ensures
        crate::text_list::opt_text(r.error) == update_error(*saved, *reply, (shown.0@, shown.1@)),
        texts(r.status@) == update_status(image_settings, *reply, r.error is Some),
{
    let mut status: Vec<String> = Vec::new();
    proof {
        assert(texts(status@) =~= Seq::<Seq<char>>::empty());
    }
    let mut first = joined("\x1b[32m\u{2713} Configuration saved to ", CONFIG_FILE_PATH);
    first.append("\x1b[0m");
    push_text(&mut status, first);
    let mut error: Option<String> = None;
    let mut reloaded = false;
    match reply {
        ReloadReply::Reloaded { file } => {
            reloaded = true;
            push_text(
                &mut status,
                "\x1b[32m\u{2713} Daemon reloaded configuration\x1b[0m".to_owned(),
            );
            if let Some(f) = file {
                let unlanded = unlanded_global_settings(saved, f, shown);
                proof {
                    assert(texts(unlanded@).len() == unlanded@.len());
                }
                if unlanded.len() > 0 {
                    let mut m = joined(
                        "daemon did not load the settings written to ",
                        CONFIG_FILE_PATH,
                    );
                    m.append(":\n  ");
                    m.append(join_texts(&unlanded, "\n  ").as_str());
                    m.append(
                        "\nThe daemon reloads its own view of that path \u{2014} if it runs in a separate container or mount namespace, ",
                    );
                    m.append(CONFIG_FILE_PATH);
                    m.append(" must be on a volume shared with this CLI.");
                    error = Some(m);
                }
            }
        },
        ReloadReply::Refused(m) => {
            error = Some(joined("daemon reload failed: ", m.as_str()));
        },
        ReloadReply::Unreachable => {
            push_text(
                &mut status,
                "\x1b[33m\u{26a0} Daemon not running, changes will take effect on next start\x1b[0m".to_owned(),
            );
        },
        ReloadReply::Other => {},
    }
    if image_settings && error.is_none() && reloaded {
        push_text(
            &mut status,
            "\x1b[33m\u{26a0} Note: btrfs-loop image settings (img-size, img-max-percent) require daemon restart to take effect.\x1b[0m".to_owned(),
        );
    }
    proof {
        assert(texts(status@) =~= update_status(image_settings, *reply, error is Some));
    }
    UpdateReport { status, error }
}

/// A file that the daemon loaded as it was written is never reported, and one that it did not
/// load always is. Percentages that are not a number are never loaded as they were written.
pub proof fn lemma_unlanded_iff_different(
    saved: FileConfig,
    landed: FileConfig,
    shown: (Seq<char>, Seq<char>),
)
    ensures
        unlanded_lines(saved, landed, shown).len() == 0 <==> same_file(saved, landed),
{
}

} // verus!
