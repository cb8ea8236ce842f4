//! The life of a workspace: initialization, adoption, deletion of snapshots, recovery, and
//! restoration when the daemon starts.
//!
//! Initialization alternates decisions, made here, with work on the file system. Each step takes
//! what the work before it showed, and says what to do next or what to answer.

use crate::config::{joined, WsCkptError};
use crate::ids::{
    generate_ws_id_base, strip_trailing_slashes, stripped_path, ws_id_base, ws_id_candidate,
    ws_id_with_suffix,
};
use crate::index::{IndexView, SnapshotIndex, StringSet};
use crate::lineage::{lemma_delete_keeps_lineage, linked};
use crate::lookup::ResolveError;
use crate::message::{error_resp, ErrorCode, Response};
use crate::paths::{
    components, file_name, join_path, joined_path, last_name, lies_in, only_step_below,
    path_starts_with, same_path, single_component_below,
};
use crate::policy::{load_workspace_policy_with_failsafe, LoadPolicyOutcome, PolicyView};
use crate::registry::WorkspaceView;
use crate::snapshot::{Duplicate, MetaView};
use crate::state::{
    detached_message, detached_registration_error, not_found_message, resolved_workspace,
    workspace_not_found_error, DaemonState, RegistrationFacts,
};
use crate::text::{decimal, lemma_decimal_reads_back, push_decimal, trim, trimmed};
use crate::text_list::opt_str;
use vstd::prelude::*;

verus! {

/// First step: the path to work on, or the refusal of a blank one.
pub fn begin_init(workspace: &str) -> (r: Result<String, Response>)
    ensures
        match r {
            Ok(p) => trimmed(workspace@).len() > 0 && p@ == stripped_path(workspace@),
            Err(e) => trimmed(workspace@).len() == 0 && e.is_error(
                ErrorCode::InvalidPath,
                "workspace path is empty"@,
            ),
        },
{
    if trim(workspace).as_str().is_empty() {
        return Err(error_resp(ErrorCode::InvalidPath, "workspace path is empty"));
    }
    Ok(strip_trailing_slashes(workspace))
}

/// What the path itself turned out to be, before anything is resolved.
pub enum EarlyLook {
    /// No symbolic link, or one that could not be read.
    NoLink,
    /// A symbolic link, and whether what it leads to exists.
    Link { target: String, target_exists: bool },
}

/// What to do about the path itself.
pub enum EarlyMove {
    /// The link leads to a workspace that is registered.
    Reply(Response),
    /// The link leads to a subvolume of ours that is not registered.
    Adopt { ws_id: String },
    /// The link leads to a subvolume of ours that is gone: remove it, and go on.
    RemoveLink,
    /// Go on.
    Continue,
}

/// The workspace that a link target stands for: its last name.
pub open spec fn target_id(target: Seq<char>) -> Seq<char> {
    match last_name(target) {
        Some(n) => n,
        None => Seq::empty(),
    }
}

/// Second step: decides on what the path itself is.
pub fn after_early_look(state: &DaemonState, look: EarlyLook) -> (r: EarlyMove)
    ensures
        match look {
            EarlyLook::NoLink => r is Continue,
            EarlyLook::Link { target, target_exists } => if !lies_in(target@, state.data_root@) {
                r is Continue
            } else if !target_exists {
                r is RemoveLink
            } else if state.registry@.by_id.contains_key(target_id(target@)) {
                r matches EarlyMove::Reply(a) && is_init_ok(a, target_id(target@))
            } else {
                r matches EarlyMove::Adopt { ws_id } && ws_id@ == target_id(target@)
            },
        },
{
    match look {
        EarlyLook::NoLink => EarlyMove::Continue,
        EarlyLook::Link { target, target_exists } => {
            if !path_starts_with(target.as_str(), state.data_root.as_str()) {
                return EarlyMove::Continue;
            }
            if !target_exists {
                return EarlyMove::RemoveLink;
            }
            let ws_id = match file_name(target.as_str()) {
                Some(n) => n,
                None => String::new(),
            };
            proof {
                assert(ws_id@ =~= target_id(target@));
            }
            if state.get_by_wsid(ws_id.as_str()).is_some() {
                return EarlyMove::Reply(Response::InitOk { ws_id });
            }
            EarlyMove::Adopt { ws_id }
        },
    }
}

/// Whether a response says that a workspace is initialized.
pub open spec fn is_init_ok(r: Response, id: Seq<char>) -> bool {
    r matches Response::InitOk { ws_id } && ws_id@ == id
}

/// What resolving the path gave.
pub enum Resolution {
    Resolved(String),
    /// The path resolves to one that is no text; this is how it is displayed.
    NotText(String),
    NotFound,
    /// Resolving failed for another reason.
    Failed(String),
}

/// The refusal that resolving a path leads to, if any.
pub open spec fn resolution_refusal(workspace: Seq<char>, r: Resolution) -> Option<Seq<char>> {
    match r {
        Resolution::NotFound => Some(
            "path does not exist in the daemon's mount namespace: "@ + workspace
                + ". In a sidecar deployment the workspace must live on a volume shared with the daemon container."@,
        ),
        Resolution::Failed(e) => Some(
            "cannot resolve workspace path "@ + workspace + ": "@ + e@,
        ),
        Resolution::NotText(shown) => Some("resolved path is not valid UTF-8: "@ + shown@),
        Resolution::Resolved(p) => if components(p@) == components("/"@) {
            Some("root '/' is not a supported workspace; use a specific subdirectory"@)
        } else {
            None
        },
    }
}

/// Third step: decides on where the path leads.
pub fn after_resolution(workspace: &str, resolution: Resolution) -> (r: Result<String, Response>)
    ensures
        match r {
            Ok(p) => resolution_refusal(workspace@, resolution) is None && (resolution
                matches Resolution::Resolved(q) && q@ == p@),
            Err(e) => resolution_refusal(workspace@, resolution) matches Some(m) && e.is_error(
                ErrorCode::InvalidPath,
                m,
            ),
        },
{
    match resolution {
        Resolution::NotFound => {
            let mut m = "path does not exist in the daemon's mount namespace: ".to_owned();
            m.append(workspace);
            m.append(
                ". In a sidecar deployment the workspace must live on a volume shared with the daemon container.",
            );
            Err(error_resp(ErrorCode::InvalidPath, m.as_str()))
        },
        Resolution::Failed(e) => {
            let mut m = "cannot resolve workspace path ".to_owned();
            m.append(workspace);
            m.append(": ");
            m.append(e.as_str());
            Err(error_resp(ErrorCode::InvalidPath, m.as_str()))
        },
        Resolution::NotText(shown) => Err(
            error_resp(
                ErrorCode::InvalidPath,
                joined("resolved path is not valid UTF-8: ", shown.as_str()).as_str(),
            ),
        ),
        Resolution::Resolved(p) => {
            if same_path(p.as_str(), "/") {
                return Err(
                    error_resp(
                        ErrorCode::InvalidPath,
                        "root '/' is not a supported workspace; use a specific subdirectory",
                    ),
                );
            }
            Ok(p)
        },
    }
}

/// What is found at the resolved path.
#[derive(Clone, Copy, Debug, PartialEq, Eq, Structural)]
pub enum Found {
    Unreadable,
    NotDirectory,
    Directory,
}

/// What to do about the resolved path.
pub enum CheckedMove {
    Reply(Response),
    /// The path is that of a subvolume that is not registered: see whether it has snapshots.
    ProbeBucket { ws_id: String },
    /// The path can become a workspace.
    Proceed,
}

/// The message about a registered path that does not lead to its workspace.
pub open spec fn broken_link_message(ws_id: Seq<char>, path: Seq<char>, link: Option<Seq<char>>) -> Seq<
    char,
> {
    "workspace registered (ws_id="@ + ws_id
        + ") but symlink missing or broken; run 'ws-ckpt recover -w "@ + path
        + "' to restore, then re-init"@ + if link is None {
        "\n  note: path is currently a regular directory \u{2014} move or rename it before running recover to avoid data loss"@
    } else {
        ""@
    }
}

/// The message about a path inside the daemon's own storage.
pub open spec fn inside_message(mount_path: Seq<char>, path: Seq<char>) -> Seq<char> {
    "path is inside mount_path ("@ + mount_path + "): "@ + path
}

/// What a resolved path turns out to be.
pub enum Verdict {
    /// It leads to this workspace, which is registered.
    Initialized(Seq<char>),
    /// It cannot become a workspace.
    Refused(ErrorCode, Seq<char>),
    /// It is this subvolume, which is not registered.
    Unregistered(Seq<char>),
    /// It can become a workspace.
    Free,
}

/// What a resolved path turns out to be, given what is found there and where it leads as a
/// symbolic link, if it is one.
pub open spec fn verdict(
    state: DaemonState,
    path: Seq<char>,
    found: Found,
    link: Option<Seq<char>>,
) -> Verdict {
    let mount = state.config.mount_path@;
    let id = only_step_below(path, mount);
    if found == Found::Unreadable {
        Verdict::Refused(ErrorCode::InvalidPath, "cannot stat path: "@ + path)
    } else if found == Found::NotDirectory {
        Verdict::Refused(ErrorCode::InvalidPath, "not a directory: "@ + path)
    } else if state.registry@.at(path) is Some {
        let w = state.registry@.at(path)->0;
        if link is Some && components(link->0) == components(joined_path(state.data_root@, w.ws_id)) {
            Verdict::Initialized(w.ws_id)
        } else {
            Verdict::Refused(
                ErrorCode::InternalError,
                broken_link_message(w.ws_id, path, link),
            )
        }
    } else if lies_in(path, mount) {
        if id is Some && state.registry@.get(id->0) is Some {
            Verdict::Initialized(id->0)
        } else if id is Some {
            Verdict::Unregistered(id->0)
        } else {
            Verdict::Refused(ErrorCode::InvalidPath, inside_message(mount, path))
        }
    } else {
        Verdict::Free
    }
}

/// Whether a move acts on what a path turned out to be.
pub open spec fn acts_on(r: CheckedMove, v: Verdict) -> bool {
    match v {
        Verdict::Initialized(id) => r matches CheckedMove::Reply(a) && is_init_ok(a, id),
        Verdict::Refused(code, m) => r matches CheckedMove::Reply(a) && a.is_error(code, m),
        Verdict::Unregistered(id) => r matches CheckedMove::ProbeBucket { ws_id } && ws_id@ == id,
        Verdict::Free => r is Proceed,
    }
}

fn inside_error(mount_path: &str, path: &str) -> (r: Response)
    ensures
        r.is_error(ErrorCode::InvalidPath, inside_message(mount_path@, path@)),
{
    let mut m = "path is inside mount_path (".to_owned();
    m.append(mount_path);
    m.append("): ");
    m.append(path);
    error_resp(ErrorCode::InvalidPath, m.as_str())
}

/// Fourth step: decides on the resolved path. `link` is where it leads as a symbolic link, if it
/// is one.
pub fn after_check(state: &DaemonState, path: &str, found: Found, link: Option<&str>) -> (r:
    CheckedMove)
    ensures
        acts_on(r, verdict(*state, path@, found, opt_str(link))),
{
    match found {
        Found::Unreadable => {
            return CheckedMove::Reply(
                error_resp(ErrorCode::InvalidPath, joined("cannot stat path: ", path).as_str()),
            );
        },
        Found::NotDirectory => {
            return CheckedMove::Reply(
                error_resp(ErrorCode::InvalidPath, joined("not a directory: ", path).as_str()),
            );
        },
        Found::Directory => {},
    }
    if let Some(w) = state.get_by_path(path) {
        let expected = join_path(state.data_root.as_str(), w.ws_id.as_str());
        let intact = match link {
            Some(t) => same_path(t, expected.as_str()),
            None => false,
        };
        if intact {
            return CheckedMove::Reply(Response::InitOk { ws_id: w.ws_id.clone() });
        }
        let mut m = "workspace registered (ws_id=".to_owned();
        m.append(w.ws_id.as_str());
        m.append(") but symlink missing or broken; run 'ws-ckpt recover -w ");
        m.append(path);
        m.append("' to restore, then re-init");
        if link.is_none() {
            m.append(
                "\n  note: path is currently a regular directory \u{2014} move or rename it before running recover to avoid data loss",
            );
        } else {
            m.append("");
        }
        return CheckedMove::Reply(error_resp(ErrorCode::InternalError, m.as_str()));
    }
    let mount = state.config.mount_path.as_str();
    if path_starts_with(path, mount) {
        if let Some(ws_id) = single_component_below(path, mount) {
            if let Some(w) = state.get_by_wsid(ws_id.as_str()) {
                return CheckedMove::Reply(Response::InitOk { ws_id: w.ws_id.clone() });
            }
            return CheckedMove::ProbeBucket { ws_id };
        }
        return CheckedMove::Reply(inside_error(mount, path));
    }
    CheckedMove::Proceed
}

/// Decides on a subvolume that is not registered: it is adopted if it has a place for
/// snapshots, which shows that it was a workspace, and refused otherwise.
pub fn after_bucket_probe(state: &DaemonState, path: &str, bucket_exists: bool) -> (r: Option<
    Response,
>)
    ensures
        match r {
            None => bucket_exists,
            Some(e) => !bucket_exists && e.is_error(
                ErrorCode::InvalidPath,
                inside_message(state.config.mount_path@, path@),
            ),
        },
{
    if bucket_exists {
        None
    } else {
        Some(inside_error(state.config.mount_path.as_str(), path))
    }
}

/// The message about a path that is itself a mount point.
pub open spec fn mounted_message(path: Seq<char>) -> Seq<char> {
    "workspace root is an active mount point: "@ + path
        + "; initialize a subdirectory of the mount instead, or unmount it first and re-run"@
}

/// Fifth step: refuses a path that is itself a mount point, since it could not be moved aside.
pub fn after_mount_check(path: &str, mounted: bool) -> (r: Option<Response>)
    ensures
        match r {
            None => !mounted,
            Some(e) => mounted && e.is_error(
                ErrorCode::InvalidPath,
                mounted_message(path@),
            ),
        },
{
    if !mounted {
        return None;
    }
    let mut m = "workspace root is an active mount point: ".to_owned();
    m.append(path);
    m.append(
        "; initialize a subdirectory of the mount instead, or unmount it first and re-run",
    );
    Some(error_resp(ErrorCode::InvalidPath, m.as_str()))
}

/// Sixth step: refuses to go on without the tool that copies the contents.
pub fn after_tool_check(rsync_found: bool) -> (r: Option<Response>)
    ensures
        match r {
            None => rsync_found,
            Some(e) => !rsync_found && e.is_error(
                ErrorCode::InternalError,
                "rsync is not installed or not in PATH"@,
            ),
        },
{
    if rsync_found {
        None
    } else {
        Some(error_resp(ErrorCode::InternalError, "rsync is not installed or not in PATH"))
    }
}

/// Whether the `n`-th attempt is the first whose identifier is free.
pub open spec fn first_free(base: Seq<char>, occupied: Set<Seq<char>>, n: nat) -> bool {
    &&& n >= 1
    &&& !occupied.contains(ws_id_candidate(base, n))
    &&& forall|m: nat| 1 <= m < n ==> occupied.contains(#[trigger] ws_id_candidate(base, m))
}

proof fn lemma_candidates_differ(base: Seq<char>, m: nat, n: nat)
    requires
        1 <= m < n,
    ensures
        ws_id_candidate(base, m) != ws_id_candidate(base, n),
{
    reveal_strlit("-");
    let a = ws_id_candidate(base, m);
    let b = ws_id_candidate(base, n);
    if a == b {
        lemma_decimal_reads_back(n);
        if m < 2 {
            assert(b.len() > a.len());
        } else {
            lemma_decimal_reads_back(m);
            let k = base.len() as int + 1;
            assert(a.skip(k) =~= decimal(m));
            assert(b.skip(k) =~= decimal(n));
        }
    }
}

/// Seventh step: the identifier of a new workspace. It is derived from the path, with the first
/// suffix that makes it differ from all names in use.
pub fn choose_ws_id(path: &str, occupied: &StringSet) -> (r: String)
    requires
        occupied@.len() < u32::MAX,
    ensures
        exists|n: nat| #[trigger]
            first_free(ws_id_base(path@), occupied@.dom(), n) && r@ == ws_id_candidate(
                ws_id_base(path@),
                n,
            ),
        !occupied@.contains_key(r@),
        crate::ids::workspace_id_fault(r@) is None,
{
    let base = generate_ws_id_base(path);
    let total: usize = occupied.len();
    let ghost set = occupied@.dom();
    let ghost mut tried: Set<Seq<char>> = Set::empty();
    let mut n: u64 = 1;
    let mut ws_id = ws_id_with_suffix(base.as_str(), 1);
    while occupied.contains_key(ws_id.as_str())
        invariant
            base@ == ws_id_base(path@),
            set == occupied@.dom(),
            set.finite(),
            set.len() < u32::MAX,
            1 <= n,
            n <= set.len() + 1,
            ws_id@ == ws_id_candidate(base@, n as nat),
            tried.finite(),
            tried.len() == n - 1,
            tried.subset_of(set),
            forall|x: Seq<char>| #[trigger]
                tried.contains(x) ==> exists|m: nat| 1 <= m < n && x == ws_id_candidate(base@, m),
            forall|m: nat| 1 <= m < n ==> tried.contains(#[trigger] ws_id_candidate(base@, m)),
        decreases set.len() + 1 - n,
    {
        proof {
            let x = ws_id@;
            if tried.contains(x) {
                let m = choose|m: nat| 1 <= m < n && x == ws_id_candidate(base@, m);
                lemma_candidates_differ(base@, m, n as nat);
            }
            let more = tried.insert(x);
            assert(more.subset_of(set));
            vstd::set_lib::lemma_len_subset(more, set);
            assert forall|y: Seq<char>| #[trigger] more.contains(y) implies exists|m: nat|
                1 <= m < n + 1 && y == ws_id_candidate(base@, m) by {
                if y == x {
                    assert(x == ws_id_candidate(base@, n as nat));
                } else {
                    assert(tried.contains(y));
                    let m = choose|m: nat| 1 <= m < n && y == ws_id_candidate(base@, m);
                    assert(y == ws_id_candidate(base@, m));
                }
            }
            tried = more;
        }
        n = n + 1;
        ws_id = ws_id_with_suffix(base.as_str(), n);
    }
    proof {
        assert(first_free(base@, set, n as nat)) by {
            assert forall|m: nat| 1 <= m < n implies set.contains(
                #[trigger] ws_id_candidate(base@, m),
            ) by {
                assert(tried.contains(ws_id_candidate(base@, m)));
            }
        }
        lemma_base_candidates_valid(path@, n);
    }
    ws_id
}

proof fn lemma_base_candidates_valid(path: Seq<char>, n: u64)
    requires
        crate::ids::workspace_id_fault(ws_id_base(path)) is None,
    ensures
        crate::ids::workspace_id_fault(ws_id_candidate(ws_id_base(path), n as nat)) is None,
{
    reveal_strlit("ws-");
    reveal_strlit("-");
    let base = ws_id_base(path);
    let id = ws_id_candidate(base, n as nat);
    if n >= 2 {
        crate::ids::lemma_workspace_id_shape(base);
        let (hash, m) = choose|hash: Seq<char>, m: u64|
            crate::ids::is_workspace_hash(hash) && base == #[trigger] ws_id_candidate(
                "ws-"@ + hash,
                m as nat,
            );
        let digits = crate::digest::sha256_digest(vstd::utf8::encode_utf8(path)).take(3);
        crate::ids::lemma_until_is_prefix(base.skip(3), '-');
        crate::digest::lemma_hex_reads_back(digits);
        assert(base.len() == 3 + crate::digest::hex_text(digits).len());
        assert(base.skip(3) =~= crate::digest::hex_text(digits));
        let rest0 = base.skip(3);
        assert forall|j: int| 0 <= j < rest0.len() implies rest0[j] != '-' by {
            assert(crate::digest::is_lower_hex_digit(crate::digest::hex_text(digits)[j]));
        }
        crate::ids::lemma_until(rest0, '-', rest0.len() as int);
        assert(rest0.take(rest0.len() as int) =~= rest0);
        let rest = id.skip(3);
        assert(rest =~= rest0 + "-"@ + decimal(n as nat));
        crate::ids::lemma_until(rest, '-', rest0.len() as int);
        assert(rest.take(rest0.len() as int) =~= rest0);
        lemma_decimal_reads_back(n as nat);
        assert(rest.skip(rest0.len() as int + 1) =~= decimal(n as nat));
        assert(id.subrange(0, 3) =~= base.subrange(0, 3));
    }
}

/// Whether there are snapshots in an index.
pub open spec fn has_snapshots(i: IndexView) -> bool {
    i.nodes != Map::<Seq<char>, MetaView>::empty()
}

/// The index that a new workspace starts with: what was found of its snapshots on disk, if
/// there are any.
pub open spec fn index_to_start(rebuilt: Option<IndexView>, path: Seq<char>) -> IndexView {
    match rebuilt {
        Some(i) => if has_snapshots(i) {
            i
        } else {
            empty_index(path)
        },
        None => empty_index(path),
    }
}

/// The index that a new workspace starts with: what was found of its snapshots on disk, if
/// there are any.
pub fn initial_index(rebuilt: Option<SnapshotIndex>, path: &str) -> (r: SnapshotIndex)
    ensures
        r@ == index_to_start(opt_index(rebuilt), path@),
{
    match rebuilt {
        Some(i) => if i.snapshots.is_empty() {
            SnapshotIndex::new(path.to_owned())
        } else {
            i
        },
        None => SnapshotIndex::new(path.to_owned()),
    }
}

/// An index without snapshots.
pub open spec fn empty_index(path: Seq<char>) -> IndexView {
    IndexView {
        workspace_path: path,
        nodes: Map::empty(),
        head: None,
        evidence: Map::empty(),
        rollbacks: Map::empty(),
    }
}

/// The index of a workspace whose index file was read: where it holds no snapshots and some were
/// found on disk, those are taken over, and the evidence of guarded operations stays.
pub open spec fn recovered_index(loaded: IndexView, rebuilt: Option<IndexView>) -> IndexView {
    match rebuilt {
        Some(i) => if !has_snapshots(loaded) && has_snapshots(i) {
            IndexView { evidence: loaded.evidence, rollbacks: loaded.rollbacks, ..i }
        } else {
            loaded
        },
        None => loaded,
    }
}

/// The view of an optional index.
pub open spec fn opt_index(i: Option<SnapshotIndex>) -> Option<IndexView> {
    match i {
        Some(i) => Some(i@),
        None => None,
    }
}

/// The index of a workspace whose index file was read, and whether it is to be saved because
/// snapshots were found on disk.
pub fn recover_index(loaded: SnapshotIndex, rebuilt: Option<SnapshotIndex>) -> (r: (
    SnapshotIndex,
    bool,
))
    ensures
        r.0@ == recovered_index(loaded@, opt_index(rebuilt)),
        r.1 == (!has_snapshots(loaded@) && (rebuilt matches Some(i) && has_snapshots(i@))),
{
    if !loaded.snapshots.is_empty() {
        return (loaded, false);
    }
    match rebuilt {
        Some(i) => {
            if i.snapshots.is_empty() {
                return (loaded, false);
            }
            let mut i = i;
            i.governed_evidence = loaded.governed_evidence;
            i.guarded_rollbacks = loaded.guarded_rollbacks;
            (i, true)
        },
        None => (loaded, false),
    }
}

/// An index, or one without snapshots where there is none.
pub open spec fn index_or_new(i: Option<IndexView>, path: Seq<char>) -> IndexView {
    match i {
        Some(i) => i,
        None => empty_index(path),
    }
}

/// The index of a workspace of the daemon's manifest: what its index file holds, or one without
/// snapshots where the file could not be read.
pub fn restored_index(loaded: Option<SnapshotIndex>, path: &str) -> (r: SnapshotIndex)
    ensures
        r@ == index_or_new(opt_index(loaded), path@),
{
    match loaded {
        Some(i) => i,
        None => SnapshotIndex::new(path.to_owned()),
    }
}

/// The index with each snapshot marked missing exactly where its subvolume is not there.
pub open spec fn reconciled(v: IndexView, present: Set<Seq<char>>) -> IndexView {
    IndexView {
        nodes: v.nodes.map_entries(
            |k: Seq<char>, m: MetaView| MetaView { missing: !present.contains(k), ..m },
        ),
        ..v
    }
}

impl SnapshotIndex {
    /// Marks each snapshot missing exactly where its subvolume is not there; says whether that
    /// changed anything.
    pub fn reconcile(&mut self, present: &StringSet) -> (changed: bool)
        ensures
            final(self)@ == reconciled(old(self)@, present@.dom()),
            changed == (final(self)@ != old(self)@),
    {
        let ghost v0 = self@;
        let ghost n0 = v0.nodes;
        let ghost set = present@.dom();
        let mut changed = false;
        let total: usize = self.snapshots.len();
        let ghost keys = self.snapshots.ordered_keys();
        let mut ids: Vec<String> = Vec::new();
        let mut i: usize = 0;
        while i < total
            invariant
                i <= total == keys.len(),
                keys == self.snapshots.ordered_keys(),
                *self == *old(self),
                ids@.len() == i,
                forall|j: int| 0 <= j < i ==> (#[trigger] ids@[j])@ == keys[j],
            decreases total - i,
        {
            ids.push(self.snapshots.entry(i).0.clone());
            i = i + 1;
        }
        let ghost dom = n0.dom();
        let mut n: usize = 0;
        while n < ids.len()
            invariant
                n <= ids@.len() == keys.len(),
                set == present@.dom(),
                n0 == v0.nodes,
                v0 == old(self)@,
                keys.no_duplicates(),
                keys.to_set() == n0.dom(),
                forall|j: int| 0 <= j < ids@.len() ==> (#[trigger] ids@[j])@ == keys[j],
                self@ == (IndexView { nodes: self@.nodes, ..v0 }),
                self@.nodes.dom() == n0.dom(),
                forall|j: int|
                    0 <= j < keys.len() ==> self@.nodes[#[trigger] keys[j]] == if j < n {
                        MetaView { missing: !set.contains(keys[j]), ..n0[keys[j]] }
                    } else {
                        n0[keys[j]]
                    },
                changed == exists|j: int|
                    0 <= j < n && n0[#[trigger] keys[j]].missing != !set.contains(keys[j]),
            decreases ids@.len() - n,
        {
            let ghost before = self@.nodes;
            let ghost k = keys[n as int];
            proof {
                assert(ids@[n as int]@ == k);
                assert(keys.to_set().contains(k));
                assert(n0.contains_key(k));
            }
            let gone = !present.contains_key(ids[n].as_str());
            if let Some(m) = self.snapshots.remove(ids[n].as_str()) {
                let mut m = m;
                if m.missing != gone {
                    changed = true;
                }
                m.missing = gone;
                let ghost mv = m@;
                self.snapshots.insert(ids[n].clone(), m);
                proof {
                    assert(self@.nodes =~= before.insert(k, mv));
                }
            }
            proof {
                assert(self@.nodes.dom() =~= n0.dom());
                assert forall|j: int| 0 <= j < keys.len() implies self@.nodes[#[trigger] keys[j]]
                    == if j < n + 1 {
                    MetaView { missing: !set.contains(keys[j]), ..n0[keys[j]] }
                } else {
                    n0[keys[j]]
                } by {
                    if j != n {
                        assert(keys[j] != k);
                    }
                }
            }
            n = n + 1;
        }
        proof {
            let goal = reconciled(v0, set).nodes;
            assert forall|k: Seq<char>| n0.contains_key(k) implies self@.nodes[k] == goal[k] by {
                assert(keys.to_set().contains(k));
                let j = keys.index_of(k);
                assert(keys[j] == k);
            }
            assert(self@.nodes =~= goal);
            if changed {
                let j = choose|j: int|
                    0 <= j < keys.len() && n0[#[trigger] keys[j]].missing != !set.contains(keys[j]);
                assert(keys.to_set().contains(keys[j]));
                assert(self@.nodes[keys[j]] != n0[keys[j]]);
            } else {
                assert forall|k: Seq<char>| n0.contains_key(k) implies self@.nodes[k] == n0[k] by {
                    assert(keys.to_set().contains(k));
                    let j = keys.index_of(k);
                    assert(keys[j] == k);
                    assert(n0[keys[j]].missing == !set.contains(keys[j]));
                }
                assert(self@.nodes =~= n0);
            }
        }
        changed
    }
}

impl DaemonState {
    /// Registers a workspace that was initialized, adopted or restored, with the policy that
    /// reading its file gave, and answers.
    pub fn finish_init(
        &mut self,
        ws_id: String,
        path: String,
        index: SnapshotIndex,
        loaded: Result<LoadPolicyOutcome, WsCkptError>,
    ) -> (r: Response)
        ensures
            final(self).same_but_registry(*old(self)),
            exists|number: usize|
                final(self).registry@ == #[trigger] old(self).registry@.registered(
                    registered_view(ws_id@, path@, index@, loaded),
                    number,
                ),
            is_init_ok(r, ws_id@),
    {
        let (policy, failsafe) = load_workspace_policy_with_failsafe(loaded);
        let id = ws_id.clone();
        let number: usize = self.register_workspace_with_policy(ws_id, path, index, policy, failsafe);
        proof {
            assert(self.registry@ == old(self).registry@.registered(
                registered_view(id@, path@, index@, loaded),
                number,
            ));
        }
        Response::InitOk { ws_id: id }
    }

    /// Marks the missing snapshots of a workspace; says whether its index is to be saved.
    pub fn reconcile_workspace(&mut self, ws_id: &str, present: &StringSet) -> (changed: bool)
        ensures
            final(self).same_but_registry(*old(self)),
            match old(self).registry@.get(ws_id@) {
                None => final(self).registry@ == old(self).registry@ && !changed,
                Some(w) => final(self).registry@ == old(self).registry@.updated(
                    WorkspaceView { index: reconciled(w.index, present@.dom()), ..w },
                ) && changed == (reconciled(w.index, present@.dom()) != w.index),
            },
    {
        let mut index = match self.get_by_wsid(ws_id) {
            None => {
                return false;
            },
            Some(w) => w.index.duplicate(),
        };
        let changed = index.reconcile(present);
        self.set_index(ws_id, index);
        changed
    }

    /// Plans the deletion of a snapshot: which one it is, and whether it has a subvolume to
    /// delete. `canonical` is where the workspace text leads as a path, and `facts` what the
    /// file system shows of its registration.
    pub fn plan_delete(
        &self,
        workspace: &str,
        canonical: Option<&str>,
        facts: &RegistrationFacts,
        snapshot_id: &str,
        force: bool,
    ) -> (r: Result<DeletePlan, Response>)
        ensures
            delete_planned(
                resolved_workspace(self.registry@, workspace@, opt_str(canonical)),
                workspace@,
                *facts,
                snapshot_id@,
                force,
                r,
            ),
    {
        let w = match self.resolve_workspace(workspace, canonical) {
            Some(w) => w,
            None => {
                return Err(workspace_not_found_error(workspace));
            },
        };
        if let Some(e) = detached_registration_error(w, facts) {
            return Err(e);
        }
        let (id, meta) = match w.index.resolve_by_prefix(snapshot_id) {
            Ok(f) => f,
            Err(ResolveError::NotFound) => {
                return Err(
                    error_resp(
                        ErrorCode::SnapshotNotFound,
                        joined("snapshot not found: ", snapshot_id).as_str(),
                    ),
                );
            },
            Err(ResolveError::Ambiguous(n)) => {
                let mut m = "ambiguous snapshot prefix '".to_owned();
                m.append(snapshot_id);
                m.append("': ");
                push_decimal(&mut m, n as u64);
                m.append(" matches");
                return Err(error_resp(ErrorCode::SnapshotNotFound, m.as_str()));
            },
        };
        if meta.pinned && !force {
            return Err(
                error_resp(
                    ErrorCode::ConfirmationRequired,
                    "Snapshot is pinned, use --force to confirm deletion",
                ),
            );
        }
        Ok(
            DeletePlan {
                ws_id: w.ws_id.clone(),
                snapshot_id: id.clone(),
                delete_subvolume: !meta.missing,
            },
        )
    }

    /// Takes a deleted snapshot out of the index of its workspace.
    pub fn forget_snapshot(&mut self, ws_id: &str, snapshot_id: &str)
        ensures
            final(self).same_but_registry(*old(self)),
            final(self).registry@ == match old(self).registry@.get(ws_id@) {
                Some(w) => old(self).registry@.updated(
                    WorkspaceView { index: w.index.deleted(snapshot_id@), ..w },
                ),
                None => old(self).registry@,
            },
    {
        let copied = match self.get_by_wsid(ws_id) {
            Some(w) => Some(w.index.duplicate()),
            None => None,
        };
        if let Some(index) = copied {
            let mut index = index;
            let ghost v = index@;
            index.unlink_node(snapshot_id);
            index.snapshots.remove(snapshot_id);
            index.governed_evidence.remove(snapshot_id);
            proof {
                assert(index@ == v.deleted(snapshot_id@));
            }
            self.set_index(ws_id, index);
        }
    }

    /// Plans the recovery of a workspace: which one it is, and where it goes.
    pub fn plan_recover(&self, workspace: &str, canonical: Option<&str>) -> (r: Result<
        (String, String),
        Response,
    >)
        ensures
            match resolved_workspace(self.registry@, workspace@, opt_str(canonical)) {
                None => r matches Err(e) && e.is_error(
                    ErrorCode::WorkspaceNotFound,
                    not_found_message(workspace@),
                ),
                Some(w) => r matches Ok(p) && p.0@ == w.ws_id && p.1@ == w.path,
            },
    {
        match self.resolve_workspace(workspace, canonical) {
            None => Err(workspace_not_found_error(workspace)),
            Some(w) => Ok((w.ws_id.clone(), w.path.clone())),
        }
    }
}

impl IndexView {
    /// The index without a snapshot: out of the lineage, without its record and its evidence.
    pub open spec fn deleted(self, id: Seq<char>) -> IndexView {
        let u = self.unlinked(id);
        IndexView { nodes: u.nodes.remove(id), evidence: u.evidence.remove(id), ..u }
    }
}

/// A deletion that may go ahead.
#[derive(Debug, PartialEq, Eq)]
pub struct DeletePlan {
    pub ws_id: String,
    pub snapshot_id: String,
    /// Whether the snapshot has a subvolume to delete.
    pub delete_subvolume: bool,
}

/// What a workspace is registered as, with the policy that reading its file gave.
pub open spec fn registered_view(
    ws_id: Seq<char>,
    path: Seq<char>,
    index: IndexView,
    loaded: Result<LoadPolicyOutcome, WsCkptError>,
) -> WorkspaceView {
    WorkspaceView {
        ws_id,
        path,
        index,
        policy: match loaded {
            Ok(o) => o.policy(),
            Err(_) => PolicyView::failsafe(),
        },
        policy_failsafe: loaded is Err,
    }
}

/// What planning a deletion gives.
pub open spec fn delete_planned(
    target: Option<WorkspaceView>,
    workspace: Seq<char>,
    facts: RegistrationFacts,
    snapshot: Seq<char>,
    force: bool,
    r: Result<DeletePlan, Response>,
) -> bool {
    match target {
        None => r matches Err(e) && e.is_error(
            ErrorCode::WorkspaceNotFound,
            not_found_message(workspace),
        ),
        Some(w) => if !facts.live() {
            r matches Err(e) && e.is_error(
                ErrorCode::InternalError,
                detached_message(w.ws_id, w.path, facts.kind),
            )
        } else {
            match w.index.resolved(snapshot) {
                Err(ResolveError::NotFound) => r matches Err(e) && e.is_error(
                    ErrorCode::SnapshotNotFound,
                    "snapshot not found: "@ + snapshot,
                ),
                Err(ResolveError::Ambiguous(n)) => r matches Err(e) && e.is_error(
                    ErrorCode::SnapshotNotFound,
                    "ambiguous snapshot prefix '"@ + snapshot + "': "@ + decimal(n as nat)
                        + " matches"@,
                ),
                Ok(id) => if w.index.nodes[id].pinned && !force {
                    r matches Err(e) && e.is_error(
                        ErrorCode::ConfirmationRequired,
                        "Snapshot is pinned, use --force to confirm deletion"@,
                    )
                } else {
                    r matches Ok(p) && p.ws_id@ == w.ws_id && p.snapshot_id@ == id
                        && p.delete_subvolume == !w.index.nodes[id].missing
                },
            }
        },
    }
}

/// Whether a workspace is at rest: nothing watches it, no write was seen, or none was seen again
/// in a second look after a quiet period.
pub fn is_quiescent(first_look: Option<bool>, second_look: bool) -> (r: bool)
    ensures
        r == (first_look != Some(true) || !second_look),
{
    match first_look {
        None => true,
        Some(writing) => !writing || !second_look,
    }
}

/// Deleting a snapshot keeps the lineage consistent.
pub proof fn lemma_deleted_is_linked(v: IndexView, id: Seq<char>)
    requires
        linked(v),
        v.nodes.contains_key(id),
    ensures
        linked(v.deleted(id)),
        !v.deleted(id).nodes.contains_key(id),
{
    lemma_delete_keeps_lineage(v, id);
    let a = v.unlinked(id).without_records(set![id]);
    let b = v.deleted(id);
    assert(a.nodes =~= b.nodes);
}

/// Marking snapshots keeps the lineage consistent, and marking twice changes nothing more.
pub proof fn lemma_reconcile_keeps_lineage(v: IndexView, present: Set<Seq<char>>)
    ensures
        linked(v) ==> linked(reconciled(v, present)),
        reconciled(reconciled(v, present), present) == reconciled(v, present),
{
    let r = reconciled(v, present);
    assert(reconciled(r, present).nodes =~= r.nodes);
    if linked(v) {
        let rank = choose|rank: spec_fn(Seq<char>) -> nat| crate::lineage::ranked(v.nodes, rank);
        assert forall|k: Seq<char>| #[trigger]
            r.nodes.contains_key(k) implies crate::lineage::record_linked(r.nodes, r.head, k) by {
            assert(crate::lineage::record_linked(v.nodes, v.head, k));
        }
        assert(crate::lineage::ranked(r.nodes, rank)) by {
            assert forall|k: Seq<char>| #[trigger]
                r.nodes.contains_key(k) && r.nodes[k].parent_id is Some implies rank(
                r.nodes[k].parent_id->0,
            ) < rank(k) by {
                assert(v.nodes.contains_key(k));
            }
        }
    }
}

/// Recovering snapshots from disk never drops the evidence of guarded operations, neither of
/// checkpoints nor of rollbacks.
pub proof fn lemma_recovery_keeps_evidence(loaded: IndexView, rebuilt: Option<IndexView>)
    ensures
        recovered_index(loaded, rebuilt).evidence == loaded.evidence,
        recovered_index(loaded, rebuilt).rollbacks == loaded.rollbacks,
{
}

} // verus!
