//! The running executor's decision core: command dispatch, working-directory
//! and timeout resolution, the shell texts for file reads and writes, the
//! write-retry policy, response interpretation, and the teardown flags.
//!
//! The unverified shell around this crate performs the RPC transport and the
//! engine API calls these decisions call for.
use vstd::prelude::*;

use crate::text::{
    contains_ci, lemma_to_set_push, spec_contains, spec_lower, spec_trim, spec_trim_end, trim,
    trim_end, views_of,
};

verus! {

/// Converts a duration, given as whole seconds and a sub-second nanosecond
/// part, to whole milliseconds, saturating at `u64::MAX`.
pub fn duration_to_millis(secs: u64, subsec_nanos: u32) -> (r: u64)
    ensures
        r == spec_duration_to_millis(secs as nat, subsec_nanos as nat),
{
    let total: u128 = (secs as u128) * 1000 + (subsec_nanos / 1_000_000) as u128;
    if total > u64::MAX as u128 {
        u64::MAX
    } else {
        total as u64
    }
}

/// The number of whole milliseconds in `secs` seconds plus `subsec_nanos`
/// nanoseconds, saturated to the largest `u64`.
pub open spec fn spec_duration_to_millis(secs: nat, subsec_nanos: nat) -> nat {
    let total = secs * 1000 + subsec_nanos / 1_000_000;
    if total > u64::MAX {
        u64::MAX as nat
    } else {
        total
    }
}

/// Options common to every command: an optional working-directory override
/// and an optional time limit in milliseconds.
#[derive(Debug)]
pub struct CommandOpts {
    pub current_dir: Option<String>,
    pub timeout_ms: Option<u64>,
}

/// A request the running executor accepts.
#[derive(Debug)]
pub enum Command {
    /// Execute a shell string.
    Shell { command: String, opts: CommandOpts },
    /// Read a file by path.
    ReadFile { path: String, opts: CommandOpts },
    /// Write string content to a file by path.
    WriteFile { path: String, content: String, opts: CommandOpts },
}

impl Command {
    /// The options carried by the command.
    pub fn opts(&self) -> (r: &CommandOpts)
        ensures
            *r == self.spec_opts(),
    {
        match self {
            Command::Shell { opts, .. } => opts,
            Command::ReadFile { opts, .. } => opts,
            Command::WriteFile { opts, .. } => opts,
        }
    }

    /// The options carried by the command.
    pub open spec fn spec_opts(&self) -> CommandOpts {
        match self {
            Command::Shell { opts, .. } => *opts,
            Command::ReadFile { opts, .. } => *opts,
            Command::WriteFile { opts, .. } => *opts,
        }
    }
}

/// A command's merged output text.
#[derive(Debug)]
pub struct CommandOutput {
    pub output: String,
}

/// How a command failed.
#[derive(Debug)]
pub enum CommandError {
    /// The command ran and returned a non-zero status; carries the merged
    /// output.
    NonZeroExit(CommandOutput),
    /// The command did not finish within the effective time limit; carries
    /// the limit and whatever partial output was captured.
    TimedOut { timeout_ms: u64, output: CommandOutput },
    /// Any other transport or executor failure.
    ExecutorError(String),
}

/// A path is absolute when it begins with the path separator.
pub open spec fn spec_is_absolute(p: Seq<char>) -> bool {
    p.len() > 0 && p[0] == '/'
}

/// Decides `spec_is_absolute`.
pub fn is_absolute(p: &str) -> (r: bool)
    ensures
        r == spec_is_absolute(p@),
{
    p.unicode_len() > 0 && p.get_char(0) == '/'
}

/// `base` and `child` joined by the path separator; a separator already
/// ending `base` is not doubled.
pub open spec fn spec_join_path(base: Seq<char>, child: Seq<char>) -> Seq<char> {
    if base.len() > 0 && base.last() == '/' {
        base + child
    } else {
        base + seq!['/'] + child
    }
}

/// Joins two paths, as `spec_join_path` describes.
pub fn join_path(base: &str, child: &str) -> (r: String)
    ensures
        r@ == spec_join_path(base@, child@),
{
    let n = base.unicode_len();
    let mut r = base.to_owned();
    if !(n > 0 && base.get_char(n - 1) == '/') {
        r.append("/");
        proof {
            reveal_strlit("/");
            assert(r@ =~= base@ + seq!['/']);
        }
    }
    r.append(child);
    r
}

/// The running executor: the started container's identity, resolved network
/// address, environment policy, defaults and lifecycle flags. Every
/// attribute is set once at start; only the teardown flag ever changes.
pub struct RunningDockerExecutor {
    /// The engine-assigned container identifier.
    pub container_id: String,
    /// The resolved port at which the in-container service is reachable.
    pub container_port: String,
    /// The resolved address at which the in-container service is reachable.
    pub container_ip: String,
    /// Torn down already; destruction is then a no-op.
    pub dropped: bool,
    /// Skip teardown when the executor is discarded.
    pub retain_on_drop: bool,
    /// Clear the inherited environment before running commands.
    pub env_clear: bool,
    /// Environment variable names to remove.
    pub remove_env: Vec<String>,
    /// Environment variables to set.
    pub env: Vec<(String, String)>,
    /// The time limit applied to commands that carry none, in milliseconds.
    pub default_timeout_ms: Option<u64>,
    /// The working directory commands resolve against.
    pub workdir: String,
}

/// The effective working directory for a command: an absolute override wins,
/// a relative one is joined onto the executor's working directory, and no
/// override leaves the executor's working directory.
pub open spec fn spec_resolve_workdir(workdir: Seq<char>, current_dir: Option<String>) -> Seq<
    char,
> {
    match current_dir {
        Some(p) => if spec_is_absolute(p@) {
            p@
        } else {
            spec_join_path(workdir, p@)
        },
        None => workdir,
    }
}

/// The effective time limit for a command: its own limit if present, else
/// the executor's default, else none.
pub open spec fn spec_resolve_timeout(cmd_timeout_ms: Option<u64>, default_ms: Option<u64>) -> Option<u64> {
    match cmd_timeout_ms {
        Some(t) => Some(t),
        None => default_ms,
    }
}

impl RunningDockerExecutor {
    /// Resolves the effective working directory for a command.
    pub fn resolve_workdir(&self, cmd: &Command) -> (r: String)
        ensures
            r@ == spec_resolve_workdir(self.workdir@, cmd.spec_opts().current_dir),
    {
        match &cmd.opts().current_dir {
            Some(p) => {
                if is_absolute(p.as_str()) {
                    p.clone()
                } else {
                    join_path(self.workdir.as_str(), p.as_str())
                }
            },
            None => self.workdir.clone(),
        }
    }

    /// Resolves the effective time limit for a command.
    pub fn resolve_timeout(&self, cmd: &Command) -> (r: Option<u64>)
        ensures
            r == spec_resolve_timeout(cmd.spec_opts().timeout_ms, self.default_timeout_ms),
    {
        match &cmd.opts().timeout_ms {
            Some(t) => Some(*t),
            None => self.default_timeout_ms,
        }
    }

    /// Marks the executor for destruction-time teardown. Returns whether
    /// teardown work must be started: only on the first destruction of an
    /// executor that is not retained.
    pub fn begin_drop_teardown(&mut self) -> (do_teardown: bool)
        ensures
            do_teardown == spec_drop_decision(*old(self)),
            *final(self) == spec_after_drop(*old(self)),
    {
        if self.dropped {
            return false;
        }
        if self.retain_on_drop {
            return false;
        }
        self.dropped = true;
        true
    }
}

/// Destruction starts teardown exactly when the executor is neither already
/// torn down nor retained.
pub open spec fn spec_drop_decision(s: RunningDockerExecutor) -> bool {
    !s.dropped && !s.retain_on_drop
}

/// The executor after the destruction-time decision: marked torn down
/// exactly when teardown work was started.
pub open spec fn spec_after_drop(s: RunningDockerExecutor) -> RunningDockerExecutor {
    RunningDockerExecutor { dropped: s.dropped || spec_drop_decision(s), ..s }
}

/// Law: teardown is started at most once. After one destruction-time
/// decision, a second one never starts teardown again, whether the first
/// started it or skipped it.
pub proof fn lemma_teardown_idempotent(s: RunningDockerExecutor)
    ensures
        !spec_drop_decision(spec_after_drop(s)),
{
}

/// Law: a command's own time limit overrides the executor's default, and
/// the default applies exactly to commands that carry none.
pub proof fn lemma_timeout_precedence(cmd_timeout_ms: Option<u64>, default_ms: Option<u64>)
    ensures
        cmd_timeout_ms is Some ==> spec_resolve_timeout(cmd_timeout_ms, default_ms)
            == cmd_timeout_ms,
        cmd_timeout_ms is None ==> spec_resolve_timeout(cmd_timeout_ms, default_ms) == default_ms,
{
}

/// The shell text that reads a file: a plain dump of the path.
pub fn read_file_command(path: &str) -> (r: String)
    ensures
        r@ == "cat "@ + path@,
{
    let mut r = "cat ".to_owned();
    r.append(path);
    r
}

/// The shell text that writes `content` to `path` through a quoted
/// here-document, with trailing white space trimmed from the content first.
pub open spec fn spec_write_file_command(path: Seq<char>, content: Seq<char>) -> Seq<char> {
    "cat << 'EOFKWAAK' > "@ + path + seq!['\n'] + spec_trim_end(content) + seq!['\n']
        + "EOFKWAAK"@
}

/// Builds the write-file shell text, as `spec_write_file_command` describes.
pub fn write_file_command(path: &str, content: &str) -> (r: String)
    ensures
        r@ == spec_write_file_command(path@, content@),
{
    let mut r = "cat << 'EOFKWAAK' > ".to_owned();
    r.append(path);
    r.append("\n");
    let trimmed = trim_end(content);
    r.append(trimmed.as_str());
    r.append("\n");
    r.append("EOFKWAAK");
    proof {
        reveal_strlit("\n");
        assert("\n"@ =~= seq!['\n']);
        assert(r@ =~= spec_write_file_command(path@, content@));
    }
    r
}

/// The shell text that creates a directory chain.
pub fn mkdir_command(path: &str) -> (r: String)
    ensures
        r@ == "mkdir -p "@ + path@,
{
    let mut r = "mkdir -p ".to_owned();
    r.append(path);
    r
}

/// A failed write is retried after creating the parent directory exactly
/// when its merged output names a missing directory, in any of the three
/// phrasings common shells use, compared up to ASCII case.
pub open spec fn spec_should_retry_write(output: Seq<char>) -> bool {
    spec_contains(spec_lower(output), spec_lower("no such file or directory"@))
        || spec_contains(spec_lower(output), spec_lower("directory nonexistent"@))
        || spec_contains(spec_lower(output), spec_lower("nonexistent directory"@))
}

/// Decides `spec_should_retry_write`.
pub fn should_retry_write(output: &str) -> (r: bool)
    ensures
        r == spec_should_retry_write(output@),
{
    contains_ci(output, "no such file or directory") || contains_ci(
        output,
        "directory nonexistent",
    ) || contains_ci(output, "nonexistent directory")
}

/// Merged command output: trimmed stdout and stderr joined by one line break
/// when both are non-empty, else whichever is non-empty, else empty.
pub open spec fn spec_merge_stream_output(stdout: Seq<char>, stderr: Seq<char>) -> Seq<char> {
    if stdout.len() == 0 && stderr.len() == 0 {
        Seq::empty()
    } else if stderr.len() == 0 {
        stdout
    } else if stdout.len() == 0 {
        stderr
    } else {
        stdout + seq!['\n'] + stderr
    }
}

/// Merges already-trimmed stdout and stderr texts, as
/// `spec_merge_stream_output` describes.
pub fn merge_stream_output(stdout: &str, stderr: &str) -> (r: String)
    ensures
        r@ == spec_merge_stream_output(stdout@, stderr@),
{
    let out_empty = stdout.unicode_len() == 0;
    let err_empty = stderr.unicode_len() == 0;
    if out_empty && err_empty {
        String::new()
    } else if err_empty {
        stdout.to_owned()
    } else if out_empty {
        stderr.to_owned()
    } else {
        let mut r = stdout.to_owned();
        r.append("\n");
        r.append(stderr);
        proof {
            reveal_strlit("\n");
            assert("\n"@ =~= seq!['\n']);
            assert(r@ =~= stdout@ + seq!['\n'] + stderr@);
        }
        r
    }
}

/// Interprets a shell response: exit code zero yields the merged trimmed
/// output, anything else a non-zero-exit error carrying the same text.
pub fn interpret_shell_response(exit_code: i32, stdout: &str, stderr: &str) -> (r: Result<
    CommandOutput,
    CommandError,
>)
    ensures
        ({
            let merged = spec_merge_stream_output(spec_trim(stdout@), spec_trim(stderr@));
            match r {
                Ok(out) => exit_code == 0 && out.output@ == merged,
                Err(e) => exit_code != 0 && (e matches CommandError::NonZeroExit(out)
                    && out.output@ == merged),
            }
        }),
{
    let so = trim(stdout);
    let se = trim(stderr);
    let merged = merge_stream_output(so.as_str(), se.as_str());
    if exit_code == 0 {
        Ok(CommandOutput { output: merged })
    } else {
        Err(CommandError::NonZeroExit(CommandOutput { output: merged }))
    }
}

/// The shape of an RPC failure, as the transport reports it: the deadline
/// was exceeded, or anything else; both carry the status message.
pub enum TransportStatus {
    DeadlineExceeded(String),
    Other(String),
}

/// Interprets an RPC transport failure: a deadline-exceeded status under a
/// configured limit becomes a timed-out error carrying that limit and the
/// status message as partial output; everything else is an executor error
/// carrying the message.
pub fn interpret_transport_failure(status: TransportStatus, timeout_ms: Option<u64>) -> (r:
    CommandError)
    ensures
        match status {
            TransportStatus::DeadlineExceeded(msg) => match timeout_ms {
                Some(t) => r matches CommandError::TimedOut { timeout_ms: rt, output } && rt == t
                    && output.output@ == msg@,
                None => r matches CommandError::ExecutorError(m) && m@ == msg@,
            },
            TransportStatus::Other(msg) => r matches CommandError::ExecutorError(m) && m@
                == msg@,
        },
{
    match status {
        TransportStatus::DeadlineExceeded(msg) => match timeout_ms {
            Some(t) => CommandError::TimedOut { timeout_ms: t, output: CommandOutput { output: msg } },
            None => CommandError::ExecutorError(msg),
        },
        TransportStatus::Other(msg) => CommandError::ExecutorError(msg),
    }
}

/// Lexicographic order on character sequences by code point, the order a
/// byte-wise comparison of their UTF-8 encodings gives.
pub open spec fn spec_str_le(a: Seq<char>, b: Seq<char>) -> bool
    decreases a.len(),
{
    if a.len() == 0 {
        true
    } else if b.len() == 0 {
        false
    } else if a[0] == b[0] {
        spec_str_le(a.skip(1), b.skip(1))
    } else {
        a[0] < b[0]
    }
}

/// Decides `spec_str_le`.
pub fn str_le(a: &str, b: &str) -> (r: bool)
    ensures
        r == spec_str_le(a@, b@),
{
    let la = a.unicode_len();
    let lb = b.unicode_len();
    let mut i: usize = 0;
    proof {
        assert(a@.skip(0) =~= a@);
        assert(b@.skip(0) =~= b@);
    }
    while i < la && i < lb
        invariant
            0 <= i <= la == a@.len(),
            i <= lb == b@.len(),
            spec_str_le(a@, b@) == spec_str_le(a@.skip(i as int), b@.skip(i as int)),
        decreases la - i,
    {
        let ca = a.get_char(i);
        let cb = b.get_char(i);
        proof {
            let ta = a@.skip(i as int);
            let tb = b@.skip(i as int);
            assert(ta[0] == a@[i as int] && tb[0] == b@[i as int]);
            assert(ta.skip(1) =~= a@.skip(i + 1));
            assert(tb.skip(1) =~= b@.skip(i + 1));
        }
        if ca != cb {
            return ca < cb;
        }
        i += 1;
    }
    proof {
        if i == la {
            assert(a@.skip(i as int).len() == 0);
        } else {
            assert(b@.skip(i as int).len() == 0);
            assert(a@.skip(i as int).len() > 0);
        }
    }
    la <= lb
}

/// The paths from which the temporary build file must be scrubbed after
/// the image build: its bare name, its name under the executor's working
/// directory when that is absolute, and its name under the conventional
/// working directory when the executor uses another one.
pub open spec fn spec_removal_candidates(workdir: Seq<char>, tmp_name: Seq<char>) -> Seq<
    Seq<char>,
> {
    seq![tmp_name] + (if spec_is_absolute(workdir) {
        seq![spec_join_path(workdir, tmp_name)]
    } else {
        Seq::empty()
    }) + (if workdir != "/app"@ {
        seq![spec_join_path("/app"@, tmp_name)]
    } else {
        Seq::empty()
    })
}

/// Computes the removal targets: the candidate paths, ordered
/// lexicographically with duplicates dropped.
pub fn removal_targets(workdir: &str, tmp_name: &str) -> (r: Vec<String>)
    ensures
        views_of(r@).to_set() == spec_removal_candidates(workdir@, tmp_name@).to_set(),
        forall|i: int|
            0 <= i < r@.len() - 1 ==> spec_str_le(#[trigger] views_of(r@)[i], views_of(r@)[i + 1])
                && views_of(r@)[i] != views_of(r@)[i + 1],
{
    let mut cands: Vec<String> = Vec::new();
    cands.push(tmp_name.to_owned());
    if is_absolute(workdir) {
        cands.push(join_path(workdir, tmp_name));
    }
    let wd = workdir.to_owned();
    let app = "/app".to_owned();
    if !(wd == app) {
        cands.push(join_path("/app", tmp_name));
    }
    proof {
        assert(views_of(cands@) =~~= spec_removal_candidates(workdir@, tmp_name@));
    }
    sorted_dedup(cands)
}

/// Sorts a short vector lexicographically and drops duplicate values,
/// keeping exactly the set of views.
fn sorted_dedup(v: Vec<String>) -> (r: Vec<String>)
    requires
        1 <= v@.len() <= 3,
    ensures
        views_of(r@).to_set() == views_of(v@).to_set(),
        forall|i: int|
            0 <= i < r@.len() - 1 ==> spec_str_le(#[trigger] views_of(r@)[i], views_of(r@)[i + 1])
                && views_of(r@)[i] != views_of(r@)[i + 1],
{
    let mut sorted: Vec<String> = Vec::new();
    let mut i: usize = 0;
    while i < v.len()
        invariant
            0 <= i <= v@.len(),
            views_of(sorted@).to_set() == views_of(v@).take(i as int).to_set(),
            forall|a: int, b: int|
                0 <= a < b < sorted@.len() ==> spec_str_le(
                    #[trigger] views_of(sorted@)[a],
                    #[trigger] views_of(sorted@)[b],
                ) && views_of(sorted@)[a] != views_of(sorted@)[b],
        decreases v@.len() - i,
    {
        let item = v[i].clone();
        insert_sorted(&mut sorted, item);
        proof {
            assert(views_of(v@).take(i + 1) =~= views_of(v@).take(i as int).push(
                views_of(v@)[i as int],
            ));
            lemma_to_set_push(views_of(v@).take(i as int), views_of(v@)[i as int]);
        }
        i += 1;
    }
    proof {
        assert(views_of(v@).take(v@.len() as int) =~= views_of(v@));
    }
    sorted
}

/// Inserts a value into a strictly sorted vector, keeping it strictly
/// sorted; a value already present is dropped.
fn insert_sorted(sorted: &mut Vec<String>, item: String)
    requires
        forall|a: int, b: int|
            0 <= a < b < old(sorted)@.len() ==> spec_str_le(
                #[trigger] views_of(old(sorted)@)[a],
                #[trigger] views_of(old(sorted)@)[b],
            ) && views_of(old(sorted)@)[a] != views_of(old(sorted)@)[b],
    ensures
        views_of(final(sorted)@).to_set() == views_of(old(sorted)@).to_set().insert(item@),
        forall|a: int, b: int|
            0 <= a < b < final(sorted)@.len() ==> spec_str_le(
                #[trigger] views_of(final(sorted)@)[a],
                #[trigger] views_of(final(sorted)@)[b],
            ) && views_of(final(sorted)@)[a] != views_of(final(sorted)@)[b],
{
    let ghost old_views = views_of(sorted@);
    let mut pos: usize = 0;
    while pos < sorted.len() && str_le(sorted[pos].as_str(), item.as_str()) && !(sorted[pos]
        == item)
        invariant
            0 <= pos <= sorted@.len(),
            sorted@ == old(sorted)@,
            old_views == views_of(sorted@),
            forall|j: int|
                0 <= j < pos ==> spec_str_le(#[trigger] old_views[j], item@) && old_views[j]
                    != item@,
        decreases sorted@.len() - pos,
    {
        pos += 1;
    }
    if pos < sorted.len() && sorted[pos] == item {
        proof {
            assert(old_views[pos as int] == item@);
            assert(old_views.to_set().contains(item@));
            assert(old_views.to_set() =~= old_views.to_set().insert(item@));
        }
        return;
    }
    proof {
        lemma_str_le_total(old_views, item@, pos as int);
    }
    sorted.insert(pos, item);
    proof {
        let new_views = views_of(sorted@);
        assert(new_views =~~= old_views.take(pos as int).push(item@) + old_views.skip(
            pos as int,
        ));
        assert(new_views.len() == old_views.len() + 1);
        assert forall|a: int| 0 <= a < new_views.len() implies new_views[a] == (if a < pos as int {
            old_views[a]
        } else if a == pos as int {
            item@
        } else {
            old_views[a - 1]
        }) by {}
        assert forall|y: Seq<char>| new_views.to_set().contains(y) implies old_views.to_set().insert(
            item@,
        ).contains(y) by {
            let a = choose|a: int| 0 <= a < new_views.len() && new_views[a] == y;
            if a < pos as int {
                assert(old_views[a] == y);
            } else if a > pos as int {
                assert(old_views[a - 1] == y);
            }
        }
        assert forall|y: Seq<char>| old_views.to_set().insert(item@).contains(y)
            implies new_views.to_set().contains(y) by {
            if y == item@ {
                assert(new_views[pos as int] == y);
            } else {
                let a = choose|a: int| 0 <= a < old_views.len() && old_views[a] == y;
                if a < pos as int {
                    assert(new_views[a] == y);
                } else {
                    assert(new_views[a + 1] == y);
                }
            }
        }
        assert(new_views.to_set() =~= old_views.to_set().insert(item@));
        assert forall|a: int, b: int| 0 <= a < b < new_views.len() implies spec_str_le(
            #[trigger] new_views[a],
            #[trigger] new_views[b],
        ) && new_views[a] != new_views[b] by {
            if a < pos as int && b < pos as int {
                assert(new_views[a] == old_views[a] && new_views[b] == old_views[b]);
            } else if a < pos as int && b == pos as int {
                assert(new_views[a] == old_views[a] && new_views[b] == item@);
            } else if a < pos as int && b > pos as int {
                assert(new_views[a] == old_views[a] && new_views[b] == old_views[b - 1]);
            } else if a == pos as int {
                assert(new_views[a] == item@ && new_views[b] == old_views[b - 1]);
            } else {
                assert(new_views[a] == old_views[a - 1] && new_views[b] == old_views[b - 1]);
            }
        }
    }
}

/// Where the scan stopped, the remaining entries all lie at or above the
/// inserted value and differ from it: either the scan ran out, or it
/// stopped at an entry that is not below the value, and strict sortedness
/// carries that to every later entry.
proof fn lemma_str_le_total(views: Seq<Seq<char>>, item: Seq<char>, pos: int)
    requires
        0 <= pos <= views.len(),
        forall|a: int, b: int|
            0 <= a < b < views.len() ==> spec_str_le(#[trigger] views[a], #[trigger] views[b])
                && views[a] != views[b],
        pos < views.len() ==> !(spec_str_le(views[pos], item) && views[pos] != item),
        pos < views.len() ==> views[pos] != item,
    ensures
        forall|j: int| pos <= j < views.len() ==> spec_str_le(item, #[trigger] views[j])
            && views[j] != item,
{
    if pos < views.len() {
        lemma_str_le_connex(views[pos], item);
        assert(spec_str_le(item, views[pos]));
        assert forall|j: int| pos <= j < views.len() implies spec_str_le(item, #[trigger] views[j])
            && views[j] != item by {
            if j > pos {
                lemma_str_le_trans(item, views[pos], views[j]);
                if views[j] == item {
                    lemma_str_le_antisym(views[pos], views[j]);
                }
            }
        }
    }
}

/// One of two sequences is always at or below the other.
proof fn lemma_str_le_connex(a: Seq<char>, b: Seq<char>)
    ensures
        spec_str_le(a, b) || spec_str_le(b, a),
    decreases a.len(),
{
    if a.len() > 0 && b.len() > 0 && a[0] == b[0] {
        lemma_str_le_connex(a.skip(1), b.skip(1));
    }
}

/// The order is transitive.
proof fn lemma_str_le_trans(a: Seq<char>, b: Seq<char>, c: Seq<char>)
    requires
        spec_str_le(a, b),
        spec_str_le(b, c),
    ensures
        spec_str_le(a, c),
    decreases a.len(),
{
    if a.len() > 0 && b.len() > 0 && c.len() > 0 && a[0] == b[0] && b[0] == c[0] {
        lemma_str_le_trans(a.skip(1), b.skip(1), c.skip(1));
    }
}

/// The order is antisymmetric.
proof fn lemma_str_le_antisym(a: Seq<char>, b: Seq<char>)
    requires
        spec_str_le(a, b),
        spec_str_le(b, a),
    ensures
        a == b,
    decreases a.len(),
{
    if a.len() > 0 && b.len() > 0 && a[0] == b[0] {
        lemma_str_le_antisym(a.skip(1), b.skip(1));
        assert(a =~= seq![a[0]] + a.skip(1));
        assert(b =~= seq![b[0]] + b.skip(1));
    } else {
        if a.len() == 0 {
            assert(b.len() == 0);
            assert(a =~= b);
        }
    }
}

/// One character of a removal target, quoted: backslashes and double
/// quotes gain a backslash, everything else stands as it is.
pub open spec fn spec_escaped_char(c: char) -> Seq<char> {
    if c == '\\' {
        seq!['\\', '\\']
    } else if c == '"' {
        seq!['\\', '"']
    } else {
        seq![c]
    }
}

/// A removal target, escaped character by character.
pub open spec fn spec_escaped(s: Seq<char>) -> Seq<char>
    decreases s.len(),
{
    if s.len() == 0 {
        Seq::empty()
    } else {
        spec_escaped_char(s[0]) + spec_escaped(s.skip(1))
    }
}

proof fn lemma_escaped_push(s: Seq<char>, c: char)
    ensures
        spec_escaped(s.push(c)) == spec_escaped(s) + spec_escaped_char(c),
    decreases s.len(),
{
    if s.len() == 0 {
        let p = s.push(c);
        assert(p =~= seq![c]);
        assert(p[0] == c);
        assert(p.skip(1) =~= Seq::<char>::empty());
        assert(spec_escaped(p.skip(1)) == Seq::<char>::empty());
        assert(spec_escaped(p) == spec_escaped_char(c) + spec_escaped(p.skip(1)));
        assert(spec_escaped_char(c) + Seq::<char>::empty() =~= spec_escaped_char(c));
        assert(spec_escaped(s) + spec_escaped_char(c) =~= spec_escaped_char(c));
    } else {
        assert(s.push(c).skip(1) =~= s.skip(1).push(c));
        lemma_escaped_push(s.skip(1), c);
        assert(spec_escaped_char(s[0]) + (spec_escaped(s.skip(1)) + spec_escaped_char(c))
            =~= (spec_escaped_char(s[0]) + spec_escaped(s.skip(1))) + spec_escaped_char(c));
    }
}

/// A removal target wrapped in double quotes with its backslashes and
/// quotes escaped, the way the scrub command cites each path. Control
/// characters are left as they stand; the paths this is used on carry
/// none.
pub open spec fn spec_quoted(s: Seq<char>) -> Seq<char> {
    seq!['"'] + spec_escaped(s) + seq!['"']
}

/// Quotes one removal target, as `spec_quoted` describes.
pub fn quote_target(s: &str) -> (r: String)
    ensures
        r@ == spec_quoted(s@),
{
    let m = s.unicode_len();
    let mut r = "\"".to_owned();
    let mut i: usize = 0;
    proof {
        reveal_strlit("\"");
        assert(s@.take(0) =~= Seq::<char>::empty());
        assert(r@ =~= seq!['"'] + spec_escaped(s@.take(0)));
    }
    while i < m
        invariant
            0 <= i <= m == s@.len(),
            r@ == seq!['"'] + spec_escaped(s@.take(i as int)),
        decreases m - i,
    {
        let c = s.get_char(i);
        if c == '\\' {
            r.append("\\\\");
            proof {
                reveal_strlit("\\\\");
            }
        } else if c == '"' {
            r.append("\\\"");
            proof {
                reveal_strlit("\\\"");
            }
        } else {
            let piece = s.substring_char(i, i + 1);
            r.append(piece);
            proof {
                assert(piece@ =~= seq![s@[i as int]]);
            }
        }
        proof {
            lemma_escaped_push(s@.take(i as int), s@[i as int]);
            assert(s@.take(i + 1) =~= s@.take(i as int).push(s@[i as int]));
            assert(r@ =~= seq!['"'] + spec_escaped(s@.take(i + 1)));
        }
        i += 1;
    }
    proof {
        assert(s@.take(m as int) =~= s@);
    }
    r.append("\"");
    proof {
        reveal_strlit("\"");
        assert(r@ =~= spec_quoted(s@));
    }
    r
}

/// The quoted targets, each preceded by one space.
pub open spec fn spec_spaced_quoted(targets: Seq<Seq<char>>) -> Seq<char>
    decreases targets.len(),
{
    if targets.len() == 0 {
        Seq::empty()
    } else {
        seq![' '] + spec_quoted(targets[0]) + spec_spaced_quoted(targets.skip(1))
    }
}

proof fn lemma_spaced_quoted_push(targets: Seq<Seq<char>>, x: Seq<char>)
    ensures
        spec_spaced_quoted(targets.push(x)) == spec_spaced_quoted(targets) + seq![' ']
            + spec_quoted(x),
    decreases targets.len(),
{
    if targets.len() == 0 {
        let p = targets.push(x);
        assert(p =~= seq![x]);
        assert(p[0] == x);
        assert(p.skip(1) =~= Seq::<Seq<char>>::empty());
        assert(spec_spaced_quoted(p.skip(1)) == Seq::<char>::empty());
        assert(spec_spaced_quoted(p) == seq![' '] + spec_quoted(x) + spec_spaced_quoted(
            p.skip(1),
        ));
        assert(seq![' '] + spec_quoted(x) + Seq::<char>::empty() =~= seq![' '] + spec_quoted(x));
        assert(spec_spaced_quoted(targets) + seq![' '] + spec_quoted(x) =~= seq![' ']
            + spec_quoted(x));
    } else {
        assert(targets.push(x).skip(1) =~= targets.skip(1).push(x));
        lemma_spaced_quoted_push(targets.skip(1), x);
        assert(seq![' '] + spec_quoted(targets[0]) + (spec_spaced_quoted(targets.skip(1))
            + seq![' '] + spec_quoted(x)) =~= (seq![' '] + spec_quoted(targets[0])
            + spec_spaced_quoted(targets.skip(1))) + seq![' '] + spec_quoted(x));
    }
}

/// The shell text that scrubs the temporary build file copies: a forced
/// remove of every quoted target.
pub fn removal_command(targets: &Vec<String>) -> (r: String)
    ensures
        r@ == "rm -f --"@ + spec_spaced_quoted(views_of(targets@)),
{
    let mut r = "rm -f --".to_owned();
    let mut i: usize = 0;
    proof {
        assert(views_of(targets@).take(0) =~= Seq::<Seq<char>>::empty());
        assert(r@ =~= "rm -f --"@ + spec_spaced_quoted(views_of(targets@).take(0)));
    }
    while i < targets.len()
        invariant
            0 <= i <= targets@.len(),
            r@ == "rm -f --"@ + spec_spaced_quoted(views_of(targets@).take(i as int)),
        decreases targets@.len() - i,
    {
        r.append(" ");
        let quoted = quote_target(targets[i].as_str());
        r.append(quoted.as_str());
        proof {
            reveal_strlit(" ");
            assert(" "@ =~= seq![' ']);
            lemma_spaced_quoted_push(
                views_of(targets@).take(i as int),
                views_of(targets@)[i as int],
            );
            assert(views_of(targets@).take(i + 1) =~= views_of(targets@).take(i as int).push(
                views_of(targets@)[i as int],
            ));
            assert(r@ =~= "rm -f --"@ + spec_spaced_quoted(views_of(targets@).take(i + 1)));
        }
        i += 1;
    }
    proof {
        assert(views_of(targets@).take(targets@.len() as int) =~= views_of(targets@));
    }
    r
}

/// A path with its trailing separators removed.
pub open spec fn spec_strip_trailing_slashes(p: Seq<char>) -> Seq<char>
    decreases p.len(),
{
    if p.len() > 0 && p.last() == '/' {
        spec_strip_trailing_slashes(p.drop_last())
    } else {
        p
    }
}

/// The index of the last separator of `t`, or `-1` when it has none.
pub open spec fn spec_last_slash(t: Seq<char>) -> int
    decreases t.len(),
{
    if t.len() == 0 {
        -1
    } else if t.last() == '/' {
        t.len() - 1
    } else {
        spec_last_slash(t.drop_last())
    }
}

/// The parent directory of a path, under this crate's path model: trailing
/// separators are dropped first; a path that is then empty has no parent; a
/// bare name's parent is the empty path; a child of the root keeps the root;
/// anything else loses its last segment.
pub open spec fn spec_parent_dir(p: Seq<char>) -> Option<Seq<char>> {
    let t = spec_strip_trailing_slashes(p);
    if t.len() == 0 {
        None
    } else {
        let i = spec_last_slash(t);
        if i == -1 {
            Some(Seq::empty())
        } else if i == 0 {
            Some(seq!['/'])
        } else {
            Some(t.take(i))
        }
    }
}

proof fn lemma_strip_trailing_slashes_is(p: Seq<char>, k: int)
    requires
        0 <= k <= p.len(),
        forall|j: int| k <= j < p.len() ==> p[j] == '/',
        k > 0 ==> p[k - 1] != '/',
    ensures
        spec_strip_trailing_slashes(p) == p.take(k),
    decreases p.len(),
{
    if p.len() > 0 && p.last() == '/' {
        assert(k < p.len());
        assert forall|j: int| k <= j < p.drop_last().len() implies p.drop_last()[j] == '/' by {
            assert(p.drop_last()[j] == p[j]);
        }
        if k > 0 {
            assert(p.drop_last()[k - 1] == p[k - 1]);
        }
        lemma_strip_trailing_slashes_is(p.drop_last(), k);
        assert(p.drop_last().take(k) =~= p.take(k));
    } else {
        assert(k == p.len());
        assert(p.take(k) =~= p);
    }
}

proof fn lemma_last_slash_is(t: Seq<char>, i: int)
    requires
        -1 <= i < t.len(),
        i >= 0 ==> t[i] == '/',
        forall|j: int| i < j < t.len() ==> t[j] != '/',
    ensures
        spec_last_slash(t) == i,
    decreases t.len(),
{
    if t.len() == 0 {
    } else if t.last() == '/' {
        assert(i == t.len() - 1);
    } else {
        assert(i < t.len() - 1);
        assert forall|j: int| i < j < t.drop_last().len() implies t.drop_last()[j] != '/' by {
            assert(t.drop_last()[j] == t[j]);
        }
        if i >= 0 {
            assert(t.drop_last()[i] == t[i]);
        }
        lemma_last_slash_is(t.drop_last(), i);
    }
}

/// Computes the parent directory, as `spec_parent_dir` describes.
pub fn parent_dir(p: &str) -> (r: Option<String>)
    ensures
        r is Some <==> spec_parent_dir(p@) is Some,
        r matches Some(parent) ==> spec_parent_dir(p@) == Some(parent@),
{
    let m = p.unicode_len();
    let mut end: usize = m;
    while end > 0
        invariant_except_break
            0 <= end <= m == p@.len(),
            forall|j: int| end <= j < m ==> p@[j] == '/',
        ensures
            0 <= end <= m == p@.len(),
            forall|j: int| end <= j < m ==> p@[j] == '/',
            end > 0 ==> p@[end - 1] != '/',
        decreases end,
    {
        if p.get_char(end - 1) != '/' {
            break;
        }
        end -= 1;
    }
    proof {
        lemma_strip_trailing_slashes_is(p@, end as int);
    }
    if end == 0 {
        return None;
    }
    let trimmed = p.substring_char(0, end);
    let ghost t = p@.take(end as int);
    let mut idx: usize = end;
    while idx > 0
        invariant_except_break
            0 <= idx <= end,
            t == p@.take(end as int),
            end <= p@.len(),
            trimmed@ == t,
            forall|j: int| idx <= j < end ==> t[j] != '/',
        ensures
            0 <= idx <= end,
            t == p@.take(end as int),
            end <= p@.len(),
            trimmed@ == t,
            forall|j: int| idx <= j < end ==> t[j] != '/',
            idx > 0 ==> t[idx - 1] == '/',
        decreases idx,
    {
        if trimmed.get_char(idx - 1) == '/' {
            break;
        }
        idx -= 1;
    }
    proof {
        lemma_last_slash_is(t, idx - 1);
    }
    if idx == 0 {
        Some(String::new())
    } else if idx == 1 {
        proof {
            reveal_strlit("/");
            assert("/"@ =~= seq!['/']);
        }
        Some("/".to_owned())
    } else {
        let parent = trimmed.substring_char(0, idx - 1);
        proof {
            assert(t.take(idx - 1) =~= p@.take(end as int).subrange(0, idx - 1));
        }
        Some(parent.to_owned())
    }
}

} // verus!
