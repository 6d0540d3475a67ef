//! The in-container shell service's decision core: background-command
//! detection, shebang dispatch, the exact process invocation for each kind of
//! request, environment policy, and response assembly.
//!
//! The unverified server around this module performs the process spawn, pipe
//! draining and timer race that these decisions call for.
use vstd::prelude::*;

use crate::text::{
    join_lines, lemma_views_of_push, spec_join_lines, spec_split_lines, spec_split_whitespace,
    spec_starts_with, spec_trim, spec_trim_end, split_lines, split_whitespace, starts_with, trim,
    trim_end, views_of,
};

verus! {

/// A shell-execution response, as carried by the wire protocol.
pub struct ShellResponse {
    pub exit_code: i32,
    pub stdout: String,
    pub stderr: String,
}

/// The shell-execution service.
pub struct MyShellExecutor;

/// A command is a background job when, after trailing white space is
/// removed, it ends in `&` and that `&` is not escaped by a backslash.
pub open spec fn spec_is_background(cmd: Seq<char>) -> bool {
    let t = spec_trim_end(cmd);
    t.len() >= 1 && t.last() == '&' && !(t.len() >= 2 && t[t.len() - 2] == '\\')
}

/// Decides `spec_is_background`.
pub fn is_background(cmd: &str) -> (r: bool)
    ensures
        r == spec_is_background(cmd@),
{
    let t = trim_end(cmd);
    let n = t.as_str().unicode_len();
    if n == 0 {
        return false;
    }
    if t.as_str().get_char(n - 1) != '&' {
        return false;
    }
    !(n >= 2 && t.as_str().get_char(n - 2) == '\\')
}

/// A line begins with the two shebang marker characters.
pub open spec fn spec_has_shebang_mark(l: Seq<char>) -> bool {
    l.len() >= 2 && l[0] == '#' && l[1] == '!'
}

/// The line with every leading `#!` pair removed, as the shebang
/// interpreter extraction does.
pub open spec fn spec_strip_shebang_marks(l: Seq<char>) -> Seq<char>
    decreases l.len(),
{
    if spec_has_shebang_mark(l) {
        spec_strip_shebang_marks(l.skip(2))
    } else {
        l
    }
}

fn strip_shebang_marks(l: &str) -> (r: String)
    ensures
        r@ == spec_strip_shebang_marks(l@),
{
    let m = l.unicode_len();
    let mut off: usize = 0;
    proof {
        assert(l@.skip(0) =~= l@);
    }
    while m - off >= 2 && l.get_char(off) == '#' && l.get_char(off + 1) == '!'
        invariant
            0 <= off <= m == l@.len(),
            spec_strip_shebang_marks(l@) == spec_strip_shebang_marks(l@.skip(off as int)),
        decreases m - off,
    {
        proof {
            let tail = l@.skip(off as int);
            assert(tail[0] == l@[off as int] && tail[1] == l@[off + 1]);
            assert(spec_has_shebang_mark(tail));
            assert(tail.skip(2) =~= l@.skip(off + 2));
        }
        off += 2;
    }
    proof {
        let tail = l@.skip(off as int);
        if tail.len() >= 2 {
            assert(tail[0] == l@[off as int]);
            assert(tail[1] == l@[off + 1]);
        }
        assert(!spec_has_shebang_mark(tail));
    }
    l.substring_char(off, m).to_owned()
}

/// The command is a shebang script: its first line begins with `#!`.
pub open spec fn spec_is_script(cmd: Seq<char>) -> bool {
    spec_split_lines(cmd).len() > 0 && spec_starts_with(spec_split_lines(cmd)[0], "#!"@)
}

/// The words of the first line after the `#!` markers: the interpreter
/// followed by its arguments.
pub open spec fn spec_script_tokens(cmd: Seq<char>) -> Seq<Seq<char>> {
    spec_split_whitespace(spec_trim(spec_strip_shebang_marks(spec_split_lines(cmd)[0])))
}

/// The interpreter named by the shebang line, or empty if it names none.
pub open spec fn spec_interpreter(cmd: Seq<char>) -> Seq<char> {
    if spec_script_tokens(cmd).len() > 0 {
        spec_script_tokens(cmd)[0]
    } else {
        Seq::empty()
    }
}

/// The arguments following the interpreter on the shebang line.
pub open spec fn spec_script_args(cmd: Seq<char>) -> Seq<Seq<char>> {
    if spec_script_tokens(cmd).len() >= 1 {
        spec_script_tokens(cmd).skip(1)
    } else {
        Seq::empty()
    }
}

/// The script body: every line after the shebang line, joined back.
pub open spec fn spec_script_body(cmd: Seq<char>) -> Seq<char> {
    spec_join_lines(spec_split_lines(cmd).skip(1))
}

/// The exact process invocation the service performs for a request.
pub struct Invocation {
    /// The program to spawn: `/bin/bash` when the image has it, else `sh`.
    pub program: String,
    /// Its arguments.
    pub args: Vec<String>,
    /// A program body to feed the child on standard input, for shebang
    /// scripts; the other paths leave standard input null.
    pub stdin_body: Option<String>,
    /// Spawn detached with null standard streams and do not wait.
    pub background: bool,
}

impl MyShellExecutor {
    /// Computes the invocation for a command.
    ///
    /// A background command runs whole under `-c`, detached. A shebang
    /// script re-invokes its interpreter through a login shell (so profile
    /// files are honored) with the body piped to standard input. Anything
    /// else runs whole under `-c` of a login shell.
    pub fn build_invocation(&self, command: &str, has_bash: bool) -> (inv: Invocation)
        ensures
            inv.background == spec_is_background(command@),
            inv.program@ == if has_bash {
                "/bin/bash"@
            } else {
                "sh"@
            },
            inv.background ==> views_of(inv.args@) == (if has_bash {
                seq!["--login"@, "-c"@, command@]
            } else {
                seq!["-c"@, command@]
            }) && inv.stdin_body is None,
            !inv.background && spec_is_script(command@) ==> views_of(inv.args@) == (if has_bash {
                seq!["--login"@, "-c"@, "exec \"$@\""@, "bash"@]
            } else {
                seq!["-l"@, "-c"@, "exec \"$@\""@, "sh"@]
            }) + seq![spec_interpreter(command@)] + spec_script_args(command@) && (
            inv.stdin_body matches Some(b) && b@ == spec_script_body(command@)),
            !inv.background && !spec_is_script(command@) ==> views_of(inv.args@) == (if has_bash {
                seq!["--login"@, "-c"@, command@]
            } else {
                seq!["-c"@, command@]
            }) && inv.stdin_body is None,
    {
        let program = if has_bash {
            "/bin/bash".to_owned()
        } else {
            "sh".to_owned()
        };
        if is_background(command) {
            let mut args: Vec<String> = Vec::new();
            if has_bash {
                args.push("--login".to_owned());
            }
            args.push("-c".to_owned());
            args.push(command.to_owned());
            proof {
                if has_bash {
                    assert(views_of(args@) =~~= seq!["--login"@, "-c"@, command@]);
                } else {
                    assert(views_of(args@) =~~= seq!["-c"@, command@]);
                }
            }
            return Invocation { program, args, stdin_body: None, background: true };
        }
        let lines = split_lines(command);
        if lines.len() > 0 && starts_with(lines[0].as_str(), "#!") {
            let stripped = strip_shebang_marks(lines[0].as_str());
            let shebang = trim(stripped.as_str());
            let tokens = split_whitespace(shebang.as_str());

            let mut args: Vec<String> = Vec::new();
            if has_bash {
                args.push("--login".to_owned());
                args.push("-c".to_owned());
                args.push("exec \"$@\"".to_owned());
                args.push("bash".to_owned());
            } else {
                args.push("-l".to_owned());
                args.push("-c".to_owned());
                args.push("exec \"$@\"".to_owned());
                args.push("sh".to_owned());
            }
            let ghost head = views_of(args@);
            proof {
                if has_bash {
                    assert(head =~~= seq!["--login"@, "-c"@, "exec \"$@\""@, "bash"@]);
                } else {
                    assert(head =~~= seq!["-l"@, "-c"@, "exec \"$@\""@, "sh"@]);
                }
            }
            if tokens.len() == 0 {
                args.push(String::new());
                proof {
                    assert(views_of(args@) =~~= head + seq![spec_interpreter(command@)]
                        + spec_script_args(command@));
                }
            } else {
                args.push(tokens[0].clone());
                let mut t: usize = 1;
                proof {
                    assert(views_of(args@) =~~= head + seq![spec_interpreter(command@)]
                        + views_of(tokens@).subrange(1, 1));
                }
                while t < tokens.len()
                    invariant
                        1 <= t <= tokens@.len(),
                        views_of(tokens@) == spec_script_tokens(command@),
                        views_of(args@) == head + seq![spec_interpreter(command@)] + views_of(
                            tokens@,
                        ).subrange(1, t as int),
                    decreases tokens@.len() - t,
                {
                    let ghost old_args = args@;
                    args.push(tokens[t].clone());
                    proof {
                        lemma_views_of_push(old_args, args@[args@.len() - 1]);
                        assert(views_of(args@) =~~= head + seq![spec_interpreter(command@)]
                            + views_of(tokens@).subrange(1, t + 1));
                    }
                    t += 1;
                }
                proof {
                    assert(views_of(tokens@).subrange(1, t as int) =~~= spec_script_args(
                        command@,
                    ));
                }
            }

            let mut body_lines: Vec<String> = Vec::new();
            let mut bl: usize = 1;
            proof {
                assert(views_of(body_lines@) =~~= views_of(lines@).subrange(1, 1));
            }
            while bl < lines.len()
                invariant
                    1 <= bl <= lines@.len(),
                    views_of(lines@) == spec_split_lines(command@),
                    views_of(body_lines@) == views_of(lines@).subrange(1, bl as int),
                decreases lines@.len() - bl,
            {
                let ghost old_body = body_lines@;
                body_lines.push(lines[bl].clone());
                proof {
                    lemma_views_of_push(old_body, body_lines@[body_lines@.len() - 1]);
                    assert(views_of(body_lines@) =~~= views_of(lines@).subrange(1, bl + 1));
                }
                bl += 1;
            }
            let body = join_lines(&body_lines);
            proof {
                assert(views_of(body_lines@) =~~= views_of(lines@).skip(1));
            }
            return Invocation { program, args, stdin_body: Some(body), background: false };
        }
        let mut args: Vec<String> = Vec::new();
        if has_bash {
            args.push("--login".to_owned());
        }
        args.push("-c".to_owned());
        args.push(command.to_owned());
        proof {
            if has_bash {
                assert(views_of(args@) =~~= seq!["--login"@, "-c"@, command@]);
            } else {
                assert(views_of(args@) =~~= seq!["-c"@, command@]);
            }
        }
        Invocation { program, args, stdin_body: None, background: false }
    }
}

/// Merged command output: stdout and stderr joined by one line break when
/// both are non-empty, else whichever is non-empty, else empty.
pub open spec fn spec_merge_output(stdout: Seq<char>, stderr: Seq<char>) -> Seq<char> {
    if stdout.len() == 0 && stderr.len() == 0 {
        Seq::empty()
    } else if stderr.len() == 0 {
        stdout
    } else if stdout.len() == 0 {
        stderr
    } else {
        stdout + seq!['\n'] + stderr
    }
}

/// Merges captured stdout and stderr, as `spec_merge_output` describes.
pub fn merge_output(stdout: &str, stderr: &str) -> (r: String)
    ensures
        r@ == spec_merge_output(stdout@, stderr@),
{
    let out_empty = stdout.unicode_len() == 0;
    let err_empty = stderr.unicode_len() == 0;
    if out_empty && err_empty {
        String::new()
    } else if err_empty {
        stdout.to_owned()
    } else if out_empty {
        stderr.to_owned()
    } else {
        let mut r = stdout.to_owned();
        r.append("\n");
        r.append(stderr);
        proof {
            reveal_strlit("\n");
            assert("\n"@ =~= seq!['\n']);
            assert(r@ =~= stdout@ + seq!['\n'] + stderr@);
        }
        r
    }
}

/// The fixed response for a successfully spawned background command: the
/// spawn is confirmed, nothing is promised of the job itself.
pub fn background_started_response() -> (r: ShellResponse)
    ensures
        r.exit_code == 0,
        r.stdout@ == "Background command started"@,
        r.stderr@.len() == 0,
{
    ShellResponse {
        exit_code: 0,
        stdout: "Background command started".to_owned(),
        stderr: String::new(),
    }
}

/// The value of `name` in an environment list, later entries shadowing
/// earlier ones; `None` when the list does not bind the name.
pub open spec fn spec_env_lookup(env: Seq<(String, String)>, name: Seq<char>) -> Option<Seq<char>>
    decreases env.len(),
{
    if env.len() == 0 {
        None
    } else if env.last().0@ == name {
        Some(env.last().1@)
    } else {
        spec_env_lookup(env.drop_last(), name)
    }
}

/// `name` occurs in a list of variable names.
pub open spec fn spec_has_name(names: Seq<String>, name: Seq<char>) -> bool {
    exists|i: int| 0 <= i < names.len() && names[i]@ == name
}

/// What the child environment binds `name` to after the policy is applied:
/// explicitly set variables win, then removals, then the clear flag, then
/// inheritance.
pub open spec fn spec_env_after_policy(
    inherited: Seq<(String, String)>,
    env_clear: bool,
    env_remove: Seq<String>,
    envs: Seq<(String, String)>,
    name: Seq<char>,
) -> Option<Seq<char>> {
    if spec_env_lookup(envs, name) is Some {
        spec_env_lookup(envs, name)
    } else if spec_has_name(env_remove, name) {
        None
    } else if env_clear {
        None
    } else {
        spec_env_lookup(inherited, name)
    }
}

proof fn lemma_env_lookup_push(env: Seq<(String, String)>, p: (String, String), name: Seq<char>)
    ensures
        spec_env_lookup(env.push(p), name) == if p.0@ == name {
            Some(p.1@)
        } else {
            spec_env_lookup(env, name)
        },
{
    assert(env.push(p).drop_last() =~= env);
}

fn name_in(names: &Vec<String>, name: &String) -> (r: bool)
    ensures
        r == spec_has_name(names@, name@),
{
    let mut i: usize = 0;
    while i < names.len()
        invariant
            0 <= i <= names@.len(),
            forall|j: int| 0 <= j < i ==> #[trigger] names@[j]@ != name@,
        decreases names@.len() - i,
    {
        if names[i] == *name {
            return true;
        }
        i += 1;
    }
    false
}

/// Applies the environment policy: starts from the inherited environment
/// (or none, when clearing), drops the removed names, then appends the
/// explicitly set variables, which shadow everything before them.
pub fn apply_env_settings(
    inherited: &Vec<(String, String)>,
    env_clear: bool,
    env_remove: &Vec<String>,
    envs: &Vec<(String, String)>,
) -> (r: Vec<(String, String)>)
    ensures
        forall|name: Seq<char>| #[trigger]
            spec_env_lookup(r@, name) == spec_env_after_policy(
                inherited@,
                env_clear,
                env_remove@,
                envs@,
                name,
            ),
{
    let mut out: Vec<(String, String)> = Vec::new();
    if !env_clear {
        let mut i: usize = 0;
        proof {
            assert(inherited@.take(0) =~= Seq::<(String, String)>::empty());
        }
        while i < inherited.len()
            invariant
                0 <= i <= inherited@.len(),
                forall|name: Seq<char>| #[trigger]
                    spec_env_lookup(out@, name) == if spec_has_name(env_remove@, name) {
                        None
                    } else {
                        spec_env_lookup(inherited@.take(i as int), name)
                    },
            decreases inherited@.len() - i,
        {
            let pair = &inherited[i];
            let keep = !name_in(env_remove, &pair.0);
            let ghost old_out = out@;
            if keep {
                out.push((pair.0.clone(), pair.1.clone()));
            }
            proof {
                let prev = inherited@.take(i as int);
                let next = inherited@.take(i + 1);
                assert(next =~= prev.push(inherited@[i as int]));
                assert forall|name: Seq<char>| #[trigger] spec_env_lookup(out@, name)
                    == (if spec_has_name(env_remove@, name) {
                    None
                } else {
                    spec_env_lookup(next, name)
                }) by {
                    lemma_env_lookup_push(prev, inherited@[i as int], name);
                    if keep {
                        lemma_env_lookup_push(old_out, out@.last(), name);
                        assert(old_out.push(out@.last()) =~= out@);
                    }
                }
            }
            i += 1;
        }
        proof {
            assert(inherited@.take(inherited@.len() as int) =~= inherited@);
        }
    }
    let ghost base = out@;
    let mut k: usize = 0;
    proof {
        assert(envs@.take(0) =~= Seq::<(String, String)>::empty());
    }
    while k < envs.len()
        invariant
            0 <= k <= envs@.len(),
            forall|name: Seq<char>| #[trigger]
                spec_env_lookup(out@, name) == if spec_env_lookup(
                    envs@.take(k as int),
                    name,
                ) is Some {
                    spec_env_lookup(envs@.take(k as int), name)
                } else {
                    spec_env_lookup(base, name)
                },
        decreases envs@.len() - k,
    {
        let pair = &envs[k];
        let ghost old_out = out@;
        out.push((pair.0.clone(), pair.1.clone()));
        proof {
            let prev = envs@.take(k as int);
            let next = envs@.take(k + 1);
            assert(next =~= prev.push(envs@[k as int]));
            assert forall|name: Seq<char>| #[trigger] spec_env_lookup(out@, name)
                == (if spec_env_lookup(next, name) is Some {
                spec_env_lookup(next, name)
            } else {
                spec_env_lookup(base, name)
            }) by {
                lemma_env_lookup_push(prev, envs@[k as int], name);
                lemma_env_lookup_push(old_out, out@.last(), name);
                assert(old_out.push(out@.last()) =~= out@);
            }
        }
        k += 1;
    }
    proof {
        assert(envs@.take(envs@.len() as int) =~= envs@);
    }
    out
}

/// Law: with environment clearing on, a variable that is not explicitly set
/// is absent from the child environment, whatever was inherited.
pub proof fn lemma_env_clearing(
    inherited: Seq<(String, String)>,
    env_remove: Seq<String>,
    envs: Seq<(String, String)>,
    name: Seq<char>,
)
    requires
        spec_env_lookup(envs, name) is None,
    ensures
        spec_env_after_policy(inherited, true, env_remove, envs, name) is None,
{
}

/// Law: removal is selective. A removed name that is not explicitly set is
/// absent; any other variable keeps its inherited value.
pub proof fn lemma_env_removal_is_selective(
    inherited: Seq<(String, String)>,
    env_remove: Seq<String>,
    envs: Seq<(String, String)>,
    name: Seq<char>,
)
    requires
        spec_env_lookup(envs, name) is None,
    ensures
        spec_has_name(env_remove, name) ==> spec_env_after_policy(
            inherited,
            false,
            env_remove,
            envs,
            name,
        ) is None,
        !spec_has_name(env_remove, name) ==> spec_env_after_policy(
            inherited,
            false,
            env_remove,
            envs,
            name,
        ) == spec_env_lookup(inherited, name),
{
}

/// Law: an explicitly set variable is present with its set value, whatever
/// the clear flag and removal list say; variables it does not touch keep
/// their inherited values when neither removed nor cleared.
pub proof fn lemma_env_addition(
    inherited: Seq<(String, String)>,
    env_clear: bool,
    env_remove: Seq<String>,
    envs: Seq<(String, String)>,
    name: Seq<char>,
)
    ensures
        spec_env_lookup(envs, name) is Some ==> spec_env_after_policy(
            inherited,
            env_clear,
            env_remove,
            envs,
            name,
        ) == spec_env_lookup(envs, name),
        spec_env_lookup(envs, name) is None && !spec_has_name(env_remove, name) && !env_clear
            ==> spec_env_after_policy(inherited, env_clear, env_remove, envs, name)
            == spec_env_lookup(inherited, name),
{
}

/// The decimal digit character for `d`.
pub open spec fn spec_digit_char(d: nat) -> char {
    ((0x30 + d) as char)
}

/// The decimal rendering of `n`, most significant digit first.
pub open spec fn spec_u64_string(n: nat) -> Seq<char>
    decreases n,
{
    if n < 10 {
        seq![spec_digit_char(n)]
    } else {
        spec_u64_string(n / 10).push(spec_digit_char(n % 10))
    }
}

fn append_digit(s: &mut String, d: u64)
    requires
        d < 10,
    ensures
        final(s)@ == old(s)@.push(spec_digit_char(d as nat)),
{
    proof {
        reveal_strlit("0");
        reveal_strlit("1");
        reveal_strlit("2");
        reveal_strlit("3");
        reveal_strlit("4");
        reveal_strlit("5");
        reveal_strlit("6");
        reveal_strlit("7");
        reveal_strlit("8");
        reveal_strlit("9");
    }
    let ghost prev = s@;
    if d == 0 {
        s.append("0");
    } else if d == 1 {
        s.append("1");
    } else if d == 2 {
        s.append("2");
    } else if d == 3 {
        s.append("3");
    } else if d == 4 {
        s.append("4");
    } else if d == 5 {
        s.append("5");
    } else if d == 6 {
        s.append("6");
    } else if d == 7 {
        s.append("7");
    } else if d == 8 {
        s.append("8");
    } else {
        s.append("9");
    }
    proof {
        assert(s@ =~= prev.push(spec_digit_char(d as nat)));
    }
}

/// Renders `n` in decimal.
pub fn u64_to_string(n: u64) -> (r: String)
    ensures
        r@ == spec_u64_string(n as nat),
    decreases n,
{
    if n < 10 {
        let mut s = String::new();
        append_digit(&mut s, n);
        proof {
            assert(s@ =~= seq![spec_digit_char(n as nat)]);
        }
        s
    } else {
        let mut s = u64_to_string(n / 10);
        append_digit(&mut s, n % 10);
        s
    }
}

/// The deadline-exceeded status message: names the configured limit in
/// milliseconds and carries whatever partial output was captured.
pub open spec fn spec_timeout_message(limit_ms: nat, partial: Seq<char>) -> Seq<char> {
    if partial.len() == 0 {
        "Command timed out after "@ + spec_u64_string(limit_ms) + "ms"@
    } else {
        "Command timed out after "@ + spec_u64_string(limit_ms) + "ms: "@ + partial
    }
}

/// Builds the deadline-exceeded message, as `spec_timeout_message`
/// describes.
pub fn timeout_message(limit_ms: u64, partial: &str) -> (r: String)
    ensures
        r@ == spec_timeout_message(limit_ms as nat, partial@),
{
    let mut r = "Command timed out after ".to_owned();
    let digits = u64_to_string(limit_ms);
    r.append(digits.as_str());
    if partial.unicode_len() == 0 {
        r.append("ms");
    } else {
        r.append("ms: ");
        r.append(partial);
    }
    r
}

/// Assembles the response for a command that ran to completion: its exit
/// code, or `-1` when the platform reports none, and the captured output
/// lines of each stream joined by line breaks.
pub fn assemble_response(
    exit_code: Option<i32>,
    stdout_lines: &Vec<String>,
    stderr_lines: &Vec<String>,
) -> (r: ShellResponse)
    ensures
        r.exit_code == match exit_code {
            Some(c) => c,
            None => -1i32,
        },
        r.stdout@ == spec_join_lines(views_of(stdout_lines@)),
        r.stderr@ == spec_join_lines(views_of(stderr_lines@)),
{
    let code = match exit_code {
        Some(c) => c,
        None => -1,
    };
    ShellResponse {
        exit_code: code,
        stdout: join_lines(stdout_lines),
        stderr: join_lines(stderr_lines),
    }
}

} // verus!
