//! The sandbox driver: the one place that knows the `isolate` command
//! syntax.
//!
//! Everything here is computation: building argument vectors, sink-file
//! paths, script names and contents, and the registry of live boxes.  The
//! commands themselves are spawned outside the library, which receives the
//! box id, the captured output, and the metadata file back as plain bytes.

use vstd::prelude::*;
use std::collections::HashMap;
use rand::Rng;
use crate::bytes::{
    ascii_bytes, dec_digits, push_all, str_bytes, sub_bytes, trim_ascii, trim_spec,
    u64_to_dec,
};
use crate::metadata::IsolateMetadata;
use crate::options::{env_entries, EnvList, IsolatedBoxOptions};

verus! {

broadcast use vstd::std_specs::hash::group_hash_axioms;

/// The views of a vector of argument tokens.
pub open spec fn token_views(s: Seq<Vec<u8>>) -> Seq<Seq<u8>> {
    s.map(|_i: int, v: Vec<u8>| v@)
}

/// `s` with `\` and `"` escaped, as `isolate`'s `-E` arguments need.
pub open spec fn escaped(s: Seq<u8>) -> Seq<u8>
    decreases s.len(),
{
    if s.len() == 0 {
        Seq::empty()
    } else {
        escaped(s.drop_last()) + (if s.last() == 92 {
            seq![92u8, 92u8]
        } else if s.last() == 34 {
            seq![92u8, 34u8]
        } else {
            seq![s.last()]
        })
    }
}

/// One user-supplied environment flag: `-E<key>=<value>`, both parts escaped.
pub open spec fn env_flag(k: Seq<u8>, v: Seq<u8>) -> Seq<u8> {
    ascii_bytes("-E"@) + escaped(k) + ascii_bytes("="@) + escaped(v)
}

/// The two environment flags every execution starts with.
pub open spec fn base_env_tokens() -> Seq<Seq<u8>> {
    seq![
        ascii_bytes("-EHOME=/tmp"@),
        ascii_bytes("-EPATH=/usr/local/sbin:/usr/local/bin:/usr/sbin:/usr/bin:/sbin:/bin"@),
    ]
}

/// One `-E` flag per user-supplied environment entry, in list order.
pub open spec fn user_env_tokens(env: Seq<(Seq<u8>, Seq<u8>)>) -> Seq<Seq<u8>> {
    env.map(|_i: int, p: (Seq<u8>, Seq<u8>)| env_flag(p.0, p.1))
}

/// The environment entries an options record carries.
pub open spec fn options_env_entries(o: IsolatedBoxOptions) -> Seq<(Seq<u8>, Seq<u8>)> {
    match o.environment {
        Some(e) => env_entries(e@),
        None => Seq::empty(),
    }
}

/// The flags preceding the environment: sandbox mode, box id, metadata sink,
/// and the seven resource limits, ending with per-process timing.
pub open spec fn fixed_tokens(
    box_id: u32,
    metadata_file: Seq<u8>,
    o: IsolatedBoxOptions,
) -> Seq<Seq<u8>> {
    seq![
        ascii_bytes("isolate"@),
        ascii_bytes("--cg"@),
        ascii_bytes("-s"@),
        ascii_bytes("-b "@) + dec_digits(box_id as nat),
        ascii_bytes("-M"@) + metadata_file,
        ascii_bytes("-t "@) + dec_digits(o.run_time_limit as nat),
        ascii_bytes("-x "@) + dec_digits(o.extra_time_limit as nat),
        ascii_bytes("-w "@) + dec_digits(o.wall_time_limit as nat),
        ascii_bytes("-k "@) + dec_digits(o.stack_size_limit as nat),
        ascii_bytes("-p"@) + dec_digits(o.process_count_limit as nat),
        ascii_bytes("--cg-mem="@) + dec_digits(o.memory_limit as nat),
        ascii_bytes("-f "@) + dec_digits(o.storage_limit as nat),
        ascii_bytes("--cg-timing"@),
    ]
}

/// The sampling-profiler prefix put before the program when profiling is on.
pub open spec fn profiler_tokens(profiling: bool) -> Seq<Seq<u8>> {
    if profiling {
        seq![ascii_bytes("/usr/bin/perf_5.10"@), ascii_bytes("record"@), ascii_bytes("-g"@)]
    } else {
        Seq::empty()
    }
}

/// The whole argument vector for executing a script in a box.
pub open spec fn spec_exec_args(
    box_id: u32,
    metadata_file: Seq<u8>,
    o: IsolatedBoxOptions,
    script_path: Seq<u8>,
) -> Seq<Seq<u8>> {
    fixed_tokens(box_id, metadata_file, o) + base_env_tokens() + user_env_tokens(
        options_env_entries(o),
    ) + seq![ascii_bytes("--run"@), ascii_bytes("--"@)] + profiler_tokens(o.profiling) + seq![
        ascii_bytes("/bin/bash"@),
        script_path,
    ]
}

/// The argument vector that creates a box.
pub open spec fn spec_init_args(box_id: u32) -> Seq<Seq<u8>> {
    seq![
        ascii_bytes("isolate"@),
        ascii_bytes("--cg"@),
        ascii_bytes("-b "@) + dec_digits(box_id as nat),
        ascii_bytes("--init"@),
    ]
}

/// The argument vector that tears a box down.
pub open spec fn spec_cleanup_args(box_id: u32) -> Seq<Seq<u8>> {
    seq![
        ascii_bytes("isolate"@),
        ascii_bytes("--cg"@),
        ascii_bytes("-b "@) + dec_digits(box_id as nat),
        ascii_bytes("--cleanup"@),
    ]
}

/// Where an uploaded file lands: an absolute `path` is taken as rooted at
/// the working directory, a relative one gets a separator inserted.
pub open spec fn spec_upload_path(workdir: Seq<u8>, path: Seq<u8>) -> Seq<u8> {
    if path.len() > 0 && path[0] == 47 {
        workdir + path
    } else {
        workdir + ascii_bytes("/"@) + path
    }
}

/// Index of the last occurrence of `b` in `s`.
pub open spec fn find_last_byte(s: Seq<u8>, b: u8) -> Option<int>
    decreases s.len(),
{
    if s.len() == 0 {
        None
    } else if s.last() == b {
        Some(s.len() - 1)
    } else {
        find_last_byte(s.drop_last(), b)
    }
}

/// The directory that must exist before an upload: the target path without
/// its final component.
pub open spec fn spec_upload_dir(workdir: Seq<u8>, path: Seq<u8>) -> Seq<u8> {
    let parent = match find_last_byte(path, 47) {
        Some(i) => path.subrange(0, i),
        None => Seq::empty(),
    };
    spec_upload_path(workdir, parent)
}

/// The script file a fresh random suffix names.
pub open spec fn spec_script_path(suffix: u64) -> Seq<u8> {
    ascii_bytes("/box/.script-"@) + dec_digits(suffix as nat) + ascii_bytes(".sh"@)
}

/// The uploaded script body: the script with a trailing newline appended if
/// absent.
pub open spec fn spec_script_contents(script: Seq<u8>) -> Seq<u8> {
    if script.len() > 0 && script.last() == 10 {
        script
    } else {
        script.push(10u8)
    }
}

/// What one finished command reports: exit status and captured streams.
#[derive(Debug, Clone)]
pub struct ExecutedCommandResult {
    pub status: i32,
    pub stdout: Vec<u8>,
    pub stderr: Vec<u8>,
}

/// What one sandboxed execution reports: status, streams, and the parsed
/// metadata record.
#[derive(Debug, Clone)]
pub struct IsolatedExecutedCommandResult {
    pub status: i32,
    pub stdout: Vec<u8>,
    pub stderr: Vec<u8>,
    pub metadata: IsolateMetadata,
}

impl IsolatedExecutedCommandResult {
    /// Combines a raw process status with the metadata record: an exit code
    /// reported by the sandbox wins over the raw status.
    pub fn assemble(
        raw_status: i32,
        stdout: Vec<u8>,
        stderr: Vec<u8>,
        metadata: IsolateMetadata,
    ) -> (r: IsolatedExecutedCommandResult)
        ensures
            r.status == (match metadata.exit_code {
                Some(c) => c,
                None => raw_status,
            }),
            r.stdout == stdout,
            r.stderr == stderr,
            r.metadata == metadata,
    {
        let status = match metadata.exit_code {
            Some(c) => c,
            None => raw_status,
        };
        IsolatedExecutedCommandResult { status, stdout, stderr, metadata }
    }
}

/// A live sandbox: its id, working directory, and the three sink files.
#[derive(Debug, Clone)]
pub struct IsolatedBox {
    pub box_id: u32,
    pub workdir: Vec<u8>,
    pub stdout_file: Vec<u8>,
    pub stderr_file: Vec<u8>,
    pub metadata_file: Vec<u8>,
}

impl IsolatedBox {
    /// Builds the record for a box whose creation reported `init_output`:
    /// the trimmed output is the working directory, and the three sink files
    /// live directly under it.
    pub fn new(box_id: u32, init_output: &[u8]) -> (r: IsolatedBox)
        ensures
            r.box_id == box_id,
            r.workdir@ == trim_spec(init_output@),
            r.stdout_file@ == trim_spec(init_output@) + ascii_bytes("/stdout"@),
            r.stderr_file@ == trim_spec(init_output@) + ascii_bytes("/stderr"@),
            r.metadata_file@ == trim_spec(init_output@) + ascii_bytes("/metadata"@),
    {
        proof {
            reveal_strlit("stdout");
            reveal_strlit("stderr");
            reveal_strlit("metadata");
            reveal_strlit("/");
        }
        let workdir = trim_ascii(init_output);
        let stdout_file = Self::create_file(workdir.as_slice(), "stdout");
        let stderr_file = Self::create_file(workdir.as_slice(), "stderr");
        let metadata_file = Self::create_file(workdir.as_slice(), "metadata");
        proof {
            reveal_strlit("/stdout");
            reveal_strlit("/stderr");
            reveal_strlit("/metadata");
            assert(stdout_file@ =~= trim_spec(init_output@) + ascii_bytes("/stdout"@));
            assert(stderr_file@ =~= trim_spec(init_output@) + ascii_bytes("/stderr"@));
            assert(metadata_file@ =~= trim_spec(init_output@) + ascii_bytes("/metadata"@));
        }
        IsolatedBox { box_id, workdir, stdout_file, stderr_file, metadata_file }
    }

    /// The path of a sink file directly under the working directory.
    pub fn create_file(workdir: &[u8], filename: &str) -> (r: Vec<u8>)
        requires
            filename.is_ascii(),
        ensures
            r@ == workdir@ + ascii_bytes("/"@) + ascii_bytes(filename@),
    {
        proof {
            reveal_strlit("/");
        }
        let mut r = sub_bytes(workdir, 0, workdir.len());
        proof {
            assert(workdir@.subrange(0, workdir@.len() as int) =~= workdir@);
        }
        r.push(47);
        let name = str_bytes(filename);
        push_all(&mut r, name.as_slice());
        proof {
            assert(r@ =~= workdir@ + ascii_bytes("/"@) + ascii_bytes(filename@));
        }
        r
    }

    /// The absolute target path of an upload.
    pub fn upload_path(&self, path: &[u8]) -> (r: Vec<u8>)
        ensures
            r@ == spec_upload_path(self.workdir@, path@),
    {
        proof {
            reveal_strlit("/");
        }
        let mut r = sub_bytes(self.workdir.as_slice(), 0, self.workdir.len());
        proof {
            assert(self.workdir@.subrange(0, self.workdir@.len() as int) =~= self.workdir@);
        }
        if !(path.len() > 0 && path[0] == 47) {
            r.push(47);
        }
        push_all(&mut r, path);
        proof {
            assert(r@ =~= spec_upload_path(self.workdir@, path@));
        }
        r
    }

    /// The directory that must exist before `path` can be uploaded.
    pub fn upload_dir(&self, path: &[u8]) -> (r: Vec<u8>)
        ensures
            r@ == spec_upload_dir(self.workdir@, path@),
    {
        let n: usize = path.len();
        proof {
            assert(path@.subrange(0, n as int) =~= path@);
        }
        let mut i: usize = n;
        while i > 0
            invariant
                i <= n,
                n == path@.len(),
                find_last_byte(path@, 47) == find_last_byte(path@.subrange(0, i as int), 47),
            ensures
                if i > 0 {
                    find_last_byte(path@, 47) == Some(i - 1)
                } else {
                    find_last_byte(path@, 47) is None
                },
            decreases i,
        {
            proof {
                assert(path@.subrange(0, i as int).drop_last() =~= path@.subrange(0, i - 1));
                assert(path@.subrange(0, i as int).last() == path@[i - 1]);
            }
            if path[i - 1] == 47 {
                break ;
            }
            i = i - 1;
        }
        let parent = if i > 0 {
            sub_bytes(path, 0, i - 1)
        } else {
            Vec::new()
        };
        proof {
            if i == 0 {
                assert(parent@ =~= Seq::<u8>::empty());
            }
        }
        self.upload_path(parent.as_slice())
    }

    /// The full argument vector for one execution in this box.
    pub fn exec_args(&self, options: &IsolatedBoxOptions, script_path: &[u8]) -> (r: Vec<Vec<u8>>)
        ensures
            token_views(r@) == spec_exec_args(
                self.box_id,
                self.metadata_file@,
                *options,
                script_path@,
            ),
    {
        proof {
            reveal_strlit("isolate");
            reveal_strlit("--cg");
            reveal_strlit("-s");
            reveal_strlit("-b ");
            reveal_strlit("-M");
            reveal_strlit("-t ");
            reveal_strlit("-x ");
            reveal_strlit("-w ");
            reveal_strlit("-k ");
            reveal_strlit("-p");
            reveal_strlit("--cg-mem=");
            reveal_strlit("-f ");
            reveal_strlit("--cg-timing");
            reveal_strlit("-EHOME=/tmp");
            reveal_strlit("-EPATH=/usr/local/sbin:/usr/local/bin:/usr/sbin:/usr/bin:/sbin:/bin");
            reveal_strlit("--run");
            reveal_strlit("--");
            reveal_strlit("/usr/bin/perf_5.10");
            reveal_strlit("record");
            reveal_strlit("-g");
            reveal_strlit("/bin/bash");
        }
        let mut args: Vec<Vec<u8>> = Vec::new();
        push_token(&mut args, str_bytes("isolate"));
        push_token(&mut args, str_bytes("--cg"));
        push_token(&mut args, str_bytes("-s"));
        push_token(&mut args, dec_flag("-b ", self.box_id as u64));
        let mut metadata_flag = str_bytes("-M");
        push_all(&mut metadata_flag, self.metadata_file.as_slice());
        push_token(&mut args, metadata_flag);
        push_token(&mut args, dec_flag("-t ", options.run_time_limit));
        push_token(&mut args, dec_flag("-x ", options.extra_time_limit));
        push_token(&mut args, dec_flag("-w ", options.wall_time_limit));
        push_token(&mut args, dec_flag("-k ", options.stack_size_limit));
        push_token(&mut args, dec_flag("-p", options.process_count_limit));
        push_token(&mut args, dec_flag("--cg-mem=", options.memory_limit));
        push_token(&mut args, dec_flag("-f ", options.storage_limit));
        push_token(&mut args, str_bytes("--cg-timing"));
        proof {
            assert(token_views(args@) =~= fixed_tokens(
                self.box_id,
                self.metadata_file@,
                *options,
            ));
        }
        push_token(&mut args, str_bytes("-EHOME=/tmp"));
        push_token(
            &mut args,
            str_bytes("-EPATH=/usr/local/sbin:/usr/local/bin:/usr/sbin:/usr/bin:/sbin:/bin"),
        );
        proof {
            assert(token_views(args@) =~= fixed_tokens(self.box_id, self.metadata_file@, *options)
                + base_env_tokens());
        }
        let ghost head = token_views(args@);
        match &options.environment {
            Some(env) => {
                let n: usize = env.len();
                let mut i: usize = 0;
                while i < n
                    invariant
                        i <= n,
                        n == env@.len(),
                        token_views(args@) == head + user_env_tokens(
                            env_entries(env@.subrange(0, i as int)),
                        ),
                    decreases n - i,
                {
                    let flag = env_flag_token(env[i].0.as_slice(), env[i].1.as_slice());
                    push_token(&mut args, flag);
                    proof {
                        assert(user_env_tokens(env_entries(env@.subrange(0, i + 1))) =~= user_env_tokens(
                            env_entries(env@.subrange(0, i as int)),
                        ).push(env_flag(env@[i as int].0@, env@[i as int].1@)));
                        assert(token_views(args@) =~= head + user_env_tokens(
                            env_entries(env@.subrange(0, i + 1)),
                        ));
                    }
                    i = i + 1;
                }
                proof {
                    assert(env@.subrange(0, n as int) =~= env@);
                }
            },
            None => {
                proof {
                    assert(user_env_tokens(options_env_entries(*options)) =~= Seq::<
                        Seq<u8>,
                    >::empty());
                    assert(token_views(args@) =~= head + user_env_tokens(
                        options_env_entries(*options),
                    ));
                }
            },
        }
        proof {
            assert(token_views(args@) =~= fixed_tokens(self.box_id, self.metadata_file@, *options)
                + base_env_tokens() + user_env_tokens(options_env_entries(*options)));
        }
        push_token(&mut args, str_bytes("--run"));
        push_token(&mut args, str_bytes("--"));
        if options.profiling {
            push_token(&mut args, str_bytes("/usr/bin/perf_5.10"));
            push_token(&mut args, str_bytes("record"));
            push_token(&mut args, str_bytes("-g"));
        }
        push_token(&mut args, str_bytes("/bin/bash"));
        let script = sub_bytes(script_path, 0, script_path.len());
        proof {
            assert(script@ =~= script_path@);
        }
        push_token(&mut args, script);
        proof {
            assert(token_views(args@) =~= spec_exec_args(
                self.box_id,
                self.metadata_file@,
                *options,
                script_path@,
            ));
        }
        args
    }
}

/// The script body to upload: the script, with a trailing newline added when
/// it lacks one.
pub fn script_contents(script: &[u8]) -> (r: Vec<u8>)
    ensures
        r@ == spec_script_contents(script@),
{
    let n: usize = script.len();
    let mut r = sub_bytes(script, 0, n);
    proof {
        assert(r@ =~= script@);
    }
    if !(n > 0 && script[n - 1] == 10) {
        r.push(10);
    }
    r
}

/// The script path a given random suffix names.
pub fn script_path_for(suffix: u64) -> (r: Vec<u8>)
    ensures
        r@ == spec_script_path(suffix),
{
    proof {
        reveal_strlit("/box/.script-");
        reveal_strlit(".sh");
    }
    let mut r = str_bytes("/box/.script-");
    let digits = u64_to_dec(suffix);
    push_all(&mut r, digits.as_slice());
    let tail = str_bytes(".sh");
    push_all(&mut r, tail.as_slice());
    proof {
        assert(r@ =~= spec_script_path(suffix));
    }
    r
}

/// A script path with a fresh random suffix, collision-free in practice
/// across repeated executions in one box.
pub fn fresh_script_path() -> (r: Vec<u8>)
    ensures
        exists|suffix: u64| r@ == spec_script_path(suffix),
{
    let suffix = random_u64();
    let r = script_path_for(suffix);
    proof {
        assert(r@ == spec_script_path(suffix));
    }
    r
}

/// The argument vector that creates box `box_id`.
pub fn init_args(box_id: u32) -> (r: Vec<Vec<u8>>)
    ensures
        token_views(r@) == spec_init_args(box_id),
{
    proof {
        reveal_strlit("isolate");
        reveal_strlit("--cg");
        reveal_strlit("-b ");
        reveal_strlit("--init");
    }
    let mut args: Vec<Vec<u8>> = Vec::new();
    push_token(&mut args, str_bytes("isolate"));
    push_token(&mut args, str_bytes("--cg"));
    push_token(&mut args, dec_flag("-b ", box_id as u64));
    push_token(&mut args, str_bytes("--init"));
    proof {
        assert(token_views(args@) =~= spec_init_args(box_id));
    }
    args
}

/// The argument vector that tears box `box_id` down.
pub fn cleanup_args(box_id: u32) -> (r: Vec<Vec<u8>>)
    ensures
        token_views(r@) == spec_cleanup_args(box_id),
{
    proof {
        reveal_strlit("isolate");
        reveal_strlit("--cg");
        reveal_strlit("-b ");
        reveal_strlit("--cleanup");
    }
    let mut args: Vec<Vec<u8>> = Vec::new();
    push_token(&mut args, str_bytes("isolate"));
    push_token(&mut args, str_bytes("--cg"));
    push_token(&mut args, dec_flag("-b ", box_id as u64));
    push_token(&mut args, str_bytes("--cleanup"));
    proof {
        assert(token_views(args@) =~= spec_cleanup_args(box_id));
    }
    args
}

/// Appends one argument token.
fn push_token(args: &mut Vec<Vec<u8>>, t: Vec<u8>)
    ensures
        token_views(final(args)@) == token_views(old(args)@).push(t@),
{
    let ghost tv = t@;
    args.push(t);
    proof {
        assert(token_views(args@) =~= token_views(old(args)@).push(tv));
    }
}

/// A flag made of an ASCII prefix and a decimal number.
fn dec_flag(prefix: &str, n: u64) -> (r: Vec<u8>)
    requires
        prefix.is_ascii(),
    ensures
        r@ == ascii_bytes(prefix@) + dec_digits(n as nat),
{
    let mut r = str_bytes(prefix);
    let digits = u64_to_dec(n);
    push_all(&mut r, digits.as_slice());
    r
}

/// `s` with `\` and `"` escaped.
pub fn escape_bytes(s: &[u8]) -> (r: Vec<u8>)
    ensures
        r@ == escaped(s@),
{
    let n: usize = s.len();
    let mut r: Vec<u8> = Vec::new();
    let mut i: usize = 0;
    while i < n
        invariant
            i <= n,
            n == s@.len(),
            r@ == escaped(s@.subrange(0, i as int)),
        decreases n - i,
    {
        let b = s[i];
        if b == 92 {
            r.push(92);
            r.push(92);
        } else if b == 34 {
            r.push(92);
            r.push(34);
        } else {
            r.push(b);
        }
        proof {
            assert(s@.subrange(0, i + 1).drop_last() =~= s@.subrange(0, i as int));
            assert(s@.subrange(0, i + 1).last() == s@[i as int]);
            assert(r@ =~= escaped(s@.subrange(0, i + 1)));
        }
        i = i + 1;
    }
    proof {
        assert(s@.subrange(0, n as int) =~= s@);
    }
    r
}

/// The `-E<key>=<value>` token for one environment entry.
pub fn env_flag_token(k: &[u8], v: &[u8]) -> (r: Vec<u8>)
    ensures
        r@ == env_flag(k@, v@),
{
    proof {
        reveal_strlit("-E");
        reveal_strlit("=");
    }
    let mut r = str_bytes("-E");
    let key = escape_bytes(k);
    push_all(&mut r, key.as_slice());
    let sep = str_bytes("=");
    push_all(&mut r, sep.as_slice());
    let value = escape_bytes(v);
    push_all(&mut r, value.as_slice());
    proof {
        assert(r@ =~= env_flag(k@, v@));
    }
    r
}

/// Relies on `rand::Rng::gen` through the thread-local generator for a fresh
/// 64-bit value; nothing is assumed of the result.
#[verifier::external_body]
fn random_u64() -> u64 {
    rand::thread_rng().gen::<u64>()
}

/// Relies on `rand::Rng::gen_range`, which returns a value inside the given
/// inclusive range.
#[verifier::external_body]
fn random_box_id() -> (r: u32)
    ensures
        r <= 0x7fff_ffffu32,
{
    rand::thread_rng().gen_range(0..=(i32::MAX as u32))
}

/// The in-memory directory of live sandboxes.
#[derive(Debug)]
pub struct Isolate {
    pub boxes: HashMap<u32, IsolatedBox>,
}

impl Isolate {
    /// An empty registry.
    pub fn new() -> (r: Isolate)
        ensures
            r.boxes@ == Map::<u32, IsolatedBox>::empty(),
    {
        Isolate { boxes: HashMap::new() }
    }

    /// Draws a fresh box id from `[0, 2^31)`.
    pub fn draw_box_id() -> (r: u32)
        ensures
            r <= 0x7fff_ffffu32,
    {
        random_box_id()
    }

    /// Records a created box under its id.
    pub fn register(&mut self, isolated_box: IsolatedBox)
        ensures
            final(self).boxes@ == old(self).boxes@.insert(isolated_box.box_id, isolated_box),
    {
        let id = isolated_box.box_id;
        self.boxes.insert(id, isolated_box);
    }

    /// Looks a live box up.
    pub fn get_box(&self, isolated_box_id: u32) -> (r: Option<&IsolatedBox>)
        ensures
            match r {
                Some(b) => self.boxes@.contains_key(isolated_box_id) && *b
                    == self.boxes@[isolated_box_id],
                None => !self.boxes@.contains_key(isolated_box_id),
            },
    {
        self.boxes.get(&isolated_box_id)
    }

    /// Removes a box from the registry and hands back the argument vector
    /// that tears it down; its id is free for reuse afterwards.
    pub fn destroy_box(&mut self, isolated_box_id: u32) -> (args: Vec<Vec<u8>>)
        ensures
            final(self).boxes@ == old(self).boxes@.remove(isolated_box_id),
            token_views(args@) == spec_cleanup_args(isolated_box_id),
    {
        self.boxes.remove(&isolated_box_id);
        cleanup_args(isolated_box_id)
    }
}

} // verus!
