//! The `isolate` sandbox: where a box keeps its files, the command lines
//! that compile and run code in a box, how the sandbox's report is read,
//! and how the outcome of a compilation or a run is put together.
use vstd::prelude::*;
use crate::languages::{LanguageConfig, LanguageConfigView, ResourceLimits};
use crate::models::Elapsed;
use crate::text::{
    chars_eq, chars_of, char_views, decimal, decimal_chars, join_spec, join_strings, lines_of,
    lines_spec, parse_u64_spec, push_str, push_string, signed_decimal, signed_decimal_chars,
    split_once_of, split_once_spec, string_from_chars, views,
};

verus! {

/// The directory of a box on the host.
pub open spec fn box_path_spec(box_id: u16) -> Seq<char> {
    "/var/local/lib/isolate/"@ + decimal(box_id as nat) + "/box"@
}

/// A file in a box, seen from the host.
pub open spec fn box_file_spec(box_id: u16, name: Seq<char>) -> Seq<char> {
    box_path_spec(box_id) + "/"@ + name
}

/// Where the sandbox writes its report on a run in a box.
pub open spec fn meta_path_spec(box_id: u16) -> Seq<char> {
    "/tmp/isolate_"@ + decimal(box_id as nat) + ".txt"@
}

/// `prefix` followed by `n` in decimal.
fn with_number(prefix: &str, n: u64) -> (r: Vec<char>)
    ensures
        r@ == prefix@ + decimal(n as nat),
{
    let mut v = chars_of(prefix);
    let mut d = decimal_chars(n);
    v.append(&mut d);
    v
}

/// The directory of a box on the host.
pub fn box_path(box_id: u16) -> (r: String)
    ensures
        r@ == box_path_spec(box_id),
{
    let mut v = with_number("/var/local/lib/isolate/", box_id as u64);
    push_str(&mut v, "/box");
    string_from_chars(&v)
}

/// A file in a box, seen from the host.
pub fn box_file(box_id: u16, name: &str) -> (r: String)
    ensures
        r@ == box_file_spec(box_id, name@),
{
    let mut v = with_number("/var/local/lib/isolate/", box_id as u64);
    push_str(&mut v, "/box");
    push_str(&mut v, "/");
    push_str(&mut v, name);
    string_from_chars(&v)
}

/// Where the sandbox writes its report on a run in a box.
pub fn meta_file_path(box_id: u16) -> (r: String)
    ensures
        r@ == meta_path_spec(box_id),
{
    let mut v = with_number("/tmp/isolate_", box_id as u64);
    push_str(&mut v, ".txt");
    string_from_chars(&v)
}

/// The limits a step runs under: its own when it has them, the
/// configuration's default limits otherwise.
pub open spec fn step_limits_spec(own: Option<ResourceLimits>, default: ResourceLimits) -> ResourceLimits {
    match own {
        Some(l) => l,
        None => default,
    }
}

/// The limits a step runs under.
pub fn step_limits(own: Option<ResourceLimits>, default: ResourceLimits) -> (r: ResourceLimits)
    ensures
        r == step_limits_spec(own, default),
{
    match own {
        Some(l) => l,
        None => default,
    }
}

/// Twice `t`, wrapping around on overflow as unchecked release-mode
/// arithmetic does.
pub open spec fn doubled(t: u64) -> u64 {
    ((2 * t) % 0x1_0000_0000_0000_0000) as u64
}

/// Twice `t`, wrapping around on overflow.
pub fn wall_time_limit(t: u64) -> (r: u64)
    ensures
        r == doubled(t),
{
    if t >= 0x8000_0000_0000_0000 {
        (t - 0x8000_0000_0000_0000) * 2
    } else {
        t * 2
    }
}

/// The sandbox argument that mounts `path` from the chroot directory: the
/// device directory read-write with devices, the Go cache read-write, and
/// anything else read-only.
pub open spec fn mount_arg(path: Seq<char>, chroot: Seq<char>) -> Seq<char> {
    "--dir=/"@ + path + "="@ + chroot + "/"@ + path + (if path == "dev"@ {
        ":dev:rw"@
    } else if path == "go_cache"@ {
        ":rw"@
    } else {
        Seq::empty()
    })
}

/// The sandbox argument that sets an environment variable.
pub open spec fn env_arg(kv: (Seq<char>, Seq<char>)) -> Seq<char> {
    "--env="@ + kv.0 + "="@ + kv.1
}

/// The mount arguments of a configuration: one per mount path when it has
/// a chroot directory, none otherwise.
pub open spec fn mount_args(c: LanguageConfigView) -> Seq<Seq<char>> {
    match c.chroot_path {
        Some(chroot) => c.mount_paths.map_values(|p: Seq<char>| mount_arg(p, chroot)),
        None => Seq::empty(),
    }
}

/// The arguments common to every sandboxed step in a box.
pub open spec fn base_command_spec(
    box_id: u16,
    c: LanguageConfigView,
    time: u64,
    mem: u64,
    processes: u64,
) -> Seq<Seq<char>> {
    seq!["--cg"@, "--box-id="@ + decimal(box_id as nat), "--open-files=2048"@] + mount_args(c)
        + c.env_vars.map_values(|kv: (Seq<char>, Seq<char>)| env_arg(kv)) + seq![
        "--dir=/tmp:tmp"@,
        "--dir=/proc=proc:fs"@,
        "--stdout=stdout.txt"@,
        "--stderr=stderr.txt"@,
        "--time="@ + decimal(time as nat),
        "--wall-time="@ + decimal(doubled(time) as nat),
        "--cg-mem="@ + decimal(mem as nat),
        "--mem=0"@,
        "--processes="@ + decimal(processes as nat),
    ]
}

/// Pushes `s` onto `args`.
fn push_arg(args: &mut Vec<String>, s: Vec<char>)
    ensures
        views(final(args)@) == views(old(args)@).push(s@),
{
    let st = string_from_chars(&s);
    args.push(st);
    assert(views(args@) =~= views(old(args)@).push(s@));
}

/// Pushes `s` onto `args`.
fn push_literal(args: &mut Vec<String>, s: &str)
    ensures
        views(final(args)@) == views(old(args)@).push(s@),
{
    args.push(s.to_owned());
    assert(views(args@) =~= views(old(args)@).push(s@));
}

/// The sandbox argument that mounts `path` from `chroot`.
fn mount_arg_of(path: &String, chroot: &String) -> (r: Vec<char>)
    ensures
        r@ == mount_arg(path@, chroot@),
{
    let mut v = chars_of("--dir=/");
    push_string(&mut v, path);
    push_str(&mut v, "=");
    push_string(&mut v, chroot);
    push_str(&mut v, "/");
    push_string(&mut v, path);
    let p = chars_of(path.as_str());
    if chars_eq(&p, &chars_of("dev")) {
        push_str(&mut v, ":dev:rw");
    } else if chars_eq(&p, &chars_of("go_cache")) {
        push_str(&mut v, ":rw");
    } else {
        assert(v@ =~= v@ + Seq::<char>::empty());
    }
    v
}

/// The arguments that run a program in a box under the run memory and
/// process limits and the given time limit, with
/// `stdin.txt` as its input and the report written to the box's report
/// file.
pub open spec fn run_command_spec(box_id: u16, c: LanguageConfigView, time_limit_s: u64) -> Seq<Seq<char>> {
    let l = step_limits_spec(c.run.limits, c.limits);
    base_command_spec(box_id, c, time_limit_s, l.memory_kb, l.processes) + seq![
        "--stdin=stdin.txt"@,
        "--meta="@ + meta_path_spec(box_id),
        "--run"@,
        "--"@,
    ] + c.run.command
}

/// The arguments that compile in a box under the compile limits: the
/// compile command run by `bash`, its error output sent to `stderr.txt`.
pub open spec fn compile_command_spec(box_id: u16, c: LanguageConfigView) -> Seq<Seq<char>> {
    let l = step_limits_spec(c.compile.limits, c.limits);
    base_command_spec(box_id, c, l.time_s, l.memory_kb, l.processes) + seq![
        "--run"@,
        "--"@,
        "/bin/bash"@,
        "-c"@,
        join_spec(c.compile.command, " "@) + " 2> stderr.txt"@,
    ]
}

/// The position of the time-limit argument in a step's command line: after
/// the box, open-file, mount and environment arguments and the four
/// standard directory and stream arguments.
pub open spec fn time_arg_index(c: LanguageConfigView) -> int {
    7 + mount_args(c).len() as int + c.env_vars.len() as int
}

/// A compilation runs under the compile step's own time, memory and process
/// limits when it sets them, and under the default `[limits]` otherwise.
pub proof fn lemma_compile_command_limits(box_id: u16, c: LanguageConfigView)
    ensures
        ({
            let args = compile_command_spec(box_id, c);
            let k = time_arg_index(c);
            let (t, m, n) = match c.compile.limits {
                Some(l) => (l.time_s, l.memory_kb, l.processes),
                None => (c.limits.time_s, c.limits.memory_kb, c.limits.processes),
            };
            &&& args.len() > k + 4
            &&& args[k] == "--time="@ + decimal(t as nat)
            &&& args[k + 2] == "--cg-mem="@ + decimal(m as nat)
            &&& args[k + 4] == "--processes="@ + decimal(n as nat)
        }),
{
}

/// A test case runs under the given time limit and under the run step's own
/// memory and process limits when it sets them, the default `[limits]`
/// otherwise.
pub proof fn lemma_run_command_limits(box_id: u16, c: LanguageConfigView, time_limit_s: u64)
    ensures
        ({
            let args = run_command_spec(box_id, c, time_limit_s);
            let k = time_arg_index(c);
            let (m, n) = match c.run.limits {
                Some(l) => (l.memory_kb, l.processes),
                None => (c.limits.memory_kb, c.limits.processes),
            };
            &&& args.len() > k + 4
            &&& args[k] == "--time="@ + decimal(time_limit_s as nat)
            &&& args[k + 2] == "--cg-mem="@ + decimal(m as nat)
            &&& args[k + 4] == "--processes="@ + decimal(n as nat)
        }),
{
}

/// The `isolate` sandbox, which builds the command lines of the steps it
/// runs in a box.
#[derive(Clone, Copy, Debug)]
pub struct IsolateSandbox;

impl IsolateSandbox {
    /// The arguments common to every sandboxed step in a box: the box, the
    /// open-file limit, the mounts of the chroot directory, the environment,
    /// the standard directories and streams, and the time, wall-time (twice
    /// the time), memory and process limits.
    pub fn build_base_command(
        &self,
        box_id: u16,
        config: &LanguageConfig,
        time: u64,
        mem: u64,
        processes: u64,
    ) -> (r: Vec<String>)
        ensures
            views(r@) == base_command_spec(box_id, config@, time, mem, processes),
    {
        let mut args: Vec<String> = Vec::new();
        push_literal(&mut args, "--cg");
        push_arg(&mut args, with_number("--box-id=", box_id as u64));
        push_literal(&mut args, "--open-files=2048");
        let ghost head = views(args@);
        assert(head =~= seq!["--cg"@, "--box-id="@ + decimal(box_id as nat), "--open-files=2048"@]);
        match &config.chroot_path {
            Some(chroot) => {
                let mut i: usize = 0;
                while i < config.mount_paths.len()
                    invariant
                        i <= config.mount_paths.len(),
                        views(args@) == head + config@.mount_paths.subrange(0, i as int).map_values(
                            |p: Seq<char>| mount_arg(p, chroot@),
                        ),
                    decreases config.mount_paths.len() - i,
                {
                    push_arg(&mut args, mount_arg_of(&config.mount_paths[i], chroot));
                    i = i + 1;
                    assert(views(args@) =~= head + config@.mount_paths.subrange(0, i as int).map_values(
                        |p: Seq<char>| mount_arg(p, chroot@),
                    ));
                }
                assert(config@.mount_paths.subrange(0, i as int) =~= config@.mount_paths);
            },
            None => {
                assert(views(args@) =~= head + mount_args(config@));
            },
        }
        let ghost mounted = views(args@);
        assert(mounted == head + mount_args(config@));
        let mut j: usize = 0;
        while j < config.env_vars.len()
            invariant
                j <= config.env_vars.len(),
                views(args@) == mounted + config@.env_vars.subrange(0, j as int).map_values(
                    |kv: (Seq<char>, Seq<char>)| env_arg(kv),
                ),
            decreases config.env_vars.len() - j,
        {
            let mut v = chars_of("--env=");
            push_string(&mut v, &config.env_vars[j].0);
            push_str(&mut v, "=");
            push_string(&mut v, &config.env_vars[j].1);
            push_arg(&mut args, v);
            j = j + 1;
            assert(views(args@) =~= mounted + config@.env_vars.subrange(0, j as int).map_values(
                |kv: (Seq<char>, Seq<char>)| env_arg(kv),
            ));
        }
        assert(config@.env_vars.subrange(0, j as int) =~= config@.env_vars);
        let ghost with_env = views(args@);
        push_literal(&mut args, "--dir=/tmp:tmp");
        push_literal(&mut args, "--dir=/proc=proc:fs");
        push_literal(&mut args, "--stdout=stdout.txt");
        push_literal(&mut args, "--stderr=stderr.txt");
        push_arg(&mut args, with_number("--time=", time));
        push_arg(&mut args, with_number("--wall-time=", wall_time_limit(time)));
        push_arg(&mut args, with_number("--cg-mem=", mem));
        push_literal(&mut args, "--mem=0");
        push_arg(&mut args, with_number("--processes=", processes));
        assert(views(args@) =~= base_command_spec(box_id, config@, time, mem, processes));
        args
    }

    /// The arguments that run a program in a box.
    pub fn run_command(&self, box_id: u16, config: &LanguageConfig, time_limit_s: u64) -> (r: Vec<String>)
        ensures
            views(r@) == run_command_spec(box_id, config@, time_limit_s),
    {
        let l = step_limits(config.run.limits, config.limits);
        let mut args = self.build_base_command(box_id, config, time_limit_s, l.memory_kb, l.processes);
        push_literal(&mut args, "--stdin=stdin.txt");
        let mut m = chars_of("--meta=");
        let meta = meta_file_path(box_id);
        push_string(&mut m, &meta);
        push_arg(&mut args, m);
        push_literal(&mut args, "--run");
        push_literal(&mut args, "--");
        let ghost before = views(args@);
        let mut i: usize = 0;
        while i < config.run.command.len()
            invariant
                i <= config.run.command.len(),
                views(args@) == before + config@.run.command.subrange(0, i as int),
            decreases config.run.command.len() - i,
        {
            let ghost prev = views(args@);
            let part = config.run.command[i].clone();
            args.push(part);
            assert(views(args@) =~= prev.push(config@.run.command[i as int]));
            i = i + 1;
            assert(views(args@) =~= before + config@.run.command.subrange(0, i as int));
        }
        assert(config@.run.command.subrange(0, i as int) =~= config@.run.command);
        assert(views(args@) =~= run_command_spec(box_id, config@, time_limit_s));
        args
    }

    /// The arguments that compile in a box.
    pub fn compile_command(&self, box_id: u16, config: &LanguageConfig) -> (r: Vec<String>)
        ensures
            views(r@) == compile_command_spec(box_id, config@),
    {
        let l = step_limits(config.compile.limits, config.limits);
        let mut args = self.build_base_command(box_id, config, l.time_s, l.memory_kb, l.processes);
        push_literal(&mut args, "--run");
        push_literal(&mut args, "--");
        push_literal(&mut args, "/bin/bash");
        push_literal(&mut args, "-c");
        let joined = join_strings(&config.compile.command, " ");
        let mut b = chars_of(joined.as_str());
        push_str(&mut b, " 2> stderr.txt");
        push_arg(&mut args, b);
        assert(views(args@) =~= compile_command_spec(box_id, config@));
        args
    }
}

// ---------------------------------------------------------------------
// The sandbox's report
// ---------------------------------------------------------------------

/// What the sandbox reports on a run: the raw CPU and wall times, the peak
/// memory in kilobytes and the status code.
#[derive(Clone, Debug)]
pub struct IsolateMeta {
    pub time: Option<String>,
    pub wall_time: Option<String>,
    pub max_rss_kb: u64,
    pub status: String,
}

/// The mathematical content of an [`IsolateMeta`].
pub struct MetaView {
    pub time: Option<Seq<char>>,
    pub wall_time: Option<Seq<char>>,
    pub max_rss_kb: u64,
    pub status: Seq<char>,
}

impl View for IsolateMeta {
    type V = MetaView;

    open spec fn view(&self) -> MetaView {
        MetaView {
            time: match self.time {
                Some(t) => Some(t@),
                None => None,
            },
            wall_time: match self.wall_time {
                Some(t) => Some(t@),
                None => None,
            },
            max_rss_kb: self.max_rss_kb,
            status: self.status@,
        }
    }
}

/// The report before any line is read.
pub open spec fn meta_initial() -> MetaView {
    MetaView { time: None, wall_time: None, max_rss_kb: 0, status: "Unknown"@ }
}

/// The report after reading one `key:value` line; later lines override
/// earlier ones, and a peak memory that is not a number counts as zero.
pub open spec fn meta_step(m: MetaView, line: Seq<char>) -> MetaView {
    match split_once_spec(line, ':') {
        Some((key, value)) => if key == "time"@ {
            MetaView { time: Some(value), ..m }
        } else if key == "wall-time"@ {
            MetaView { wall_time: Some(value), ..m }
        } else if key == "max-rss"@ {
            MetaView {
                max_rss_kb: match parse_u64_spec(value) {
                    Some(n) => n,
                    None => 0,
                },
                ..m
            }
        } else if key == "status"@ {
            MetaView { status: value, ..m }
        } else {
            m
        },
        None => m,
    }
}

/// The report after reading the given lines in order.
pub open spec fn meta_fold(lines: Seq<Seq<char>>) -> MetaView
    decreases lines.len(),
{
    if lines.len() == 0 {
        meta_initial()
    } else {
        meta_step(meta_fold(lines.drop_last()), lines.last())
    }
}

/// What a report file's contents say.
pub open spec fn parse_meta_spec(content: Seq<char>) -> MetaView {
    meta_fold(lines_spec(content))
}

/// Reads the sandbox's report on a run.
pub fn parse_meta(content: &str) -> (r: IsolateMeta)
    ensures
        r@ == parse_meta_spec(content@),
{
    let c = chars_of(content);
    let lines = lines_of(&c);
    let mut m = IsolateMeta { time: None, wall_time: None, max_rss_kb: 0, status: "Unknown".to_owned() };
    let mut i: usize = 0;
    assert(char_views(lines@).subrange(0, 0) =~= Seq::<Seq<char>>::empty());
    while i < lines.len()
        invariant
            i <= lines.len(),
            m@ == meta_fold(char_views(lines@).subrange(0, i as int)),
        decreases lines.len() - i,
    {
        proof {
            assert(char_views(lines@).subrange(0, i + 1).drop_last() =~= char_views(lines@).subrange(
                0,
                i as int,
            ));
            assert(char_views(lines@).subrange(0, i + 1).last() == lines@[i as int]@);
        }
        match split_once_of(&lines[i], ':') {
            Some((key, value)) => {
                if chars_eq(&key, &chars_of("time")) {
                    m.time = Some(string_from_chars(&value));
                } else if chars_eq(&key, &chars_of("wall-time")) {
                    m.wall_time = Some(string_from_chars(&value));
                } else if chars_eq(&key, &chars_of("max-rss")) {
                    let v = string_from_chars(&value);
                    m.max_rss_kb = match crate::text::parse_u64(v.as_str()) {
                        Some(n) => n,
                        None => 0,
                    };
                } else if chars_eq(&key, &chars_of("status")) {
                    m.status = string_from_chars(&value);
                }
            },
            None => {},
        }
        i = i + 1;
    }
    assert(char_views(lines@).subrange(0, i as int) =~= char_views(lines@));
    m
}

// ---------------------------------------------------------------------
// Outcomes
// ---------------------------------------------------------------------

/// The outcome of running a program in a box.
#[derive(Clone, Debug)]
pub struct RunResult {
    pub stdout: String,
    pub stderr: String,
    pub exit_code: i64,
    pub run_time: Elapsed,
    pub wall_time: Elapsed,
    pub memory_used_kb: u64,
    pub status: String,
}

/// The outcome of compiling in a box.
#[derive(Clone, Debug)]
pub struct CompilationResult {
    pub success: bool,
    pub compile_time: Elapsed,
    pub binary: Option<Vec<u8>>,
    pub stderr: String,
}

/// Whether a status is one of the sandbox's failure statuses: killed by a
/// signal, a runtime error, or an internal error.
pub open spec fn is_failure_status(status: Seq<char>) -> bool {
    status == "SG"@ || status == "RE"@ || status == "XX"@
}

/// The error output reported for a run: the time-limit message on a
/// timeout; on a failure, the program's error output, else the sandbox's,
/// else the status; otherwise the program's error output.
pub open spec fn final_stderr_spec(
    status: Seq<char>,
    program_stderr: Seq<char>,
    isolate_stderr: Seq<char>,
) -> Seq<char> {
    if status == "TO"@ {
        "Time Limit Exceeded"@
    } else if is_failure_status(status) {
        if program_stderr.len() > 0 {
            program_stderr
        } else if isolate_stderr.len() > 0 {
            "Runtime Error (isolate: "@ + isolate_stderr + ")"@
        } else {
            "Runtime Error (status: "@ + status + ")"@
        }
    } else {
        program_stderr
    }
}

/// The error output reported for a run: a timeout reports the time-limit
/// message; a signal, runtime or internal error reports the program's
/// error output when there is any; any other status reports exactly the
/// program's error output, warnings included.
pub proof fn lemma_reported_stderr(status: Seq<char>, program_stderr: Seq<char>, isolate_stderr: Seq<char>)
    ensures
        status == "TO"@ ==> final_stderr_spec(status, program_stderr, isolate_stderr)
            == "Time Limit Exceeded"@,
        status != "TO"@ && status != "SG"@ && status != "RE"@ && status != "XX"@
            ==> final_stderr_spec(status, program_stderr, isolate_stderr) == program_stderr,
        (status == "SG"@ || status == "RE"@ || status == "XX"@) && program_stderr.len() > 0
            ==> final_stderr_spec(status, program_stderr, isolate_stderr) == program_stderr,
        (status == "SG"@ || status == "RE"@ || status == "XX"@) && program_stderr.len() == 0
            && isolate_stderr.len() > 0 ==> final_stderr_spec(status, program_stderr, isolate_stderr)
            == "Runtime Error (isolate: "@ + isolate_stderr + ")"@,
        (status == "SG"@ || status == "RE"@ || status == "XX"@) && program_stderr.len() == 0
            && isolate_stderr.len() == 0 ==> final_stderr_spec(status, program_stderr, isolate_stderr)
            == "Runtime Error (status: "@ + status + ")"@,
{
    reveal_strlit("TO");
    reveal_strlit("SG");
    reveal_strlit("RE");
    reveal_strlit("XX");
    assert("SG"@[0] != "TO"@[0]);
    assert("RE"@[0] != "TO"@[0]);
    assert("XX"@[0] != "TO"@[0]);
}

/// The outcome of a run that the sandbox reported on: the run time is the
/// time limit when the status is a timeout, the error output follows
/// [`final_stderr_spec`], and a run without an exit code reports `-1`.
pub fn finish_run(
    meta: IsolateMeta,
    run_time: Elapsed,
    wall_time: Elapsed,
    program_stdout: String,
    program_stderr: String,
    isolate_stderr: String,
    exit_code: Option<i32>,
    time_limit_s: u64,
) -> (r: RunResult)
    ensures
        r.stdout == program_stdout,
        r.stderr@ == final_stderr_spec(meta.status@, program_stderr@, isolate_stderr@),
        r.exit_code == (match exit_code {
            Some(c) => c as i64,
            None => -1i64,
        }),
        r.run_time == (if meta.status@ == "TO"@ {
            Elapsed { secs: time_limit_s, nanos: 0 }
        } else {
            run_time
        }),
        r.wall_time == wall_time,
        r.memory_used_kb == meta.max_rss_kb,
        r.status == meta.status,
{
    let status = chars_of(meta.status.as_str());
    let timed_out = chars_eq(&status, &chars_of("TO"));
    let run_time = if timed_out { Elapsed::from_secs(time_limit_s) } else { run_time };
    let stderr = if timed_out {
        "Time Limit Exceeded".to_owned()
    } else if chars_eq(&status, &chars_of("SG")) || chars_eq(&status, &chars_of("RE"))
        || chars_eq(&status, &chars_of("XX")) {
        if program_stderr.as_str().unicode_len() > 0 {
            program_stderr
        } else if isolate_stderr.as_str().unicode_len() > 0 {
            let mut v = chars_of("Runtime Error (isolate: ");
            push_string(&mut v, &isolate_stderr);
            push_str(&mut v, ")");
            string_from_chars(&v)
        } else {
            let mut v = chars_of("Runtime Error (status: ");
            push_string(&mut v, &meta.status);
            push_str(&mut v, ")");
            string_from_chars(&v)
        }
    } else {
        program_stderr
    };
    let code: i64 = match exit_code {
        Some(c) => c as i64,
        None => -1,
    };
    RunResult {
        stdout: program_stdout,
        stderr,
        exit_code: code,
        run_time,
        wall_time,
        memory_used_kb: meta.max_rss_kb,
        status: meta.status,
    }
}

/// The outcome of a run that did not end within its time limit plus two
/// seconds: no output, the time-limit message, exit code `-1`, the time
/// limit as run time and twice it as wall time, no memory, status `TO`.
pub fn timed_out_run(time_limit_s: u64) -> (r: RunResult)
    ensures
        r.stdout@ == Seq::<char>::empty(),
        r.stderr@ == "Time Limit Exceeded"@,
        r.exit_code == -1,
        r.run_time == (Elapsed { secs: time_limit_s, nanos: 0 }),
        r.wall_time == (Elapsed { secs: doubled(time_limit_s), nanos: 0 }),
        r.memory_used_kb == 0,
        r.status@ == "TO"@,
{
    RunResult {
        stdout: String::new(),
        stderr: "Time Limit Exceeded".to_owned(),
        exit_code: -1,
        run_time: Elapsed::from_secs(time_limit_s),
        wall_time: Elapsed::from_secs(wall_time_limit(time_limit_s)),
        memory_used_kb: 0,
        status: "TO".to_owned(),
    }
}

/// The outcome of a compilation that did not end in time.
pub fn compile_timed_out(time_limit_s: u64) -> (r: CompilationResult)
    ensures
        !r.success,
        r.compile_time == (Elapsed { secs: time_limit_s, nanos: 0 }),
        r.binary is None,
        r.stderr@ == "Compilation timed out."@,
{
    CompilationResult {
        success: false,
        compile_time: Elapsed::from_secs(time_limit_s),
        binary: None,
        stderr: "Compilation timed out.".to_owned(),
    }
}

/// The error output reported for a failed compilation: the compiler's own,
/// else the exit code and the sandbox's error output.
pub open spec fn compile_failure_text(
    compiler_output: Seq<char>,
    exit_code: Option<i32>,
    isolate_stderr: Seq<char>,
) -> Seq<char> {
    if compiler_output.len() > 0 {
        compiler_output
    } else {
        "Compilation failed (Exit "@ + signed_decimal(
            match exit_code {
                Some(c) => c as int,
                None => -1,
            },
        ) + "). Isolate: "@ + isolate_stderr
    }
}

/// The outcome of a compilation that ended: on success the binary read
/// from the box and the compiler's warnings; on failure no binary and the
/// text of [`compile_failure_text`].
pub fn finish_compile(
    succeeded: bool,
    compile_time: Elapsed,
    binary: Option<Vec<u8>>,
    compiler_output: String,
    exit_code: Option<i32>,
    isolate_stderr: String,
) -> (r: CompilationResult)
    ensures
        r.success == succeeded,
        r.compile_time == compile_time,
        succeeded ==> r.binary == binary && r.stderr == compiler_output,
        !succeeded ==> r.binary is None && r.stderr@ == compile_failure_text(
            compiler_output@,
            exit_code,
            isolate_stderr@,
        ),
{
    if succeeded {
        CompilationResult { success: true, compile_time, binary, stderr: compiler_output }
    } else {
        let stderr = if compiler_output.as_str().unicode_len() > 0 {
            compiler_output
        } else {
            let code: i64 = match exit_code {
                Some(c) => c as i64,
                None => -1,
            };
            let mut v = chars_of("Compilation failed (Exit ");
            let mut d = signed_decimal_chars(code);
            v.append(&mut d);
            push_str(&mut v, "). Isolate: ");
            push_string(&mut v, &isolate_stderr);
            string_from_chars(&v)
        };
        CompilationResult { success: false, compile_time, binary: None, stderr }
    }
}

} // verus!
