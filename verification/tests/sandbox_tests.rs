use evalx::languages::{CommandConfig, LanguageConfig, ResourceLimits};
use evalx::models::Elapsed;
use evalx::sandbox::{
    box_file, box_path, compile_timed_out, finish_compile,
    finish_run, meta_file_path, step_limits, parse_meta, timed_out_run, IsolateSandbox,
    wall_time_limit,
};

fn strings(v: &[&str]) -> Vec<String> {
    v.iter().map(|s| s.to_string()).collect()
}

fn config() -> LanguageConfig {
    LanguageConfig {
        name: "java".to_string(),
        version: "21".to_string(),
        is_compiled: true,
        source_filename: "Main.java".to_string(),
        executable_filename: "Main.class".to_string(),
        chroot_path: Some("/srv/jvm".to_string()),
        env_vars: vec![("JAVA_HOME".to_string(), "/usr/lib/jvm".to_string())],
        mount_paths: strings(&["dev", "go_cache", "usr"]),
        compile: CommandConfig {
            command: strings(&["/usr/bin/javac", "Main.java"]),
            limits: Some(ResourceLimits { time_s: 15, memory_kb: 524288, processes: 32 }),
        },
        run: CommandConfig { command: strings(&["/usr/bin/java", "Main"]), limits: None },
        limits: ResourceLimits { time_s: 10, memory_kb: 262144, processes: 10 },
    }
}

#[test]
fn box_locations() {
    assert_eq!(box_path(7), "/var/local/lib/isolate/7/box");
    assert_eq!(box_file(12, "stdin.txt"), "/var/local/lib/isolate/12/box/stdin.txt");
    assert_eq!(meta_file_path(0), "/tmp/isolate_0.txt");
}

#[test]
fn wall_time_is_twice_the_time_wrapping() {
    assert_eq!(wall_time_limit(5), 10);
    assert_eq!(wall_time_limit(u64::MAX), u64::MAX.wrapping_mul(2));
    assert_eq!(wall_time_limit(1 << 63), 0);
}

#[test]
fn base_command_arguments() {
    let args = IsolateSandbox.build_base_command(3, &config(), 5, 1000, 4);
    assert_eq!(
        args,
        strings(&[
            "--cg",
            "--box-id=3",
            "--open-files=2048",
            "--dir=/dev=/srv/jvm/dev:dev:rw",
            "--dir=/go_cache=/srv/jvm/go_cache:rw",
            "--dir=/usr=/srv/jvm/usr",
            "--env=JAVA_HOME=/usr/lib/jvm",
            "--dir=/tmp:tmp",
            "--dir=/proc=proc:fs",
            "--stdout=stdout.txt",
            "--stderr=stderr.txt",
            "--time=5",
            "--wall-time=10",
            "--cg-mem=1000",
            "--mem=0",
            "--processes=4",
        ])
    );
    let mut c = config();
    c.chroot_path = None;
    let args = IsolateSandbox.build_base_command(3, &c, 5, 1000, 4);
    assert!(!args.iter().any(|a| a.starts_with("--dir=/dev")));
}

#[test]
fn run_and_compile_commands() {
    let run = IsolateSandbox.run_command(2, &config(), 3);
    assert_eq!(&run[11..13], &strings(&["--time=3", "--wall-time=6"])[..]);
    assert_eq!(run[13], "--cg-mem=262144");
    assert_eq!(run[15], "--processes=10");
    assert_eq!(
        &run[16..],
        &strings(&["--stdin=stdin.txt", "--meta=/tmp/isolate_2.txt", "--run", "--", "/usr/bin/java", "Main"])[..]
    );
    let comp = IsolateSandbox.compile_command(2, &config());
    assert_eq!(comp[11], "--time=15");
    assert_eq!(comp[13], "--cg-mem=524288");
    assert_eq!(
        &comp[16..],
        &strings(&["--run", "--", "/bin/bash", "-c", "/usr/bin/javac Main.java 2> stderr.txt"])[..]
    );
    let d = ResourceLimits { time_s: 1, memory_kb: 2, processes: 3 };
    let own = ResourceLimits { time_s: 4, memory_kb: 5, processes: 6 };
    assert_eq!(step_limits(None, d), d);
    assert_eq!(step_limits(Some(own), d), own);
}

#[test]
fn meta_report_is_read_line_by_line() {
    let m = parse_meta("time:0.045\ntime-wall:1\nwall-time:0.052\r\nmax-rss:6452\nstatus:RE\nexitcode:1\n");
    assert_eq!(m.time.as_deref(), Some("0.045"));
    assert_eq!(m.wall_time.as_deref(), Some("0.052"));
    assert_eq!(m.max_rss_kb, 6452);
    assert_eq!(m.status, "RE");
    let m = parse_meta("status:XX");
    assert_eq!(m.status, "XX");
    assert_eq!(m.time, None);
    let m = parse_meta("max-rss:12\nmax-rss:lots\n");
    assert_eq!(m.max_rss_kb, 0);
    let m = parse_meta("");
    assert_eq!(m.status, "Unknown");
    let m = parse_meta("status:a:b");
    assert_eq!(m.status, "a:b");
}

#[test]
fn finished_run_stderr_rules() {
    let meta = |status: &str| parse_meta(&format!("status:{}\nmax-rss:100\n", status));
    let t = Elapsed { secs: 0, nanos: 45_000_000 };
    let r = finish_run(meta("TO"), t, t, "out".into(), "err".into(), "iso".into(), Some(137), 2);
    assert_eq!(r.stderr, "Time Limit Exceeded");
    assert_eq!(r.run_time, Elapsed { secs: 2, nanos: 0 });
    assert_eq!(r.exit_code, 137);
    let r = finish_run(meta("RE"), t, t, "out".into(), "".into(), "iso".into(), Some(1), 2);
    assert_eq!(r.stderr, "Runtime Error (isolate: iso)");
    assert_eq!(r.run_time, t);
    let r = finish_run(meta("SG"), t, t, "out".into(), "".into(), "".into(), None, 2);
    assert_eq!(r.stderr, "Runtime Error (status: SG)");
    assert_eq!(r.exit_code, -1);
    let r = finish_run(meta("XX"), t, t, "".into(), "boom".into(), "iso".into(), Some(1), 2);
    assert_eq!(r.stderr, "boom");
    let r = finish_run(meta("OK"), t, t, "out".into(), "".into(), "iso".into(), Some(0), 2);
    assert_eq!(r.stderr, "");
    assert_eq!(r.stdout, "out");
    assert_eq!(r.memory_used_kb, 100);
    assert_eq!(r.status, "OK");
}

#[test]
fn timeouts() {
    let r = timed_out_run(3);
    assert_eq!(r.stdout, "");
    assert_eq!(r.stderr, "Time Limit Exceeded");
    assert_eq!(r.exit_code, -1);
    assert_eq!(r.run_time, Elapsed { secs: 3, nanos: 0 });
    assert_eq!(r.wall_time, Elapsed { secs: 6, nanos: 0 });
    assert_eq!(r.status, "TO");
    let c = compile_timed_out(10);
    assert!(!c.success);
    assert_eq!(c.stderr, "Compilation timed out.");
    assert_eq!(c.compile_time, Elapsed { secs: 10, nanos: 0 });
}

#[test]
fn finished_compilations() {
    let t = Elapsed { secs: 1, nanos: 2 };
    let ok = finish_compile(true, t, Some(vec![1, 2]), "warning".into(), Some(0), "".into());
    assert!(ok.success);
    assert_eq!(ok.binary, Some(vec![1, 2]));
    assert_eq!(ok.stderr, "warning");
    let bad = finish_compile(false, t, Some(vec![1]), "".into(), Some(1), "iso err".into());
    assert!(!bad.success);
    assert_eq!(bad.binary, None);
    assert_eq!(bad.stderr, "Compilation failed (Exit 1). Isolate: iso err");
    let bad = finish_compile(false, t, None, "".into(), None, "".into());
    assert_eq!(bad.stderr, "Compilation failed (Exit -1). Isolate: ");
    let bad = finish_compile(false, t, None, "main.c:1: error".into(), Some(1), "x".into());
    assert_eq!(bad.stderr, "main.c:1: error");
}
