use evalx::compilers::{
    artifact_entry, artifact_run_command, compile_invocation, compile_step_result,
    script_run_command, write_source_command, CompiledLanguage,
};
use evalx::containers::{calculate_pool_utilization, new_executor, pool_key, ContainerPool};
use evalx::pool::{LocalSandboxPool, PoolError, LOCAL_POOL_SIZE};

#[test]
fn pool_starts_with_initialised_boxes() {
    let mut ok = vec![true; LOCAL_POOL_SIZE as usize];
    ok[1] = false;
    let mut p = LocalSandboxPool::new(&ok).unwrap();
    assert_eq!(p.ready_count(), 24);
    assert_eq!(p.acquire(), Some(0));
    assert_eq!(p.acquire(), Some(2));
    assert!(matches!(LocalSandboxPool::new(&vec![false; 25]), Err(PoolError::NoBoxes)));
}

#[test]
fn boxes_cycle_through_cleanup() {
    let mut p = LocalSandboxPool::new(&vec![true, true]).unwrap();
    let a = p.acquire().unwrap();
    let b = p.acquire().unwrap();
    assert_eq!((a, b), (0, 1));
    assert_eq!(p.acquire(), None);
    p.release(b);
    p.release(a);
    assert_eq!(p.acquire(), None);
    assert_eq!(p.begin_recycle(), Some(1));
    p.finish_recycle(1, true);
    assert_eq!(p.begin_recycle(), Some(0));
    p.finish_recycle(0, false);
    assert_eq!(p.begin_recycle(), None);
    assert_eq!(p.acquire(), Some(1));
    assert_eq!(p.acquire(), None);
}

#[test]
fn container_pools() {
    let mut pool = ContainerPool::new();
    let key = pool_key("python", "3.9");
    assert_eq!(key, "python:3.9");
    assert_eq!(pool.available_containers(&key), 0);
    assert_eq!(pool.take_container(&key), None);
    pool.init_pool(key.clone(), vec!["c1".to_string(), "c2".to_string()]);
    assert_eq!(pool.available_containers(&key), 2);
    assert_eq!(pool.take_container(&key), Some("c2".to_string()));
    pool.return_container(&key, "c2");
    assert_eq!(pool.available_containers(&key), 2);
    pool.return_container("go:1.21", "g1");
    let mut stats = pool.get_pool_stats();
    stats.sort();
    assert_eq!(stats, vec![("go:1.21".to_string(), 1), ("python:3.9".to_string(), 2)]);
    assert_eq!(calculate_pool_utilization(0), 0);
    assert_eq!(calculate_pool_utilization(3), 50);
}

#[test]
fn container_table() {
    let setup = new_executor(1000);
    assert_eq!(setup.semaphore_permits, 500);
    assert_eq!(new_executor(8).semaphore_permits, 8);
    let keys: Vec<&str> = setup.language_configs.iter().map(|(k, _)| k.as_str()).collect();
    assert_eq!(keys, vec!["python", "pypy", "java", "java11", "c", "cpp", "javascript"]);
    let java = &setup.language_configs[2].1;
    assert_eq!(java.image, "java-slim-executor");
    assert_eq!(java.command_format, vec!["java", "-Xmx1024m", "-Xms512m", "Main"]);
    assert_eq!(java.resource_limits.memory, "1024m");
    assert_eq!(java.resource_limits.cpu_shares, 256);
    assert_eq!(setup.language_configs[0].1.env, vec!["PYTHONUNBUFFERED=1"]);
    assert_eq!(setup.pool.available_containers("python:3.9"), 0);
}

#[test]
fn container_compile_steps() {
    assert_eq!(
        write_source_command("main.py", "print(1)"),
        vec!["sh", "-c", "cat <<'EOF' > main.py\nprint(1)\nEOF"]
    );
    assert_eq!(compile_invocation(CompiledLanguage::C, "main.c"), vec!["gcc", "-o", "main", "main.c"]);
    assert_eq!(compile_invocation(CompiledLanguage::Cpp, "main.cpp"), vec!["g++", "-o", "main", "main.cpp"]);
    assert_eq!(compile_invocation(CompiledLanguage::Java, "Main.java"), vec!["javac", "Main.java"]);
    assert_eq!(artifact_run_command(CompiledLanguage::Java), vec!["java", "Main"]);
    assert_eq!(artifact_entry(CompiledLanguage::C), ("main".to_string(), 0o755));
    assert_eq!(artifact_entry(CompiledLanguage::Java), ("Main.class".to_string(), 0o644));
    assert_eq!(compile_step_result(CompiledLanguage::Cpp, 0, vec![1]), (vec!["./main".to_string()], vec![]));
    assert_eq!(compile_step_result(CompiledLanguage::Cpp, 1, vec![1]), (vec![], vec![1]));
    assert_eq!(script_run_command("node", "main.js"), vec!["node", "main.js"]);
}

#[test]
fn initialised_box_ids_keep_box_order() {
    assert_eq!(evalx::pool::initialised_box_ids(&vec![true, false, true, true, false]), vec![0, 2, 3]);
    assert!(evalx::pool::initialised_box_ids(&vec![false, false]).is_empty());
}
