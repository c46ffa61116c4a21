//! Bookkeeping of pools of idle containers, one pool per `language:version`
//! key, and the table of container images per language.
use vstd::prelude::*;
use crate::text::views;

verus! {

/// The key of a language version's pool: `language:version`.
pub open spec fn pool_key_spec(language: Seq<char>, version: Seq<char>) -> Seq<char> {
    language + ":"@ + version
}

/// The key of a language version's pool.
pub fn pool_key(language: &str, version: &str) -> (r: String)
    ensures
        r@ == pool_key_spec(language@, version@),
{
    let mut k = language.to_owned();
    k.append(":");
    k.append(version);
    k
}

/// The pools that a list of entries gives, later entries taking precedence.
pub open spec fn pool_map(s: Seq<(String, Vec<String>)>) -> Map<Seq<char>, Seq<Seq<char>>>
    decreases s.len(),
{
    if s.len() == 0 {
        Map::empty()
    } else {
        pool_map(s.drop_last()).insert(s.last().0@, views(s.last().1@))
    }
}

/// Whether the keys of a list of entries are pairwise distinct.
pub open spec fn distinct_pool_keys(s: Seq<(String, Vec<String>)>) -> bool {
    forall|i: int, j: int| 0 <= i < j < s.len() ==> (#[trigger] s[i]).0@ != (#[trigger] s[j]).0@
}

proof fn lemma_pool_map_lookup(s: Seq<(String, Vec<String>)>)
    requires
        distinct_pool_keys(s),
    ensures
        forall|i: int| #![trigger s[i]] 0 <= i < s.len() ==> pool_map(s).contains_key(s[i].0@)
            && pool_map(s)[s[i].0@] == views(s[i].1@),
        forall|k: Seq<char>| #[trigger] pool_map(s).contains_key(k) ==> exists|i: int|
            0 <= i < s.len() && (#[trigger] s[i]).0@ == k,
    decreases s.len(),
{
    if s.len() > 0 {
        let t = s.drop_last();
        assert forall|i: int, j: int| 0 <= i < j < t.len() implies (#[trigger] t[i]).0@ != (
        #[trigger] t[j]).0@ by {
            assert(t[i] == s[i] && t[j] == s[j]);
        }
        lemma_pool_map_lookup(t);
        assert forall|i: int| #![trigger s[i]] 0 <= i < s.len() implies pool_map(s).contains_key(
            s[i].0@,
        ) && pool_map(s)[s[i].0@] == views(s[i].1@) by {
            if i < s.len() - 1 {
                assert(t[i] == s[i]);
                assert(s[i].0@ != s[s.len() - 1].0@);
            }
        }
        assert forall|k: Seq<char>| #[trigger] pool_map(s).contains_key(k) implies exists|i: int|
            0 <= i < s.len() && (#[trigger] s[i]).0@ == k by {
            if k != s.last().0@ {
                assert(pool_map(t).contains_key(k));
                let i = choose|i: int| 0 <= i < t.len() && (#[trigger] t[i]).0@ == k;
                assert(s[i] == t[i]);
            } else {
                assert(s[s.len() - 1].0@ == k);
            }
        }
    }
}

proof fn lemma_pool_map_update(s: Seq<(String, Vec<String>)>, i: int, e: (String, Vec<String>))
    requires
        distinct_pool_keys(s),
        0 <= i < s.len(),
        s[i].0@ == e.0@,
    ensures
        pool_map(s.update(i, e)) == pool_map(s).insert(e.0@, views(e.1@)),
    decreases s.len(),
{
    let u = s.update(i, e);
    if i == s.len() - 1 {
        assert(u.drop_last() =~= s.drop_last());
        assert(pool_map(u) =~= pool_map(s).insert(e.0@, views(e.1@)));
    } else {
        let t = s.drop_last();
        assert forall|a: int, b: int| 0 <= a < b < t.len() implies (#[trigger] t[a]).0@ != (
        #[trigger] t[b]).0@ by {
            assert(t[a] == s[a] && t[b] == s[b]);
        }
        assert(u.drop_last() =~= t.update(i, e));
        lemma_pool_map_update(t, i, e);
        assert(s.last().0@ != e.0@) by {
            assert(s[i].0@ != s[s.len() - 1].0@);
        }
        assert(pool_map(u) =~= pool_map(s).insert(e.0@, views(e.1@)));
    }
}

/// The position of the entry with key `key`, if any.
fn find_pool(entries: &Vec<(String, Vec<String>)>, key: &str) -> (r: Option<usize>)
    ensures
        match r {
            Some(i) => i < entries@.len() && entries@[i as int].0@ == key@,
            None => forall|j: int| 0 <= j < entries@.len() ==> entries@[j].0@ != key@,
        },
{
    let k = key.to_owned();
    let mut i: usize = 0;
    while i < entries.len()
        invariant
            k@ == key@,
            i <= entries.len(),
            forall|j: int| 0 <= j < i ==> entries@[j].0@ != key@,
        decreases entries.len() - i,
    {
        if entries[i].0.eq(&k) {
            return Some(i);
        }
        i = i + 1;
    }
    None
}

/// The pool after taking a container under `key`: the last one added
/// leaves the pool.
pub open spec fn after_take(m: Map<Seq<char>, Seq<Seq<char>>>, key: Seq<char>) -> Map<Seq<char>, Seq<Seq<char>>> {
    if m.contains_key(key) && m[key].len() > 0 {
        m.insert(key, m[key].drop_last())
    } else {
        m
    }
}

/// The pool after returning container `id` under `key`.
pub open spec fn after_return(m: Map<Seq<char>, Seq<Seq<char>>>, key: Seq<char>, id: Seq<char>) -> Map<Seq<char>, Seq<Seq<char>>> {
    if m.contains_key(key) {
        m.insert(key, m[key].push(id))
    } else {
        m.insert(key, seq![id])
    }
}

/// Idle containers by `language:version` key.
pub struct ContainerPool {
    pools: Vec<(String, Vec<String>)>,
}

impl View for ContainerPool {
    type V = Map<Seq<char>, Seq<Seq<char>>>;

    closed spec fn view(&self) -> Map<Seq<char>, Seq<Seq<char>>> {
        pool_map(self.pools@)
    }
}

impl ContainerPool {
    /// No key occurs twice.
    #[verifier::type_invariant]
    closed spec fn distinct(self) -> bool {
        distinct_pool_keys(self.pools@)
    }

    /// No pools.
    pub fn new() -> (r: ContainerPool)
        ensures
            r@ == Map::<Seq<char>, Seq<Seq<char>>>::empty(),
    {
        ContainerPool { pools: Vec::new() }
    }

    /// Puts `containers` in place as the pool of `key`.
    pub fn init_pool(&mut self, key: String, containers: Vec<String>)
        ensures
            final(self)@ == old(self)@.insert(key@, views(containers@)),
    {
        proof {
            use_type_invariant(&*self);
        }
        let mut pools: Vec<(String, Vec<String>)> = Vec::new();
        std::mem::swap(&mut pools, &mut self.pools);
        let ghost old_pools = pools@;
        let found = find_pool(&pools, key.as_str());
        self.place(pools, found, key, containers);
    }

    /// Stores `(key, containers)` at position `found`, or at the end.
    fn place(
        &mut self,
        pools: Vec<(String, Vec<String>)>,
        found: Option<usize>,
        key: String,
        containers: Vec<String>,
    )
        requires
            distinct_pool_keys(pools@),
            match found {
                Some(i) => i < pools@.len() && pools@[i as int].0@ == key@,
                None => forall|j: int| 0 <= j < pools@.len() ==> pools@[j].0@ != key@,
            },
        ensures
            final(self)@ == pool_map(pools@).insert(key@, views(containers@)),
    {
        let mut pools = pools;
        let ghost old_pools = pools@;
        let ghost e = (key, containers);
        match found {
            Some(i) => {
                proof {
                    lemma_pool_map_update(old_pools, i as int, e);
                }
                pools.set(i, (key, containers));
                assert(pools@ == old_pools.update(i as int, e));
                proof {
                    assert forall|a: int| 0 <= a < pools@.len() implies (#[trigger] pools@[a]).0@
                        == old_pools[a].0@ by {
                        if a == i {
                            assert(pools@[a] == e);
                        } else {
                            assert(pools@[a] == old_pools[a]);
                        }
                    }
                    assert forall|a: int, b: int| 0 <= a < b < pools@.len() implies (
                    #[trigger] pools@[a]).0@ != (#[trigger] pools@[b]).0@ by {
                        assert(pools@[a].0@ == old_pools[a].0@);
                        assert(pools@[b].0@ == old_pools[b].0@);
                        assert(old_pools[a].0@ != old_pools[b].0@);
                    }
                }
            },
            None => {
                pools.push((key, containers));
                assert(pools@.drop_last() =~= old_pools);
            },
        }
        self.pools = pools;
    }

    /// Takes an idle container of `key` for use: the one added last, if the
    /// pool has any. Whoever gets none waits until one is returned.
    pub fn take_container(&mut self, key: &str) -> (r: Option<String>)
        ensures
            final(self)@ == after_take(old(self)@, key@),
            r is Some <==> (old(self)@.contains_key(key@) && old(self)@[key@].len() > 0),
            r matches Some(c) ==> c@ == old(self)@[key@].last(),
    {
        proof {
            use_type_invariant(&*self);
            lemma_pool_map_lookup(self.pools@);
        }
        let mut pools: Vec<(String, Vec<String>)> = Vec::new();
        std::mem::swap(&mut pools, &mut self.pools);
        let ghost old_pools = pools@;
        let found = find_pool(&pools, key);
        match found {
            Some(i) => {
                if pools[i].1.len() == 0 {
                    self.pools = pools;
                    return None;
                }
                let (k, mut list) = pools.remove(i);
                let ghost old_list = list@;
                let c = list.pop().unwrap();
                assert(list@ =~= old_list.drop_last());
                assert(views(list@) =~= views(old_list).drop_last());
                proof {
                    assert(views(old_list).last() == c@);
                }
                pools.insert(i, (k, list));
                assert(pools@ =~= old_pools.update(i as int, pools@[i as int]));
                proof {
                    assert(pools@[i as int].0 == old_pools[i as int].0);
                }
                self.place_update(pools, Ghost(old_pools), i);
                Some(c)
            },
            None => {
                self.pools = pools;
                None
            },
        }
    }

    /// Puts back entries that differ from `old_pools` only at position `i`,
    /// where the key is unchanged.
    fn place_update(
        &mut self,
        pools: Vec<(String, Vec<String>)>,
        old_pools: Ghost<Seq<(String, Vec<String>)>>,
        i: usize,
    )
        requires
            distinct_pool_keys(old_pools@),
            i < old_pools@.len(),
            pools@ == old_pools@.update(i as int, pools@[i as int]),
            pools@[i as int].0 == old_pools@[i as int].0,
        ensures
            final(self)@ == pool_map(old_pools@).insert(
                pools@[i as int].0@,
                views(pools@[i as int].1@),
            ),
    {
        proof {
            lemma_pool_map_update(old_pools@, i as int, pools@[i as int]);
            assert forall|a: int, b: int| 0 <= a < b < pools@.len() implies (
            #[trigger] pools@[a]).0@ != (#[trigger] pools@[b]).0@ by {
                assert(pools@[a].0 == old_pools@[a].0);
                assert(pools@[b].0 == old_pools@[b].0);
            }
        }
        self.pools = pools;
    }

    /// Returns container `id` to the pool of `key`, creating the pool when
    /// there is none.
    pub fn return_container(&mut self, key: &str, id: &str)
        ensures
            final(self)@ == after_return(old(self)@, key@, id@),
    {
        proof {
            use_type_invariant(&*self);
            lemma_pool_map_lookup(self.pools@);
        }
        let mut pools: Vec<(String, Vec<String>)> = Vec::new();
        std::mem::swap(&mut pools, &mut self.pools);
        let ghost old_pools = pools@;
        match find_pool(&pools, key) {
            Some(i) => {
                let (k, mut list) = pools.remove(i);
                let ghost old_list = list@;
                list.push(id.to_owned());
                assert(views(list@) =~= views(old_list).push(id@));
                pools.insert(i, (k, list));
                assert(pools@ =~= old_pools.update(i as int, pools@[i as int]));
                self.place_update(pools, Ghost(old_pools), i);
            },
            None => {
                let mut list: Vec<String> = Vec::new();
                list.push(id.to_owned());
                assert(views(list@) =~= seq![id@]);
                self.place(pools, None, key.to_owned(), list);
            },
        }
    }

    /// How many idle containers the pool of `key` holds.
    pub fn available_containers(&self, key: &str) -> (r: usize)
        ensures
            r == (if self@.contains_key(key@) {
                self@[key@].len()
            } else {
                0
            }),
    {
        proof {
            use_type_invariant(self);
            lemma_pool_map_lookup(self.pools@);
        }
        match find_pool(&self.pools, key) {
            Some(i) => {
                assert(views(self.pools@[i as int].1@).len() == self.pools@[i as int].1@.len());
                self.pools[i].1.len()
            },
            None => 0,
        }
    }

    /// The number of idle containers of every pool, once per key.
    pub fn get_pool_stats(&self) -> (r: Vec<(String, usize)>)
        ensures
            forall|i: int| #![trigger r@[i]] 0 <= i < r@.len() ==> self@.contains_key(r@[i].0@)
                && self@[r@[i].0@].len() == r@[i].1,
            forall|k: Seq<char>| #[trigger] self@.contains_key(k) ==> exists|i: int|
                0 <= i < r@.len() && (#[trigger] r@[i]).0@ == k,
            forall|i: int, j: int| 0 <= i < j < r@.len() ==> (#[trigger] r@[i]).0@ != (
            #[trigger] r@[j]).0@,
    {
        proof {
            use_type_invariant(self);
            lemma_pool_map_lookup(self.pools@);
        }
        let mut r: Vec<(String, usize)> = Vec::new();
        let mut i: usize = 0;
        while i < self.pools.len()
            invariant
                i <= self.pools.len(),
                r@.len() == i,
                forall|j: int| 0 <= j < i ==> (#[trigger] r@[j]).0@ == self.pools@[j].0@ && r@[j].1
                    == self.pools@[j].1@.len(),
            decreases self.pools.len() - i,
        {
            r.push((self.pools[i].0.clone(), self.pools[i].1.len()));
            i = i + 1;
        }
        proof {
            assert forall|i: int| #![trigger r@[i]] 0 <= i < r@.len() implies self@.contains_key(
                r@[i].0@,
            ) && self@[r@[i].0@].len() == r@[i].1 by {
                assert(self.pools@[i].0@ == r@[i].0@);
                assert(views(self.pools@[i].1@).len() == self.pools@[i].1@.len());
            }
            assert forall|k: Seq<char>| #[trigger] self@.contains_key(k) implies exists|i: int|
                0 <= i < r@.len() && (#[trigger] r@[i]).0@ == k by {
                let j = choose|j: int| 0 <= j < self.pools@.len() && (#[trigger] self.pools@[j]).0@
                    == k;
                assert(r@[j].0@ == k);
            }
            assert forall|a: int, b: int| 0 <= a < b < r@.len() implies (#[trigger] r@[a]).0@ != (
            #[trigger] r@[b]).0@ by {
                assert(self.pools@[a].0@ != self.pools@[b].0@);
            }
        }
        r
    }
}

/// Returning the container just taken leaves the pools as they were.
pub proof fn lemma_take_then_return(m: Map<Seq<char>, Seq<Seq<char>>>, key: Seq<char>)
    requires
        m.contains_key(key),
        m[key].len() > 0,
    ensures
        after_return(after_take(m, key), key, m[key].last()) == m,
{
    assert(m[key].drop_last().push(m[key].last()) =~= m[key]);
    assert(after_return(after_take(m, key), key, m[key].last()) =~= m);
}

/// The share of a pool in use, as the pool sizing estimates it: half when
/// the pool holds any container, none otherwise.
pub fn calculate_pool_utilization(current_size: usize) -> (r: u8)
    ensures
        r == (if current_size > 0 {
            50u8
        } else {
            0u8
        }),
{
    if current_size > 0 {
        return 50;
    }
    0
}

/// Resource limits of a language's containers.
#[derive(Clone, Debug)]
pub struct ContainerResourceLimits {
    pub memory: String,
    pub cpu_shares: i64,
}

/// How a language's containers are started and how they run a program.
#[derive(Clone, Debug)]
pub struct ContainerLanguageConfig {
    pub image: String,
    pub command_format: Vec<String>,
    pub resource_limits: ContainerResourceLimits,
    pub env: Vec<String>,
}

/// The languages that have container images, in table order.
pub open spec fn container_languages() -> Seq<Seq<char>> {
    seq!["python"@, "pypy"@, "java"@, "java11"@, "c"@, "cpp"@, "javascript"@]
}

/// The image, run command, memory limit and environment of a language's
/// containers.
pub open spec fn container_config_spec(language: Seq<char>) -> (Seq<char>, Seq<Seq<char>>, Seq<char>, Seq<Seq<char>>) {
    if language == "python"@ {
        ("python:3.9"@, seq!["python"@, "/app/main.py"@], "192m"@, seq!["PYTHONUNBUFFERED=1"@])
    } else if language == "pypy"@ {
        ("pypy:3.9"@, seq!["pypy"@, "/app/main.py"@], "192m"@, seq!["PYTHONUNBUFFERED=1"@])
    } else if language == "java"@ {
        ("java-slim-executor"@, seq!["java"@, "-Xmx1024m"@, "-Xms512m"@, "Main"@], "1024m"@, seq![])
    } else if language == "java11"@ {
        ("java11-slim-executor"@, seq!["java"@, "-Xmx1024m"@, "-Xms512m"@, "Main"@], "1024m"@, seq![])
    } else if language == "c"@ {
        ("gcc-slim-executor"@, seq!["./main"@], "384m"@, seq![])
    } else if language == "cpp"@ {
        ("gcc:11"@, seq!["./main"@], "384m"@, seq![])
    } else {
        ("node:18"@, seq!["node"@, "main.js"@], "192m"@, seq![])
    }
}

/// Whether `c` is the table's configuration for `language`; every
/// language's containers get 256 CPU shares.
pub open spec fn matches_table(language: Seq<char>, c: ContainerLanguageConfig) -> bool {
    let (image, command, memory, env) = container_config_spec(language);
    &&& c.image@ == image
    &&& views(c.command_format@) == command
    &&& c.resource_limits.memory@ == memory
    &&& c.resource_limits.cpu_shares == 256
    &&& views(c.env@) == env
}

/// What starting the container executor sets up: the table of container
/// configurations, the number of containers that may run at once, and
/// empty pools.
pub struct ContainerSetup {
    pub language_configs: Vec<(String, ContainerLanguageConfig)>,
    pub semaphore_permits: usize,
    pub pool: ContainerPool,
}

fn owned(parts: Vec<&str>) -> (r: Vec<String>)
    ensures
        views(r@) == parts@.map_values(|p: &str| p@),
{
    let mut r: Vec<String> = Vec::new();
    let mut i: usize = 0;
    while i < parts.len()
        invariant
            i <= parts@.len(),
            views(r@) == parts@.subrange(0, i as int).map_values(|p: &str| p@),
        decreases parts.len() - i,
    {
        let ghost prev = views(r@);
        r.push(parts[i].to_owned());
        assert(views(r@) =~= prev.push(parts@[i as int]@));
        i = i + 1;
        assert(views(r@) =~= parts@.subrange(0, i as int).map_values(|p: &str| p@));
    }
    assert(parts@.subrange(0, i as int) =~= parts@);
    r
}

fn entry(language: &str, image: &str, command: Vec<&str>, memory: &str, env: Vec<&str>) -> (r: (String, ContainerLanguageConfig))
    ensures
        r.0@ == language@,
        r.1.image@ == image@,
        views(r.1.command_format@) == command@.map_values(|p: &str| p@),
        r.1.resource_limits.memory@ == memory@,
        r.1.resource_limits.cpu_shares == 256,
        views(r.1.env@) == env@.map_values(|p: &str| p@),
{
    (
        language.to_owned(),
        ContainerLanguageConfig {
            image: image.to_owned(),
            command_format: owned(command),
            resource_limits: ContainerResourceLimits { memory: memory.to_owned(), cpu_shares: 256 },
            env: owned(env),
        },
    )
}

/// Sets up the container executor: the configuration of every language
/// that has an image, at most 500 containers at once (fewer if asked),
/// and no pooled containers yet.
pub fn new_executor(max_containers: usize) -> (r: ContainerSetup)
    ensures
        r.language_configs@.len() == container_languages().len(),
        forall|i: int| #![trigger r.language_configs@[i]] 0 <= i < r.language_configs@.len()
            ==> r.language_configs@[i].0@ == container_languages()[i] && matches_table(
            container_languages()[i],
            r.language_configs@[i].1,
        ),
        r.semaphore_permits == (if max_containers <= 500 {
            max_containers
        } else {
            500
        }),
        r.pool@ == Map::<Seq<char>, Seq<Seq<char>>>::empty(),
{
    let mut configs: Vec<(String, ContainerLanguageConfig)> = Vec::new();
    proof {
        reveal_strlit("python");
        reveal_strlit("pypy");
        reveal_strlit("java");
        reveal_strlit("java11");
        reveal_strlit("c");
        reveal_strlit("cpp");
        reveal_strlit("javascript");
        assert("pypy"@.len() != "python"@.len());
        assert("java"@.len() != "python"@.len());
        assert("java"@[0] != "pypy"@[0]);
        assert("java11"@[0] != "python"@[0]);
        assert("java11"@.len() != "pypy"@.len());
        assert("java11"@.len() != "java"@.len());
        assert("c"@.len() != "python"@.len());
        assert("c"@.len() != "pypy"@.len());
        assert("c"@.len() != "java"@.len());
        assert("c"@.len() != "java11"@.len());
        assert("cpp"@.len() != "python"@.len());
        assert("cpp"@.len() != "pypy"@.len());
        assert("cpp"@.len() != "java"@.len());
        assert("cpp"@.len() != "java11"@.len());
        assert("cpp"@.len() != "c"@.len());
        assert("javascript"@.len() != "python"@.len());
        assert("javascript"@.len() != "pypy"@.len());
        assert("javascript"@.len() != "java"@.len());
        assert("javascript"@.len() != "java11"@.len());
        assert("javascript"@.len() != "c"@.len());
        assert("javascript"@.len() != "cpp"@.len());
    }
    let c0: Vec<&str> = vec!["python", "/app/main.py"];
    let v0: Vec<&str> = vec!["PYTHONUNBUFFERED=1"];
    assert(c0@.map_values(|p: &str| p@) =~= seq!["python"@, "/app/main.py"@]);
    assert(v0@.map_values(|p: &str| p@) =~= seq!["PYTHONUNBUFFERED=1"@]);
    let e0 = entry("python", "python:3.9", c0, "192m", v0);
    assert(matches_table("python"@, e0.1));
    configs.push(e0);
    let c1: Vec<&str> = vec!["pypy", "/app/main.py"];
    let v1: Vec<&str> = vec!["PYTHONUNBUFFERED=1"];
    assert(c1@.map_values(|p: &str| p@) =~= seq!["pypy"@, "/app/main.py"@]);
    assert(v1@.map_values(|p: &str| p@) =~= seq!["PYTHONUNBUFFERED=1"@]);
    let e1 = entry("pypy", "pypy:3.9", c1, "192m", v1);
    assert(matches_table("pypy"@, e1.1));
    configs.push(e1);
    let c2: Vec<&str> = vec!["java", "-Xmx1024m", "-Xms512m", "Main"];
    let v2: Vec<&str> = vec![];
    assert(c2@.map_values(|p: &str| p@) =~= seq!["java"@, "-Xmx1024m"@, "-Xms512m"@, "Main"@]);
    assert(v2@.map_values(|p: &str| p@) =~= seq![]);
    let e2 = entry("java", "java-slim-executor", c2, "1024m", v2);
    assert(matches_table("java"@, e2.1));
    configs.push(e2);
    let c3: Vec<&str> = vec!["java", "-Xmx1024m", "-Xms512m", "Main"];
    let v3: Vec<&str> = vec![];
    assert(c3@.map_values(|p: &str| p@) =~= seq!["java"@, "-Xmx1024m"@, "-Xms512m"@, "Main"@]);
    assert(v3@.map_values(|p: &str| p@) =~= seq![]);
    let e3 = entry("java11", "java11-slim-executor", c3, "1024m", v3);
    assert(matches_table("java11"@, e3.1));
    configs.push(e3);
    let c4: Vec<&str> = vec!["./main"];
    let v4: Vec<&str> = vec![];
    assert(c4@.map_values(|p: &str| p@) =~= seq!["./main"@]);
    assert(v4@.map_values(|p: &str| p@) =~= seq![]);
    let e4 = entry("c", "gcc-slim-executor", c4, "384m", v4);
    assert(matches_table("c"@, e4.1));
    configs.push(e4);
    let c5: Vec<&str> = vec!["./main"];
    let v5: Vec<&str> = vec![];
    assert(c5@.map_values(|p: &str| p@) =~= seq!["./main"@]);
    assert(v5@.map_values(|p: &str| p@) =~= seq![]);
    let e5 = entry("cpp", "gcc:11", c5, "384m", v5);
    assert(matches_table("cpp"@, e5.1));
    configs.push(e5);
    let c6: Vec<&str> = vec!["node", "main.js"];
    let v6: Vec<&str> = vec![];
    assert(c6@.map_values(|p: &str| p@) =~= seq!["node"@, "main.js"@]);
    assert(v6@.map_values(|p: &str| p@) =~= seq![]);
    let e6 = entry("javascript", "node:18", c6, "192m", v6);
    assert(matches_table("javascript"@, e6.1));
    configs.push(e6);
    assert(configs@.len() == 7);
    let permits = if max_containers <= 500 { max_containers } else { 500 };
    ContainerSetup { language_configs: configs, semaphore_permits: permits, pool: ContainerPool::new() }
}

} // verus!
