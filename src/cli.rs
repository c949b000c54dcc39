//! The command line: what each command does, the cache tiers it works on,
//! and how its errors end the process.
use vstd::prelude::*;

use crate::cache::{cleanup_plan, to_delete, CacheConfig, CacheFile};
use crate::paths::opt_view;

verus! {

/// Why a command failed.
pub enum CliError {
    /// The server could not start.
    Startup(String),
    /// The configuration could not be loaded.
    ConfigParsing(String),
    /// A cache directory could not be read or written.
    CacheIo(String),
    /// Cleaning up a cache failed.
    Cleanup(String),
}

impl CliError {
    /// The exit code of the process that fails with this error.
    pub fn exit_code(&self) -> (r: i32)
        ensures
            r == match self {
                CliError::ConfigParsing(_) => 1i32,
                CliError::CacheIo(_) => 2i32,
                CliError::Cleanup(_) => 3i32,
                CliError::Startup(_) => 4i32,
            },
    {
        match self {
            CliError::ConfigParsing(_) => 1,
            CliError::CacheIo(_) => 2,
            CliError::Cleanup(_) => 3,
            CliError::Startup(_) => 4,
        }
    }

    /// What went wrong, in words.
    pub fn description(&self) -> (r: &'static str)
        ensures
            r@.len() > 0,
    {
        proof {
            reveal_strlit("Failed to start the server");
            reveal_strlit("Failed loading config");
            reveal_strlit("Failed loading cache dirs");
            reveal_strlit("Failed cleaning up caches");
        }
        match self {
            CliError::Startup(_) => "Failed to start the server",
            CliError::ConfigParsing(_) => "Failed loading config",
            CliError::CacheIo(_) => "Failed loading cache dirs",
            CliError::Cleanup(_) => "Failed cleaning up caches",
        }
    }
}

/// The version of this crate.
pub fn get_crate_version() -> (r: &'static str)
    ensures
        r@ == "0.1.0"@,
{
    "0.1.0"
}

/// The version of this crate, as `--version` prints it in long form.
pub fn get_long_crate_version() -> (r: &'static str)
    ensures
        r@ == "version: 0.1.0"@,
{
    "version: 0.1.0"
}

/// The commands of the service.
#[derive(Clone, Copy, Debug, PartialEq, Eq, Structural)]
pub enum Command {
    /// Run the web server.
    Run,
    /// Clean the local caches, then exit.
    Cleanup,
}

/// The parsed command line.
pub struct Cli {
    /// Path of the configuration file.
    pub config: Option<String>,
    /// The command to run.
    pub command: Command,
}

impl Cli {
    /// The path of the configuration file, where one was given.
    pub fn config(&self) -> (r: Option<&str>)
        ensures
            match self.config {
                Some(c) => r is Some && r.unwrap()@ == c@,
                None => r is None,
            },
    {
        match &self.config {
            Some(c) => Some(c.as_str()),
            None => None,
        }
    }
}

/// Limits of the cache tiers: one for downloaded objects, one for what is
/// derived from them.
#[derive(Clone, Copy, Debug, PartialEq, Eq, Structural)]
pub struct CacheConfigs {
    pub downloaded: CacheConfig,
    pub derived: CacheConfig,
}

/// What the service is configured with.
pub struct Config {
    /// Directory under which each cache tier has a directory; no caching on
    /// disk without it.
    pub cache_dir: Option<String>,
    pub caches: CacheConfigs,
}

/// One cache tier.
pub struct Cache {
    pub name: String,
    pub path: Option<String>,
    pub config: CacheConfig,
}

impl Cache {
    pub fn new(name: &str, path: Option<String>, config: CacheConfig) -> (r: Cache)
        ensures
            r.name@ == name@,
            r.path == path,
            r.config == config,
    {
        Cache { name: name.to_string(), path, config }
    }

    /// The files to delete in one cleanup pass over this tier, given what it
    /// holds at `now`. A tier without a directory holds nothing.
    pub fn cleanup(&self, files: &Vec<CacheFile>, now: u64) -> (r: Vec<bool>)
        ensures
            r@.len() == files@.len(),
            forall|i: int|
                0 <= i < files@.len() ==> r@[i] == (self.path is Some && to_delete(
                    self.config,
                    files@,
                    #[trigger] files@[i],
                    now,
                )),
    {
        if self.path.is_some() {
            cleanup_plan(&self.config, files, now)
        } else {
            let mut r: Vec<bool> = Vec::new();
            let mut i: usize = 0;
            while i < files.len()
                invariant
                    i <= files@.len(),
                    r@.len() == i,
                    forall|j: int| 0 <= j < i ==> !r@[j],
                decreases files@.len() - i,
            {
                r.push(false);
                i = i + 1;
            }
            r
        }
    }
}

/// The directory of tier `name` under the cache directory.
pub open spec fn tier_dir(cache_dir: Option<String>, name: Seq<char>) -> Option<Seq<char>> {
    match cache_dir {
        Some(d) => Some(d@ + seq!['/'] + name),
        None => None,
    }
}

fn tier_path(cache_dir: &Option<String>, name: &str) -> (r: Option<String>)
    ensures
        opt_view(r) == tier_dir(*cache_dir, name@),
{
    match cache_dir {
        Some(d) => {
            proof {
                reveal_strlit("/");
            }
            assert("/"@ =~= seq!['/']);
            Some(d.clone().concat("/").concat(name))
        },
        None => None,
    }
}

/// The four cache tiers of the service.
pub struct Caches {
    pub objects: Cache,
    pub object_meta: Cache,
    pub symcaches: Cache,
    pub cficaches: Cache,
}

impl Caches {
    /// The tiers of `config`: each in a directory named after it under the
    /// cache directory; downloaded objects with the limits for downloads, the
    /// other tiers with those for derived files.
    pub fn new(config: &Config) -> (r: Caches)
        ensures
            r.objects.name@ == "objects"@,
            r.object_meta.name@ == "object_meta"@,
            r.symcaches.name@ == "symcaches"@,
            r.cficaches.name@ == "cficaches"@,
            opt_view(r.objects.path) == tier_dir(config.cache_dir, "objects"@),
            opt_view(r.object_meta.path) == tier_dir(config.cache_dir, "object_meta"@),
            opt_view(r.symcaches.path) == tier_dir(config.cache_dir, "symcaches"@),
            opt_view(r.cficaches.path) == tier_dir(config.cache_dir, "cficaches"@),
            r.objects.config == config.caches.downloaded,
            r.object_meta.config == config.caches.derived,
            r.symcaches.config == config.caches.derived,
            r.cficaches.config == config.caches.derived,
    {
        Caches {
            objects: Cache::new(
                "objects",
                tier_path(&config.cache_dir, "objects"),
                config.caches.downloaded,
            ),
            object_meta: Cache::new(
                "object_meta",
                tier_path(&config.cache_dir, "object_meta"),
                config.caches.derived,
            ),
            symcaches: Cache::new(
                "symcaches",
                tier_path(&config.cache_dir, "symcaches"),
                config.caches.derived,
            ),
            cficaches: Cache::new(
                "cficaches",
                tier_path(&config.cache_dir, "cficaches"),
                config.caches.derived,
            ),
        }
    }
}

/// What the process goes on to do once the command line and the
/// configuration are read.
pub enum Action {
    /// Serve with this configuration.
    Serve(Config),
    /// Clean up these tiers, then exit.
    Cleanup(Caches),
}

/// Runs the command of `cli` on the configuration that was loaded for it.
pub fn execute(cli: &Cli, config: Result<Config, String>) -> (r: Result<Action, CliError>)
    ensures
        match config {
            Err(e) => r matches Err(CliError::ConfigParsing(m)) && m@ == e@,
            Ok(c) => match cli.command {
                Command::Run => r matches Ok(Action::Serve(s)) && s.cache_dir == c.cache_dir
                    && s.caches == c.caches,
                Command::Cleanup => r matches Ok(Action::Cleanup(caches)) && opt_view(
                    caches.objects.path,
                ) == tier_dir(c.cache_dir, "objects"@) && opt_view(caches.object_meta.path)
                    == tier_dir(c.cache_dir, "object_meta"@) && opt_view(caches.symcaches.path)
                    == tier_dir(c.cache_dir, "symcaches"@) && opt_view(caches.cficaches.path)
                    == tier_dir(c.cache_dir, "cficaches"@) && caches.objects.config
                    == c.caches.downloaded && caches.object_meta.config == c.caches.derived
                    && caches.symcaches.config == c.caches.derived && caches.cficaches.config
                    == c.caches.derived,
            },
        },
{
    match config {
        Err(e) => Err(CliError::ConfigParsing(e)),
        Ok(c) => match cli.command {
            Command::Run => Ok(Action::Serve(c)),
            Command::Cleanup => Ok(Action::Cleanup(Caches::new(&c))),
        },
    }
}

/// Tier number `t` in the order objects, object_meta, symcaches, cficaches.
pub open spec fn tier_of(caches: Caches, t: int) -> Cache {
    if t == 0 {
        caches.objects
    } else if t == 1 {
        caches.object_meta
    } else if t == 2 {
        caches.symcaches
    } else {
        caches.cficaches
    }
}

/// One cleanup pass over the four tiers, in the order objects, object_meta,
/// symcaches, cficaches: for each tier and each of its files, whether to
/// delete it.
pub fn cleanup_caches(caches: &Caches, listings: &Vec<Vec<CacheFile>>, now: u64) -> (r: Vec<Vec<bool>>)
    requires
        listings@.len() == 4,
    ensures
        r@.len() == 4,
        forall|t: int| 0 <= t < 4 ==> (#[trigger] r@[t])@.len() == listings@[t]@.len(),
        forall|t: int, i: int|
            0 <= t < 4 && 0 <= i < listings@[t]@.len() ==> #[trigger] r@[t]@[i] == (tier_of(
                *caches,
                t,
            ).path is Some && to_delete(tier_of(*caches, t).config, listings@[t]@, listings@[t]@[i], now)),
{
    let a = caches.objects.cleanup(&listings[0], now);
    let b = caches.object_meta.cleanup(&listings[1], now);
    let c = caches.symcaches.cleanup(&listings[2], now);
    let d = caches.cficaches.cleanup(&listings[3], now);
    let mut r: Vec<Vec<bool>> = Vec::new();
    r.push(a);
    r.push(b);
    r.push(c);
    r.push(d);
    assert(r@[0] == a && r@[1] == b && r@[2] == c && r@[3] == d);
    assert forall|t: int, i: int|
        0 <= t < 4 && 0 <= i < listings@[t]@.len() implies #[trigger] r@[t]@[i] == (tier_of(
            *caches,
            t,
        ).path is Some && to_delete(tier_of(*caches, t).config, listings@[t]@, listings@[t]@[i], now)) by {
        if t == 0 {
            assert(listings@[0]@[i] == listings@[t]@[i]);
            assert(r@[t]@[i] == a@[i]);
        } else if t == 1 {
            assert(listings@[1]@[i] == listings@[t]@[i]);
            assert(r@[t]@[i] == b@[i]);
        } else if t == 2 {
            assert(listings@[2]@[i] == listings@[t]@[i]);
            assert(r@[t]@[i] == c@[i]);
        } else {
            assert(listings@[3]@[i] == listings@[t]@[i]);
            assert(r@[t]@[i] == d@[i]);
        }
    }
    r
}

} // verus!
