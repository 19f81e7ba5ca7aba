use vstd::prelude::*;

verus! {

/// The character that joins the fields of an artifact name; job names may not hold it.
pub const DELIMITER: char = '-';

/// The whole configuration: the backup jobs and the object store they upload to.
#[derive(Debug, Clone)]
pub struct Config {
    pub backup: Vec<Backup>,
    pub s3: S3,
}

/// One backup job.
#[derive(Debug, Clone)]
pub struct Backup {
    pub name: String,
    pub path: String,
    pub exclude: Vec<String>,
    /// Seconds between two cycles.
    pub interval: usize,
    /// How many generations survive on the store.
    pub keep: usize,
}

/// Connection settings of the object store.
#[derive(Debug, Clone)]
pub struct S3 {
    pub bucket: String,
    pub region: String,
    pub endpoint: String,
    pub access_key_id: String,
    pub secret_access_key: String,
    /// Prefix under which every artifact is written and listed.
    pub root: String,
}

/// Why a configuration is refused before any job is scheduled.
#[derive(Debug, Clone, Copy, PartialEq, Eq, Structural)]
pub enum ConfigError {
    DuplicateName,
    NameHasDelimiter,
    ZeroKeep,
}

pub open spec fn names_unique(jobs: Seq<Backup>) -> bool {
    forall|i: int, j: int|
        0 <= i < jobs.len() && 0 <= j < jobs.len() && i != j ==> jobs[i].name@ != jobs[j].name@
}

pub open spec fn name_has_delimiter(job: Backup) -> bool {
    job.name@.contains(DELIMITER)
}

pub open spec fn some_name_has_delimiter(jobs: Seq<Backup>) -> bool {
    exists|i: int| 0 <= i < jobs.len() && #[trigger] name_has_delimiter(jobs[i])
}

pub open spec fn some_keep_zero(jobs: Seq<Backup>) -> bool {
    exists|i: int| 0 <= i < jobs.len() && #[trigger] jobs[i].keep == 0
}

/// The first rule that the job list breaks, checked in this order:
/// names are unique, no name holds the delimiter, every keep count is positive.
pub open spec fn config_check(jobs: Seq<Backup>) -> Result<(), ConfigError> {
    if !names_unique(jobs) {
        Err(ConfigError::DuplicateName)
    } else if some_name_has_delimiter(jobs) {
        Err(ConfigError::NameHasDelimiter)
    } else if some_keep_zero(jobs) {
        Err(ConfigError::ZeroKeep)
    } else {
        Ok(())
    }
}

impl Backup {
    pub fn default_interval() -> (r: usize)
        ensures
            r == 24 * 60 * 60,
    {
        24 * 60 * 60
    }

    pub fn default_keep() -> (r: usize)
        ensures
            r == 7,
    {
        7
    }
}

impl S3 {
    pub fn default_root() -> (r: String)
        ensures
            r@ == "/backup"@,
    {
        "/backup".to_owned()
    }
}

/// Whether `s` holds the character `c`.
pub fn str_contains(s: &str, c: char) -> (r: bool)
    ensures
        r == s@.contains(c),
{
    let n = s.unicode_len();
    let mut i: usize = 0;
    while i < n
        invariant
            n == s@.len(),
            i <= n,
            forall|k: int| 0 <= k < i ==> s@[k] != c,
        decreases n - i,
    {
        if s.get_char(i) == c {
            return true;
        }
        i += 1;
    }
    false
}

fn names_distinct(jobs: &Vec<Backup>) -> (r: bool)
    ensures
        r == names_unique(jobs@),
{
    let n = jobs.len();
    let mut i: usize = 0;
    while i < n
        invariant
            n == jobs@.len(),
            i <= n,
            forall|a: int, b: int|
                0 <= a < i && 0 <= b < n && a != b ==> jobs@[a].name@ != jobs@[b].name@,
        decreases n - i,
    {
        let mut j: usize = 0;
        while j < n
            invariant
                n == jobs@.len(),
                i < n,
                j <= n,
                forall|a: int, b: int|
                    0 <= a < i && 0 <= b < n && a != b ==> jobs@[a].name@ != jobs@[b].name@,
                forall|b: int| 0 <= b < j && b != i ==> jobs@[i as int].name@ != jobs@[b].name@,
            decreases n - j,
        {
            if j != i && jobs[i].name == jobs[j].name {
                return false;
            }
            j += 1;
        }
        i += 1;
    }
    true
}

/// Checks the job list of a freshly read configuration.
pub fn validate_config(config: &Config) -> (r: Result<(), ConfigError>)
    ensures
        r == config_check(config.backup@),
{
    let jobs = &config.backup;
    let unique = names_distinct(jobs);
    if !unique {
        return Err(ConfigError::DuplicateName);
    }
    let n = jobs.len();
    let mut i: usize = 0;
    while i < n
        invariant
            n == jobs@.len(),
            i <= n,
            jobs@ == config.backup@,
            names_unique(jobs@),
            forall|k: int| 0 <= k < i ==> !(#[trigger] name_has_delimiter(jobs@[k])),
        decreases n - i,
    {
        if str_contains(jobs[i].name.as_str(), DELIMITER) {
            assert(name_has_delimiter(jobs@[i as int]));
            return Err(ConfigError::NameHasDelimiter);
        }
        i += 1;
    }
    let mut i: usize = 0;
    while i < n
        invariant
            n == jobs@.len(),
            i <= n,
            jobs@ == config.backup@,
            names_unique(jobs@),
            !some_name_has_delimiter(jobs@),
            forall|k: int| 0 <= k < i ==> #[trigger] jobs@[k].keep != 0,
        decreases n - i,
    {
        if jobs[i].keep == 0 {
            assert(jobs@[i as int].keep == 0);
            return Err(ConfigError::ZeroKeep);
        }
        i += 1;
    }
    Ok(())
}

} // verus!
