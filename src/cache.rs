//! Expiry of cache entries and the cleanup pass over one cache tier.
//!
//! An entry is one file: zero bytes mark a negative entry ("looked for, not
//! found"), any other length holds the artifact. Ages are measured from the
//! file's modification time, in seconds.
use vstd::prelude::*;

verus! {

/// Limits of one cache tier. `None` means "no limit".
#[derive(Clone, Copy, Debug, PartialEq, Eq, Structural)]
pub struct CacheConfig {
    /// Age after which any entry is dropped.
    pub max_age: Option<u64>,
    /// Age after which a positive entry is computed again.
    pub positive_ttl: Option<u64>,
    /// Age after which a negative entry is computed again.
    pub negative_ttl: Option<u64>,
    /// Total bytes that the tier may hold after cleanup.
    pub max_total_bytes: Option<u64>,
}

/// What the cache knows of one file on disk.
#[derive(Clone, Copy, Debug, PartialEq, Eq, Structural)]
pub struct CacheFile {
    pub size: u64,
    pub mtime: u64,
}

/// How a lookup treats the file found under a key.
#[derive(Clone, Copy, Debug, PartialEq, Eq, Structural)]
pub enum EntryStatus {
    /// A positive entry that may be served.
    Hit,
    /// A negative entry that may be served: the artifact is known to be absent.
    NegativeHit,
    /// The entry is too old and is computed again.
    Expired,
}

pub open spec fn age(mtime: u64, now: u64) -> int {
    if now >= mtime {
        now - mtime
    } else {
        0
    }
}

pub open spec fn older_than(limit: Option<u64>, mtime: u64, now: u64) -> bool {
    match limit {
        Some(l) => age(mtime, now) > l,
        None => false,
    }
}

pub open spec fn status_of(config: CacheConfig, file: CacheFile, now: u64) -> EntryStatus {
    if older_than(config.max_age, file.mtime, now) {
        EntryStatus::Expired
    } else if file.size == 0 {
        if older_than(config.negative_ttl, file.mtime, now) {
            EntryStatus::Expired
        } else {
            EntryStatus::NegativeHit
        }
    } else if older_than(config.positive_ttl, file.mtime, now) {
        EntryStatus::Expired
    } else {
        EntryStatus::Hit
    }
}

fn exceeds(limit: Option<u64>, mtime: u64, now: u64) -> (r: bool)
    ensures
        r == older_than(limit, mtime, now),
{
    match limit {
        Some(l) => {
            let a: u64 = if now >= mtime {
                now - mtime
            } else {
                0
            };
            a > l
        },
        None => false,
    }
}

/// Classifies the file found under a key at time `now`.
pub fn entry_status(config: &CacheConfig, file: CacheFile, now: u64) -> (r: EntryStatus)
    ensures
        r == status_of(*config, file, now),
{
    if exceeds(config.max_age, file.mtime, now) {
        EntryStatus::Expired
    } else if file.size == 0 {
        if exceeds(config.negative_ttl, file.mtime, now) {
            EntryStatus::Expired
        } else {
            EntryStatus::NegativeHit
        }
    } else if exceeds(config.positive_ttl, file.mtime, now) {
        EntryStatus::Expired
    } else {
        EntryStatus::Hit
    }
}

/// What a lookup does with the file found under its key, if any.
#[derive(Clone, Copy, Debug, PartialEq, Eq, Structural)]
pub enum LookupStep {
    /// Serve the file's bytes.
    ServeObject,
    /// Answer that the artifact is known to be absent.
    ServeNegative,
    /// Compute the artifact (or join the computation that runs for the key).
    Compute,
}

pub open spec fn lookup_step_of(config: CacheConfig, file: Option<CacheFile>, now: u64) -> LookupStep {
    match file {
        None => LookupStep::Compute,
        Some(f) => match status_of(config, f, now) {
            EntryStatus::Hit => LookupStep::ServeObject,
            EntryStatus::NegativeHit => LookupStep::ServeNegative,
            EntryStatus::Expired => LookupStep::Compute,
        },
    }
}

/// Decides a lookup on the file found under its key at `now`.
pub fn lookup_step(config: &CacheConfig, file: Option<CacheFile>, now: u64) -> (r: LookupStep)
    ensures
        r == lookup_step_of(*config, file, now),
{
    match file {
        None => LookupStep::Compute,
        Some(f) => match entry_status(config, f, now) {
            EntryStatus::Hit => LookupStep::ServeObject,
            EntryStatus::NegativeHit => LookupStep::ServeNegative,
            EntryStatus::Expired => LookupStep::Compute,
        },
    }
}

/// What a computation of an artifact came to.
pub enum Computed {
    /// The artifact, possibly empty.
    Found(Vec<u8>),
    /// The artifact is confirmed absent.
    NotFound,
    /// The state is unknown (a failed source, a full disk).
    Failed,
}

/// What the callers of a lookup receive.
pub enum CacheItem {
    /// The artifact's bytes.
    Object(Vec<u8>),
    /// The artifact is absent.
    Negative,
}

/// What becomes of a computation: the bytes to write under the key, if any,
/// and what the callers receive (`None` when the computation failed).
pub struct Stored {
    pub write: Option<Vec<u8>>,
    pub item: Option<CacheItem>,
}

/// Stores the result of a computation. An artifact is written as it came and
/// handed out whole, an empty one as an empty object; as an empty file marks
/// absence, an empty artifact is not written. Absence is written as an empty
/// file. A failure writes nothing.
pub fn store_computed(computed: Computed) -> (r: Stored)
    ensures
        match computed {
            Computed::Found(bytes) => {
                &&& r.item matches Some(CacheItem::Object(b)) && b@ == bytes@
                &&& if bytes@.len() == 0 {
                    r.write is None
                } else {
                    r.write matches Some(w) && w@ == bytes@
                }
            },
            Computed::NotFound => r.item matches Some(CacheItem::Negative) && r.write matches Some(w)
                && w@.len() == 0,
            Computed::Failed => r.item is None && r.write is None,
        },
{
    match computed {
        Computed::Found(bytes) => {
            if bytes.len() == 0 {
                Stored { write: None, item: Some(CacheItem::Object(bytes)) }
            } else {
                let copy = bytes.clone();
                Stored { write: Some(copy), item: Some(CacheItem::Object(bytes)) }
            }
        },
        Computed::NotFound => Stored { write: Some(Vec::new()), item: Some(CacheItem::Negative) },
        Computed::Failed => Stored { write: None, item: None },
    }
}

/// A lookup made when an entry has just been written is served from it: the
/// bytes written come back as the object, an empty file as absence, and
/// nothing is computed again.
pub proof fn lemma_written_entry_served(config: CacheConfig, written: Seq<u8>, now: u64)
    requires
        written.len() <= u64::MAX,
    ensures
        written.len() > 0 ==> lookup_step_of(config, Some(CacheFile { size: written.len() as u64, mtime: now }), now)
            == LookupStep::ServeObject,
        written.len() == 0 ==> lookup_step_of(config, Some(CacheFile { size: 0, mtime: now }), now)
            == LookupStep::ServeNegative,
{
}

/// A negative entry older than the negative time-to-live is never served.
pub proof fn lemma_negative_entry_expires(config: CacheConfig, file: CacheFile, now: u64)
    requires
        file.size == 0,
        older_than(config.negative_ttl, file.mtime, now),
    ensures
        status_of(config, file, now) == EntryStatus::Expired,
{
}

/// A file that cleanup removes because of its age alone.
pub open spec fn stale(config: CacheConfig, file: CacheFile, now: u64) -> bool {
    older_than(config.max_age, file.mtime, now)
}

/// Total size of the files of `files` that are not stale and were modified at
/// `since` or later.
pub open spec fn fresh_total_since(
    config: CacheConfig,
    files: Seq<CacheFile>,
    since: u64,
    now: u64,
) -> int
    decreases files.len(),
{
    if files.len() == 0 {
        0
    } else {
        let f = files.last();
        fresh_total_since(config, files.drop_last(), since, now) + if !stale(config, f, now)
            && f.mtime >= since {
            f.size as int
        } else {
            0
        }
    }
}

/// Cleanup removes a file when it is stale, or when the files at least as
/// recent as it do not fit in the tier: files go oldest first, and files of
/// one modification time go together.
pub open spec fn to_delete(config: CacheConfig, files: Seq<CacheFile>, file: CacheFile, now: u64) -> bool {
    stale(config, file, now) || match config.max_total_bytes {
        Some(l) => fresh_total_since(config, files, file.mtime, now) > l,
        None => false,
    }
}

/// The files that a cleanup pass at time `now` leaves in place.
pub open spec fn after_cleanup(config: CacheConfig, files: Seq<CacheFile>, now: u64) -> Seq<CacheFile> {
    files.filter(kept_by(config, files, now))
}

pub open spec fn kept_by(config: CacheConfig, files: Seq<CacheFile>, now: u64) -> spec_fn(CacheFile) -> bool {
    |f: CacheFile| !to_delete(config, files, f, now)
}

/// Sum of all sizes.
pub open spec fn total_size(files: Seq<CacheFile>) -> int
    decreases files.len(),
{
    if files.len() == 0 {
        0
    } else {
        total_size(files.drop_last()) + files.last().size
    }
}

proof fn lemma_fresh_total_prefix(config: CacheConfig, files: Seq<CacheFile>, k: int, since: u64, now: u64)
    requires
        0 <= k <= files.len(),
    ensures
        fresh_total_since(config, files.subrange(0, k), since, now) <= fresh_total_since(
            config,
            files,
            since,
            now,
        ),
    decreases files.len(),
{
    if k < files.len() {
        assert(files.drop_last().subrange(0, k) =~= files.subrange(0, k));
        lemma_fresh_total_prefix(config, files.drop_last(), k, since, now);
    } else {
        assert(files.subrange(0, k) =~= files);
    }
}

/// Whether the fresh files modified at `since` or later hold more than `limit` bytes.
fn fresh_total_exceeds(
    config: &CacheConfig,
    files: &Vec<CacheFile>,
    since: u64,
    limit: u64,
    now: u64,
) -> (r: bool)
    ensures
        r == (fresh_total_since(*config, files@, since, now) > limit),
{
    let mut acc: u64 = 0;
    let mut k: usize = 0;
    while k < files.len()
        invariant
            k <= files@.len(),
            acc <= limit,
            acc == fresh_total_since(*config, files@.subrange(0, k as int), since, now),
        decreases files@.len() - k,
    {
        let f = files[k];
        assert(files@.subrange(0, k + 1).drop_last() =~= files@.subrange(0, k as int));
        if !exceeds(config.max_age, f.mtime, now) && f.mtime >= since {
            if f.size > limit - acc {
                proof {
                    lemma_fresh_total_prefix(*config, files@, k + 1, since, now);
                }
                return true;
            }
            acc = acc + f.size;
        }
        k = k + 1;
    }
    assert(files@.subrange(0, k as int) =~= files@);
    false
}

/// One cleanup pass over a tier: for each file, in order, whether to delete it.
pub fn cleanup_plan(config: &CacheConfig, files: &Vec<CacheFile>, now: u64) -> (r: Vec<bool>)
    ensures
        r@.len() == files@.len(),
        forall|i: int| 0 <= i < files@.len() ==> r@[i] == to_delete(*config, files@, #[trigger] files@[i], now),
{
    let mut r: Vec<bool> = Vec::new();
    let mut i: usize = 0;
    while i < files.len()
        invariant
            i <= files@.len(),
            r@.len() == i,
            forall|j: int| 0 <= j < i ==> r@[j] == to_delete(*config, files@, #[trigger] files@[j], now),
        decreases files@.len() - i,
    {
        let f = files[i];
        let delete = if exceeds(config.max_age, f.mtime, now) {
            true
        } else {
            match config.max_total_bytes {
                Some(l) => fresh_total_exceeds(config, files, f.mtime, l, now),
                None => false,
            }
        };
        r.push(delete);
        i = i + 1;
    }
    r
}

proof fn lemma_fresh_total_filter(
    config: CacheConfig,
    files: Seq<CacheFile>,
    p: spec_fn(CacheFile) -> bool,
    since: u64,
    now: u64,
)
    ensures
        fresh_total_since(config, files.filter(p), since, now) <= fresh_total_since(
            config,
            files,
            since,
            now,
        ),
    decreases files.len(),
{
    reveal(Seq::filter);
    if files.len() > 0 {
        let sub = files.drop_last().filter(p);
        lemma_fresh_total_filter(config, files.drop_last(), p, since, now);
        if p(files.last()) {
            assert(files.filter(p) == sub.push(files.last()));
            assert(sub.push(files.last()).drop_last() =~= sub);
            assert(sub.push(files.last()).last() == files.last());
        } else {
            assert(files.filter(p) == sub);
        }
    }
}

proof fn lemma_fresh_total_antitone(
    config: CacheConfig,
    files: Seq<CacheFile>,
    early: u64,
    late: u64,
    now: u64,
)
    requires
        early <= late,
    ensures
        fresh_total_since(config, files, late, now) <= fresh_total_since(config, files, early, now),
    decreases files.len(),
{
    if files.len() > 0 {
        lemma_fresh_total_antitone(config, files.drop_last(), early, late, now);
    }
}

/// Index of a file of least modification time in a non-empty sequence.
proof fn lemma_oldest(files: Seq<CacheFile>) -> (k: int)
    requires
        files.len() > 0,
    ensures
        0 <= k < files.len(),
        forall|j: int| 0 <= j < files.len() ==> files[k].mtime <= #[trigger] files[j].mtime,
    decreases files.len(),
{
    if files.len() == 1 {
        0
    } else {
        let k0 = lemma_oldest(files.drop_last());
        assert(forall|j: int| 0 <= j < files.len() - 1 ==> files.drop_last()[j] == files[j]);
        if files.last().mtime < files[k0].mtime {
            files.len() - 1
        } else {
            k0
        }
    }
}

proof fn lemma_total_is_fresh_total(config: CacheConfig, files: Seq<CacheFile>, since: u64, now: u64)
    requires
        forall|j: int|
            0 <= j < files.len() ==> !stale(config, #[trigger] files[j], now) && files[j].mtime
                >= since,
    ensures
        total_size(files) == fresh_total_since(config, files, since, now),
    decreases files.len(),
{
    if files.len() > 0 {
        let sub = files.drop_last();
        assert(forall|j: int| 0 <= j < sub.len() ==> sub[j] == files[j]);
        lemma_total_is_fresh_total(config, sub, since, now);
    }
}

/// Cleanup is idempotent: a second pass at the same time deletes nothing.
pub proof fn lemma_cleanup_idempotent(config: CacheConfig, files: Seq<CacheFile>, now: u64)
    ensures
        forall|i: int|
            0 <= i < after_cleanup(config, files, now).len() ==> !to_delete(
                config,
                after_cleanup(config, files, now),
                #[trigger] after_cleanup(config, files, now)[i],
                now,
            ),
{
    let rest = after_cleanup(config, files, now);
    let p = kept_by(config, files, now);
    assert forall|i: int| 0 <= i < rest.len() implies !to_delete(
        config,
        rest,
        #[trigger] rest[i],
        now,
    ) by {
        files.lemma_filter_pred(p, i);
        lemma_fresh_total_filter(config, files, p, rest[i].mtime, now);
    }
}

/// Cleanup removes older files first: a file that is deleted although it is
/// not stale is older than every file that is kept.
pub proof fn lemma_cleanup_oldest_first(
    config: CacheConfig,
    files: Seq<CacheFile>,
    now: u64,
    i: int,
    j: int,
)
    requires
        0 <= i < files.len(),
        0 <= j < files.len(),
        !stale(config, files[i], now),
        to_delete(config, files, files[i], now),
        !to_delete(config, files, files[j], now),
    ensures
        files[i].mtime < files[j].mtime,
{
    if files[i].mtime >= files[j].mtime {
        lemma_fresh_total_antitone(config, files, files[j].mtime, files[i].mtime, now);
    }
}

/// After cleanup the tier holds no stale file, and no more bytes than its limit.
pub proof fn lemma_cleanup_bound(config: CacheConfig, files: Seq<CacheFile>, now: u64)
    ensures
        forall|i: int|
            0 <= i < after_cleanup(config, files, now).len() ==> !stale(
                config,
                #[trigger] after_cleanup(config, files, now)[i],
                now,
            ),
        config.max_total_bytes.is_some() ==> total_size(after_cleanup(config, files, now))
            <= config.max_total_bytes.unwrap(),
{
    let rest = after_cleanup(config, files, now);
    let p = kept_by(config, files, now);
    assert forall|i: int| 0 <= i < rest.len() implies !stale(config, #[trigger] rest[i], now) by {
        files.lemma_filter_pred(p, i);
    }
    if config.max_total_bytes.is_some() && rest.len() > 0 {
        let k = lemma_oldest(rest);
        let m = rest[k].mtime;
        files.lemma_filter_pred(p, k);
        lemma_total_is_fresh_total(config, rest, m, now);
        lemma_fresh_total_filter(config, files, p, m, now);
    }
}

} // verus!
