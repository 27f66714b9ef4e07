//! The strategy layer: enumerated read and write policies that compose a
//! hot-tier (cache) outcome and a cold-tier (store) outcome. No I/O of its
//! own: the composition is a pure function of the two outcomes.

use vstd::prelude::*;
use crate::errors::PersistenceError;

verus! {

/// Read policies.
///
/// - `CacheFirst`: consult the hot tier; on a hit return it; on a miss or a
///   transport error fall back to the cold tier (and refill the hot tier,
///   best effort).
/// - `DbOnly`: skip the hot tier entirely.
/// - `CacheOnly`: consult the hot tier only; a miss surfaces `CacheMiss`.
/// - `ReadThrough`: always read the cold tier; on success populate the hot
///   tier.
#[derive(Clone, Copy, PartialEq, Eq, Structural, Debug)]
pub enum ReadStrategy {
    CacheFirst,
    DbOnly,
    CacheOnly,
    ReadThrough,
}

impl Default for ReadStrategy {
    fn default() -> (r: ReadStrategy)
        ensures
            r is CacheFirst,
    {
        ReadStrategy::CacheFirst
    }
}

impl ReadStrategy {
    /// Whether this policy refills the hot tier with the cold result.
    pub open spec fn spec_populates_hot(self) -> bool {
        self is CacheFirst || self is ReadThrough
    }

    pub fn populates_hot(&self) -> (r: bool)
        ensures
            r == self.spec_populates_hot(),
    {
        match self {
            ReadStrategy::CacheFirst | ReadStrategy::ReadThrough => true,
            _ => false,
        }
    }
}

/// Write policies.
///
/// - `WriteThrough`: write the cold tier first; on success write the hot
///   tier best effort — a hot failure never fails the call; on a cold
///   failure the hot tier is left untouched and the error surfaces.
/// - `WriteAround`: write the cold tier and invalidate the hot entry.
/// - `WriteBack`: write the hot tier first (must succeed) and schedule the
///   cold write in the background.
/// - `DbOnly`: write the cold tier and leave the hot tier untouched.
#[derive(Clone, Copy, PartialEq, Eq, Structural, Debug)]
pub enum WriteStrategy {
    WriteThrough,
    WriteAround,
    WriteBack,
    DbOnly,
}

impl Default for WriteStrategy {
    fn default() -> (r: WriteStrategy)
        ensures
            r is WriteThrough,
    {
        WriteStrategy::WriteThrough
    }
}

/// Compose a read from the two tier outcomes under a read policy.
///
/// The result is exactly: the hot value on a hot hit under `CacheFirst` or
/// `CacheOnly`; the cold outcome under `DbOnly`, `ReadThrough`, and every
/// `CacheFirst` miss or hot error; and `CacheMiss(key)` for a `CacheOnly`
/// miss. A `CacheOnly` hot-tier error propagates.
pub fn compose_read<T>(
    strategy: ReadStrategy,
    key: &str,
    hot: Result<Option<T>, PersistenceError>,
    cold: Result<T, PersistenceError>,
) -> (r: Result<T, PersistenceError>)
    ensures
        strategy is CacheFirst ==> match hot {
            Ok(Some(v)) => r == Ok::<T, PersistenceError>(v),
            _ => r == cold,
        },
        strategy is DbOnly ==> r == cold,
        strategy is ReadThrough ==> r == cold,
        strategy is CacheOnly ==> match hot {
            Ok(Some(v)) => r == Ok::<T, PersistenceError>(v),
            Ok(None) => r matches Err(PersistenceError::CacheMiss(k)) && k@ == key@,
            Err(e) => r == Err::<T, PersistenceError>(e),
        },
{
    match strategy {
        ReadStrategy::CacheFirst => match hot {
            Ok(Some(v)) => Ok(v),
            _ => cold,
        },
        ReadStrategy::DbOnly | ReadStrategy::ReadThrough => cold,
        ReadStrategy::CacheOnly => match hot {
            Ok(Some(v)) => Ok(v),
            Ok(None) => Err(PersistenceError::CacheMiss(String::from_str(key))),
            Err(e) => Err(e),
        },
    }
}

/// Compose a write from the two tier outcomes under a write policy.
///
/// Exactly: under `WriteThrough`, `WriteAround`, and `DbOnly` the call
/// succeeds if and only if the cold write succeeded (a hot failure is
/// swallowed); under `WriteBack` the call succeeds if and only if the hot
/// write succeeded, the cold write being deferred.
pub fn compose_write(
    strategy: WriteStrategy,
    cold: Result<(), PersistenceError>,
    hot: Result<(), PersistenceError>,
) -> (r: Result<(), PersistenceError>)
    ensures
        !(strategy is WriteBack) ==> r == cold,
        strategy is WriteBack ==> r == hot,
{
    match strategy {
        WriteStrategy::WriteThrough | WriteStrategy::WriteAround | WriteStrategy::DbOnly => cold,
        WriteStrategy::WriteBack => hot,
    }
}

// =============================================================================
// NAMED STRATEGY VALUES
// =============================================================================

/// Cache-first read strategy value.
#[derive(Clone, Copy, PartialEq, Eq, Structural, Debug)]
pub struct CacheFirstStrategy {
    /// Whether to refill the hot tier on a miss.
    pub populate_on_miss: bool,
}

impl CacheFirstStrategy {
    pub fn new(populate_on_miss: bool) -> (s: CacheFirstStrategy)
        ensures
            s.populate_on_miss == populate_on_miss,
    {
        CacheFirstStrategy { populate_on_miss }
    }

    pub fn name(&self) -> (n: &'static str)
        ensures
            n@ == "cache_first"@,
    {
        "cache_first"
    }
}

/// Cold-tier-only read strategy value.
#[derive(Clone, Copy, PartialEq, Eq, Structural, Debug)]
pub struct DbOnlyStrategy;

impl DbOnlyStrategy {
    pub fn name(&self) -> (n: &'static str)
        ensures
            n@ == "db_only"@,
    {
        "db_only"
    }
}

/// Hot-tier-only read strategy value.
#[derive(Clone, Copy, PartialEq, Eq, Structural, Debug)]
pub struct CacheOnlyStrategy;

impl CacheOnlyStrategy {
    pub fn name(&self) -> (n: &'static str)
        ensures
            n@ == "cache_only"@,
    {
        "cache_only"
    }
}

/// Read-through strategy value. The refresh threshold is in parts per
/// thousand of the TTL remaining.
#[derive(Clone, Copy, PartialEq, Eq, Structural, Debug)]
pub struct ReadThroughStrategy {
    pub refresh_threshold_ppm: u32,
}

impl Default for ReadThroughStrategy {
    fn default() -> (s: ReadThroughStrategy)
        ensures
            s.refresh_threshold_ppm == 200,
    {
        ReadThroughStrategy { refresh_threshold_ppm: 200 }
    }
}

/// Read strategy selected dynamically.
#[derive(Clone, Copy, PartialEq, Eq, Structural, Debug)]
pub enum DynamicStrategy {
    CacheFirst(CacheFirstStrategy),
    DbOnly(DbOnlyStrategy),
    CacheOnly(CacheOnlyStrategy),
    ReadThrough(ReadThroughStrategy),
}

impl DynamicStrategy {
    /// The enumerated policy this value selects.
    pub fn as_read_strategy(&self) -> (r: ReadStrategy)
        ensures
            self is CacheFirst <==> r is CacheFirst,
            self is DbOnly <==> r is DbOnly,
            self is CacheOnly <==> r is CacheOnly,
            self is ReadThrough <==> r is ReadThrough,
    {
        match self {
            DynamicStrategy::CacheFirst(_) => ReadStrategy::CacheFirst,
            DynamicStrategy::DbOnly(_) => ReadStrategy::DbOnly,
            DynamicStrategy::CacheOnly(_) => ReadStrategy::CacheOnly,
            DynamicStrategy::ReadThrough(_) => ReadStrategy::ReadThrough,
        }
    }
}

impl Default for DynamicStrategy {
    fn default() -> (r: DynamicStrategy)
        ensures
            r matches DynamicStrategy::CacheFirst(s) && s.populate_on_miss,
    {
        DynamicStrategy::CacheFirst(CacheFirstStrategy::new(true))
    }
}

/// Write-through strategy value.
#[derive(Clone, Copy, PartialEq, Eq, Structural, Debug)]
pub struct WriteThroughStrategy;

impl WriteThroughStrategy {
    pub fn name(&self) -> (n: &'static str)
        ensures
            n@ == "write_through"@,
    {
        "write_through"
    }
}

/// Write-around strategy value.
#[derive(Clone, Copy, PartialEq, Eq, Structural, Debug)]
pub struct WriteAroundStrategy;

impl WriteAroundStrategy {
    pub fn name(&self) -> (n: &'static str)
        ensures
            n@ == "write_around"@,
    {
        "write_around"
    }
}

/// Write-back strategy value.
#[derive(Clone, Copy, PartialEq, Eq, Structural, Debug)]
pub struct WriteBackStrategy;

impl WriteBackStrategy {
    pub fn name(&self) -> (n: &'static str)
        ensures
            n@ == "write_back"@,
    {
        "write_back"
    }
}

/// Cold-tier-only write strategy value.
#[derive(Clone, Copy, PartialEq, Eq, Structural, Debug)]
pub struct DbOnlyWriteStrategy;

impl DbOnlyWriteStrategy {
    pub fn name(&self) -> (n: &'static str)
        ensures
            n@ == "db_only_write"@,
    {
        "db_only_write"
    }
}

/// Write strategy selected dynamically.
#[derive(Clone, Copy, PartialEq, Eq, Structural, Debug)]
pub enum DynamicWriteStrategy {
    WriteThrough(WriteThroughStrategy),
    WriteAround(WriteAroundStrategy),
    WriteBack(WriteBackStrategy),
    DbOnly(DbOnlyWriteStrategy),
}

impl DynamicWriteStrategy {
    /// The enumerated policy this value selects.
    pub fn as_write_strategy(&self) -> (r: WriteStrategy)
        ensures
            self is WriteThrough <==> r is WriteThrough,
            self is WriteAround <==> r is WriteAround,
            self is WriteBack <==> r is WriteBack,
            self is DbOnly <==> r is DbOnly,
    {
        match self {
            DynamicWriteStrategy::WriteThrough(_) => WriteStrategy::WriteThrough,
            DynamicWriteStrategy::WriteAround(_) => WriteStrategy::WriteAround,
            DynamicWriteStrategy::WriteBack(_) => WriteStrategy::WriteBack,
            DynamicWriteStrategy::DbOnly(_) => WriteStrategy::DbOnly,
        }
    }
}

impl Default for DynamicWriteStrategy {
    fn default() -> (r: DynamicWriteStrategy)
        ensures
            r is WriteThrough,
    {
        DynamicWriteStrategy::WriteThrough(WriteThroughStrategy)
    }
}

} // verus!
