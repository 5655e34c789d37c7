//! Failures that do not stop a run: they are recorded by region and
//! raised together once all work is done.

use std::collections::HashMap;
use vstd::prelude::*;
use vstd::std_specs::iter::IteratorSpec;

verus! {

/// Failures keyed by region coordinates. A region has at most the one
/// failure that was recorded for it last.
///
/// The failures are kept in a `HashMap` under one integer per region,
/// [`key_of`] its coordinates.
#[derive(Debug)]
pub struct ErrorLog {
    failures: HashMap<i64, String>,
}

/// The two logs of a run: regions that could not be decoded, and regions
/// in which a column could not be.
#[derive(Debug)]
pub struct RunErrors {
    pub regions: ErrorLog,
    pub columns: ErrorLog,
}

/// Why a run failed.
#[derive(Debug)]
pub enum RunError {
    /// Columns failed to decode; the log is keyed by region.
    Cols(ErrorLog),
    /// A region that was listed could not be found when it was opened.
    RegionNotFound,
    /// Regions failed to decode.
    Regions(ErrorLog),
}

/// The integer under which the region `(x, z)` is filed: x in the upper
/// 32 bits, z counted from its least value in the lower.
pub open spec fn key_of(x: int, z: int) -> int {
    x * 0x1_0000_0000 + (z + 0x8000_0000)
}

/// The region that is filed under an integer.
pub open spec fn region_of(key: int) -> (int, int) {
    (key / 0x1_0000_0000, key % 0x1_0000_0000 - 0x8000_0000)
}

/// Whether both coordinates fit 32 bits.
pub open spec fn in_range(at: (int, int)) -> bool {
    i32::MIN <= at.0 <= i32::MAX && i32::MIN <= at.1 <= i32::MAX
}

/// The log without entries.
pub open spec fn no_failures() -> Map<(int, int), Seq<char>> {
    Map::empty()
}

/// Whether a text is the message of some entry of a log.
pub open spec fn is_message_of(log: Map<(int, int), Seq<char>>, text: Seq<char>) -> bool {
    exists|at: (int, int)| #[trigger] log.contains_key(at) && log[at] == text
}

/// The last writer wins: after a failure is recorded its message is the
/// one filed under its region, whatever was filed there before, every
/// other region keeps what it had, and the log grows by one exactly when
/// the region had no entry.
pub proof fn lemma_last_writer_wins(log: Map<(int, int), Seq<char>>, at: (int, int), earlier: Seq<char>, later: Seq<char>, other: (int, int))
    requires
        log.dom().finite(),
        other != at,
    ensures
        log.insert(at, earlier).insert(at, later) == log.insert(at, later),
        log.insert(at, later)[at] == later,
        log.insert(at, later).contains_key(other) == log.contains_key(other),
        log.contains_key(other) ==> log.insert(at, later)[other] == log[other],
        log.insert(at, later).dom().len() == log.dom().len() + (if log.contains_key(at) {
            0int
        } else {
            1int
        }),
{
    assert(log.insert(at, earlier).insert(at, later) =~= log.insert(at, later));
    assert(log.insert(at, later).dom() =~= log.dom().insert(at));
}

/// The key of a region.
fn pack(x: i32, z: i32) -> (key: i64)
    ensures
        key == key_of(x as int, z as int),
{
    x as i64 * 0x1_0000_0000 + (z as i64 + 0x8000_0000)
}

impl View for ErrorLog {
    type V = Map<(int, int), Seq<char>>;

    closed spec fn view(&self) -> Map<(int, int), Seq<char>> {
        Map::new(
            |at: (int, int)| in_range(at) && self.failures@.contains_key(key_of(at.0, at.1) as i64),
            |at: (int, int)| self.failures@[key_of(at.0, at.1) as i64]@,
        )
    }
}

impl ErrorLog {
    /// A log without entries.
    pub fn new() -> (log: ErrorLog)
        ensures
            log@ == no_failures(),
    {
        let log = ErrorLog { failures: HashMap::new() };
        assert(log@ =~= no_failures());
        log
    }

    /// Files a failure under the region `(x, z)`, in place of an earlier
    /// one under the same region.
    pub fn record(&mut self, x: i32, z: i32, message: String)
        ensures
            final(self)@ == old(self)@.insert((x as int, z as int), message@),
    {
        broadcast use vstd::std_specs::hash::group_hash_axioms;

        self.failures.insert(pack(x, z), message);
        assert(self@ =~= old(self)@.insert((x as int, z as int), message@));
    }

    /// Whether nothing was recorded.
    pub fn is_empty(&self) -> (empty: bool)
        ensures
            empty == (self@ == no_failures()),
    {
        broadcast use vstd::std_specs::hash::group_hash_axioms;

        let empty = self.failures.is_empty();
        proof {
            if !empty {
                let key = choose|key: i64| self.failures@.contains_key(key);
                let at = region_of(key as int);
                assert(key_of(at.0, at.1) == key);
                assert(self@.contains_key(at));
            } else {
                assert(self@ =~= no_failures());
            }
        }
        empty
    }

    /// The number of regions with a recorded failure.
    pub fn len(&self) -> (n: usize)
        ensures
            self@.dom().finite(),
            n == self@.dom().len(),
    {
        broadcast use vstd::std_specs::hash::group_hash_axioms;

        let n = self.failures.len();
        proof {
            let region = |key: i64| region_of(key as int);
            assert forall|a: i64, b: i64| #[trigger] region(a) == #[trigger] region(b) implies a == b by {
                assert(a == (a / 0x1_0000_0000) * 0x1_0000_0000 + a % 0x1_0000_0000);
                assert(b == (b / 0x1_0000_0000) * 0x1_0000_0000 + b % 0x1_0000_0000);
            }
            assert(vstd::relations::injective_on(region, self.failures@.dom()));
            assert forall|at: (int, int)| self.failures@.dom().map(region).contains(at) <==> self@.dom().contains(
                at,
            ) by {
                if self@.dom().contains(at) {
                    let key = key_of(at.0, at.1) as i64;
                    assert(region(key) == at);
                    assert(self.failures@.dom().contains(key));
                }
                if self.failures@.dom().map(region).contains(at) {
                    let key = choose|key: i64| self.failures@.dom().contains(key) && region(key) == at;
                    assert(key_of(at.0, at.1) == key);
                }
            }
            assert(self.failures@.dom().map(region) =~= self@.dom());
            vstd::set_lib::lemma_map_size(self.failures@.dom(), self@.dom(), region);
        }
        n
    }

    /// The message filed under the region `(x, z)`.
    pub fn get(&self, x: i32, z: i32) -> (message: Option<&String>)
        ensures
            message.is_some() == self@.contains_key((x as int, z as int)),
            message matches Some(m) ==> self@[(x as int, z as int)] == m@,
    {
        broadcast use vstd::std_specs::hash::group_hash_axioms;

        let key = pack(x, z);
        self.failures.get(&key)
    }

    /// One failure to report for all: the message of some entry, whichever
    /// the map hands out first. `None` for an empty log.
    pub fn representative(&self) -> (message: Option<&String>)
        ensures
            message.is_some() == (self@ != no_failures()),
            message matches Some(m) ==> is_message_of(self@, m@),
    {
        broadcast use vstd::std_specs::hash::group_hash_axioms;

        let ghost all: Seq<&String> = self.failures.values().remaining();
        for value in it: self.failures.values()
            invariant
                it.seq() == all,
                it.index() == 0,
        {
            proof {
                assert(all.unref().to_set() == self.failures@.values());
                assert(all.unref()[0] == *value);
                assert(all.unref().to_set().contains(*value));
                let key = choose|key: i64| self.failures@.contains_key(key) && self.failures@[key] == *value;
                let at = region_of(key as int);
                assert(key_of(at.0, at.1) == key);
                assert(self@.contains_key(at) && self@[at] == value@);
            }
            return Some(value);
        }
        proof {
            assert(self.failures@.dom().len() == 0);
            assert(self.failures@.dom() =~= Set::<i64>::empty());
            assert(self@ =~= no_failures());
        }
        None
    }
}

impl RunErrors {
    /// Two empty logs.
    pub fn new() -> (errors: RunErrors)
        ensures
            errors.regions@ == no_failures(),
            errors.columns@ == no_failures(),
    {
        RunErrors { regions: ErrorLog::new(), columns: ErrorLog::new() }
    }

    /// How the run ends once all work is done: with the region failures if
    /// there are any, else with the column failures if there are any, else
    /// well.
    pub fn finish(self) -> (end: Result<(), RunError>)
        ensures
            end is Ok <==> self.regions@ == no_failures() && self.columns@ == no_failures(),
            self.regions@ != no_failures() ==> end == Err::<(), RunError>(RunError::Regions(self.regions)),
            self.regions@ == no_failures() && self.columns@ != no_failures() ==> end == Err::<(), RunError>(
                RunError::Cols(self.columns),
            ),
    {
        if !self.regions.is_empty() {
            Err(RunError::Regions(self.regions))
        } else if !self.columns.is_empty() {
            Err(RunError::Cols(self.columns))
        } else {
            Ok(())
        }
    }
}

/// Whether a text is what a failed run may report: for a log of failures
/// the message of one of its entries, or nothing where the log is empty.
pub open spec fn reports(error: RunError, text: Seq<char>) -> bool {
    match error {
        RunError::Cols(log) | RunError::Regions(log) => if log@ == no_failures() {
            text == Seq::<char>::empty()
        } else {
            is_message_of(log@, text)
        },
        RunError::RegionNotFound => text == "a region that was listed has since been deleted"@,
    }
}

impl RunError {
    /// The message to show for this error: for a log of failures, that of
    /// its representative.
    pub fn message(&self) -> (text: String)
        ensures
            reports(*self, text@),
    {
        match self {
            RunError::Cols(log) => match log.representative() {
                Some(m) => m.clone(),
                None => String::new(),
            },
            RunError::RegionNotFound => "a region that was listed has since been deleted".to_owned(),
            RunError::Regions(log) => match log.representative() {
                Some(m) => m.clone(),
                None => String::new(),
            },
        }
    }
}

} // verus!
