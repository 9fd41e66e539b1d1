//! Best-effort, at-most-once persistence of code-to-message records.
//!
//! Persistence is a side effect at the edge of the transform, so it is split
//! in two: this module holds the decisions — a small protocol that probes the
//! storage directory, probes the record, and retries a failed write up to a
//! fixed bound, giving up with one warning and never failing the transform —
//! while the caller performs each requested operation against its storage
//! and reports back whether it succeeded. [`MemStore`] is an in-memory
//! storage fake, against which the whole protocol is verified:
//! [`persist_to_mem`] records each distinct name exactly once and never
//! overwrites an existing record.
use vstd::prelude::*;

use vstd::string::StringExecFns;

use crate::registry::code_of;
use crate::registry::register;

verus! {

/// How many times a failed write of a record is attempted before giving up.
pub const WRITE_ATTEMPTS: u64 = 3;

/// The next operation the persistence protocol asks its storage to perform.
///
/// The caller performs the operation the current step stands for and feeds
/// the outcome to [`PersistStep::next`] to learn the following step.
#[derive(Debug, PartialEq, Eq, Structural)]
pub enum PersistStep {
    /// Ask whether the storage directory exists; success means it does.
    ProbeDir,
    /// Create the storage directory; finding it already there is success.
    EnsureDir,
    /// Ask whether the record already exists; success means it does.
    ProbeRecord,
    /// Write the record; `attempt` write attempts have failed so far.
    WriteRecord { attempt: u64 },
    /// Emit one warning that the record could not be written, then finish.
    Warn,
    /// Nothing is left to do.
    Finished,
}

/// The transition of the persistence protocol: which step follows `s` when
/// the operation `s` stands for succeeded or failed.
pub open spec fn next_step(s: PersistStep, succeeded: bool) -> PersistStep {
    match s {
        PersistStep::ProbeDir => if succeeded {
            PersistStep::ProbeRecord
        } else {
            PersistStep::EnsureDir
        },
        PersistStep::EnsureDir => if succeeded {
            PersistStep::ProbeRecord
        } else {
            PersistStep::Warn
        },
        PersistStep::ProbeRecord => if succeeded {
            PersistStep::Finished
        } else {
            PersistStep::WriteRecord { attempt: 0 }
        },
        PersistStep::WriteRecord { attempt } => if succeeded {
            PersistStep::Finished
        } else if attempt + 1 < WRITE_ATTEMPTS {
            PersistStep::WriteRecord { attempt: (attempt + 1) as u64 }
        } else {
            PersistStep::Warn
        },
        PersistStep::Warn => PersistStep::Finished,
        PersistStep::Finished => PersistStep::Finished,
    }
}

impl PersistStep {
    /// A step never records more failed attempts than the retry bound allows.
    pub open spec fn wf(self) -> bool {
        self matches PersistStep::WriteRecord { attempt } ==> attempt < WRITE_ATTEMPTS
    }

    /// How far the protocol still is from `Finished`; each transition
    /// strictly decreases it, so every run of the protocol ends.
    pub open spec fn rank(self) -> nat {
        match self {
            PersistStep::ProbeDir => 9,
            PersistStep::EnsureDir => 8,
            PersistStep::ProbeRecord => 7,
            PersistStep::WriteRecord { attempt } => if attempt < WRITE_ATTEMPTS {
                2 + (WRITE_ATTEMPTS - attempt) as nat
            } else {
                2
            },
            PersistStep::Warn => 1,
            PersistStep::Finished => 0,
        }
    }

    /// The step the protocol begins with.
    pub fn start() -> (r: Self)
        ensures
            r == PersistStep::ProbeDir,
    {
        PersistStep::ProbeDir
    }

    /// Consumes the outcome of the operation this step stands for and
    /// returns the step that follows.
    pub fn next(self, succeeded: bool) -> (r: Self)
        requires
            self.wf(),
        ensures
            r == next_step(self, succeeded),
            r.wf(),
    {
        match self {
            PersistStep::ProbeDir => if succeeded {
                PersistStep::ProbeRecord
            } else {
                PersistStep::EnsureDir
            },
            PersistStep::EnsureDir => if succeeded {
                PersistStep::ProbeRecord
            } else {
                PersistStep::Warn
            },
            PersistStep::ProbeRecord => if succeeded {
                PersistStep::Finished
            } else {
                PersistStep::WriteRecord { attempt: 0 }
            },
            PersistStep::WriteRecord { attempt } => if succeeded {
                PersistStep::Finished
            } else if attempt + 1 < WRITE_ATTEMPTS {
                PersistStep::WriteRecord { attempt: attempt + 1 }
            } else {
                PersistStep::Warn
            },
            PersistStep::Warn => PersistStep::Finished,
            PersistStep::Finished => PersistStep::Finished,
        }
    }
}

/// Every transition out of an unfinished step brings the protocol strictly
/// closer to `Finished`: no run of the protocol can go on forever.
pub proof fn lemma_protocol_terminates(s: PersistStep, succeeded: bool)
    requires
        s.wf(),
        s != PersistStep::Finished,
    ensures
        next_step(s, succeeded).rank() < s.rank(),
{
}

/// The file name a diagnostic code's record is stored under.
pub open spec fn record_name(code: Seq<char>) -> Seq<char> {
    code + ".txt"@
}

/// Builds the file name for a code's record.
pub fn record_file_name(code: &str) -> (r: String)
    ensures
        r@ == record_name(code@),
{
    let mut s = code.to_owned();
    s.append(".txt");
    s
}

/// One stored record: a file name and its content.
#[derive(Debug, PartialEq, Eq)]
pub struct Record {
    pub name: String,
    pub content: String,
}

/// What a sequence of records holds, as a map from names to contents; a
/// later record with the same name wins, though a well-formed store never
/// holds two records of one name.
pub open spec fn records_map(rs: Seq<Record>) -> Map<Seq<char>, Seq<char>>
    decreases rs,
{
    if rs.len() == 0 {
        Map::empty()
    } else {
        records_map(rs.drop_last()).insert(rs.last().name@, rs.last().content@)
    }
}

/// A name is in the map exactly when some record carries it.
pub proof fn lemma_records_map_dom(rs: Seq<Record>, k: Seq<char>)
    ensures
        records_map(rs).dom().contains(k) <==> (exists|i: int|
            0 <= i < rs.len() && (#[trigger] rs[i]).name@ == k),
    decreases rs,
{
    if rs.len() > 0 {
        lemma_records_map_dom(rs.drop_last(), k);
        if records_map(rs).dom().contains(k) {
            if k == rs.last().name@ {
                assert(0 <= rs.len() - 1 < rs.len() && (rs[rs.len() - 1]).name@ == k);
            } else {
                let i = choose|i: int|
                    0 <= i < rs.drop_last().len() && (#[trigger] rs.drop_last()[i]).name@ == k;
                assert((rs[i]).name@ == k);
            }
        }
        if exists|i: int| 0 <= i < rs.len() && (#[trigger] rs[i]).name@ == k {
            let i = choose|i: int| 0 <= i < rs.len() && (#[trigger] rs[i]).name@ == k;
            if i < rs.len() - 1 {
                assert(rs.drop_last()[i] == rs[i]);
                assert(records_map(rs.drop_last()).dom().contains(k));
            }
        }
    }
}

/// An in-memory store of records: the storage fake the persistence protocol
/// is verified against. Its directory always exists and its writes always
/// succeed.
#[derive(Debug, PartialEq, Eq)]
pub struct MemStore {
    records: Vec<Record>,
}

impl View for MemStore {
    type V = Map<Seq<char>, Seq<char>>;

    closed spec fn view(&self) -> Map<Seq<char>, Seq<char>> {
        records_map(self.records@)
    }
}

impl MemStore {
    /// No two records share a name.
    pub closed spec fn wf(&self) -> bool {
        forall|i: int, j: int|
            0 <= i < j < self.records@.len() ==> (#[trigger] self.records@[i]).name@ != (
            #[trigger] self.records@[j]).name@
    }

    /// An empty store.
    pub fn new() -> (r: Self)
        ensures
            r.wf(),
            r@ == Map::<Seq<char>, Seq<char>>::empty(),
    {
        MemStore { records: Vec::new() }
    }

    /// Whether a record named `name` is stored.
    pub fn contains(&self, name: &str) -> (r: bool)
        ensures
            r == self@.dom().contains(name@),
    {
        proof {
            lemma_records_map_dom(self.records@, name@);
        }
        let name_owned = name.to_owned();
        let mut i: usize = 0;
        while i < self.records.len()
            invariant
                0 <= i <= self.records@.len(),
                name_owned@ == name@,
                forall|j: int| 0 <= j < i ==> (#[trigger] self.records@[j]).name@ != name@,
            decreases self.records@.len() - i,
        {
            if self.records[i].name == name_owned {
                proof {
                    let ghost idx = i as int;
                    assert(0 <= idx < self.records@.len() && (#[trigger] self.records@[idx]).name@
                        == name@);
                    assert(exists|j: int|
                        0 <= j < self.records@.len() && (#[trigger] self.records@[j]).name@
                            == name@);
                    lemma_records_map_dom(self.records@, name@);
                    assert(self@.dom().contains(name@));
                }
                return true;
            }
            i += 1;
        }
        false
    }

    /// Stores a new record. The registry never overwrites: a record is
    /// written only after probing found none of that name.
    pub fn write(&mut self, name: &str, content: &str)
        requires
            old(self).wf(),
            !old(self)@.dom().contains(name@),
        ensures
            final(self).wf(),
            final(self)@ == old(self)@.insert(name@, content@),
    {
        proof {
            lemma_records_map_dom(self.records@, name@);
        }
        let ghost orig = self.records@;
        let rec = Record { name: name.to_owned(), content: content.to_owned() };
        self.records.push(rec);
        proof {
            assert(self.records@.drop_last() =~= orig);
        }
    }

    /// The content stored under `name`, if any.
    pub fn lookup(&self, name: &str) -> (r: Option<String>)
        requires
            self.wf(),
        ensures
            self@.dom().contains(name@) ==> (r matches Some(c) && c@ == self@[name@]),
            !self@.dom().contains(name@) ==> r is None,
    {
        proof {
            lemma_records_map_dom(self.records@, name@);
        }
        let name_owned = name.to_owned();
        let mut i: usize = 0;
        while i < self.records.len()
            invariant
                0 <= i <= self.records@.len(),
                name_owned@ == name@,
                self.wf(),
                forall|j: int| 0 <= j < i ==> (#[trigger] self.records@[j]).name@ != name@,
            decreases self.records@.len() - i,
        {
            if self.records[i].name == name_owned {
                proof {
                    lemma_records_map_last_occurrence(self.records@, i as int);
                }
                return Some(self.records[i].content.clone());
            }
            i += 1;
        }
        None
    }
}

/// If no later record shares the name of record `i`, the map holds record
/// `i`'s content under its name.
proof fn lemma_records_map_last_occurrence(rs: Seq<Record>, i: int)
    requires
        0 <= i < rs.len(),
        forall|j: int| i < j < rs.len() ==> (#[trigger] rs[j]).name@ != rs[i].name@,
    ensures
        records_map(rs).dom().contains(rs[i].name@),
        records_map(rs)[rs[i].name@] == rs[i].content@,
    decreases rs,
{
    if i < rs.len() - 1 {
        lemma_records_map_last_occurrence(rs.drop_last(), i);
    }
}

/// The effect one run of the persistence protocol has on a store: a record
/// that is already present is kept as it is, otherwise the content is stored
/// under the name.
pub open spec fn persisted(
    m: Map<Seq<char>, Seq<char>>,
    name: Seq<char>,
    content: Seq<char>,
) -> Map<Seq<char>, Seq<char>> {
    if m.dom().contains(name) {
        m
    } else {
        m.insert(name, content)
    }
}

/// Persisting a record is idempotent: a second run for the same name and
/// content changes nothing, one record is stored under the name, and where
/// none was stored before, its content is exactly what was handed in.
pub proof fn lemma_persist_idempotent(m: Map<Seq<char>, Seq<char>>, name: Seq<char>, content: Seq<char>)
    ensures
        persisted(persisted(m, name, content), name, content) == persisted(m, name, content),
        persisted(m, name, content).dom().contains(name),
        !m.dom().contains(name) ==> persisted(m, name, content)[name] == content,
        m.dom().contains(name) ==> persisted(m, name, content) == m,
{
}

/// Runs the whole persistence protocol for one record against an in-memory
/// store, driving [`PersistStep`] from start to `Finished`.
pub fn persist_to_mem(store: &mut MemStore, name: &str, content: &str)
    requires
        old(store).wf(),
    ensures
        final(store).wf(),
        final(store)@ == persisted(old(store)@, name@, content@),
{
    let mut step = PersistStep::start();
    while step != PersistStep::Finished
        invariant
            store.wf(),
            step.wf(),
            step == PersistStep::ProbeDir || step == PersistStep::ProbeRecord || (step matches
                PersistStep::WriteRecord { .. }) || step == PersistStep::Finished,
            step == PersistStep::ProbeDir ==> store@ == old(store)@,
            step == PersistStep::ProbeRecord ==> store@ == old(store)@,
            (step matches PersistStep::WriteRecord { .. }) ==> store@ == old(store)@
                && !old(store)@.dom().contains(name@),
            step == PersistStep::Finished ==> store@ == persisted(old(store)@, name@, content@),
        decreases step.rank(),
    {
        match step {
            PersistStep::ProbeDir => {
                // the in-memory store's directory always exists
                step = step.next(true);
            },
            PersistStep::EnsureDir => {
                step = step.next(true);
            },
            PersistStep::ProbeRecord => {
                let found = store.contains(name);
                step = step.next(found);
            },
            PersistStep::WriteRecord { .. } => {
                // an in-memory write always succeeds
                store.write(name, content);
                step = step.next(true);
            },
            PersistStep::Warn => {
                step = step.next(true);
            },
            PersistStep::Finished => {
                step = step.next(true);
            },
        }
    }
}

/// The registry against an in-memory store: derives the message's code and
/// records the code-to-message mapping at most once, as [`persisted`] says.
/// The code comes back whatever the store already held.
pub fn register_in(store: &mut MemStore, message: &str) -> (code: String)
    requires
        old(store).wf(),
    ensures
        code@ == code_of(message@),
        final(store).wf(),
        final(store)@ == persisted(
            old(store)@,
            record_name(code_of(message@)),
            message@,
        ),
{
    let code = register(message);
    let file = record_file_name(code.as_str());
    persist_to_mem(store, file.as_str(), message);
    code
}

} // verus!
