//! Batch compilation: what each unit of a batch runs, how many workers the
//! batch gets, and the report that accounts for every unit. The processes
//! themselves are run by the caller, one per unit, in the batch's directory.

use vstd::prelude::*;
use vstd::string::*;
use crate::error::Error;
use crate::path::LogicalPath;
use crate::subjects::{Note, note_file_name};
use crate::text::{substitute, substitute_all};

verus! {

/// The placeholder in a command template that stands for a unit's source.
pub const NOTE_PLACEHOLDER: &'static str = "{{note}}";

/// The command that compiles a note where nothing else is configured.
pub const DEFAULT_COMPILE_COMMAND: &'static str = "latexmk -pdf {{note}}";

/// The number of workers a batch gets where nothing else is configured.
pub const DEFAULT_THREAD_COUNT: usize = 4;

/// The kinds of documents that can be compiled.
#[derive(Debug, Clone, Copy, PartialEq, Eq, Structural)]
pub enum UnitKind {
    Note,
    MasterNote,
}

/// One document to compile: what it is, the identifier it is reported by,
/// and its source file, relative to the batch's directory.
#[derive(Debug)]
pub struct CompilableUnit {
    pub kind: UnitKind,
    pub id: String,
    pub source: String,
}

impl Note {
    /// The note as a unit to compile: reported by its title, compiled from
    /// its file name.
    pub fn compilable(&self) -> (r: CompilableUnit)
        ensures
            r.kind == UnitKind::Note,
            r.id@ == self@,
            r.source@ == note_file_name(self@),
    {
        CompilableUnit { kind: UnitKind::Note, id: self.title().clone(), source: self.file_name() }
    }
}

/// A batch: units that share a working directory, a command template and
/// a number of workers.
#[derive(Debug)]
pub struct CompilationBatch {
    pub directory: LogicalPath,
    pub units: Vec<CompilableUnit>,
    pub command: String,
    pub thread_count: usize,
}

/// What running a batch takes: the number of workers, and the command of
/// each unit, in the order of the units.
#[derive(Debug)]
pub struct BatchPlan {
    pub pool_size: usize,
    pub commands: Vec<String>,
}

/// The outcome of a batch: the identifiers that compiled and those that
/// failed.
#[derive(Debug)]
pub struct CompileReport {
    pub directory: LogicalPath,
    pub compiled: Vec<String>,
    pub failed: Vec<String>,
}

/// The number of workers for `units` units and a requested count: at least
/// one, at most one per unit, none for an empty batch.
pub open spec fn pool_size_for(units: nat, requested: nat) -> nat {
    if units == 0 {
        0
    } else if requested == 0 {
        1
    } else if requested > units {
        units
    } else {
        requested
    }
}

/// The identifiers whose outcome is `want`, in order.
pub open spec fn ids_with(ids: Seq<Seq<char>>, outcomes: Seq<bool>, want: bool) -> Seq<Seq<char>>
    decreases ids.len(),
{
    if ids.len() == 0 {
        seq![]
    } else {
        ids_with(ids.drop_last(), outcomes.drop_last(), want) + (if outcomes.last() == want {
            seq![ids.last()]
        } else {
            seq![]
        })
    }
}

pub open spec fn unit_ids(units: Seq<CompilableUnit>) -> Seq<Seq<char>> {
    units.map_values(|u: CompilableUnit| u.id@)
}

pub open spec fn unit_commands(template: Seq<char>, units: Seq<CompilableUnit>) -> Seq<Seq<char>> {
    units.map_values(|u: CompilableUnit| substitute(template, NOTE_PLACEHOLDER@, u.source@))
}

/// The number of workers for a batch of `units` units.
pub fn pool_size(units: usize, requested: usize) -> (r: usize)
    ensures
        r == pool_size_for(units as nat, requested as nat),
{
    if units == 0 {
        0
    } else if requested == 0 {
        1
    } else if requested > units {
        units
    } else {
        requested
    }
}

fn ids_where(units: &Vec<CompilableUnit>, outcomes: &Vec<bool>, want: bool) -> (r: Vec<String>)
    requires
        outcomes@.len() == units@.len(),
    ensures
        r@.map_values(|s: String| s@) == ids_with(unit_ids(units@), outcomes@, want),
{
    let mut out: Vec<String> = Vec::new();
    let ghost ids = unit_ids(units@);
    let mut i: usize = 0;
    assert(ids.take(0) =~= seq![]);
    while i < units.len()
        invariant
            outcomes@.len() == units@.len(),
            ids == unit_ids(units@),
            i <= units@.len(),
            out@.map_values(|s: String| s@) == ids_with(ids.take(i as int), outcomes@.take(i as int), want),
        decreases units@.len() - i,
    {
        let ghost before = out@.map_values(|s: String| s@);
        assert(ids.take(i + 1).drop_last() =~= ids.take(i as int));
        assert(outcomes@.take(i + 1).drop_last() =~= outcomes@.take(i as int));
        if outcomes[i] == want {
            out.push(units[i].id.clone());
            assert(out@.map_values(|s: String| s@) =~= before.push(ids[i as int]));
        }
        assert(out@.map_values(|s: String| s@) =~= ids_with(ids.take(i + 1), outcomes@.take(i + 1), want));
        i = i + 1;
    }
    assert(ids.take(units@.len() as int) =~= ids);
    assert(outcomes@.take(units@.len() as int) =~= outcomes@);
    out
}

impl CompilationBatch {
    /// A batch in `directory` with no units, the default command and the
    /// default number of workers.
    pub fn new(directory: LogicalPath) -> (r: CompilationBatch)
        ensures
            r.directory@ == directory@,
            r.units@.len() == 0,
            r.command@ == DEFAULT_COMPILE_COMMAND@,
            r.thread_count == DEFAULT_THREAD_COUNT,
    {
        CompilationBatch {
            directory,
            units: Vec::new(),
            command: String::from_str(DEFAULT_COMPILE_COMMAND),
            thread_count: DEFAULT_THREAD_COUNT,
        }
    }

    /// The commands to run and the number of workers to run them with. An
    /// empty batch has nothing to run and no workers.
    pub fn plan(&self) -> (r: BatchPlan)
        ensures
            r.pool_size == pool_size_for(self.units@.len(), self.thread_count as nat),
            r.commands@.map_values(|c: String| c@) == unit_commands(self.command@, self.units@),
    {
        let mut commands: Vec<String> = Vec::new();
        let mut i: usize = 0;
        while i < self.units.len()
            invariant
                i <= self.units@.len(),
                commands@.map_values(|c: String| c@) == unit_commands(self.command@, self.units@).take(i as int),
            decreases self.units@.len() - i,
        {
            let ghost before = commands@.map_values(|c: String| c@);
            let c = substitute_all(self.command.as_str(), NOTE_PLACEHOLDER, self.units[i].source.as_str());
            commands.push(c);
            assert(commands@.map_values(|c: String| c@) =~= before.push(c@));
            assert(commands@.map_values(|c: String| c@) =~= unit_commands(self.command@, self.units@).take(i + 1));
            i = i + 1;
        }
        assert(unit_commands(self.command@, self.units@).take(self.units@.len() as int) =~= unit_commands(self.command@, self.units@));
        BatchPlan { pool_size: pool_size(self.units.len(), self.thread_count), commands }
    }

    /// The report of the batch from the outcome of each unit, in the order
    /// of the units: `true` where the process exited successfully.
    pub fn report(&self, outcomes: &Vec<bool>) -> (r: CompileReport)
        requires
            outcomes@.len() == self.units@.len(),
        ensures
            r.directory@ == self.directory@,
            r.compiled@.map_values(|s: String| s@) == ids_with(unit_ids(self.units@), outcomes@, true),
            r.failed@.map_values(|s: String| s@) == ids_with(unit_ids(self.units@), outcomes@, false),
    {
        CompileReport {
            directory: self.directory.copy(),
            compiled: ids_where(&self.units, outcomes, true),
            failed: ids_where(&self.units, outcomes, false),
        }
    }

    /// The result of the batch. An empty batch gives an empty report and
    /// never enters its directory. Otherwise a directory that could not be
    /// entered fails the whole batch; else each unit lands in the report
    /// by its outcome.
    pub fn conclude(&self, entered: bool, outcomes: &Vec<bool>) -> (r: Result<CompileReport, Error>)
        requires
            entered && self.units@.len() > 0 ==> outcomes@.len() == self.units@.len(),
        ensures
            self.units@.len() == 0 ==> (r matches Ok(rep) && rep.directory@ == self.directory@
                && rep.compiled@.len() == 0 && rep.failed@.len() == 0),
            self.units@.len() > 0 && !entered ==> (r matches Err(Error::BatchDirectoryError(p))
                && p@ == self.directory@),
            self.units@.len() > 0 && entered ==> (r matches Ok(rep)
                && rep.directory@ == self.directory@
                && rep.compiled@.map_values(|s: String| s@) == ids_with(unit_ids(self.units@), outcomes@, true)
                && rep.failed@.map_values(|s: String| s@) == ids_with(unit_ids(self.units@), outcomes@, false)),
    {
        if self.units.len() == 0 {
            return Ok(CompileReport { directory: self.directory.copy(), compiled: Vec::new(), failed: Vec::new() });
        }
        if !entered {
            return Err(Error::BatchDirectoryError(self.directory.copy()));
        }
        Ok(self.report(outcomes))
    }
}

/// Every unit of a batch lands in exactly one of the two lists of its
/// report: the lengths add up to the number of units, and together the
/// lists hold each identifier as often as the batch does.
pub proof fn lemma_report_accounts_for_every_unit(ids: Seq<Seq<char>>, outcomes: Seq<bool>)
    requires
        outcomes.len() == ids.len(),
    ensures
        ids_with(ids, outcomes, true).len() + ids_with(ids, outcomes, false).len() == ids.len(),
        ids_with(ids, outcomes, true).to_multiset().add(ids_with(ids, outcomes, false).to_multiset())
            == ids.to_multiset(),
    decreases ids.len(),
{
    if ids.len() == 0 {
        let e = Seq::<Seq<char>>::empty();
        assert(ids_with(ids, outcomes, true) =~= e);
        assert(ids_with(ids, outcomes, false) =~= e);
        assert(ids =~= e);
        e.to_multiset_ensures();
        vstd::multiset::lemma_multiset_empty_len(e.to_multiset());
        assert(e.to_multiset().add(e.to_multiset()) =~= e.to_multiset());
    } else {
        lemma_report_accounts_for_every_unit(ids.drop_last(), outcomes.drop_last());
        let t = ids_with(ids.drop_last(), outcomes.drop_last(), true);
        let f = ids_with(ids.drop_last(), outcomes.drop_last(), false);
        let x = ids.last();
        assert(ids =~= ids.drop_last().push(x));
        vstd::seq_lib::lemma_multiset_commutative(t, seq![x]);
        vstd::seq_lib::lemma_multiset_commutative(f, seq![x]);
        assert(t + seq![x] =~= t.push(x));
        assert(f + seq![x] =~= f.push(x));
        assert(t + seq![] =~= t);
        assert(f + seq![] =~= f);
        t.to_multiset_ensures();
        f.to_multiset_ensures();
        ids.drop_last().to_multiset_ensures();
        assert(ids_with(ids, outcomes, true).to_multiset().add(ids_with(ids, outcomes, false).to_multiset())
            =~= ids.to_multiset());
    }
}

proof fn lemma_ids_with_members(ids: Seq<Seq<char>>, outcomes: Seq<bool>, want: bool)
    requires
        outcomes.len() == ids.len(),
    ensures
        forall|x: Seq<char>| #[trigger] ids_with(ids, outcomes, want).contains(x) <==> exists|i: int|
            0 <= i < ids.len() && ids[i] == x && outcomes[i] == want,
    decreases ids.len(),
{
    if ids.len() > 0 {
        let q = ids.drop_last();
        let o = outcomes.drop_last();
        lemma_ids_with_members(q, o, want);
        let prev = ids_with(q, o, want);
        let last = ids.len() - 1;
        let tail = if outcomes.last() == want { seq![ids.last()] } else { Seq::<Seq<char>>::empty() };
        assert forall|x: Seq<char>| #[trigger] ids_with(ids, outcomes, want).contains(x) <==> exists|i: int|
            0 <= i < ids.len() && ids[i] == x && outcomes[i] == want by {
            let all = ids_with(ids, outcomes, want);
            assert(all == prev + tail);
            if all.contains(x) {
                let k = choose|k: int| 0 <= k < all.len() && all[k] == x;
                if k < prev.len() {
                    assert(prev[k] == x);
                    assert(prev.contains(x));
                    let i = choose|i: int| 0 <= i < q.len() && q[i] == x && o[i] == want;
                    assert(ids[i] == x && outcomes[i] == want);
                } else {
                    assert(tail[k - prev.len()] == x);
                    assert(ids[last] == x && outcomes[last] == want);
                }
            }
            if exists|i: int| 0 <= i < ids.len() && ids[i] == x && outcomes[i] == want {
                let i = choose|i: int| 0 <= i < ids.len() && ids[i] == x && outcomes[i] == want;
                if i < last {
                    assert(q[i] == x && o[i] == want);
                    assert(prev.contains(x));
                    let k = choose|k: int| 0 <= k < prev.len() && prev[k] == x;
                    assert(all[k] == x);
                } else {
                    assert(all[prev.len() as int] == x);
                }
            }
        }
    }
}

/// The report sorts units by outcome alone: an identifier is among the
/// failed exactly when some unit with it failed, and among the compiled
/// exactly when some unit with it compiled. Where the identifiers are
/// distinct, the compiled ones are all the others.
pub proof fn lemma_report_sets(ids: Seq<Seq<char>>, outcomes: Seq<bool>)
    requires
        outcomes.len() == ids.len(),
    ensures
        forall|x: Seq<char>| #[trigger] ids_with(ids, outcomes, false).contains(x) <==> exists|i: int|
            0 <= i < ids.len() && ids[i] == x && !outcomes[i],
        forall|x: Seq<char>| #[trigger] ids_with(ids, outcomes, true).contains(x) <==> exists|i: int|
            0 <= i < ids.len() && ids[i] == x && outcomes[i],
        ids.no_duplicates() ==> ids_with(ids, outcomes, true).to_set() == ids.to_set().difference(
            ids_with(ids, outcomes, false).to_set(),
        ),
{
    lemma_ids_with_members(ids, outcomes, false);
    lemma_ids_with_members(ids, outcomes, true);
    if ids.no_duplicates() {
        let t = ids_with(ids, outcomes, true);
        let f = ids_with(ids, outcomes, false);
        assert forall|x: Seq<char>| #[trigger] t.to_set().contains(x) <==> ids.to_set().difference(f.to_set()).contains(x) by {
            if t.contains(x) {
                let i = choose|i: int| 0 <= i < ids.len() && ids[i] == x && outcomes[i];
                assert(ids.contains(x));
                if f.contains(x) {
                    let j = choose|j: int| 0 <= j < ids.len() && ids[j] == x && !outcomes[j];
                    assert(i != j);
                }
            }
            if ids.contains(x) && !f.contains(x) {
                let i = choose|i: int| 0 <= i < ids.len() && ids[i] == x;
                assert(outcomes[i]);
            }
        }
        assert(t.to_set() =~= ids.to_set().difference(f.to_set()));
    }
}

} // verus!
