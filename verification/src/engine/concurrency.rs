use crate::engine::chain::{batch_len, lemma_run_end_bounds, run_end, Chain};
use crate::engine::program::{ProcessError, ProgramExecutionResult, ProgramModel};
use crate::engine::traits::{Execution, ExecutionType};
use vstd::prelude::*;
use vstd::string::StringExecFns;

verus! {

/// How one member of a batch ended.
#[derive(Debug)]
pub struct ConcurrencyGroupExecutionResult {
    pub program_index: usize,
    pub output: Option<String>,
    pub error: Option<ProcessError>,
}

impl ConcurrencyGroupExecutionResult {
    /// The result of the program at `program_index`: its output where
    /// it succeeded, its error where it failed.
    pub fn new(program_index: usize, result: Result<ProgramExecutionResult, ProcessError>) -> (made:
        Self)
        ensures
            made.program_index == program_index,
            match result {
                Ok(printed) => made.output == Some(printed.output) && made.error is None,
                Err(error) => made.output is None && made.error == Some(error),
            },
    {
        match result {
            Ok(printed) => Self { program_index, output: Some(printed.output), error: None },
            Err(error) => Self { program_index, output: None, error: Some(error) },
        }
    }
}

/// Why a batch has no group number.
#[derive(Debug, Clone, Copy, PartialEq, Eq, Structural)]
pub enum ConcurrencyError {
    /// The batch is empty, or its program has no concurrency group.
    NoGroupNumber,
}

impl ConcurrencyError {
    /// The error in words.
    pub fn message(&self) -> (text: String)
        ensures
            text@ == "Group number is None. This concurrency group may not yet be populated."@,
    {
        String::from_str("Group number is None. This concurrency group may not yet be populated.")
    }
}

/// A batch: programs next to each other that run together.
#[derive(Debug)]
pub struct ConcurrencyGroup {
    group_number: Option<usize>,
    programs: Vec<usize>,
}

/// A batch as plain data: the group that its programs share, and
/// their positions in the chain.
pub ghost struct BatchModel {
    pub group_number: Option<usize>,
    pub programs: Seq<usize>,
}

impl View for ConcurrencyGroup {
    type V = BatchModel;

    closed spec fn view(&self) -> BatchModel {
        BatchModel { group_number: self.group_number, programs: self.programs@ }
    }
}

/// The models of a list of batches.
pub open spec fn batch_models(groups: Seq<ConcurrencyGroup>) -> Seq<BatchModel> {
    groups.map_values(|group: ConcurrencyGroup| group@)
}

/// The positions `first`, `first + 1`, and so on: `len` of them.
pub open spec fn positions(first: int, len: int) -> Seq<usize> {
    Seq::new(len as nat, |i: int| (first + i) as usize)
}

/// The batches of a chain from the program at `first` on: each takes in
/// the program it starts with and the neighbours that share its
/// concurrency group; a program without a group stands alone.
pub open spec fn batches_from(programs: Seq<ProgramModel>, first: int) -> Seq<BatchModel>
    decreases programs.len() - first,
{
    if first < 0 || first >= programs.len() {
        Seq::empty()
    } else {
        let len = batch_len(programs, first);
        if len < 1 || first + len > programs.len() {
            Seq::empty()
        } else {
            seq![
                BatchModel {
                    group_number: programs[first].concurrency_group,
                    programs: positions(first, len),
                },
            ] + batches_from(programs, first + len)
        }
    }
}

/// The batches of a chain, in the order in which they run.
pub open spec fn batches(programs: Seq<ProgramModel>) -> Seq<BatchModel> {
    batches_from(programs, 0)
}

/// Whether a batch takes in a program of this group: an empty batch
/// takes any program, and a batch with a group takes the programs of
/// that group. A batch of a program without a group takes no other.
pub open spec fn accepts(batch: BatchModel, group: Option<usize>) -> bool {
    batch.programs.len() == 0 || (batch.group_number is Some && batch.group_number == group)
}

impl ConcurrencyGroup {
    /// An empty batch.
    pub fn new() -> (group: Self)
        ensures
            group@ == (BatchModel { group_number: None, programs: Seq::empty() }),
    {
        Self { group_number: None, programs: Vec::new() }
    }

    /// The group that the programs of the batch share. A batch without
    /// one is an error.
    pub fn get_group_number(&self) -> (number: Result<usize, ConcurrencyError>)
        ensures
            match number {
                Ok(group) => self@.group_number == Some(group),
                Err(error) => self@.group_number is None && error == ConcurrencyError::NoGroupNumber,
            },
    {
        match self.group_number {
            Some(group) => Ok(group),
            None => Err(ConcurrencyError::NoGroupNumber),
        }
    }

    /// The positions of the batch's programs in the chain.
    pub fn get_programs(&self) -> (programs: &Vec<usize>)
        ensures
            programs@ == self@.programs,
    {
        &self.programs
    }

    /// Offers the program at `program_index`, of group `group`, to the
    /// batch, and tells whether the batch took it in. The first program
    /// gives the batch its group.
    pub fn push(&mut self, group: Option<usize>, program_index: usize) -> (taken: bool)
        ensures
            taken == accepts(old(self)@, group),
            final(self)@ == if taken {
                BatchModel {
                    group_number: if old(self)@.programs.len() == 0 {
                        group
                    } else {
                        old(self)@.group_number
                    },
                    programs: old(self)@.programs.push(program_index),
                }
            } else {
                old(self)@
            },
    {
        if self.programs.len() == 0 {
            self.group_number = group;
            self.programs.push(program_index);
            return true;
        }
        let shares = match (self.group_number, group) {
            (Some(own), Some(other)) => own == other,
            _ => false,
        };
        if shares {
            self.programs.push(program_index);
        }
        shares
    }

    /// The batches of a chain, in the order in which they run.
    pub fn from_chain(chain: &Chain) -> (groups: Vec<ConcurrencyGroup>)
        ensures
            batch_models(groups@) == batches(chain@.programs),
    {
        let mut groups: Vec<ConcurrencyGroup> = Vec::new();
        let programs = chain.get_programs();
        let ghost all = chain@.programs;
        let mut first: usize = 0;
        assert(batch_models(groups@) + batches_from(all, 0) =~= batches(all));
        while first < programs.len()
            invariant
                first <= programs.len(),
                programs.len() == all.len(),
                all == chain@.programs,
                forall|i: int| 0 <= i < programs.len() ==> (#[trigger] programs[i])@ == all[i],
                batch_models(groups@) + batches_from(all, first as int) == batches(all),
            decreases programs.len() - first,
        {
            let ghost before = batch_models(groups@);
            let len = chain.batch_extent(first);
            let mut members: Vec<usize> = Vec::new();
            let mut i: usize = 0;
            while i < len
                invariant
                    i <= len,
                    first + len <= programs.len(),
                    members.len() == i,
                    forall|j: int| 0 <= j < i ==> members[j] == first + j,
                decreases len - i,
            {
                members.push(first + i);
                i += 1;
            }
            assert(members@ =~= positions(first as int, len as int));
            let group = ConcurrencyGroup {
                group_number: programs[first].concurrency_group,
                programs: members,
            };
            groups.push(group);
            assert(batch_models(groups@) =~= before.push(group@));
            assert(batch_models(groups@) + batches_from(all, first + len) =~= before + batches_from(
                all,
                first as int,
            ));
            first += len;
        }
        assert(batch_models(groups@) + Seq::<BatchModel>::empty() =~= batch_models(groups@));
        groups
    }
}

/// The batches of a chain split its programs into runs of neighbours:
/// each batch is a run of positions that starts where the batch before
/// it ended, the first at 0; its programs share the group of the batch;
/// only a batch with a group has more than one program; and the program
/// after a batch with a group is not of that group.
pub proof fn lemma_batches_are_runs(programs: Seq<ProgramModel>, first: int)
    requires
        0 <= first <= programs.len() <= usize::MAX,
    ensures
        first < programs.len() ==> batches_from(programs, first).len() > 0 && batches_from(
            programs,
            first,
        )[0].programs.len() > 0 && batches_from(programs, first)[0].programs[0] == first,
        first == programs.len() ==> batches_from(programs, first).len() == 0,
        forall|b: int, i: int|
            0 <= b < batches_from(programs, first).len() && 0 <= i < batches_from(
                programs,
                first,
            )[b].programs.len() ==> {
                let batch = batches_from(programs, first)[b];
                &&& (#[trigger] batches_from(programs, first)[b].programs[i]) == batch.programs[0]
                    + i
                &&& batch.programs[i] < programs.len()
                &&& programs[batch.programs[i] as int].concurrency_group == batch.group_number
            },
        forall|b: int|
            0 <= b < batches_from(programs, first).len() ==> (#[trigger] batches_from(
                programs,
                first,
            )[b]).programs.len() >= 1 && (batches_from(programs, first)[b].programs.len() > 1
                ==> batches_from(programs, first)[b].group_number is Some),
        forall|b: int|
            0 <= b < batches_from(programs, first).len() - 1 ==> {
                let batch = batches_from(programs, first)[b];
                let next = #[trigger] batches_from(programs, first)[b + 1];
                &&& next.programs[0] == batch.programs[0] + batch.programs.len()
                &&& !(batch.group_number is Some && batch.group_number == next.group_number)
            },
        batches_from(programs, first).len() > 0 ==> batches_from(
            programs,
            first,
        ).last().programs[0] + batches_from(programs, first).last().programs.len()
            == programs.len(),
    decreases programs.len() - first,
{
    if first < programs.len() {
        let len = batch_len(programs, first);
        let tag = programs[first].concurrency_group;
        if tag is Some {
            lemma_run_end_bounds(programs, tag, first + 1);
            lemma_run_shares(programs, tag, first + 1, run_end(programs, tag, first + 1));
        }
        assert(1 <= len && first + len <= programs.len());
        lemma_batches_are_runs(programs, first + len);
        let rest = batches_from(programs, first + len);
        let head = BatchModel { group_number: tag, programs: positions(first, len) };
        let found = batches_from(programs, first);
        assert(found =~= seq![head] + rest);
        assert(found[0] == head);
        assert(head.programs.len() == len);
        assert forall|i: int| 0 <= i < len implies (#[trigger] head.programs[i]) == first + i by {}
        assert forall|b: int| 1 <= b < found.len() implies #[trigger] found[b] == rest[b - 1] by {}
        assert forall|b: int, i: int|
            0 <= b < found.len() && 0 <= i < found[b].programs.len() implies {
            let batch = found[b];
            &&& (#[trigger] found[b].programs[i]) == batch.programs[0] + i
            &&& batch.programs[i] < programs.len()
            &&& programs[batch.programs[i] as int].concurrency_group == batch.group_number
        } by {
            if b > 0 {
                assert(found[b] == rest[b - 1]);
                assert(rest[b - 1].programs[i] == rest[b - 1].programs[0] + i);
            } else {
                assert(head.programs[i] == first + i);
                assert(head.programs[0] == first);
            }
        }
        assert forall|b: int| 0 <= b < found.len() implies (#[trigger] found[b]).programs.len()
            >= 1 && (found[b].programs.len() > 1 ==> found[b].group_number is Some) by {
            if b > 0 {
                assert(found[b] == rest[b - 1]);
            }
        }
        assert forall|b: int| 0 <= b < found.len() - 1 implies {
            let batch = found[b];
            let next = #[trigger] found[b + 1];
            &&& next.programs[0] == batch.programs[0] + batch.programs.len()
            &&& !(batch.group_number is Some && batch.group_number == next.group_number)
        } by {
            if b > 0 {
                assert(found[b] == rest[b - 1]);
                assert(found[b + 1] == rest[b - 1 + 1]);
            } else {
                assert(found[1] == rest[0]);
                assert(rest.len() > 0);
                assert(first + len < programs.len());
                assert(rest[0].programs[0] == first + len);
                assert(head.programs[0] == first);
                assert(programs[rest[0].programs[0] as int].concurrency_group
                    == rest[0].group_number);
            }
        }
        if rest.len() > 0 {
            assert(found.last() == rest.last());
        } else {
            assert(first + len == programs.len());
            assert(head.programs[0] == first);
        }
    }
}

/// Every program of a run carries the tag of the run.
pub proof fn lemma_run_shares(programs: Seq<ProgramModel>, tag: Option<usize>, k: int, end: int)
    requires
        0 <= k <= programs.len(),
        end == run_end(programs, tag, k),
    ensures
        forall|i: int| k <= i < end ==> (#[trigger] programs[i]).concurrency_group == tag,
        end < programs.len() ==> programs[end].concurrency_group != tag,
    decreases programs.len() - k,
{
    if k < programs.len() && programs[k].concurrency_group == tag {
        lemma_run_shares(programs, tag, k + 1, end);
    }
}

impl Execution for ConcurrencyGroup {
    open spec fn execution_type(&self) -> ExecutionType {
        ExecutionType::ConcurrencyGroup
    }

    fn get_execution_type(&self) -> (kind: ExecutionType) {
        ExecutionType::ConcurrencyGroup
    }
}

} // verus!
