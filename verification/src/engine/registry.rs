use crate::engine::command::{injected, CommandLine, CommandLineModel};
use crate::engine::program::{program_models, Program, ProgramModel};
use crate::text::{same, texts, trim};
use crate::variable::{
    awaited, first_named, models, raw_name, references_in, stored, Variable,
    VariableInitializationTime, VariableModel,
};
use vstd::prelude::*;

verus! {

/// A placeholder that no variable fills by the time its program runs.
#[derive(Debug)]
pub struct UnboundVariable {
    /// The program whose arguments hold the placeholder.
    pub program_index: usize,
    /// The variable that the placeholder refers to.
    pub variable: Variable,
}

/// An unbound placeholder, as plain data.
pub ghost struct UnboundModel {
    pub program_index: usize,
    pub variable: VariableModel,
}

impl View for UnboundVariable {
    type V = UnboundModel;

    open spec fn view(&self) -> UnboundModel {
        UnboundModel { program_index: self.program_index, variable: self.variable@ }
    }
}

/// The models of a list of unbound placeholders.
pub open spec fn unbound_models(found: Seq<UnboundVariable>) -> Seq<UnboundModel> {
    found.map_values(|unbound: UnboundVariable| unbound@)
}

/// Whether a registry holds a variable of this name.
pub open spec fn has_name(registry: Seq<VariableModel>, name: Seq<char>) -> bool {
    exists|k: int| 0 <= k < registry.len() && (#[trigger] registry[k]).name == name
}

/// Whether no two variables of a registry share a name.
pub open spec fn distinct_names(registry: Seq<VariableModel>) -> bool {
    forall|i: int, j: int|
        0 <= i < j < registry.len() ==> (#[trigger] registry[i]).name != (
        #[trigger] registry[j]).name
}

/// The registry once the variables `found` have been offered to it in
/// order: each is added unless one of its name is already there.
pub open spec fn absorb(registry: Seq<VariableModel>, found: Seq<VariableModel>) -> Seq<
    VariableModel,
>
    decreases found.len(),
{
    if found.len() == 0 {
        registry
    } else {
        let before = absorb(registry, found.drop_last());
        if has_name(before, found.last().name) {
            before
        } else {
            before.push(found.last())
        }
    }
}

/// The variable that the program at `index` declares as the place of
/// its output, if it declares one.
pub open spec fn declared(program: ProgramModel, index: int) -> Seq<VariableModel> {
    match program.stdout_stored_to {
        Some(name) => seq![awaited(name, index as usize)],
        None => Seq::empty(),
    }
}

/// The variables that the first `n` programs declare for their output.
pub open spec fn absorb_declared(programs: Seq<ProgramModel>, n: nat) -> Seq<VariableModel>
    decreases n,
{
    if n == 0 {
        Seq::empty()
    } else {
        absorb(absorb_declared(programs, (n - 1) as nat), declared(programs[n - 1], n - 1))
    }
}

/// The registry once the placeholders in the first `k` of these
/// arguments of the program at `program_index` have been offered to it.
pub open spec fn absorb_arguments(
    registry: Seq<VariableModel>,
    arguments: Seq<Seq<char>>,
    program_index: usize,
    k: nat,
) -> Seq<VariableModel>
    decreases k,
{
    if k == 0 {
        registry
    } else {
        absorb(
            absorb_arguments(registry, arguments, program_index, (k - 1) as nat),
            references_in(arguments[k - 1], program_index),
        )
    }
}

/// The arguments of a program's remedy; none where it has no remedy.
pub open spec fn remedy_arguments(program: ProgramModel) -> Seq<Seq<char>> {
    match program.remedy_command_line {
        Some(remedy) => remedy.arguments,
        None => Seq::empty(),
    }
}

/// The registry once the placeholders of a program have been offered to
/// it: those of its arguments, then those of its remedy's arguments.
pub open spec fn absorb_program(
    registry: Seq<VariableModel>,
    program: ProgramModel,
    program_index: usize,
) -> Seq<VariableModel> {
    absorb_arguments(
        absorb_arguments(
            registry,
            program.command_line.arguments,
            program_index,
            program.command_line.arguments.len(),
        ),
        remedy_arguments(program),
        program_index,
        remedy_arguments(program).len(),
    )
}

/// The registry once the placeholders of the first `n` programs have
/// been offered to it.
pub open spec fn absorb_mentioned(
    registry: Seq<VariableModel>,
    programs: Seq<ProgramModel>,
    n: nat,
) -> Seq<VariableModel>
    decreases n,
{
    if n == 0 {
        registry
    } else {
        absorb_program(
            absorb_mentioned(registry, programs, (n - 1) as nat),
            programs[n - 1],
            (n - 1) as usize,
        )
    }
}

/// The variables of a chain: first those that programs declare for
/// their output, in the order of the programs, then those that
/// placeholders mention, in the order in which they stand. Of several
/// with one name the first is kept.
pub open spec fn registry_of(programs: Seq<ProgramModel>) -> Seq<VariableModel> {
    absorb_mentioned(absorb_declared(programs, programs.len()), programs, programs.len())
}

/// Offering variables to a registry keeps its names distinct.
pub proof fn lemma_absorb_distinct(registry: Seq<VariableModel>, found: Seq<VariableModel>)
    requires
        distinct_names(registry),
    ensures
        distinct_names(absorb(registry, found)),
    decreases found.len(),
{
    if found.len() > 0 {
        lemma_absorb_distinct(registry, found.drop_last());
    }
}

/// Whether a variable fills a placeholder by the time the program at
/// `program_index` runs: it is written as the placeholder is, and it is
/// bound at that program or before.
pub open spec fn binds(variable: VariableModel, reference: VariableModel, program_index: int) -> bool {
    &&& raw_name(variable.name, variable.initialization_time) == raw_name(
        reference.name,
        reference.initialization_time,
    )
    &&& variable.initialization_time.program_index() <= program_index
}

/// Whether some variable of the registry fills the placeholder by the
/// time the program at `program_index` runs.
pub open spec fn bound_at(
    registry: Seq<VariableModel>,
    reference: VariableModel,
    program_index: int,
) -> bool {
    exists|k: int| 0 <= k < registry.len() && binds(#[trigger] registry[k], reference, program_index)
}

/// Whether every placeholder in these arguments of the program at
/// `program_index` is bound by the time the program runs.
pub open spec fn binds_arguments(
    registry: Seq<VariableModel>,
    arguments: Seq<Seq<char>>,
    program_index: int,
) -> bool {
    forall|a: int, i: int|
        0 <= a < arguments.len() && 0 <= i < references_in(
            arguments[a],
            program_index as usize,
        ).len() ==> bound_at(
            registry,
            #[trigger] references_in(arguments[a], program_index as usize)[i],
            program_index,
        )
}

/// Whether every placeholder of the program at `program_index`, in its
/// arguments and in those of its remedy, is bound by the time the
/// program runs.
pub open spec fn binds_all(
    registry: Seq<VariableModel>,
    program: ProgramModel,
    program_index: int,
) -> bool {
    &&& binds_arguments(registry, program.command_line.arguments, program_index)
    &&& binds_arguments(registry, remedy_arguments(program), program_index)
}

/// Those of the first `k` placeholders found in the program at
/// `program_index` that no variable fills in time, in order.
pub open spec fn unbound(
    registry: Seq<VariableModel>,
    found: Seq<VariableModel>,
    program_index: usize,
    k: nat,
) -> Seq<UnboundModel>
    decreases k,
{
    if k == 0 {
        Seq::empty()
    } else {
        let before = unbound(registry, found, program_index, (k - 1) as nat);
        if bound_at(registry, found[k - 1], program_index as int) {
            before
        } else {
            before.push(UnboundModel { program_index, variable: found[k - 1] })
        }
    }
}

/// The unbound placeholders in the first `k` of these arguments.
pub open spec fn unbound_in_arguments(
    registry: Seq<VariableModel>,
    arguments: Seq<Seq<char>>,
    program_index: usize,
    k: nat,
) -> Seq<UnboundModel>
    decreases k,
{
    if k == 0 {
        Seq::empty()
    } else {
        let found = references_in(arguments[k - 1], program_index);
        unbound_in_arguments(registry, arguments, program_index, (k - 1) as nat) + unbound(
            registry,
            found,
            program_index,
            found.len(),
        )
    }
}

/// The unbound placeholders of a program: those in its arguments, then
/// those in its remedy's arguments.
pub open spec fn unbound_in_program(
    registry: Seq<VariableModel>,
    program: ProgramModel,
    program_index: usize,
) -> Seq<UnboundModel> {
    unbound_in_arguments(
        registry,
        program.command_line.arguments,
        program_index,
        program.command_line.arguments.len(),
    ) + unbound_in_arguments(
        registry,
        remedy_arguments(program),
        program_index,
        remedy_arguments(program).len(),
    )
}

/// The unbound placeholders of the first `n` programs.
pub open spec fn unbound_upto(
    registry: Seq<VariableModel>,
    programs: Seq<ProgramModel>,
    n: nat,
) -> Seq<UnboundModel>
    decreases n,
{
    if n == 0 {
        Seq::empty()
    } else {
        unbound_upto(registry, programs, (n - 1) as nat) + unbound_in_program(
            registry,
            programs[n - 1],
            (n - 1) as usize,
        )
    }
}

/// Every placeholder of the chain that no variable fills in time, in
/// the order of the programs and, within one, of the arguments.
pub open spec fn violations(registry: Seq<VariableModel>, programs: Seq<ProgramModel>) -> Seq<
    UnboundModel,
> {
    unbound_upto(registry, programs, programs.len())
}

/// The arguments once a variable has been put in: each occurrence of
/// its placeholder gives way to its value, if it has one.
pub open spec fn inject_variable(arguments: Seq<Seq<char>>, variable: VariableModel) -> Seq<
    Seq<char>,
> {
    match variable.value {
        Some(value) => injected(
            arguments,
            raw_name(variable.name, variable.initialization_time),
            value,
        ),
        None => arguments,
    }
}

/// The arguments once the first `n` variables of the registry have been
/// put in, one after the other.
pub open spec fn inject_registry(arguments: Seq<Seq<char>>, registry: Seq<VariableModel>, n: nat) -> Seq<
    Seq<char>,
>
    decreases n,
{
    if n == 0 {
        arguments
    } else {
        inject_variable(inject_registry(arguments, registry, (n - 1) as nat), registry[n - 1])
    }
}

/// A command line once the variables of the registry have been put
/// into its arguments.
pub open spec fn injected_command_line(
    command_line: CommandLineModel,
    registry: Seq<VariableModel>,
) -> CommandLineModel {
    CommandLineModel {
        arguments: inject_registry(command_line.arguments, registry, registry.len()),
        ..command_line
    }
}

/// A program once the variables of the registry have been put into its
/// arguments and into those of its remedy.
pub open spec fn injected_program(program: ProgramModel, registry: Seq<VariableModel>) -> ProgramModel {
    ProgramModel {
        command_line: injected_command_line(program.command_line, registry),
        remedy_command_line: match program.remedy_command_line {
            Some(remedy) => Some(injected_command_line(remedy, registry)),
            None => None,
        },
        ..program
    }
}

/// Whether a variable is asked for when the chain starts: it is bound
/// at startup and has no value yet.
pub open spec fn due_at_startup(variable: VariableModel) -> bool {
    variable.initialization_time is OnChainStartup && variable.value is None
}

/// Whether a variable is asked for just before the program at
/// `program_index` runs: it is bound at that program's execution and
/// has no value yet.
pub open spec fn due_for_program(variable: VariableModel, program_index: int) -> bool {
    &&& variable.initialization_time is OnProgramExecution
    &&& variable.initialization_time.program_index() == program_index
    &&& variable.value is None
}

/// The registry once the variable at `position` has been given the
/// answer to its prompt, without the white space around it.
pub open spec fn supplied(registry: Seq<VariableModel>, position: int, input: Seq<char>) -> Seq<
    VariableModel,
> {
    registry.update(position, VariableModel { value: Some(trim(input)), ..registry[position] })
}

/// Whether a variable awaits the output of the program at `producer`.
pub open spec fn awaits(variable: VariableModel, producer: int) -> bool {
    variable.initialization_time is Await && variable.initialization_time.program_index()
        == producer
}

/// The registry once the program at `producer` has stored its output
/// under a name: the variable of that name holds the output if it
/// awaits that program, and no other variable changes.
pub open spec fn stored_by(
    registry: Seq<VariableModel>,
    name: Seq<char>,
    producer: int,
    output: Seq<char>,
) -> Seq<VariableModel> {
    registry.map_values(
        |variable: VariableModel|
            if variable.name == name && awaits(variable, producer) {
                VariableModel { value: Some(output), ..variable }
            } else {
                variable
            },
    )
}

/// A variable that awaits the output of a program is never asked for:
/// it is due neither at startup nor before any program.
pub proof fn lemma_awaited_is_never_asked_for(variable: VariableModel, program_index: int)
    requires
        variable.initialization_time is Await,
    ensures
        !due_at_startup(variable),
        !due_for_program(variable, program_index),
{
}

/// Putting in the first `n` variables of a registry in which only the
/// variable at `position` has a value puts in that value and nothing
/// else; before that variable's turn it changes nothing.
pub proof fn lemma_inject_single_upto(
    arguments: Seq<Seq<char>>,
    registry: Seq<VariableModel>,
    position: int,
    n: nat,
)
    requires
        0 <= position < registry.len(),
        n <= registry.len(),
        registry[position].value is Some,
        forall|k: int| 0 <= k < registry.len() && k != position ==> registry[k].value is None,
    ensures
        inject_registry(arguments, registry, n) == if n > position {
            injected(
                arguments,
                raw_name(registry[position].name, registry[position].initialization_time),
                registry[position].value->0,
            )
        } else {
            arguments
        },
    decreases n,
{
    if n > 0 {
        lemma_inject_single_upto(arguments, registry, position, (n - 1) as nat);
    }
}

/// Where only one variable of the registry has a value, putting the
/// registry into arguments replaces each occurrence of that variable's
/// placeholder by its value, and nothing else.
pub proof fn lemma_inject_single(
    arguments: Seq<Seq<char>>,
    registry: Seq<VariableModel>,
    position: int,
)
    requires
        0 <= position < registry.len(),
        registry[position].value is Some,
        forall|k: int| 0 <= k < registry.len() && k != position ==> registry[k].value is None,
    ensures
        inject_registry(arguments, registry, registry.len()) == injected(
            arguments,
            raw_name(registry[position].name, registry[position].initialization_time),
            registry[position].value->0,
        ),
{
    lemma_inject_single_upto(arguments, registry, position, registry.len());
}

/// An output that is stored under the name of a variable that awaits
/// one is what is read back under that name: with names distinct, the
/// variable holds the output, it is the first of its name, and every
/// other variable is as it was.
pub proof fn lemma_stored_output_is_read_back(
    registry: Seq<VariableModel>,
    position: int,
    output: Seq<char>,
)
    requires
        distinct_names(registry),
        0 <= position < registry.len(),
        registry[position].initialization_time is Await,
    ensures
        ({
            let name = registry[position].name;
            let after = stored(registry, name, output);
            &&& after.len() == registry.len()
            &&& first_named(after, name, 0) == position
            &&& after[position].value == Some(output)
            &&& forall|k: int| 0 <= k < registry.len() && k != position ==> after[k] == registry[k]
        }),
{
    let name = registry[position].name;
    let after = stored(registry, name, output);
    assert forall|k: int| 0 <= k < registry.len() && k != position implies after[k]
        == registry[k] by {
        if k < position {
            assert(registry[k].name != registry[position].name);
        } else {
            assert(registry[position].name != registry[k].name);
        }
    }
    lemma_first_named_is_first(after, name, 0, position);
}

/// Where no variable before `position` has a name, the first variable
/// of that name from `from` on is the one at `position`.
pub proof fn lemma_first_named_is_first(
    registry: Seq<VariableModel>,
    name: Seq<char>,
    from: int,
    position: int,
)
    requires
        0 <= from <= position < registry.len(),
        registry[position].name == name,
        forall|k: int| from <= k < position ==> registry[k].name != name,
    ensures
        first_named(registry, name, from) == position,
    decreases position - from,
{
    if from < position {
        lemma_first_named_is_first(registry, name, from + 1, position);
    }
}

/// Tells whether the registry holds a variable of this name.
pub fn knows(registry: &Vec<Variable>, name: &str) -> (known: bool)
    ensures
        known == has_name(models(registry@), name@),
{
    let mut i: usize = 0;
    while i < registry.len()
        invariant
            i <= registry.len(),
            forall|k: int| 0 <= k < i ==> (#[trigger] models(registry@)[k]).name != name@,
        decreases registry.len() - i,
    {
        if same(registry[i].name.as_str(), name) {
            assert(models(registry@)[i as int].name == name@);
            return true;
        }
        i += 1;
    }
    false
}

/// Offers variables to the registry, in order: each is added unless one
/// of its name is already there.
pub fn absorb_variables(registry: &mut Vec<Variable>, found: &Vec<Variable>)
    ensures
        models(final(registry)@) == absorb(models(old(registry)@), models(found@)),
{
    let mut i: usize = 0;
    assert(models(found@).take(0) =~= Seq::<VariableModel>::empty());
    while i < found.len()
        invariant
            i <= found.len(),
            models(registry@) == absorb(models(old(registry)@), models(found@).take(i as int)),
        decreases found.len() - i,
    {
        let ghost before = models(registry@);
        assert(models(found@).take(i + 1).drop_last() =~= models(found@).take(i as int));
        assert(models(found@).take(i + 1).last() == found[i as int]@);
        if !knows(registry, found[i].name.as_str()) {
            registry.push(found[i].clone());
            assert(models(registry@) =~= before.push(found[i as int]@));
        }
        i += 1;
    }
    assert(models(found@).take(found.len() as int) =~= models(found@));
}

/// Tells whether some variable of the registry fills the placeholder by
/// the time the program at `program_index` runs.
pub fn is_bound(registry: &Vec<Variable>, reference: &Variable, program_index: usize) -> (bound:
    bool)
    ensures
        bound == bound_at(models(registry@), reference@, program_index as int),
{
    let raw = reference.get_raw_variable_name();
    let mut i: usize = 0;
    while i < registry.len()
        invariant
            i <= registry.len(),
            raw@ == raw_name(reference@.name, reference@.initialization_time),
            forall|k: int|
                0 <= k < i ==> !binds(#[trigger] models(registry@)[k], reference@, program_index as int),
        decreases registry.len() - i,
    {
        let written = registry[i].get_raw_variable_name();
        if written == raw && registry[i].initialization_time.is_satisfied_at(program_index) {
            assert(binds(models(registry@)[i as int], reference@, program_index as int));
            return true;
        }
        i += 1;
    }
    false
}

/// Puts the variables of the registry that have a value into the
/// arguments of a command line, one after the other.
pub fn inject_into(command_line: &mut CommandLine, registry: &Vec<Variable>)
    ensures
        final(command_line)@ == injected_command_line(old(command_line)@, models(registry@)),
{
    let mut i: usize = 0;
    while i < registry.len()
        invariant
            i <= registry.len(),
            command_line@ == (CommandLineModel {
                arguments: inject_registry(old(command_line)@.arguments, models(registry@), i as nat),
                ..old(command_line)@
            }),
        decreases registry.len() - i,
    {
        match &registry[i].value {
            Some(value) => {
                let raw = registry[i].get_raw_variable_name();
                let _ = command_line.inject_value_to_variables(raw.as_str(), value.clone());
            },
            None => {},
        }
        i += 1;
    }
}

/// Collects those of the placeholders found in the program at
/// `program_index` that no variable fills in time.
pub fn collect_unbound(
    registry: &Vec<Variable>,
    found: &Vec<Variable>,
    program_index: usize,
    unbound_so_far: &mut Vec<UnboundVariable>,
)
    ensures
        unbound_models(final(unbound_so_far)@) == unbound_models(old(unbound_so_far)@) + unbound(
            models(registry@),
            models(found@),
            program_index,
            found.len() as nat,
        ),
{
    let mut i: usize = 0;
    assert(unbound_models(unbound_so_far@) + Seq::<UnboundModel>::empty() =~= unbound_models(
        unbound_so_far@,
    ));
    while i < found.len()
        invariant
            i <= found.len(),
            unbound_models(unbound_so_far@) == unbound_models(old(unbound_so_far)@) + unbound(
                models(registry@),
                models(found@),
                program_index,
                i as nat,
            ),
        decreases found.len() - i,
    {
        let ghost before = unbound_models(unbound_so_far@);
        if !is_bound(registry, &found[i], program_index) {
            unbound_so_far.push(UnboundVariable { program_index, variable: found[i].clone() });
            assert(unbound_models(unbound_so_far@) =~= before.push(
                UnboundModel { program_index, variable: found[i as int]@ },
            ));
            assert(unbound_models(unbound_so_far@) =~= unbound_models(old(unbound_so_far)@)
                + unbound(models(registry@), models(found@), program_index, (i + 1) as nat));
        }
        i += 1;
    }
}

/// Collects the unbound placeholders in a list of arguments of the
/// program at `program_index`.
pub fn collect_unbound_in_arguments(
    registry: &Vec<Variable>,
    arguments: &Vec<String>,
    program_index: usize,
    unbound_so_far: &mut Vec<UnboundVariable>,
)
    ensures
        unbound_models(final(unbound_so_far)@) == unbound_models(old(unbound_so_far)@)
            + unbound_in_arguments(
            models(registry@),
            texts(arguments@),
            program_index,
            arguments.len() as nat,
        ),
{
    let mut i: usize = 0;
    assert(unbound_models(unbound_so_far@) + Seq::<UnboundModel>::empty() =~= unbound_models(
        unbound_so_far@,
    ));
    while i < arguments.len()
        invariant
            i <= arguments.len(),
            unbound_models(unbound_so_far@) == unbound_models(old(unbound_so_far)@)
                + unbound_in_arguments(
                models(registry@),
                texts(arguments@),
                program_index,
                i as nat,
            ),
        decreases arguments.len() - i,
    {
        let ghost before = unbound_models(unbound_so_far@);
        let found = Variable::from_names(
            &Variable::extract_variable_names(arguments[i].as_str()),
            program_index,
        );
        collect_unbound(registry, &found, program_index, unbound_so_far);
        assert(unbound_models(unbound_so_far@) =~= unbound_models(old(unbound_so_far)@)
            + unbound_in_arguments(
            models(registry@),
            texts(arguments@),
            program_index,
            (i + 1) as nat,
        ));
        i += 1;
    }
}

/// Offers the placeholders in a list of arguments of the program at
/// `program_index` to the registry.
pub fn absorb_from_arguments(
    registry: &mut Vec<Variable>,
    arguments: &Vec<String>,
    program_index: usize,
)
    ensures
        models(final(registry)@) == absorb_arguments(
            models(old(registry)@),
            texts(arguments@),
            program_index,
            arguments.len() as nat,
        ),
{
    let mut i: usize = 0;
    while i < arguments.len()
        invariant
            i <= arguments.len(),
            models(registry@) == absorb_arguments(
                models(old(registry)@),
                texts(arguments@),
                program_index,
                i as nat,
            ),
        decreases arguments.len() - i,
    {
        let found = Variable::from_names(
            &Variable::extract_variable_names(arguments[i].as_str()),
            program_index,
        );
        absorb_variables(registry, &found);
        i += 1;
    }
}

/// The variables of a list of programs.
pub fn build_registry(programs: &Vec<Program>) -> (registry: Vec<Variable>)
    ensures
        models(registry@) == registry_of(program_models(programs@)),
        distinct_names(models(registry@)),
{
    let mut registry: Vec<Variable> = Vec::new();
    let ghost all = program_models(programs@);
    let mut i: usize = 0;
    assert(models(registry@) =~= Seq::<VariableModel>::empty());
    while i < programs.len()
        invariant
            i <= programs.len(),
            all == program_models(programs@),
            models(registry@) == absorb_declared(all, i as nat),
            distinct_names(models(registry@)),
        decreases programs.len() - i,
    {
        let ghost before = models(registry@);
        match &programs[i].stdout_stored_to {
            Some(name) => {
                let mut found: Vec<Variable> = Vec::new();
                found.push(Variable::parse_await_variable(name.as_str(), i));
                assert(models(found@) =~= declared(all[i as int], i as int));
                absorb_variables(&mut registry, &found);
            },
            None => {
                assert(declared(all[i as int], i as int) =~= Seq::<VariableModel>::empty());
            },
        }
        proof {
            lemma_absorb_distinct(before, declared(all[i as int], i as int));
        }
        i += 1;
    }
    let ghost declared_registry = models(registry@);
    i = 0;
    while i < programs.len()
        invariant
            i <= programs.len(),
            all == program_models(programs@),
            declared_registry == absorb_declared(all, programs.len() as nat),
            models(registry@) == absorb_mentioned(declared_registry, all, i as nat),
            distinct_names(models(registry@)),
        decreases programs.len() - i,
    {
        let ghost before = models(registry@);
        absorb_from_arguments(&mut registry, &programs[i].command_line.arguments, i);
        let ghost between = models(registry@);
        match &programs[i].failure_handling_options.remedy_command_line {
            Some(remedy) => {
                absorb_from_arguments(&mut registry, &remedy.arguments, i);
            },
            None => {},
        }
        proof {
            lemma_absorb_arguments_distinct(
                before,
                all[i as int].command_line.arguments,
                i,
                all[i as int].command_line.arguments.len(),
            );
            lemma_absorb_arguments_distinct(
                between,
                remedy_arguments(all[i as int]),
                i,
                remedy_arguments(all[i as int]).len(),
            );
        }
        i += 1;
    }
    registry
}

/// Offering the placeholders of arguments to a registry keeps its names
/// distinct.
pub proof fn lemma_absorb_arguments_distinct(
    registry: Seq<VariableModel>,
    arguments: Seq<Seq<char>>,
    program_index: usize,
    k: nat,
)
    requires
        distinct_names(registry),
    ensures
        distinct_names(absorb_arguments(registry, arguments, program_index, k)),
    decreases k,
{
    if k > 0 {
        lemma_absorb_arguments_distinct(registry, arguments, program_index, (k - 1) as nat);
        lemma_absorb_distinct(
            absorb_arguments(registry, arguments, program_index, (k - 1) as nat),
            references_in(arguments[k - 1], program_index),
        );
    }
}

/// Puts the variables of the registry that have a value into the
/// arguments of a program and into those of its remedy.
pub fn inject_program(program: &mut Program, registry: &Vec<Variable>)
    ensures
        final(program)@ == injected_program(old(program)@, models(registry@)),
{
    inject_into(&mut program.command_line, registry);
    match &mut program.failure_handling_options.remedy_command_line {
        Some(remedy) => {
            inject_into(remedy, registry);
        },
        None => {},
    }
}

/// Stores the output of the program at `producer` under a name: the
/// variable of that name receives it if it awaits that program.
pub fn store_output_of(registry: &mut Vec<Variable>, name: &str, producer: usize, output: &str)
    ensures
        models(final(registry)@) == stored_by(
            models(old(registry)@),
            name@,
            producer as int,
            output@,
        ),
{
    let mut i: usize = 0;
    while i < registry.len()
        invariant
            i <= registry.len(),
            registry.len() == old(registry).len(),
            forall|k: int|
                0 <= k < i ==> (#[trigger] registry[k])@ == stored_by(
                    models(old(registry)@),
                    name@,
                    producer as int,
                    output@,
                )[k],
            forall|k: int| i <= k < registry.len() ==> #[trigger] registry[k] == old(registry)[k],
        decreases registry.len() - i,
    {
        let awaits_producer = match registry[i].initialization_time {
            VariableInitializationTime::Await(lifetime) => lifetime.initialization_program_index
                == producer,
            _ => false,
        };
        if awaits_producer && same(registry[i].name.as_str(), name) {
            registry[i].register_value(output);
        }
        i += 1;
    }
    assert(models(registry@) =~= stored_by(
        models(old(registry)@),
        name@,
        producer as int,
        output@,
    ));
}

/// Stores an output under a name: the variable of that name that
/// awaits an output receives it.
pub fn store_output(registry: &mut Vec<Variable>, name: &str, output: &str)
    ensures
        models(final(registry)@) == stored(models(old(registry)@), name@, output@),
{
    let mut i: usize = 0;
    while i < registry.len()
        invariant
            i <= registry.len(),
            registry.len() == old(registry).len(),
            forall|k: int|
                0 <= k < i ==> (#[trigger] registry[k])@ == stored(
                    models(old(registry)@),
                    name@,
                    output@,
                )[k],
            forall|k: int| i <= k < registry.len() ==> #[trigger] registry[k] == old(registry)[k],
        decreases registry.len() - i,
    {
        let awaits = match registry[i].initialization_time {
            VariableInitializationTime::Await(_) => true,
            _ => false,
        };
        if awaits && same(registry[i].name.as_str(), name) {
            registry[i].register_value(output);
        }
        i += 1;
    }
    assert(models(registry@) =~= stored(models(old(registry)@), name@, output@));
}

/// Putting variables into arguments keeps their number.
pub proof fn lemma_inject_keeps_count(
    arguments: Seq<Seq<char>>,
    registry: Seq<VariableModel>,
    n: nat,
)
    ensures
        inject_registry(arguments, registry, n).len() == arguments.len(),
    decreases n,
{
    if n > 0 {
        lemma_inject_keeps_count(arguments, registry, (n - 1) as nat);
    }
}

/// Where none of the placeholders found is unbound, each is bound.
pub proof fn lemma_none_unbound(
    registry: Seq<VariableModel>,
    found: Seq<VariableModel>,
    program_index: usize,
    k: nat,
)
    requires
        k <= found.len(),
    ensures
        unbound(registry, found, program_index, k).len() == 0 <==> forall|i: int|
            0 <= i < k ==> bound_at(registry, #[trigger] found[i], program_index as int),
    decreases k,
{
    if k > 0 {
        lemma_none_unbound(registry, found, program_index, (k - 1) as nat);
    }
}

/// Where no placeholder in a list of arguments is unbound, every
/// placeholder in every one of the arguments is bound.
pub proof fn lemma_none_unbound_in_arguments(
    registry: Seq<VariableModel>,
    arguments: Seq<Seq<char>>,
    program_index: usize,
    k: nat,
)
    requires
        k <= arguments.len(),
    ensures
        unbound_in_arguments(registry, arguments, program_index, k).len() == 0 <==> forall|
            a: int,
            i: int,
        |
            0 <= a < k && 0 <= i < references_in(arguments[a], program_index).len() ==> bound_at(
                registry,
                #[trigger] references_in(arguments[a], program_index)[i],
                program_index as int,
            ),
    decreases k,
{
    if k > 0 {
        let found = references_in(arguments[k - 1], program_index);
        lemma_none_unbound_in_arguments(registry, arguments, program_index, (k - 1) as nat);
        lemma_none_unbound(registry, found, program_index, found.len());
    }
}

/// A chain without violations binds every placeholder in time: for
/// each program, every placeholder in its arguments and in those of
/// its remedy is filled by a variable that is written as the
/// placeholder is and that is bound at that program or before. And
/// where this holds, the chain has no violations.
pub proof fn lemma_valid_chain_binds_every_placeholder(
    registry: Seq<VariableModel>,
    programs: Seq<ProgramModel>,
    n: nat,
)
    requires
        n <= programs.len(),
        programs.len() <= usize::MAX,
    ensures
        unbound_upto(registry, programs, n).len() == 0 <==> forall|p: int|
            0 <= p < n ==> binds_all(registry, #[trigger] programs[p], p),
    decreases n,
{
    if n > 0 {
        let program = programs[n - 1];
        let index = (n - 1) as usize;
        lemma_valid_chain_binds_every_placeholder(registry, programs, (n - 1) as nat);
        lemma_none_unbound_in_arguments(
            registry,
            program.command_line.arguments,
            index,
            program.command_line.arguments.len(),
        );
        lemma_none_unbound_in_arguments(
            registry,
            remedy_arguments(program),
            index,
            remedy_arguments(program).len(),
        );
        assert(binds_all(registry, programs[n - 1], n - 1) <==> unbound_in_program(
            registry,
            program,
            index,
        ).len() == 0);
    }
}

/// Whether every name of one registry is a name of the other.
pub open spec fn extends(larger: Seq<VariableModel>, smaller: Seq<VariableModel>) -> bool {
    forall|k: int| 0 <= k < smaller.len() ==> has_name(larger, (#[trigger] smaller[k]).name)
}

/// Whether the registry knows the names of all these variables.
pub open spec fn knows_all(registry: Seq<VariableModel>, found: Seq<VariableModel>) -> bool {
    forall|k: int| 0 <= k < found.len() ==> has_name(registry, (#[trigger] found[k]).name)
}

/// Whether the registry knows the name of every placeholder in these
/// arguments of the program at `program_index`.
pub open spec fn knows_arguments(
    registry: Seq<VariableModel>,
    arguments: Seq<Seq<char>>,
    program_index: usize,
    k: nat,
) -> bool {
    forall|a: int|
        0 <= a < k ==> knows_all(registry, #[trigger] references_in(arguments[a], program_index))
}

/// Whether the registry knows every variable that the program at
/// `index` declares or mentions.
pub open spec fn knows_program(registry: Seq<VariableModel>, program: ProgramModel, index: int) -> bool {
    &&& knows_all(registry, declared(program, index))
    &&& knows_arguments(
        registry,
        program.command_line.arguments,
        index as usize,
        program.command_line.arguments.len(),
    )
    &&& knows_arguments(
        registry,
        remedy_arguments(program),
        index as usize,
        remedy_arguments(program).len(),
    )
}

/// A registry that takes in the names of another takes in whatever
/// that one knows.
pub proof fn lemma_extends_carries(
    larger: Seq<VariableModel>,
    smaller: Seq<VariableModel>,
    name: Seq<char>,
)
    requires
        extends(larger, smaller),
        has_name(smaller, name),
    ensures
        has_name(larger, name),
{
    let k = choose|k: int| 0 <= k < smaller.len() && (#[trigger] smaller[k]).name == name;
    assert(has_name(larger, smaller[k].name));
}

/// Offering variables to a registry loses no name and adds the names
/// of all that were offered.
pub proof fn lemma_absorb_knows(registry: Seq<VariableModel>, found: Seq<VariableModel>)
    ensures
        extends(absorb(registry, found), registry),
        knows_all(absorb(registry, found), found),
    decreases found.len(),
{
    if found.len() == 0 {
        assert forall|k: int| 0 <= k < registry.len() implies has_name(
            registry,
            (#[trigger] registry[k]).name,
        ) by {}
    } else {
        let rest = found.drop_last();
        let before = absorb(registry, rest);
        let after = absorb(registry, found);
        lemma_absorb_knows(registry, rest);
        assert forall|k: int| 0 <= k < before.len() implies has_name(
            after,
            (#[trigger] before[k]).name,
        ) by {
            assert(after[k] == before[k]);
        }
        assert(extends(after, before));
        assert forall|k: int| 0 <= k < registry.len() implies has_name(
            after,
            (#[trigger] registry[k]).name,
        ) by {
            lemma_extends_carries(after, before, registry[k].name);
        }
        assert forall|k: int| 0 <= k < found.len() implies has_name(
            after,
            (#[trigger] found[k]).name,
        ) by {
            if k < rest.len() {
                assert(rest[k] == found[k]);
                lemma_extends_carries(after, before, found[k].name);
            } else if !has_name(before, found.last().name) {
                assert(after[before.len() as int] == found.last());
            }
        }
    }
}

/// Offering the placeholders of arguments to a registry loses no name
/// and adds the names of all placeholders in those arguments.
pub proof fn lemma_absorb_arguments_knows(
    registry: Seq<VariableModel>,
    arguments: Seq<Seq<char>>,
    program_index: usize,
    k: nat,
)
    ensures
        extends(absorb_arguments(registry, arguments, program_index, k), registry),
        knows_arguments(
            absorb_arguments(registry, arguments, program_index, k),
            arguments,
            program_index,
            k,
        ),
    decreases k,
{
    if k == 0 {
        lemma_absorb_knows(registry, Seq::empty());
    } else {
        let before = absorb_arguments(registry, arguments, program_index, (k - 1) as nat);
        let found = references_in(arguments[k - 1], program_index);
        let after = absorb(before, found);
        lemma_absorb_arguments_knows(registry, arguments, program_index, (k - 1) as nat);
        lemma_absorb_knows(before, found);
        assert forall|j: int| 0 <= j < registry.len() implies has_name(
            after,
            (#[trigger] registry[j]).name,
        ) by {
            lemma_extends_carries(after, before, registry[j].name);
        }
        assert forall|a: int| 0 <= a < k implies knows_all(
            after,
            #[trigger] references_in(arguments[a], program_index),
        ) by {
            if a < k - 1 {
                let earlier = references_in(arguments[a], program_index);
                assert forall|j: int| 0 <= j < earlier.len() implies has_name(
                    after,
                    (#[trigger] earlier[j]).name,
                ) by {
                    lemma_extends_carries(after, before, earlier[j].name);
                }
            }
        }
    }
}

/// What a registry knows of a list of variables, a registry that
/// takes in its names knows too.
pub proof fn lemma_knows_all_carries(
    larger: Seq<VariableModel>,
    smaller: Seq<VariableModel>,
    found: Seq<VariableModel>,
)
    requires
        extends(larger, smaller),
        knows_all(smaller, found),
    ensures
        knows_all(larger, found),
{
    assert forall|k: int| 0 <= k < found.len() implies has_name(
        larger,
        (#[trigger] found[k]).name,
    ) by {
        lemma_extends_carries(larger, smaller, found[k].name);
    }
}

/// What a registry knows of the placeholders in arguments, a registry
/// that takes in its names knows too.
pub proof fn lemma_knows_arguments_carries(
    larger: Seq<VariableModel>,
    smaller: Seq<VariableModel>,
    arguments: Seq<Seq<char>>,
    program_index: usize,
    k: nat,
)
    requires
        extends(larger, smaller),
        knows_arguments(smaller, arguments, program_index, k),
    ensures
        knows_arguments(larger, arguments, program_index, k),
{
    assert forall|a: int| 0 <= a < k implies knows_all(
        larger,
        #[trigger] references_in(arguments[a], program_index),
    ) by {
        lemma_knows_all_carries(larger, smaller, references_in(arguments[a], program_index));
    }
}

/// A registry that takes in the names of a second takes in those of a
/// third that the second takes in.
pub proof fn lemma_extends_twice(
    largest: Seq<VariableModel>,
    larger: Seq<VariableModel>,
    smaller: Seq<VariableModel>,
)
    requires
        extends(largest, larger),
        extends(larger, smaller),
    ensures
        extends(largest, smaller),
{
    assert forall|k: int| 0 <= k < smaller.len() implies has_name(
        largest,
        (#[trigger] smaller[k]).name,
    ) by {
        lemma_extends_carries(largest, larger, smaller[k].name);
    }
}

/// The variables that programs declare for their output are all known
/// once they have been offered.
pub proof fn lemma_declared_are_known(programs: Seq<ProgramModel>, n: nat)
    requires
        n <= programs.len(),
    ensures
        forall|p: int|
            0 <= p < n ==> knows_all(
                absorb_declared(programs, n),
                #[trigger] declared(programs[p], p),
            ),
    decreases n,
{
    if n > 0 {
        let before = absorb_declared(programs, (n - 1) as nat);
        let after = absorb_declared(programs, n);
        lemma_declared_are_known(programs, (n - 1) as nat);
        lemma_absorb_knows(before, declared(programs[n - 1], n - 1));
        assert forall|p: int| 0 <= p < n implies knows_all(
            after,
            #[trigger] declared(programs[p], p),
        ) by {
            if p < n - 1 {
                lemma_knows_all_carries(after, before, declared(programs[p], p));
            }
        }
    }
}

/// Whether the registry knows every placeholder of a program.
pub open spec fn knows_mentions(registry: Seq<VariableModel>, program: ProgramModel, index: int) -> bool {
    &&& knows_arguments(
        registry,
        program.command_line.arguments,
        index as usize,
        program.command_line.arguments.len(),
    )
    &&& knows_arguments(
        registry,
        remedy_arguments(program),
        index as usize,
        remedy_arguments(program).len(),
    )
}

/// Offering the placeholders of programs to a registry loses no name
/// and adds the names of all placeholders of those programs.
pub proof fn lemma_mentioned_are_known(
    registry: Seq<VariableModel>,
    programs: Seq<ProgramModel>,
    n: nat,
)
    requires
        n <= programs.len(),
    ensures
        extends(absorb_mentioned(registry, programs, n), registry),
        forall|p: int|
            0 <= p < n ==> knows_mentions(
                absorb_mentioned(registry, programs, n),
                #[trigger] programs[p],
                p,
            ),
    decreases n,
{
    if n == 0 {
        lemma_absorb_knows(registry, Seq::empty());
    } else {
        let program = programs[n - 1];
        let index = (n - 1) as usize;
        let before = absorb_mentioned(registry, programs, (n - 1) as nat);
        let between = absorb_arguments(
            before,
            program.command_line.arguments,
            index,
            program.command_line.arguments.len(),
        );
        let after = absorb_mentioned(registry, programs, n);
        lemma_mentioned_are_known(registry, programs, (n - 1) as nat);
        lemma_absorb_arguments_knows(
            before,
            program.command_line.arguments,
            index,
            program.command_line.arguments.len(),
        );
        lemma_absorb_arguments_knows(
            between,
            remedy_arguments(program),
            index,
            remedy_arguments(program).len(),
        );
        lemma_extends_twice(after, between, before);
        lemma_extends_twice(after, before, registry);
        lemma_knows_arguments_carries(
            after,
            between,
            program.command_line.arguments,
            index,
            program.command_line.arguments.len(),
        );
        assert forall|p: int| 0 <= p < n implies knows_mentions(
            after,
            #[trigger] programs[p],
            p,
        ) by {
            if p < n - 1 {
                lemma_knows_arguments_carries(
                    after,
                    before,
                    programs[p].command_line.arguments,
                    p as usize,
                    programs[p].command_line.arguments.len(),
                );
                lemma_knows_arguments_carries(
                    after,
                    before,
                    remedy_arguments(programs[p]),
                    p as usize,
                    remedy_arguments(programs[p]).len(),
                );
            }
        }
    }
}

/// The registry of a chain knows every variable of the chain: each one
/// that a program declares for its output, and each one that a
/// placeholder in an argument or in a remedy's argument names.
pub proof fn lemma_registry_knows_every_variable(programs: Seq<ProgramModel>)
    ensures
        forall|p: int|
            0 <= p < programs.len() ==> knows_program(
                registry_of(programs),
                #[trigger] programs[p],
                p,
            ),
{
    let stated = absorb_declared(programs, programs.len());
    let registry = registry_of(programs);
    lemma_declared_are_known(programs, programs.len());
    lemma_mentioned_are_known(stated, programs, programs.len());
    assert forall|p: int| 0 <= p < programs.len() implies knows_program(
        registry,
        #[trigger] programs[p],
        p,
    ) by {
        lemma_knows_all_carries(registry, stated, declared(programs[p], p));
        assert(knows_mentions(registry, programs[p], p));
    }
}

} // verus!
