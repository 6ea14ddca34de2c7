use vstd::prelude::*;
use crate::environment::{define, Frame};
use crate::evaluation::{
    advance, eval, fails, lemma_eval_keeps_depth, lemma_machine_evaluates, quiet,
};
use crate::expr::ExprModel;
use crate::semantics::{
    ends_statement, execute, is_truthy, schedule, step, unwind, ActionModel, ErrorModel, Event,
    MachineModel, RequestModel, TaskModel,
};
use crate::stmt::StmtModel;
use crate::value::ValueModel;

verus! {

/// What running statements comes to: what was printed and reported, in
/// order, and the scopes afterwards.
pub struct Run {
    pub trace: Seq<ActionModel>,
    pub environment: Seq<Frame>,
}

/// The scopes after leaving a block: without the innermost one, unless it
/// is the only one.
pub open spec fn leave(env: Seq<Frame>) -> Seq<Frame> {
    if env.len() > 1 {
        env.drop_first()
    } else {
        env
    }
}

/// What a failed evaluation leaves of its statement: the report.
pub open spec fn reported(error: ErrorModel, env: Seq<Frame>) -> Run {
    Run { trace: seq![ActionModel::Report(error)], environment: env }
}

/// Nothing printed or reported.
pub open spec fn silent(env: Seq<Frame>) -> Run {
    Run { trace: Seq::empty(), environment: env }
}

/// What running one statement comes to, in the scopes `env`, with `oracle`
/// doing the arithmetic; `None` where a loop runs more than `fuel` times.
///
/// A failure in the expression of a statement is reported and ends that
/// statement only. A block runs in a new innermost scope, which goes when
/// the block ends. `if` runs one branch by the truthiness of its condition.
pub open spec fn exec(
    s: StmtModel,
    env: Seq<Frame>,
    oracle: spec_fn(RequestModel) -> u64,
    fuel: nat,
) -> Option<Run>
    decreases fuel, s,
{
    match s {
        StmtModel::Expr(e) => {
            let r = eval(e, env, oracle);
            match r.outcome {
                Ok(_) => Some(silent(r.environment)),
                Err(error) => Some(reported(error, r.environment)),
            }
        },
        StmtModel::Print(e) => {
            let r = eval(e, env, oracle);
            match r.outcome {
                Ok(v) => Some(Run { trace: seq![ActionModel::Print(v)], environment: r.environment }),
                Err(error) => Some(reported(error, r.environment)),
            }
        },
        StmtModel::Var(name, Some(e)) => {
            let r = eval(e, env, oracle);
            match r.outcome {
                Ok(v) => Some(silent(define(r.environment, name.lexeme, v))),
                Err(error) => Some(reported(error, r.environment)),
            }
        },
        StmtModel::Var(name, None) => Some(silent(define(env, name.lexeme, ValueModel::Nil))),
        StmtModel::Block(statements) => match exec_all(
            statements,
            seq![Map::<Seq<char>, ValueModel>::empty()] + env,
            oracle,
            fuel,
        ) {
            Some(run) => Some(Run { trace: run.trace, environment: leave(run.environment) }),
            None => None,
        },
        StmtModel::If(condition, then_branch, else_branch) => {
            let r = eval(condition, env, oracle);
            match r.outcome {
                Ok(v) => if is_truthy(v) {
                    exec(*then_branch, r.environment, oracle, fuel)
                } else {
                    match else_branch {
                        Some(other) => exec(*other, r.environment, oracle, fuel),
                        None => Some(silent(r.environment)),
                    }
                },
                Err(error) => Some(reported(error, r.environment)),
            }
        },
        StmtModel::While(condition, body) => repeat(condition, *body, env, oracle, fuel),
    }
}

/// What running a loop comes to: the condition is evaluated before each
/// round, in the scopes that the round before left; the loop ends when it
/// is falsy, or fails.
pub open spec fn repeat(
    condition: ExprModel,
    body: StmtModel,
    env: Seq<Frame>,
    oracle: spec_fn(RequestModel) -> u64,
    fuel: nat,
) -> Option<Run>
    decreases fuel, body,
{
    let r = eval(condition, env, oracle);
    match r.outcome {
        Ok(v) => if !is_truthy(v) {
            Some(silent(r.environment))
        } else if fuel == 0 {
            None
        } else {
            match exec(body, r.environment, oracle, (fuel - 1) as nat) {
                Some(first) => match repeat(
                    condition,
                    body,
                    first.environment,
                    oracle,
                    (fuel - 1) as nat,
                ) {
                    Some(rest) => Some(
                        Run { trace: first.trace + rest.trace, environment: rest.environment },
                    ),
                    None => None,
                },
                None => None,
            }
        },
        Err(error) => Some(reported(error, r.environment)),
    }
}

/// What running statements one after the other comes to.
pub open spec fn exec_all(
    statements: Seq<StmtModel>,
    env: Seq<Frame>,
    oracle: spec_fn(RequestModel) -> u64,
    fuel: nat,
) -> Option<Run>
    decreases fuel, statements,
{
    if statements.len() == 0 {
        Some(silent(env))
    } else {
        match exec(statements[0], env, oracle, fuel) {
            Some(first) => match exec_all(
                statements.drop_first(),
                first.environment,
                oracle,
                fuel,
            ) {
                Some(rest) => Some(
                    Run { trace: first.trace + rest.trace, environment: rest.environment },
                ),
                None => None,
            },
            None => None,
        }
    }
}

/// Running a statement leaves as many scopes as it found: every block
/// drops the scope that it added, also where statements in it failed.
pub proof fn lemma_exec_keeps_depth(
    s: StmtModel,
    env: Seq<Frame>,
    oracle: spec_fn(RequestModel) -> u64,
    fuel: nat,
)
    requires
        env.len() > 0,
        exec(s, env, oracle, fuel) is Some,
    ensures
        exec(s, env, oracle, fuel)->0.environment.len() == env.len(),
    decreases fuel, s,
{
    match s {
        StmtModel::Expr(e) => {
            lemma_eval_keeps_depth(e, env, oracle);
        },
        StmtModel::Print(e) => {
            lemma_eval_keeps_depth(e, env, oracle);
        },
        StmtModel::Var(_, Some(e)) => {
            lemma_eval_keeps_depth(e, env, oracle);
        },
        StmtModel::Var(_, None) => {},
        StmtModel::Block(statements) => {
            lemma_exec_all_keeps_depth(
                statements,
                seq![Map::<Seq<char>, ValueModel>::empty()] + env,
                oracle,
                fuel,
            );
        },
        StmtModel::If(condition, then_branch, else_branch) => {
            lemma_eval_keeps_depth(condition, env, oracle);
            let r = eval(condition, env, oracle);
            if r.outcome is Ok {
                if is_truthy(r.outcome->Ok_0) {
                    lemma_exec_keeps_depth(*then_branch, r.environment, oracle, fuel);
                } else if else_branch is Some {
                    lemma_exec_keeps_depth(*else_branch->0, r.environment, oracle, fuel);
                }
            }
        },
        StmtModel::While(condition, body) => {
            lemma_repeat_keeps_depth(condition, *body, env, oracle, fuel);
        },
    }
}

/// Running a loop leaves as many scopes as it found.
pub proof fn lemma_repeat_keeps_depth(
    condition: ExprModel,
    body: StmtModel,
    env: Seq<Frame>,
    oracle: spec_fn(RequestModel) -> u64,
    fuel: nat,
)
    requires
        env.len() > 0,
        repeat(condition, body, env, oracle, fuel) is Some,
    ensures
        repeat(condition, body, env, oracle, fuel)->0.environment.len() == env.len(),
    decreases fuel, body,
{
    lemma_eval_keeps_depth(condition, env, oracle);
    let r = eval(condition, env, oracle);
    if r.outcome is Ok && is_truthy(r.outcome->Ok_0) {
        lemma_exec_keeps_depth(body, r.environment, oracle, (fuel - 1) as nat);
        let first = exec(body, r.environment, oracle, (fuel - 1) as nat)->0;
        lemma_repeat_keeps_depth(condition, body, first.environment, oracle, (fuel - 1) as nat);
    }
}

/// Running statements one after the other leaves as many scopes as it found.
pub proof fn lemma_exec_all_keeps_depth(
    statements: Seq<StmtModel>,
    env: Seq<Frame>,
    oracle: spec_fn(RequestModel) -> u64,
    fuel: nat,
)
    requires
        env.len() > 0,
        exec_all(statements, env, oracle, fuel) is Some,
    ensures
        exec_all(statements, env, oracle, fuel)->0.environment.len() == env.len(),
    decreases fuel, statements,
{
    if statements.len() > 0 {
        lemma_exec_keeps_depth(statements[0], env, oracle, fuel);
        let first = exec(statements[0], env, oracle, fuel)->0;
        lemma_exec_all_keeps_depth(statements.drop_first(), first.environment, oracle, fuel);
    }
}

/// What a step lets the driver see: nothing of a quiet one.
pub open spec fn observed(action: ActionModel) -> Seq<ActionModel> {
    match action {
        ActionModel::Continue => Seq::empty(),
        _ => seq![action],
    }
}

/// The machine after `n` steps, and what the driver saw of them.
pub open spec fn run_for(m: MachineModel, oracle: spec_fn(RequestModel) -> u64, n: nat) -> (
    MachineModel,
    Seq<ActionModel>,
)
    decreases n,
{
    if n == 0 {
        (m, Seq::empty())
    } else {
        let (next, action) = advance(m, oracle);
        let (end, later) = run_for(next, oracle, (n - 1) as nat);
        (end, observed(action) + later)
    }
}

/// A single step.
proof fn lemma_one_run(
    m: MachineModel,
    oracle: spec_fn(RequestModel) -> u64,
    next: MachineModel,
    action: ActionModel,
)
    requires
        advance(m, oracle) == (next, action),
    ensures
        run_for(m, oracle, 1) == (next, observed(action)),
{
    reveal_with_fuel(run_for, 2);
    assert(observed(action) + Seq::<ActionModel>::empty() =~= observed(action));
}

/// Quiet steps show the driver nothing.
proof fn lemma_quiet_runs(m: MachineModel, oracle: spec_fn(RequestModel) -> u64, n: nat)
    requires
        quiet(m, oracle, n) is Some,
    ensures
        run_for(m, oracle, n) == (quiet(m, oracle, n)->0, Seq::<ActionModel>::empty()),
    decreases n,
{
    if n > 0 {
        let (next, action) = advance(m, oracle);
        lemma_quiet_runs(next, oracle, (n - 1) as nat);
        assert(observed(action) + Seq::<ActionModel>::empty() =~= Seq::<ActionModel>::empty());
    }
}

/// Steps that end in a failure show the driver the report of it.
proof fn lemma_fails_runs(
    m: MachineModel,
    oracle: spec_fn(RequestModel) -> u64,
    n: nat,
    end: MachineModel,
    error: ErrorModel,
)
    requires
        fails(m, oracle, n, end, error),
    ensures
        run_for(m, oracle, n) == (end, seq![ActionModel::Report(error)]),
    decreases n,
{
    let (next, action) = advance(m, oracle);
    if n == 1 {
        lemma_one_run(m, oracle, end, ActionModel::Report(error));
    } else {
        assert(quiet(m, oracle, (n - 1) as nat) is Some);
        assert(action == ActionModel::Continue);
        assert(fails(next, oracle, (n - 1) as nat, end, error));
        lemma_fails_runs(next, oracle, (n - 1) as nat, end, error);
        assert(observed(action) + seq![ActionModel::Report(error)] =~= seq![
            ActionModel::Report(error),
        ]);
    }
}

/// Steps add up, and so does what the driver sees of them.
pub proof fn lemma_run_then_run(
    m: MachineModel,
    oracle: spec_fn(RequestModel) -> u64,
    a: nat,
    b: nat,
)
    ensures
        run_for(m, oracle, a + b) == (
            run_for(run_for(m, oracle, a).0, oracle, b).0,
            run_for(m, oracle, a).1 + run_for(run_for(m, oracle, a).0, oracle, b).1,
        ),
    decreases a,
{
    if a == 0 {
        assert(Seq::<ActionModel>::empty() + run_for(m, oracle, b).1 =~= run_for(m, oracle, b).1);
    } else {
        let (next, action) = advance(m, oracle);
        lemma_run_then_run(next, oracle, (a - 1) as nat, b);
        let first = run_for(next, oracle, (a - 1) as nat);
        let second = run_for(first.0, oracle, b);
        assert((a + b - 1) as nat == (a - 1) as nat + b);
        assert(observed(action) + (first.1 + second.1) =~= (observed(action) + first.1)
            + second.1);
    }
}

/// Two runs in a row make one run.
proof fn lemma_chain(
    m: MachineModel,
    oracle: spec_fn(RequestModel) -> u64,
    a: nat,
    middle: MachineModel,
    first: Seq<ActionModel>,
    b: nat,
    end: MachineModel,
    second: Seq<ActionModel>,
)
    requires
        run_for(m, oracle, a) == (middle, first),
        run_for(middle, oracle, b) == (end, second),
    ensures
        run_for(m, oracle, a + b) == (end, first + second),
{
    lemma_run_then_run(m, oracle, a, b);
}

/// Abandoning a statement drops the task that ends it.
proof fn lemma_unwind_end(tasks: Seq<TaskModel>, task: TaskModel)
    requires
        ends_statement(task),
    ensures
        unwind(tasks.push(task)) == tasks,
{
    assert(tasks.push(task).drop_last() =~= tasks);
}

/// The tasks of a list of statements: those of all but the first, and on
/// top the first.
proof fn lemma_schedule_first(statements: Seq<StmtModel>)
    requires
        statements.len() > 0,
    ensures
        schedule(statements) == schedule(statements.drop_first()).push(
            TaskModel::Execute(statements[0]),
        ),
{
    assert(schedule(statements) =~= schedule(statements.drop_first()).push(
        TaskModel::Execute(statements[0]),
    ));
}

/// With a statement on top of its work, the machine's next step starts the
/// statement.
proof fn lemma_first_execute(
    m: MachineModel,
    s: StmtModel,
    oracle: spec_fn(RequestModel) -> u64,
)
    requires
        m.pending is None,
    ensures
        run_for(
            MachineModel { tasks: m.tasks.push(TaskModel::Execute(s)), ..m },
            oracle,
            1,
        ) == (execute(m, s), Seq::<ActionModel>::empty()),
{
    let start = MachineModel { tasks: m.tasks.push(TaskModel::Execute(s)), ..m };
    assert(start.tasks.drop_last() =~= m.tasks);
    assert(MachineModel { tasks: start.tasks.drop_last(), ..start } == m);
    lemma_one_run(start, oracle, execute(m, s), ActionModel::Continue);
}

/// The machine evaluates the expression of a statement as `eval` says. With
/// the task that ends the statement below the expression, and no operands,
/// it comes to hold the value as its only operand, or it reports the
/// failure and is done with the statement.
proof fn lemma_expression_runs(
    m: MachineModel,
    ending: TaskModel,
    e: ExprModel,
    oracle: spec_fn(RequestModel) -> u64,
) -> (n: nat)
    requires
        m.pending is None,
        m.values.len() == 0,
        ends_statement(ending),
    ensures
        run_for(
            MachineModel { tasks: m.tasks.push(ending).push(TaskModel::Evaluate(e)), ..m },
            oracle,
            n,
        ) == match eval(e, m.environment, oracle).outcome {
            Ok(v) => (
                MachineModel {
                    environment: eval(e, m.environment, oracle).environment,
                    tasks: m.tasks.push(ending),
                    values: seq![v],
                    ..m
                },
                Seq::<ActionModel>::empty(),
            ),
            Err(error) => (
                MachineModel { environment: eval(e, m.environment, oracle).environment, ..m },
                seq![ActionModel::Report(error)],
            ),
        },
{
    let below = MachineModel { tasks: m.tasks.push(ending), ..m };
    let start = MachineModel { tasks: below.tasks.push(TaskModel::Evaluate(e)), ..below };
    let n = lemma_machine_evaluates(below, e, oracle);
    let r = eval(e, m.environment, oracle);
    match r.outcome {
        Ok(v) => {
            lemma_quiet_runs(start, oracle, n);
            assert(m.values.push(v) =~= seq![v]);
        },
        Err(error) => {
            lemma_unwind_end(m.tasks, ending);
            assert(m.values =~= Seq::<ValueModel>::empty());
            lemma_fails_runs(
                start,
                oracle,
                n,
                MachineModel {
                    environment: r.environment,
                    tasks: unwind(below.tasks),
                    values: Seq::empty(),
                    ..below
                },
                error,
            );
        },
    }
    n
}

/// One step of a machine that holds one operand and, on top of its work, a
/// task that ends a statement.
proof fn lemma_ending_step(m: MachineModel, ending: TaskModel, v: ValueModel)
    requires
        m.pending is None,
        m.values.len() == 0,
    ensures
        step(
            MachineModel { tasks: m.tasks.push(ending), values: seq![v], ..m },
            Event::Resume,
        ) == crate::semantics::run(MachineModel { values: seq![v], ..m }, ending),
        crate::semantics::pop(seq![v]) == (m.values, v),
{
    let s = MachineModel { tasks: m.tasks.push(ending), values: seq![v], ..m };
    assert(s.tasks.drop_last() =~= m.tasks);
    assert(seq![v].drop_last() =~= m.values);
}

/// The machine runs a statement as `exec` says.
///
/// From any state that waits for no answer and holds no operands, with the
/// statement on top of its work, the machine takes the returned number of
/// steps. The driver sees of them, in order, exactly what `exec` says was
/// printed and reported. Afterwards the scopes are those that `exec` gives,
/// and the rest of the machine's work is as it was.
pub proof fn lemma_machine_executes(
    m: MachineModel,
    s: StmtModel,
    oracle: spec_fn(RequestModel) -> u64,
    fuel: nat,
) -> (n: nat)
    requires
        m.pending is None,
        m.values.len() == 0,
        exec(s, m.environment, oracle, fuel) is Some,
    ensures
        run_for(MachineModel { tasks: m.tasks.push(TaskModel::Execute(s)), ..m }, oracle, n) == (
            MachineModel { environment: exec(s, m.environment, oracle, fuel)->0.environment, ..m },
            exec(s, m.environment, oracle, fuel)->0.trace,
        ),
    decreases fuel, s,
{
    let start = MachineModel { tasks: m.tasks.push(TaskModel::Execute(s)), ..m };
    let done = exec(s, m.environment, oracle, fuel)->0;
    let nothing = Seq::<ActionModel>::empty();
    lemma_first_execute(m, s, oracle);
    match s {
        StmtModel::Expr(e) => {
            let n1 = lemma_expression_runs(m, TaskModel::Discard, e, oracle);
            let r = eval(e, m.environment, oracle);
            match r.outcome {
                Ok(v) => {
                    let base = MachineModel { environment: r.environment, ..m };
                    let holding = MachineModel {
                        tasks: base.tasks.push(TaskModel::Discard),
                        values: seq![v],
                        ..base
                    };
                    lemma_ending_step(base, TaskModel::Discard, v);
                    lemma_one_run(holding, oracle, base, ActionModel::Continue);
                    lemma_chain(start, oracle, 1, execute(m, s), nothing, n1, holding, nothing);
                    lemma_chain(start, oracle, 1 + n1, holding, nothing + nothing, 1, base, nothing);
                    assert(nothing + nothing + nothing =~= done.trace);
                    1 + n1 + 1
                },
                Err(error) => {
                    lemma_chain(
                        start,
                        oracle,
                        1,
                        execute(m, s),
                        nothing,
                        n1,
                        MachineModel { environment: r.environment, ..m },
                        seq![ActionModel::Report(error)],
                    );
                    assert(nothing + seq![ActionModel::Report(error)] =~= done.trace);
                    1 + n1
                },
            }
        },
        StmtModel::Print(e) => {
            let n1 = lemma_expression_runs(m, TaskModel::Print, e, oracle);
            let r = eval(e, m.environment, oracle);
            match r.outcome {
                Ok(v) => {
                    let base = MachineModel { environment: r.environment, ..m };
                    let holding = MachineModel {
                        tasks: base.tasks.push(TaskModel::Print),
                        values: seq![v],
                        ..base
                    };
                    lemma_ending_step(base, TaskModel::Print, v);
                    lemma_one_run(holding, oracle, base, ActionModel::Print(v));
                    lemma_chain(start, oracle, 1, execute(m, s), nothing, n1, holding, nothing);
                    lemma_chain(
                        start,
                        oracle,
                        1 + n1,
                        holding,
                        nothing + nothing,
                        1,
                        base,
                        seq![ActionModel::Print(v)],
                    );
                    assert(nothing + nothing + seq![ActionModel::Print(v)] =~= done.trace);
                    1 + n1 + 1
                },
                Err(error) => {
                    lemma_chain(
                        start,
                        oracle,
                        1,
                        execute(m, s),
                        nothing,
                        n1,
                        MachineModel { environment: r.environment, ..m },
                        seq![ActionModel::Report(error)],
                    );
                    assert(nothing + seq![ActionModel::Report(error)] =~= done.trace);
                    1 + n1
                },
            }
        },
        StmtModel::Var(name, Some(e)) => {
            let n1 = lemma_expression_runs(m, TaskModel::Define(name), e, oracle);
            let r = eval(e, m.environment, oracle);
            match r.outcome {
                Ok(v) => {
                    let base = MachineModel { environment: r.environment, ..m };
                    let holding = MachineModel {
                        tasks: base.tasks.push(TaskModel::Define(name)),
                        values: seq![v],
                        ..base
                    };
                    let end = MachineModel {
                        environment: define(r.environment, name.lexeme, v),
                        ..m
                    };
                    lemma_ending_step(base, TaskModel::Define(name), v);
                    lemma_one_run(holding, oracle, end, ActionModel::Continue);
                    lemma_chain(start, oracle, 1, execute(m, s), nothing, n1, holding, nothing);
                    lemma_chain(start, oracle, 1 + n1, holding, nothing + nothing, 1, end, nothing);
                    assert(nothing + nothing + nothing =~= done.trace);
                    1 + n1 + 1
                },
                Err(error) => {
                    lemma_chain(
                        start,
                        oracle,
                        1,
                        execute(m, s),
                        nothing,
                        n1,
                        MachineModel { environment: r.environment, ..m },
                        seq![ActionModel::Report(error)],
                    );
                    assert(nothing + seq![ActionModel::Report(error)] =~= done.trace);
                    1 + n1
                },
            }
        },
        StmtModel::Var(name, None) => { 1 },
        StmtModel::Block(statements) => {
            let inside = MachineModel {
                environment: seq![Map::<Seq<char>, ValueModel>::empty()] + m.environment,
                tasks: m.tasks.push(TaskModel::Leave),
                ..m
            };
            let n1 = lemma_machine_executes_all(inside, statements, oracle, fuel);
            let run = exec_all(statements, inside.environment, oracle, fuel)->0;
            let leaving = MachineModel { environment: run.environment, ..inside };
            let end = MachineModel { environment: leave(run.environment), ..m };
            assert(leaving.tasks.drop_last() =~= m.tasks);
            assert(step(leaving, Event::Resume) == (end, ActionModel::Continue));
            lemma_one_run(leaving, oracle, end, ActionModel::Continue);
            lemma_chain(start, oracle, 1, execute(m, s), nothing, n1, leaving, run.trace);
            lemma_chain(start, oracle, 1 + n1, leaving, nothing + run.trace, 1, end, nothing);
            assert(nothing + run.trace + nothing =~= done.trace);
            1 + n1 + 1
        },
        StmtModel::If(condition, then_branch, else_branch) => {
            let ending = TaskModel::Branch(
                *then_branch,
                match else_branch {
                    Some(other) => Some(*other),
                    None => None,
                },
            );
            let n1 = lemma_expression_runs(m, ending, condition, oracle);
            let r = eval(condition, m.environment, oracle);
            match r.outcome {
                Ok(v) => {
                    let base = MachineModel { environment: r.environment, ..m };
                    let holding = MachineModel {
                        tasks: base.tasks.push(ending),
                        values: seq![v],
                        ..base
                    };
                    lemma_ending_step(base, ending, v);
                    lemma_chain(start, oracle, 1, execute(m, s), nothing, n1, holding, nothing);
                    if is_truthy(v) {
                        let chosen = MachineModel {
                            tasks: base.tasks.push(TaskModel::Execute(*then_branch)),
                            ..base
                        };
                        lemma_one_run(holding, oracle, chosen, ActionModel::Continue);
                        lemma_chain(
                            start,
                            oracle,
                            1 + n1,
                            holding,
                            nothing + nothing,
                            1,
                            chosen,
                            nothing,
                        );
                        let n2 = lemma_machine_executes(base, *then_branch, oracle, fuel);
                        lemma_chain(
                            start,
                            oracle,
                            1 + n1 + 1,
                            chosen,
                            nothing + nothing + nothing,
                            n2,
                            MachineModel { environment: done.environment, ..m },
                            done.trace,
                        );
                        assert(nothing + nothing + nothing + done.trace =~= done.trace);
                        1 + n1 + 1 + n2
                    } else {
                        match else_branch {
                            Some(other) => {
                                let chosen = MachineModel {
                                    tasks: base.tasks.push(TaskModel::Execute(*other)),
                                    ..base
                                };
                                lemma_one_run(holding, oracle, chosen, ActionModel::Continue);
                                lemma_chain(
                                    start,
                                    oracle,
                                    1 + n1,
                                    holding,
                                    nothing + nothing,
                                    1,
                                    chosen,
                                    nothing,
                                );
                                let n2 = lemma_machine_executes(base, *other, oracle, fuel);
                                lemma_chain(
                                    start,
                                    oracle,
                                    1 + n1 + 1,
                                    chosen,
                                    nothing + nothing + nothing,
                                    n2,
                                    MachineModel { environment: done.environment, ..m },
                                    done.trace,
                                );
                                assert(nothing + nothing + nothing + done.trace =~= done.trace);
                                1 + n1 + 1 + n2
                            },
                            None => {
                                lemma_one_run(holding, oracle, base, ActionModel::Continue);
                                lemma_chain(
                                    start,
                                    oracle,
                                    1 + n1,
                                    holding,
                                    nothing + nothing,
                                    1,
                                    base,
                                    nothing,
                                );
                                assert(nothing + nothing + nothing =~= done.trace);
                                1 + n1 + 1
                            },
                        }
                    }
                },
                Err(error) => {
                    lemma_chain(
                        start,
                        oracle,
                        1,
                        execute(m, s),
                        nothing,
                        n1,
                        MachineModel { environment: r.environment, ..m },
                        seq![ActionModel::Report(error)],
                    );
                    assert(nothing + seq![ActionModel::Report(error)] =~= done.trace);
                    1 + n1
                },
            }
        },
        StmtModel::While(condition, body) => {
            let n1 = lemma_machine_repeats(m, condition, *body, oracle, fuel);
            lemma_chain(
                start,
                oracle,
                1,
                execute(m, s),
                nothing,
                n1,
                MachineModel { environment: done.environment, ..m },
                done.trace,
            );
            assert(nothing + done.trace =~= done.trace);
            1 + n1
        },
    }
}

/// The machine runs a loop as `repeat` says, from the state in which the
/// condition is about to be evaluated.
pub proof fn lemma_machine_repeats(
    m: MachineModel,
    condition: ExprModel,
    body: StmtModel,
    oracle: spec_fn(RequestModel) -> u64,
    fuel: nat,
) -> (n: nat)
    requires
        m.pending is None,
        m.values.len() == 0,
        repeat(condition, body, m.environment, oracle, fuel) is Some,
    ensures
        run_for(
            MachineModel {
                tasks: m.tasks.push(TaskModel::Loop(condition, body)).push(
                    TaskModel::Evaluate(condition),
                ),
                ..m
            },
            oracle,
            n,
        ) == (
            MachineModel {
                environment: repeat(condition, body, m.environment, oracle, fuel)->0.environment,
                ..m
            },
            repeat(condition, body, m.environment, oracle, fuel)->0.trace,
        ),
    decreases fuel, body,
{
    let ending = TaskModel::Loop(condition, body);
    let start = MachineModel {
        tasks: m.tasks.push(ending).push(TaskModel::Evaluate(condition)),
        ..m
    };
    let done = repeat(condition, body, m.environment, oracle, fuel)->0;
    let nothing = Seq::<ActionModel>::empty();
    let n1 = lemma_expression_runs(m, ending, condition, oracle);
    let r = eval(condition, m.environment, oracle);
    match r.outcome {
        Ok(v) => {
            let base = MachineModel { environment: r.environment, ..m };
            let holding = MachineModel { tasks: base.tasks.push(ending), values: seq![v], ..base };
            lemma_ending_step(base, ending, v);
            if !is_truthy(v) {
                lemma_one_run(holding, oracle, base, ActionModel::Continue);
                lemma_chain(start, oracle, n1, holding, nothing, 1, base, nothing);
                assert(nothing + nothing =~= done.trace);
                n1 + 1
            } else {
                let again = MachineModel {
                    tasks: base.tasks.push(ending).push(TaskModel::Evaluate(condition)),
                    ..base
                };
                let round = MachineModel {
                    tasks: again.tasks.push(TaskModel::Execute(body)),
                    ..again
                };
                lemma_one_run(holding, oracle, round, ActionModel::Continue);
                lemma_chain(start, oracle, n1, holding, nothing, 1, round, nothing);
                let first = exec(body, r.environment, oracle, (fuel - 1) as nat)->0;
                let n2 = lemma_machine_executes(again, body, oracle, (fuel - 1) as nat);
                let next = MachineModel { environment: first.environment, ..m };
                let waiting = MachineModel {
                    tasks: next.tasks.push(ending).push(TaskModel::Evaluate(condition)),
                    ..next
                };
                assert(waiting == MachineModel { environment: first.environment, ..again });
                lemma_chain(
                    start,
                    oracle,
                    n1 + 1,
                    round,
                    nothing + nothing,
                    n2,
                    waiting,
                    first.trace,
                );
                let rest = repeat(condition, body, first.environment, oracle, (fuel - 1) as nat)->0;
                let n3 = lemma_machine_repeats(next, condition, body, oracle, (fuel - 1) as nat);
                lemma_chain(
                    start,
                    oracle,
                    n1 + 1 + n2,
                    waiting,
                    nothing + nothing + first.trace,
                    n3,
                    MachineModel { environment: rest.environment, ..m },
                    rest.trace,
                );
                assert(nothing + nothing + first.trace + rest.trace =~= done.trace);
                n1 + 1 + n2 + n3
            }
        },
        Err(error) => { n1 },
    }
}

/// The machine runs statements one after the other as `exec_all` says.
///
/// From any state that waits for no answer and holds no operands, with the
/// statements put on top of its work, the first one next, the machine takes
/// the returned number of steps. The driver sees of them, in order, exactly
/// what `exec_all` says was printed and reported. Afterwards the scopes are
/// those that `exec_all` gives, and the rest of the machine's work is as it
/// was.
pub proof fn lemma_machine_executes_all(
    m: MachineModel,
    statements: Seq<StmtModel>,
    oracle: spec_fn(RequestModel) -> u64,
    fuel: nat,
) -> (n: nat)
    requires
        m.pending is None,
        m.values.len() == 0,
        exec_all(statements, m.environment, oracle, fuel) is Some,
    ensures
        run_for(MachineModel { tasks: m.tasks + schedule(statements), ..m }, oracle, n) == (
            MachineModel {
                environment: exec_all(statements, m.environment, oracle, fuel)->0.environment,
                ..m
            },
            exec_all(statements, m.environment, oracle, fuel)->0.trace,
        ),
    decreases fuel, statements,
{
    let start = MachineModel { tasks: m.tasks + schedule(statements), ..m };
    if statements.len() == 0 {
        assert(m.tasks + schedule(statements) =~= m.tasks);
        0
    } else {
        let later = statements.drop_first();
        lemma_schedule_first(statements);
        let below = MachineModel { tasks: m.tasks + schedule(later), ..m };
        assert(start.tasks =~= below.tasks.push(TaskModel::Execute(statements[0])));
        let first = exec(statements[0], m.environment, oracle, fuel)->0;
        let n1 = lemma_machine_executes(below, statements[0], oracle, fuel);
        let next = MachineModel { environment: first.environment, ..m };
        let rest = exec_all(later, first.environment, oracle, fuel)->0;
        let n2 = lemma_machine_executes_all(next, later, oracle, fuel);
        lemma_chain(
            start,
            oracle,
            n1,
            MachineModel { tasks: next.tasks + schedule(later), ..next },
            first.trace,
            n2,
            MachineModel { environment: rest.environment, ..m },
            rest.trace,
        );
        n1 + n2
    }
}

} // verus!
