use vstd::prelude::*;
use crate::environment::{assign, lemma_assign_keeps_depth, lookup, undefined_message, Frame};
use crate::expr::ExprModel;
use crate::semantics::{
    binary_outcome, evaluate, is_truthy, literal_outcome, operator_message, settle,
    short_circuit, step, store, unary_outcome, unwind, within_expression, ActionModel, ErrorKind,
    ErrorModel, Event, MachineModel, Outcome, RequestModel, TaskModel,
};
use crate::token::TokenModel;
use crate::token_type::TokenType;
use crate::value::ValueModel;

verus! {

/// What evaluating an expression comes to: its value or the failure, and the
/// scopes afterwards.
pub struct Evaluation {
    pub outcome: Result<ValueModel, ErrorModel>,
    pub environment: Seq<Frame>,
}

/// The value of an outcome, where `oracle` does the arithmetic; a failure
/// is raised at `token`.
pub open spec fn resolve(
    token: TokenModel,
    outcome: Outcome,
    oracle: spec_fn(RequestModel) -> u64,
) -> Result<ValueModel, ErrorModel> {
    match outcome {
        Outcome::Value(v) => Ok(v),
        Outcome::Ask(request) => Ok(ValueModel::Number(oracle(request))),
        Outcome::Fail(kind, message) => Err(ErrorModel { kind, token, message }),
    }
}

/// The failure of reading or assigning a name that nothing binds.
pub open spec fn undefined(name: TokenModel) -> ErrorModel {
    ErrorModel {
        kind: ErrorKind::UndefinedVariable,
        token: name,
        message: undefined_message(name.lexeme),
    }
}

/// The value of an expression in the scopes `env`, with `oracle` doing the
/// arithmetic on doubles.
///
/// Operands are evaluated from left to right, and the first failure ends the
/// evaluation. `and` and `or` evaluate their right operand only where the
/// left one does not decide. An assignment needs a bound target; it
/// evaluates its right-hand side, stores the value, and evaluates the
/// right-hand side once more for its result.
pub open spec fn eval(
    e: ExprModel,
    env: Seq<Frame>,
    oracle: spec_fn(RequestModel) -> u64,
) -> Evaluation
    decreases e,
{
    match e {
        ExprModel::Literal(token) => Evaluation {
            outcome: resolve(token, literal_outcome(token), oracle),
            environment: env,
        },
        ExprModel::Grouping(inner) => eval(*inner, env, oracle),
        ExprModel::Unary(operator, operand) => {
            let x = eval(*operand, env, oracle);
            match x.outcome {
                Ok(v) => Evaluation {
                    outcome: resolve(operator, unary_outcome(operator, v), oracle),
                    environment: x.environment,
                },
                Err(_) => x,
            }
        },
        ExprModel::Binary(left, operator, right) => {
            let a = eval(*left, env, oracle);
            match a.outcome {
                Ok(l) => {
                    let b = eval(*right, a.environment, oracle);
                    match b.outcome {
                        Ok(r) => Evaluation {
                            outcome: resolve(operator, binary_outcome(operator, l, r), oracle),
                            environment: b.environment,
                        },
                        Err(_) => b,
                    }
                },
                Err(_) => a,
            }
        },
        ExprModel::Logical(left, operator, right) => {
            let a = eval(*left, env, oracle);
            match a.outcome {
                Ok(l) => if operator.kind == TokenType::Or {
                    if is_truthy(l) {
                        a
                    } else {
                        eval(*right, a.environment, oracle)
                    }
                } else if operator.kind == TokenType::And {
                    if !is_truthy(l) {
                        a
                    } else {
                        eval(*right, a.environment, oracle)
                    }
                } else {
                    Evaluation {
                        outcome: Err(
                            ErrorModel {
                                kind: ErrorKind::MalformedExpression,
                                token: operator,
                                message: operator_message(operator.lexeme),
                            },
                        ),
                        environment: a.environment,
                    }
                },
                Err(_) => a,
            }
        },
        ExprModel::Variable(name) => Evaluation {
            outcome: match lookup(env, name.lexeme) {
                Some(v) => Ok(v),
                None => Err(undefined(name)),
            },
            environment: env,
        },
        ExprModel::Assign(name, value) => match lookup(env, name.lexeme) {
            Some(_) => {
                let a = eval(*value, env, oracle);
                match a.outcome {
                    Ok(v) => match assign(a.environment, name.lexeme, v) {
                        Some(stored) => eval(*value, stored, oracle),
                        None => Evaluation {
                            outcome: Err(undefined(name)),
                            environment: a.environment,
                        },
                    },
                    Err(_) => a,
                }
            },
            None => Evaluation { outcome: Err(undefined(name)), environment: env },
        },
    }
}

/// Evaluating an expression adds no scope and drops none.
pub proof fn lemma_eval_keeps_depth(
    e: ExprModel,
    env: Seq<Frame>,
    oracle: spec_fn(RequestModel) -> u64,
)
    ensures
        eval(e, env, oracle).environment.len() == env.len(),
    decreases e,
{
    match e {
        ExprModel::Literal(_) => {},
        ExprModel::Variable(_) => {},
        ExprModel::Grouping(inner) => {
            lemma_eval_keeps_depth(*inner, env, oracle);
        },
        ExprModel::Unary(_, operand) => {
            lemma_eval_keeps_depth(*operand, env, oracle);
        },
        ExprModel::Binary(left, _, right) => {
            lemma_eval_keeps_depth(*left, env, oracle);
            lemma_eval_keeps_depth(*right, eval(*left, env, oracle).environment, oracle);
        },
        ExprModel::Logical(left, _, right) => {
            lemma_eval_keeps_depth(*left, env, oracle);
            lemma_eval_keeps_depth(*right, eval(*left, env, oracle).environment, oracle);
        },
        ExprModel::Assign(name, value) => {
            lemma_eval_keeps_depth(*value, env, oracle);
            let a = eval(*value, env, oracle);
            if a.outcome is Ok {
                let v = a.outcome->Ok_0;
                if assign(a.environment, name.lexeme, v) is Some {
                    lemma_assign_keeps_depth(a.environment, name.lexeme, v);
                    lemma_eval_keeps_depth(
                        *value,
                        assign(a.environment, name.lexeme, v)->0,
                        oracle,
                    );
                }
            }
        },
    }
}

/// `and` and `or` yield the value of one of their operands, whatever its
/// category: that of the left one, or else that of the right one.
pub proof fn lemma_logical_yields_an_operand(
    left: ExprModel,
    operator: TokenModel,
    right: ExprModel,
    env: Seq<Frame>,
    oracle: spec_fn(RequestModel) -> u64,
)
    requires
        operator.kind == TokenType::Or || operator.kind == TokenType::And,
        eval(
            ExprModel::Logical(Box::new(left), operator, Box::new(right)),
            env,
            oracle,
        ).outcome is Ok,
    ensures
        eval(left, env, oracle).outcome is Ok,
        ({
            let whole = eval(
                ExprModel::Logical(Box::new(left), operator, Box::new(right)),
                env,
                oracle,
            );
            let first = eval(left, env, oracle);
            whole == first || whole == eval(right, first.environment, oracle)
        }),
        ({
            let whole = eval(
                ExprModel::Logical(Box::new(left), operator, Box::new(right)),
                env,
                oracle,
            );
            let first = eval(left, env, oracle);
            let decided = if operator.kind == TokenType::Or {
                is_truthy(first.outcome->Ok_0)
            } else {
                !is_truthy(first.outcome->Ok_0)
            };
            decided ==> whole == first
        }),
{
}

/// One step of the machine as its driver sees it: where the step asks for
/// arithmetic, `oracle` answers at once.
pub open spec fn advance(m: MachineModel, oracle: spec_fn(RequestModel) -> u64) -> (
    MachineModel,
    ActionModel,
) {
    let (next, action) = step(m, Event::Resume);
    match action {
        ActionModel::Compute(request) => step(next, Event::Number(oracle(request))),
        _ => (next, action),
    }
}

/// The machine after `n` steps that asked nothing of the driver but
/// arithmetic; `None` where one of them asked for more.
pub open spec fn quiet(m: MachineModel, oracle: spec_fn(RequestModel) -> u64, n: nat) -> Option<
    MachineModel,
>
    decreases n,
{
    if n == 0 {
        Some(m)
    } else {
        let (next, action) = advance(m, oracle);
        if action == ActionModel::Continue {
            quiet(next, oracle, (n - 1) as nat)
        } else {
            None
        }
    }
}

/// Whether the machine, from `m`, takes `n - 1` quiet steps and then one that
/// reports `error` and leaves it in `end`.
pub open spec fn fails(
    m: MachineModel,
    oracle: spec_fn(RequestModel) -> u64,
    n: nat,
    end: MachineModel,
    error: ErrorModel,
) -> bool {
    &&& n > 0
    &&& quiet(m, oracle, (n - 1) as nat) is Some
    &&& advance(quiet(m, oracle, (n - 1) as nat)->0, oracle) == (end, ActionModel::Report(error))
}

/// Whether the machine, from `m` with the expression on top of its work,
/// does in `n` steps what `eval` says: it ends with the value on top of the
/// operands and the rest of its work untouched; or it reports the failure,
/// drops the operands and abandons the statement. Either way the scopes are
/// those that `eval` gives.
pub open spec fn evaluates(
    m: MachineModel,
    e: ExprModel,
    oracle: spec_fn(RequestModel) -> u64,
    n: nat,
) -> bool {
    let start = MachineModel { tasks: m.tasks.push(TaskModel::Evaluate(e)), ..m };
    let result = eval(e, m.environment, oracle);
    match result.outcome {
        Ok(v) => quiet(start, oracle, n) == Some(
            MachineModel { environment: result.environment, values: m.values.push(v), ..m },
        ),
        Err(error) => fails(
            start,
            oracle,
            n,
            MachineModel {
                environment: result.environment,
                tasks: unwind(m.tasks),
                values: Seq::empty(),
                ..m
            },
            error,
        ),
    }
}

/// Quiet steps add up.
proof fn lemma_quiet_then_quiet(
    m: MachineModel,
    oracle: spec_fn(RequestModel) -> u64,
    a: nat,
    b: nat,
)
    requires
        quiet(m, oracle, a) is Some,
    ensures
        quiet(m, oracle, a + b) == quiet(quiet(m, oracle, a)->0, oracle, b),
    decreases a,
{
    if a > 0 {
        let (next, action) = advance(m, oracle);
        lemma_quiet_then_quiet(next, oracle, (a - 1) as nat, b);
    }
}

/// Quiet steps and then a failure make a failure.
proof fn lemma_quiet_then_fails(
    m: MachineModel,
    oracle: spec_fn(RequestModel) -> u64,
    a: nat,
    b: nat,
    end: MachineModel,
    error: ErrorModel,
)
    requires
        quiet(m, oracle, a) is Some,
        fails(quiet(m, oracle, a)->0, oracle, b, end, error),
    ensures
        fails(m, oracle, a + b, end, error),
{
    lemma_quiet_then_quiet(m, oracle, a, (b - 1) as nat);
    assert(a + (b - 1) as nat == (a + b - 1) as nat);
}

/// A single quiet step.
proof fn lemma_one_quiet(
    m: MachineModel,
    oracle: spec_fn(RequestModel) -> u64,
    next: MachineModel,
)
    requires
        advance(m, oracle) == (next, ActionModel::Continue),
    ensures
        quiet(m, oracle, 1) == Some(next),
{
    reveal_with_fuel(quiet, 2);
}

/// A single failing step.
proof fn lemma_one_fails(
    m: MachineModel,
    oracle: spec_fn(RequestModel) -> u64,
    end: MachineModel,
    error: ErrorModel,
)
    requires
        advance(m, oracle) == (end, ActionModel::Report(error)),
    ensures
        fails(m, oracle, 1, end, error),
{
}

/// Abandoning a statement drops the tasks of its expression.
proof fn lemma_unwind_push(tasks: Seq<TaskModel>, task: TaskModel)
    requires
        within_expression(task),
    ensures
        unwind(tasks.push(task)) == unwind(tasks),
{
    assert(tasks.push(task).drop_last() =~= tasks);
}

/// With the expression on top of its work, the machine's next step starts
/// the expression.
proof fn lemma_first_step(m: MachineModel, e: ExprModel)
    requires
        m.pending is None,
    ensures
        step(
            MachineModel { tasks: m.tasks.push(TaskModel::Evaluate(e)), ..m },
            Event::Resume,
        ) == evaluate(m, e),
{
    let start = MachineModel { tasks: m.tasks.push(TaskModel::Evaluate(e)), ..m };
    assert(start.tasks.drop_last() =~= m.tasks);
    assert(MachineModel { tasks: start.tasks.drop_last(), ..start } == m);
}

/// A step that settles an outcome is quiet where the outcome is a value,
/// with the arithmetic answered at once; else it is a failure.
proof fn lemma_settle(
    s: MachineModel,
    b: MachineModel,
    token: TokenModel,
    outcome: Outcome,
    oracle: spec_fn(RequestModel) -> u64,
)
    requires
        b.pending is None,
        step(s, Event::Resume) == settle(b, token, outcome),
    ensures
        match resolve(token, outcome, oracle) {
            Ok(v) => quiet(s, oracle, 1) == Some(MachineModel { values: b.values.push(v), ..b }),
            Err(error) => fails(
                s,
                oracle,
                1,
                MachineModel { tasks: unwind(b.tasks), values: Seq::empty(), ..b },
                error,
            ),
        },
{
    match resolve(token, outcome, oracle) {
        Ok(v) => {
            lemma_one_quiet(s, oracle, MachineModel { values: b.values.push(v), ..b });
        },
        Err(error) => {
            lemma_one_fails(
                s,
                oracle,
                MachineModel { tasks: unwind(b.tasks), values: Seq::empty(), ..b },
                error,
            );
        },
    }
}

/// The machine evaluates expressions as `eval` says.
///
/// From any state that waits for no answer, with the expression on top of
/// its work, the machine takes the returned number of steps, each of them
/// asking nothing of the driver but arithmetic. Where `eval` gives a value,
/// the machine then holds that value on top of its operands, and the rest of
/// its work and its other operands are as they were. Where `eval` gives a
/// failure, the last of those steps reports that failure, and the machine
/// has dropped its operands and abandoned the statement. In both cases its
/// scopes are those that `eval` gives.
pub proof fn lemma_machine_evaluates(
    m: MachineModel,
    e: ExprModel,
    oracle: spec_fn(RequestModel) -> u64,
) -> (n: nat)
    requires
        m.pending is None,
    ensures
        evaluates(m, e, oracle, n),
    decreases e,
{
    let start = MachineModel { tasks: m.tasks.push(TaskModel::Evaluate(e)), ..m };
    lemma_first_step(m, e);
    match e {
        ExprModel::Literal(token) => {
            lemma_settle(start, m, token, literal_outcome(token), oracle);
            1
        },
        ExprModel::Grouping(inner) => {
            let n1 = lemma_machine_evaluates(m, *inner, oracle);
            let s1 = MachineModel { tasks: m.tasks.push(TaskModel::Evaluate(*inner)), ..m };
            lemma_one_quiet(start, oracle, s1);
            let x = eval(*inner, m.environment, oracle);
            match x.outcome {
                Ok(_) => {
                    lemma_quiet_then_quiet(start, oracle, 1, n1);
                },
                Err(error) => {
                    lemma_quiet_then_fails(
                        start,
                        oracle,
                        1,
                        n1,
                        MachineModel {
                            environment: x.environment,
                            tasks: unwind(m.tasks),
                            values: Seq::empty(),
                            ..m
                        },
                        error,
                    );
                },
            }
            1 + n1
        },
        ExprModel::Unary(operator, operand) => {
            let m1 = MachineModel { tasks: m.tasks.push(TaskModel::Unary(operator)), ..m };
            let s1 = MachineModel { tasks: m1.tasks.push(TaskModel::Evaluate(*operand)), ..m1 };
            lemma_one_quiet(start, oracle, s1);
            let n1 = lemma_machine_evaluates(m1, *operand, oracle);
            let x = eval(*operand, m.environment, oracle);
            lemma_unwind_push(m.tasks, TaskModel::Unary(operator));
            match x.outcome {
                Ok(v) => {
                    let s2 = MachineModel {
                        environment: x.environment,
                        values: m.values.push(v),
                        ..m1
                    };
                    let b = MachineModel { environment: x.environment, ..m };
                    assert(s2.tasks.drop_last() =~= m.tasks);
                    assert(s2.values.drop_last() =~= m.values);
                    assert(step(s2, Event::Resume) == settle(
                        b,
                        operator,
                        unary_outcome(operator, v),
                    ));
                    lemma_settle(s2, b, operator, unary_outcome(operator, v), oracle);
                    lemma_quiet_then_quiet(start, oracle, 1, n1);
                    match resolve(operator, unary_outcome(operator, v), oracle) {
                        Ok(_) => {
                            lemma_quiet_then_quiet(start, oracle, 1 + n1, 1);
                        },
                        Err(error) => {
                            lemma_quiet_then_fails(
                                start,
                                oracle,
                                1 + n1,
                                1,
                                MachineModel { tasks: unwind(b.tasks), values: Seq::empty(), ..b },
                                error,
                            );
                        },
                    }
                    1 + n1 + 1
                },
                Err(error) => {
                    lemma_quiet_then_fails(
                        start,
                        oracle,
                        1,
                        n1,
                        MachineModel {
                            environment: x.environment,
                            tasks: unwind(m.tasks),
                            values: Seq::empty(),
                            ..m
                        },
                        error,
                    );
                    1 + n1
                },
            }
        },
        ExprModel::Binary(left, operator, right) => {
            let m_a = MachineModel {
                tasks: m.tasks.push(TaskModel::Binary(operator)).push(TaskModel::Evaluate(*right)),
                ..m
            };
            let s1 = MachineModel { tasks: m_a.tasks.push(TaskModel::Evaluate(*left)), ..m_a };
            lemma_one_quiet(start, oracle, s1);
            let n_a = lemma_machine_evaluates(m_a, *left, oracle);
            let a = eval(*left, m.environment, oracle);
            lemma_unwind_push(m.tasks, TaskModel::Binary(operator));
            lemma_unwind_push(
                m.tasks.push(TaskModel::Binary(operator)),
                TaskModel::Evaluate(*right),
            );
            match a.outcome {
                Ok(l) => {
                    let m_b = MachineModel {
                        environment: a.environment,
                        tasks: m.tasks.push(TaskModel::Binary(operator)),
                        values: m.values.push(l),
                        ..m
                    };
                    let s_a = MachineModel {
                        tasks: m_b.tasks.push(TaskModel::Evaluate(*right)),
                        ..m_b
                    };
                    assert(quiet(s1, oracle, n_a) == Some(s_a));
                    lemma_quiet_then_quiet(start, oracle, 1, n_a);
                    let n_b = lemma_machine_evaluates(m_b, *right, oracle);
                    let b = eval(*right, a.environment, oracle);
                    match b.outcome {
                        Ok(r) => {
                            let s_b = MachineModel {
                                environment: b.environment,
                                values: m_b.values.push(r),
                                ..m_b
                            };
                            let base = MachineModel { environment: b.environment, ..m };
                            assert(s_b.tasks.drop_last() =~= m.tasks);
                            assert(s_b.values.drop_last() =~= m.values.push(l));
                            assert(s_b.values.drop_last().drop_last() =~= m.values);
                            assert(step(s_b, Event::Resume) == settle(
                                base,
                                operator,
                                binary_outcome(operator, l, r),
                            ));
                            lemma_settle(
                                s_b,
                                base,
                                operator,
                                binary_outcome(operator, l, r),
                                oracle,
                            );
                            lemma_quiet_then_quiet(start, oracle, 1 + n_a, n_b);
                            match resolve(operator, binary_outcome(operator, l, r), oracle) {
                                Ok(_) => {
                                    lemma_quiet_then_quiet(start, oracle, 1 + n_a + n_b, 1);
                                },
                                Err(error) => {
                                    lemma_quiet_then_fails(
                                        start,
                                        oracle,
                                        1 + n_a + n_b,
                                        1,
                                        MachineModel {
                                            tasks: unwind(base.tasks),
                                            values: Seq::empty(),
                                            ..base
                                        },
                                        error,
                                    );
                                },
                            }
                            1 + n_a + n_b + 1
                        },
                        Err(error) => {
                            lemma_quiet_then_fails(
                                start,
                                oracle,
                                1 + n_a,
                                n_b,
                                MachineModel {
                                    environment: b.environment,
                                    tasks: unwind(m.tasks),
                                    values: Seq::empty(),
                                    ..m
                                },
                                error,
                            );
                            1 + n_a + n_b
                        },
                    }
                },
                Err(error) => {
                    lemma_quiet_then_fails(
                        start,
                        oracle,
                        1,
                        n_a,
                        MachineModel {
                            environment: a.environment,
                            tasks: unwind(m.tasks),
                            values: Seq::empty(),
                            ..m
                        },
                        error,
                    );
                    1 + n_a
                },
            }
        },
        ExprModel::Logical(left, operator, right) => {
            let m_a = MachineModel {
                tasks: m.tasks.push(TaskModel::Logical(operator, *right)),
                ..m
            };
            let s1 = MachineModel { tasks: m_a.tasks.push(TaskModel::Evaluate(*left)), ..m_a };
            lemma_one_quiet(start, oracle, s1);
            let n_a = lemma_machine_evaluates(m_a, *left, oracle);
            let a = eval(*left, m.environment, oracle);
            lemma_unwind_push(m.tasks, TaskModel::Logical(operator, *right));
            match a.outcome {
                Ok(l) => {
                    let s_a = MachineModel {
                        environment: a.environment,
                        values: m.values.push(l),
                        ..m_a
                    };
                    let base = MachineModel { environment: a.environment, ..m };
                    assert(s_a.tasks.drop_last() =~= m.tasks);
                    assert(s_a.values.drop_last() =~= m.values);
                    assert(step(s_a, Event::Resume) == short_circuit(base, operator, l, *right));
                    lemma_quiet_then_quiet(start, oracle, 1, n_a);
                    let decided = (operator.kind == TokenType::Or && is_truthy(l)) || (
                    operator.kind == TokenType::And && !is_truthy(l));
                    if decided {
                        lemma_one_quiet(
                            s_a,
                            oracle,
                            MachineModel { values: base.values.push(l), ..base },
                        );
                        lemma_quiet_then_quiet(start, oracle, 1 + n_a, 1);
                        1 + n_a + 1
                    } else if operator.kind == TokenType::Or || operator.kind == TokenType::And {
                        let s_b = MachineModel {
                            tasks: base.tasks.push(TaskModel::Evaluate(*right)),
                            ..base
                        };
                        lemma_one_quiet(s_a, oracle, s_b);
                        lemma_quiet_then_quiet(start, oracle, 1 + n_a, 1);
                        let n_b = lemma_machine_evaluates(base, *right, oracle);
                        let b = eval(*right, a.environment, oracle);
                        match b.outcome {
                            Ok(_) => {
                                lemma_quiet_then_quiet(start, oracle, 1 + n_a + 1, n_b);
                            },
                            Err(error) => {
                                lemma_quiet_then_fails(
                                    start,
                                    oracle,
                                    1 + n_a + 1,
                                    n_b,
                                    MachineModel {
                                        environment: b.environment,
                                        tasks: unwind(m.tasks),
                                        values: Seq::empty(),
                                        ..m
                                    },
                                    error,
                                );
                            },
                        }
                        1 + n_a + 1 + n_b
                    } else {
                        let error = ErrorModel {
                            kind: ErrorKind::MalformedExpression,
                            token: operator,
                            message: operator_message(operator.lexeme),
                        };
                        let end = MachineModel {
                            tasks: unwind(base.tasks),
                            values: Seq::empty(),
                            ..base
                        };
                        lemma_one_fails(s_a, oracle, end, error);
                        lemma_quiet_then_fails(start, oracle, 1 + n_a, 1, end, error);
                        1 + n_a + 1
                    }
                },
                Err(error) => {
                    lemma_quiet_then_fails(
                        start,
                        oracle,
                        1,
                        n_a,
                        MachineModel {
                            environment: a.environment,
                            tasks: unwind(m.tasks),
                            values: Seq::empty(),
                            ..m
                        },
                        error,
                    );
                    1 + n_a
                },
            }
        },
        ExprModel::Variable(name) => {
            match lookup(m.environment, name.lexeme) {
                Some(v) => {
                    lemma_one_quiet(
                        start,
                        oracle,
                        MachineModel { values: m.values.push(v), ..m },
                    );
                },
                None => {
                    lemma_one_fails(
                        start,
                        oracle,
                        MachineModel { tasks: unwind(m.tasks), values: Seq::empty(), ..m },
                        undefined(name),
                    );
                },
            }
            1
        },
        ExprModel::Assign(name, value) => {
            match lookup(m.environment, name.lexeme) {
                Some(_) => {
                    let m_a = MachineModel {
                        tasks: m.tasks.push(TaskModel::Store(name, *value)),
                        ..m
                    };
                    let s1 = MachineModel {
                        tasks: m_a.tasks.push(TaskModel::Evaluate(*value)),
                        ..m_a
                    };
                    lemma_one_quiet(start, oracle, s1);
                    let n_a = lemma_machine_evaluates(m_a, *value, oracle);
                    let a = eval(*value, m.environment, oracle);
                    lemma_unwind_push(m.tasks, TaskModel::Store(name, *value));
                    match a.outcome {
                        Ok(v) => {
                            let s_a = MachineModel {
                                environment: a.environment,
                                values: m.values.push(v),
                                ..m_a
                            };
                            let base = MachineModel { environment: a.environment, ..m };
                            assert(s_a.tasks.drop_last() =~= m.tasks);
                            assert(s_a.values.drop_last() =~= m.values);
                            assert(step(s_a, Event::Resume) == store(base, name, v, *value));
                            lemma_quiet_then_quiet(start, oracle, 1, n_a);
                            match assign(a.environment, name.lexeme, v) {
                                Some(stored) => {
                                    let again = MachineModel { environment: stored, ..m };
                                    let s_b = MachineModel {
                                        tasks: again.tasks.push(TaskModel::Evaluate(*value)),
                                        ..again
                                    };
                                    lemma_one_quiet(s_a, oracle, s_b);
                                    lemma_quiet_then_quiet(start, oracle, 1 + n_a, 1);
                                    let n_b = lemma_machine_evaluates(again, *value, oracle);
                                    let b = eval(*value, stored, oracle);
                                    match b.outcome {
                                        Ok(_) => {
                                            lemma_quiet_then_quiet(
                                                start,
                                                oracle,
                                                1 + n_a + 1,
                                                n_b,
                                            );
                                        },
                                        Err(error) => {
                                            lemma_quiet_then_fails(
                                                start,
                                                oracle,
                                                1 + n_a + 1,
                                                n_b,
                                                MachineModel {
                                                    environment: b.environment,
                                                    tasks: unwind(m.tasks),
                                                    values: Seq::empty(),
                                                    ..m
                                                },
                                                error,
                                            );
                                        },
                                    }
                                    1 + n_a + 1 + n_b
                                },
                                None => {
                                    let end = MachineModel {
                                        tasks: unwind(base.tasks),
                                        values: Seq::empty(),
                                        ..base
                                    };
                                    lemma_one_fails(s_a, oracle, end, undefined(name));
                                    lemma_quiet_then_fails(
                                        start,
                                        oracle,
                                        1 + n_a,
                                        1,
                                        end,
                                        undefined(name),
                                    );
                                    1 + n_a + 1
                                },
                            }
                        },
                        Err(error) => {
                            lemma_quiet_then_fails(
                                start,
                                oracle,
                                1,
                                n_a,
                                MachineModel {
                                    environment: a.environment,
                                    tasks: unwind(m.tasks),
                                    values: Seq::empty(),
                                    ..m
                                },
                                error,
                            );
                            1 + n_a
                        },
                    }
                },
                None => {
                    lemma_one_fails(
                        start,
                        oracle,
                        MachineModel { tasks: unwind(m.tasks), values: Seq::empty(), ..m },
                        undefined(name),
                    );
                    1
                },
            }
        },
    }
}

} // verus!
