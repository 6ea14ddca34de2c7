use vstd::prelude::*;
use crate::environment::Frame;
use crate::expr::ExprModel;
use crate::stmt::StmtModel;
use crate::token::{LiteralModel, TokenModel};
use crate::token_type::TokenType;
use crate::value::{number_equal, number_less, number_less_equal, number_negated, ValueModel};

verus! {

/// The kinds of failure that evaluation can report.
#[derive(Clone, Copy, PartialEq, Eq, Structural, Debug)]
pub enum ErrorKind {
    /// An operator was applied to values of the wrong category.
    TypeError,
    /// A name was read or assigned that no enclosing scope binds.
    UndefinedVariable,
    /// A node carries a token that cannot stand where it stands.
    MalformedExpression,
}

/// Mathematical model of a reported runtime failure.
pub struct ErrorModel {
    pub kind: ErrorKind,
    pub token: TokenModel,
    pub message: Seq<char>,
}

/// Arithmetic on doubles that the machine asks its driver to perform.
pub enum RequestModel {
    /// The double nearest to the decimal numeral.
    Parse(Seq<char>),
    Add(u64, u64),
    Subtract(u64, u64),
    Multiply(u64, u64),
    Divide(u64, u64),
}

/// What the driver hands to the machine with each step.
#[derive(Clone, Copy, Debug)]
pub enum Event {
    /// Nothing: carry on.
    Resume,
    /// The bit pattern of the double that answers the last request.
    Number(u64),
}

/// What a step asks of the driver.
pub enum ActionModel {
    /// Nothing: step again.
    Continue,
    /// No work is left.
    Finished,
    /// Write the rendering of the value as one line of output.
    Print(ValueModel),
    /// Report the failure; the statement that raised it has been abandoned.
    Report(ErrorModel),
    /// Perform the arithmetic and answer with `Event::Number`.
    Compute(RequestModel),
    /// The value of an expression that was submitted on its own.
    Result(ValueModel),
}

/// One unit of pending work. The machine keeps them on a stack.
pub enum TaskModel {
    /// Run a statement.
    Execute(StmtModel),
    /// Evaluate an expression and push its value.
    Evaluate(ExprModel),
    /// End of an expression statement: drop the value.
    Discard,
    /// End of a print statement: hand the value out.
    Print,
    /// End of a lone expression: hand the value back.
    Yield,
    /// End of a declaration: bind the value to the name.
    Define(TokenModel),
    /// After an `if` condition: pick a branch by the value.
    Branch(StmtModel, Option<StmtModel>),
    /// After a `while` condition: run the body and test again, or stop.
    Loop(ExprModel, StmtModel),
    /// End of a block: drop the innermost scope.
    Leave,
    /// Apply a prefix operator to the value on top.
    Unary(TokenModel),
    /// Apply a binary operator to the two values on top.
    Binary(TokenModel),
    /// After the left operand of `and` / `or`: keep it, or evaluate the right.
    Logical(TokenModel, ExprModel),
    /// After the right-hand side of an assignment: store it, then evaluate
    /// the right-hand side once more for the result.
    Store(TokenModel, ExprModel),
}

/// Mathematical model of the interpreter.
pub struct MachineModel {
    /// Scopes, innermost first.
    pub environment: Seq<Frame>,
    /// Pending work; the last element is next.
    pub tasks: Seq<TaskModel>,
    /// Operands; the last element is on top.
    pub values: Seq<ValueModel>,
    /// The request that waits for its answer.
    pub pending: Option<RequestModel>,
}

/// What applying an operator, or reading a literal, comes to.
pub enum Outcome {
    /// A value, at once.
    Value(ValueModel),
    /// A value that the driver has to compute.
    Ask(RequestModel),
    /// A failure.
    Fail(ErrorKind, Seq<char>),
}

/// `nil` and `false` are falsy; every other value is truthy.
pub open spec fn is_truthy(v: ValueModel) -> bool {
    match v {
        ValueModel::Nil => false,
        ValueModel::Boolean(b) => b,
        _ => true,
    }
}

/// The failure text for a prefix operator on a value that is no number.
pub open spec fn operand_message(op: Seq<char>) -> Seq<char> {
    "[ERROR] Operand of '"@ + op + "' must be a number."@
}

/// The failure text for an operator on values that are not two numbers.
pub open spec fn operands_message(op: Seq<char>) -> Seq<char> {
    "[ERROR] Operands of '"@ + op + "' must be numbers."@
}

/// The failure text for `+` on values that it can neither add nor join.
pub open spec fn sum_message(op: Seq<char>) -> Seq<char> {
    "[ERROR] Operands of '"@ + op + "' must be two numbers or two strings."@
}

/// The failure text for `==` and `!=` on values that cannot be compared.
pub open spec fn equality_message(op: Seq<char>) -> Seq<char> {
    "[ERROR] Operands of '"@ + op + "' cannot be compared."@
}

/// The failure text for a token that is no operator where it stands.
pub open spec fn operator_message(op: Seq<char>) -> Seq<char> {
    "[ERROR] '"@ + op + "' is not an operator here."@
}

/// The failure text for a token that is no literal.
pub open spec fn literal_message(lexeme: Seq<char>) -> Seq<char> {
    "[ERROR] '"@ + lexeme + "' is not a literal."@
}

/// The value of a literal token, by its kind.
pub open spec fn literal_outcome(t: TokenModel) -> Outcome {
    match t.kind {
        TokenType::True => Outcome::Value(ValueModel::Boolean(true)),
        TokenType::False => Outcome::Value(ValueModel::Boolean(false)),
        TokenType::Nil => Outcome::Value(ValueModel::Nil),
        TokenType::String => match t.literal {
            Some(LiteralModel::Text(s)) => Outcome::Value(ValueModel::Text(s)),
            _ => Outcome::Fail(ErrorKind::MalformedExpression, literal_message(t.lexeme)),
        },
        TokenType::Number => match t.literal {
            Some(LiteralModel::Number(s)) => Outcome::Ask(RequestModel::Parse(s)),
            _ => Outcome::Fail(ErrorKind::MalformedExpression, literal_message(t.lexeme)),
        },
        _ => Outcome::Fail(ErrorKind::MalformedExpression, literal_message(t.lexeme)),
    }
}

/// `-` negates a number; `!` negates truthiness.
pub open spec fn unary_outcome(op: TokenModel, v: ValueModel) -> Outcome {
    match op.kind {
        TokenType::Minus => match v {
            ValueModel::Number(n) => Outcome::Value(ValueModel::Number(number_negated(n))),
            _ => Outcome::Fail(ErrorKind::TypeError, operand_message(op.lexeme)),
        },
        TokenType::Bang => Outcome::Value(ValueModel::Boolean(!is_truthy(v))),
        _ => Outcome::Fail(ErrorKind::MalformedExpression, operator_message(op.lexeme)),
    }
}

/// Whether two values are equal; `None` where the language does not compare
/// them: `nil` equals only `nil`, booleans and numbers compare by value,
/// and nothing else is comparable.
pub open spec fn equality(l: ValueModel, r: ValueModel) -> Option<bool> {
    match (l, r) {
        (ValueModel::Nil, ValueModel::Nil) => Some(true),
        (ValueModel::Nil, _) => Some(false),
        (_, ValueModel::Nil) => Some(false),
        (ValueModel::Boolean(a), ValueModel::Boolean(b)) => Some(a == b),
        (ValueModel::Number(a), ValueModel::Number(b)) => Some(number_equal(a, b)),
        _ => None,
    }
}

/// The two numbers, where both operands are numbers.
pub open spec fn numbers(l: ValueModel, r: ValueModel) -> Option<(u64, u64)> {
    match (l, r) {
        (ValueModel::Number(a), ValueModel::Number(b)) => Some((a, b)),
        _ => None,
    }
}

/// `-` subtracts two numbers.
pub open spec fn subtract_outcome(op: Seq<char>, l: ValueModel, r: ValueModel) -> Outcome {
    match numbers(l, r) {
        Some((a, b)) => Outcome::Ask(RequestModel::Subtract(a, b)),
        None => Outcome::Fail(ErrorKind::TypeError, operands_message(op)),
    }
}

/// `*` multiplies two numbers.
pub open spec fn multiply_outcome(op: Seq<char>, l: ValueModel, r: ValueModel) -> Outcome {
    match numbers(l, r) {
        Some((a, b)) => Outcome::Ask(RequestModel::Multiply(a, b)),
        None => Outcome::Fail(ErrorKind::TypeError, operands_message(op)),
    }
}

/// `/` divides two numbers, as doubles divide: by zero too.
pub open spec fn divide_outcome(op: Seq<char>, l: ValueModel, r: ValueModel) -> Outcome {
    match numbers(l, r) {
        Some((a, b)) => Outcome::Ask(RequestModel::Divide(a, b)),
        None => Outcome::Fail(ErrorKind::TypeError, operands_message(op)),
    }
}

/// `+` adds two numbers and joins two strings.
pub open spec fn sum_outcome(op: Seq<char>, l: ValueModel, r: ValueModel) -> Outcome {
    match (l, r) {
        (ValueModel::Number(a), ValueModel::Number(b)) => Outcome::Ask(RequestModel::Add(a, b)),
        (ValueModel::Text(a), ValueModel::Text(b)) => Outcome::Value(ValueModel::Text(a + b)),
        _ => Outcome::Fail(ErrorKind::TypeError, sum_message(op)),
    }
}

/// `<` compares two numbers.
pub open spec fn less_outcome(op: Seq<char>, l: ValueModel, r: ValueModel) -> Outcome {
    match numbers(l, r) {
        Some((a, b)) => Outcome::Value(ValueModel::Boolean(number_less(a, b))),
        None => Outcome::Fail(ErrorKind::TypeError, operands_message(op)),
    }
}

/// `<=` compares two numbers.
pub open spec fn less_equal_outcome(op: Seq<char>, l: ValueModel, r: ValueModel) -> Outcome {
    match numbers(l, r) {
        Some((a, b)) => Outcome::Value(ValueModel::Boolean(number_less_equal(a, b))),
        None => Outcome::Fail(ErrorKind::TypeError, operands_message(op)),
    }
}

/// `>` compares two numbers.
pub open spec fn greater_outcome(op: Seq<char>, l: ValueModel, r: ValueModel) -> Outcome {
    match numbers(l, r) {
        Some((a, b)) => Outcome::Value(ValueModel::Boolean(number_less(b, a))),
        None => Outcome::Fail(ErrorKind::TypeError, operands_message(op)),
    }
}

/// `>=` compares two numbers.
pub open spec fn greater_equal_outcome(op: Seq<char>, l: ValueModel, r: ValueModel) -> Outcome {
    match numbers(l, r) {
        Some((a, b)) => Outcome::Value(ValueModel::Boolean(number_less_equal(b, a))),
        None => Outcome::Fail(ErrorKind::TypeError, operands_message(op)),
    }
}

/// `==` where `negated` is false, `!=` where it is true.
pub open spec fn equality_outcome(
    op: Seq<char>,
    negated: bool,
    l: ValueModel,
    r: ValueModel,
) -> Outcome {
    match equality(l, r) {
        Some(b) => Outcome::Value(ValueModel::Boolean(b != negated)),
        None => Outcome::Fail(ErrorKind::TypeError, equality_message(op)),
    }
}

/// What a binary operator makes of its two operands.
pub open spec fn binary_outcome(op: TokenModel, l: ValueModel, r: ValueModel) -> Outcome {
    match op.kind {
        TokenType::Minus => subtract_outcome(op.lexeme, l, r),
        TokenType::Star => multiply_outcome(op.lexeme, l, r),
        TokenType::Slash => divide_outcome(op.lexeme, l, r),
        TokenType::Plus => sum_outcome(op.lexeme, l, r),
        TokenType::Greater => greater_outcome(op.lexeme, l, r),
        TokenType::GreaterEqual => greater_equal_outcome(op.lexeme, l, r),
        TokenType::Less => less_outcome(op.lexeme, l, r),
        TokenType::LessEqual => less_equal_outcome(op.lexeme, l, r),
        TokenType::EqualEqual => equality_outcome(op.lexeme, false, l, r),
        TokenType::BangEqual => equality_outcome(op.lexeme, true, l, r),
        _ => Outcome::Fail(ErrorKind::MalformedExpression, operator_message(op.lexeme)),
    }
}

/// The operand stack without its top, and the top. An empty stack reads as
/// `nil`.
pub open spec fn pop(values: Seq<ValueModel>) -> (Seq<ValueModel>, ValueModel) {
    if values.len() > 0 {
        (values.drop_last(), values.last())
    } else {
        (values, ValueModel::Nil)
    }
}

/// The tasks that run the statements in order: the first statement is last
/// in the result, so it is on top of the stack.
pub open spec fn schedule(statements: Seq<StmtModel>) -> Seq<TaskModel> {
    Seq::new(
        statements.len(),
        |i: int| TaskModel::Execute(statements[statements.len() - 1 - i]),
    )
}

/// Whether the task ends a statement by consuming the value of its expression.
pub open spec fn ends_statement(task: TaskModel) -> bool {
    match task {
        TaskModel::Discard => true,
        TaskModel::Print => true,
        TaskModel::Yield => true,
        TaskModel::Define(_) => true,
        TaskModel::Branch(_, _) => true,
        TaskModel::Loop(_, _) => true,
        _ => false,
    }
}

/// Whether the task belongs to the evaluation of an expression.
pub open spec fn within_expression(task: TaskModel) -> bool {
    match task {
        TaskModel::Evaluate(_) => true,
        TaskModel::Unary(_) => true,
        TaskModel::Binary(_) => true,
        TaskModel::Logical(_, _) => true,
        TaskModel::Store(_, _) => true,
        _ => false,
    }
}

/// The task stack after abandoning the statement whose expression failed:
/// the rest of that expression goes, and so does the task that would have
/// consumed its value. Later statements stay.
pub open spec fn unwind(tasks: Seq<TaskModel>) -> Seq<TaskModel>
    decreases tasks.len(),
{
    if tasks.len() == 0 {
        tasks
    } else if within_expression(tasks.last()) {
        unwind(tasks.drop_last())
    } else if ends_statement(tasks.last()) {
        tasks.drop_last()
    } else {
        tasks
    }
}

/// A failure: the operands are dropped, the statement is abandoned, and the
/// failure is handed out for reporting.
pub open spec fn fail(m: MachineModel, error: ErrorModel) -> (MachineModel, ActionModel) {
    (
        MachineModel { tasks: unwind(m.tasks), values: Seq::empty(), ..m },
        ActionModel::Report(error),
    )
}

/// Acts on an outcome: pushes the value, asks for it, or fails at `token`.
pub open spec fn settle(m: MachineModel, token: TokenModel, outcome: Outcome) -> (
    MachineModel,
    ActionModel,
) {
    match outcome {
        Outcome::Value(v) => (MachineModel { values: m.values.push(v), ..m }, ActionModel::Continue),
        Outcome::Ask(request) => (
            MachineModel { pending: Some(request), ..m },
            ActionModel::Compute(request),
        ),
        Outcome::Fail(kind, message) => fail(m, ErrorModel { kind, token, message }),
    }
}

/// Starts a statement.
pub open spec fn execute(m: MachineModel, statement: StmtModel) -> MachineModel {
    match statement {
        StmtModel::Expr(e) => MachineModel {
            tasks: m.tasks.push(TaskModel::Discard).push(TaskModel::Evaluate(e)),
            ..m
        },
        StmtModel::Print(e) => MachineModel {
            tasks: m.tasks.push(TaskModel::Print).push(TaskModel::Evaluate(e)),
            ..m
        },
        StmtModel::Var(name, Some(e)) => MachineModel {
            tasks: m.tasks.push(TaskModel::Define(name)).push(TaskModel::Evaluate(e)),
            ..m
        },
        StmtModel::Var(name, None) => MachineModel {
            environment: crate::environment::define(m.environment, name.lexeme, ValueModel::Nil),
            ..m
        },
        StmtModel::Block(statements) => MachineModel {
            environment: seq![Map::<Seq<char>, ValueModel>::empty()] + m.environment,
            tasks: m.tasks.push(TaskModel::Leave) + schedule(statements),
            ..m
        },
        StmtModel::If(condition, then_branch, else_branch) => MachineModel {
            tasks: m.tasks.push(
                TaskModel::Branch(
                    *then_branch,
                    match else_branch {
                        Some(s) => Some(*s),
                        None => None,
                    },
                ),
            ).push(TaskModel::Evaluate(condition)),
            ..m
        },
        StmtModel::While(condition, body) => MachineModel {
            tasks: m.tasks.push(TaskModel::Loop(condition, *body)).push(
                TaskModel::Evaluate(condition),
            ),
            ..m
        },
    }
}

/// Starts an expression.
pub open spec fn evaluate(m: MachineModel, expression: ExprModel) -> (MachineModel, ActionModel) {
    match expression {
        ExprModel::Literal(t) => settle(m, t, literal_outcome(t)),
        ExprModel::Grouping(inner) => (
            MachineModel { tasks: m.tasks.push(TaskModel::Evaluate(*inner)), ..m },
            ActionModel::Continue,
        ),
        ExprModel::Unary(op, operand) => (
            MachineModel {
                tasks: m.tasks.push(TaskModel::Unary(op)).push(TaskModel::Evaluate(*operand)),
                ..m
            },
            ActionModel::Continue,
        ),
        ExprModel::Binary(left, op, right) => (
            MachineModel {
                tasks: m.tasks.push(TaskModel::Binary(op)).push(TaskModel::Evaluate(*right)).push(
                    TaskModel::Evaluate(*left),
                ),
                ..m
            },
            ActionModel::Continue,
        ),
        ExprModel::Logical(left, op, right) => (
            MachineModel {
                tasks: m.tasks.push(TaskModel::Logical(op, *right)).push(
                    TaskModel::Evaluate(*left),
                ),
                ..m
            },
            ActionModel::Continue,
        ),
        ExprModel::Variable(name) => match crate::environment::lookup(m.environment, name.lexeme) {
            Some(v) => (MachineModel { values: m.values.push(v), ..m }, ActionModel::Continue),
            None => fail(
                m,
                ErrorModel {
                    kind: ErrorKind::UndefinedVariable,
                    token: name,
                    message: crate::environment::undefined_message(name.lexeme),
                },
            ),
        },
        ExprModel::Assign(name, value) => match crate::environment::lookup(
            m.environment,
            name.lexeme,
        ) {
            Some(_) => (
                MachineModel {
                    tasks: m.tasks.push(TaskModel::Store(name, *value)).push(
                        TaskModel::Evaluate(*value),
                    ),
                    ..m
                },
                ActionModel::Continue,
            ),
            None => fail(
                m,
                ErrorModel {
                    kind: ErrorKind::UndefinedVariable,
                    token: name,
                    message: crate::environment::undefined_message(name.lexeme),
                },
            ),
        },
    }
}

/// After the left operand of `and` / `or`.
pub open spec fn short_circuit(
    m: MachineModel,
    op: TokenModel,
    left: ValueModel,
    right: ExprModel,
) -> (MachineModel, ActionModel) {
    match op.kind {
        TokenType::Or => if is_truthy(left) {
            (MachineModel { values: m.values.push(left), ..m }, ActionModel::Continue)
        } else {
            (
                MachineModel { tasks: m.tasks.push(TaskModel::Evaluate(right)), ..m },
                ActionModel::Continue,
            )
        },
        TokenType::And => if !is_truthy(left) {
            (MachineModel { values: m.values.push(left), ..m }, ActionModel::Continue)
        } else {
            (
                MachineModel { tasks: m.tasks.push(TaskModel::Evaluate(right)), ..m },
                ActionModel::Continue,
            )
        },
        _ => fail(
            m,
            ErrorModel {
                kind: ErrorKind::MalformedExpression,
                token: op,
                message: operator_message(op.lexeme),
            },
        ),
    }
}

/// Stores the value under the name, then evaluates the right-hand side again.
pub open spec fn store(m: MachineModel, name: TokenModel, v: ValueModel, value: ExprModel) -> (
    MachineModel,
    ActionModel,
) {
    match crate::environment::assign(m.environment, name.lexeme, v) {
        Some(environment) => (
            MachineModel { environment, tasks: m.tasks.push(TaskModel::Evaluate(value)), ..m },
            ActionModel::Continue,
        ),
        None => fail(
            m,
            ErrorModel {
                kind: ErrorKind::UndefinedVariable,
                token: name,
                message: crate::environment::undefined_message(name.lexeme),
            },
        ),
    }
}

/// Runs one task that was taken off the stack of `m`.
pub open spec fn run(m: MachineModel, task: TaskModel) -> (MachineModel, ActionModel) {
    let (below, top) = pop(m.values);
    match task {
        TaskModel::Execute(statement) => (execute(m, statement), ActionModel::Continue),
        TaskModel::Evaluate(expression) => evaluate(m, expression),
        TaskModel::Discard => (MachineModel { values: below, ..m }, ActionModel::Continue),
        TaskModel::Print => (MachineModel { values: below, ..m }, ActionModel::Print(top)),
        TaskModel::Yield => (MachineModel { values: below, ..m }, ActionModel::Result(top)),
        TaskModel::Define(name) => (
            MachineModel {
                environment: crate::environment::define(m.environment, name.lexeme, top),
                values: below,
                ..m
            },
            ActionModel::Continue,
        ),
        TaskModel::Branch(then_branch, else_branch) => (
            if is_truthy(top) {
                MachineModel {
                    tasks: m.tasks.push(TaskModel::Execute(then_branch)),
                    values: below,
                    ..m
                }
            } else {
                match else_branch {
                    Some(s) => MachineModel {
                        tasks: m.tasks.push(TaskModel::Execute(s)),
                        values: below,
                        ..m
                    },
                    None => MachineModel { values: below, ..m },
                }
            },
            ActionModel::Continue,
        ),
        TaskModel::Loop(condition, body) => (
            if is_truthy(top) {
                MachineModel {
                    tasks: m.tasks.push(TaskModel::Loop(condition, body)).push(
                        TaskModel::Evaluate(condition),
                    ).push(TaskModel::Execute(body)),
                    values: below,
                    ..m
                }
            } else {
                MachineModel { values: below, ..m }
            },
            ActionModel::Continue,
        ),
        TaskModel::Leave => (
            if m.environment.len() > 1 {
                MachineModel { environment: m.environment.drop_first(), ..m }
            } else {
                m
            },
            ActionModel::Continue,
        ),
        TaskModel::Unary(op) => settle(
            MachineModel { values: below, ..m },
            op,
            unary_outcome(op, top),
        ),
        TaskModel::Binary(op) => {
            let (rest, left) = pop(below);
            settle(MachineModel { values: rest, ..m }, op, binary_outcome(op, left, top))
        },
        TaskModel::Logical(op, right) => short_circuit(
            MachineModel { values: below, ..m },
            op,
            top,
            right,
        ),
        TaskModel::Store(name, value) => store(MachineModel { values: below, ..m }, name, top, value),
    }
}

/// One step of the machine.
///
/// While a request waits, only its answer moves the machine on. Otherwise
/// the task on top of the stack runs.
pub open spec fn step(m: MachineModel, event: Event) -> (MachineModel, ActionModel) {
    match m.pending {
        Some(request) => match event {
            Event::Number(bits) => (
                MachineModel {
                    values: m.values.push(ValueModel::Number(bits)),
                    pending: None,
                    ..m
                },
                ActionModel::Continue,
            ),
            Event::Resume => (m, ActionModel::Compute(request)),
        },
        None => if m.tasks.len() == 0 {
            (m, ActionModel::Finished)
        } else {
            run(MachineModel { tasks: m.tasks.drop_last(), ..m }, m.tasks.last())
        },
    }
}

/// The machine with the statements put on top of its work, first one next.
pub open spec fn load(m: MachineModel, statements: Seq<StmtModel>) -> MachineModel {
    MachineModel { tasks: m.tasks + schedule(statements), ..m }
}

/// The machine with the lone expression put on top of its work.
pub open spec fn submit(m: MachineModel, expression: ExprModel) -> MachineModel {
    MachineModel {
        tasks: m.tasks.push(TaskModel::Yield).push(TaskModel::Evaluate(expression)),
        ..m
    }
}

} // verus!
