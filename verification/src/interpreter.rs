use vstd::prelude::*;
use vstd::string::*;
use crate::environment::{lemma_frames_nonempty, Environment};
use crate::expr::Expr;
use crate::semantics::{
    binary_outcome, divide_outcome, ends_statement, equality, evaluate, execute, fail,
    greater_equal_outcome, greater_outcome, is_truthy, less_equal_outcome, less_outcome,
    literal_outcome, load, multiply_outcome, pop, run, schedule, settle, short_circuit, step,
    store, submit, subtract_outcome, sum_outcome, unary_outcome, unwind, within_expression,
    ActionModel, ErrorKind, ErrorModel, Event, MachineModel, Outcome, RequestModel, TaskModel,
};
use crate::stmt::{models, Stmt};
use crate::token::{LiteralPossibleValues, Token};
use crate::token_type::TokenType;
use crate::value::{less_or_equal, less_than, negate, same_number, Value, ValueModel};

verus! {

/// A runtime failure: what went wrong, and the token at which it did.
#[derive(Debug)]
pub struct Error {
    pub kind: ErrorKind,
    pub token: Token,
    pub message: String,
}

impl View for Error {
    type V = ErrorModel;

    open spec fn view(&self) -> ErrorModel {
        ErrorModel { kind: self.kind, token: self.token@, message: self.message@ }
    }
}

impl Error {
    pub fn new(kind: ErrorKind, token: Token, message: String) -> (r: Self)
        ensures
            r.kind == kind,
            r.token == token,
            r.message == message,
    {
        Error { kind, token, message }
    }
}

/// Arithmetic on doubles that the interpreter leaves to its driver.
#[derive(Debug)]
pub enum Request {
    /// The double nearest to the decimal numeral.
    Parse(String),
    Add(u64, u64),
    Subtract(u64, u64),
    Multiply(u64, u64),
    Divide(u64, u64),
}

impl View for Request {
    type V = RequestModel;

    open spec fn view(&self) -> RequestModel {
        match self {
            Request::Parse(s) => RequestModel::Parse(s@),
            Request::Add(a, b) => RequestModel::Add(*a, *b),
            Request::Subtract(a, b) => RequestModel::Subtract(*a, *b),
            Request::Multiply(a, b) => RequestModel::Multiply(*a, *b),
            Request::Divide(a, b) => RequestModel::Divide(*a, *b),
        }
    }
}

impl Clone for Request {
    fn clone(&self) -> (r: Self)
        ensures
            r == *self,
    {
        match self {
            Request::Parse(s) => Request::Parse(s.clone()),
            Request::Add(a, b) => Request::Add(*a, *b),
            Request::Subtract(a, b) => Request::Subtract(*a, *b),
            Request::Multiply(a, b) => Request::Multiply(*a, *b),
            Request::Divide(a, b) => Request::Divide(*a, *b),
        }
    }
}

/// What a step asks of the driver.
#[derive(Debug)]
pub enum Action {
    /// Nothing: step again.
    Continue,
    /// No work is left.
    Finished,
    /// Write the rendering of the value as one line of output.
    Print(Value),
    /// Report the failure; the statement that raised it has been abandoned.
    Report(Error),
    /// Perform the arithmetic and answer with `Event::Number`.
    Compute(Request),
    /// The value of an expression that was submitted on its own.
    Result(Value),
}

impl View for Action {
    type V = ActionModel;

    open spec fn view(&self) -> ActionModel {
        match self {
            Action::Continue => ActionModel::Continue,
            Action::Finished => ActionModel::Finished,
            Action::Print(v) => ActionModel::Print(v@),
            Action::Report(e) => ActionModel::Report(e@),
            Action::Compute(r) => ActionModel::Compute(r@),
            Action::Result(v) => ActionModel::Result(v@),
        }
    }
}

/// One unit of pending work.
#[derive(Debug)]
pub enum Task {
    Execute(Stmt),
    Evaluate(Expr),
    Discard,
    Print,
    Yield,
    Define(Token),
    Branch(Box<Stmt>, Option<Box<Stmt>>),
    Loop(Expr, Box<Stmt>),
    Leave,
    Unary(Token),
    Binary(Token),
    Logical(Token, Box<Expr>),
    Store(Token, Box<Expr>),
}

impl View for Task {
    type V = TaskModel;

    open spec fn view(&self) -> TaskModel {
        match self {
            Task::Execute(s) => TaskModel::Execute(s.model()),
            Task::Evaluate(e) => TaskModel::Evaluate(e.model()),
            Task::Discard => TaskModel::Discard,
            Task::Print => TaskModel::Print,
            Task::Yield => TaskModel::Yield,
            Task::Define(t) => TaskModel::Define(t@),
            Task::Branch(t, e) => TaskModel::Branch(
                (**t).model(),
                match e {
                    Some(s) => Some((**s).model()),
                    None => None,
                },
            ),
            Task::Loop(c, b) => TaskModel::Loop(c.model(), (**b).model()),
            Task::Leave => TaskModel::Leave,
            Task::Unary(t) => TaskModel::Unary(t@),
            Task::Binary(t) => TaskModel::Binary(t@),
            Task::Logical(t, e) => TaskModel::Logical(t@, (**e).model()),
            Task::Store(t, e) => TaskModel::Store(t@, (**e).model()),
        }
    }
}

impl Task {
    /// Whether the task belongs to the evaluation of an expression.
    fn is_within_expression(&self) -> (r: bool)
        ensures
            r == within_expression(self@),
    {
        match self {
            Task::Evaluate(_) => true,
            Task::Unary(_) => true,
            Task::Binary(_) => true,
            Task::Logical(_, _) => true,
            Task::Store(_, _) => true,
            _ => false,
        }
    }

    /// Whether the task ends a statement by consuming a value.
    fn is_end_of_statement(&self) -> (r: bool)
        ensures
            r == ends_statement(self@),
    {
        match self {
            Task::Discard => true,
            Task::Print => true,
            Task::Yield => true,
            Task::Define(_) => true,
            Task::Branch(_, _) => true,
            Task::Loop(_, _) => true,
            _ => false,
        }
    }
}

/// What applying an operator, or reading a literal, comes to.
#[derive(Debug)]
pub enum Settled {
    Value(Value),
    Ask(Request),
    Fail(ErrorKind, String),
}

impl View for Settled {
    type V = Outcome;

    open spec fn view(&self) -> Outcome {
        match self {
            Settled::Value(v) => Outcome::Value(v@),
            Settled::Ask(r) => Outcome::Ask(r@),
            Settled::Fail(k, m) => Outcome::Fail(*k, m@),
        }
    }
}

/// The models of the tasks, in order.
pub open spec fn task_models(tasks: Seq<Task>) -> Seq<TaskModel> {
    Seq::new(tasks.len(), |i: int| tasks[i]@)
}

/// The models of the values, in order.
pub open spec fn value_models(values: Seq<Value>) -> Seq<ValueModel> {
    Seq::new(values.len(), |i: int| values[i]@)
}

/// The text that `print` writes for a value other than a number.
pub open spec fn rendering(v: ValueModel) -> Option<Seq<char>> {
    match v {
        ValueModel::Nil => Some("nil"@),
        ValueModel::Boolean(b) => Some(
            if b {
                "true"@
            } else {
                "false"@
            },
        ),
        ValueModel::Text(s) => Some(s),
        ValueModel::Number(_) => None,
    }
}

/// `before`, `middle` and `after` joined.
fn quote(before: &str, middle: &str, after: &str) -> (r: String)
    ensures
        r@ == before@ + middle@ + after@,
{
    String::from_str(before).concat(middle).concat(after)
}

/// A tree-walking evaluator in small steps.
///
/// The interpreter holds the scopes, a stack of pending work and a stack of
/// operands. Each call of `step` runs one task. Arithmetic on doubles and the
/// writing of output are left to the driver, which `step` asks by its result.
pub struct Interpreter {
    pub environment: Environment,
    pub tasks: Vec<Task>,
    pub values: Vec<Value>,
    pub pending: Option<Request>,
}

impl View for Interpreter {
    type V = MachineModel;

    open spec fn view(&self) -> MachineModel {
        MachineModel {
            environment: self.environment@,
            tasks: task_models(self.tasks@),
            values: value_models(self.values@),
            pending: match self.pending {
                Some(r) => Some(r@),
                None => None,
            },
        }
    }
}

impl Interpreter {
    /// An interpreter with one empty scope and no work.
    pub fn new() -> (r: Self)
        ensures
            r@ == (MachineModel {
                environment: seq![Map::<Seq<char>, ValueModel>::empty()],
                tasks: Seq::empty(),
                values: Seq::empty(),
                pending: None,
            }),
    {
        let r = Interpreter {
            environment: Environment::new(),
            tasks: Vec::new(),
            values: Vec::new(),
            pending: None,
        };
        assert(task_models(r.tasks@) =~= Seq::empty());
        assert(value_models(r.values@) =~= Seq::empty());
        r
    }

    /// Puts the statements on top of the pending work, the first one next.
    /// `step` then runs them in order.
    pub fn interpret(&mut self, statements: Vec<Stmt>)
        ensures
            final(self)@ == load(old(self)@, models(statements@)),
    {
        self.schedule_all(statements);
    }

    /// Puts the expression on top of the pending work. Once `step` has
    /// evaluated it, `step` hands its value out as `Action::Result`.
    pub fn get_expression_value(&mut self, expression: Expr)
        ensures
            final(self)@ == submit(old(self)@, expression@),
    {
        self.push_task(Task::Yield);
        self.push_task(Task::Evaluate(expression));
    }

    /// Whether a value counts as true in a condition.
    pub fn is_truthy(value: &Value) -> (r: bool)
        ensures
            r == is_truthy(value@),
    {
        match value {
            Value::Nil => false,
            Value::Boolean(b) => *b,
            _ => true,
        }
    }

    /// The text that `print` writes for the value; `None` for a number,
    /// whose decimal form the driver renders.
    pub fn stringify(value: &Value) -> (r: Option<String>)
        ensures
            match r {
                Some(s) => rendering(value@) == Some(s@),
                None => rendering(value@) is None,
            },
    {
        match value {
            Value::Nil => Some(String::from_str("nil")),
            Value::Boolean(b) => if *b {
                Some(String::from_str("true"))
            } else {
                Some(String::from_str("false"))
            },
            Value::String(s) => Some(s.clone()),
            Value::Number(_) => None,
        }
    }

    /// One step. While a request waits for its answer, `Event::Number`
    /// answers it, and any other event has the request asked again.
    /// Otherwise the task on top of the pending work runs; with no work
    /// left the result is `Action::Finished`.
    pub fn step(&mut self, event: Event) -> (action: Action)
        ensures
            (final(self)@, action@) == step(old(self)@, event),
    {
        match &self.pending {
            Some(request) => {
                match event {
                    Event::Number(bits) => {
                        self.pending = None;
                        self.push_value(Value::Number(bits));
                        return Action::Continue;
                    },
                    Event::Resume => {
                        return Action::Compute(request.clone());
                    },
                }
            },
            None => {},
        }
        match self.tasks.pop() {
            None => Action::Finished,
            Some(task) => {
                assert(task_models(self.tasks@) =~= old(self)@.tasks.drop_last());
                self.run_task(task)
            },
        }
    }

    /// Runs one task that was taken off the stack.
    fn run_task(&mut self, task: Task) -> (action: Action)
        ensures
            (final(self)@, action@) == run(old(self)@, task@),
    {
        match task {
            Task::Execute(statement) => {
                self.execute_statement(statement);
                Action::Continue
            },
            Task::Evaluate(expression) => self.evaluate_expression(expression),
            Task::Discard => {
                let _ = self.pop_value();
                Action::Continue
            },
            Task::Print => {
                let v = self.pop_value();
                Action::Print(v)
            },
            Task::Yield => {
                let v = self.pop_value();
                Action::Result(v)
            },
            Task::Define(name) => {
                let v = self.pop_value();
                self.environment.define(name.get_lexeme(), v);
                Action::Continue
            },
            Task::Branch(then_branch, else_branch) => {
                let v = self.pop_value();
                if Self::is_truthy(&v) {
                    self.push_task(Task::Execute(*then_branch));
                } else {
                    match else_branch {
                        Some(s) => {
                            self.push_task(Task::Execute(*s));
                        },
                        None => {},
                    }
                }
                Action::Continue
            },
            Task::Loop(condition, body) => {
                let v = self.pop_value();
                if Self::is_truthy(&v) {
                    let again = condition.clone();
                    let run_body = (&*body).clone();
                    self.push_task(Task::Loop(condition, body));
                    self.push_task(Task::Evaluate(again));
                    self.push_task(Task::Execute(run_body));
                }
                Action::Continue
            },
            Task::Leave => {
                self.leave_block();
                Action::Continue
            },
            Task::Unary(op) => {
                let v = self.pop_value();
                let outcome = Self::get_unary(&op, v);
                self.settle(op, outcome)
            },
            Task::Binary(op) => {
                let right = self.pop_value();
                let left = self.pop_value();
                let outcome = Self::get_binary_expression_result_value(&op, left, right);
                self.settle(op, outcome)
            },
            Task::Logical(op, right) => {
                let left = self.pop_value();
                self.get_logical_value(op, left, *right)
            },
            Task::Store(name, value) => {
                let v = self.pop_value();
                self.store_value(name, v, *value)
            },
        }
    }

    /// Starts a statement.
    fn execute_statement(&mut self, statement: Stmt)
        ensures
            final(self)@ == execute(old(self)@, statement@),
    {
        let ghost model = statement@;
        match statement {
            Stmt::Expr(e) => {
                self.push_task(Task::Discard);
                self.push_task(Task::Evaluate(e));
            },
            Stmt::Print(e) => {
                self.push_task(Task::Print);
                self.push_task(Task::Evaluate(e));
            },
            Stmt::Var(name, initializer) => {
                match initializer {
                    Some(e) => {
                        self.push_task(Task::Define(name));
                        self.push_task(Task::Evaluate(e));
                    },
                    None => {
                        self.environment.define(name.get_lexeme(), Value::Nil);
                    },
                }
            },
            Stmt::Block(statements) => {
                assert(model == crate::stmt::StmtModel::Block(models(statements@))) by {
                    assert(model->Block_0 =~= models(statements@));
                }
                self.execute_block(statements);
            },
            Stmt::If(condition, then_branch, else_branch) => {
                self.push_task(Task::Branch(then_branch, else_branch));
                self.push_task(Task::Evaluate(condition));
            },
            Stmt::While(condition, body) => {
                let first = condition.clone();
                self.push_task(Task::Loop(condition, body));
                self.push_task(Task::Evaluate(first));
            },
        }
    }

    /// Enters a block: a new innermost scope, the block's statements, and
    /// after them the task that drops the scope again.
    fn execute_block(&mut self, block: Vec<Stmt>)
        ensures
            final(self)@ == (MachineModel {
                environment: seq![Map::<Seq<char>, ValueModel>::empty()] + old(self)@.environment,
                tasks: old(self)@.tasks.push(TaskModel::Leave) + schedule(models(block@)),
                ..old(self)@
            }),
    {
        let mut outer = Environment::new();
        core::mem::swap(&mut self.environment, &mut outer);
        self.environment.set_enclosing_environment(Some(Box::new(outer)));
        self.push_task(Task::Leave);
        self.schedule_all(block);
    }

    /// Leaves a block: the innermost scope goes, unless it is the only one.
    fn leave_block(&mut self)
        ensures
            final(self)@ == (MachineModel {
                environment: if old(self)@.environment.len() > 1 {
                    old(self)@.environment.drop_first()
                } else {
                    old(self)@.environment
                },
                ..old(self)@
            }),
    {
        proof {
            if self.environment.enclosing is Some {
                let e = self.environment.enclosing->0;
                lemma_frames_nonempty(&*e);
                assert(self.environment@.drop_first() =~= e@);
            }
        }
        match self.environment.enclosing.take() {
            Some(outer) => {
                self.environment = *outer;
            },
            None => {
                assert(self.environment@ =~= old(self).environment@);
            },
        }
    }

    /// Starts an expression.
    fn evaluate_expression(&mut self, expression: Expr) -> (action: Action)
        ensures
            (final(self)@, action@) == evaluate(old(self)@, expression@),
    {
        match expression {
            Expr::Literal(node) => {
                let outcome = Self::get_literal_value(&node.value);
                self.settle(node.value, outcome)
            },
            Expr::Grouping(node) => {
                self.push_task(Task::Evaluate(*node.expression));
                Action::Continue
            },
            Expr::Unary(node) => {
                self.push_task(Task::Unary(node.operator));
                self.push_task(Task::Evaluate(*node.expression));
                Action::Continue
            },
            Expr::Binary(node) => {
                self.push_task(Task::Binary(node.operator));
                self.push_task(Task::Evaluate(*node.right));
                self.push_task(Task::Evaluate(*node.left));
                Action::Continue
            },
            Expr::Logical(node) => {
                self.push_task(Task::Logical(node.operator, node.right));
                self.push_task(Task::Evaluate(*node.left));
                Action::Continue
            },
            Expr::Variable(node) => self.get_variable_value(node.value),
            Expr::Assign(node) => self.get_assign_value(node.value, node.expression),
        }
    }

    /// The value of a literal token, by its kind.
    fn get_literal_value(token: &Token) -> (r: Settled)
        ensures
            r@ == literal_outcome(token@),
    {
        match token.get_token_type() {
            TokenType::True => Settled::Value(Value::Boolean(true)),
            TokenType::False => Settled::Value(Value::Boolean(false)),
            TokenType::Nil => Settled::Value(Value::Nil),
            TokenType::String => match token.get_literal() {
                Some(LiteralPossibleValues::StringValue(s)) => Settled::Value(Value::String(s)),
                _ => Settled::Fail(
                    ErrorKind::MalformedExpression,
                    quote("[ERROR] '", token.get_lexeme().as_str(), "' is not a literal."),
                ),
            },
            TokenType::Number => match token.get_literal() {
                Some(LiteralPossibleValues::NumberValue(s)) => Settled::Ask(Request::Parse(s)),
                _ => Settled::Fail(
                    ErrorKind::MalformedExpression,
                    quote("[ERROR] '", token.get_lexeme().as_str(), "' is not a literal."),
                ),
            },
            _ => Settled::Fail(
                ErrorKind::MalformedExpression,
                quote("[ERROR] '", token.get_lexeme().as_str(), "' is not a literal."),
            ),
        }
    }

    /// Reads a variable: its value, or a failure where nothing binds it.
    fn get_variable_value(&mut self, name: Token) -> (action: Action)
        ensures
            (final(self)@, action@) == evaluate(
                old(self)@,
                crate::expr::ExprModel::Variable(name@),
            ),
    {
        match self.environment.get(name.clone()) {
            Ok(v) => {
                self.push_value(v);
                Action::Continue
            },
            Err(message) => self.handle_error_result(
                Error::new(ErrorKind::UndefinedVariable, name, message),
            ),
        }
    }

    /// Starts an assignment: the target must be bound; then the right-hand
    /// side is evaluated and stored.
    fn get_assign_value(&mut self, name: Token, value: Box<Expr>) -> (action: Action)
        ensures
            (final(self)@, action@) == evaluate(
                old(self)@,
                crate::expr::ExprModel::Assign(name@, Box::new(value.model())),
            ),
    {
        match self.environment.get(name.clone()) {
            Ok(_) => {
                let first = (&*value).clone();
                self.push_task(Task::Store(name, value));
                self.push_task(Task::Evaluate(first));
                Action::Continue
            },
            Err(message) => self.handle_error_result(
                Error::new(ErrorKind::UndefinedVariable, name, message),
            ),
        }
    }

    /// Stores the value under the name, then evaluates the right-hand side
    /// again for the result of the assignment.
    fn store_value(&mut self, name: Token, v: Value, value: Expr) -> (action: Action)
        ensures
            (final(self)@, action@) == store(old(self)@, name@, v@, value@),
    {
        match self.environment.assign(name.get_lexeme(), v) {
            Ok(_) => {
                self.push_task(Task::Evaluate(value));
                Action::Continue
            },
            Err(message) => self.handle_error_result(
                Error::new(ErrorKind::UndefinedVariable, name, message),
            ),
        }
    }

    /// `-` negates a number; `!` negates truthiness.
    fn get_unary(op: &Token, v: Value) -> (r: Settled)
        ensures
            r@ == unary_outcome(op@, v@),
    {
        match op.get_token_type() {
            TokenType::Minus => match v {
                Value::Number(n) => Settled::Value(Value::Number(negate(n))),
                _ => Settled::Fail(
                    ErrorKind::TypeError,
                    quote("[ERROR] Operand of '", op.get_lexeme().as_str(), "' must be a number."),
                ),
            },
            TokenType::Bang => Settled::Value(Value::Boolean(!Self::is_truthy(&v))),
            _ => Settled::Fail(
                ErrorKind::MalformedExpression,
                quote("[ERROR] '", op.get_lexeme().as_str(), "' is not an operator here."),
            ),
        }
    }

    /// After the left operand of `and` / `or`: the left value is the result
    /// where it decides, else the right operand is evaluated.
    fn get_logical_value(&mut self, op: Token, left: Value, right: Expr) -> (action: Action)
        ensures
            (final(self)@, action@) == short_circuit(old(self)@, op@, left@, right@),
    {
        match op.get_token_type() {
            TokenType::Or => {
                if Self::is_truthy(&left) {
                    self.push_value(left);
                } else {
                    self.push_task(Task::Evaluate(right));
                }
                Action::Continue
            },
            TokenType::And => {
                if !Self::is_truthy(&left) {
                    self.push_value(left);
                } else {
                    self.push_task(Task::Evaluate(right));
                }
                Action::Continue
            },
            _ => {
                let message = quote(
                    "[ERROR] '",
                    op.get_lexeme().as_str(),
                    "' is not an operator here.",
                );
                self.handle_error_result(Error::new(ErrorKind::MalformedExpression, op, message))
            },
        }
    }

    /// What a binary operator makes of its two operands.
    fn get_binary_expression_result_value(op: &Token, left: Value, right: Value) -> (r: Settled)
        ensures
            r@ == binary_outcome(op@, left@, right@),
    {
        let lexeme = op.get_lexeme();
        match op.get_token_type() {
            TokenType::Minus => Self::subtract(lexeme.as_str(), left, right),
            TokenType::Star => Self::multiply(lexeme.as_str(), left, right),
            TokenType::Slash => Self::divide(lexeme.as_str(), left, right),
            TokenType::Plus => Self::sum(lexeme.as_str(), left, right),
            TokenType::Greater => Self::greater(lexeme.as_str(), left, right),
            TokenType::GreaterEqual => Self::greater_equal(lexeme.as_str(), left, right),
            TokenType::Less => Self::less(lexeme.as_str(), left, right),
            TokenType::LessEqual => Self::less_equal(lexeme.as_str(), left, right),
            TokenType::EqualEqual => match Self::is_equal(&left, &right) {
                Some(b) => Settled::Value(Value::Boolean(b)),
                None => Settled::Fail(
                    ErrorKind::TypeError,
                    quote("[ERROR] Operands of '", lexeme.as_str(), "' cannot be compared."),
                ),
            },
            TokenType::BangEqual => match Self::is_equal(&left, &right) {
                Some(b) => Settled::Value(Value::Boolean(!b)),
                None => Settled::Fail(
                    ErrorKind::TypeError,
                    quote("[ERROR] Operands of '", lexeme.as_str(), "' cannot be compared."),
                ),
            },
            _ => Settled::Fail(
                ErrorKind::MalformedExpression,
                quote("[ERROR] '", lexeme.as_str(), "' is not an operator here."),
            ),
        }
    }

    /// `-` on two values.
    fn subtract(op: &str, left: Value, right: Value) -> (r: Settled)
        ensures
            r@ == subtract_outcome(op@, left@, right@),
    {
        match (left, right) {
            (Value::Number(a), Value::Number(b)) => Settled::Ask(Request::Subtract(a, b)),
            _ => Settled::Fail(
                ErrorKind::TypeError,
                quote("[ERROR] Operands of '", op, "' must be numbers."),
            ),
        }
    }

    /// `*` on two values.
    fn multiply(op: &str, left: Value, right: Value) -> (r: Settled)
        ensures
            r@ == multiply_outcome(op@, left@, right@),
    {
        match (left, right) {
            (Value::Number(a), Value::Number(b)) => Settled::Ask(Request::Multiply(a, b)),
            _ => Settled::Fail(
                ErrorKind::TypeError,
                quote("[ERROR] Operands of '", op, "' must be numbers."),
            ),
        }
    }

    /// `/` on two values.
    fn divide(op: &str, left: Value, right: Value) -> (r: Settled)
        ensures
            r@ == divide_outcome(op@, left@, right@),
    {
        match (left, right) {
            (Value::Number(a), Value::Number(b)) => Settled::Ask(Request::Divide(a, b)),
            _ => Settled::Fail(
                ErrorKind::TypeError,
                quote("[ERROR] Operands of '", op, "' must be numbers."),
            ),
        }
    }

    /// `+` on two values: numbers are added, strings joined.
    fn sum(op: &str, left: Value, right: Value) -> (r: Settled)
        ensures
            r@ == sum_outcome(op@, left@, right@),
    {
        match (left, right) {
            (Value::Number(a), Value::Number(b)) => Settled::Ask(Request::Add(a, b)),
            (Value::String(a), Value::String(b)) => Settled::Value(
                Value::String(a.concat(b.as_str())),
            ),
            _ => Settled::Fail(
                ErrorKind::TypeError,
                quote("[ERROR] Operands of '", op, "' must be two numbers or two strings."),
            ),
        }
    }

    /// `>` on two values.
    fn greater(op: &str, left: Value, right: Value) -> (r: Settled)
        ensures
            r@ == greater_outcome(op@, left@, right@),
    {
        match (left, right) {
            (Value::Number(a), Value::Number(b)) => Settled::Value(Value::Boolean(less_than(b, a))),
            _ => Settled::Fail(
                ErrorKind::TypeError,
                quote("[ERROR] Operands of '", op, "' must be numbers."),
            ),
        }
    }

    /// `>=` on two values.
    fn greater_equal(op: &str, left: Value, right: Value) -> (r: Settled)
        ensures
            r@ == greater_equal_outcome(op@, left@, right@),
    {
        match (left, right) {
            (Value::Number(a), Value::Number(b)) => Settled::Value(
                Value::Boolean(less_or_equal(b, a)),
            ),
            _ => Settled::Fail(
                ErrorKind::TypeError,
                quote("[ERROR] Operands of '", op, "' must be numbers."),
            ),
        }
    }

    /// `<` on two values.
    fn less(op: &str, left: Value, right: Value) -> (r: Settled)
        ensures
            r@ == less_outcome(op@, left@, right@),
    {
        match (left, right) {
            (Value::Number(a), Value::Number(b)) => Settled::Value(Value::Boolean(less_than(a, b))),
            _ => Settled::Fail(
                ErrorKind::TypeError,
                quote("[ERROR] Operands of '", op, "' must be numbers."),
            ),
        }
    }

    /// `<=` on two values.
    fn less_equal(op: &str, left: Value, right: Value) -> (r: Settled)
        ensures
            r@ == less_equal_outcome(op@, left@, right@),
    {
        match (left, right) {
            (Value::Number(a), Value::Number(b)) => Settled::Value(
                Value::Boolean(less_or_equal(a, b)),
            ),
            _ => Settled::Fail(
                ErrorKind::TypeError,
                quote("[ERROR] Operands of '", op, "' must be numbers."),
            ),
        }
    }

    /// Whether two values are equal; `None` where they cannot be compared.
    pub fn is_equal(left: &Value, right: &Value) -> (r: Option<bool>)
        ensures
            r == equality(left@, right@),
    {
        match (left, right) {
            (Value::Nil, Value::Nil) => Some(true),
            (Value::Nil, _) => Some(false),
            (_, Value::Nil) => Some(false),
            (Value::Boolean(a), Value::Boolean(b)) => Some(*a == *b),
            (Value::Number(a), Value::Number(b)) => Some(same_number(*a, *b)),
            _ => None,
        }
    }

    /// Acts on an outcome: pushes the value, asks for it, or fails at `token`.
    fn settle(&mut self, token: Token, outcome: Settled) -> (action: Action)
        ensures
            (final(self)@, action@) == settle(old(self)@, token@, outcome@),
    {
        match outcome {
            Settled::Value(v) => {
                self.push_value(v);
                Action::Continue
            },
            Settled::Ask(request) => {
                let asked = request.clone();
                self.pending = Some(request);
                Action::Compute(asked)
            },
            Settled::Fail(kind, message) => self.handle_error_result(
                Error::new(kind, token, message),
            ),
        }
    }

    /// A failure: the operands are dropped, the statement is abandoned, and
    /// the failure is handed out for reporting.
    fn handle_error_result(&mut self, e: Error) -> (action: Action)
        ensures
            (final(self)@, action@) == fail(old(self)@, e@),
    {
        self.values.clear();
        assert(value_models(self.values@) =~= Seq::empty());
        loop
            invariant_except_break
                unwind(task_models(self.tasks@)) == unwind(task_models(old(self).tasks@)),
            invariant
                self.environment == old(self).environment,
                self.pending == old(self).pending,
                self.values@.len() == 0,
            ensures
                self.environment == old(self).environment,
                self.pending == old(self).pending,
                self.values@.len() == 0,
                task_models(self.tasks@) == unwind(task_models(old(self).tasks@)),
            decreases self.tasks@.len(),
        {
            let n = self.tasks.len();
            if n == 0 {
                break ;
            }
            let ghost before = task_models(self.tasks@);
            assert(before.last() == self.tasks@[n - 1]@);
            if self.tasks[n - 1].is_within_expression() {
                let _ = self.tasks.pop();
                assert(task_models(self.tasks@) =~= before.drop_last());
            } else if self.tasks[n - 1].is_end_of_statement() {
                let _ = self.tasks.pop();
                assert(task_models(self.tasks@) =~= before.drop_last());
                break ;
            } else {
                break ;
            }
        }
        assert(value_models(self.values@) =~= Seq::empty());
        Action::Report(e)
    }

    /// Puts a task on top of the pending work.
    fn push_task(&mut self, task: Task)
        ensures
            final(self)@ == (MachineModel {
                tasks: old(self)@.tasks.push(task@),
                ..old(self)@
            }),
    {
        self.tasks.push(task);
        assert(task_models(self.tasks@) =~= task_models(old(self).tasks@).push(task@));
    }

    /// Puts a value on top of the operands.
    fn push_value(&mut self, value: Value)
        ensures
            final(self)@ == (MachineModel {
                values: old(self)@.values.push(value@),
                ..old(self)@
            }),
    {
        self.values.push(value);
        assert(value_models(self.values@) =~= value_models(old(self).values@).push(value@));
    }

    /// Takes the value on top of the operands; `nil` where there is none.
    fn pop_value(&mut self) -> (v: Value)
        ensures
            final(self)@ == (MachineModel { values: pop(old(self)@.values).0, ..old(self)@ }),
            v@ == pop(old(self)@.values).1,
    {
        match self.values.pop() {
            Some(v) => {
                assert(value_models(self.values@) =~= value_models(old(self).values@).drop_last());
                v
            },
            None => Value::Nil,
        }
    }

    /// Puts the statements on top of the pending work, the first one next.
    fn schedule_all(&mut self, statements: Vec<Stmt>)
        ensures
            final(self)@ == (MachineModel {
                tasks: old(self)@.tasks + schedule(models(statements@)),
                ..old(self)@
            }),
    {
        let ghost all = models(statements@);
        let mut rest = statements;
        while rest.len() > 0
            invariant
                self.environment == old(self).environment,
                self.values == old(self).values,
                self.pending == old(self).pending,
                rest@.len() <= all.len(),
                models(rest@) == all.take(rest@.len() as int),
                task_models(self.tasks@) == task_models(old(self).tasks@) + schedule(all).take(
                    all.len() - rest@.len(),
                ),
            decreases rest@.len(),
        {
            let ghost before = rest@;
            let ghost tasks_before = task_models(self.tasks@);
            match rest.pop() {
                Some(s) => {
                    assert(s@ == all[before.len() - 1]) by {
                        assert(models(before)[before.len() - 1] == s@);
                    }
                    self.tasks.push(Task::Execute(s));
                    assert(models(rest@) =~= all.take(rest@.len() as int)) by {
                        assert(forall|i: int|
                            0 <= i < rest@.len() ==> models(rest@)[i] == models(before)[i]);
                    }
                    assert(task_models(self.tasks@) =~= task_models(old(self).tasks@) + schedule(
                        all,
                    ).take(all.len() - rest@.len())) by {
                        assert(task_models(self.tasks@) =~= tasks_before.push(
                            TaskModel::Execute(s@),
                        ));
                    }
                },
                None => {},
            }
        }
        assert(schedule(all).take(all.len() as int) =~= schedule(all));
    }
}

} // verus!
