//! The interpreter: from the calls of a program to what it writes.

use vstd::prelude::*;
use vstd::string::StringExecFns;
use crate::ast::{Node, NodeKind, NodeKindView, NodeView, Number, NumberView, node_views, lemma_call_view};
use crate::tokens::{Location, LocationView};

verus! {

/// What an argument evaluates to.
#[derive(Debug)]
pub enum Value {
    Text(String),
    Number(Number),
}

/// What a `Value` holds, as mathematical values.
pub enum ValueView {
    Text(Seq<char>),
    Number(NumberView),
}

impl View for Value {
    type V = ValueView;

    open spec fn view(&self) -> ValueView {
        match self {
            Value::Text(s) => ValueView::Text(s@),
            Value::Number(n) => ValueView::Number(n@),
        }
    }
}

/// One piece of what a program writes: a text as it stands, a number in its
/// default form, or a line feed.
#[derive(Debug)]
pub enum Output {
    Text(String),
    Number(Number),
    Newline,
}

/// What an `Output` holds, as mathematical values.
pub enum OutputView {
    Text(Seq<char>),
    Number(NumberView),
    Newline,
}

impl View for Output {
    type V = OutputView;

    open spec fn view(&self) -> OutputView {
        match self {
            Output::Text(s) => OutputView::Text(s@),
            Output::Number(n) => OutputView::Number(n@),
            Output::Newline => OutputView::Newline,
        }
    }
}

/// Why a program could not be run.
#[derive(Debug)]
pub enum RuntimeErrorKind {
    /// A call of a name that is no built-in function; holds the name.
    UndefinedFunction(String),
    /// `add` called with another number of arguments than two; holds the number.
    AddArity(usize),
    /// `add` called with an argument that is no number.
    ExpectedNumber,
    /// A statement that is no call.
    NotACall,
}

/// What a `RuntimeErrorKind` holds, as mathematical values.
pub enum RuntimeErrorKindView {
    UndefinedFunction(Seq<char>),
    AddArity(nat),
    ExpectedNumber,
    NotACall,
}

impl View for RuntimeErrorKind {
    type V = RuntimeErrorKindView;

    open spec fn view(&self) -> RuntimeErrorKindView {
        match self {
            RuntimeErrorKind::UndefinedFunction(name) => RuntimeErrorKindView::UndefinedFunction(
                name@,
            ),
            RuntimeErrorKind::AddArity(n) => RuntimeErrorKindView::AddArity(*n as nat),
            RuntimeErrorKind::ExpectedNumber => RuntimeErrorKindView::ExpectedNumber,
            RuntimeErrorKind::NotACall => RuntimeErrorKindView::NotACall,
        }
    }
}

/// A runtime error and the place of the statement that was being run.
#[derive(Debug)]
pub struct RuntimeError {
    pub kind: RuntimeErrorKind,
    pub location: Location,
}

/// What a `RuntimeError` holds, as mathematical values.
pub struct RuntimeErrorView {
    pub kind: RuntimeErrorKindView,
    pub location: LocationView,
}

impl View for RuntimeError {
    type V = RuntimeErrorView;

    open spec fn view(&self) -> RuntimeErrorView {
        RuntimeErrorView { kind: self.kind@, location: self.location@ }
    }
}

/// The views of a sequence of values, in order.
pub open spec fn value_views(values: Seq<Value>) -> Seq<ValueView> {
    Seq::new(values.len(), |i: int| values[i]@)
}

/// The views of a sequence of outputs, in order.
pub open spec fn output_views(outputs: Seq<Output>) -> Seq<OutputView> {
    Seq::new(outputs.len(), |i: int| outputs[i]@)
}

/// What evaluating a node writes, and what it gives: a value, nothing, or an
/// error.
pub struct Outcome {
    pub output: Seq<OutputView>,
    pub result: Result<Option<ValueView>, RuntimeErrorKindView>,
}

/// What evaluating arguments writes, and the values they give, or the first
/// error.
pub struct ArgsOutcome {
    pub output: Seq<OutputView>,
    pub values: Result<Seq<ValueView>, RuntimeErrorKindView>,
}

/// What running statements writes, and the error that stopped it, if any.
pub struct ProgramOutcome {
    pub output: Seq<OutputView>,
    pub error: Option<RuntimeErrorView>,
}

/// The piece of output that writes `value`.
pub open spec fn shown(value: ValueView) -> OutputView {
    match value {
        ValueView::Text(s) => OutputView::Text(s),
        ValueView::Number(n) => OutputView::Number(n),
    }
}

/// What writing the first `n` of `values` gives: each in turn, with no
/// separator, and each followed by a line feed where `newline` holds.
pub open spec fn written(values: Seq<ValueView>, n: nat, newline: bool) -> Seq<OutputView>
    decreases n,
{
    if n == 0 || n > values.len() {
        Seq::empty()
    } else if newline {
        written(values, (n - 1) as nat, newline).push(shown(values[n - 1])).push(
            OutputView::Newline,
        )
    } else {
        written(values, (n - 1) as nat, newline).push(shown(values[n - 1]))
    }
}

/// What `add` gives on `values`: the sum of two numbers, and an error on any
/// other arguments.
pub open spec fn sum_of(values: Seq<ValueView>) -> Result<Option<ValueView>, RuntimeErrorKindView> {
    if values.len() != 2 {
        Err(RuntimeErrorKindView::AddArity(values.len()))
    } else {
        match (values[0], values[1]) {
            (ValueView::Number(a), ValueView::Number(b)) => Ok(
                Some(ValueView::Number(NumberView::Sum(Box::new(a), Box::new(b)))),
            ),
            _ => Err(RuntimeErrorKindView::ExpectedNumber),
        }
    }
}

/// What calling the function `name` on `values` writes and gives.
pub open spec fn apply_builtin(name: Seq<char>, values: Seq<ValueView>) -> Outcome {
    if name == "print"@ {
        Outcome { output: written(values, values.len(), false), result: Ok(None) }
    } else if name == "println"@ {
        Outcome { output: written(values, values.len(), true), result: Ok(None) }
    } else if name == "add"@ {
        Outcome { output: Seq::empty(), result: sum_of(values) }
    } else {
        Outcome {
            output: Seq::empty(),
            result: Err(RuntimeErrorKindView::UndefinedFunction(name)),
        }
    }
}

/// What evaluating `node` writes and gives. A literal gives itself. A call
/// first evaluates its arguments from left to right, then calls its function
/// on the values they gave.
pub open spec fn eval_node(node: NodeView) -> Outcome
    decreases node, 0nat,
{
    match node.kind {
        NodeKindView::Number(n) => Outcome {
            output: Seq::empty(),
            result: Ok(Some(ValueView::Number(n))),
        },
        NodeKindView::String(s) => Outcome {
            output: Seq::empty(),
            result: Ok(Some(ValueView::Text(s))),
        },
        NodeKindView::Func(name, args) => {
            let evaluated = eval_args(args, args.len());
            match evaluated.values {
                Err(e) => Outcome { output: evaluated.output, result: Err(e) },
                Ok(values) => {
                    let called = apply_builtin(name, values);
                    Outcome { output: evaluated.output + called.output, result: called.result }
                },
            }
        },
    }
}

/// What evaluating the first `n` of `args` writes, and the values they give:
/// an argument that gives nothing adds no value; the first error ends it.
pub open spec fn eval_args(args: Seq<NodeView>, n: nat) -> ArgsOutcome
    decreases args, n,
{
    if n == 0 || n > args.len() {
        ArgsOutcome { output: Seq::empty(), values: Ok(Seq::empty()) }
    } else {
        let front = eval_args(args, (n - 1) as nat);
        match front.values {
            Err(_) => front,
            Ok(values) => {
                let last = eval_node(args[n - 1]);
                ArgsOutcome {
                    output: front.output + last.output,
                    values: match last.result {
                        Err(e) => Err(e),
                        Ok(Some(v)) => Ok(values.push(v)),
                        Ok(None) => Ok(values),
                    },
                }
            },
        }
    }
}

/// What running the first `n` of `statements` writes, and the error that
/// stopped it, if any. A statement that is no call is an error; the value
/// that a statement gives is dropped; an error is placed at its statement.
pub open spec fn run_first(statements: Seq<NodeView>, n: nat) -> ProgramOutcome
    decreases n,
{
    if n == 0 || n > statements.len() {
        ProgramOutcome { output: Seq::empty(), error: None }
    } else {
        let before = run_first(statements, (n - 1) as nat);
        let statement = statements[n - 1];
        if before.error is Some {
            before
        } else if !(statement.kind is Func) {
            ProgramOutcome {
                output: before.output,
                error: Some(
                    RuntimeErrorView {
                        kind: RuntimeErrorKindView::NotACall,
                        location: statement.location,
                    },
                ),
            }
        } else {
            let ran = eval_node(statement);
            ProgramOutcome {
                output: before.output + ran.output,
                error: match ran.result {
                    Err(kind) => Some(RuntimeErrorView { kind, location: statement.location }),
                    Ok(_) => None,
                },
            }
        }
    }
}

/// What running all of `statements` writes, and the error that stopped it.
pub open spec fn run_program(statements: Seq<NodeView>) -> ProgramOutcome {
    run_first(statements, statements.len())
}

/// The view of what an evaluation returned.
pub open spec fn result_view(result: Result<Option<Value>, RuntimeErrorKind>) -> Result<
    Option<ValueView>,
    RuntimeErrorKindView,
> {
    match result {
        Ok(Some(v)) => Ok(Some(v@)),
        Ok(None) => Ok(None),
        Err(e) => Err(e@),
    }
}

/// Whether `name` is spelled `literal`.
fn is_named(name: &String, literal: &str) -> (b: bool)
    ensures
        b == (name@ == literal@),
{
    let other = String::from_str(literal);
    *name == other
}

/// A copy of `value`.
fn duplicate_value(value: &Value) -> (out: Value)
    ensures
        out@ == value@,
{
    match value {
        Value::Text(s) => Value::Text(s.clone()),
        Value::Number(n) => Value::Number(n.duplicate()),
    }
}

/// Writes `values` to `output`, each followed by a line feed where `newline`
/// holds.
fn write_values(values: &Vec<Value>, newline: bool, output: &mut Vec<Output>)
    ensures
        output_views(final(output)@) == output_views(old(output)@) + written(
            value_views(values@),
            values@.len(),
            newline,
        ),
{
    let ghost views = value_views(values@);
    let ghost before = output_views(output@);
    let mut i: usize = 0;
    assert(before + written(views, 0, newline) =~= before);
    while i < values.len()
        invariant
            i <= values@.len(),
            views == value_views(values@),
            output_views(output@) == before + written(views, i as nat, newline),
        decreases values@.len() - i,
    {
        let ghost so_far = output_views(output@);
        match &values[i] {
            Value::Text(s) => output.push(Output::Text(s.clone())),
            Value::Number(n) => output.push(Output::Number(n.duplicate())),
        }
        assert(output_views(output@) =~= so_far.push(shown(views[i as int])));
        if newline {
            output.push(Output::Newline);
            assert(output_views(output@) =~= so_far.push(shown(views[i as int])).push(
                OutputView::Newline,
            ));
        }
        i = i + 1;
        assert(output_views(output@) =~= before + written(views, i as nat, newline));
    }
}

/// The programs' interpreter over one sequence of statements.
#[derive(Debug)]
pub struct Interpreter {
    /// What the program has written so far.
    pub output: Vec<Output>,
    input_nodes: Vec<Node>,
    current_node_index: usize,
}

impl Interpreter {
    /// The statements that are run, as mathematical values.
    pub closed spec fn nodes(&self) -> Seq<NodeView> {
        node_views(self.input_nodes@)
    }

    /// The index of the next statement to run.
    pub closed spec fn position(&self) -> int {
        self.current_node_index as int
    }

    /// What has been written so far, as mathematical values.
    pub closed spec fn written_so_far(&self) -> Seq<OutputView> {
        output_views(self.output@)
    }

    /// The position lies within the statements or just behind them.
    pub closed spec fn wf(&self) -> bool {
        self.current_node_index <= self.input_nodes@.len()
    }

    /// An interpreter at the first of `input_nodes`, with nothing written yet.
    pub fn new(input_nodes: Vec<Node>) -> (interpreter: Interpreter)
        ensures
            interpreter.wf(),
            interpreter.nodes() == node_views(input_nodes@),
            interpreter.position() == 0,
            interpreter.written_so_far().len() == 0,
    {
        Interpreter { output: Vec::new(), input_nodes, current_node_index: 0 }
    }

    /// Gives up the interpreter for what the program has written.
    pub fn into_output(self) -> (output: Vec<Output>)
        ensures
            output_views(output@) == self.written_so_far(),
    {
        self.output
    }

    /// Runs the statements from the current one on, in order. What they
    /// write is added to `output`; the first error stops the run, and what
    /// was written before it stays. Either way the interpreter ends behind
    /// the last statement.
    pub fn interpret(&mut self) -> (result: Result<(), RuntimeError>)
        requires
            old(self).wf(),
        ensures
            final(self).wf(),
            final(self).nodes() == old(self).nodes(),
            ({
                let outcome = run_program(old(self).nodes().skip(old(self).position()));
                &&& final(self).written_so_far() == old(self).written_so_far() + outcome.output
                &&& final(self).position() == old(self).nodes().len()
                &&& match outcome.error {
                    None => result is Ok,
                    Some(e) => result is Err && result->Err_0@ == e,
                }
            }),
    {
        let ghost start = self.position();
        let ghost statements = self.nodes().skip(start);
        let ghost before = self.written_so_far();
        let len = self.input_nodes.len();
        assert(before + run_first(statements, 0).output =~= before);
        while self.current_node_index < len
            invariant
                self.wf(),
                len == self.input_nodes@.len(),
                self.nodes() == old(self).nodes(),
                start == old(self).position(),
                before == old(self).written_so_far(),
                statements == old(self).nodes().skip(start),
                start <= self.position() <= len,
                run_first(statements, (self.position() - start) as nat).error is None,
                self.written_so_far() == before + run_first(
                    statements,
                    (self.position() - start) as nat,
                ).output,
            decreases len - self.current_node_index,
        {
            let ghost done = (self.position() - start) as nat;
            let ghost so_far = run_first(statements, done);
            let ghost statement = statements[done as int];
            assert(statement == self.input_nodes@[self.position()]@);
            let is_call = match &self.input_nodes[self.current_node_index].kind {
                NodeKind::Func(_, _) => true,
                _ => false,
            };
            if !is_call {
                let location = self.input_nodes[self.current_node_index].location.duplicate();
                proof {
                    lemma_run_stops(statements, done + 1, statements.len());
                }
                self.current_node_index = len;
                return Err(RuntimeError { kind: RuntimeErrorKind::NotACall, location });
            }
            proof {
                lemma_call_view(self.input_nodes@[self.position()]);
            }
            let ghost ran = eval_node(statement);
            let outcome = Self::deal_specific_func(
                &self.input_nodes[self.current_node_index],
                &mut self.output,
            );
            assert(self.written_so_far() =~= before + (so_far.output + ran.output));
            match outcome {
                Err(kind) => {
                    let location = self.input_nodes[self.current_node_index].location.duplicate();
                    proof {
                        lemma_run_stops(statements, done + 1, statements.len());
                    }
                    self.current_node_index = len;
                    return Err(RuntimeError { kind, location });
                },
                Ok(_) => {
                    self.current_node_index = self.current_node_index + 1;
                },
            }
        }
        Ok(())
    }

    /// Evaluates `current_func`: writes to `output` what it writes, and
    /// returns what it gives.
    pub fn deal_specific_func(current_func: &Node, output: &mut Vec<Output>) -> (result: Result<
        Option<Value>,
        RuntimeErrorKind,
    >)
        ensures
            output_views(final(output)@) == output_views(old(output)@) + eval_node(
                current_func@,
            ).output,
            result_view(result) == eval_node(current_func@).result,
        decreases current_func,
    {
        let ghost before = output_views(output@);
        match &current_func.kind {
            NodeKind::Number(n) => {
                assert(before + Seq::<OutputView>::empty() =~= before);
                Ok(Some(Value::Number(n.duplicate())))
            },
            NodeKind::String(s) => {
                assert(before + Seq::<OutputView>::empty() =~= before);
                Ok(Some(Value::Text(s.clone())))
            },
            NodeKind::Func(name, args) => {
                proof {
                    lemma_call_view(*current_func);
                }
                let ghost arg_views = node_views(args@);
                let mut values: Vec<Value> = Vec::new();
                let mut i: usize = 0;
                assert(before + eval_args(arg_views, 0).output =~= before);
                assert(value_views(values@) =~= Seq::<ValueView>::empty());
                while i < args.len()
                    invariant
                        i <= args@.len(),
                        arg_views == node_views(args@),
                        current_func.kind == NodeKind::Func(*name, *args),
                        current_func@.kind == NodeKindView::Func(name@, arg_views),
                        before == output_views(old(output)@),
                        eval_args(arg_views, i as nat).values == Ok::<
                            Seq<ValueView>,
                            RuntimeErrorKindView,
                        >(value_views(values@)),
                        output_views(output@) == before + eval_args(arg_views, i as nat).output,
                    decreases args@.len() - i,
                {
                    let ghost front = eval_args(arg_views, i as nat);
                    let ghost last = eval_node(arg_views[i as int]);
                    let ghost earlier = value_views(values@);
                    assert(arg_views[i as int] == args@[i as int]@);
                    let given = Self::deal_specific_func(&args[i], output);
                    assert(output_views(output@) =~= before + (front.output + last.output));
                    match given {
                        Err(e) => {
                            proof {
                                lemma_args_stop(arg_views, (i + 1) as nat, arg_views.len());
                            }
                            return Err(e);
                        },
                        Ok(Some(v)) => {
                            values.push(v);
                            assert(value_views(values@) =~= earlier.push(v@));
                        },
                        Ok(None) => {},
                    }
                    i = i + 1;
                }
                let ghost evaluated = eval_args(arg_views, arg_views.len());
                let result = Self::call_builtin(name, &values, output);
                assert(output_views(output@) =~= before + (evaluated.output + apply_builtin(
                    name@,
                    value_views(values@),
                ).output));
                result
            },
        }
    }

    /// Calls the function `name` on `values`: writes to `output` what the
    /// call writes, and returns what it gives.
    pub fn call_builtin(name: &String, values: &Vec<Value>, output: &mut Vec<Output>) -> (result:
        Result<Option<Value>, RuntimeErrorKind>)
        ensures
            output_views(final(output)@) == output_views(old(output)@) + apply_builtin(
                name@,
                value_views(values@),
            ).output,
            result_view(result) == apply_builtin(name@, value_views(values@)).result,
    {
        let ghost before = output_views(output@);
        assert(before + Seq::<OutputView>::empty() =~= before);
        assert(value_views(values@).len() == values@.len());
        if is_named(name, "print") {
            write_values(values, false, output);
            Ok(None)
        } else if is_named(name, "println") {
            write_values(values, true, output);
            Ok(None)
        } else if is_named(name, "add") {
            if values.len() != 2 {
                return Err(RuntimeErrorKind::AddArity(values.len()));
            }
            assert(value_views(values@)[0] == values@[0]@);
            assert(value_views(values@)[1] == values@[1]@);
            match (&values[0], &values[1]) {
                (Value::Number(a), Value::Number(b)) => Ok(
                    Some(
                        Value::Number(
                            Number::Sum(Box::new(a.duplicate()), Box::new(b.duplicate())),
                        ),
                    ),
                ),
                _ => Err(RuntimeErrorKind::ExpectedNumber),
            }
        } else {
            Err(RuntimeErrorKind::UndefinedFunction(name.clone()))
        }
    }
}

/// Writing values gives one piece for each, in order, with nothing between
/// them; with line feeds, each piece is followed by one line feed.
pub proof fn lemma_written_pieces(values: Seq<ValueView>, n: nat)
    requires
        n <= values.len(),
    ensures
        written(values, n, false) == Seq::new(n, |i: int| shown(values[i])),
        written(values, n, true) == Seq::new(
            2 * n,
            |i: int|
                if i % 2 == 0 {
                    shown(values[i / 2])
                } else {
                    OutputView::Newline
                },
        ),
    decreases n,
{
    if n > 0 {
        lemma_written_pieces(values, (n - 1) as nat);
    }
    assert(written(values, n, false) =~= Seq::new(n, |i: int| shown(values[i])));
    assert(written(values, n, true) =~= Seq::new(
        2 * n,
        |i: int|
            if i % 2 == 0 {
                shown(values[i / 2])
            } else {
                OutputView::Newline
            },
    ));
}

/// The names of the three built-in functions differ from one another.
pub proof fn lemma_names_differ()
    ensures
        "add"@ != "print"@,
        "add"@ != "println"@,
        "print"@ != "println"@,
{
    reveal_strlit("add");
    reveal_strlit("print");
    reveal_strlit("println");
    assert("add"@.len() == 3);
    assert("print"@.len() == 5);
    assert("println"@.len() == 7);
}

/// `add` called on another number of arguments than two writes nothing and
/// is an error that holds that number.
pub proof fn lemma_add_needs_two(values: Seq<ValueView>)
    requires
        values.len() != 2,
    ensures
        apply_builtin("add"@, values) == (Outcome {
            output: Seq::empty(),
            result: Err(RuntimeErrorKindView::AddArity(values.len())),
        }),
{
    lemma_names_differ();
}

/// `add` called on two arguments of which one is a text is an error: a text
/// is never taken for a number.
pub proof fn lemma_add_refuses_text(values: Seq<ValueView>)
    requires
        values.len() == 2,
        values[0] is Text || values[1] is Text,
    ensures
        apply_builtin("add"@, values) == (Outcome {
            output: Seq::empty(),
            result: Err(RuntimeErrorKindView::ExpectedNumber),
        }),
{
    lemma_names_differ();
}

/// `add` called on two numbers writes nothing and gives their sum.
pub proof fn lemma_add_sums(a: NumberView, b: NumberView)
    ensures
        apply_builtin("add"@, seq![ValueView::Number(a), ValueView::Number(b)]) == (Outcome {
            output: Seq::empty(),
            result: Ok(Some(ValueView::Number(NumberView::Sum(Box::new(a), Box::new(b))))),
        }),
{
    lemma_names_differ();
}

/// `add` takes its two arguments in either order alike: on the same two
/// values it gives a sum both ways, of the same two numbers, or the same
/// error both ways.
pub proof fn lemma_add_either_order(a: ValueView, b: ValueView)
    ensures
        apply_builtin("add"@, seq![a, b]).result is Ok <==> apply_builtin(
            "add"@,
            seq![b, a],
        ).result is Ok,
        apply_builtin("add"@, seq![a, b]).result matches Err(e) ==> apply_builtin(
            "add"@,
            seq![b, a],
        ).result == Err::<Option<ValueView>, RuntimeErrorKindView>(e),
        apply_builtin("add"@, seq![a, b]).result is Ok ==> a is Number && b is Number
            && apply_builtin("add"@, seq![a, b]).result == Ok::<
            Option<ValueView>,
            RuntimeErrorKindView,
        >(Some(ValueView::Number(NumberView::Sum(Box::new(a->Number_0), Box::new(b->Number_0)))))
            && apply_builtin("add"@, seq![b, a]).result == Ok::<
            Option<ValueView>,
            RuntimeErrorKindView,
        >(Some(ValueView::Number(NumberView::Sum(Box::new(b->Number_0), Box::new(a->Number_0))))),
{
    lemma_names_differ();
}

/// A call of a name other than `print`, `println` and `add` writes nothing
/// and is an error that holds the name.
pub proof fn lemma_unknown_function(name: Seq<char>, values: Seq<ValueView>)
    requires
        name != "print"@,
        name != "println"@,
        name != "add"@,
    ensures
        apply_builtin(name, values) == (Outcome {
            output: Seq::empty(),
            result: Err(RuntimeErrorKindView::UndefinedFunction(name)),
        }),
{
}

/// Evaluating a node never fails for want of a call: that error is for
/// statements alone.
pub proof fn lemma_eval_errors(node: NodeView)
    ensures
        eval_node(node).result matches Err(e) ==> !(e is NotACall),
    decreases node, 0nat,
{
    match node.kind {
        NodeKindView::Func(name, args) => {
            lemma_eval_args_errors(args, args.len());
        },
        _ => {},
    }
}

/// Evaluating arguments never fails for want of a call.
pub proof fn lemma_eval_args_errors(args: Seq<NodeView>, n: nat)
    ensures
        eval_args(args, n).values matches Err(e) ==> !(e is NotACall),
    decreases args, n,
{
    if 0 < n <= args.len() {
        lemma_eval_args_errors(args, (n - 1) as nat);
        lemma_eval_errors(args[n - 1]);
    }
}

/// Running statements that are all calls never fails for want of a call.
pub proof fn lemma_calls_run(statements: Seq<NodeView>, n: nat)
    requires
        n <= statements.len(),
        forall|k: int| 0 <= k < statements.len() ==> (#[trigger] statements[k]).kind is Func,
    ensures
        run_first(statements, n).error matches Some(e) ==> !(e.kind is NotACall),
    decreases n,
{
    if n > 0 {
        lemma_calls_run(statements, (n - 1) as nat);
        lemma_eval_errors(statements[n - 1]);
    }
}

/// Once an argument has failed, evaluating more arguments changes nothing.
pub proof fn lemma_args_stop(args: Seq<NodeView>, n: nat, m: nat)
    requires
        n <= m <= args.len(),
        eval_args(args, n).values is Err,
    ensures
        eval_args(args, m) == eval_args(args, n),
    decreases m,
{
    if n < m {
        lemma_args_stop(args, n, (m - 1) as nat);
    }
}

/// Once a statement has failed, running more statements changes nothing.
pub proof fn lemma_run_stops(statements: Seq<NodeView>, n: nat, m: nat)
    requires
        n <= m <= statements.len(),
        run_first(statements, n).error is Some,
    ensures
        run_first(statements, m) == run_first(statements, n),
    decreases m,
{
    if n < m {
        lemma_run_stops(statements, n, (m - 1) as nat);
    }
}

} // verus!
