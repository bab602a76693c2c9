//! The evaluation context and the evaluator.
//!
//! The calculator computes over an abstract value domain: a value is an
//! opaque 64-bit word chosen by the embedding (for instance the bit pattern
//! of a machine float). The evaluator itself decides everything that does not
//! require arithmetic — traversal order, variable lookup, the division-by-zero
//! check, naming and storing results — and asks the embedding for the rest
//! through an answer list:
//!
//! * evaluation walks the tree left operand first, right operand second;
//! * each literal and each operator application consumes, in that order, one
//!   word from `answers`;
//! * when `answers` runs out, evaluation stops and reports what is needed
//!   next — the word of a literal ([`EvalStep::NeedNum`]) or of an operator
//!   applied to two already-computed words ([`EvalStep::NeedOp`]); the caller
//!   appends the word to `answers` and calls again;
//! * a division whose right operand is a zero word fails before any answer
//!   for it is consumed, and an undefined variable fails at once.
//!
//! Failures never touch the context: variables and the anonymous counter
//! change only when a command evaluates completely, and then exactly as
//! [`Context::calc_command`] states.

use vstd::hash_map::StringHashMap;
use vstd::prelude::*;
use vstd::string::StringExecFns;

use crate::calc::syntax::{BinOp, Command, CommandV, EvalError, EvalErrorV, Expression, ExprV};

verus! {

/// The two 64-bit words that encode a zero in the value domain: the IEEE 754
/// bit patterns of `+0.0` and `-0.0`. A division fails exactly when its right
/// operand evaluates to one of them.
pub open spec fn is_zero_word(w: u64) -> bool {
    w == 0u64 || w == 0x8000_0000_0000_0000u64
}

/// One step of evaluating an expression.
#[derive(Debug, PartialEq, Eq)]
pub enum EvalStep {
    /// The expression evaluated to this word.
    Done(u64),
    /// The next answer must be the word of this literal.
    NeedNum(u64),
    /// The next answer must be this operator applied to these two words.
    NeedOp(BinOp, u64, u64),
    /// Evaluation failed; more answers cannot help.
    Fail(EvalError),
}

/// The mathematical view of an [`EvalStep`].
pub enum EvalStepV {
    /// The expression evaluated to this word.
    Done(u64),
    /// The next answer must be the word of this literal.
    NeedNum(u64),
    /// The next answer must be this operator applied to these two words.
    NeedOp(BinOp, u64, u64),
    /// Evaluation failed.
    Fail(EvalErrorV),
}

impl View for EvalStep {
    type V = EvalStepV;

    open spec fn view(&self) -> EvalStepV {
        match self {
            EvalStep::Done(w) => EvalStepV::Done(*w),
            EvalStep::NeedNum(n) => EvalStepV::NeedNum(*n),
            EvalStep::NeedOp(op, a, b) => EvalStepV::NeedOp(*op, *a, *b),
            EvalStep::Fail(e) => EvalStepV::Fail(e@),
        }
    }
}

/// Evaluates `e` under `vars`, consuming words of `answers` from position
/// `pos` on. Yields the step reached and the next unconsumed position.
/// Operands are evaluated left before right; the first failure in that order
/// wins; a division by a zero word fails without consuming an answer for the
/// division.
pub open spec fn eval_expr(e: ExprV, vars: Map<Seq<char>, u64>, answers: Seq<u64>, pos: int) -> (
    EvalStepV,
    int,
)
    decreases e,
{
    match e {
        ExprV::Num(n) => if pos < answers.len() {
            (EvalStepV::Done(answers[pos]), pos + 1)
        } else {
            (EvalStepV::NeedNum(n), pos)
        },
        ExprV::Variable(x) => if vars.contains_key(x) {
            (EvalStepV::Done(vars[x]), pos)
        } else {
            (EvalStepV::Fail(EvalErrorV::UndefinedVariable(x)), pos)
        },
        ExprV::BinOp { op, lhs, rhs } => {
            let (sl, pl) = eval_expr(*lhs, vars, answers, pos);
            match sl {
                EvalStepV::Done(a) => {
                    let (sr, pr) = eval_expr(*rhs, vars, answers, pl);
                    match sr {
                        EvalStepV::Done(b) => if op is Divide && is_zero_word(b) {
                            (EvalStepV::Fail(EvalErrorV::DivisionByZero), pr)
                        } else if pr < answers.len() {
                            (EvalStepV::Done(answers[pr]), pr + 1)
                        } else {
                            (EvalStepV::NeedOp(op, a, b), pr)
                        },
                        _ => (sr, pr),
                    }
                },
                _ => (sl, pl),
            }
        },
    }
}

/// One step of evaluating a whole command.
#[derive(Debug, PartialEq, Eq)]
pub enum CommandStep {
    /// The command evaluated to this word, stored under this name.
    Done(String, u64),
    /// The next answer must be the word of this literal.
    NeedNum(u64),
    /// The next answer must be this operator applied to these two words.
    NeedOp(BinOp, u64, u64),
    /// Evaluation failed; more answers cannot help.
    Fail(EvalError),
}

/// The mathematical view of a [`CommandStep`].
pub enum CommandStepV {
    /// The command evaluated to this word, stored under this name.
    Done(Seq<char>, u64),
    /// The next answer must be the word of this literal.
    NeedNum(u64),
    /// The next answer must be this operator applied to these two words.
    NeedOp(BinOp, u64, u64),
    /// Evaluation failed.
    Fail(EvalErrorV),
}

impl View for CommandStep {
    type V = CommandStepV;

    open spec fn view(&self) -> CommandStepV {
        match self {
            CommandStep::Done(key, w) => CommandStepV::Done(key@, *w),
            CommandStep::NeedNum(n) => CommandStepV::NeedNum(*n),
            CommandStep::NeedOp(op, a, b) => CommandStepV::NeedOp(*op, *a, *b),
            CommandStep::Fail(e) => CommandStepV::Fail(e@),
        }
    }
}

/// What [`Context::calc_command`] does, relating its result `r` and the
/// context after the call (`post`) to the command, the context before the
/// call (`pre`), and the answer words.
///
/// The result mirrors the step that [`eval_expr`] reaches on the command's
/// expression under `pre.variables`. On `Done`, the word is stored under the
/// command's key, the counter advances exactly when the command is anonymous,
/// and the returned name is that key. On every other step the context is
/// unchanged.
pub open spec fn calc_command_post(
    r: CommandStepV,
    cmd: CommandV,
    pre: ContextV,
    post: ContextV,
    answers: Seq<u64>,
) -> bool {
    let step = eval_expr(cmd.expression, pre.variables, answers, 0).0;
    match r {
        CommandStepV::Done(key, w) => {
            &&& step == EvalStepV::Done(w)
            &&& key == command_key(cmd.variable, pre.counter)
            &&& post.variables == pre.variables.insert(key, w)
            &&& post.counter == pre.counter + (if cmd.variable is None {
                1int
            } else {
                0int
            })
        },
        CommandStepV::NeedNum(n) => step == EvalStepV::NeedNum(n) && post == pre,
        CommandStepV::NeedOp(op, a, b) => step == EvalStepV::NeedOp(op, a, b) && post == pre,
        CommandStepV::Fail(e) => step == EvalStepV::Fail(e) && post == pre,
    }
}

/// Evaluation consumes the answer list as a prefix, deterministically: it
/// asks for a new word only once the list is exhausted, and extending the
/// list does not change any step that already completed or failed. A caller
/// may therefore answer one request at a time, re-evaluating from the start,
/// and every earlier step is reproduced exactly.
pub proof fn lemma_eval_prefix(
    e: ExprV,
    vars: Map<Seq<char>, u64>,
    a1: Seq<u64>,
    a2: Seq<u64>,
    pos: int,
)
    requires
        0 <= pos <= a1.len() <= a2.len(),
        a1 == a2.take(a1.len() as int),
    ensures
        ({
            let (s, p) = eval_expr(e, vars, a1, pos);
            &&& pos <= p <= a1.len()
            &&& ((s is NeedNum || s is NeedOp) ==> p == a1.len())
            &&& ((s is Done || s is Fail) ==> eval_expr(e, vars, a2, pos) == (s, p))
        }),
    decreases e,
{
    match e {
        ExprV::Num(n) => {
            if pos < a1.len() {
                assert(a2[pos] == a1[pos]);
            }
        },
        ExprV::Variable(x) => {},
        ExprV::BinOp { op, lhs, rhs } => {
            lemma_eval_prefix(*lhs, vars, a1, a2, pos);
            let (sl, pl) = eval_expr(*lhs, vars, a1, pos);
            if sl is Done {
                lemma_eval_prefix(*rhs, vars, a1, a2, pl);
                let (sr, pr) = eval_expr(*rhs, vars, a1, pl);
                if sr is Done && pr < a1.len() {
                    assert(a2[pr] == a1[pr]);
                }
            }
        },
    }
}

/// A failed command leaves the context exactly as it was: no variable is
/// stored and the anonymous counter does not advance, so the next anonymous
/// command takes the name the failed one would have taken.
pub proof fn lemma_failed_command_preserves_context(
    r: CommandStepV,
    cmd: CommandV,
    pre: ContextV,
    post: ContextV,
    answers: Seq<u64>,
)
    requires
        calc_command_post(r, cmd, pre, post, answers),
        r is Fail,
    ensures
        post == pre,
{
}

/// A command that still waits for an answer word has not touched the context
/// either.
pub proof fn lemma_pending_command_preserves_context(
    r: CommandStepV,
    cmd: CommandV,
    pre: ContextV,
    post: ContextV,
    answers: Seq<u64>,
)
    requires
        calc_command_post(r, cmd, pre, post, answers),
        r is NeedNum || r is NeedOp,
    ensures
        post == pre,
{
}

proof fn lemma_dec_digits_len(n: nat)
    ensures
        dec_digits(n).len() >= 1,
    decreases n,
{
    if n >= 10 {
        lemma_dec_digits_len(n / 10);
    }
}

proof fn lemma_dec_digits_inj(a: nat, b: nat)
    requires
        dec_digits(a) == dec_digits(b),
    ensures
        a == b,
    decreases a,
{
    lemma_dec_digits_len(a);
    lemma_dec_digits_len(b);
    if a < 10 && b < 10 {
        assert(dec_digits(a)[0] == digit_char(a));
        assert(dec_digits(b)[0] == digit_char(b));
    } else if a < 10 {
        lemma_dec_digits_len(b / 10);
        assert(dec_digits(b).len() >= 2);
    } else if b < 10 {
        lemma_dec_digits_len(a / 10);
        assert(dec_digits(a).len() >= 2);
    } else {
        let da = dec_digits(a);
        let db = dec_digits(b);
        assert(da.last() == digit_char(a % 10));
        assert(db.last() == digit_char(b % 10));
        assert(a % 10 == b % 10);
        assert(dec_digits(a / 10) =~= da.drop_last());
        assert(dec_digits(b / 10) =~= db.drop_last());
        lemma_dec_digits_inj(a / 10, b / 10);
    }
}

/// Anonymous names are never reused: distinct counter values give distinct
/// names, so `$0`, `$1`, ... name distinct slots.
pub proof fn lemma_anon_names_distinct(a: nat, b: nat)
    requires
        a != b,
    ensures
        anon_name(a) != anon_name(b),
{
    if anon_name(a) == anon_name(b) {
        lemma_dec_digits_len(a);
        lemma_dec_digits_len(b);
        assert(dec_digits(a) =~= anon_name(a).subrange(1, anon_name(a).len() as int));
        assert(dec_digits(b) =~= anon_name(b).subrange(1, anon_name(b).len() as int));
        lemma_dec_digits_inj(a, b);
    }
}

/// The calculator's context: the variables assigned so far and the counter
/// for anonymous names.
pub struct Context {
    anonymous_counter: usize,
    variables: StringHashMap<u64>,
}

/// The mathematical view of a [`Context`].
pub struct ContextV {
    /// How many anonymous results have been stored.
    pub counter: nat,
    /// The store, from variable name to word.
    pub variables: Map<Seq<char>, u64>,
}

impl View for Context {
    type V = ContextV;

    closed spec fn view(&self) -> ContextV {
        ContextV { counter: self.anonymous_counter as nat, variables: self.variables@ }
    }
}

/// The decimal digits of `n`, most significant first.
pub open spec fn dec_digits(n: nat) -> Seq<char>
    decreases n,
{
    if n < 10 {
        seq![digit_char(n)]
    } else {
        dec_digits(n / 10) + seq![digit_char(n % 10)]
    }
}

/// The character of the decimal digit `d`.
pub open spec fn digit_char(d: nat) -> char {
    if d == 0 {
        '0'
    } else if d == 1 {
        '1'
    } else if d == 2 {
        '2'
    } else if d == 3 {
        '3'
    } else if d == 4 {
        '4'
    } else if d == 5 {
        '5'
    } else if d == 6 {
        '6'
    } else if d == 7 {
        '7'
    } else if d == 8 {
        '8'
    } else {
        '9'
    }
}

/// The anonymous name for counter value `n`: `$` followed by `n` in decimal.
pub open spec fn anon_name(n: nat) -> Seq<char> {
    seq!['$'] + dec_digits(n)
}

/// The name under which a command stores its result: the explicit name if
/// the command has one, else the anonymous name of the current counter.
pub open spec fn command_key(variable: Option<Seq<char>>, counter: nat) -> Seq<char> {
    match variable {
        Option::Some(x) => x,
        Option::None => anon_name(counter),
    }
}

fn digit_str(d: u64) -> (s: &'static str)
    requires
        d < 10,
    ensures
        s@ == seq![digit_char(d as nat)],
{
    proof {
        reveal_strlit("0");
        reveal_strlit("1");
        reveal_strlit("2");
        reveal_strlit("3");
        reveal_strlit("4");
        reveal_strlit("5");
        reveal_strlit("6");
        reveal_strlit("7");
        reveal_strlit("8");
        reveal_strlit("9");
    }
    if d == 0 {
        "0"
    } else if d == 1 {
        "1"
    } else if d == 2 {
        "2"
    } else if d == 3 {
        "3"
    } else if d == 4 {
        "4"
    } else if d == 5 {
        "5"
    } else if d == 6 {
        "6"
    } else if d == 7 {
        "7"
    } else if d == 8 {
        "8"
    } else {
        "9"
    }
}

/// Appends the decimal digits of `n` to `s`.
fn push_dec(s: &mut String, n: u64)
    ensures
        final(s)@ == old(s)@ + dec_digits(n as nat),
    decreases n,
{
    if n >= 10 {
        push_dec(s, n / 10);
    }
    s.append(digit_str(n % 10));
}

impl Default for Context {
    /// An empty context: no variables, counter at zero.
    fn default() -> (c: Self)
        ensures
            c@.counter == 0,
            c@.variables =~= Map::<Seq<char>, u64>::empty(),
    {
        Context { anonymous_counter: 0, variables: StringHashMap::new() }
    }
}

impl Context {
    /// Creates an empty context: no variables, counter at zero.
    pub fn new() -> (c: Self)
        ensures
            c@.counter == 0,
            c@.variables =~= Map::<Seq<char>, u64>::empty(),
    {
        Context { anonymous_counter: 0, variables: StringHashMap::new() }
    }

    /// Returns the current anonymous variable counter.
    pub fn current_counter(&self) -> (n: usize)
        ensures
            n == self@.counter,
    {
        self.anonymous_counter
    }

    /// The word stored under the given variable name, if any.
    pub fn get_variable(&self, name: &String) -> (r: Option<u64>)
        ensures
            match r {
                Option::Some(w) => self@.variables.contains_key(name@) && w
                    == self@.variables[name@],
                Option::None => !self@.variables.contains_key(name@),
            },
    {
        match self.variables.get(name.as_str()) {
            Option::Some(w) => Option::Some(*w),
            Option::None => Option::None,
        }
    }

    /// Evaluates the expression under this context's variables with the given
    /// answer words, from the start of the answer list. The context is not
    /// touched. See the module documentation for the protocol.
    pub fn calc_expression(&self, expression: &Expression, answers: &Vec<u64>) -> (r: EvalStep)
        ensures
            r@ == eval_expr(expression@, self@.variables, answers@, 0).0,
    {
        let (step, _pos) = self.eval_rec(expression, answers, 0);
        step
    }

    /// Evaluates a whole command with the given answer words.
    ///
    /// When the expression evaluates completely, its word is stored under the
    /// command's key — the explicit name, or else the anonymous name
    /// `$<counter>` — and the counter advances exactly when the name was
    /// anonymous. On a failure, or while answers are still missing, the
    /// context is left unchanged; in particular a failed anonymous command
    /// does not advance the counter. [`calc_command_post`] states this
    /// exactly.
    pub fn calc_command(&mut self, command: &Command, answers: &Vec<u64>) -> (r: CommandStep)
        requires
            command@.variable is None ==> old(self)@.counter < usize::MAX,
        ensures
            calc_command_post(r@, command@, old(self)@, final(self)@, answers@),
    {
        let (step, _pos) = self.eval_rec(&command.expression, answers, 0);
        match step {
            EvalStep::Done(w) => {
                let key: String = match &command.variable {
                    Option::Some(name) => name.clone(),
                    Option::None => {
                        let mut k = String::from_str("$");
                        proof {
                            reveal_strlit("$");
                            assert(k@ =~= seq!['$']);
                        }
                        push_dec(&mut k, self.anonymous_counter as u64);
                        self.anonymous_counter = self.anonymous_counter + 1;
                        k
                    },
                };
                let key_out = key.clone();
                self.variables.insert(key, w);
                CommandStep::Done(key_out, w)
            },
            EvalStep::NeedNum(n) => CommandStep::NeedNum(n),
            EvalStep::NeedOp(op, a, b) => CommandStep::NeedOp(op, a, b),
            EvalStep::Fail(e) => CommandStep::Fail(e),
        }
    }

    /// One mirror step of [`eval_expr`].
    fn eval_rec(&self, expression: &Expression, answers: &Vec<u64>, pos: usize) -> (r: (
        EvalStep,
        usize,
    ))
        requires
            pos <= answers@.len(),
        ensures
            (r.0@, r.1 as int) == eval_expr(expression@, self@.variables, answers@, pos as int),
            pos <= r.1 <= answers@.len(),
        decreases expression,
    {
        match expression {
            Expression::Num(n) => {
                if pos < answers.len() {
                    (EvalStep::Done(answers[pos]), pos + 1)
                } else {
                    (EvalStep::NeedNum(*n), pos)
                }
            },
            Expression::Variable(x) => {
                match self.variables.get(x) {
                    Option::Some(w) => (EvalStep::Done(*w), pos),
                    Option::None => (
                        EvalStep::Fail(EvalError::UndefinedVariable(x.clone())),
                        pos,
                    ),
                }
            },
            Expression::BinOp { op, lhs, rhs } => {
                let (sl, pl) = self.eval_rec(lhs, answers, pos);
                match sl {
                    EvalStep::Done(a) => {
                        let (sr, pr) = self.eval_rec(rhs, answers, pl);
                        match sr {
                            EvalStep::Done(b) => {
                                let divides = match op {
                                    BinOp::Divide => true,
                                    _ => false,
                                };
                                if divides && (b == 0 || b == 0x8000_0000_0000_0000u64) {
                                    (EvalStep::Fail(EvalError::DivisionByZero), pr)
                                } else if pr < answers.len() {
                                    (EvalStep::Done(answers[pr]), pr + 1)
                                } else {
                                    (EvalStep::NeedOp(*op, a, b), pr)
                                }
                            },
                            _ => (sr, pr),
                        }
                    },
                    _ => (sl, pl),
                }
            },
        }
    }
}

} // verus!
