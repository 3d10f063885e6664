use vstd::prelude::*;
use crate::ast::Node;
use crate::environment::Variables;
use crate::token::{is_binary_operator, Keyword, Token};
use crate::values::{
    literal_result, same_result, storable_value, stored_result, EvalError, EvalResult, NumTerm,
    VariableValue,
};

verus! {

/// A statement in progress, waiting for the result of one of its parts.
#[derive(Debug)]
pub enum Frame {
    /// The right-hand side of an assignment to the named variable.
    Assign(String),
    /// The left side of the condition of the enclosing `if`/`elif`/`while`.
    TestLeft,
    /// The right side of that condition; the left side gave the result held.
    TestRight(EvalResult),
    /// A condition that is not an equality; it holds where it gives `true`.
    TestValue,
    /// The block of the enclosing construct; the number of its statements started.
    Block(usize),
    /// The `elif`/`else` link of the enclosing construct.
    Chain,
}

/// What the machine does on its next step.
#[derive(Debug)]
pub enum Control {
    /// Nothing to evaluate.
    Idle,
    /// Start on the node that the frames lead to.
    Eval,
    /// Hand a result to the innermost frame.
    Value(EvalResult),
    /// Hand an error to the innermost frame.
    Fail(EvalError),
    /// Wait for the binary64 value of the term.
    Await(NumTerm),
}

/// What a step asks of whoever drives the machine.
#[derive(Debug)]
pub enum Request {
    /// Compute the term in binary64 arithmetic and `supply` the bit pattern
    /// of the result.
    Compute(NumTerm),
    /// Call `step` again.
    Proceed,
    /// A problem to report that does not stop the statement; call `step` again.
    Report(EvalError),
    /// The statement is evaluated.
    Done(Result<EvalResult, EvalError>),
}

/// The state of an evaluation, apart from the statement being evaluated.
pub struct MachineState {
    pub frames: Seq<Frame>,
    pub control: Control,
    pub vars: Map<Seq<char>, VariableValue>,
}

/// The condition of an `if`, `elif`/`else` or `while` node.
pub open spec fn condition_of(n: Node) -> Option<Node> {
    match n {
        Node::IfExpression { condition, .. } => *condition,
        Node::ElseExpression { condition, .. } => *condition,
        Node::WhileExpression { condition, .. } => *condition,
        _ => None,
    }
}

/// The block of an `if`, `elif`/`else` or `while` node.
pub open spec fn block_of(n: Node) -> Option<Seq<Node>> {
    match n {
        Node::IfExpression { then_branch, .. } => Some(then_branch@),
        Node::ElseExpression { then_branch, .. } => Some(then_branch@),
        Node::WhileExpression { then_branch, .. } => Some(then_branch@),
        _ => None,
    }
}

/// The `elif`/`else` link of an `if` or `elif` node.
pub open spec fn link_of(n: Node) -> Option<Node> {
    match n {
        Node::IfExpression { else_branch, .. } => *else_branch,
        Node::ElseExpression { else_branch, .. } => *else_branch,
        _ => None,
    }
}

/// The part of `n` that the frame `f` waits for.
pub open spec fn child(n: Node, f: Frame) -> Option<Node> {
    match f {
        Frame::Assign(_) => match n {
            Node::AssignmentExpression { expr, .. } => Some(*expr),
            _ => None,
        },
        Frame::TestLeft => match condition_of(n) {
            Some(Node::ConditionExpression { l_expr, .. }) => Some(*l_expr),
            _ => None,
        },
        Frame::TestRight(_) => match condition_of(n) {
            Some(Node::ConditionExpression { r_expr, .. }) => Some(*r_expr),
            _ => None,
        },
        Frame::TestValue => match condition_of(n) {
            Some(Node::ConditionExpression { .. }) => None,
            c => c,
        },
        Frame::Block(k) => match block_of(n) {
            Some(stmts) => if 1 <= k && k <= stmts.len() {
                Some(stmts[k - 1])
            } else {
                None
            },
            None => None,
        },
        Frame::Chain => link_of(n),
    }
}

/// The node that the frames lead to from `root`.
pub open spec fn focus(root: Node, frames: Seq<Frame>) -> Option<Node>
    decreases frames.len(),
{
    if frames.len() == 0 {
        Some(root)
    } else {
        match focus(root, frames.drop_last()) {
            Some(n) => child(n, frames.last()),
            None => None,
        }
    }
}

/// The arithmetic that a numeric node stands for, with each variable
/// replaced by its number; an error where a variable is unbound or holds no
/// number, or the node is not arithmetic.
pub open spec fn term_of(vars: Map<Seq<char>, VariableValue>, n: Node) -> Result<NumTerm, EvalError>
    decreases n,
{
    match n {
        Node::NumberExpression(text) => Ok(NumTerm::Literal(text)),
        Node::NegativeNumberExpression(e) => match term_of(vars, *e) {
            Ok(t) => Ok(NumTerm::Negate(Box::new(t))),
            Err(x) => Err(x),
        },
        Node::BinaryExpr { l_expr, operator, r_expr } => if !is_binary_operator(operator) {
            Err(EvalError::EvaluationUnsupported)
        } else {
            match term_of(vars, *l_expr) {
                Err(x) => Err(x),
                Ok(a) => match term_of(vars, *r_expr) {
                    Err(x) => Err(x),
                    Ok(b) => Ok(NumTerm::Binary { left: Box::new(a), operator, right: Box::new(b) }),
                },
            }
        },
        Node::IdentifierExpression(name) => if vars.contains_key(name@) {
            match vars[name@] {
                VariableValue::Number(x) => Ok(NumTerm::Value(x)),
                _ => Err(EvalError::NotANumber(name)),
            }
        } else {
            Err(EvalError::UndefinedVariable(name))
        },
        _ => Err(EvalError::EvaluationUnsupported),
    }
}

pub open spec fn with_control(s: MachineState, c: Control) -> MachineState {
    MachineState { frames: s.frames, control: c, vars: s.vars }
}

pub open spec fn with_frames(s: MachineState, frames: Seq<Frame>, c: Control) -> MachineState {
    MachineState { frames, control: c, vars: s.vars }
}

/// The step that starts on node `n`.
pub open spec fn start(n: Node, s: MachineState) -> (MachineState, Request) {
    match n {
        Node::NumberExpression(_) | Node::NegativeNumberExpression(_) | Node::BinaryExpr {
            ..
        } => match term_of(s.vars, n) {
            Ok(t) => (with_control(s, Control::Await(t)), Request::Compute(t)),
            Err(e) => (with_control(s, Control::Fail(e)), Request::Proceed),
        },
        Node::LiteralExpression(text, keyword) => (
            with_control(s, Control::Value(literal_result(text, keyword))),
            Request::Proceed,
        ),
        Node::IdentifierExpression(name) => if s.vars.contains_key(name@) {
            (with_control(s, Control::Value(stored_result(s.vars[name@]))), Request::Proceed)
        } else {
            (with_control(s, Control::Fail(EvalError::UndefinedVariable(name))), Request::Proceed)
        },
        Node::AssignmentExpression { identifier, .. } => match *identifier {
            Node::IdentifierExpression(name) => (
                with_frames(s, s.frames.push(Frame::Assign(name)), Control::Eval),
                Request::Proceed,
            ),
            _ => (with_control(s, Control::Fail(EvalError::EvaluationUnsupported)), Request::Proceed),
        },
        Node::IfExpression { condition, .. } | Node::ElseExpression { condition, .. } => match *condition {
            Some(c) => (with_frames(s, s.frames.push(test_frame(c)), Control::Eval), Request::Proceed),
            None => (
                with_frames(s, s.frames.push(Frame::Block(0)), Control::Value(EvalResult::EmptyResult)),
                Request::Proceed,
            ),
        },
        Node::WhileExpression { condition, .. } => match *condition {
            Some(c) => (with_frames(s, s.frames.push(test_frame(c)), Control::Eval), Request::Proceed),
            None => (with_control(s, Control::Value(EvalResult::EmptyResult)), Request::Proceed),
        },
        _ => (with_control(s, Control::Fail(EvalError::EvaluationUnsupported)), Request::Proceed),
    }
}

/// The frame that starts testing condition `c`: an equality compares its
/// two sides, any other condition must give `true`.
pub open spec fn test_frame(c: Node) -> Frame {
    if c is ConditionExpression {
        Frame::TestLeft
    } else {
        Frame::TestValue
    }
}

/// What follows the test of the condition of `owner`: its block where the
/// condition holds, else its `elif`/`else` link if it has one.
pub open spec fn decide(s: MachineState, rest: Seq<Frame>, owner: Option<Node>, holds: bool) -> (
    MachineState,
    Request,
) {
    if holds {
        (
            with_frames(s, rest.push(Frame::Block(0)), Control::Value(EvalResult::EmptyResult)),
            Request::Proceed,
        )
    } else if has_link(owner) {
        (with_frames(s, rest.push(Frame::Chain), Control::Eval), Request::Proceed)
    } else {
        (with_frames(s, rest, Control::Value(EvalResult::EmptyResult)), Request::Proceed)
    }
}

/// The number of statements in the block of the node, if it has one.
pub open spec fn block_len(n: Option<Node>) -> nat {
    match n {
        Some(m) => match block_of(m) {
            Some(stmts) => stmts.len(),
            None => 0,
        },
        None => 0,
    }
}

/// For a loop with a condition, the frame that tests it again.
pub open spec fn loop_test(n: Option<Node>) -> Option<Frame> {
    match n {
        Some(Node::WhileExpression { condition, .. }) => match *condition {
            Some(c) => Some(test_frame(c)),
            None => None,
        },
        _ => None,
    }
}

pub open spec fn has_link(n: Option<Node>) -> bool {
    n matches Some(m) && link_of(m).is_some()
}

/// The step that hands `outcome` to the innermost frame, or ends the
/// statement with it where no frame is left.
pub open spec fn deliver(root: Node, s: MachineState, outcome: Result<EvalResult, EvalError>) -> (
    MachineState,
    Request,
) {
    if s.frames.len() == 0 {
        (with_control(s, Control::Idle), Request::Done(outcome))
    } else {
        let rest = s.frames.drop_last();
        let owner = focus(root, rest);
        match s.frames.last() {
            Frame::Assign(name) => match outcome {
                Err(e) => (with_frames(s, rest, Control::Fail(e)), Request::Proceed),
                Ok(v) => {
                    let vars = match storable_value(v) {
                        Some(x) => s.vars.insert(name@, x),
                        None => s.vars,
                    };
                    let r = EvalResult::Assignment {
                        identifier: Box::new(EvalResult::Literal(name)),
                        value: Box::new(v),
                    };
                    (
                        MachineState { frames: rest, control: Control::Value(r), vars },
                        match storable_value(v) {
                            Some(_) => Request::Proceed,
                            None => Request::Report(EvalError::UnassignableValue(name)),
                        },
                    )
                },
            },
            Frame::TestLeft => match outcome {
                Err(e) => (with_frames(s, rest, Control::Fail(e)), Request::Proceed),
                Ok(a) => (with_frames(s, rest.push(Frame::TestRight(a)), Control::Eval), Request::Proceed),
            },
            Frame::TestRight(a) => match outcome {
                Err(e) => (with_frames(s, rest, Control::Fail(e)), Request::Proceed),
                Ok(b) => decide(s, rest, owner, same_result(a, b)),
            },
            Frame::TestValue => match outcome {
                Err(e) => (with_frames(s, rest, Control::Fail(e)), Request::Proceed),
                Ok(v) => decide(s, rest, owner, v == EvalResult::Boolean(true)),
            },
            Frame::Block(k) => match outcome {
                Err(e) => (with_frames(s, rest, Control::Fail(e)), Request::Proceed),
                Ok(_) => if k < block_len(owner) && k < usize::MAX {
                    (
                        with_frames(s, rest.push(Frame::Block((k + 1) as usize)), Control::Eval),
                        Request::Proceed,
                    )
                } else {
                    match loop_test(owner) {
                        Some(f) => (with_frames(s, rest.push(f), Control::Eval), Request::Proceed),
                        None => (
                            with_frames(s, rest, Control::Value(EvalResult::EmptyResult)),
                            Request::Proceed,
                        ),
                    }
                },
            },
            Frame::Chain => match outcome {
                Err(e) => (with_frames(s, rest, Control::Fail(e)), Request::Proceed),
                Ok(_) => (with_frames(s, rest, Control::Value(EvalResult::EmptyResult)), Request::Proceed),
            },
        }
    }
}

/// One step of evaluating `root`.
pub open spec fn transition(root: Node, s: MachineState) -> (MachineState, Request) {
    match s.control {
        Control::Idle => (s, Request::Done(Err(EvalError::EvaluationUnsupported))),
        Control::Await(t) => (s, Request::Compute(t)),
        Control::Eval => match focus(root, s.frames) {
            Some(n) => start(n, s),
            None => (with_control(s, Control::Fail(EvalError::EvaluationUnsupported)), Request::Proceed),
        },
        Control::Value(v) => deliver(root, s, Ok(v)),
        Control::Fail(e) => deliver(root, s, Err(e)),
    }
}

/// Frames past a point where they lead nowhere lead nowhere either.
proof fn lemma_focus_stays_none(root: Node, frames: Seq<Frame>, j: int, m: int)
    requires
        0 <= j <= m <= frames.len(),
        focus(root, frames.subrange(0, j)) is None,
    ensures
        focus(root, frames.subrange(0, m)) is None,
    decreases m - j,
{
    if j < m {
        let next = frames.subrange(0, j + 1);
        assert(next.drop_last() =~= frames.subrange(0, j));
        lemma_focus_stays_none(root, frames, j + 1, m);
    }
}

/// Whether frame `f` can wait on node `n`: it names a part that `n` has.
pub open spec fn fits(n: Option<Node>, f: Frame) -> bool {
    match n {
        None => false,
        Some(m) => match f {
            Frame::Assign(name) => m matches Node::AssignmentExpression { identifier, .. }
                && *identifier == Node::IdentifierExpression(name),
            Frame::TestLeft | Frame::TestRight(_) => condition_of(m) matches Some(
                Node::ConditionExpression { .. },
            ),
            Frame::TestValue => condition_of(m) matches Some(c) && !(c is ConditionExpression),
            Frame::Block(k) => {
                &&& block_of(m) matches Some(stmts) && k <= stmts.len()
                &&& (m is WhileExpression ==> condition_of(m).is_some())
            },
            Frame::Chain => link_of(m).is_some(),
        },
    }
}

/// Every frame waits on a part of the node that the frames below it lead to.
pub open spec fn frames_fit(root: Node, frames: Seq<Frame>) -> bool {
    forall|k: int| 0 <= k < frames.len() ==> #[trigger] fits(focus(root, frames.subrange(0, k)), frames[k])
}

/// The invariant of an evaluation: the frames fit the statement, and where
/// the machine is to start on a node, there is one.
pub open spec fn consistent(root: Node, s: MachineState) -> bool {
    &&& frames_fit(root, s.frames)
    &&& (s.control is Eval ==> focus(root, s.frames).is_some())
}

proof fn lemma_fit_drop(root: Node, frames: Seq<Frame>)
    requires
        frames_fit(root, frames),
        frames.len() > 0,
    ensures
        frames_fit(root, frames.drop_last()),
        fits(focus(root, frames.drop_last()), frames.last()),
{
    let rest = frames.drop_last();
    assert(frames.subrange(0, rest.len() as int) =~= rest);
    assert forall|k: int| 0 <= k < rest.len() implies #[trigger] fits(
        focus(root, rest.subrange(0, k)),
        rest[k],
    ) by {
        assert(rest.subrange(0, k) =~= frames.subrange(0, k));
        assert(fits(focus(root, frames.subrange(0, k)), frames[k]));
    }
    assert(fits(focus(root, frames.subrange(0, rest.len() as int)), frames[rest.len() as int]));
}

proof fn lemma_fit_push(root: Node, rest: Seq<Frame>, f: Frame)
    requires
        frames_fit(root, rest),
        fits(focus(root, rest), f),
    ensures
        frames_fit(root, rest.push(f)),
        focus(root, rest.push(f)) == child(focus(root, rest).unwrap(), f),
{
    let frames = rest.push(f);
    assert(frames.drop_last() =~= rest);
    assert forall|k: int| 0 <= k < frames.len() implies #[trigger] fits(
        focus(root, frames.subrange(0, k)),
        frames[k],
    ) by {
        assert(frames.subrange(0, k) =~= rest.subrange(0, k));
        if k < rest.len() {
            assert(fits(focus(root, rest.subrange(0, k)), rest[k]));
        } else {
            assert(rest.subrange(0, k) =~= rest);
        }
    }
}

proof fn lemma_transition_consistent(root: Node, s: MachineState)
    requires
        consistent(root, s),
    ensures
        consistent(root, transition(root, s).0),
{
    match s.control {
        Control::Eval => {
            let n = focus(root, s.frames).unwrap();
            assert(transition(root, s) == start(n, s));
            match n {
                Node::AssignmentExpression { identifier, .. } => {
                    if let Node::IdentifierExpression(name) = *identifier {
                        lemma_fit_push(root, s.frames, Frame::Assign(name));
                    }
                },
                Node::IfExpression { condition, .. } => {
                    match *condition {
                        Some(c) => lemma_fit_push(root, s.frames, test_frame(c)),
                        None => lemma_fit_push(root, s.frames, Frame::Block(0)),
                    }
                },
                Node::ElseExpression { condition, .. } => {
                    match *condition {
                        Some(c) => lemma_fit_push(root, s.frames, test_frame(c)),
                        None => lemma_fit_push(root, s.frames, Frame::Block(0)),
                    }
                },
                Node::WhileExpression { condition, .. } => {
                    if let Some(c) = *condition {
                        lemma_fit_push(root, s.frames, test_frame(c));
                    }
                },
                _ => {},
            }
        },
        Control::Value(_) | Control::Fail(_) => {
            if s.frames.len() > 0 {
                lemma_fit_drop(root, s.frames);
                let rest = s.frames.drop_last();
                let owner = focus(root, rest);
                match s.frames.last() {
                    Frame::TestLeft => {
                        if let Control::Value(a) = s.control {
                            lemma_fit_push(root, rest, Frame::TestRight(a));
                        }
                    },
                    Frame::TestRight(a) => {
                        if let Control::Value(b) = s.control {
                            if same_result(a, b) {
                                lemma_fit_push(root, rest, Frame::Block(0));
                            } else if has_link(owner) {
                                lemma_fit_push(root, rest, Frame::Chain);
                            }
                        }
                    },
                    Frame::TestValue => {
                        if let Control::Value(v) = s.control {
                            if v == EvalResult::Boolean(true) {
                                lemma_fit_push(root, rest, Frame::Block(0));
                            } else if has_link(owner) {
                                lemma_fit_push(root, rest, Frame::Chain);
                            }
                        }
                    },
                    Frame::Block(k) => {
                        if s.control is Fail {
                        } else if k < block_len(owner) && k < usize::MAX {
                            lemma_fit_push(root, rest, Frame::Block((k + 1) as usize));
                        } else if let Some(f) = loop_test(owner) {
                            lemma_fit_push(root, rest, f);
                        }
                    },
                    _ => {},
                }
            }
        },
        _ => {},
    }
}

/// The state after `n` steps of evaluating `root` from `s`.
pub open spec fn run(root: Node, s: MachineState, n: nat) -> MachineState
    decreases n,
{
    if n == 0 {
        s
    } else {
        transition(root, run(root, s, (n - 1) as nat)).0
    }
}

/// A condition side or statement that is a literal or a number.
pub open spec fn plain_value(n: Node) -> bool {
    n is LiteralExpression || n is NumberExpression
}

/// What such a node evaluates to, where the driver gives the decimal
/// literal `t` the value `vo(t)`.
pub open spec fn plain_result(vo: spec_fn(Seq<char>) -> u64, n: Node) -> EvalResult {
    match n {
        Node::LiteralExpression(t, k) => literal_result(t, k),
        Node::NumberExpression(t) => EvalResult::Number(vo(t@)),
        _ => EvalResult::EmptyResult,
    }
}

/// A statement that cannot fail: a literal, a number, or the assignment of
/// one to a name.
pub open spec fn safe_statement(n: Node) -> bool {
    ||| plain_value(n)
    ||| n matches Node::AssignmentExpression { identifier, expr, .. } && *identifier is IdentifierExpression
        && plain_value(*expr)
}

/// A `while` statement whose block cannot fail and whose condition always
/// holds: the literal `true`, or two literals or numbers that come out equal
/// when the driver gives each decimal literal `t` the value `vo(t)`.
pub open spec fn endless_loop(root: Node, vo: spec_fn(Seq<char>) -> u64) -> bool {
    &&& root matches Node::WhileExpression { then_branch, .. } && forall|i: int|
        0 <= i < then_branch@.len() ==> safe_statement(#[trigger] then_branch@[i])
    &&& match condition_of(root) {
        Some(Node::LiteralExpression(t, k)) => literal_result(t, k) == EvalResult::Boolean(true),
        Some(Node::ConditionExpression { l_expr, r_expr, .. }) => {
            &&& root is WhileExpression
            &&& plain_value(*l_expr)
            &&& plain_value(*r_expr)
            &&& same_result(plain_result(vo, *l_expr), plain_result(vo, *r_expr))
        },
        _ => false,
    }
}

/// The two sides of an equality condition.
pub open spec fn loop_sides(root: Node) -> (Node, Node) {
    match condition_of(root) {
        Some(Node::ConditionExpression { l_expr, r_expr, .. }) => (*l_expr, *r_expr),
        _ => (root, root),
    }
}

/// The machine waits for the value of number node `n`.
pub open spec fn waits_for(n: Node, c: Control) -> bool {
    n matches Node::NumberExpression(t) && c == Control::Await(NumTerm::Literal(t))
}

/// The control of a running statement of such a block.
pub open spec fn settled(c: Control) -> bool {
    c is Eval || c is Value || c matches Control::Await(NumTerm::Literal(_))
}

/// The driver hands over the value of the decimal literal the machine waits for.
pub open spec fn supplied(vo: spec_fn(Seq<char>) -> u64, s: MachineState) -> MachineState {
    match s.control {
        Control::Await(NumTerm::Literal(t)) => with_control(
            s,
            Control::Value(EvalResult::Number(vo(t@))),
        ),
        _ => s,
    }
}

/// The states of such a loop once it has started: the loop's own frame is
/// at the bottom; while it tests its condition nothing is above it and each
/// side comes out as it always does; while it runs its block at most an
/// assignment stands above it; and nothing has failed.
pub open spec fn loop_state(root: Node, vo: spec_fn(Seq<char>) -> u64, s: MachineState) -> bool {
    let (l, r) = loop_sides(root);
    &&& consistent(root, s)
    &&& s.frames.len() >= 1
    &&& match s.frames[0] {
        Frame::Block(_) => settled(s.control) && (s.frames.len() == 1 || (s.frames.len() == 2
            && s.frames[1] is Assign)),
        Frame::TestLeft => s.frames.len() == 1 && (s.control is Eval || waits_for(l, s.control)
            || s.control == Control::Value(plain_result(vo, l))),
        Frame::TestRight(x) => s.frames.len() == 1 && x == plain_result(vo, l) && (s.control is Eval
            || waits_for(r, s.control) || s.control == Control::Value(plain_result(vo, r))),
        Frame::TestValue => s.frames.len() == 1 && (s.control is Eval || s.control == Control::Value(
            EvalResult::Boolean(true),
        )),
        _ => false,
    }
}

/// A loop whose condition always holds and whose block cannot fail never
/// ends: from a state of the running loop, a step does not end the statement
/// and leads to a state of the running loop, and so does handing over the
/// value of the decimal literal the machine waits for.
pub proof fn law_true_loop_never_ends(root: Node, vo: spec_fn(Seq<char>) -> u64, s: MachineState)
    requires
        endless_loop(root, vo),
        loop_state(root, vo, s),
    ensures
        !(transition(root, s).1 is Done),
        loop_state(root, vo, transition(root, s).0),
        s.control is Await ==> loop_state(root, vo, supplied(vo, s)),
{
    lemma_transition_consistent(root, s);
    let t = transition(root, s).0;
    let one = s.frames.subrange(0, 1);
    assert(one.drop_last() =~= Seq::<Frame>::empty());
    assert(focus(root, Seq::<Frame>::empty()) == Some(root));
    assert forall|f: Frame| #[trigger] Seq::<Frame>::empty().push(f)[0] == f by {}
    assert forall|f: Frame, g: Frame| #[trigger] seq![f].push(g) =~= seq![f, g] by {}
    if s.frames.len() == 1 {
        assert(s.frames =~= one);
        assert(s.frames.drop_last() =~= Seq::<Frame>::empty());
        match s.frames[0] {
            Frame::Block(k) => {
                if s.control is Eval {
                    let n = child(root, Frame::Block(k)).unwrap();
                    if let Node::WhileExpression { then_branch, .. } = root {
                        assert(safe_statement(then_branch@[k - 1]));
                    }
                    assert(t.frames =~= s.frames || t.frames =~= s.frames.push(Frame::Assign(
                        n->AssignmentExpression_identifier->IdentifierExpression_0,
                    )));
                }
            },
            _ => {
                if !(s.control is Value) {
                    assert(t.frames =~= s.frames);
                }
            },
        }
    } else {
        assert(s.frames.len() == 2);
        assert(s.frames.drop_last() =~= one);
        assert(s.frames =~= seq![s.frames[0], s.frames[1]]);
        if s.control is Eval {
            assert(t.frames =~= s.frames);
        }
    }
}

/// Such a loop starts running: its first step does not end the statement
/// and leads to a state of the running loop.
pub proof fn law_true_loop_starts(
    root: Node,
    vo: spec_fn(Seq<char>) -> u64,
    vars: Map<Seq<char>, VariableValue>,
)
    requires
        endless_loop(root, vo),
    ensures
        !(transition(root, initial(vars)).1 is Done),
        loop_state(root, vo, transition(root, initial(vars)).0),
{
    let s0 = initial(vars);
    assert(focus(root, s0.frames) == Some(root));
    assert(consistent(root, s0));
    lemma_transition_consistent(root, s0);
    assert forall|f: Frame| #[trigger] Seq::<Frame>::empty().push(f)[0] == f by {}
}

/// The step `s` to `t` of a loop that ends it: an error hands on, or a test
/// of the condition came out false and the loop gives the empty result.
pub open spec fn loop_exit(s: MachineState, t: MachineState) -> bool {
    ||| s.control is Fail && t.control == s.control
    ||| match (s.frames.last(), s.control) {
        (Frame::TestRight(a), Control::Value(b)) => !same_result(a, b) && t.control == Control::Value(
            EvalResult::EmptyResult,
        ),
        (Frame::TestValue, Control::Value(v)) => v != EvalResult::Boolean(true) && t.control
            == Control::Value(EvalResult::EmptyResult),
        _ => false,
    }
}

/// A `while` statement ends only where its condition comes out false or an
/// error stops it; where the condition holds its block starts, each
/// statement that ends well is followed by the next, and after the last the
/// condition is tested again.
pub proof fn law_loop_runs_while_condition_holds(root: Node, s: MachineState)
    requires
        root is WhileExpression,
        consistent(root, s),
        s.frames.len() == 1,
    ensures
        transition(root, s).0.frames.len() == 0 ==> loop_exit(s, transition(root, s).0),
        (s.frames[0] matches Frame::TestRight(a) && s.control matches Control::Value(b) && same_result(
            a,
            b,
        )) ==> transition(root, s).0.frames == seq![Frame::Block(0)],
        (s.frames[0] is TestValue && s.control == Control::Value(EvalResult::Boolean(true)))
            ==> transition(root, s).0.frames == seq![Frame::Block(0)],
        (s.frames[0] is Block && s.control is Value && s.frames[0]->Block_0 < block_len(Some(root))
            && s.frames[0]->Block_0 < usize::MAX)
            ==> transition(root, s).0.frames == seq![Frame::Block((s.frames[0]->Block_0 + 1) as usize)]
            && transition(root, s).0.control is Eval,
        (s.frames[0] is Block && s.control is Value && s.frames[0]->Block_0 == block_len(Some(root)))
            ==> transition(root, s).0.frames == seq![test_frame(condition_of(root).unwrap())]
            && transition(root, s).0.control is Eval,
{
    assert(s.frames.drop_last() =~= Seq::<Frame>::empty());
    assert(focus(root, Seq::<Frame>::empty()) == Some(root));
    assert(fits(focus(root, s.frames.subrange(0, 0)), s.frames[0])) by {
        assert(s.frames.subrange(0, 0) =~= Seq::<Frame>::empty());
    }
    assert(s.frames.last() == s.frames[0]);
    assert forall|f: Frame| #[trigger] Seq::<Frame>::empty().push(f) =~= seq![f] by {}
}

/// The state in which the evaluation of a statement starts.
pub open spec fn initial(vars: Map<Seq<char>, VariableValue>) -> MachineState {
    MachineState { frames: Seq::empty(), control: Control::Eval, vars }
}

/// A statement of arithmetic evaluates to the number computed for its term:
/// the first step asks for the binary64 value of `term_of(vars, root)`, and
/// once the value `x` is handed over, the next step ends the statement with
/// `Number(x)`, the variables unchanged. Where the term cannot be formed,
/// the statement ends with that error after two steps.
pub proof fn law_arithmetic_statement(root: Node, vars: Map<Seq<char>, VariableValue>, x: u64)
    requires
        root is NumberExpression || root is NegativeNumberExpression || root is BinaryExpr,
    ensures
        match term_of(vars, root) {
            Ok(t) => {
                &&& transition(root, initial(vars)) == (
                    with_control(initial(vars), Control::Await(t)),
                    Request::Compute(t),
                )
                &&& transition(
                    root,
                    with_control(initial(vars), Control::Value(EvalResult::Number(x))),
                ) == (
                    with_control(initial(vars), Control::Idle),
                    Request::Done(Ok(EvalResult::Number(x))),
                )
            },
            Err(e) => transition(root, run(root, initial(vars), 1)) == (
                with_control(initial(vars), Control::Idle),
                Request::Done(Err::<EvalResult, EvalError>(e)),
            ),
        },
{
    assert(focus(root, initial(vars).frames) == Some(root));
    assert(run(root, initial(vars), 0) == initial(vars));
}

/// Assigning a literal to a name takes three steps and ends the statement
/// with the assignment's result; the name is then bound to the literal's
/// value, whatever it was bound to before.
pub proof fn law_assign_literal(root: Node, vars: Map<Seq<char>, VariableValue>)
    requires
        root matches Node::AssignmentExpression { identifier, expr, .. }
            && *identifier is IdentifierExpression && *expr is LiteralExpression,
    ensures
        match root {
            Node::AssignmentExpression { identifier, expr, .. } => match (*identifier, *expr) {
                (Node::IdentifierExpression(name), Node::LiteralExpression(t, k)) => {
                    let v = literal_result(t, k);
                    let r = EvalResult::Assignment {
                        identifier: Box::new(EvalResult::Literal(name)),
                        value: Box::new(v),
                    };
                    &&& run(root, initial(vars), 3) == MachineState {
                        frames: Seq::empty(),
                        control: Control::Value(r),
                        vars: vars.insert(name@, storable_value(v).unwrap()),
                    }
                    &&& transition(root, run(root, initial(vars), 3)).1 == Request::Done(
                        Ok::<EvalResult, EvalError>(r),
                    )
                },
                _ => false,
            },
            _ => false,
        },
{
    if let Node::AssignmentExpression { identifier, expr, .. } = root {
        if let (Node::IdentifierExpression(name), Node::LiteralExpression(t, k)) = (*identifier, *expr) {
            let s0 = initial(vars);
            assert(focus(root, s0.frames) == Some(root));
            assert(run(root, s0, 0) == s0);
            let s1 = run(root, s0, 1);
            assert(s1.frames =~= seq![Frame::Assign(name)]);
            assert(s1.frames.drop_last() =~= Seq::<Frame>::empty());
            let s2 = run(root, s0, 2);
            assert(s2.frames =~= seq![Frame::Assign(name)]);
            let s3 = run(root, s0, 3);
            assert(s3.frames =~= Seq::<Frame>::empty());
        }
    }
}

fn condition_node(n: &Node) -> (r: Option<&Node>)
    ensures
        match r {
            Some(c) => condition_of(*n) == Some(*c),
            None => condition_of(*n) is None,
        },
{
    let condition = match n {
        Node::IfExpression { condition, .. } => condition,
        Node::ElseExpression { condition, .. } => condition,
        Node::WhileExpression { condition, .. } => condition,
        _ => return None,
    };
    match &**condition {
        Some(c) => Some(c),
        None => None,
    }
}

fn block_nodes(n: &Node) -> (r: Option<&Vec<Node>>)
    ensures
        match r {
            Some(v) => block_of(*n) == Some(v@),
            None => block_of(*n) is None,
        },
{
    match n {
        Node::IfExpression { then_branch, .. } => Some(&**then_branch),
        Node::ElseExpression { then_branch, .. } => Some(&**then_branch),
        Node::WhileExpression { then_branch, .. } => Some(&**then_branch),
        _ => None,
    }
}

fn link_node(n: &Node) -> (r: Option<&Node>)
    ensures
        match r {
            Some(c) => link_of(*n) == Some(*c),
            None => link_of(*n) is None,
        },
{
    let link = match n {
        Node::IfExpression { else_branch, .. } => else_branch,
        Node::ElseExpression { else_branch, .. } => else_branch,
        _ => return None,
    };
    match &**link {
        Some(c) => Some(c),
        None => None,
    }
}

fn test_frame_for(c: &Node) -> (r: Frame)
    ensures
        r == test_frame(*c),
{
    match c {
        Node::ConditionExpression { .. } => Frame::TestLeft,
        _ => Frame::TestValue,
    }
}

fn child_node<'a>(n: &'a Node, f: &Frame) -> (r: Option<&'a Node>)
    ensures
        match r {
            Some(c) => child(*n, *f) == Some(*c),
            None => child(*n, *f) is None,
        },
{
    match f {
        Frame::Assign(_) => match n {
            Node::AssignmentExpression { expr, .. } => Some(&**expr),
            _ => None,
        },
        Frame::TestLeft => match condition_node(n) {
            Some(Node::ConditionExpression { l_expr, .. }) => Some(&**l_expr),
            _ => None,
        },
        Frame::TestRight(_) => match condition_node(n) {
            Some(Node::ConditionExpression { r_expr, .. }) => Some(&**r_expr),
            _ => None,
        },
        Frame::TestValue => match condition_node(n) {
            Some(Node::ConditionExpression { .. }) => None,
            c => c,
        },
        Frame::Block(k) => match block_nodes(n) {
            Some(stmts) => if 1 <= *k && *k <= stmts.len() {
                Some(&stmts[*k - 1])
            } else {
                None
            },
            None => None,
        },
        Frame::Chain => link_node(n),
    }
}

/// Evaluates the statements of a program one at a time against its own
/// variables. Evaluation runs in steps: a step that needs binary64
/// arithmetic hands the term out and waits until its value is supplied,
/// and every pass of a loop takes steps of its own, so the driver decides
/// how long to go on.
pub struct Evaluator {
    ast: Option<Node>,
    variable_storage: Variables,
    root: Node,
    frames: Vec<Frame>,
    control: Control,
}

impl Evaluator {
    /// The statement that `start_evaluating` takes up next.
    pub closed spec fn pending(&self) -> Option<Node> {
        self.ast
    }

    /// The statement being evaluated.
    pub closed spec fn statement(&self) -> Node {
        self.root
    }

    pub closed spec fn state(&self) -> MachineState {
        MachineState { frames: self.frames@, control: self.control, vars: self.variable_storage@ }
    }

    /// The current binding of each variable.
    pub open spec fn variables(&self) -> Map<Seq<char>, VariableValue> {
        self.state().vars
    }

    pub closed spec fn wf(&self) -> bool {
        &&& self.variable_storage.wf()
        &&& consistent(self.root, self.state())
    }

    /// An evaluator with no variables that has nothing to evaluate yet;
    /// `expr` is kept for `start_evaluating`.
    pub fn new(expr: Option<Node>) -> (r: Evaluator)
        ensures
            r.wf(),
            r.pending() == expr,
            r.state().frames.len() == 0,
            r.state().control is Idle,
            r.variables() == Map::<Seq<char>, VariableValue>::empty(),
    {
        Evaluator {
            ast: expr,
            variable_storage: Variables::new(),
            root: Node::EOF(String::new()),
            frames: Vec::new(),
            control: Control::Idle,
        }
    }

    /// Sets the machine to evaluate `node` from its start, with the
    /// variables as they are.
    pub fn begin(&mut self, node: Node)
        requires
            old(self).wf(),
        ensures
            final(self).wf(),
            final(self).pending() == old(self).pending(),
            final(self).statement() == node,
            final(self).state().frames.len() == 0,
            final(self).state().control is Eval,
            final(self).variables() == old(self).variables(),
    {
        self.root = node;
        self.frames = Vec::new();
        self.control = Control::Eval;
    }

    /// Takes up the statement held in `ast`; where there is none, the next
    /// step ends with `EvaluationUnsupported`.
    pub fn start_evaluating(&mut self)
        requires
            old(self).wf(),
        ensures
            final(self).wf(),
            final(self).pending() is None,
            final(self).state().frames.len() == 0,
            final(self).variables() == old(self).variables(),
            match old(self).pending() {
                Some(n) => final(self).statement() == n && final(self).state().control is Eval,
                None => final(self).state().control == Control::Fail(EvalError::EvaluationUnsupported),
            },
    {
        let mut taken: Option<Node> = None;
        std::mem::swap(&mut self.ast, &mut taken);
        match taken {
            Some(n) => self.begin(n),
            None => {
                self.frames = Vec::new();
                self.control = Control::Fail(EvalError::EvaluationUnsupported);
            },
        }
    }

    /// Hands over the bit pattern of the binary64 value of the term that the
    /// machine waits for; does nothing where it waits for none.
    pub fn supply(&mut self, value: u64)
        requires
            old(self).wf(),
        ensures
            final(self).wf(),
            final(self).pending() == old(self).pending(),
            final(self).statement() == old(self).statement(),
            old(self).state().control is Await ==> final(self).state() == with_control(
                old(self).state(),
                Control::Value(EvalResult::Number(value)),
            ),
            !(old(self).state().control is Await) ==> final(self).state() == old(self).state(),
    {
        if let Control::Await(_) = &self.control {
            self.control = Control::Value(EvalResult::Number(value));
        }
    }

    /// The value bound to `name`, if any.
    pub fn variable(&self, name: &String) -> (r: Option<&VariableValue>)
        requires
            self.wf(),
        ensures
            match r {
                Some(v) => self.variables().contains_key(name@) && self.variables()[name@] == *v,
                None => !self.variables().contains_key(name@),
            },
    {
        self.variable_storage.get(name)
    }

    /// The node that the first `upto` frames lead to.
    fn focus_node(&self, upto: usize) -> (r: Option<&Node>)
        requires
            upto <= self.frames@.len(),
        ensures
            match r {
                Some(n) => focus(self.root, self.frames@.subrange(0, upto as int)) == Some(*n),
                None => focus(self.root, self.frames@.subrange(0, upto as int)) is None,
            },
    {
        let mut current: &Node = &self.root;
        let mut k: usize = 0;
        proof {
            assert(self.frames@.subrange(0, 0) =~= Seq::<Frame>::empty());
        }
        while k < upto
            invariant
                k <= upto <= self.frames@.len(),
                focus(self.root, self.frames@.subrange(0, k as int)) == Some(*current),
            decreases upto - k,
        {
            proof {
                let next = self.frames@.subrange(0, k + 1);
                assert(next.drop_last() =~= self.frames@.subrange(0, k as int));
                assert(next.last() == self.frames@[k as int]);
            }
            match child_node(current, &self.frames[k]) {
                Some(c) => current = c,
                None => {
                    proof {
                        lemma_focus_stays_none(self.root, self.frames@, k + 1, upto as int);
                    }
                    return None;
                },
            }
            k = k + 1;
        }
        Some(current)
    }

    /// The arithmetic term of a numeric node under the current variables.
    fn term_of_node(&self, n: &Node) -> (r: Result<NumTerm, EvalError>)
        requires
            self.variable_storage.wf(),
        ensures
            r == term_of(self.variables(), *n),
        decreases n,
    {
        match n {
            Node::NumberExpression(text) => Ok(NumTerm::Literal(text.clone())),
            Node::NegativeNumberExpression(e) => match self.term_of_node(e) {
                Ok(t) => Ok(NumTerm::Negate(Box::new(t))),
                Err(x) => Err(x),
            },
            Node::BinaryExpr { l_expr, operator, r_expr } => {
                match operator {
                    Token::Add | Token::Subtract | Token::Multiply | Token::Divide | Token::Pow => {},
                    _ => return Err(EvalError::EvaluationUnsupported),
                }
                let a = match self.term_of_node(l_expr) {
                    Ok(t) => t,
                    Err(x) => return Err(x),
                };
                let b = match self.term_of_node(r_expr) {
                    Ok(t) => t,
                    Err(x) => return Err(x),
                };
                Ok(NumTerm::Binary { left: Box::new(a), operator: operator.copy(), right: Box::new(b) })
            },
            Node::IdentifierExpression(name) => match self.variable_storage.get(name) {
                Some(VariableValue::Number(x)) => Ok(NumTerm::Value(*x)),
                Some(_) => Err(EvalError::NotANumber(name.clone())),
                None => Err(EvalError::UndefinedVariable(name.clone())),
            },
            _ => Err(EvalError::EvaluationUnsupported),
        }
    }

    /// Facts about the node that all frames lead to: the length of its block,
    /// whether it is a loop, whether it has an `elif`/`else` link.
    fn owner_facts(&self) -> (r: (usize, Option<Frame>, bool))
        ensures
            r.0 as nat == block_len(focus(self.root, self.frames@)),
            r.1 == loop_test(focus(self.root, self.frames@)),
            r.2 == has_link(focus(self.root, self.frames@)),
    {
        let len = self.frames.len();
        proof {
            assert(self.frames@.subrange(0, len as int) =~= self.frames@);
        }
        match self.focus_node(len) {
            Some(n) => {
                let block = match block_nodes(n) {
                    Some(stmts) => stmts.len(),
                    None => 0,
                };
                let looping = match n {
                    Node::WhileExpression { condition, .. } => match &**condition {
                        Some(c) => Some(test_frame_for(c)),
                        None => None,
                    },
                    _ => None,
                };
                let linked = match link_node(n) {
                    Some(_) => true,
                    None => false,
                };
                (block, looping, linked)
            },
            None => (0, None, false),
        }
    }

    /// The step that starts on the node that the frames lead to.
    fn start_focus(&mut self) -> (r: Request)
        requires
            old(self).variable_storage.wf(),
        ensures
            final(self).variable_storage.wf(),
            final(self).pending() == old(self).pending(),
            final(self).statement() == old(self).statement(),
            (final(self).state(), r) == match focus(old(self).statement(), old(self).state().frames) {
                Some(n) => start(n, old(self).state()),
                None => (
                    with_control(old(self).state(), Control::Fail(EvalError::EvaluationUnsupported)),
                    Request::Proceed,
                ),
            },
    {
        let len = self.frames.len();
        proof {
            assert(self.frames@.subrange(0, len as int) =~= self.frames@);
        }
        let n = match self.focus_node(len) {
            Some(n) => n,
            None => {
                self.control = Control::Fail(EvalError::EvaluationUnsupported);
                return Request::Proceed;
            },
        };
        match n {
            Node::NumberExpression(_) | Node::NegativeNumberExpression(_) | Node::BinaryExpr {
                ..
            } => match self.term_of_node(n) {
                Ok(t) => {
                    let request = Request::Compute(t.copy());
                    self.control = Control::Await(t);
                    request
                },
                Err(e) => {
                    self.control = Control::Fail(e);
                    Request::Proceed
                },
            },
            Node::LiteralExpression(text, keyword) => {
                let v = match keyword {
                    Keyword::True => EvalResult::Boolean(true),
                    Keyword::False => EvalResult::Boolean(false),
                    _ => EvalResult::Literal(text.clone()),
                };
                self.control = Control::Value(v);
                Request::Proceed
            },
            Node::IdentifierExpression(name) => {
                let c = match self.variable_storage.get(name) {
                    Some(value) => Control::Value(value.to_result()),
                    None => Control::Fail(EvalError::UndefinedVariable(name.clone())),
                };
                self.control = c;
                Request::Proceed
            },
            Node::AssignmentExpression { identifier, .. } => {
                match &**identifier {
                    Node::IdentifierExpression(name) => {
                        let target = name.clone();
                        self.frames.push(Frame::Assign(target));
                        self.control = Control::Eval;
                    },
                    _ => {
                        self.control = Control::Fail(EvalError::EvaluationUnsupported);
                    },
                }
                Request::Proceed
            },
            Node::IfExpression { condition, .. } | Node::ElseExpression { condition, .. } => {
                match &**condition {
                    Some(c) => {
                        let f = test_frame_for(c);
                        self.frames.push(f);
                        self.control = Control::Eval;
                    },
                    None => {
                        self.frames.push(Frame::Block(0));
                        self.control = Control::Value(EvalResult::EmptyResult);
                    },
                }
                Request::Proceed
            },
            Node::WhileExpression { condition, .. } => {
                match &**condition {
                    Some(c) => {
                        let f = test_frame_for(c);
                        self.frames.push(f);
                        self.control = Control::Eval;
                    },
                    None => {
                        self.control = Control::Value(EvalResult::EmptyResult);
                    },
                }
                Request::Proceed
            },
            _ => {
                self.control = Control::Fail(EvalError::EvaluationUnsupported);
                Request::Proceed
            },
        }
    }

    /// After a condition was tested: the block where it holds, else the
    /// `elif`/`else` link if the construct has one.
    fn decide_branch(&mut self, holds: bool) -> (r: Request)
        requires
            old(self).variable_storage.wf(),
        ensures
            final(self).variable_storage.wf(),
            final(self).pending() == old(self).pending(),
            final(self).statement() == old(self).statement(),
            (final(self).state(), r) == decide(
                old(self).state(),
                old(self).state().frames,
                focus(old(self).statement(), old(self).state().frames),
                holds,
            ),
    {
        if holds {
            self.frames.push(Frame::Block(0));
            self.control = Control::Value(EvalResult::EmptyResult);
        } else {
            let (_, _, linked) = self.owner_facts();
            if linked {
                self.frames.push(Frame::Chain);
                self.control = Control::Eval;
            } else {
                self.control = Control::Value(EvalResult::EmptyResult);
            }
        }
        Request::Proceed
    }

    /// The step that hands `outcome` to the innermost frame.
    fn deliver_outcome(&mut self, outcome: Result<EvalResult, EvalError>) -> (r: Request)
        requires
            old(self).variable_storage.wf(),
        ensures
            final(self).variable_storage.wf(),
            final(self).pending() == old(self).pending(),
            final(self).statement() == old(self).statement(),
            (final(self).state(), r) == deliver(old(self).statement(), old(self).state(), outcome),
    {
        let frame = match self.frames.pop() {
            Some(f) => f,
            None => {
                self.control = Control::Idle;
                return Request::Done(outcome);
            },
        };
        match frame {
            Frame::Assign(name) => match outcome {
                Err(e) => {
                    self.control = Control::Fail(e);
                    Request::Proceed
                },
                Ok(v) => {
                    match &v {
                        EvalResult::Number(x) => self.variable_storage.set(
                            name.clone(),
                            VariableValue::Number(*x),
                        ),
                        EvalResult::Literal(text) => self.variable_storage.set(
                            name.clone(),
                            VariableValue::Literal(text.clone()),
                        ),
                        EvalResult::Boolean(b) => self.variable_storage.set(
                            name.clone(),
                            VariableValue::Boolean(*b),
                        ),
                        _ => {},
                    }
                    let request = match &v {
                        EvalResult::Number(_) | EvalResult::Literal(_) | EvalResult::Boolean(_) => {
                            Request::Proceed
                        },
                        _ => Request::Report(EvalError::UnassignableValue(name.clone())),
                    };
                    self.control = Control::Value(
                        EvalResult::Assignment {
                            identifier: Box::new(EvalResult::Literal(name)),
                            value: Box::new(v),
                        },
                    );
                    request
                },
            },
            Frame::TestLeft => match outcome {
                Err(e) => {
                    self.control = Control::Fail(e);
                    Request::Proceed
                },
                Ok(a) => {
                    self.frames.push(Frame::TestRight(a));
                    self.control = Control::Eval;
                    Request::Proceed
                },
            },
            Frame::TestRight(a) => match outcome {
                Err(e) => {
                    self.control = Control::Fail(e);
                    Request::Proceed
                },
                Ok(b) => {
                    let holds = a.same_as(&b);
                    self.decide_branch(holds)
                },
            },
            Frame::TestValue => match outcome {
                Err(e) => {
                    self.control = Control::Fail(e);
                    Request::Proceed
                },
                Ok(v) => {
                    let holds = matches!(v, EvalResult::Boolean(true));
                    self.decide_branch(holds)
                },
            },
            Frame::Block(k) => {
                if let Err(e) = outcome {
                    self.control = Control::Fail(e);
                    return Request::Proceed;
                }
                let (len, looping, _) = self.owner_facts();
                if k < len {
                    self.frames.push(Frame::Block(k + 1));
                    self.control = Control::Eval;
                } else {
                    match looping {
                        Some(f) => {
                            self.frames.push(f);
                            self.control = Control::Eval;
                        },
                        None => {
                            self.control = Control::Value(EvalResult::EmptyResult);
                        },
                    }
                }
                Request::Proceed
            },
            Frame::Chain => {
                self.control = match outcome {
                    Err(e) => Control::Fail(e),
                    Ok(_) => Control::Value(EvalResult::EmptyResult),
                };
                Request::Proceed
            },
        }
    }

    /// Performs one step of the evaluation of the current statement.
    pub fn step(&mut self) -> (r: Request)
        requires
            old(self).wf(),
        ensures
            final(self).wf(),
            final(self).pending() == old(self).pending(),
            final(self).statement() == old(self).statement(),
            (final(self).state(), r) == transition(old(self).statement(), old(self).state()),
    {
        proof {
            lemma_transition_consistent(self.root, self.state());
        }
        let mut control = Control::Idle;
        std::mem::swap(&mut self.control, &mut control);
        match control {
            Control::Idle => Request::Done(Err(EvalError::EvaluationUnsupported)),
            Control::Await(t) => {
                let request = Request::Compute(t.copy());
                self.control = Control::Await(t);
                request
            },
            Control::Eval => self.start_focus(),
            Control::Value(v) => self.deliver_outcome(Ok(v)),
            Control::Fail(e) => self.deliver_outcome(Err(e)),
        }
    }
}

} // verus!
