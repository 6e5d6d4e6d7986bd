use vstd::prelude::*;
use crate::ast::{
    BlockStatement, BreakStatement, ContinueStatement, ForStatement, IfStatement,
    ReturnStatement, Statement, WhileStatement,
};
use crate::context::{
    declare_in, fresh_round, pop_scope, property_of, push_scope, signal, with_env, Binding, CompletionSignal, CtxView,
    InterpreterContext,
};
use crate::declare::{declarators_ok, declarators_spec, declare_props, declare_spec, eval_variable_declaration};
use crate::eval::{eval_expression, eval_ok, eval_spec};
use crate::value::{truthy, JSValue};

verus! {

/// How running a statement ends: with the interpreter in a new state (`Done`); in a new
/// state after a loop left early on a `return` or `throw` signal, or after a `for` loop
/// whose test failed, having already settled its own scope (`Left`); when the budget of
/// loop rounds runs out (`OutOfFuel`); or at a fault, where the interpreter cannot go on
/// (`Fault`).
#[verifier::ext_equal]
pub enum Run {
    Done(CtxView),
    Left(CtxView),
    OutOfFuel,
    Fault,
}

/// Whether an expression can be evaluated to a value in the state.
pub open spec fn has_value(st: CtxView, e: crate::ast::Expression) -> bool {
    eval_ok(st.env, e) && eval_spec(st.env, e) is Some
}

/// Running one statement with a budget of `fuel` rounds for each loop.
pub open spec fn run_stmt(st: CtxView, s: Statement, fuel: nat) -> Run
    decreases fuel, s, 0nat,
{
    match s {
        Statement::VariableDeclaration(d) => if declarators_ok(st.env, st.heap, d.kind, d.declarators@) {
            Run::Done(with_env(st, declarators_spec(st.env, st.heap, d.kind, d.declarators@)))
        } else {
            Run::Fault
        },
        Statement::Block(b) => run_block(st, *b, fuel),
        Statement::If(i) => run_if(st, *i, fuel),
        Statement::While(w) => run_while_stmt(st, *w, fuel),
        Statement::For(f) => run_for_stmt(st, *f, fuel),
        Statement::Break(_) => Run::Done(signal(st, Some(CompletionSignal::Break))),
        Statement::Continue(_) => Run::Done(signal(st, Some(CompletionSignal::Continue))),
        Statement::Return(r) => match r.argument {
            Some(e) => if has_value(st, e) {
                Run::Done(
                    signal(st, Some(CompletionSignal::ReturnValue(eval_spec(st.env, e)->0))),
                )
            } else {
                Run::Fault
            },
            None => Run::Done(signal(st, Some(CompletionSignal::Return))),
        },
        Statement::Expression(e) => if eval_ok(st.env, e.expression) {
            Run::Done(st)
        } else {
            Run::Fault
        },
    }
}

/// Running a block in its own scope.
pub open spec fn run_block(st: CtxView, b: BlockStatement, fuel: nat) -> Run
    decreases fuel, b, 0nat,
{
    proof {
        assert(decreases_to!(b => b.body));
        assert(decreases_to!(b.body => b.body@));
    }
    match run_stmts(push_scope(st), b.body@, fuel) {
        Run::Done(s1) => Run::Done(pop_scope(s1)),
        other => other,
    }
}

/// Running an `if`: the test must have a value; the branch it picks runs in its own scope.
pub open spec fn run_if(st: CtxView, i: IfStatement, fuel: nat) -> Run
    decreases fuel, i, 0nat,
{
    if !has_value(st, i.test) {
        Run::Fault
    } else if truthy(eval_spec(st.env, i.test)->0) {
        match run_stmt(push_scope(st), i.consequent, fuel) {
            Run::Done(s1) => Run::Done(pop_scope(s1)),
            other => other,
        }
    } else {
        match i.alternate {
            Some(alt) => match run_stmt(push_scope(st), alt, fuel) {
                Run::Done(s1) => Run::Done(pop_scope(s1)),
                other => other,
            },
            None => Run::Done(st),
        }
    }
}

/// Running a `while` statement: its rounds in a scope of its own, closed at the end unless
/// the loop was left early.
pub open spec fn run_while_stmt(st: CtxView, w: WhileStatement, fuel: nat) -> Run
    decreases fuel, w, 1nat,
{
    match run_while(push_scope(st), w, fuel) {
        Run::Done(s1) => Run::Done(pop_scope(s1)),
        Run::Left(s1) => Run::Done(s1),
        other => other,
    }
}

/// Running a `for` statement, which may not have an initialiser (the interpreter does not
/// run one yet): its rounds in a scope of its own, closed at the end unless the loop
/// settled it itself.
pub open spec fn run_for_stmt(st: CtxView, f: ForStatement, fuel: nat) -> Run
    decreases fuel, f, 2nat,
{
    if f.init is Some {
        Run::Fault
    } else {
        match run_for(push_scope(st), f, fuel) {
            Run::Done(s1) => Run::Done(pop_scope(s1)),
            Run::Left(s1) => Run::Done(s1),
            other => other,
        }
    }
}

/// Running the statements of a block one after another. (A pending signal does not stop
/// the statements that follow; only the loops look at it.)
pub open spec fn run_stmts(st: CtxView, ss: Seq<Statement>, fuel: nat) -> Run
    decreases fuel, ss, 0nat,
{
    if ss.len() == 0 {
        Run::Done(st)
    } else {
        match run_stmt(st, ss[0], fuel) {
            Run::Done(s1) => run_stmts(s1, ss.drop_first(), fuel),
            other => other,
        }
    }
}

/// The rounds of a `while` loop, in its own scope: while the test holds the body runs; a
/// `break` ends the loop, a `continue` goes on with the next round, and a `return` or
/// `throw` leaves it at once.
pub open spec fn run_while(st: CtxView, w: WhileStatement, fuel: nat) -> Run
    decreases fuel, w, 0nat,
{
    if fuel == 0 {
        Run::OutOfFuel
    } else if !has_value(st, w.test) {
        Run::Fault
    } else if !truthy(eval_spec(st.env, w.test)->0) {
        Run::Done(st)
    } else {
        match run_stmt(st, w.body, fuel) {
            Run::Done(s1) => match s1.completion {
                Some(CompletionSignal::Break) => Run::Done(signal(s1, None)),
                Some(CompletionSignal::Continue) => run_while(
                    signal(s1, None),
                    w,
                    (fuel - 1) as nat,
                ),
                Some(_) => Run::Left(s1),
                None => run_while(s1, w, (fuel - 1) as nat),
            },
            other => other,
        }
    }
}

/// The rounds of a `for` loop, in its own scope, each with a fresh scope for its
/// declarations: a test that cannot be evaluated closes the loop's scope and ends it; a
/// false test ends it; else the body runs, then, unless it signalled, the update.
pub open spec fn run_for(st: CtxView, f: ForStatement, fuel: nat) -> Run
    decreases fuel, f, 1nat,
{
    if fuel == 0 {
        Run::OutOfFuel
    } else {
        let s0 = fresh_round(st);
        match f.test {
            Some(t) => if !eval_ok(s0.env, t) {
                Run::Fault
            } else if eval_spec(s0.env, t) is None {
                Run::Left(pop_scope(s0))
            } else if !truthy(eval_spec(s0.env, t)->0) {
                Run::Done(s0)
            } else {
                run_for_body(s0, f, fuel)
            },
            None => run_for_body(s0, f, fuel),
        }
    }
}

/// One round of a `for` loop after its test passed.
pub open spec fn run_for_body(s0: CtxView, f: ForStatement, fuel: nat) -> Run
    decreases fuel, f, 0nat,
{
    if fuel == 0 {
        Run::OutOfFuel
    } else {
        match run_stmt(s0, f.body, fuel) {
            Run::Done(s1) => match s1.completion {
                Some(CompletionSignal::Break) => Run::Done(signal(s1, None)),
                Some(CompletionSignal::Continue) => run_for(signal(s1, None), f, (fuel - 1) as nat),
                Some(_) => Run::Left(s1),
                None => match f.update {
                    Some(u) => if eval_ok(s1.env, u) {
                        run_for(s1, f, (fuel - 1) as nat)
                    } else {
                        Run::Fault
                    },
                    None => run_for(s1, f, (fuel - 1) as nat),
                },
            },
            other => other,
        }
    }
}

/// Runs a statement, giving each loop at most `fuel` rounds (see `run_stmt`). Returns
/// `false` when a loop ran out of rounds; the interpreter's state is then left where the
/// loop stopped.
pub fn eval_statement(ctx: &mut InterpreterContext, stmt: &Statement, fuel: u64) -> (r: bool)
    requires
        !(run_stmt(old(ctx)@, *stmt, fuel as nat) is Fault),
    ensures
        r ==> run_stmt(old(ctx)@, *stmt, fuel as nat) == Run::Done(final(ctx)@),
        !r ==> run_stmt(old(ctx)@, *stmt, fuel as nat) is OutOfFuel,
    decreases fuel, *stmt, 0nat,
{
    match stmt {
        Statement::VariableDeclaration(d) => {
            eval_variable_declaration(ctx, d);
            assert(ctx@ =~= with_env(old(ctx)@, declarators_spec(old(ctx)@.env, old(ctx)@.heap, d.kind, d.declarators@)));
            true
        },
        Statement::Block(b) => eval_block(ctx, b, fuel),
        Statement::If(i) => eval_if(ctx, i, fuel),
        Statement::While(w) => eval_while(ctx, w, fuel),
        Statement::For(f) => eval_for(ctx, f, fuel),
        Statement::Break(b) => {
            eval_break(ctx, b);
            true
        },
        Statement::Continue(c) => {
            eval_continue(ctx, c);
            true
        },
        Statement::Return(r) => {
            eval_return(ctx, r);
            true
        },
        Statement::Expression(e) => {
            eval_expression(ctx, &e.expression);
            true
        },
    }
}

/// Runs the statements of a block in a new scope (see `run_block`).
pub fn eval_block(ctx: &mut InterpreterContext, block: &BlockStatement, fuel: u64) -> (r: bool)
    requires
        !(run_block(old(ctx)@, *block, fuel as nat) is Fault),
    ensures
        r ==> run_block(old(ctx)@, *block, fuel as nat) == Run::Done(final(ctx)@),
        !r ==> run_block(old(ctx)@, *block, fuel as nat) is OutOfFuel,
    decreases fuel, *block, 0nat,
{
    let ghost body = block.body@;
    let ghost target = run_stmts(push_scope(old(ctx)@), body, fuel as nat);
    ctx.enter_scope();
    let n = block.body.len();
    let mut i: usize = 0;
    assert(body.skip(0) =~= body);
    while i < n
        invariant
            n == body.len(),
            body == block.body@,
            i <= n,
            run_stmts(ctx@, body.skip(i as int), fuel as nat) == target,
            !(target is Fault),
            target == run_stmts(push_scope(old(ctx)@), body, fuel as nat),
            !(run_block(old(ctx)@, *block, fuel as nat) is Fault),
        decreases n - i,
    {
        let ghost rest = body.skip(i as int);
        assert(rest[0] == body[i as int]);
        assert(rest.drop_first() =~= body.skip(i + 1));
        proof {
            assert(decreases_to!(*block => block.body));
            assert(decreases_to!(block.body => block.body@));
            assert(decreases_to!(block.body@ => block.body@[i as int]));
        }
        if !eval_statement(ctx, &block.body[i], fuel) {
            return false;
        }
        i += 1;
    }
    assert(body.skip(n as int).len() == 0);
    ctx.exit_scope();
    true
}

/// Runs an `if` statement (see `run_if`).
pub fn eval_if(ctx: &mut InterpreterContext, stmt: &IfStatement, fuel: u64) -> (r: bool)
    requires
        !(run_if(old(ctx)@, *stmt, fuel as nat) is Fault),
    ensures
        r ==> run_if(old(ctx)@, *stmt, fuel as nat) == Run::Done(final(ctx)@),
        !r ==> run_if(old(ctx)@, *stmt, fuel as nat) is OutOfFuel,
    decreases fuel, *stmt, 0nat,
{
    let ghost st = ctx@;
    let cond = match eval_expression(ctx, &stmt.test) {
        Some(c) => c,
        None => {
            return false;
        },
    };
    ctx.enter_scope();
    if cond.is_truthy() {
        if !eval_statement(ctx, &stmt.consequent, fuel) {
            return false;
        }
    } else {
        match &stmt.alternate {
            Some(alt) => {
                if !eval_statement(ctx, alt, fuel) {
                    return false;
                }
            },
            None => {
                assert(pop_scope(push_scope(st)) =~= st);
            },
        }
    }
    ctx.exit_scope();
    true
}

/// Runs a `while` statement (see `run_while_stmt`).
pub fn eval_while(ctx: &mut InterpreterContext, stmt: &WhileStatement, fuel: u64) -> (r: bool)
    requires
        !(run_while_stmt(old(ctx)@, *stmt, fuel as nat) is Fault),
    ensures
        r ==> run_while_stmt(old(ctx)@, *stmt, fuel as nat) == Run::Done(final(ctx)@),
        !r ==> run_while_stmt(old(ctx)@, *stmt, fuel as nat) is OutOfFuel,
    decreases fuel, *stmt, 1nat,
{
    ctx.enter_scope();
    let ghost target = run_while(ctx@, *stmt, fuel as nat);
    let mut f = fuel;
    loop
        invariant_except_break
            f <= fuel,
            run_while(ctx@, *stmt, f as nat) == target,
            target == run_while(push_scope(old(ctx)@), *stmt, fuel as nat),
            !(target is Fault),
        ensures
            target == Run::Done(ctx@),
            target == run_while(push_scope(old(ctx)@), *stmt, fuel as nat),
        decreases f,
    {
        if f == 0 {
            return false;
        }
        let cond = match eval_expression(ctx, &stmt.test) {
            Some(c) => c,
            None => {
                return false;
            },
        };
        if !cond.is_truthy() {
            break;
        }
        if !eval_statement(ctx, &stmt.body, f) {
            return false;
        }
        match ctx.completion_signal() {
            Some(CompletionSignal::Break) => {
                ctx.clear_completion_signal();
                break;
            },
            Some(CompletionSignal::Continue) => {
                ctx.clear_completion_signal();
                f = f - 1;
            },
            Some(_) => {
                return true;
            },
            None => {
                f = f - 1;
            },
        }
    }
    ctx.exit_scope();
    true
}

/// Runs a `for` statement without an initialiser (see `run_for_stmt`).
pub fn eval_for(ctx: &mut InterpreterContext, stmt: &ForStatement, fuel: u64) -> (r: bool)
    requires
        !(run_for_stmt(old(ctx)@, *stmt, fuel as nat) is Fault),
    ensures
        r ==> run_for_stmt(old(ctx)@, *stmt, fuel as nat) == Run::Done(final(ctx)@),
        !r ==> run_for_stmt(old(ctx)@, *stmt, fuel as nat) is OutOfFuel,
    decreases fuel, *stmt, 2nat,
{
    if stmt.init.is_some() {
        return false;
    }
    ctx.enter_for_scope();
    let ghost target = run_for(ctx@, *stmt, fuel as nat);
    let mut f = fuel;
    loop
        invariant_except_break
            f <= fuel,
            stmt.init is None,
            run_for(ctx@, *stmt, f as nat) == target,
            target == run_for(push_scope(old(ctx)@), *stmt, fuel as nat),
            !(target is Fault),
        ensures
            target == Run::Done(ctx@),
            target == run_for(push_scope(old(ctx)@), *stmt, fuel as nat),
        decreases f,
    {
        if f == 0 {
            return false;
        }
        ctx.loop_scope();
        match &stmt.test {
            Some(test) => {
                match eval_expression(ctx, test) {
                    Some(cond) => {
                        if !cond.is_truthy() {
                            break;
                        }
                    },
                    None => {
                        ctx.exit_for_scope();
                        return true;
                    },
                }
            },
            None => {},
        }
        if !eval_statement(ctx, &stmt.body, f) {
            return false;
        }
        match ctx.completion_signal() {
            Some(CompletionSignal::Break) => {
                ctx.clear_completion_signal();
                break;
            },
            Some(CompletionSignal::Continue) => {
                ctx.clear_completion_signal();
                f = f - 1;
            },
            Some(_) => {
                return true;
            },
            None => {
                match &stmt.update {
                    Some(update) => {
                        eval_expression(ctx, update);
                    },
                    None => {},
                }
                f = f - 1;
            },
        }
    }
    ctx.exit_for_scope();
    true
}

/// `break`: signals it.
pub fn eval_break(ctx: &mut InterpreterContext, stmt: &BreakStatement)
    ensures
        final(ctx)@ == signal(old(ctx)@, Some(CompletionSignal::Break)),
{
    ctx.termination_break()
}

/// `continue`: signals it.
pub fn eval_continue(ctx: &mut InterpreterContext, stmt: &ContinueStatement)
    ensures
        final(ctx)@ == signal(old(ctx)@, Some(CompletionSignal::Continue)),
{
    ctx.termination_continue()
}

/// `return`: signals it, with the value of its argument when it has one, which must
/// evaluate to a value.
pub fn eval_return(ctx: &mut InterpreterContext, stmt: &ReturnStatement)
    requires
        stmt.argument matches Some(e) ==> has_value(old(ctx)@, e),
    ensures
        final(ctx)@ == signal(
            old(ctx)@,
            Some(
                match stmt.argument {
                    Some(e) => CompletionSignal::ReturnValue(eval_spec(old(ctx)@.env, e)->0),
                    None => CompletionSignal::Return,
                },
            ),
        ),
{
    let val: Option<JSValue> = match &stmt.argument {
        Some(e) => eval_expression(ctx, e),
        None => None,
    };
    ctx.termination_return(&val);
}

/// A `while` loop whose test is false from the start changes nothing: its scope is opened
/// and closed again.
pub proof fn law_while_false_is_noop(st: CtxView, w: WhileStatement, fuel: nat)
    requires
        fuel > 0,
        has_value(push_scope(st), w.test),
        !truthy(eval_spec(push_scope(st).env, w.test)->0),
    ensures
        run_while_stmt(st, w, fuel) == Run::Done(st),
{
    assert(pop_scope(push_scope(st)) =~= st);
}

/// Binding a pattern changes only the innermost scope.
proof fn lemma_declare_inner(
    env: Seq<Seq<Binding>>,
    heap: Seq<Seq<(String, JSValue)>>,
    kind: crate::common::DeclarationKind,
    p: crate::ast::Pattern,
    v: JSValue,
)
    requires
        env.len() > 0,
    ensures
        declare_spec(env, heap, kind, p, v).0.len() == env.len(),
        declare_spec(env, heap, kind, p, v).0.drop_last() == env.drop_last(),
    decreases p,
{
    match p {
        crate::ast::Pattern::Identifier(id) => {
            let e1 = declare_spec(env, heap, kind, p, v).0;
            assert(e1.drop_last() =~= env.drop_last());
        },
        crate::ast::Pattern::Object(o) => {
            assert(decreases_to!(p => o));
            assert(decreases_to!(o => o.properties));
            assert(decreases_to!(o.properties => o.properties@));
            lemma_declare_props_inner(env, heap, kind, o.properties@, v);
        },
        _ => {},
    }
}

/// Binding the properties of an object pattern changes only the innermost scope.
proof fn lemma_declare_props_inner(
    env: Seq<Seq<Binding>>,
    heap: Seq<Seq<(String, JSValue)>>,
    kind: crate::common::DeclarationKind,
    props: Seq<crate::ast::PropertyPattern>,
    v: JSValue,
)
    requires
        env.len() > 0,
    ensures
        declare_props(env, heap, kind, props, v).0.len() == env.len(),
        declare_props(env, heap, kind, props, v).0.drop_last() == env.drop_last(),
    decreases props,
{
    if props.len() > 0 {
        match props[0] {
            crate::ast::PropertyPattern::KeyValue(k, q) => {
                match property_of(heap, v, k.id@) {
                    Some(pv) => {
                        assert(decreases_to!(props => props[0]));
                        lemma_declare_inner(env, heap, kind, q, pv);
                        let e1 = declare_spec(env, heap, kind, q, pv).0;
                        lemma_declare_props_inner(e1, heap, kind, props.drop_first(), v);
                    },
                    None => {},
                }
            },
            crate::ast::PropertyPattern::Shorthand(k) => {
                match property_of(heap, v, k.id@) {
                    Some(pv) => {
                        let e1 = declare_in(env, k.id, pv, kind == crate::common::DeclarationKind::Let).0;
                        assert(e1.drop_last() =~= env.drop_last());
                        lemma_declare_props_inner(e1, heap, kind, props.drop_first(), v);
                    },
                    None => {},
                }
            },
            _ => {},
        }
    }
}

/// Declaring changes only the innermost scope.
proof fn lemma_declarators_inner(
    env: Seq<Seq<Binding>>,
    heap: Seq<Seq<(String, JSValue)>>,
    kind: crate::common::DeclarationKind,
    ds: Seq<crate::ast::VariableDeclarator>,
)
    requires
        env.len() > 0,
    ensures
        declarators_spec(env, heap, kind, ds).len() == env.len(),
        declarators_spec(env, heap, kind, ds).drop_last() == env.drop_last(),
    decreases ds.len(),
{
    if ds.len() > 0 {
        let v = crate::declare::init_value(env, ds[0])->0;
        lemma_declare_inner(env, heap, kind, ds[0].binding, v);
        let e1 = declare_spec(env, heap, kind, ds[0].binding, v).0;
        lemma_declarators_inner(e1, heap, kind, ds.drop_first());
    }
}

/// A block's declarations do not outlive it: a block that only declares leaves the state
/// as it found it.
pub proof fn law_block_declarations_vanish(st: CtxView, b: BlockStatement, d: Box<crate::ast::VariableDeclaration>, fuel: nat)
    requires
        b.body@ == seq![Statement::VariableDeclaration(d)],
        declarators_ok(push_scope(st).env, st.heap, d.kind, d.declarators@),
    ensures
        run_block(st, b, fuel) == Run::Done(st),
{
    let inner = push_scope(st);
    lemma_declarators_inner(inner.env, inner.heap, d.kind, d.declarators@);
    let ss = b.body@;
    assert(ss.drop_first().len() == 0);
    let s1 = with_env(inner, declarators_spec(inner.env, inner.heap, d.kind, d.declarators@));
    assert(run_stmts(inner, ss, fuel) == Run::Done(s1));
    assert(pop_scope(s1) =~= st);
}

/// The expression `true`.
pub open spec fn true_literal() -> crate::ast::Expression {
    crate::ast::Expression::Literal(
        crate::lexical::Literal::Boolean(crate::lexical::BooleanLiteral(true)),
    )
}

/// `continue` goes on with the next round: a loop whose test always holds and whose body is
/// `continue` never ends, and spends every round it is given, from any state.
pub proof fn law_continue_runs_next_round(st: CtxView, fuel: nat)
    ensures
        run_while_stmt(
            st,
            WhileStatement {
                test: true_literal(),
                body: Statement::Continue(ContinueStatement {}),
            },
            fuel,
        ) is OutOfFuel,
{
    lemma_continue_loop(push_scope(st), fuel);
}

proof fn lemma_continue_loop(st: CtxView, fuel: nat)
    ensures
        run_while(
            st,
            WhileStatement {
                test: true_literal(),
                body: Statement::Continue(ContinueStatement {}),
            },
            fuel,
        ) is OutOfFuel,
    decreases fuel,
{
    if fuel > 0 {
        let w = WhileStatement {
            test: true_literal(),
            body: Statement::Continue(ContinueStatement {}),
        };
        assert(eval_spec(st.env, w.test) == Some(JSValue::Boolean(crate::value::JSBoolean(true))));
        assert(has_value(st, w.test));
        let s1 = signal(st, Some(CompletionSignal::Continue));
        assert(run_stmt(st, w.body, fuel) == Run::Done(s1));
        lemma_continue_loop(signal(s1, None), (fuel - 1) as nat);
    }
}

/// `break` ends the loop at once: a loop whose test holds and whose body is `break` finishes
/// after one round with no signal pending and its scope closed, whatever the budget (of at
/// least one round).
pub proof fn law_break_ends_loop(st: CtxView, fuel: nat)
    requires
        fuel > 0,
    ensures
        run_while_stmt(
            st,
            WhileStatement {
                test: true_literal(),
                body: Statement::Break(BreakStatement {}),
            },
            fuel,
        ) == Run::Done(signal(st, None)),
{
    let w = WhileStatement { test: true_literal(), body: Statement::Break(BreakStatement {}) };
    let s0 = push_scope(st);
    assert(eval_spec(s0.env, w.test) == Some(JSValue::Boolean(crate::value::JSBoolean(true))));
    assert(has_value(s0, w.test));
    assert(run_stmt(s0, w.body, fuel) == Run::Done(signal(s0, Some(CompletionSignal::Break))));
    assert(pop_scope(signal(signal(s0, Some(CompletionSignal::Break)), None)) =~= signal(st, None));
}

/// `continue` in a `for` loop goes on with the next round too: `for (;;) continue;` never
/// ends, and spends every round it is given, from any state.
pub proof fn law_for_continue_runs_next_round(st: CtxView, kind: crate::common::DeclarationKind, fuel: nat)
    ensures
        run_for_stmt(
            st,
            ForStatement {
                kind,
                init: None,
                test: None,
                update: None,
                body: Statement::Continue(ContinueStatement {}),
            },
            fuel,
        ) is OutOfFuel,
{
    lemma_for_continue_loop(push_scope(st), kind, fuel);
}

proof fn lemma_for_continue_loop(st: CtxView, kind: crate::common::DeclarationKind, fuel: nat)
    ensures
        run_for(
            st,
            ForStatement {
                kind,
                init: None,
                test: None,
                update: None,
                body: Statement::Continue(ContinueStatement {}),
            },
            fuel,
        ) is OutOfFuel,
    decreases fuel,
{
    if fuel > 0 {
        let f = ForStatement {
            kind,
            init: None,
            test: None,
            update: None,
            body: Statement::Continue(ContinueStatement {}),
        };
        let s0 = fresh_round(st);
        let s1 = signal(s0, Some(CompletionSignal::Continue));
        assert(run_stmt(s0, f.body, fuel) == Run::Done(s1));
        lemma_for_continue_loop(signal(s1, None), kind, (fuel - 1) as nat);
    }
}

/// The expression `false`.
pub open spec fn false_literal() -> crate::ast::Expression {
    crate::ast::Expression::Literal(
        crate::lexical::Literal::Boolean(crate::lexical::BooleanLiteral(false)),
    )
}

/// `if` runs the branch its test picks: `if (true) break; else continue;` signals `break`,
/// `if (false) break; else continue;` signals `continue`, and `if (false) break;` changes
/// nothing, from any state.
pub proof fn law_if_picks_branch(st: CtxView, fuel: nat)
    ensures
        run_if(
            st,
            IfStatement {
                test: true_literal(),
                consequent: Statement::Break(BreakStatement {}),
                alternate: Some(Statement::Continue(ContinueStatement {})),
            },
            fuel,
        ) == Run::Done(signal(st, Some(CompletionSignal::Break))),
        run_if(
            st,
            IfStatement {
                test: false_literal(),
                consequent: Statement::Break(BreakStatement {}),
                alternate: Some(Statement::Continue(ContinueStatement {})),
            },
            fuel,
        ) == Run::Done(signal(st, Some(CompletionSignal::Continue))),
        run_if(
            st,
            IfStatement {
                test: false_literal(),
                consequent: Statement::Break(BreakStatement {}),
                alternate: None,
            },
            fuel,
        ) == Run::Done(st),
{
    let s0 = push_scope(st);
    assert(eval_spec(st.env, true_literal()) == Some(JSValue::Boolean(crate::value::JSBoolean(true))));
    assert(eval_spec(st.env, false_literal()) == Some(JSValue::Boolean(crate::value::JSBoolean(false))));
    assert(pop_scope(signal(s0, Some(CompletionSignal::Break))) =~= signal(st, Some(CompletionSignal::Break)));
    assert(pop_scope(signal(s0, Some(CompletionSignal::Continue))) =~= signal(st, Some(CompletionSignal::Continue)));
}

} // verus!
