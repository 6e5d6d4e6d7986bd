use vstd::prelude::*;
use crate::ast::{
    BlockStatement, Expression, Pattern, Statement, VariableDeclaration,
};

verus! {

/// The names in a list of strings.
pub open spec fn names(v: Seq<String>) -> Set<Seq<char>> {
    v.map_values(|s: String| s@).to_set()
}

/// The variables an expression reads.
pub open spec fn used_vars(e: Expression) -> Set<Seq<char>>
    decreases e,
{
    match e {
        Expression::Literal(_) => Set::empty(),
        Expression::Variable(id) => set![id.id@],
        Expression::Binary(b) => used_vars(b.left) + used_vars(b.right),
        Expression::Unary(u) => used_vars(u.operand),
        Expression::Logical(l) => used_vars(l.left) + used_vars(l.right),
        Expression::Conditional(c) => used_vars(c.test) + used_vars(c.consequent) + used_vars(
            c.alternate,
        ),
        Expression::Parenthesized(x) => used_vars(*x),
    }
}

/// The variables an optional expression reads.
pub open spec fn used_opt(e: Option<Expression>) -> Set<Seq<char>> {
    match e {
        Some(x) => used_vars(x),
        None => Set::empty(),
    }
}

/// The names a declaration introduces: those of its declarators that bind a plain name.
pub open spec fn declared_names(ds: Seq<crate::ast::VariableDeclarator>) -> Set<Seq<char>>
    decreases ds.len(),
{
    if ds.len() == 0 {
        Set::empty()
    } else {
        let rest = declared_names(ds.drop_last());
        match ds.last().binding {
            Pattern::Identifier(id) => rest.insert(id.id@),
            _ => rest,
        }
    }
}

/// The names a statement adds to the ones bound for the statements after it.
pub open spec fn binds(s: Statement) -> Set<Seq<char>> {
    match s {
        Statement::VariableDeclaration(d) => declared_names(d.declarators@),
        _ => Set::empty(),
    }
}

/// The free variables of a statement: the variables it reads that are not in `bound`. A
/// declaration reads nothing here; the statements of a block see the names declared before
/// them in it.
pub open spec fn free_stmt(bound: Set<Seq<char>>, s: Statement) -> Set<Seq<char>>
    decreases s, 0nat,
{
    match s {
        Statement::VariableDeclaration(_) => Set::empty(),
        Statement::Block(b) => {
            proof {
                assert(decreases_to!(s => b));
                assert(decreases_to!(b => b.body));
                assert(decreases_to!(b.body => b.body@));
            }
            free_stmts(bound, b.body@)
        },
        Statement::If(i) => (used_vars(i.test) - bound) + free_stmt(bound, i.consequent) + match i.alternate {
            Some(a) => free_stmt(bound, a),
            None => Set::empty(),
        },
        Statement::While(w) => (used_vars(w.test) - bound) + free_stmt(bound, w.body),
        Statement::For(f) => ((used_opt(f.test) + used_opt(f.update)) - bound) + free_stmt(
            bound,
            f.body,
        ),
        Statement::Break(_) => Set::empty(),
        Statement::Continue(_) => Set::empty(),
        Statement::Return(r) => used_opt(r.argument) - bound,
        Statement::Expression(e) => used_vars(e.expression) - bound,
    }
}

/// The free variables of a list of statements, each seeing the names declared before it.
pub open spec fn free_stmts(bound: Set<Seq<char>>, ss: Seq<Statement>) -> Set<Seq<char>>
    decreases ss, 0nat,
{
    if ss.len() == 0 {
        Set::empty()
    } else {
        free_stmt(bound, ss[0]) + free_stmts(bound + binds(ss[0]), ss.drop_first())
    }
}

proof fn lemma_names_push(v: Seq<String>, s: String)
    ensures
        names(v.push(s)) == names(v).insert(s@),
{
    let f = |x: String| x@;
    assert(v.push(s).map_values(f) =~= v.map_values(f).push(s@));
    v.map_values(f).lemma_push_to_set_commute(s@);
}

proof fn lemma_names_contains(v: Seq<String>, k: Seq<char>)
    ensures
        names(v).contains(k) <==> exists|i: int| 0 <= i < v.len() && #[trigger] v[i]@ == k,
{
    let f = |x: String| x@;
    let m = v.map_values(f);
    if names(v).contains(k) {
        assert(m.contains(k));
        let i = choose|i: int| 0 <= i < m.len() && m[i] == k;
        assert(v[i]@ == k);
    }
    if exists|i: int| 0 <= i < v.len() && #[trigger] v[i]@ == k {
        let i = choose|i: int| 0 <= i < v.len() && #[trigger] v[i]@ == k;
        assert(m[i] == k);
        assert(m.contains(k));
    }
}

/// Whether `v` holds the name `n`.
fn has_name(v: &Vec<String>, n: &String) -> (r: bool)
    ensures
        r == names(v@).contains(n@),
{
    proof {
        lemma_names_contains(v@, n@);
    }
    let mut i: usize = 0;
    while i < v.len()
        invariant
            i <= v@.len(),
            forall|j: int| 0 <= j < i ==> v@[j]@ != n@,
            names(v@).contains(n@) <==> exists|j: int| 0 <= j < v@.len() && #[trigger] v@[j]@ == n@,
        decreases v@.len() - i,
    {
        if v[i] == *n {
            return true;
        }
        i += 1;
    }
    false
}

/// Adds the names of `used` that are not in `bound` to `out`.
fn add_unbound(out: &mut Vec<String>, bound: &Vec<String>, used: &Vec<String>)
    ensures
        names(final(out)@) == names(old(out)@) + (names(used@) - names(bound@)),
{
    let mut i: usize = 0;
    while i < used.len()
        invariant
            i <= used@.len(),
            names(out@) == names(old(out)@) + (names(used@.take(i as int)) - names(bound@)),
        decreases used@.len() - i,
    {
        let ghost before = out@;
        proof {
            assert(used@.take(i + 1) =~= used@.take(i as int).push(used@[i as int]));
            lemma_names_push(used@.take(i as int), used@[i as int]);
        }
        if !has_name(bound, &used[i]) {
            out.push(used[i].clone());
            proof {
                lemma_names_push(before, used@[i as int]);
            }
        }
        i += 1;
        proof {
            assert(names(out@) =~= names(old(out)@) + (names(used@.take(i as int)) - names(bound@)));
        }
    }
    assert(used@.take(used@.len() as int) =~= used@);
}

/// Appends to `out` the variables the expression reads.
fn collect_used(expr: &Expression, out: &mut Vec<String>)
    ensures
        names(final(out)@) == names(old(out)@) + used_vars(*expr),
    decreases *expr,
{
    let ghost o = out@;
    match expr {
        Expression::Literal(_) => {
            assert(names(out@) =~= names(o) + used_vars(*expr));
        },
        Expression::Variable(id) => {
            out.push(id.id.clone());
            proof {
                lemma_names_push(o, id.id);
                assert(names(out@) =~= names(o) + used_vars(*expr));
            }
        },
        Expression::Binary(b) => {
            collect_used(&b.left, out);
            collect_used(&b.right, out);
            assert(names(out@) =~= names(o) + used_vars(*expr));
        },
        Expression::Unary(u) => {
            collect_used(&u.operand, out);
        },
        Expression::Logical(l) => {
            collect_used(&l.left, out);
            collect_used(&l.right, out);
            assert(names(out@) =~= names(o) + used_vars(*expr));
        },
        Expression::Conditional(c) => {
            collect_used(&c.test, out);
            collect_used(&c.consequent, out);
            collect_used(&c.alternate, out);
            assert(names(out@) =~= names(o) + used_vars(*expr));
        },
        Expression::Parenthesized(x) => {
            collect_used(x, out);
        },
    }
}

/// The variables an expression reads (see `used_vars`), each at least once.
pub fn used_variable_expression(expr: &Expression) -> (r: Vec<String>)
    ensures
        names(r@) == used_vars(*expr),
{
    let mut out: Vec<String> = Vec::new();
    assert(names(out@) =~= Set::<Seq<char>>::empty());
    collect_used(expr, &mut out);
    assert(names(out@) =~= used_vars(*expr));
    out
}

/// Appends to `out` the variables the optional expression reads that are not in `bound`.
fn add_free_opt(out: &mut Vec<String>, bound: &Vec<String>, e: &Option<Expression>)
    ensures
        names(final(out)@) == names(old(out)@) + (used_opt(*e) - names(bound@)),
{
    match e {
        Some(x) => {
            let used = used_variable_expression(x);
            add_unbound(out, bound, &used);
        },
        None => {
            assert(names(out@) =~= names(out@) + (used_opt(*e) - names(bound@)));
        },
    }
}

/// Adds the names a declaration introduces to `bound`.
fn bind_declared(bound: &mut Vec<String>, d: &VariableDeclaration)
    ensures
        names(final(bound)@) == names(old(bound)@) + declared_names(d.declarators@),
        final(bound)@.len() >= old(bound)@.len(),
        final(bound)@.take(old(bound)@.len() as int) == old(bound)@,
{
    let ghost ds = d.declarators@;
    let mut i: usize = 0;
    assert(bound@.take(bound@.len() as int) =~= bound@);
    while i < d.declarators.len()
        invariant
            ds == d.declarators@,
            i <= ds.len(),
            names(bound@) == names(old(bound)@) + declared_names(ds.take(i as int)),
            bound@.len() >= old(bound)@.len(),
            bound@.take(old(bound)@.len() as int) == old(bound)@,
        decreases ds.len() - i,
    {
        let ghost before = bound@;
        let ghost t = ds.take(i + 1);
        assert(t.drop_last() =~= ds.take(i as int));
        assert(t.last() == ds[i as int]);
        match &d.declarators[i].binding {
            Pattern::Identifier(id) => {
                bound.push(id.id.clone());
                proof {
                    lemma_names_push(before, id.id);
                    assert(bound@.take(old(bound)@.len() as int) =~= old(bound)@) by {
                        assert forall|t: int| 0 <= t < old(bound)@.len() implies #[trigger] bound@.take(old(bound)@.len() as int)[t] == old(bound)@[t] by {
                            assert(before.take(old(bound)@.len() as int)[t] == old(bound)@[t]);
                        }
                    }
                }
            },
            _ => {},
        }
        i += 1;
        assert(names(bound@) =~= names(old(bound)@) + declared_names(ds.take(i as int)));
    }
    assert(ds.take(ds.len() as int) =~= ds);
}

/// Appends to `out` the free variables of a statement (see `free_stmt`); `bound` is left
/// as it was.
fn collect_free_stmt(bound: &mut Vec<String>, s: &Statement, out: &mut Vec<String>)
    ensures
        final(bound)@ == old(bound)@,
        names(final(out)@) == names(old(out)@) + free_stmt(names(old(bound)@), *s),
    decreases *s, 0nat,
{
    let ghost o = out@;
    let ghost b0 = names(bound@);
    match s {
        Statement::VariableDeclaration(_) => {
            assert(names(out@) =~= names(o) + free_stmt(b0, *s));
        },
        Statement::Block(b) => {
            proof {
                assert(decreases_to!(*s => **b));
            }
            collect_free_block(bound, b, out);
        },
        Statement::If(i) => {
            let used = used_variable_expression(&i.test);
            add_unbound(out, bound, &used);
            collect_free_stmt(bound, &i.consequent, out);
            match &i.alternate {
                Some(a) => {
                    collect_free_stmt(bound, a, out);
                },
                None => {},
            }
            assert(names(out@) =~= names(o) + free_stmt(b0, *s));
        },
        Statement::While(w) => {
            let used = used_variable_expression(&w.test);
            add_unbound(out, bound, &used);
            collect_free_stmt(bound, &w.body, out);
            assert(names(out@) =~= names(o) + free_stmt(b0, *s));
        },
        Statement::For(f) => {
            add_free_opt(out, bound, &f.test);
            add_free_opt(out, bound, &f.update);
            collect_free_stmt(bound, &f.body, out);
            assert(names(out@) =~= names(o) + free_stmt(b0, *s));
        },
        Statement::Break(_) => {
            assert(names(out@) =~= names(o) + free_stmt(b0, *s));
        },
        Statement::Continue(_) => {
            assert(names(out@) =~= names(o) + free_stmt(b0, *s));
        },
        Statement::Return(r) => {
            add_free_opt(out, bound, &r.argument);
        },
        Statement::Expression(e) => {
            let used = used_variable_expression(&e.expression);
            add_unbound(out, bound, &used);
        },
    }
}

/// Appends to `out` the free variables of a block (see `free_stmts`): each statement sees
/// the names declared before it in the block; `bound` is left as it was.
fn collect_free_block(bound: &mut Vec<String>, block: &BlockStatement, out: &mut Vec<String>)
    ensures
        final(bound)@ == old(bound)@,
        names(final(out)@) == names(old(out)@) + free_stmts(names(old(bound)@), block.body@),
    decreases *block, 1nat,
{
    let ghost body = block.body@;
    let ghost b0 = bound@;
    let ghost o = out@;
    let n0 = bound.len();
    let mut i: usize = 0;
    assert(body.skip(0) =~= body);
    while i < block.body.len()
        invariant
            body == block.body@,
            i <= body.len(),
            n0 == b0.len(),
            bound@.len() >= n0,
            bound@.take(n0 as int) == b0,
            names(o) + free_stmts(names(b0), body) == names(out@) + free_stmts(
                names(bound@),
                body.skip(i as int),
            ),
        decreases body.len() - i,
    {
        let ghost rest = body.skip(i as int);
        assert(rest[0] == body[i as int]);
        assert(rest.drop_first() =~= body.skip(i + 1));
        let ghost nb = names(bound@);
        let ghost ob = out@;
        proof {
            assert(decreases_to!(*block => block.body));
            assert(decreases_to!(block.body => block.body@));
            assert(decreases_to!(block.body@ => block.body@[i as int]));
        }
        collect_free_stmt(bound, &block.body[i], out);
        let ghost bb = bound@;
        match &block.body[i] {
            Statement::VariableDeclaration(d) => {
                bind_declared(bound, d);
            },
            _ => {
                assert(names(bound@) =~= names(bb) + binds(body[i as int]));
            },
        }
        proof {
            assert(bound@.take(n0 as int) =~= b0) by {
                assert forall|t: int| 0 <= t < n0 implies #[trigger] bound@.take(n0 as int)[t] == b0[t] by {
                    assert(bb.take(n0 as int)[t] == b0[t]);
                    assert(bound@.take(bb.len() as int)[t] == bb[t]);
                }
            }
            assert(names(ob) + free_stmts(nb, rest) =~= names(out@) + free_stmts(
                names(bound@),
                body.skip(i + 1),
            ));
        }
        i += 1;
    }
    bound.truncate(n0);
    assert(bound@ =~= b0);
    assert(body.skip(body.len() as int).len() == 0);
    assert(names(out@) =~= names(o) + free_stmts(names(b0), body));
}

/// The free variables of a block, given the names already bound around it (see
/// `free_stmts`), each at least once.
pub fn free_variable_block_statement(bound: &Vec<String>, block: &BlockStatement) -> (r: Vec<String>)
    ensures
        names(r@) == free_stmts(names(bound@), block.body@),
{
    let mut b: Vec<String> = Vec::new();
    let mut i: usize = 0;
    while i < bound.len()
        invariant
            i <= bound@.len(),
            b@.len() == i,
            forall|j: int| 0 <= j < i ==> b@[j] == bound@[j],
        decreases bound@.len() - i,
    {
        b.push(bound[i].clone());
        i += 1;
    }
    assert(b@ =~= bound@);
    let mut out: Vec<String> = Vec::new();
    assert(names(out@) =~= Set::<Seq<char>>::empty());
    collect_free_block(&mut b, block, &mut out);
    assert(names(out@) =~= free_stmts(names(bound@), block.body@));
    out
}

/// Every variable an expression's parts read, the expression reads: a variable reads itself,
/// and each operator reads what its operands read.
pub proof fn law_used_includes_parts(e: Expression)
    ensures
        e matches Expression::Variable(id) ==> used_vars(e).contains(id.id@),
        e matches Expression::Literal(_) ==> used_vars(e).is_empty(),
        e matches Expression::Binary(b) ==> used_vars(b.left).subset_of(used_vars(e))
            && used_vars(b.right).subset_of(used_vars(e)),
        e matches Expression::Logical(l) ==> used_vars(l.left).subset_of(used_vars(e))
            && used_vars(l.right).subset_of(used_vars(e)),
        e matches Expression::Unary(u) ==> used_vars(u.operand).subset_of(used_vars(e)),
        e matches Expression::Conditional(c) ==> used_vars(c.test).subset_of(used_vars(e))
            && used_vars(c.consequent).subset_of(used_vars(e)) && used_vars(c.alternate).subset_of(
            used_vars(e),
        ),
        e matches Expression::Parenthesized(x) ==> used_vars(*x).subset_of(used_vars(e)),
{
}

/// Every free variable of a part of a statement is free in the statement: what its test
/// reads that is not bound, and the free variables of each branch or body, and of the first
/// statement of a block.
pub proof fn law_free_includes_parts(bound: Set<Seq<char>>, s: Statement)
    ensures
        s matches Statement::If(i) ==> {
            &&& (used_vars(i.test) - bound).subset_of(free_stmt(bound, s))
            &&& free_stmt(bound, i.consequent).subset_of(free_stmt(bound, s))
            &&& (i.alternate matches Some(a) ==> free_stmt(bound, a).subset_of(free_stmt(bound, s)))
        },
        s matches Statement::While(w) ==> (used_vars(w.test) - bound).subset_of(free_stmt(bound, s))
            && free_stmt(bound, w.body).subset_of(free_stmt(bound, s)),
        s matches Statement::For(f) ==> (used_opt(f.test) - bound).subset_of(free_stmt(bound, s))
            && (used_opt(f.update) - bound).subset_of(free_stmt(bound, s)) && free_stmt(
            bound,
            f.body,
        ).subset_of(free_stmt(bound, s)),
        s matches Statement::Return(r) ==> (used_opt(r.argument) - bound).subset_of(
            free_stmt(bound, s),
        ),
        s matches Statement::Expression(x) ==> (used_vars(x.expression) - bound).subset_of(
            free_stmt(bound, s),
        ),
        s matches Statement::Block(b) ==> (b.body@.len() > 0 ==> free_stmt(
            bound,
            b.body@[0],
        ).subset_of(free_stmt(bound, s))),
{
    if let Statement::Block(b) = s {
        if b.body@.len() > 0 {
            assert(free_stmt(bound, s) == free_stmts(bound, b.body@));
            assert(free_stmts(bound, b.body@) == free_stmt(bound, b.body@[0]) + free_stmts(
                bound + binds(b.body@[0]),
                b.body@.drop_first(),
            ));
        }
    }
}

/// No bound name is free: the free variables of a statement lie outside `bound`.
pub proof fn law_free_not_bound(bound: Set<Seq<char>>, s: Statement, x: Seq<char>)
    requires
        bound.contains(x),
    ensures
        !free_stmt(bound, s).contains(x),
    decreases s, 1nat,
{
    match s {
        Statement::Block(b) => {
            assert(decreases_to!(s => b));
            assert(decreases_to!(b => b.body));
            assert(decreases_to!(b.body => b.body@));
            lemma_free_stmts_not_bound(bound, b.body@, x);
        },
        Statement::If(i) => {
            law_free_not_bound(bound, i.consequent, x);
            if let Some(a) = i.alternate {
                law_free_not_bound(bound, a, x);
            }
        },
        Statement::While(w) => {
            law_free_not_bound(bound, w.body, x);
        },
        Statement::For(f) => {
            law_free_not_bound(bound, f.body, x);
        },
        _ => {},
    }
}

proof fn lemma_free_stmts_not_bound(bound: Set<Seq<char>>, ss: Seq<Statement>, x: Seq<char>)
    requires
        bound.contains(x),
    ensures
        !free_stmts(bound, ss).contains(x),
    decreases ss, 1nat,
{
    if ss.len() > 0 {
        law_free_not_bound(bound, ss[0], x);
        lemma_free_stmts_not_bound(bound + binds(ss[0]), ss.drop_first(), x);
    }
}

/// A name declared in a block is bound for the statements after the declaration: reading it
/// there does not make it free in the block.
pub proof fn law_declared_then_read_is_bound(
    bound: Set<Seq<char>>,
    d: crate::ast::VariableDeclaration,
    rest: Seq<Statement>,
    x: Seq<char>,
)
    requires
        declared_names(d.declarators@).contains(x),
        !bound.contains(x),
    ensures
        !free_stmts(bound, seq![Statement::VariableDeclaration(Box::new(d))] + rest).contains(x),
{
    let ss = seq![Statement::VariableDeclaration(Box::new(d))] + rest;
    assert(ss.drop_first() =~= rest);
    assert(ss[0] == Statement::VariableDeclaration(Box::new(d)));
    assert(binds(ss[0]) == declared_names(d.declarators@));
    assert((bound + binds(ss[0])).contains(x));
    assert(free_stmt(bound, ss[0]) == Set::<Seq<char>>::empty());
    lemma_free_stmts_not_bound(bound + binds(ss[0]), rest, x);
    assert(free_stmts(bound, ss) == free_stmt(bound, ss[0]) + free_stmts(bound + binds(ss[0]), ss.drop_first()));
}

} // verus!
