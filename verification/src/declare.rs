use vstd::prelude::*;
use crate::ast::{ElementPattern, Pattern, PropertyPattern, VariableDeclaration, VariableDeclarator};
use crate::common::DeclarationKind;
use crate::context::{declare_in, property_of, Binding, InterpreterContext};
use crate::eval::{eval_expression, eval_ok, eval_spec};
use crate::lexical::{Identifier, Literal, NumberLiteral};
use crate::value::{JSNumber, JSValue};

verus! {

/// Whether a value equals a literal: the same kind and the same contents.
pub open spec fn literal_matches(v: JSValue, l: Literal) -> bool {
    match (v, l) {
        (JSValue::Undefined, Literal::Undefined) => true,
        (JSValue::Boolean(a), Literal::Boolean(b)) => a.0 == b.0,
        (JSValue::Number(JSNumber::SMI(a)), Literal::Number(NumberLiteral::SMI(b))) => a == b,
        (JSValue::String(a), Literal::String(b)) => a.0@ == b.0@,
        _ => false,
    }
}

/// Whether binding `v` to pattern `p` runs without fault: no rest property is reached in an
/// object pattern, and no array pattern with an element (parts of the interpreter that do
/// not exist yet).
pub open spec fn declare_ok(
    env: Seq<Seq<Binding>>,
    heap: Seq<Seq<(String, JSValue)>>,
    kind: DeclarationKind,
    p: Pattern,
    v: JSValue,
) -> bool
    decreases p,
{
    match p {
        Pattern::Object(o) => {
            proof {
                assert(decreases_to!(p => o));
                assert(decreases_to!(o => o.properties));
                assert(decreases_to!(o.properties => o.properties@));
            }
            props_ok(env, heap, kind, o.properties@, v)
        },
        Pattern::Array(a) => a.elements@.len() == 0,
        _ => true,
    }
}

/// Whether binding the properties `props` of `v` in turn runs without fault.
pub open spec fn props_ok(
    env: Seq<Seq<Binding>>,
    heap: Seq<Seq<(String, JSValue)>>,
    kind: DeclarationKind,
    props: Seq<PropertyPattern>,
    v: JSValue,
) -> bool
    decreases props,
{
    if props.len() == 0 {
        true
    } else {
        match props[0] {
            PropertyPattern::KeyValue(k, q) => match property_of(heap, v, k.id@) {
                None => true,
                Some(pv) => {
                    proof {
                        assert(decreases_to!(props => props[0]));
                    }
                    declare_ok(env, heap, kind, q, pv) && {
                        let (e1, ok) = declare_spec(env, heap, kind, q, pv);
                        !ok || props_ok(e1, heap, kind, props.drop_first(), v)
                    }
                },
            },
            PropertyPattern::Shorthand(k) => match property_of(heap, v, k.id@) {
                None => true,
                Some(pv) => props_ok(
                    declare_in(env, k.id, pv, kind == DeclarationKind::Let).0,
                    heap,
                    kind,
                    props.drop_first(),
                    v,
                ),
            },
            PropertyPattern::Rest(_) => false,
        }
    }
}

/// The scopes after binding `v` to pattern `p`, and whether it matched. A name is declared
/// in the innermost scope (assignable under `let`); a literal matches an equal value; a hole
/// and an empty array pattern match anything; an object pattern reads each property of `v`
/// in turn and binds it to its pattern, failing at the first property `v` does not have or
/// whose pattern does not match (what was bound before stays bound).
pub open spec fn declare_spec(
    env: Seq<Seq<Binding>>,
    heap: Seq<Seq<(String, JSValue)>>,
    kind: DeclarationKind,
    p: Pattern,
    v: JSValue,
) -> (Seq<Seq<Binding>>, bool)
    decreases p,
{
    match p {
        Pattern::Hole => (env, true),
        Pattern::Identifier(id) => declare_in(env, id.id, v, kind == DeclarationKind::Let),
        Pattern::Literal(l) => (env, literal_matches(v, l)),
        Pattern::Object(o) => {
            proof {
                assert(decreases_to!(p => o));
                assert(decreases_to!(o => o.properties));
                assert(decreases_to!(o.properties => o.properties@));
            }
            declare_props(env, heap, kind, o.properties@, v)
        },
        Pattern::Array(_) => (env, true),
    }
}

/// The scopes after binding the properties `props` of `v` in turn, and whether all matched.
pub open spec fn declare_props(
    env: Seq<Seq<Binding>>,
    heap: Seq<Seq<(String, JSValue)>>,
    kind: DeclarationKind,
    props: Seq<PropertyPattern>,
    v: JSValue,
) -> (Seq<Seq<Binding>>, bool)
    decreases props,
{
    if props.len() == 0 {
        (env, true)
    } else {
        match props[0] {
            PropertyPattern::KeyValue(k, q) => match property_of(heap, v, k.id@) {
                None => (env, false),
                Some(pv) => {
                    proof {
                        assert(decreases_to!(props => props[0]));
                    }
                    let (e1, ok) = declare_spec(env, heap, kind, q, pv);
                    if !ok {
                        (e1, false)
                    } else {
                        declare_props(e1, heap, kind, props.drop_first(), v)
                    }
                },
            },
            PropertyPattern::Shorthand(k) => match property_of(heap, v, k.id@) {
                None => (env, false),
                Some(pv) => declare_props(
                    declare_in(env, k.id, pv, kind == DeclarationKind::Let).0,
                    heap,
                    kind,
                    props.drop_first(),
                    v,
                ),
            },
            PropertyPattern::Rest(_) => (env, false),
        }
    }
}

/// Whether `value` equals the literal.
pub fn value_matches_literal(value: &JSValue, lit: &Literal) -> (r: bool)
    ensures
        r == literal_matches(*value, *lit),
{
    match (value, lit) {
        (JSValue::Undefined, Literal::Undefined) => true,
        (JSValue::Boolean(a), Literal::Boolean(b)) => a.0 == b.0,
        (JSValue::Number(JSNumber::SMI(a)), Literal::Number(NumberLiteral::SMI(b))) => *a == *b,
        (JSValue::String(a), Literal::String(b)) => a.0 == b.0,
        _ => false,
    }
}

/// Declares `binding` with `value` (assignable under `let`); always reports a match.
pub fn declare_binding_identifier(
    ctx: &mut InterpreterContext,
    kind: &DeclarationKind,
    binding: &Identifier,
    value: &JSValue,
) -> (r: bool)
    ensures
        r,
        final(ctx)@.env == declare_in(
            old(ctx)@.env,
            binding.id,
            *value,
            *kind == DeclarationKind::Let,
        ).0,
        final(ctx)@.completion == old(ctx)@.completion,
        final(ctx)@.heap == old(ctx)@.heap,
{
    if kind.is_mutable() {
        ctx.declare_mutable_binding(binding, value);
    } else {
        ctx.declare_immutable_binding(binding, value);
    }
    true
}

/// A literal pattern matches a value equal to it, and declares nothing.
pub fn declare_binding_literal(ctx: &mut InterpreterContext, binding: &Literal, value: &JSValue) -> (r: bool)
    ensures
        r == literal_matches(*value, *binding),
        *final(ctx) == *old(ctx),
{
    value_matches_literal(value, binding)
}

/// Binds `value` to the pattern `binding` (see `declare_spec`).
pub fn declare_binding(
    ctx: &mut InterpreterContext,
    kind: &DeclarationKind,
    binding: &Pattern,
    value: &JSValue,
) -> (r: bool)
    requires
        declare_ok(old(ctx)@.env, old(ctx)@.heap, *kind, *binding, *value),
    ensures
        (final(ctx)@.env, r) == declare_spec(old(ctx)@.env, old(ctx)@.heap, *kind, *binding, *value),
        final(ctx)@.completion == old(ctx)@.completion,
        final(ctx)@.heap == old(ctx)@.heap,
    decreases binding,
{
    match binding {
        Pattern::Hole => true,
        Pattern::Identifier(pat) => {
            if kind.is_mutable() {
                ctx.declare_mutable_binding(pat, value)
            } else {
                ctx.declare_immutable_binding(pat, value)
            }
        },
        Pattern::Literal(pat) => declare_binding_literal(ctx, pat, value),
        Pattern::Object(pat) => {
            let ghost props = pat.properties@;
            let ghost heap = ctx@.heap;
            let n = pat.properties.len();
            let mut i: usize = 0;
            assert(props.skip(0) =~= props);
            while i < n
                invariant
                    n == props.len(),
                    props == pat.properties@,
                    i <= n,
                    *binding == Pattern::Object(*pat),
                    ctx@.heap == heap,
                    heap == old(ctx)@.heap,
                    ctx@.completion == old(ctx)@.completion,
                    props_ok(ctx@.env, heap, *kind, props.skip(i as int), *value),
                    declare_props(ctx@.env, heap, *kind, props.skip(i as int), *value)
                        == declare_props(old(ctx)@.env, heap, *kind, props, *value),
                decreases n - i,
            {
                let ghost rest = props.skip(i as int);
                assert(rest[0] == props[i as int]);
                assert(rest.drop_first() =~= props.skip(i + 1));
                match &pat.properties[i] {
                    PropertyPattern::KeyValue(k, v) => {
                        let pv = match value.get_property(ctx, k) {
                            Some(x) => x,
                            None => {
                                return false;
                            },
                        };
                        proof {
                            assert(*binding == Pattern::Object(*pat));
                            assert(decreases_to!(*binding => (*binding)->Object_0));
                            assert(decreases_to!((*binding)->Object_0 => pat.properties));
                            assert(decreases_to!(pat.properties => pat.properties@));
                            assert(decreases_to!(pat.properties@ => pat.properties@[i as int]));
                            assert(decreases_to!(pat.properties@[i as int] => *v));
                        }
                        if !declare_binding(ctx, kind, v, &pv) {
                            return false;
                        }
                    },
                    PropertyPattern::Shorthand(k) => {
                        let pv = match value.get_property(ctx, k) {
                            Some(x) => x,
                            None => {
                                return false;
                            },
                        };
                        declare_binding_identifier(ctx, kind, k, &pv);
                    },
                    PropertyPattern::Rest(_) => {
                        return false;
                    },
                }
                i += 1;
            }
            true
        },
        Pattern::Array(arr) => {
            assert(arr.elements@.len() == 0);
            true
        },
    }
}

/// The value a declarator binds: its initialiser's value, or `undefined` without one.
pub open spec fn init_value(env: Seq<Seq<Binding>>, d: VariableDeclarator) -> Option<JSValue> {
    match d.init {
        Some(e) => eval_spec(env, e),
        None => Some(JSValue::Undefined),
    }
}

/// Whether declaring each of `ds` in turn runs without fault: each pattern can be bound,
/// and each initialiser evaluates to a value.
pub open spec fn declarators_ok(
    env: Seq<Seq<Binding>>,
    heap: Seq<Seq<(String, JSValue)>>,
    kind: DeclarationKind,
    ds: Seq<VariableDeclarator>,
) -> bool
    decreases ds.len(),
{
    if ds.len() == 0 {
        true
    } else {
        &&& (ds[0].init matches Some(e) ==> eval_ok(env, e))
        &&& init_value(env, ds[0]) is Some
        &&& declare_ok(env, heap, kind, ds[0].binding, init_value(env, ds[0])->0)
        &&& declarators_ok(
            declare_spec(env, heap, kind, ds[0].binding, init_value(env, ds[0])->0).0,
            heap,
            kind,
            ds.drop_first(),
        )
    }
}

/// The scopes after declaring each of `ds` in turn.
pub open spec fn declarators_spec(
    env: Seq<Seq<Binding>>,
    heap: Seq<Seq<(String, JSValue)>>,
    kind: DeclarationKind,
    ds: Seq<VariableDeclarator>,
) -> Seq<Seq<Binding>>
    decreases ds.len(),
{
    if ds.len() == 0 {
        env
    } else {
        declarators_spec(
            declare_spec(env, heap, kind, ds[0].binding, init_value(env, ds[0])->0).0,
            heap,
            kind,
            ds.drop_first(),
        )
    }
}

/// Runs a declaration: each declarator in turn binds its initialiser's value (or
/// `undefined`) to its pattern; whether a pattern matched is not reported.
pub fn eval_variable_declaration(ctx: &mut InterpreterContext, stmt: &VariableDeclaration)
    requires
        declarators_ok(old(ctx)@.env, old(ctx)@.heap, stmt.kind, stmt.declarators@),
    ensures
        final(ctx)@.env == declarators_spec(old(ctx)@.env, old(ctx)@.heap, stmt.kind, stmt.declarators@),
        final(ctx)@.completion == old(ctx)@.completion,
        final(ctx)@.heap == old(ctx)@.heap,
{
    let ghost ds = stmt.declarators@;
    let n = stmt.declarators.len();
    let mut i: usize = 0;
    assert(ds.skip(0) =~= ds);
    while i < n
        invariant
            n == ds.len(),
            ds == stmt.declarators@,
            i <= n,
            ctx@.heap == old(ctx)@.heap,
            declarators_ok(ctx@.env, ctx@.heap, stmt.kind, ds.skip(i as int)),
            declarators_spec(ctx@.env, ctx@.heap, stmt.kind, ds.skip(i as int)) == declarators_spec(
                old(ctx)@.env,
                old(ctx)@.heap,
                stmt.kind,
                ds,
            ),
            ctx@.completion == old(ctx)@.completion,
        decreases n - i,
    {
        let ghost rest = ds.skip(i as int);
        assert(rest[0] == ds[i as int]);
        assert(rest.drop_first() =~= ds.skip(i + 1));
        let decl = &stmt.declarators[i];
        match &decl.init {
            Some(expr) => {
                let value = eval_expression(ctx, expr);
                match value {
                    Some(v) => {
                        declare_binding(ctx, &stmt.kind, &decl.binding, &v);
                    },
                    None => {
                        assert(false);
                    },
                }
            },
            None => {
                declare_binding(ctx, &stmt.kind, &decl.binding, &JSValue::undefined());
            },
        }
        i += 1;
    }
    assert(ds.skip(0) =~= ds);
}

} // verus!
