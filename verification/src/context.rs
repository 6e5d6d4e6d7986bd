use vstd::prelude::*;
use crate::lexical::Identifier;
use crate::value::{JSObject, JSString, JSValue, ObjectRef};

verus! {

/// A variable in a scope: its name, its value, and whether it may be assigned.
#[derive(Debug)]
pub struct Binding {
    pub name: String,
    pub value: JSValue,
    pub mutable: bool,
}

/// How the statement last run ended, when it did not simply run to its end.
#[derive(Debug, PartialEq, Eq)]
pub enum CompletionSignal {
    Break,
    Continue,
    Return,
    ReturnValue(JSValue),
    Throw(JSValue),
}

/// The state of the interpreter: the stack of scopes, innermost last, and the pending
/// completion signal.
#[derive(Debug)]
pub struct InterpreterContext {
    pub scopes: Vec<Vec<Binding>>,
    pub completion: Option<CompletionSignal>,
    pub objects: Vec<JSObject>,
}

/// What a context holds, as plain values.
#[verifier::ext_equal]
pub struct CtxView {
    pub env: Seq<Seq<Binding>>,
    pub completion: Option<CompletionSignal>,
    pub heap: Seq<Seq<(String, JSValue)>>,
}

impl View for InterpreterContext {
    type V = CtxView;

    open spec fn view(&self) -> CtxView {
        CtxView {
            env: self.scopes@.map_values(|s: Vec<Binding>| s@),
            completion: self.completion,
            heap: self.objects@.map_values(|o: JSObject| o.properties@),
        }
    }
}

/// The state with `env` as its scopes.
pub open spec fn with_env(st: CtxView, env: Seq<Seq<Binding>>) -> CtxView {
    CtxView { env, completion: st.completion, heap: st.heap }
}

/// The state with a new, empty innermost scope.
pub open spec fn push_scope(st: CtxView) -> CtxView {
    with_env(st, st.env.push(Seq::<Binding>::empty()))
}

/// The state without its innermost scope, if it has one.
pub open spec fn pop_scope(st: CtxView) -> CtxView {
    with_env(
        st,
        if st.env.len() > 0 {
            st.env.drop_last()
        } else {
            st.env
        },
    )
}

/// The state with its innermost scope emptied, for a new round of a loop.
pub open spec fn fresh_round(st: CtxView) -> CtxView {
    with_env(
        st,
        if st.env.len() > 0 {
            st.env.update(st.env.len() - 1, Seq::<Binding>::empty())
        } else {
            st.env
        },
    )
}

/// The state with `c` as its completion signal.
pub open spec fn signal(st: CtxView, c: Option<CompletionSignal>) -> CtxView {
    CtxView { env: st.env, completion: c, heap: st.heap }
}

/// The binding of `name` in one scope: the last one declared there.
pub open spec fn find_in_scope(scope: Seq<Binding>, name: Seq<char>) -> Option<Binding>
    decreases scope.len(),
{
    if scope.len() == 0 {
        None
    } else if scope.last().name@ == name {
        Some(scope.last())
    } else {
        find_in_scope(scope.drop_last(), name)
    }
}

/// The binding that `name` reaches: the one in the innermost scope that has one.
pub open spec fn lookup_binding(env: Seq<Seq<Binding>>, name: Seq<char>) -> Option<Binding>
    decreases env.len(),
{
    if env.len() == 0 {
        None
    } else {
        match find_in_scope(env.last(), name) {
            Some(b) => Some(b),
            None => lookup_binding(env.drop_last(), name),
        }
    }
}

/// The value of `name`, if a scope binds it.
pub open spec fn lookup_value(env: Seq<Seq<Binding>>, name: Seq<char>) -> Option<JSValue> {
    match lookup_binding(env, name) {
        Some(b) => Some(b.value),
        None => None,
    }
}

/// The environment after declaring `name` in the innermost scope, and whether it could be
/// declared: not when there is no scope, nor when the innermost scope already binds it.
pub open spec fn declare_in(env: Seq<Seq<Binding>>, name: String, value: JSValue, mutable: bool) -> (
    Seq<Seq<Binding>>,
    bool,
) {
    if env.len() == 0 || find_in_scope(env.last(), name@) is Some {
        (env, false)
    } else {
        (env.update(env.len() - 1, env.last().push(Binding { name, value, mutable })), true)
    }
}

/// A copy of a value.
pub fn copy_value(v: &JSValue) -> (r: JSValue)
    ensures
        r == *v,
{
    match v {
        JSValue::Undefined => JSValue::Undefined,
        JSValue::Boolean(b) => JSValue::Boolean(*b),
        JSValue::Number(n) => JSValue::Number(*n),
        JSValue::String(s) => JSValue::String(JSString(s.0.clone())),
        JSValue::Object(o) => JSValue::Object(*o),
    }
}

/// A copy of a completion signal.
fn copy_signal(c: &CompletionSignal) -> (r: CompletionSignal)
    ensures
        r == *c,
{
    match c {
        CompletionSignal::Break => CompletionSignal::Break,
        CompletionSignal::Continue => CompletionSignal::Continue,
        CompletionSignal::Return => CompletionSignal::Return,
        CompletionSignal::ReturnValue(v) => CompletionSignal::ReturnValue(copy_value(v)),
        CompletionSignal::Throw(v) => CompletionSignal::Throw(copy_value(v)),
    }
}

/// Finds the binding of `name` in one scope, searching from the last declared.
fn find_index(scope: &Vec<Binding>, name: &String) -> (r: Option<usize>)
    ensures
        match r {
            Some(i) => i < scope@.len() && find_in_scope(scope@, name@) == Some(scope@[i as int]),
            None => find_in_scope(scope@, name@) is None,
        },
{
    let mut i = scope.len();
    assert(scope@.take(i as int) =~= scope@);
    while i > 0
        invariant
            i <= scope@.len(),
            find_in_scope(scope@, name@) == find_in_scope(scope@.take(i as int), name@),
        decreases i,
    {
        let ghost t = scope@.take(i as int);
        assert(t.drop_last() =~= scope@.take(i - 1));
        if scope[i - 1].name == *name {
            return Some(i - 1);
        }
        i -= 1;
    }
    assert(scope@.take(0).len() == 0);
    None
}

impl InterpreterContext {
    /// A context with one empty scope and no pending signal.
    pub fn new() -> (r: Self)
        ensures
            r@.env == seq![Seq::<Binding>::empty()],
            r@.completion is None,
            r@.heap.len() == 0,
    {
        let mut scopes: Vec<Vec<Binding>> = Vec::new();
        scopes.push(Vec::new());
        let r = InterpreterContext { scopes, completion: None, objects: Vec::new() };
        assert(r@.env =~= seq![Seq::<Binding>::empty()]);
        assert(r@.heap =~= Seq::<Seq<(String, JSValue)>>::empty());
        r
    }

    /// Opens a new, empty innermost scope.
    pub fn enter_scope(&mut self)
        ensures
            final(self)@ == push_scope(old(self)@),
    {
        let ghost e = self@;
        self.scopes.push(Vec::new());
        assert(self@ =~= push_scope(e));
    }

    /// Closes the innermost scope, if there is one.
    pub fn exit_scope(&mut self)
        ensures
            final(self)@ == pop_scope(old(self)@),
    {
        let ghost e = self@;
        if self.scopes.len() > 0 {
            self.scopes.pop();
        }
        assert(self@ =~= pop_scope(e));
    }

    /// Opens the scope of a `for` loop.
    pub fn enter_for_scope(&mut self)
        ensures
            final(self)@ == push_scope(old(self)@),
    {
        self.enter_scope();
    }

    /// Closes the scope of a `for` loop.
    pub fn exit_for_scope(&mut self)
        ensures
            final(self)@ == pop_scope(old(self)@),
    {
        self.exit_scope();
    }

    /// Starts a fresh round of a loop: the innermost scope is emptied.
    pub fn loop_scope(&mut self)
        ensures
            final(self)@ == fresh_round(old(self)@),
    {
        let ghost e = self@;
        if self.scopes.len() > 0 {
            self.scopes.pop();
            self.scopes.push(Vec::new());
        }
        assert(self@ =~= fresh_round(e));
    }

    fn declare(&mut self, binding: &Identifier, value: &JSValue, mutable: bool) -> (r: bool)
        ensures
            (final(self)@.env, r) == declare_in(old(self)@.env, binding.id, *value, mutable),
            final(self)@.completion == old(self)@.completion,
            final(self)@.heap == old(self)@.heap,
    {
        let n = self.scopes.len();
        if n == 0 {
            return false;
        }
        let ghost e = self@.env;
        let mut scope = self.scopes.pop().unwrap();
        assert(scope@ == e.last());
        match find_index(&scope, &binding.id) {
            Some(_) => {
                self.scopes.push(scope);
                assert(self@.env =~= e);
                false
            },
            None => {
                let b = Binding { name: binding.id.clone(), value: copy_value(value), mutable };
                scope.push(b);
                self.scopes.push(scope);
                assert(self@.env =~= e.update(
                    e.len() - 1,
                    e.last().push(Binding { name: binding.id, value: *value, mutable }),
                ));
                true
            },
        }
    }

    /// Declares an assignable variable in the innermost scope; `false` when that scope
    /// already binds the name, or there is no scope.
    pub fn declare_mutable_binding(&mut self, binding: &Identifier, value: &JSValue) -> (r: bool)
        ensures
            (final(self)@.env, r) == declare_in(old(self)@.env, binding.id, *value, true),
            final(self)@.completion == old(self)@.completion,
            final(self)@.heap == old(self)@.heap,
    {
        self.declare(binding, value, true)
    }

    /// Declares a constant in the innermost scope; `false` when that scope already binds the
    /// name, or there is no scope.
    pub fn declare_immutable_binding(&mut self, binding: &Identifier, value: &JSValue) -> (r: bool)
        ensures
            (final(self)@.env, r) == declare_in(old(self)@.env, binding.id, *value, false),
            final(self)@.completion == old(self)@.completion,
            final(self)@.heap == old(self)@.heap,
    {
        self.declare(binding, value, false)
    }

    /// The value of the variable, from the innermost scope that binds it.
    pub fn get_binding_value(&self, binding: &Identifier) -> (r: Option<JSValue>)
        ensures
            r == lookup_value(self@.env, binding.id@),
    {
        let mut i = self.scopes.len();
        assert(self@.env.take(i as int) =~= self@.env);
        while i > 0
            invariant
                i <= self.scopes@.len(),
                lookup_value(self@.env, binding.id@) == lookup_value(
                    self@.env.take(i as int),
                    binding.id@,
                ),
            decreases i,
        {
            let ghost t = self@.env.take(i as int);
            assert(t.drop_last() =~= self@.env.take(i - 1));
            assert(t.last() == self.scopes@[i - 1]@);
            match find_index(&self.scopes[i - 1], &binding.id) {
                Some(j) => {
                    return Some(copy_value(&self.scopes[i - 1][j].value));
                },
                None => {},
            }
            i -= 1;
        }
        assert(self@.env.take(0).len() == 0);
        None
    }

    /// The pending completion signal, if any.
    pub fn completion_signal(&self) -> (r: Option<CompletionSignal>)
        ensures
            r == self@.completion,
    {
        match &self.completion {
            Some(c) => Some(copy_signal(c)),
            None => None,
        }
    }

    /// Signals a `break`.
    pub fn termination_break(&mut self)
        ensures
            final(self)@ == signal(old(self)@, Some(CompletionSignal::Break)),
    {
        self.completion = Some(CompletionSignal::Break);
        assert(self@ =~= signal(old(self)@, Some(CompletionSignal::Break)));
    }

    /// Signals a `continue`.
    pub fn termination_continue(&mut self)
        ensures
            final(self)@ == signal(old(self)@, Some(CompletionSignal::Continue)),
    {
        self.completion = Some(CompletionSignal::Continue);
        assert(self@ =~= signal(old(self)@, Some(CompletionSignal::Continue)));
    }

    /// Signals a `return`, with its value if it has one.
    pub fn termination_return(&mut self, value: &Option<JSValue>)
        ensures
            final(self)@ == signal(
                old(self)@,
                Some(
                    match *value {
                        Some(v) => CompletionSignal::ReturnValue(v),
                        None => CompletionSignal::Return,
                    },
                ),
            ),
    {
        let ghost e = self@;
        self.completion = match value {
            Some(v) => Some(CompletionSignal::ReturnValue(copy_value(v))),
            None => Some(CompletionSignal::Return),
        };
        assert(self@ =~= signal(e, self.completion));
    }

    /// Signals a `throw` of `value`.
    pub fn termination_throw(&mut self, value: &JSValue)
        ensures
            final(self)@ == signal(old(self)@, Some(CompletionSignal::Throw(*value))),
    {
        let ghost e = self@;
        self.completion = Some(CompletionSignal::Throw(copy_value(value)));
        assert(self@ =~= signal(e, Some(CompletionSignal::Throw(*value))));
    }

    /// Clears the pending completion signal.
    pub fn clear_completion_signal(&mut self)
        ensures
            final(self)@ == signal(old(self)@, None),
    {
        self.completion = None;
        assert(self@ =~= signal(old(self)@, None));
    }
}

/// The value of property `name` among `props`: the last entry of that name.
pub open spec fn find_prop(props: Seq<(String, JSValue)>, name: Seq<char>) -> Option<JSValue>
    decreases props.len(),
{
    if props.len() == 0 {
        None
    } else if props.last().0@ == name {
        Some(props.last().1)
    } else {
        find_prop(props.drop_last(), name)
    }
}

/// Where the last entry of `name` stands among `props`, if any.
pub open spec fn prop_index(props: Seq<(String, JSValue)>, name: Seq<char>) -> Option<int>
    decreases props.len(),
{
    if props.len() == 0 {
        None
    } else if props.last().0@ == name {
        Some(props.len() - 1)
    } else {
        prop_index(props.drop_last(), name)
    }
}

/// The value of property `name` of `v`: `None` unless `v` refers to an object in `heap`
/// that has the property.
pub open spec fn property_of(heap: Seq<Seq<(String, JSValue)>>, v: JSValue, name: Seq<char>) -> Option<JSValue> {
    match v {
        JSValue::Object(r) => if r.0 < heap.len() {
            find_prop(heap[r.0 as int], name)
        } else {
            None
        },
        _ => None,
    }
}

/// The properties after setting `name` to `value`: its last entry takes the value, or a new
/// entry is added.
pub open spec fn set_prop(props: Seq<(String, JSValue)>, name: String, value: JSValue) -> Seq<(String, JSValue)> {
    match prop_index(props, name@) {
        Some(i) => props.update(i, (props[i].0, value)),
        None => props.push((name, value)),
    }
}

/// The object store after setting property `name` of `v` to `value`; unchanged unless `v`
/// refers to an object in it.
pub open spec fn heap_after_set(heap: Seq<Seq<(String, JSValue)>>, v: JSValue, name: String, value: JSValue) -> Seq<Seq<(String, JSValue)>> {
    match v {
        JSValue::Object(r) => if r.0 < heap.len() {
            heap.update(r.0 as int, set_prop(heap[r.0 as int], name, value))
        } else {
            heap
        },
        _ => heap,
    }
}

/// The properties of an object literal, in order.
pub open spec fn literal_props(props: Seq<(Identifier, JSValue)>) -> Seq<(String, JSValue)> {
    props.map_values(|p: (Identifier, JSValue)| (p.0.id, p.1))
}

/// Where the last entry of `name` stands in `props`.
fn find_prop_index(props: &Vec<(String, JSValue)>, name: &String) -> (r: Option<usize>)
    ensures
        match r {
            Some(i) => prop_index(props@, name@) == Some(i as int) && (i as int) < props@.len(),
            None => prop_index(props@, name@) is None,
        },
        r is Some <==> find_prop(props@, name@) is Some,
        r matches Some(i) ==> find_prop(props@, name@) == Some(props@[i as int].1),
{
    let mut i = props.len();
    assert(props@.take(i as int) =~= props@);
    while i > 0
        invariant
            i <= props@.len(),
            prop_index(props@, name@) == prop_index(props@.take(i as int), name@),
            find_prop(props@, name@) == find_prop(props@.take(i as int), name@),
        decreases i,
    {
        let ghost t = props@.take(i as int);
        assert(t.drop_last() =~= props@.take(i - 1));
        if props[i - 1].0 == *name {
            return Some(i - 1);
        }
        i -= 1;
    }
    None
}

impl JSValue {
    /// A new object with these properties (a later entry of a name overrides an earlier
    /// one), added to the interpreter's object store; the value refers to it.
    pub fn object(ctx: &mut InterpreterContext, props: Vec<(Identifier, JSValue)>) -> (r: JSValue)
        ensures
            r == JSValue::Object(ObjectRef(old(ctx)@.heap.len() as usize)),
            final(ctx)@ == (CtxView {
                env: old(ctx)@.env,
                completion: old(ctx)@.completion,
                heap: old(ctx)@.heap.push(literal_props(props@)),
            }),
    {
        let mut properties: Vec<(String, JSValue)> = Vec::new();
        let n = props.len();
        let mut props = props;
        let ghost ps = props@;
        let mut rev: Vec<(String, JSValue)> = Vec::new();
        while props.len() > 0
            invariant
                ps.len() == n,
                props@ == ps.take(props@.len() as int),
                rev@.len() + props@.len() == n,
                forall|j: int| 0 <= j < rev@.len() ==> #[trigger] rev@[j] == (ps[n - 1 - j].0.id, ps[n - 1 - j].1),
            decreases props@.len(),
        {
            let ghost before = props@;
            let (k, v) = props.pop().unwrap();
            assert(props@ =~= ps.take(props@.len() as int));
            rev.push((k.id, v));
        }
        while rev.len() > 0
            invariant
                ps.len() == n,
                rev@.len() + properties@.len() == n,
                forall|j: int| 0 <= j < rev@.len() ==> #[trigger] rev@[j] == (ps[n - 1 - j].0.id, ps[n - 1 - j].1),
                properties@ =~= literal_props(ps.take(properties@.len() as int)),
            decreases rev@.len(),
        {
            let ghost k = properties@.len() as int;
            let kv = rev.pop().unwrap();
            assert(kv == (ps[k].0.id, ps[k].1));
            properties.push(kv);
            assert(ps.take(k + 1) =~= ps.take(k).push(ps[k]));
            assert(literal_props(ps.take(k + 1)) =~= literal_props(ps.take(k)).push((ps[k].0.id, ps[k].1)));
            assert(properties@ =~= literal_props(ps.take(properties@.len() as int)));
        }
        assert(ps.take(n as int) =~= ps);
        let ghost h = ctx@.heap;
        let r = ObjectRef(ctx.objects.len());
        ctx.objects.push(JSObject { properties });
        assert(ctx@.heap =~= h.push(literal_props(ps)));
        assert(ctx@ =~= CtxView {
            env: old(ctx)@.env,
            completion: old(ctx)@.completion,
            heap: old(ctx)@.heap.push(literal_props(ps)),
        });
        JSValue::Object(r)
    }

    /// The value of property `key` (see `property_of`).
    pub fn get_property(&self, ctx: &InterpreterContext, key: &Identifier) -> (r: Option<JSValue>)
        ensures
            r == property_of(ctx@.heap, *self, key.id@),
    {
        match self {
            JSValue::Object(o) => {
                if o.0 < ctx.objects.len() {
                    let props = &ctx.objects[o.0].properties;
                    match find_prop_index(props, &key.id) {
                        Some(i) => Some(copy_value(&props[i].1)),
                        None => None,
                    }
                } else {
                    None
                }
            },
            _ => None,
        }
    }

    /// Sets property `key` of the object the value refers to; nothing happens for other
    /// values (see `heap_after_set`).
    pub fn set_property(&self, ctx: &mut InterpreterContext, key: &Identifier, value: JSValue)
        ensures
            final(ctx)@ == (CtxView {
                env: old(ctx)@.env,
                completion: old(ctx)@.completion,
                heap: heap_after_set(old(ctx)@.heap, *self, key.id, value),
            }),
    {
        let ghost h = ctx@.heap;
        match self {
            JSValue::Object(o) => {
                if o.0 < ctx.objects.len() {
                    let mut obj = JSObject { properties: Vec::new() };
                    let ghost before = ctx.objects@;
                    proof {
                        assert(h[o.0 as int] == before[o.0 as int].properties@);
                    }
                    std::mem::swap(&mut obj, &mut ctx.objects[o.0]);
                    let ghost p0 = obj.properties@;
                    assert(p0 == h[o.0 as int]);
                    match find_prop_index(&obj.properties, &key.id) {
                        Some(i) => {
                            let name = obj.properties[i].0.clone();
                            obj.properties.set(i, (name, value));
                        },
                        None => {
                            obj.properties.push((key.id.clone(), value));
                        },
                    }
                    assert(obj.properties@ =~= set_prop(p0, key.id, value));
                    std::mem::swap(&mut obj, &mut ctx.objects[o.0]);
                    assert(ctx@.heap =~= heap_after_set(h, *self, key.id, value));
                }
            },
            _ => {},
        }
        assert(ctx@ =~= CtxView {
            env: old(ctx)@.env,
            completion: old(ctx)@.completion,
            heap: heap_after_set(old(ctx)@.heap, *self, key.id, value),
        });
    }
}

/// A read of a property after a write: once property `name` of an object is set to `value`
/// it reads as `value`, and every other property reads as before.
pub proof fn law_property_read_after_write(
    heap: Seq<Seq<(String, JSValue)>>,
    v: JSValue,
    name: String,
    value: JSValue,
    other: Seq<char>,
)
    requires
        v matches JSValue::Object(r) && r.0 < heap.len(),
    ensures
        property_of(heap_after_set(heap, v, name, value), v, name@) == Some(value),
        other != name@ ==> property_of(heap_after_set(heap, v, name, value), v, other)
            == property_of(heap, v, other),
{
    let r = v->Object_0;
    let props = heap[r.0 as int];
    lemma_set_prop(props, name, value, other);
}

proof fn lemma_set_prop(props: Seq<(String, JSValue)>, name: String, value: JSValue, other: Seq<char>)
    ensures
        find_prop(set_prop(props, name, value), name@) == Some(value),
        other != name@ ==> find_prop(set_prop(props, name, value), other) == find_prop(props, other),
    decreases props.len(),
{
    if props.len() == 0 {
        lemma_find_prop_push(props, name, value, other);
    } else {
        if props.last().0@ == name@ {
            let np = set_prop(props, name, value);
            assert(np.drop_last() =~= props.drop_last());
            assert(np.last() == (props.last().0, value));
        } else {
            lemma_set_prop(props.drop_last(), name, value, other);
            let np = set_prop(props, name, value);
            match prop_index(props.drop_last(), name@) {
                Some(i) => {
                    lemma_prop_index_bound(props.drop_last(), name@);
                    assert(np.drop_last() =~= set_prop(props.drop_last(), name, value));
                    assert(np.last() == props.last());
                },
                None => {
                    assert(np.drop_last() =~= props);
                    assert(set_prop(props.drop_last(), name, value).drop_last() =~= props.drop_last());
                    lemma_find_prop_push(props, name, value, other);
                    lemma_find_prop_push(props.drop_last(), name, value, other);
                },
            }
        }
    }
}

proof fn lemma_prop_index_bound(props: Seq<(String, JSValue)>, name: Seq<char>)
    ensures
        prop_index(props, name) matches Some(i) ==> 0 <= i < props.len() && props[i].0@ == name,
    decreases props.len(),
{
    if props.len() > 0 && props.last().0@ != name {
        lemma_prop_index_bound(props.drop_last(), name);
    }
}

proof fn lemma_find_prop_push(props: Seq<(String, JSValue)>, name: String, value: JSValue, other: Seq<char>)
    ensures
        find_prop(props.push((name, value)), name@) == Some(value),
        other != name@ ==> find_prop(props.push((name, value)), other) == find_prop(props, other),
{
    assert(props.push((name, value)).drop_last() =~= props);
}

/// A read after a declaration: once `name` is declared with `value`, it reads as `value`.
pub proof fn law_declare_then_lookup(env: Seq<Seq<Binding>>, name: String, value: JSValue, mutable: bool)
    requires
        declare_in(env, name, value, mutable).1,
    ensures
        lookup_value(declare_in(env, name, value, mutable).0, name@) == Some(value),
{
    let e2 = declare_in(env, name, value, mutable).0;
    assert(e2.last() == env.last().push(Binding { name, value, mutable }));
}

/// Leaving a scope undoes it: what was declared in a scope entered and then left is gone,
/// and every name reads as it did before.
pub proof fn law_exit_undoes_scope(st: CtxView, name: String, value: JSValue, mutable: bool)
    ensures
        ({
            let inner = push_scope(st);
            let declared = with_env(inner, declare_in(inner.env, name, value, mutable).0);
            pop_scope(declared) == st
        }),
{
    let inner = push_scope(st);
    let e2 = declare_in(inner.env, name, value, mutable).0;
    assert(e2.drop_last() =~= st.env);
    assert(pop_scope(with_env(inner, e2)) =~= st);
}

} // verus!
