use vstd::prelude::*;
use crate::text::push_str;

verus! {

/// A value as scopes hold it: a number, or `undefined`.
#[derive(Debug, Clone, Copy, PartialEq, Eq, Structural)]
pub enum JSValue {
    Number(i64),
    Undefined,
}

impl JSValue {
    pub fn number(v: i64) -> (r: Self)
        ensures
            r == JSValue::Number(v),
    {
        JSValue::Number(v)
    }

    pub fn undefined() -> (r: Self)
        ensures
            r == JSValue::Undefined,
    {
        JSValue::Undefined
    }
}

/// A variable: its value, and whether it may be assigned.
#[derive(Debug, Clone, Copy, PartialEq, Eq, Structural)]
pub struct Variable {
    pub value: JSValue,
    pub mutable: bool,
}

impl Variable {
    pub fn new(value: JSValue, mutable: bool) -> (r: Self)
        ensures
            r == (Variable { value, mutable }),
    {
        Variable { value, mutable }
    }

    pub fn get(&self) -> (r: JSValue)
        ensures
            r == self.value,
    {
        self.value
    }

    /// Assigns the variable, which must be mutable.
    pub fn set(&mut self, value: JSValue)
        requires
            old(self).mutable,
        ensures
            *final(self) == (Variable { value, mutable: old(self).mutable }),
    {
        self.value = value;
    }

    pub fn is_mutable(&self) -> (r: bool)
        ensures
            r == self.mutable,
    {
        self.mutable
    }
}

/// A binding: the variable, and the depth of the scope that declared it.
pub type Entry = (Variable, usize);

/// The bindings of a scope chain, held in a `hashbrown` map from names to entries.
#[verifier::external_body]
pub struct BindingMap {
    map: hashbrown::HashMap<String, Entry>,
}

/// The entries a binding map holds, by name.
pub uninterp spec fn binding_entries(m: BindingMap) -> Map<Seq<char>, Entry>;

/// No bindings at all.
pub open spec fn no_bindings() -> Map<Seq<char>, Entry> {
    Map::empty()
}

/// An empty map: `hashbrown::HashMap::new`, which makes a map holding nothing.
#[verifier::external_body]
fn binding_new() -> (r: BindingMap)
    ensures
        binding_entries(r) == no_bindings(),
{
    BindingMap { map: hashbrown::HashMap::new() }
}

/// The entry of `name`: `hashbrown::HashMap::get`, which finds the value stored under a key
/// equal to `name`, copied out.
#[verifier::external_body]
fn binding_get(m: &BindingMap, name: &String) -> (r: Option<Entry>)
    ensures
        r == (if binding_entries(*m).contains_key(name@) {
            Some(binding_entries(*m)[name@])
        } else {
            None
        }),
{
    m.map.get(name).copied()
}

/// Stores `entry` under `name`: `hashbrown::HashMap::insert`, which adds the pair or
/// replaces the value of an equal key.
#[verifier::external_body]
fn binding_insert(m: &mut BindingMap, name: String, entry: Entry)
    ensures
        binding_entries(*final(m)) == binding_entries(*old(m)).insert(name@, entry),
{
    m.map.insert(name, entry);
}

/// The entry of `name`, to change in place: `hashbrown::HashMap::get_mut`, which finds the
/// value stored under a key equal to `name`; what is written through it is what the map
/// then holds under that key.
#[verifier::external_body]
fn binding_get_mut<'a>(m: &'a mut BindingMap, name: &String) -> (r: Option<&'a mut Entry>)
    ensures
        r is Some <==> binding_entries(*old(m)).contains_key(name@),
        r matches Some(e) ==> *e == binding_entries(*old(m))[name@],
        r matches Some(e) ==> binding_entries(*final(m)) == binding_entries(*old(m)).insert(
            name@,
            *final(e),
        ),
        r is None ==> binding_entries(*final(m)) == binding_entries(*old(m)),
{
    m.map.get_mut(name)
}

/// Drops the entry of `name`: `hashbrown::HashMap::remove`, which takes out the pair of an
/// equal key, if any.
#[verifier::external_body]
fn binding_remove(m: &mut BindingMap, name: &String)
    ensures
        binding_entries(*final(m)) == binding_entries(*old(m)).remove(name@),
{
    m.map.remove(name);
}

/// One step of undoing a scope: bring back the shadowed entry, or drop a name the scope
/// introduced.
pub open spec fn restore_one(
    b: Map<Seq<char>, Entry>,
    item: (Seq<char>, Option<Entry>),
) -> Map<Seq<char>, Entry> {
    match item.1 {
        Some(e) => b.insert(item.0, e),
        None => b.remove(item.0),
    }
}

/// Undoes a scope: its recovery list applied first to last.
pub open spec fn restore(
    b: Map<Seq<char>, Entry>,
    items: Seq<(Seq<char>, Option<Entry>)>,
) -> Map<Seq<char>, Entry>
    decreases items.len(),
{
    if items.len() == 0 {
        b
    } else {
        restore_one(restore(b, items.drop_last()), items.last())
    }
}

/// The recovery list of one scope, with its names read as text.
pub open spec fn level_view(level: Seq<(String, Option<Entry>)>) -> Seq<(Seq<char>, Option<Entry>)> {
    Seq::new(level.len(), |j: int| (level[j].0@, level[j].1))
}

/// The view of an environment: the bindings visible now, and for each open scope, innermost
/// last, what undoing it takes.
pub struct EnvView {
    pub binding: Map<Seq<char>, Entry>,
    pub recovery: Seq<Seq<(Seq<char>, Option<Entry>)>>,
}

/// A mapping from variable names to variables, with block scopes: `binding` holds what the
/// innermost scope sees, and `recovery` holds, for each open scope, the entries its
/// declarations shadowed (or `None` for names it introduced).
pub struct EnvironmentRecord {
    binding: BindingMap,
    recovery: Vec<Vec<(String, Option<Entry>)>>,
}

impl View for EnvironmentRecord {
    type V = EnvView;

    closed spec fn view(&self) -> EnvView {
        EnvView {
            binding: binding_entries(self.binding),
            recovery: Seq::new(self.recovery@.len(), |i: int| level_view(self.recovery@[i]@)),
        }
    }
}

/// The message for a name that is not bound.
pub open spec fn undefined_message(name: Seq<char>) -> Seq<char> {
    "ReferenceError: "@ + name + " is not defined"@
}

/// The message for assigning a constant.
pub open spec fn constant_message(name: Seq<char>) -> Seq<char> {
    "Cannot assign to constant variable "@ + name
}

/// The message for declaring a name twice in one scope.
pub open spec fn redeclaration_message(name: Seq<char>) -> Seq<char> {
    "SyntaxError: redeclaration of formal parameter \""@ + name + "\""@
}

/// The environment after entering a block scope.
pub open spec fn enter_spec(e: EnvView) -> EnvView {
    EnvView { binding: e.binding, recovery: e.recovery.push(Seq::empty()) }
}

/// The environment after leaving the innermost scope.
pub open spec fn exit_spec(e: EnvView) -> EnvView {
    EnvView { binding: restore(e.binding, e.recovery.last()), recovery: e.recovery.drop_last() }
}

/// Whether declaring `name` is refused: it is already declared in the innermost scope.
pub open spec fn redeclared(e: EnvView, name: Seq<char>) -> bool {
    e.binding.contains_key(name) && e.binding[name].1 == e.recovery.len()
}

/// The environment after declaring `name` as `var` in the innermost scope: the entry it
/// shadows (or its absence) goes to the innermost recovery list, and the new entry carries
/// the current depth.
pub open spec fn declare_spec(e: EnvView, name: Seq<char>, var: Variable) -> EnvView {
    let saved = if e.binding.contains_key(name) {
        Some(e.binding[name])
    } else {
        None
    };
    EnvView {
        binding: e.binding.insert(name, (var, e.recovery.len() as usize)),
        recovery: e.recovery.update(e.recovery.len() - 1, e.recovery.last().push((name, saved))),
    }
}

/// `name` after a literal prefix.
fn prefixed(prefix: &str, name: &String) -> (r: String)
    ensures
        r@ == prefix@ + name@,
{
    let mut s = String::from_str(prefix);
    push_str(&mut s, name.as_str());
    s
}

/// Appends `name` between two literal pieces.
fn message(prefix: &str, name: &String, suffix: &str) -> (r: String)
    ensures
        r@ == prefix@ + name@ + suffix@,
{
    let mut s = String::from_str(prefix);
    push_str(&mut s, name.as_str());
    push_str(&mut s, suffix);
    s
}

impl EnvironmentRecord {
    /// An environment with no bindings and one open scope.
    pub fn new() -> (r: Self)
        ensures
            r@.binding == no_bindings(),
            r@.recovery == one_scope(),
    {
        let mut recovery: Vec<Vec<(String, Option<Entry>)>> = Vec::new();
        recovery.push(Vec::new());
        let r = EnvironmentRecord { binding: binding_new(), recovery };
        proof {
            assert(r@.recovery =~~= one_scope());
        }
        r
    }

    /// Enters a block scope.
    pub fn enter(&mut self)
        ensures
            final(self)@ == enter_spec(old(self)@),
    {
        self.recovery.push(Vec::new());
        proof {
            assert(self@.recovery =~~= old(self)@.recovery.push(Seq::empty()));
        }
    }

    /// Leaves the innermost scope, which must exist: every name it declared goes back to
    /// the entry it shadowed, or away if it had none.
    pub fn exit(&mut self)
        requires
            old(self)@.recovery.len() > 0,
        ensures
            final(self)@ == exit_spec(old(self)@),
    {
        let ghost e = self@;
        let level = self.recovery.pop().unwrap();
        proof {
            assert(level_view(level@) == e.recovery.last());
        }
        let n = level.len();
        let mut i: usize = 0;
        while i < n
            invariant
                0 <= i <= n,
                n == level@.len(),
                level_view(level@) == e.recovery.last(),
                binding_entries(self.binding) == restore(
                    e.binding,
                    level_view(level@).take(i as int),
                ),
                self.recovery@.len() == e.recovery.len() - 1,
                forall|k: int|
                    0 <= k < self.recovery@.len() ==> level_view(#[trigger] self.recovery@[k]@)
                        == e.recovery[k],
            decreases n - i,
        {
            let name = level[i].0.clone();
            let saved = level[i].1;
            proof {
                assert(level_view(level@).take(i + 1).drop_last() =~= level_view(level@).take(
                    i as int,
                ));
            }
            match saved {
                Some(entry) => binding_insert(&mut self.binding, name, entry),
                None => binding_remove(&mut self.binding, &name),
            }
            i = i + 1;
        }
        proof {
            assert(level_view(level@).take(n as int) =~= level_view(level@));
            assert(self@.recovery =~= e.recovery.drop_last());
        }
    }

    /// The number of open scopes.
    pub fn depth(&self) -> (r: usize)
        ensures
            r == self@.recovery.len(),
    {
        self.recovery.len()
    }

    /// Records, in the innermost scope, what `name` had before it was declared there.
    fn add_recover_variable(&mut self, name: String, value: Option<Entry>)
        requires
            old(self)@.recovery.len() > 0,
        ensures
            final(self)@.binding == old(self)@.binding,
            final(self)@.recovery == old(self)@.recovery.update(
                old(self)@.recovery.len() - 1,
                old(self)@.recovery.last().push((name@, value)),
            ),
    {
        let ghost e = self@;
        let mut level = self.recovery.pop().unwrap();
        level.push((name, value));
        self.recovery.push(level);
        proof {
            assert(level_view(level@) =~= e.recovery.last().push((name@, value)));
            assert(self@.recovery =~= e.recovery.update(
                e.recovery.len() - 1,
                e.recovery.last().push((name@, value)),
            ));
        }
    }

    /// The value of `name`, or `undefined` when it is not bound.
    pub fn resolve_binding(&self, name: &String) -> (r: JSValue)
        ensures
            r == (if self@.binding.contains_key(name@) {
                self@.binding[name@].0.value
            } else {
                JSValue::Undefined
            }),
    {
        match binding_get(&self.binding, name) {
            Some(entry) => entry.0.get(),
            None => JSValue::Undefined,
        }
    }

    /// The variable bound to `name`, or a reference error when there is none.
    pub fn get_immutable_binding(&self, name: &String) -> (r: Result<Variable, String>)
        ensures
            self@.binding.contains_key(name@) ==> r == Ok::<Variable, String>(
                self@.binding[name@].0,
            ),
            !self@.binding.contains_key(name@) ==> (r matches Err(m) && m@ == undefined_message(name@)),
    {
        match binding_get(&self.binding, name) {
            Some(entry) => Ok(entry.0),
            None => Err(message("ReferenceError: ", name, " is not defined")),
        }
    }

    /// The variable bound to `name`, to assign in place, when it may be assigned; a reference
    /// error when there is none, and an error when it is constant. What is written through
    /// the reference is what the environment then binds to `name`.
    pub fn get_mutable_binding(&mut self, name: &String) -> (r: Result<&mut Variable, String>)
        ensures
            !old(self)@.binding.contains_key(name@) ==> (r matches Err(m) && m@
                == undefined_message(name@)) && final(self)@ == old(self)@,
            old(self)@.binding.contains_key(name@) && !old(self)@.binding[name@].0.mutable
                ==> (r matches Err(m) && m@ == constant_message(name@)) && final(self)@ == old(self)@,
            old(self)@.binding.contains_key(name@) && old(self)@.binding[name@].0.mutable
                ==> r is Ok,
            r matches Ok(v) ==> *v == old(self)@.binding[name@].0 && final(self)@ == (EnvView {
                binding: old(self)@.binding.insert(name@, (*final(v), old(self)@.binding[name@].1)),
                recovery: old(self)@.recovery,
            }),
    {
        let ghost b0 = binding_entries(self.binding);
        match binding_get_mut(&mut self.binding, name) {
            Some(entry) => {
                if entry.0.is_mutable() {
                    Ok(&mut entry.0)
                } else {
                    proof {
                        assert(b0.insert(name@, b0[name@]) =~= b0);
                    }
                    Err(prefixed("Cannot assign to constant variable ", name))
                }
            },
            None => Err(message("ReferenceError: ", name, " is not defined")),
        }
    }

    /// Declares `name` in the innermost scope, with `value` (or `undefined`); refused when
    /// the innermost scope already declares it.
    fn initialize_binding(&mut self, name: &String, value: Option<JSValue>, mutable: bool) -> (r:
        Result<(), String>)
        requires
            old(self)@.recovery.len() > 0,
        ensures
            redeclared(old(self)@, name@) ==> (r matches Err(m) && m@ == redeclaration_message(name@)
                && final(self)@ == old(self)@),
            !redeclared(old(self)@, name@) ==> r is Ok && final(self)@ == declare_spec(
                old(self)@,
                name@,
                Variable {
                    value: match value {
                        Some(v) => v,
                        None => JSValue::Undefined,
                    },
                    mutable,
                },
            ),
    {
        let existing = binding_get(&self.binding, name);
        let depth = self.depth();
        let v = match value {
            Some(v) => v,
            None => JSValue::Undefined,
        };
        match existing {
            Some(entry) => {
                if entry.1 == depth {
                    return Err(message("SyntaxError: redeclaration of formal parameter \"", name, "\""));
                }
                self.add_recover_variable(name.clone(), Some(entry));
            },
            None => {
                self.add_recover_variable(name.clone(), None);
            },
        }
        binding_insert(&mut self.binding, name.clone(), (Variable::new(v, mutable), depth));
        Ok(())
    }

    /// Declares an assignable `name` in the innermost scope (see `initialize_binding`).
    pub fn initialize_mutable_binding(&mut self, name: &String, value: Option<JSValue>) -> (r:
        Result<(), String>)
        requires
            old(self)@.recovery.len() > 0,
        ensures
            redeclared(old(self)@, name@) ==> (r matches Err(m) && m@ == redeclaration_message(name@)
                && final(self)@ == old(self)@),
            !redeclared(old(self)@, name@) ==> r is Ok && final(self)@ == declare_spec(
                old(self)@,
                name@,
                Variable {
                    value: match value {
                        Some(v) => v,
                        None => JSValue::Undefined,
                    },
                    mutable: true,
                },
            ),
    {
        self.initialize_binding(name, value, true)
    }

    /// Declares a constant `name` in the innermost scope (see `initialize_binding`).
    pub fn initialize_immutable_binding(&mut self, name: &String, value: Option<JSValue>) -> (r:
        Result<(), String>)
        requires
            old(self)@.recovery.len() > 0,
        ensures
            redeclared(old(self)@, name@) ==> (r matches Err(m) && m@ == redeclaration_message(name@)
                && final(self)@ == old(self)@),
            !redeclared(old(self)@, name@) ==> r is Ok && final(self)@ == declare_spec(
                old(self)@,
                name@,
                Variable {
                    value: match value {
                        Some(v) => v,
                        None => JSValue::Undefined,
                    },
                    mutable: false,
                },
            ),
    {
        self.initialize_binding(name, value, false)
    }

    /// Assigns `value` to the variable bound to `name`, wherever it was declared; errors as
    /// `get_mutable_binding` does, leaving the environment as it is.
    pub fn set_mutable_binding(&mut self, name: &String, value: JSValue) -> (r: Result<(), String>)
        ensures
            !old(self)@.binding.contains_key(name@) ==> (r matches Err(m) && m@
                == undefined_message(name@) && final(self)@ == old(self)@),
            old(self)@.binding.contains_key(name@) && !old(self)@.binding[name@].0.mutable
                ==> (r matches Err(m) && m@ == constant_message(name@) && final(self)@ == old(self)@),
            old(self)@.binding.contains_key(name@) && old(self)@.binding[name@].0.mutable
                ==> r is Ok && final(self)@ == (EnvView {
                binding: old(self)@.binding.insert(
                    name@,
                    (Variable { value, mutable: true }, old(self)@.binding[name@].1),
                ),
                recovery: old(self)@.recovery,
            }),
    {
        match binding_get(&self.binding, name) {
            Some(entry) => {
                if entry.0.is_mutable() {
                    let mut var = entry.0;
                    var.set(value);
                    binding_insert(&mut self.binding, name.clone(), (var, entry.1));
                    Ok(())
                } else {
                    Err(prefixed("Cannot assign to constant variable ", name))
                }
            },
            None => Err(message("ReferenceError: ", name, " is not defined")),
        }
    }

    /// A fresh environment for a closure, holding the variables named in `captures` at depth
    /// zero; `None` when one of them is not bound.
    pub fn closure(&mut self, captures: Vec<String>) -> (r: Option<Self>)
        ensures
            *final(self) == *old(self),
            all_bound(old(self)@.binding, captures@) ==> (r matches Some(env) && env@.recovery
                == one_scope() && env@.binding == captured(old(self)@.binding, captures@)),
            !all_bound(old(self)@.binding, captures@) ==> r is None,
    {
        let mut env = EnvironmentRecord::new();
        let n = captures.len();
        let mut i: usize = 0;
        proof {
            assert(env@.binding =~= captured(self@.binding, captures@.take(0)));
        }
        while i < n
            invariant
                0 <= i <= n,
                n == captures@.len(),
                env@.recovery == one_scope(),
                all_bound(self@.binding, captures@.take(i as int)),
                env@.binding == captured(self@.binding, captures@.take(i as int)),
            decreases n - i,
        {
            let name = &captures[i];
            match binding_get(&self.binding, name) {
                Some(entry) => {
                    binding_insert(&mut env.binding, name.clone(), (entry.0, 0));
                    proof {
                        let t = captures@.take(i + 1);
                        assert forall|k: int| 0 <= k < t.len() implies self@.binding.contains_key(
                            #[trigger] t[k]@,
                        ) by {
                            if k < i {
                                assert(t[k] == captures@.take(i as int)[k]);
                            }
                        }
                        assert forall|s: Seq<char>|
                            #[trigger] env@.binding.contains_key(s) == captured(
                                self@.binding,
                                t,
                            ).contains_key(s) by {
                            if s == name@ {
                                assert(t[i as int]@ == s);
                            } else {
                                if (exists|k: int| 0 <= k < t.len() && #[trigger] t[k]@ == s) {
                                    let k = choose|k: int| 0 <= k < t.len() && #[trigger] t[k]@ == s;
                                    assert(captures@.take(i as int)[k]@ == s);
                                }
                                if (exists|k: int| 0 <= k < i && #[trigger] captures@.take(i as int)[k]@ == s) {
                                    let k = choose|k: int| 0 <= k < i && #[trigger] captures@.take(i as int)[k]@ == s;
                                    assert(t[k]@ == s);
                                }
                            }
                        }
                        assert(env@.binding =~= captured(self@.binding, t));
                    }
                },
                None => {
                    proof {
                        assert(!self@.binding.contains_key(captures@[i as int]@));
                    }
                    return None;
                },
            }
            i = i + 1;
        }
        proof {
            assert(captures@.take(n as int) =~= captures@);
        }
        Some(env)
    }
}

/// Whether every name in `captures` is bound.
pub open spec fn all_bound(b: Map<Seq<char>, Entry>, captures: Seq<String>) -> bool {
    forall|k: int| 0 <= k < captures.len() ==> b.contains_key(#[trigger] captures[k]@)
}

/// The bindings of a closure over `captures`: each captured variable, at depth zero.
pub open spec fn captured(b: Map<Seq<char>, Entry>, captures: Seq<String>) -> Map<Seq<char>, Entry> {
    Map::new(
        |s: Seq<char>| exists|k: int| 0 <= k < captures.len() && #[trigger] captures[k]@ == s,
        |s: Seq<char>| (b[s].0, 0usize),
    )
}

/// The recovery of a fresh environment: one open scope, with nothing to undo.
pub open spec fn one_scope() -> Seq<Seq<(Seq<char>, Option<Entry>)>> {
    seq![Seq::<(Seq<char>, Option<Entry>)>::empty()]
}

/// Declarations of a block: each name in turn declared with its variable.
pub open spec fn declare_all(e: EnvView, decls: Seq<(Seq<char>, Variable)>) -> EnvView
    decreases decls.len(),
{
    if decls.len() == 0 {
        e
    } else {
        declare_spec(declare_all(e, decls.drop_last()), decls.last().0, decls.last().1)
    }
}

/// Whether no name is declared twice.
pub open spec fn distinct_names(decls: Seq<(Seq<char>, Variable)>) -> bool {
    forall|i: int, j: int| 0 <= i < j < decls.len() ==> decls[i].0 != decls[j].0
}

/// The bindings after the declarations, each at `depth`.
pub open spec fn inserted(b: Map<Seq<char>, Entry>, decls: Seq<(Seq<char>, Variable)>, depth: usize) -> Map<
    Seq<char>,
    Entry,
>
    decreases decls.len(),
{
    if decls.len() == 0 {
        b
    } else {
        inserted(b, decls.drop_last(), depth).insert(decls.last().0, (decls.last().1, depth))
    }
}

/// What the declarations shadow: for each name, its entry in `b`, if any.
pub open spec fn saved_list(b: Map<Seq<char>, Entry>, decls: Seq<(Seq<char>, Variable)>) -> Seq<
    (Seq<char>, Option<Entry>),
> {
    Seq::new(
        decls.len(),
        |i: int|
            (
                decls[i].0,
                if b.contains_key(decls[i].0) {
                    Some(b[decls[i].0])
                } else {
                    None
                },
            ),
    )
}

proof fn lemma_inserted_other(
    b: Map<Seq<char>, Entry>,
    decls: Seq<(Seq<char>, Variable)>,
    depth: usize,
    k: Seq<char>,
)
    requires
        forall|i: int| 0 <= i < decls.len() ==> decls[i].0 != k,
    ensures
        inserted(b, decls, depth).contains_key(k) == b.contains_key(k),
        b.contains_key(k) ==> inserted(b, decls, depth)[k] == b[k],
    decreases decls.len(),
{
    if decls.len() > 0 {
        lemma_inserted_other(b, decls.drop_last(), depth, k);
    }
}

proof fn lemma_restore_insert(
    m: Map<Seq<char>, Entry>,
    items: Seq<(Seq<char>, Option<Entry>)>,
    k: Seq<char>,
    v: Entry,
)
    requires
        forall|i: int| 0 <= i < items.len() ==> items[i].0 != k,
    ensures
        restore(m.insert(k, v), items) == restore(m, items).insert(k, v),
    decreases items.len(),
{
    if items.len() > 0 {
        lemma_restore_insert(m, items.drop_last(), k, v);
        let y = items.last();
        let r = restore(m, items.drop_last());
        match y.1 {
            Some(e) => {
                assert(r.insert(k, v).insert(y.0, e) =~= r.insert(y.0, e).insert(k, v));
            },
            None => {
                assert(r.insert(k, v).remove(y.0) =~= r.remove(y.0).insert(k, v));
            },
        }
    }
}

proof fn lemma_restore_inserted(b: Map<Seq<char>, Entry>, decls: Seq<(Seq<char>, Variable)>, depth: usize)
    requires
        distinct_names(decls),
    ensures
        restore(inserted(b, decls, depth), saved_list(b, decls)) == b,
    decreases decls.len(),
{
    if decls.len() > 0 {
        let front = decls.drop_last();
        let x = decls.last();
        assert forall|i: int, j: int| 0 <= i < j < front.len() implies front[i].0 != front[j].0 by {
            assert(decls[i] == front[i] && decls[j] == front[j]);
        }
        lemma_restore_inserted(b, front, depth);
        let sl = saved_list(b, front);
        assert(saved_list(b, decls).drop_last() =~= sl);
        assert forall|i: int| 0 <= i < sl.len() implies sl[i].0 != x.0 by {
            assert(decls[i] == front[i]);
        }
        lemma_restore_insert(inserted(b, front, depth), sl, x.0, (x.1, depth));
        if b.contains_key(x.0) {
            assert(b.insert(x.0, (x.1, depth)).insert(x.0, b[x.0]) =~= b);
        } else {
            assert(b.insert(x.0, (x.1, depth)).remove(x.0) =~= b);
        }
    }
}

proof fn lemma_declare_all_shape(e: EnvView, decls: Seq<(Seq<char>, Variable)>)
    requires
        distinct_names(decls),
        e.recovery.len() + 1 <= usize::MAX,
    ensures
        declare_all(enter_spec(e), decls) == (EnvView {
            binding: inserted(e.binding, decls, (e.recovery.len() + 1) as usize),
            recovery: e.recovery.push(saved_list(e.binding, decls)),
        }),
    decreases decls.len(),
{
    let d = (e.recovery.len() + 1) as usize;
    if decls.len() == 0 {
        assert(saved_list(e.binding, decls) =~= Seq::<(Seq<char>, Option<Entry>)>::empty());
    } else {
        let front = decls.drop_last();
        let x = decls.last();
        assert forall|i: int, j: int| 0 <= i < j < front.len() implies front[i].0 != front[j].0 by {
            assert(decls[i] == front[i] && decls[j] == front[j]);
        }
        lemma_declare_all_shape(e, front);
        assert forall|i: int| 0 <= i < front.len() implies front[i].0 != x.0 by {
            assert(decls[i] == front[i]);
        }
        lemma_inserted_other(e.binding, front, d, x.0);
        let prev = declare_all(enter_spec(e), front);
        assert(saved_list(e.binding, front).push(
            (x.0, if e.binding.contains_key(x.0) { Some(e.binding[x.0]) } else { None }),
        ) =~= saved_list(e.binding, decls));
        assert(prev.recovery.update(prev.recovery.len() - 1, prev.recovery.last().push(
            (x.0, if prev.binding.contains_key(x.0) { Some(prev.binding[x.0]) } else { None }),
        )) =~= e.recovery.push(saved_list(e.binding, decls)));
    }
}

/// Leaving a block undoes its declarations: after entering a scope and declaring names in
/// it, no name twice, leaving the scope gives back the environment as it was before the
/// scope was entered. None of the declarations is refused, provided every binding was
/// declared at the current depth or outside it.
pub proof fn law_exit_undoes_block(e: EnvView, decls: Seq<(Seq<char>, Variable)>)
    requires
        distinct_names(decls),
        e.recovery.len() + 1 <= usize::MAX,
        forall|k: Seq<char>| #[trigger] e.binding.contains_key(k) ==> e.binding[k].1 <= e.recovery.len(),
    ensures
        forall|i: int|
            0 <= i < decls.len() ==> !redeclared(
                declare_all(enter_spec(e), #[trigger] decls.take(i)),
                decls[i].0,
            ),
        exit_spec(declare_all(enter_spec(e), decls)) == e,
{
    let d = (e.recovery.len() + 1) as usize;
    assert forall|i: int|
        0 <= i < decls.len() implies !redeclared(
        declare_all(enter_spec(e), #[trigger] decls.take(i)),
        decls[i].0,
    ) by {
        let t = decls.take(i);
        assert forall|a: int, b: int| 0 <= a < b < t.len() implies t[a].0 != t[b].0 by {
            assert(t[a] == decls[a] && t[b] == decls[b]);
        }
        lemma_declare_all_shape(e, t);
        assert forall|a: int| 0 <= a < t.len() implies t[a].0 != decls[i].0 by {
            assert(t[a] == decls[a]);
        }
        lemma_inserted_other(e.binding, t, d, decls[i].0);
    }
    lemma_declare_all_shape(e, decls);
    lemma_restore_inserted(e.binding, decls, d);
    assert(exit_spec(declare_all(enter_spec(e), decls)).recovery =~= e.recovery);
}

} // verus!
