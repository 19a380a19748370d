//! The environment of one evaluation run: a mapping from identifier to either
//! a stored expression or a builtin utility, the pseudo-random generator, and
//! the accumulating output buffer.
use vstd::prelude::*;
use vstd::string::StringExecFns;

use crate::ast::{clone_expr, Expr, ExprModel};
use crate::rng::Rng;

verus! {

/// What an identifier resolves to.
#[derive(Debug)]
pub enum Entry {
    /// A stored expression from a variable binding, re-evaluated on every
    /// reference.
    Var(Expr),
    /// The builtin zero-argument generator of pseudo-random integers.
    Rand,
    /// The builtin one-argument utility that appends a line to the output.
    Print,
}

/// The mathematical counterpart of `Entry`.
pub enum EntryModel {
    Var(ExprModel),
    Rand,
    Print,
}

impl View for Entry {
    type V = EntryModel;

    open spec fn view(&self) -> EntryModel {
        match self {
            Entry::Var(e) => EntryModel::Var(e@),
            Entry::Rand => EntryModel::Rand,
            Entry::Print => EntryModel::Print,
        }
    }
}

#[verifier::ext_equal]
/// The mutable state of a run: the bounds of the pseudo-random draws served so
/// far and the accumulated output text.
pub struct RunState {
    pub rand_past: Seq<(u32, u32)>,
    pub output: Seq<char>,
}

/// The state of a run that has drawn nothing and printed nothing.
pub open spec fn initial_state() -> RunState {
    RunState { rand_past: Seq::empty(), output: Seq::empty() }
}

/// The identifier table as a mathematical map: later entries of the list
/// shadow earlier entries with the same name.
pub open spec fn map_of(s: Seq<(String, Entry)>) -> Map<Seq<char>, EntryModel>
    decreases s.len(),
{
    if s.len() == 0 {
        Map::empty()
    } else {
        map_of(s.drop_last()).insert(s.last().0@, s.last().1@)
    }
}

/// The identifier table holding exactly the two builtins.
pub open spec fn builtins_env() -> Map<Seq<char>, EntryModel> {
    Map::empty().insert("RAND"@, EntryModel::Rand).insert("PRINT"@, EntryModel::Print)
}

/// The mathematical counterpart of `Context`.
#[verifier::ext_equal]
pub struct ContextModel {
    pub env: Map<Seq<char>, EntryModel>,
    pub seed: u64,
    pub st: RunState,
}

/// The environment of one run. It is created once, pre-populated with the
/// builtins, extended with the user's variable bindings, consulted during
/// evaluation, and finally consumed by `into_output`.
pub struct Context {
    pub entries: Vec<(String, Entry)>,
    pub rng: Rng,
    pub output: String,
}

impl View for Context {
    type V = ContextModel;

    open spec fn view(&self) -> ContextModel {
        ContextModel {
            env: map_of(self.entries@),
            seed: self.rng.seed(),
            st: RunState { rand_past: self.rng.past(), output: self.output@ },
        }
    }
}

/// Installing the bindings of `ps`, in order, on top of `env`: later pairs
/// overwrite earlier pairs of the same name.
pub open spec fn install_pairs(
    env: Map<Seq<char>, EntryModel>,
    ps: Seq<(String, Expr)>,
) -> Map<Seq<char>, EntryModel>
    decreases ps.len(),
{
    if ps.len() == 0 {
        env
    } else {
        install_pairs(env, ps.drop_last()).insert(ps.last().0@, EntryModel::Var(ps.last().1@))
    }
}

impl Context {
    /// A fresh environment holding exactly the builtins `RAND` (drawing from a
    /// generator seeded with `seed`) and `PRINT`, with an empty output buffer.
    pub fn builtins(seed: u64) -> (r: Self)
        ensures
            r@.env == builtins_env(),
            r@.seed == seed,
            r@.st == initial_state(),
    {
        let mut entries: Vec<(String, Entry)> = Vec::new();
        entries.push((String::from_str("RAND"), Entry::Rand));
        entries.push((String::from_str("PRINT"), Entry::Print));
        let r = Context { entries, rng: Rng::new(seed), output: String::new() };
        proof {
            assert(r.entries@.drop_last() =~= seq![r.entries@[0]]);
            assert(r.entries@.drop_last().drop_last() =~= Seq::<(String, Entry)>::empty());
            assert(map_of(r.entries@.drop_last().drop_last()) =~= Map::<Seq<char>,
            EntryModel>::empty());
            assert(map_of(r.entries@.drop_last()) =~= Map::<Seq<char>, EntryModel>::empty().insert(
                "RAND"@,
                EntryModel::Rand,
            ));
            assert(map_of(r.entries@) =~= builtins_env());
            assert(r@.st =~= initial_state());
        }
        r
    }

    /// Extends the identifier table with variable bindings, without evaluating
    /// their right-hand expressions; a later binding overwrites an earlier one
    /// of the same name.
    pub fn with_variables(self, variables: Vec<(String, Expr)>) -> (r: Self)
        ensures
            r@.env == install_pairs(self@.env, variables@),
            r@.seed == self@.seed,
            r@.st == self@.st,
    {
        let mut cx = self;
        let ghost env0 = cx@.env;
        let ghost st0 = cx@.st;
        let mut i: usize = 0;
        while i < variables.len()
            invariant
                i <= variables.len(),
                cx@.env == install_pairs(env0, variables@.take(i as int)),
                cx@.seed == self@.seed,
                cx@.st == st0,
            decreases variables.len() - i,
        {
            let name = variables[i].0.clone();
            let value = clone_expr(&variables[i].1);
            let ghost before = cx.entries@;
            cx.entries.push((name, Entry::Var(value)));
            proof {
                assert(cx.entries@.drop_last() =~= before);
                assert(variables@.take(i as int + 1).drop_last() =~= variables@.take(i as int));
                assert(variables@.take(i as int + 1).last() == variables@[i as int]);
            }
            i += 1;
        }
        proof {
            assert(variables@.take(variables@.len() as int) =~= variables@);
        }
        cx
    }

    /// Consumes the environment and hands out the accumulated output text.
    pub fn into_output(self) -> (r: String)
        ensures
            r@ == self@.st.output,
    {
        self.output
    }
}

/// Looks `name` up in the identifier table, returning a copy of the newest
/// entry of that name, or `None` where the table has none.
pub fn lookup_entry(entries: &Vec<(String, Entry)>, name: &String) -> (r: Option<Entry>)
    ensures
        match r {
            Some(e) => map_of(entries@).contains_key(name@) && e@ == map_of(entries@)[name@],
            None => !map_of(entries@).contains_key(name@),
        },
{
    let mut i: usize = entries.len();
    while i > 0
        invariant
            i <= entries.len(),
            forall|j: int| i <= j < entries@.len() ==> entries@[j].0@ != name@,
        decreases i,
    {
        i = i - 1;
        if entries[i].0 == *name {
            let copy = match &entries[i].1 {
                Entry::Var(e) => Entry::Var(clone_expr(e)),
                Entry::Rand => Entry::Rand,
                Entry::Print => Entry::Print,
            };
            proof {
                lemma_map_of_found(entries@, name@, i as int);
            }
            return Some(copy);
        }
    }
    proof {
        lemma_map_of_absent(entries@, name@);
    }
    None
}

/// Where position `i` holds the newest entry named `name`, the table's map
/// resolves `name` to that entry.
proof fn lemma_map_of_found(s: Seq<(String, Entry)>, name: Seq<char>, i: int)
    requires
        0 <= i < s.len(),
        s[i].0@ == name,
        forall|j: int| i < j < s.len() ==> s[j].0@ != name,
    ensures
        map_of(s).contains_key(name),
        map_of(s)[name] == s[i].1@,
    decreases s.len(),
{
    if i == s.len() - 1 {
    } else {
        lemma_map_of_found(s.drop_last(), name, i);
    }
}

/// Where no entry is named `name`, the table's map does not resolve it.
proof fn lemma_map_of_absent(s: Seq<(String, Entry)>, name: Seq<char>)
    requires
        forall|j: int| 0 <= j < s.len() ==> s[j].0@ != name,
    ensures
        !map_of(s).contains_key(name),
    decreases s.len(),
{
    if s.len() > 0 {
        lemma_map_of_absent(s.drop_last(), name);
    }
}

} // verus!
