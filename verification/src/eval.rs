//! The tree-walking evaluator: reduces an expression to a 32-bit integer,
//! resolving identifiers against the environment, drawing from the
//! pseudo-random generator and appending to the output buffer as it goes.
use vstd::prelude::*;
use vstd::string::StringExecFns;

use crate::ast::{Expr, ExprModel, Init, InitModel, Math, MathModel};
use crate::context::{lookup_entry, Context, Entry, EntryModel, RunState};
use crate::numfmt::{dec_str_i32, i32_to_string};
use crate::rng::rand_draw;

verus! {

/// How a run can fail once parsing has succeeded. Every failure is fatal: no
/// partial output is produced.
#[derive(Clone, Copy, Debug, PartialEq, Eq, Structural)]
pub enum EvalError {
    /// An identifier has no entry in the environment at lookup time.
    UnresolvedIdentifier,
    /// A builtin was invoked with the wrong argument arity.
    ArityMismatch,
    /// The right operand of a division evaluated to zero.
    DivisionByZero,
    /// A chain of variable references exceeded the evaluator's call-depth
    /// limit.
    DepthLimitExceeded,
}

/// How many variable references an evaluation may chase through before it
/// gives up; a bound on call depth, not part of the language.
pub const EVAL_FUEL: u64 = 256;

/// The lower (inclusive) and upper (exclusive) bound of every `RAND` draw.
pub const RAND_LO: u32 = 0;

/// The upper (exclusive) bound of every `RAND` draw.
pub const RAND_HI: u32 = 100;

/// Arithmetic negation on 32-bit integers with wraparound.
pub open spec fn neg_wrap(v: i32) -> i32 {
    if v == i32::MIN {
        i32::MIN
    } else {
        (-(v as int)) as i32
    }
}

/// Truncating division on 32-bit integers with wraparound, for a nonzero
/// divisor.
pub open spec fn div_trunc(a: i32, b: i32) -> i32
    recommends
        b != 0,
{
    if a == i32::MIN && b == -1 {
        i32::MIN
    } else {
        let x = a as int;
        let d = b as int;
        let q = if x == 0 {
            0int
        } else if x > 0 && d > 0 {
            x / d
        } else if x < 0 && d < 0 {
            (x * -1) / (d * -1)
        } else if x < 0 {
            ((x * -1) / d) * -1
        } else {
            (x / (d * -1)) * -1
        };
        q as i32
    }
}

/// The identifier environment as a mathematical map, for shorter signatures.
pub type EnvModel = Map<Seq<char>, EntryModel>;

/// What evaluating `e` returns and how it changes the run's state. The state
/// is threaded through even when the result is an error: side effects that
/// happened before the failure stay.
pub open spec fn eval_expr_model(
    env: EnvModel,
    seed: u64,
    e: ExprModel,
    st: RunState,
    fuel: nat,
) -> (Result<i32, EvalError>, RunState)
    decreases fuel, e,
{
    match e {
        ExprModel::Number(n) => (Ok(n), st),
        ExprModel::Ident(name) => {
            if !env.contains_key(name) {
                (Err(EvalError::UnresolvedIdentifier), st)
            } else {
                match env[name] {
                    EntryModel::Var(stored) => {
                        if fuel == 0 {
                            (Err(EvalError::DepthLimitExceeded), st)
                        } else {
                            eval_expr_model(env, seed, stored, st, (fuel - 1) as nat)
                        }
                    },
                    EntryModel::Rand => (
                        Ok(rand_draw(seed, st.rand_past, RAND_LO, RAND_HI) as i32),
                        RunState { rand_past: st.rand_past.push((RAND_LO, RAND_HI)), ..st },
                    ),
                    EntryModel::Print => (Err(EvalError::ArityMismatch), st),
                }
            }
        },
        ExprModel::Negate(a) => {
            let (ra, st1) = eval_expr_model(env, seed, *a, st, fuel);
            match ra {
                Ok(v) => (Ok(neg_wrap(v)), st1),
                Err(k) => (Err(k), st1),
            }
        },
        ExprModel::Add(a, b) => {
            let (ra, st1) = eval_expr_model(env, seed, *a, st, fuel);
            match ra {
                Ok(va) => {
                    let (rb, st2) = eval_expr_model(env, seed, *b, st1, fuel);
                    match rb {
                        Ok(vb) => (Ok(vstd::wrapping::i32_specs::wrapping_add(va, vb)), st2),
                        Err(k) => (Err(k), st2),
                    }
                },
                Err(k) => (Err(k), st1),
            }
        },
        ExprModel::Subtract(a, b) => {
            let (ra, st1) = eval_expr_model(env, seed, *a, st, fuel);
            match ra {
                Ok(va) => {
                    let (rb, st2) = eval_expr_model(env, seed, *b, st1, fuel);
                    match rb {
                        Ok(vb) => (Ok(vstd::wrapping::i32_specs::wrapping_sub(va, vb)), st2),
                        Err(k) => (Err(k), st2),
                    }
                },
                Err(k) => (Err(k), st1),
            }
        },
        ExprModel::Multiply(a, b) => {
            let (ra, st1) = eval_expr_model(env, seed, *a, st, fuel);
            match ra {
                Ok(va) => {
                    let (rb, st2) = eval_expr_model(env, seed, *b, st1, fuel);
                    match rb {
                        Ok(vb) => (Ok(vstd::wrapping::i32_specs::wrapping_mul(va, vb)), st2),
                        Err(k) => (Err(k), st2),
                    }
                },
                Err(k) => (Err(k), st1),
            }
        },
        ExprModel::Divide(a, b) => {
            let (ra, st1) = eval_expr_model(env, seed, *a, st, fuel);
            match ra {
                Ok(va) => {
                    let (rb, st2) = eval_expr_model(env, seed, *b, st1, fuel);
                    match rb {
                        Ok(vb) => {
                            if vb == 0 {
                                (Err(EvalError::DivisionByZero), st2)
                            } else {
                                (Ok(div_trunc(va, vb)), st2)
                            }
                        },
                        Err(k) => (Err(k), st2),
                    }
                },
                Err(k) => (Err(k), st1),
            }
        },
    }
}

/// What invoking the utility named `name` with the already-evaluated argument
/// `argv` returns and does to the run's state. A stored variable ignores the
/// argument and is re-evaluated; `RAND` takes no argument; `PRINT` appends one
/// line and evaluates to zero.
pub open spec fn run_utility_model(
    env: EnvModel,
    seed: u64,
    name: Seq<char>,
    argv: i32,
    st: RunState,
    fuel: nat,
) -> (Result<i32, EvalError>, RunState) {
    if !env.contains_key(name) {
        (Err(EvalError::UnresolvedIdentifier), st)
    } else {
        match env[name] {
            EntryModel::Var(stored) => {
                if fuel == 0 {
                    (Err(EvalError::DepthLimitExceeded), st)
                } else {
                    eval_expr_model(env, seed, stored, st, (fuel - 1) as nat)
                }
            },
            EntryModel::Rand => (Err(EvalError::ArityMismatch), st),
            EntryModel::Print => (
                Ok(0),
                RunState { output: st.output + dec_str_i32(argv) + seq!['\n'], ..st },
            ),
        }
    }
}

/// The environment after installing the variable bindings of `inits`, in
/// order, on top of `env`; utility invocations install nothing.
pub open spec fn install_vars_model(env: EnvModel, inits: Seq<InitModel>) -> EnvModel
    decreases inits.len(),
{
    if inits.len() == 0 {
        env
    } else {
        match inits.last() {
            InitModel::Var(name, value) => install_vars_model(env, inits.drop_last()).insert(
                name,
                EntryModel::Var(value),
            ),
            InitModel::UtilityUse(_, _) => install_vars_model(env, inits.drop_last()),
        }
    }
}

/// Running the utility invocations of `inits` in textual order against the
/// fully populated environment: `None` where all succeed, else the first
/// failure. Variable bindings do nothing here.
pub open spec fn run_inits_model(
    env: EnvModel,
    seed: u64,
    inits: Seq<InitModel>,
    st: RunState,
) -> (Option<EvalError>, RunState)
    decreases inits.len(),
{
    if inits.len() == 0 {
        (None, st)
    } else {
        match inits[0] {
            InitModel::Var(_, _) => run_inits_model(env, seed, inits.skip(1), st),
            InitModel::UtilityUse(name, param) => {
                let (ra, st1) = eval_expr_model(env, seed, param, st, EVAL_FUEL as nat);
                match ra {
                    Err(k) => (Some(k), st1),
                    Ok(argv) => {
                        let (ru, st2) = run_utility_model(env, seed, name, argv, st1, EVAL_FUEL as nat);
                        match ru {
                            Err(k) => (Some(k), st2),
                            Ok(_) => run_inits_model(env, seed, inits.skip(1), st2),
                        }
                    },
                }
            },
        }
    }
}

/// What a whole program evaluates to, starting from the environment `env0`
/// (normally the builtins) and state `st0`: first all variable bindings are
/// installed as one batch, then the utility invocations run in textual order,
/// then the terminating expression is evaluated; the result is the accumulated
/// output and the final integer.
pub open spec fn eval_program_model(
    env0: EnvModel,
    seed: u64,
    st0: RunState,
    m: MathModel,
) -> Result<(Seq<char>, i32), EvalError> {
    let env = install_vars_model(env0, m.init);
    let (ri, st1) = run_inits_model(env, seed, m.init, st0);
    match ri {
        Some(k) => Err(k),
        None => {
            let (rf, st2) = eval_expr_model(env, seed, m.end_expression, st1, EVAL_FUEL as nat);
            match rf {
                Err(k) => Err(k),
                Ok(v) => Ok((st2.output, v)),
            }
        },
    }
}

/// Evaluates `e` against `cx`, as `eval_expr_model` says: the result is that
/// of the model, and the context's state moves to the model's final state
/// while its identifier table and seed stay.
pub fn eval_expr(cx: &mut Context, e: &Expr, fuel: u64) -> (r: Result<i32, EvalError>)
    ensures
        ({
            let (rm, stm) = eval_expr_model(old(cx)@.env, old(cx)@.seed, e@, old(cx)@.st, fuel as nat);
            &&& r == rm
            &&& final(cx)@.st == stm
            &&& final(cx)@.env == old(cx)@.env
            &&& final(cx)@.seed == old(cx)@.seed
        }),
    decreases fuel, e,
{
    match e {
        Expr::Number(n) => Ok(*n),
        Expr::Ident(name) => {
            match lookup_entry(&cx.entries, name) {
                None => Err(EvalError::UnresolvedIdentifier),
                Some(Entry::Var(stored)) => {
                    if fuel == 0 {
                        Err(EvalError::DepthLimitExceeded)
                    } else {
                        eval_expr(cx, &stored, fuel - 1)
                    }
                },
                Some(Entry::Rand) => {
                    let d = cx.rng.draw(RAND_LO, RAND_HI);
                    Ok(d as i32)
                },
                Some(Entry::Print) => Err(EvalError::ArityMismatch),
            }
        },
        Expr::Negate(a) => {
            match eval_expr(cx, a, fuel) {
                Ok(v) => Ok(if v == i32::MIN { i32::MIN } else { -v }),
                Err(k) => Err(k),
            }
        },
        Expr::Add(a, b) => {
            match eval_expr(cx, a, fuel) {
                Ok(va) => match eval_expr(cx, b, fuel) {
                    Ok(vb) => Ok(va.wrapping_add(vb)),
                    Err(k) => Err(k),
                },
                Err(k) => Err(k),
            }
        },
        Expr::Subtract(a, b) => {
            match eval_expr(cx, a, fuel) {
                Ok(va) => match eval_expr(cx, b, fuel) {
                    Ok(vb) => Ok(va.wrapping_sub(vb)),
                    Err(k) => Err(k),
                },
                Err(k) => Err(k),
            }
        },
        Expr::Multiply(a, b) => {
            match eval_expr(cx, a, fuel) {
                Ok(va) => match eval_expr(cx, b, fuel) {
                    Ok(vb) => Ok(va.wrapping_mul(vb)),
                    Err(k) => Err(k),
                },
                Err(k) => Err(k),
            }
        },
        Expr::Divide(a, b) => {
            match eval_expr(cx, a, fuel) {
                Ok(va) => match eval_expr(cx, b, fuel) {
                    Ok(vb) => {
                        if vb == 0 {
                            Err(EvalError::DivisionByZero)
                        } else {
                            proof {
                                lemma_div_trunc_fits(va, vb);
                            }
                            match va.checked_div(vb) {
                                Some(q) => Ok(q),
                                None => Ok(i32::MIN),
                            }
                        }
                    },
                    Err(k) => Err(k),
                },
                Err(k) => Err(k),
            }
        },
    }
}

/// Invokes the utility named `name` with the already-evaluated argument
/// `argv`, as `run_utility_model` says.
pub fn run_utility(cx: &mut Context, name: &String, argv: i32, fuel: u64) -> (r: Result<
    i32,
    EvalError,
>)
    ensures
        ({
            let (rm, stm) = run_utility_model(
                old(cx)@.env,
                old(cx)@.seed,
                name@,
                argv,
                old(cx)@.st,
                fuel as nat,
            );
            &&& r == rm
            &&& final(cx)@.st == stm
            &&& final(cx)@.env == old(cx)@.env
            &&& final(cx)@.seed == old(cx)@.seed
        }),
{
    match lookup_entry(&cx.entries, name) {
        None => Err(EvalError::UnresolvedIdentifier),
        Some(Entry::Var(stored)) => {
            if fuel == 0 {
                Err(EvalError::DepthLimitExceeded)
            } else {
                eval_expr(cx, &stored, fuel - 1)
            }
        },
        Some(Entry::Rand) => Err(EvalError::ArityMismatch),
        Some(Entry::Print) => {
            let line = i32_to_string(argv);
            cx.output.append(line.as_str());
            cx.output.append("\n");
            proof {
                reveal_strlit("\n");
                assert(cx@.st.output =~= old(cx)@.st.output + dec_str_i32(argv) + seq!['\n']);
                assert(cx@.st =~= RunState {
                    output: old(cx)@.st.output + dec_str_i32(argv) + seq!['\n'],
                    ..old(cx)@.st
                });
            }
            Ok(0)
        },
    }
}

/// Installs the variable bindings among `inits[i..]` into the context, in
/// order.
fn install_vars(cx: &mut Context, inits: &Vec<Init>, i: usize)
    requires
        i <= inits@.len(),
    ensures
        final(cx)@.env == install_vars_model(
            old(cx)@.env,
            inits@.map_values(|x: Init| x@).skip(i as int),
        ),
        final(cx)@.seed == old(cx)@.seed,
        final(cx)@.st == old(cx)@.st,
    decreases inits@.len() - i,
{
    let ghost models = inits@.map_values(|x: Init| x@);
    if i == inits.len() {
        proof {
            assert(models.skip(i as int) =~= Seq::<InitModel>::empty());
        }
        return ;
    }
    match &inits[i] {
        Init::Var(v) => {
            let ghost before = cx.entries@;
            cx.entries.push((v.name.clone(), Entry::Var(crate::ast::clone_expr(&v.value))));
            proof {
                assert(cx.entries@.drop_last() =~= before);
            }
        },
        Init::UtilityUse(_) => {},
    }
    install_vars(cx, inits, i + 1);
    proof {
        assert(models.skip(i as int)[0] == models[i as int]);
        lemma_install_vars_step(old(cx)@.env, models.skip(i as int));
        assert(models.skip(i as int).skip(1) =~= models.skip(i as int + 1));
    }
}

/// Installing one binding of `init` on top of `env`.
pub open spec fn install_step(env: EnvModel, init: InitModel) -> EnvModel {
    match init {
        InitModel::Var(name, value) => env.insert(name, EntryModel::Var(value)),
        InitModel::UtilityUse(_, _) => env,
    }
}

/// Unrolls `install_vars_model` from the front: installing a nonempty batch is
/// installing its first binding and then the rest.
proof fn lemma_install_vars_step(env: EnvModel, inits: Seq<InitModel>)
    requires
        inits.len() > 0,
    ensures
        install_vars_model(env, inits) == install_vars_model(
            install_step(env, inits[0]),
            inits.skip(1),
        ),
    decreases inits.len(),
{
    let env1 = install_step(env, inits[0]);
    if inits.len() == 1 {
        assert(inits.last() == inits[0]);
        assert(inits.skip(1) =~= Seq::<InitModel>::empty());
        assert(inits.drop_last() =~= Seq::<InitModel>::empty());
        assert(install_vars_model(env, Seq::<InitModel>::empty()) == env);
        assert(install_vars_model(env1, Seq::<InitModel>::empty()) == env1);
    } else {
        let rest = inits.drop_last();
        lemma_install_vars_step(env, rest);
        assert(rest[0] == inits[0]);
        assert(rest.skip(1) =~= inits.skip(1).drop_last());
        assert(inits.skip(1).last() == inits.last());
        assert(install_vars_model(env, rest) == install_vars_model(
            env1,
            inits.skip(1).drop_last(),
        ));
    }
}

/// Apart from `i32::MIN / -1`, the truncating quotient of two 32-bit values
/// fits in 32 bits and `div_trunc` is exactly `i32::checked_div`'s quotient;
/// for `i32::MIN / -1` the quotient overflows.
proof fn lemma_div_trunc_fits(a: i32, b: i32)
    requires
        b != 0,
    ensures
        ({
            let x = a as int;
            let d = b as int;
            let output = if x == 0 {
                0int
            } else if x > 0 && d > 0 {
                x / d
            } else if x < 0 && d < 0 {
                (x * -1) / (d * -1)
            } else if x < 0 {
                ((x * -1) / d) * -1
            } else {
                (x / (d * -1)) * -1
            };
            &&& (a == i32::MIN && b == -1) ==> output > i32::MAX
            &&& !(a == i32::MIN && b == -1) ==> i32::MIN <= output <= i32::MAX && div_trunc(a, b)
                == output as i32
        }),
{
    let x = a as int;
    let d = b as int;
    if a == i32::MIN && b == -1 {
        vstd::arithmetic::div_mod::lemma_div_basics_2(x * -1);
    } else if x == 0 {
    } else if x > 0 && d > 0 {
        vstd::arithmetic::div_mod::lemma_div_pos_is_pos(x, d);
        vstd::arithmetic::div_mod::lemma_div_nonincreasing(x, d);
    } else if x < 0 && d < 0 {
        let p = x * -1;
        let q = d * -1;
        vstd::arithmetic::div_mod::lemma_div_pos_is_pos(p, q);
        if a == i32::MIN {
            // here b <= -2, so the quotient is strictly below the magnitude
            vstd::arithmetic::div_mod::lemma_div_is_strictly_smaller(p, q);
        } else {
            vstd::arithmetic::div_mod::lemma_div_nonincreasing(p, q);
        }
    } else if x < 0 {
        let p = x * -1;
        vstd::arithmetic::div_mod::lemma_div_pos_is_pos(p, d);
        vstd::arithmetic::div_mod::lemma_div_nonincreasing(p, d);
    } else {
        let q = d * -1;
        vstd::arithmetic::div_mod::lemma_div_pos_is_pos(x, q);
        vstd::arithmetic::div_mod::lemma_div_nonincreasing(x, q);
    }
}

/// Runs the utility invocations among `inits[i..]` in textual order, as
/// `run_inits_model` says: `None` where all succeed, else the first failure.
fn run_inits(cx: &mut Context, inits: &Vec<Init>, i: usize) -> (r: Option<EvalError>)
    requires
        i <= inits@.len(),
    ensures
        ({
            let (rm, stm) = run_inits_model(
                old(cx)@.env,
                old(cx)@.seed,
                inits@.map_values(|x: Init| x@).skip(i as int),
                old(cx)@.st,
            );
            &&& r == rm
            &&& final(cx)@.st == stm
            &&& final(cx)@.env == old(cx)@.env
            &&& final(cx)@.seed == old(cx)@.seed
        }),
    decreases inits@.len() - i,
{
    let ghost models = inits@.map_values(|x: Init| x@);
    if i == inits.len() {
        proof {
            assert(models.skip(i as int) =~= Seq::<InitModel>::empty());
        }
        return None;
    }
    proof {
        assert(models.skip(i as int)[0] == models[i as int]);
        assert(models.skip(i as int).skip(1) =~= models.skip(i as int + 1));
    }
    match &inits[i] {
        Init::Var(_) => run_inits(cx, inits, i + 1),
        Init::UtilityUse(u) => {
            match eval_expr(cx, &u.param, EVAL_FUEL) {
                Err(k) => Some(k),
                Ok(argv) => match run_utility(cx, &u.ident, argv, EVAL_FUEL) {
                    Err(k) => Some(k),
                    Ok(_) => run_inits(cx, inits, i + 1),
                },
            }
        },
    }
}

/// Evaluates a whole program against `cx`, as `eval_program_model` says:
/// variable bindings are installed as one batch, utility invocations run in
/// textual order, then the terminating expression is evaluated; on success
/// the accumulated output and the final integer come back.
pub fn eval_program(cx: Context, math: &Math) -> (r: Result<(String, i32), EvalError>)
    ensures
        ({
            let em = eval_program_model(cx@.env, cx@.seed, cx@.st, math@);
            match r {
                Ok(p) => em matches Ok(q) && p.0@ == q.0 && p.1 == q.1,
                Err(k) => em matches Err(k2) && k == k2,
            }
        }),
{
    let mut cx = cx;
    let ghost models = math.init@.map_values(|x: Init| x@);
    install_vars(&mut cx, &math.init, 0);
    proof {
        assert(models.skip(0) =~= models);
        assert(math@.init =~= models);
    }
    match run_inits(&mut cx, &math.init, 0) {
        Some(k) => Err(k),
        None => match eval_expr(&mut cx, &math.end_expression, EVAL_FUEL) {
            Err(k) => Err(k),
            Ok(v) => Ok((cx.into_output(), v)),
        },
    }
}

/// Unary minus parity: negating an expression twice evaluates to exactly the
/// value and state of the expression itself, whatever the environment, seed,
/// state and fuel — wrapping negation is an involution.
pub proof fn lemma_double_negate(env: EnvModel, seed: u64, e: ExprModel, st: RunState, fuel: nat)
    ensures
        eval_expr_model(
            env,
            seed,
            ExprModel::Negate(Box::new(ExprModel::Negate(Box::new(e)))),
            st,
            fuel,
        ) == eval_expr_model(env, seed, e, st, fuel),
{
    let inner = ExprModel::Negate(Box::new(e));
    let (r, st1) = eval_expr_model(env, seed, e, st, fuel);
    match r {
        Ok(v) => {
            assert(eval_expr_model(env, seed, inner, st, fuel) == (
            Ok::<i32, EvalError>(neg_wrap(v)),
            st1,
            ));
            assert(eval_expr_model(env, seed, ExprModel::Negate(Box::new(inner)), st, fuel) == (
            Ok::<i32, EvalError>(neg_wrap(neg_wrap(v))),
            st1,
            ));
            assert(neg_wrap(neg_wrap(v)) == v);
        },
        Err(k) => {
            assert(eval_expr_model(env, seed, inner, st, fuel) == (
            Err::<i32, EvalError>(k),
            st1,
            ));
            assert(eval_expr_model(env, seed, ExprModel::Negate(Box::new(inner)), st, fuel) == (
            Err::<i32, EvalError>(k),
            st1,
            ));
        },
    }
}

} // verus!

