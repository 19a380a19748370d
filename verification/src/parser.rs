//! The recursive-descent parser: turns program text into the abstract syntax
//! of `ast`, with multiplication and division binding tighter than addition
//! and subtraction, unary minus binding tightest, and whitespace permitted
//! around every token.
use vstd::prelude::*;
use vstd::string::StrSliceExecFns;
use vstd::string::StringExecFns;

use crate::ast::{Expr, ExprModel, Init, InitModel, Math, MathModel, UtilityUse, Var};

verus! {

/// The characters treated as insignificant whitespace.
pub open spec fn is_space(c: char) -> bool {
    c == ' ' || c == '\t' || c == '\n' || c == '\r'
}

/// A decimal digit.
pub open spec fn is_digit(c: char) -> bool {
    '0' as u32 <= c as u32 && c as u32 <= '9' as u32
}

/// A character that may open an identifier.
pub open spec fn is_ident_start(c: char) -> bool {
    ('a' as u32 <= c as u32 && c as u32 <= 'z' as u32) || ('A' as u32 <= c as u32 && c as u32
        <= 'Z' as u32) || c == '_'
}

/// A character that may continue an identifier.
pub open spec fn is_ident_char(c: char) -> bool {
    is_ident_start(c) || is_digit(c)
}

/// The value of one decimal digit.
pub open spec fn digit_val(c: char) -> nat {
    ((c as u32) - ('0' as u32)) as nat
}

/// The first position at or after `i` holding no whitespace.
pub open spec fn skip_ws(s: Seq<char>, i: int) -> int
    decreases s.len() - i,
{
    if 0 <= i && i < s.len() && is_space(s[i]) {
        skip_ws(s, i + 1)
    } else {
        i
    }
}

/// The end of the run of decimal digits starting at `i`.
pub open spec fn scan_digits(s: Seq<char>, i: int) -> int
    decreases s.len() - i,
{
    if 0 <= i && i < s.len() && is_digit(s[i]) {
        scan_digits(s, i + 1)
    } else {
        i
    }
}

/// The end of the run of identifier characters starting at `i`.
pub open spec fn scan_ident(s: Seq<char>, i: int) -> int
    decreases s.len() - i,
{
    if 0 <= i && i < s.len() && is_ident_char(s[i]) {
        scan_ident(s, i + 1)
    } else {
        i
    }
}

/// The value of the decimal digits `s[i..j]`, most significant first.
pub open spec fn digits_val(s: Seq<char>, i: int, j: int) -> nat
    decreases j - i,
{
    if j <= i {
        0
    } else {
        digits_val(s, i, j - 1) * 10 + digit_val(s[j - 1])
    }
}

/// A longer digit run never has a smaller value.
proof fn lemma_digits_val_grows(s: Seq<char>, i: int, t: int, j: int)
    requires
        t <= j,
    ensures
        digits_val(s, i, j) >= digits_val(s, i, t),
    decreases j - t,
{
    if t < j {
        lemma_digits_val_grows(s, i, t, j - 1);
    }
}

fn is_space_x(c: char) -> (r: bool)
    ensures
        r == is_space(c),
{
    c == ' ' || c == '\t' || c == '\n' || c == '\r'
}

fn is_digit_x(c: char) -> (r: bool)
    ensures
        r == is_digit(c),
{
    '0' as u32 <= c as u32 && c as u32 <= '9' as u32
}

fn is_ident_start_x(c: char) -> (r: bool)
    ensures
        r == is_ident_start(c),
{
    ('a' as u32 <= c as u32 && c as u32 <= 'z' as u32) || ('A' as u32 <= c as u32 && c as u32
        <= 'Z' as u32) || c == '_'
}

fn is_ident_char_x(c: char) -> (r: bool)
    ensures
        r == is_ident_char(c),
{
    is_ident_start_x(c) || is_digit_x(c)
}

/// Advances past whitespace, as `skip_ws` says.
fn skip_ws_x(s: &str, i: usize) -> (r: usize)
    requires
        i as int <= s@.len(),
    ensures
        r as int == skip_ws(s@, i as int),
        i <= r,
        r as int <= s@.len(),
{
    let n = s.unicode_len();
    let mut j = i;
    while j < n && is_space_x(s.get_char(j))
        invariant
            i <= j <= n,
            n as int == s@.len(),
            skip_ws(s@, i as int) == skip_ws(s@, j as int),
        decreases n - j,
    {
        j += 1;
    }
    j
}

/// Advances past decimal digits, as `scan_digits` says; every skipped
/// character is a digit, and a leading digit guarantees progress.
fn scan_digits_x(s: &str, i: usize) -> (r: usize)
    requires
        i as int <= s@.len(),
    ensures
        r as int == scan_digits(s@, i as int),
        i <= r,
        r as int <= s@.len(),
        forall|t: int| i <= t < r ==> is_digit(s@[t]),
        ((i as int) < s@.len() && is_digit(s@[i as int])) ==> i < r,
{
    let n = s.unicode_len();
    let mut j = i;
    while j < n && is_digit_x(s.get_char(j))
        invariant
            i <= j <= n,
            n as int == s@.len(),
            scan_digits(s@, i as int) == scan_digits(s@, j as int),
            forall|t: int| i <= t < j ==> is_digit(s@[t]),
        decreases n - j,
    {
        j += 1;
    }
    j
}

/// Advances past identifier characters, as `scan_ident` says; a leading
/// identifier character guarantees progress.
fn scan_ident_x(s: &str, i: usize) -> (r: usize)
    requires
        i as int <= s@.len(),
    ensures
        r as int == scan_ident(s@, i as int),
        i <= r,
        r as int <= s@.len(),
        ((i as int) < s@.len() && is_ident_char(s@[i as int])) ==> i < r,
{
    let n = s.unicode_len();
    let mut j = i;
    while j < n && is_ident_char_x(s.get_char(j))
        invariant
            i <= j <= n,
            n as int == s@.len(),
            scan_ident(s@, i as int) == scan_ident(s@, j as int),
        decreases n - j,
    {
        j += 1;
    }
    j
}

/// Reads the value of the digits `s[k..j]`: `None` where it exceeds
/// `i32::MAX`, which the grammar rejects.
fn digits_value_x(s: &str, k: usize, j: usize) -> (r: Option<i32>)
    requires
        k <= j,
        j as int <= s@.len(),
        forall|t: int| k <= t < j ==> is_digit(s@[t]),
    ensures
        match r {
            Some(v) => digits_val(s@, k as int, j as int) <= i32::MAX as nat && v as int
                == digits_val(s@, k as int, j as int),
            None => digits_val(s@, k as int, j as int) > i32::MAX as nat,
        },
{
    let mut acc: u64 = 0;
    let mut t = k;
    while t < j
        invariant
            k <= t <= j,
            j as int <= s@.len(),
            forall|q: int| k <= q < j ==> is_digit(s@[q]),
            acc as nat == digits_val(s@, k as int, t as int),
            acc <= i32::MAX as u64,
        decreases j - t,
    {
        let c = s.get_char(t);
        let d: u32 = (c as u32) - ('0' as u32);
        acc = acc * 10 + (d as u64);
        t += 1;
        if acc > (i32::MAX as u64) {
            proof {
                lemma_digits_val_grows(s@, k as int, t as int, j as int);
            }
            return None;
        }
    }
    Some(acc as i32)
}

// The recursive productions below test the positions that the scanners and
// sub-parsers hand back against the bounds of the input. The tests can never
// fail, but they let each production's termination measure — the unread
// suffix first, the rank of the production second — stand on its own.
/// The tightest-binding production: leading unary minuses, then an integer
/// literal, a parenthesized expression, or an identifier. Literals whose
/// value exceeds `i32::MAX` are rejected. On success the node and the
/// position after it come back.
pub open spec fn parse_unit_model(s: Seq<char>, i: int) -> Option<(ExprModel, int)>
    decreases s.len() - i, 0int,
{
    let k = skip_ws(s, i);
    if k < i || k > s.len() {
        None
    } else if k < s.len() && s[k] == '-' {
        match parse_unit_model(s, k + 1) {
            Some((e, n)) => Some((ExprModel::Negate(Box::new(e)), n)),
            None => None,
        }
    } else if k < s.len() && is_digit(s[k]) {
        let j = scan_digits(s, k);
        if j <= k || j > s.len() {
            None
        } else if digits_val(s, k, j) > i32::MAX as nat {
            None
        } else {
            Some((ExprModel::Number(digits_val(s, k, j) as i32), j))
        }
    } else if k < s.len() && s[k] == '(' {
        match parse_expr_model(s, k + 1) {
            Some((e, n)) => {
                let k2 = skip_ws(s, n);
                if 0 <= k2 && k2 < s.len() && s[k2] == ')' {
                    Some((e, k2 + 1))
                } else {
                    None
                }
            },
            None => None,
        }
    } else if k < s.len() && is_ident_start(s[k]) {
        let j = scan_ident(s, k);
        if j <= k || j > s.len() {
            None
        } else {
            Some((ExprModel::Ident(s.subrange(k, j)), j))
        }
    } else {
        None
    }
}

/// A left-associative fold of `*` and `/` over units, continuing from the
/// already-parsed left operand `acc` at position `i`.
pub open spec fn parse_term_more_model(s: Seq<char>, i: int, acc: ExprModel) -> Option<
    (ExprModel, int),
>
    decreases s.len() - i, 1int,
{
    let k = skip_ws(s, i);
    if k < i || k >= s.len() {
        Some((acc, i))
    } else if s[k] == '*' || s[k] == '/' {
        match parse_unit_model(s, k + 1) {
            Some((u, n)) => {
                if n <= i || n > s.len() {
                    None
                } else {
                    let acc2 = if s[k] == '*' {
                        ExprModel::Multiply(Box::new(acc), Box::new(u))
                    } else {
                        ExprModel::Divide(Box::new(acc), Box::new(u))
                    };
                    parse_term_more_model(s, n, acc2)
                }
            },
            None => None,
        }
    } else {
        Some((acc, i))
    }
}

/// A term: units folded left-associatively under `*` and `/`.
pub open spec fn parse_term_model(s: Seq<char>, i: int) -> Option<(ExprModel, int)>
    decreases s.len() - i, 2int,
{
    match parse_unit_model(s, i) {
        Some((e, n)) => {
            if n <= i || n > s.len() {
                None
            } else {
                parse_term_more_model(s, n, e)
            }
        },
        None => None,
    }
}

/// A left-associative fold of `+` and binary `-` over terms, continuing from
/// the already-parsed left operand `acc` at position `i`.
pub open spec fn parse_expr_more_model(s: Seq<char>, i: int, acc: ExprModel) -> Option<
    (ExprModel, int),
>
    decreases s.len() - i, 3int,
{
    let k = skip_ws(s, i);
    if k < i || k >= s.len() {
        Some((acc, i))
    } else if s[k] == '+' || s[k] == '-' {
        match parse_term_model(s, k + 1) {
            Some((t, n)) => {
                if n <= i || n > s.len() {
                    None
                } else {
                    let acc2 = if s[k] == '+' {
                        ExprModel::Add(Box::new(acc), Box::new(t))
                    } else {
                        ExprModel::Subtract(Box::new(acc), Box::new(t))
                    };
                    parse_expr_more_model(s, n, acc2)
                }
            },
            None => None,
        }
    } else {
        Some((acc, i))
    }
}

/// An expression: terms folded left-associatively under `+` and `-`, so that
/// `*` and `/` bind strictly tighter.
pub open spec fn parse_expr_model(s: Seq<char>, i: int) -> Option<(ExprModel, int)>
    decreases s.len() - i, 4int,
{
    match parse_term_model(s, i) {
        Some((e, n)) => {
            if n <= i || n > s.len() {
                None
            } else {
                parse_expr_more_model(s, n, e)
            }
        },
        None => None,
    }
}

/// One declaration: an identifier followed by an argument expression is a
/// utility invocation; otherwise an identifier, `=` and an expression is a
/// variable binding.
pub open spec fn parse_init_model(s: Seq<char>, i: int) -> Option<(InitModel, int)> {
    let k = skip_ws(s, i);
    if 0 <= k && k < s.len() && is_ident_start(s[k]) {
        let j = scan_ident(s, k);
        if j <= k || j > s.len() {
            None
        } else {
            let name = s.subrange(k, j);
            match parse_expr_model(s, j) {
                Some((arg, n)) => Some((InitModel::UtilityUse(name, arg), n)),
                None => {
                    let k2 = skip_ws(s, j);
                    if 0 <= k2 && k2 < s.len() && s[k2] == '=' {
                        match parse_expr_model(s, k2 + 1) {
                            Some((v, n)) => Some((InitModel::Var(name, v), n)),
                            None => None,
                        }
                    } else {
                        None
                    }
                },
            }
        }
    } else {
        None
    }
}

/// As many declarations as will match, greedily, and the position after them.
pub open spec fn parse_inits_model(s: Seq<char>, i: int) -> (Seq<InitModel>, int)
    decreases s.len() - i,
{
    match parse_init_model(s, i) {
        Some((init, n)) => {
            if n <= i || n > s.len() {
                (Seq::empty(), i)
            } else {
                let (rest, m) = parse_inits_model(s, n);
                (seq![init] + rest, m)
            }
        },
        None => (Seq::empty(), i),
    }
}

/// A whole program: greedily parsed declarations, then exactly one
/// terminating expression, then only whitespace up to the end of the input.
pub open spec fn parse_program_model(s: Seq<char>) -> Option<MathModel> {
    let (inits, p) = parse_inits_model(s, 0);
    match parse_expr_model(s, p) {
        Some((e, n)) => {
            if skip_ws(s, n) == s.len() {
                Some(MathModel { init: inits, end_expression: e })
            } else {
                None
            }
        },
        None => None,
    }
}

/// Parses one unit, as `parse_unit_model` says; a failure carries the
/// offending position.
fn parse_unit(s: &str, i: usize) -> (r: Result<(Expr, usize), usize>)
    requires
        i as int <= s@.len(),
    ensures
        ({
            let m = parse_unit_model(s@, i as int);
            match r {
                Ok(p) => {
                    &&& m matches Some(q) && p.0@ == q.0 && p.1 as int == q.1
                    &&& i < p.1
                    &&& p.1 as int <= s@.len()
                },
                Err(_) => m is None,
            }
        }),
    decreases s@.len() - i, 0int,
{
    let n = s.unicode_len();
    let k = skip_ws_x(s, i);
    if k < n {
        let c = s.get_char(k);
        if c == '-' {
            match parse_unit(s, k + 1) {
                Ok((e, nx)) => Ok((Expr::Negate(Box::new(e)), nx)),
                Err(p) => Err(p),
            }
        } else if is_digit_x(c) {
            let j = scan_digits_x(s, k);
            match digits_value_x(s, k, j) {
                Some(v) => Ok((Expr::Number(v), j)),
                None => Err(k),
            }
        } else if c == '(' {
            match parse_expr(s, k + 1) {
                Ok((e, nx)) => {
                    let k2 = skip_ws_x(s, nx);
                    if k2 < n && s.get_char(k2) == ')' {
                        Ok((e, k2 + 1))
                    } else {
                        Err(k2)
                    }
                },
                Err(p) => Err(p),
            }
        } else if is_ident_start_x(c) {
            let j = scan_ident_x(s, k);
            let name = String::from_str(s.substring_char(k, j));
            Ok((Expr::Ident(name), j))
        } else {
            Err(k)
        }
    } else {
        Err(k)
    }
}

/// Folds further `*` and `/` operands onto `acc`, as `parse_term_more_model`
/// says.
fn parse_term_more(s: &str, i: usize, acc: Expr) -> (r: Result<(Expr, usize), usize>)
    requires
        i as int <= s@.len(),
    ensures
        ({
            let m = parse_term_more_model(s@, i as int, acc@);
            match r {
                Ok(p) => {
                    &&& m matches Some(q) && p.0@ == q.0 && p.1 as int == q.1
                    &&& i <= p.1
                    &&& p.1 as int <= s@.len()
                },
                Err(_) => m is None,
            }
        }),
    decreases s@.len() - i, 1int,
{
    let n = s.unicode_len();
    let k = skip_ws_x(s, i);
    if k < n {
        let c = s.get_char(k);
        if c == '*' || c == '/' {
            match parse_unit(s, k + 1) {
                Ok((u, n2)) => {
                    let acc2 = if c == '*' {
                        Expr::Multiply(Box::new(acc), Box::new(u))
                    } else {
                        Expr::Divide(Box::new(acc), Box::new(u))
                    };
                    parse_term_more(s, n2, acc2)
                },
                Err(p) => Err(p),
            }
        } else {
            Ok((acc, i))
        }
    } else {
        Ok((acc, i))
    }
}

/// Parses one term, as `parse_term_model` says.
fn parse_term(s: &str, i: usize) -> (r: Result<(Expr, usize), usize>)
    requires
        i as int <= s@.len(),
    ensures
        ({
            let m = parse_term_model(s@, i as int);
            match r {
                Ok(p) => {
                    &&& m matches Some(q) && p.0@ == q.0 && p.1 as int == q.1
                    &&& i < p.1
                    &&& p.1 as int <= s@.len()
                },
                Err(_) => m is None,
            }
        }),
    decreases s@.len() - i, 2int,
{
    match parse_unit(s, i) {
        Ok((e, nx)) => parse_term_more(s, nx, e),
        Err(p) => Err(p),
    }
}

/// Folds further `+` and `-` operands onto `acc`, as `parse_expr_more_model`
/// says.
fn parse_expr_more(s: &str, i: usize, acc: Expr) -> (r: Result<(Expr, usize), usize>)
    requires
        i as int <= s@.len(),
    ensures
        ({
            let m = parse_expr_more_model(s@, i as int, acc@);
            match r {
                Ok(p) => {
                    &&& m matches Some(q) && p.0@ == q.0 && p.1 as int == q.1
                    &&& i <= p.1
                    &&& p.1 as int <= s@.len()
                },
                Err(_) => m is None,
            }
        }),
    decreases s@.len() - i, 3int,
{
    let n = s.unicode_len();
    let k = skip_ws_x(s, i);
    if k < n {
        let c = s.get_char(k);
        if c == '+' || c == '-' {
            match parse_term(s, k + 1) {
                Ok((t, n2)) => {
                    let acc2 = if c == '+' {
                        Expr::Add(Box::new(acc), Box::new(t))
                    } else {
                        Expr::Subtract(Box::new(acc), Box::new(t))
                    };
                    parse_expr_more(s, n2, acc2)
                },
                Err(p) => Err(p),
            }
        } else {
            Ok((acc, i))
        }
    } else {
        Ok((acc, i))
    }
}

/// Parses one expression, as `parse_expr_model` says.
fn parse_expr(s: &str, i: usize) -> (r: Result<(Expr, usize), usize>)
    requires
        i as int <= s@.len(),
    ensures
        ({
            let m = parse_expr_model(s@, i as int);
            match r {
                Ok(p) => {
                    &&& m matches Some(q) && p.0@ == q.0 && p.1 as int == q.1
                    &&& i < p.1
                    &&& p.1 as int <= s@.len()
                },
                Err(_) => m is None,
            }
        }),
    decreases s@.len() - i, 4int,
{
    match parse_term(s, i) {
        Ok((e, nx)) => parse_expr_more(s, nx, e),
        Err(p) => Err(p),
    }
}

/// Parses one declaration, as `parse_init_model` says.
fn parse_init(s: &str, i: usize) -> (r: Result<(Init, usize), usize>)
    requires
        i as int <= s@.len(),
    ensures
        ({
            let m = parse_init_model(s@, i as int);
            match r {
                Ok(p) => {
                    &&& m matches Some(q) && p.0@ == q.0 && p.1 as int == q.1
                    &&& i < p.1
                    &&& p.1 as int <= s@.len()
                },
                Err(_) => m is None,
            }
        }),
{
    let n = s.unicode_len();
    let k = skip_ws_x(s, i);
    if k < n && is_ident_start_x(s.get_char(k)) {
        let j = scan_ident_x(s, k);
        let name = String::from_str(s.substring_char(k, j));
        match parse_expr(s, j) {
            Ok((arg, nx)) => Ok((Init::UtilityUse(UtilityUse { ident: name, param: arg }), nx)),
            Err(_) => {
                let k2 = skip_ws_x(s, j);
                if k2 < n && s.get_char(k2) == '=' {
                    match parse_expr(s, k2 + 1) {
                        Ok((v, nx)) => Ok((Init::Var(Var { name, value: v }), nx)),
                        Err(p) => Err(p),
                    }
                } else {
                    Err(k2)
                }
            },
        }
    } else {
        Err(k)
    }
}

/// Parses as many declarations as will match, as `parse_inits_model` says,
/// and the position after them.
fn parse_inits(s: &str, i: usize) -> (r: (Vec<Init>, usize))
    requires
        i as int <= s@.len(),
    ensures
        ({
            let (sq, p) = parse_inits_model(s@, i as int);
            &&& r.0@.map_values(|x: Init| x@) == sq
            &&& r.1 as int == p
            &&& i <= r.1
            &&& r.1 as int <= s@.len()
        }),
    decreases s@.len() - i,
{
    match parse_init(s, i) {
        Ok((init, nx)) => {
            let (rest, m) = parse_inits(s, nx);
            let mut v = rest;
            v.insert(0, init);
            proof {
                assert(v@.map_values(|x: Init| x@) =~= seq![init@] + parse_inits_model(
                    s@,
                    nx as int,
                ).0);
            }
            (v, m)
        },
        Err(_) => (Vec::new(), i),
    }
}

/// Parses a whole program, as `parse_program_model` says; a failure carries
/// the offending position.
pub fn parse_program(s: &str) -> (r: Result<Math, usize>)
    ensures
        ({
            let m = parse_program_model(s@);
            match r {
                Ok(math) => m matches Some(mm) && math@ == mm,
                Err(_) => m is None,
            }
        }),
{
    let (inits, p) = parse_inits(s, 0);
    match parse_expr(s, p) {
        Ok((e, nx)) => {
            let q = skip_ws_x(s, nx);
            if q == s.unicode_len() {
                let math = Math { init: inits, end_expression: e };
                proof {
                    assert(math@.init =~= parse_inits_model(s@, 0).0);
                }
                Ok(math)
            } else {
                Err(q)
            }
        },
        Err(p2) => Err(p2),
    }
}

} // verus!
