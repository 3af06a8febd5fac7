//! The compile-and-run surface of the runtime: a small expression
//! language over the primitive values, and the `require` primitive that
//! drives the module loader.
//!
//! A script is one statement: nothing, a `require` of a quoted module
//! name, or a chain of `+`-joined terms, where a term is an integer
//! literal, a single-quoted string literal, `true`, `false` or `nil`.

use vstd::prelude::*;

use crate::err::{spec_err_message, ErrView, MrubyError};
use crate::runtime::{
    spec_def_class, spec_def_method, ExcView, MethodEntry, Mruby, RegOp, StateView,
};
use crate::value::{MrValue, Value};

verus! {

/// A lexical token of the script language.
#[derive(Debug)]
pub enum Tok {
    Int(i32),
    StrLit(String),
    Plus,
    KwTrue,
    KwFalse,
    KwNil,
    KwRequire,
    Bad,
}

/// Spec-level mirror of [`Tok`].
pub enum TokView {
    Int(i32),
    StrLit(Seq<char>),
    Plus,
    True,
    False,
    Nil,
    Require,
    Bad,
}

impl View for Tok {
    type V = TokView;

    open spec fn view(&self) -> TokView {
        match self {
            Tok::Int(n) => TokView::Int(*n),
            Tok::StrLit(s) => TokView::StrLit(s@),
            Tok::Plus => TokView::Plus,
            Tok::KwTrue => TokView::True,
            Tok::KwFalse => TokView::False,
            Tok::KwNil => TokView::Nil,
            Tok::KwRequire => TokView::Require,
            Tok::Bad => TokView::Bad,
        }
    }
}

/// Whitespace of the script language.
pub open spec fn is_ws(c: char) -> bool {
    c == ' ' || c == '\n' || c == '\t' || c == '\r'
}

/// A decimal digit.
pub open spec fn is_digit(c: char) -> bool {
    48 <= c as u32 <= 57
}

/// A letter or underscore, as identifiers are made of.
pub open spec fn is_alpha(c: char) -> bool {
    (97 <= c as u32 <= 122) || (65 <= c as u32 <= 90) || c as u32 == 95
}

/// The numeric value of a digit.
pub open spec fn digit_val(c: char) -> int {
    c as u32 - 48
}

/// First index at or after `i` holding no digit.
pub open spec fn digits_end(s: Seq<char>, i: int) -> int
    decreases s.len() - i,
{
    if i < 0 || i >= s.len() {
        i
    } else if is_digit(s[i]) {
        digits_end(s, i + 1)
    } else {
        i
    }
}

/// `digits_end` stays within the string and never moves backwards.
pub proof fn lemma_digits_end(s: Seq<char>, i: int)
    requires
        0 <= i <= s.len(),
    ensures
        i <= digits_end(s, i) <= s.len(),
        forall|k: int| i <= k < digits_end(s, i) ==> is_digit(s[k]),
        digits_end(s, i) < s.len() ==> !is_digit(s[digits_end(s, i)]),
    decreases s.len() - i,
{
    if i < s.len() && is_digit(s[i]) {
        lemma_digits_end(s, i + 1);
    }
}

/// First index at or after `i` holding no identifier character.
pub open spec fn alpha_end(s: Seq<char>, i: int) -> int
    decreases s.len() - i,
{
    if i < 0 || i >= s.len() {
        i
    } else if is_alpha(s[i]) {
        alpha_end(s, i + 1)
    } else {
        i
    }
}

/// `alpha_end` stays within the string and never moves backwards.
pub proof fn lemma_alpha_end(s: Seq<char>, i: int)
    requires
        0 <= i <= s.len(),
    ensures
        i <= alpha_end(s, i) <= s.len(),
        forall|k: int| i <= k < alpha_end(s, i) ==> is_alpha(s[k]),
        alpha_end(s, i) < s.len() ==> !is_alpha(s[alpha_end(s, i)]),
    decreases s.len() - i,
{
    if i < s.len() && is_alpha(s[i]) {
        lemma_alpha_end(s, i + 1);
    }
}

/// First index at or after `i` holding a single quote.
pub open spec fn quote_find(s: Seq<char>, i: int) -> Option<int>
    decreases s.len() - i,
{
    if i < 0 || i >= s.len() {
        None
    } else if s[i] == '\'' {
        Some(i)
    } else {
        quote_find(s, i + 1)
    }
}

/// What `quote_find` returns: the first quote at or after `i`.
pub proof fn lemma_quote_find(s: Seq<char>, i: int)
    requires
        0 <= i <= s.len(),
    ensures
        match quote_find(s, i) {
            Some(q) => i <= q < s.len() && s[q] == '\'' && (forall|k: int|
                i <= k < q ==> s[k] != '\''),
            None => forall|k: int| i <= k < s.len() ==> s[k] != '\'',
        },
    decreases s.len() - i,
{
    if i < s.len() && s[i] != '\'' {
        lemma_quote_find(s, i + 1);
    }
}

/// The value of the digit run `s[i..j)` read as a decimal number.
pub open spec fn digits_val(s: Seq<char>, i: int, j: int) -> int
    decreases j - i,
{
    if j <= i {
        0
    } else {
        digits_val(s, i, j - 1) * 10 + digit_val(s[j - 1])
    }
}

/// Ten to the `n`th.
pub open spec fn pow10(n: nat) -> int
    decreases n,
{
    if n == 0 {
        1
    } else {
        10 * pow10((n - 1) as nat)
    }
}

/// A run of `n` digits reads as a value below ten to the `n`th.
pub proof fn lemma_digits_val_bound(s: Seq<char>, i: int, j: int)
    requires
        0 <= i <= j <= s.len(),
        forall|k: int| i <= k < j ==> is_digit(s[k]),
    ensures
        0 <= digits_val(s, i, j) < pow10((j - i) as nat),
    decreases j - i,
{
    if j > i {
        lemma_digits_val_bound(s, i, j - 1);
    }
}

/// The token stream of `s` from position `i` on.  A malformed piece - an
/// unknown character or identifier, an unterminated string literal, or an
/// integer literal of more than nine digits - ends the stream with a
/// `Bad` token.
pub open spec fn tokens_from(s: Seq<char>, i: int) -> Seq<TokView>
    decreases s.len() - i,
    via tokens_from_dec
{
    if i < 0 || i >= s.len() {
        Seq::empty()
    } else {
        let c = s[i];
        if is_ws(c) {
            tokens_from(s, i + 1)
        } else if c == '+' {
            seq![TokView::Plus] + tokens_from(s, i + 1)
        } else if is_digit(c) {
            let j = digits_end(s, i);
            if j - i > 9 {
                seq![TokView::Bad]
            } else {
                seq![TokView::Int(digits_val(s, i, j) as i32)] + tokens_from(s, j)
            }
        } else if c == '\'' {
            match quote_find(s, i + 1) {
                None => seq![TokView::Bad],
                Some(q) => seq![TokView::StrLit(s.subrange(i + 1, q))] + tokens_from(s, q + 1),
            }
        } else if is_alpha(c) {
            let j = alpha_end(s, i);
            let word = s.subrange(i, j);
            if word == "true"@ {
                seq![TokView::True] + tokens_from(s, j)
            } else if word == "false"@ {
                seq![TokView::False] + tokens_from(s, j)
            } else if word == "nil"@ {
                seq![TokView::Nil] + tokens_from(s, j)
            } else if word == "require"@ {
                seq![TokView::Require] + tokens_from(s, j)
            } else {
                seq![TokView::Bad]
            }
        } else {
            seq![TokView::Bad]
        }
    }
}

#[via_fn]
proof fn tokens_from_dec(s: Seq<char>, i: int) {
    if 0 <= i < s.len() {
        lemma_digits_end(s, i);
        lemma_alpha_end(s, i);
        lemma_quote_find(s, i + 1);
    }
}

/// The view of a token vector.
pub open spec fn toks_view(toks: Seq<Tok>) -> Seq<TokView> {
    toks.map_values(|t: Tok| t@)
}

/// Scans script source into its token stream.
#[verifier::loop_isolation(false)]
pub fn tokenize(src: &str) -> (toks: Vec<Tok>)
    ensures
        toks_view(toks@) == tokens_from(src@, 0),
{
    let n = src.unicode_len();
    let mut out: Vec<Tok> = Vec::new();
    let mut i: usize = 0;
    while i < n
        invariant
            i <= n,
            tokens_from(src@, 0) == toks_view(out@) + tokens_from(src@, i as int),
        decreases n - i,
    {
        let c = src.get_char(i);
        let u = c as u32;
        if c == ' ' || c == '\n' || c == '\t' || c == '\r' {
            i = i + 1;
        } else if c == '+' {
            let ghost pre = out@;
            out.push(Tok::Plus);
            proof {
                assert(toks_view(out@) =~= toks_view(pre).push(TokView::Plus));
                assert(tokens_from(src@, 0) =~= toks_view(out@) + tokens_from(src@, i + 1));
            }
            i = i + 1;
        } else if 48 <= u && u <= 57 {
            let ghost jj = digits_end(src@, i as int);
            proof {
                lemma_digits_end(src@, i as int);
            }
            let mut j: usize = i;
            while j < n
                invariant
                    i <= j <= n,
                    forall|k: int| i <= k < j ==> is_digit(src@[k]),
                    digits_end(src@, i as int) == digits_end(src@, j as int),
                decreases n - j,
            {
                let d = src.get_char(j);
                if 48 <= d as u32 && d as u32 <= 57 {
                    j = j + 1;
                } else {
                    break ;
                }
            }
            proof {
                assert(digits_end(src@, j as int) == j as int);
                assert(jj == j as int);
            }
            if j - i > 9 {
                let ghost pre = out@;
                out.push(Tok::Bad);
                proof {
                    assert(toks_view(out@) =~= toks_view(pre).push(TokView::Bad));
                    assert(toks_view(out@) =~= tokens_from(src@, 0));
                }
                return out;
            }
            let mut val: i32 = 0;
            let mut k: usize = i;
            while k < j
                invariant
                    i <= k <= j,
                    val == digits_val(src@, i as int, k as int),
                    0 <= val < pow10((k - i) as nat),
                    j - i <= 9,
                decreases j - k,
            {
                proof {
                    lemma_digits_val_bound(src@, i as int, k as int);
                    assert(pow10(((k - i) + 1) as nat) == 10 * pow10((k - i) as nat));
                    lemma_pow10_small();
                    assert(pow10((k - i) as nat) <= pow10(8nat)) by {
                        lemma_pow10_mono((k - i) as nat, 8nat);
                    }
                }
                let d = src.get_char(k);
                val = val * 10 + ((d as u32 - 48) as i32);
                k = k + 1;
            }
            let ghost pre = out@;
            out.push(Tok::Int(val));
            proof {
                assert(toks_view(out@) =~= toks_view(pre).push(
                    TokView::Int(digits_val(src@, i as int, j as int) as i32),
                ));
                assert(tokens_from(src@, 0) =~= toks_view(out@) + tokens_from(src@, j as int));
            }
            i = j;
        } else if c == '\'' {
            proof {
                lemma_quote_find(src@, i as int + 1);
            }
            let mut j: usize = i + 1;
            while j < n && src.get_char(j) != '\''
                invariant
                    i + 1 <= j <= n,
                    quote_find(src@, i as int + 1) == quote_find(src@, j as int),
                decreases n - j,
            {
                j = j + 1;
            }
            proof {
                if j < n {
                    assert(quote_find(src@, j as int) == Some(j as int));
                } else {
                    assert(quote_find(src@, j as int) is None);
                }
            }
            if j >= n {
                let ghost pre = out@;
                out.push(Tok::Bad);
                proof {
                    assert(toks_view(out@) =~= toks_view(pre).push(TokView::Bad));
                    assert(toks_view(out@) =~= tokens_from(src@, 0));
                }
                return out;
            }
            let lit = src.substring_char(i + 1, j).to_owned();
            let ghost pre = out@;
            out.push(Tok::StrLit(lit));
            proof {
                assert(toks_view(out@) =~= toks_view(pre).push(
                    TokView::StrLit(src@.subrange(i as int + 1, j as int)),
                ));
                assert(tokens_from(src@, 0) =~= toks_view(out@) + tokens_from(src@, j + 1));
            }
            i = j + 1;
        } else if (97 <= u && u <= 122) || (65 <= u && u <= 90) || u == 95 {
            let ghost jj = alpha_end(src@, i as int);
            proof {
                lemma_alpha_end(src@, i as int);
            }
            let mut j: usize = i;
            while j < n
                invariant
                    i <= j <= n,
                    forall|k: int| i <= k < j ==> is_alpha(src@[k]),
                    alpha_end(src@, i as int) == alpha_end(src@, j as int),
                decreases n - j,
            {
                let d = src.get_char(j);
                let du = d as u32;
                if (97 <= du && du <= 122) || (65 <= du && du <= 90) || du == 95 {
                    j = j + 1;
                } else {
                    break ;
                }
            }
            proof {
                assert(alpha_end(src@, j as int) == j as int);
                assert(jj == j as int);
            }
            let word = src.substring_char(i, j).to_owned();
            let tok = if word == String::from_str("true") {
                Tok::KwTrue
            } else if word == String::from_str("false") {
                Tok::KwFalse
            } else if word == String::from_str("nil") {
                Tok::KwNil
            } else if word == String::from_str("require") {
                Tok::KwRequire
            } else {
                Tok::Bad
            };
            match tok {
                Tok::Bad => {
                    let ghost pre = out@;
                    out.push(Tok::Bad);
                    proof {
                        assert(toks_view(out@) =~= toks_view(pre).push(TokView::Bad));
                        assert(toks_view(out@) =~= tokens_from(src@, 0));
                    }
                    return out;
                },
                _ => {
                    let ghost pre = out@;
                    out.push(tok);
                    proof {
                        assert(toks_view(out@) =~= toks_view(pre).push(
                            tokens_from(src@, i as int)[0],
                        ));
                        assert(tokens_from(src@, 0) =~= toks_view(out@) + tokens_from(
                            src@,
                            j as int,
                        ));
                    }
                    i = j;
                },
            }
        } else {
            let ghost pre = out@;
            out.push(Tok::Bad);
            proof {
                assert(toks_view(out@) =~= toks_view(pre).push(TokView::Bad));
                assert(toks_view(out@) =~= tokens_from(src@, 0));
            }
            return out;
        }
    }
    proof {
        assert(tokens_from(src@, n as int) =~= Seq::<TokView>::empty());
        assert(toks_view(out@) =~= tokens_from(src@, 0));
    }
    out
}

/// The powers of ten a nine-digit literal can reach.
pub proof fn lemma_pow10_small()
    ensures
        pow10(8nat) == 100000000,
        pow10(9nat) == 1000000000,
{
    assert(pow10(0nat) == 1);
    assert(pow10(1nat) == 10);
    assert(pow10(2nat) == 100);
    assert(pow10(3nat) == 1000);
    assert(pow10(4nat) == 10000);
    assert(pow10(5nat) == 100000);
    assert(pow10(6nat) == 1000000);
    assert(pow10(7nat) == 10000000);
    assert(pow10(8nat) == 100000000);
    assert(pow10(9nat) == 1000000000);
}

/// `pow10` grows with its argument.
pub proof fn lemma_pow10_mono(a: nat, b: nat)
    requires
        a <= b,
    ensures
        pow10(a) <= pow10(b),
        pow10(a) >= 1,
    decreases b,
{
    if a < b {
        lemma_pow10_mono(a, (b - 1) as nat);
    } else if b > 0 {
        lemma_pow10_mono((a - 1) as nat, (b - 1) as nat);
    }
}

/// A primitive value a script expression evaluates to.
pub enum EvalVal {
    Nil,
    Bool(bool),
    Fixnum(i32),
    Str(Seq<char>),
}

/// Whether the executable value `v` realizes the evaluation result `ev`.
pub open spec fn val_matches(v: MrValue, ev: EvalVal) -> bool {
    match ev {
        EvalVal::Nil => v == MrValue::Nil,
        EvalVal::Bool(b) => v == MrValue::Bool(b),
        EvalVal::Fixnum(n) => v == MrValue::Fixnum(n),
        EvalVal::Str(s) => v matches MrValue::Str(x) && x@ == s,
    }
}

/// A token that can stand as a term of a `+` chain.
pub open spec fn is_term_tok(t: TokView) -> bool {
    match t {
        TokView::Int(_) => true,
        TokView::StrLit(_) => true,
        TokView::True => true,
        TokView::False => true,
        TokView::Nil => true,
        _ => false,
    }
}

/// The value of one term token.
pub open spec fn term_val(t: TokView) -> EvalVal {
    match t {
        TokView::Int(n) => EvalVal::Fixnum(n),
        TokView::StrLit(s) => EvalVal::Str(s),
        TokView::True => EvalVal::Bool(true),
        TokView::False => EvalVal::Bool(false),
        _ => EvalVal::Nil,
    }
}

/// A statement of the script language.
pub enum StmtView {
    Empty,
    Expr(Seq<TokView>),
    Require(Seq<char>),
}

/// A well-formed expression token list: terms at even positions joined by
/// `+` at odd positions.
pub open spec fn valid_expr(toks: Seq<TokView>) -> bool {
    toks.len() % 2 == 1 && (forall|k: int|
        0 <= k < toks.len() ==> (if k % 2 == 0 {
            is_term_tok(#[trigger] toks[k])
        } else {
            toks[k] is Plus
        }))
}

/// The number of terms of a well-formed expression token list.
pub open spec fn nterms(toks: Seq<TokView>) -> int {
    (toks.len() as int + 1) / 2
}

/// Parsing a token stream into the one statement it holds, if any.
pub open spec fn parse(toks: Seq<TokView>) -> Option<StmtView> {
    if toks.len() == 0 {
        Some(StmtView::Empty)
    } else if toks.len() == 2 && toks[0] is Require && toks[1] is StrLit {
        Some(StmtView::Require(toks[1]->StrLit_0))
    } else if valid_expr(toks) {
        Some(StmtView::Expr(toks))
    } else {
        None
    }
}

/// The `+` operation of the script language: fixnum addition (wrapping),
/// string concatenation, and the exceptions every other pairing raises.
pub open spec fn spec_plus(a: EvalVal, b: EvalVal) -> Result<EvalVal, crate::runtime::ExcView> {
    match (a, b) {
        (EvalVal::Fixnum(x), EvalVal::Fixnum(y)) => Ok(EvalVal::Fixnum(x.wrapping_add(y))),
        (EvalVal::Str(x), EvalVal::Str(y)) => Ok(EvalVal::Str(x + y)),
        (EvalVal::Str(x), _) => Err(
            crate::runtime::ExcView { class: "TypeError"@, message: "expected String"@ },
        ),
        (EvalVal::Fixnum(x), _) => Err(
            crate::runtime::ExcView { class: "TypeError"@, message: "expected Integer"@ },
        ),
        _ => Err(
            crate::runtime::ExcView {
                class: "NoMethodError"@,
                message: "undefined method '+'"@,
            },
        ),
    }
}

/// The value of the first `m` terms of a well-formed expression token
/// list, folded left over `+`.
pub open spec fn eval_expr(toks: Seq<TokView>, m: int) -> Result<
    EvalVal,
    crate::runtime::ExcView,
>
    decreases m,
{
    if m <= 0 {
        Ok(EvalVal::Nil)
    } else if m == 1 {
        Ok(term_val(toks[0]))
    } else {
        match eval_expr(toks, m - 1) {
            Ok(a) => spec_plus(a, term_val(toks[2 * (m - 1)])),
            Err(e) => Err(e),
        }
    }
}

/// Once a prefix of the fold has raised, the whole fold raises the same.
pub proof fn lemma_eval_expr_err(toks: Seq<TokView>, m: int, m2: int)
    requires
        0 <= m <= m2,
        eval_expr(toks, m) is Err,
    ensures
        eval_expr(toks, m2) == eval_expr(toks, m),
    decreases m2 - m,
{
    if m2 > m {
        lemma_eval_expr_err(toks, m, m2 - 1);
    }
}

/// The text a script sees of an active exception.
pub open spec fn render_exc(e: ExcView) -> Seq<char> {
    e.class + ": "@ + e.message
}

/// One registration step of a module loader, applied to the state.
pub open spec fn spec_apply_op<O>(s: StateView<O>, op: RegOp) -> StateView<O> {
    match op {
        RegOp::DefClass { token, name } => spec_def_class(s, token, name@),
        RegOp::DefMethod { token, name, method } => spec_def_method(
            s,
            token,
            name@,
            MethodEntry::Host(method),
            false,
        ),
        RegOp::DefClassMethod { token, name, method } => spec_def_method(
            s,
            token,
            name@,
            MethodEntry::Host(method),
            true,
        ),
    }
}

/// A module loader's registration steps, applied in order.
pub open spec fn spec_apply_ops<O>(s: StateView<O>, ops: Seq<RegOp>) -> StateView<O>
    decreases ops.len(),
{
    if ops.len() == 0 {
        s
    } else {
        spec_apply_ops(spec_apply_op(s, ops[0]), ops.drop_first())
    }
}

/// A module's loaders, applied in registration order.
pub open spec fn spec_apply_loaders<O>(s: StateView<O>, loaders: Seq<Seq<RegOp>>) -> StateView<O>
    decreases loaders.len(),
{
    if loaders.len() == 0 {
        s
    } else {
        spec_apply_loaders(spec_apply_ops(s, loaders[0]), loaders.drop_first())
    }
}

/// Last index at or before `i` holding `c`.
pub open spec fn rfind(s: Seq<char>, c: char, i: int) -> Option<int>
    decreases i + 1,
{
    if i < 0 || i >= s.len() {
        None
    } else if s[i] == c {
        Some(i)
    } else {
        rfind(s, c, i - 1)
    }
}

/// The final component of a path: what follows the last `/`, or the whole
/// path.
pub open spec fn spec_basename(path: Seq<char>) -> Seq<char> {
    match rfind(path, '/', path.len() - 1) {
        Some(k) => path.subrange(k + 1, path.len() as int),
        None => path,
    }
}

/// The extension of a path: what follows the last `.` of its final
/// component, provided that dot is not the component's first character.
pub open spec fn spec_ext(path: Seq<char>) -> Option<Seq<char>> {
    let b = spec_basename(path);
    match rfind(b, '.', b.len() - 1) {
        Some(d) => if d > 0 {
            Some(b.subrange(d + 1, b.len() as int))
        } else {
            None
        },
        None => None,
    }
}

/// The first of the three candidate files `require` may load for `name`:
/// the bare name, then the name with the source extension, then the name
/// with the compiled extension.
pub open spec fn spec_candidate<O>(s: StateView<O>, name: Seq<char>) -> Option<Seq<char>> {
    if s.fs_index(name) is Some {
        Some(name)
    } else if s.fs_index(name + ".rb"@) is Some {
        Some(name + ".rb"@)
    } else if s.fs_index(name + ".mrb"@) is Some {
        Some(name + ".mrb"@)
    } else {
        None
    }
}

/// The fuel the public entry points hand the evaluator: enough for every
/// reachable nesting of `require`, since each level marks a new module
/// name and names come from the module registry and the file store.
pub open spec fn spec_fuel<O>(s: StateView<O>) -> nat {
    let t = s.files.len() + s.fs.len() + 1;
    if t <= u64::MAX {
        t
    } else {
        u64::MAX as nat
    }
}

/// Evaluating one script: a syntax error raises `SyntaxError`, an empty
/// script is `nil`, an expression folds its terms over `+` and raises
/// what the fold raises, and a `require` runs the module loader.
pub open spec fn spec_eval_script<O>(s: StateView<O>, src: Seq<char>, fuel: nat) -> (StateView<
    O,
>, EvalVal)
    decreases fuel, 2int,
{
    match parse(tokens_from(src, 0)) {
        None => (
            StateView {
                exception: Some(ExcView { class: "SyntaxError"@, message: "invalid syntax"@ }),
                ..s
            },
            EvalVal::Nil,
        ),
        Some(StmtView::Empty) => (s, EvalVal::Nil),
        Some(StmtView::Expr(toks)) => match eval_expr(toks, nterms(toks)) {
            Ok(v) => (s, v),
            Err(e) => (StateView { exception: Some(e), ..s }, EvalVal::Nil),
        },
        Some(StmtView::Require(name)) => spec_require(s, name, fuel),
    }
}

/// The `require` primitive.  An already-required name is `false` at once.
/// A name with registered loaders is marked required and its loaders run
/// in order, giving `true`.  Else the first existing candidate file is
/// marked required and executed with the current source name saved and
/// restored around the load; an execution error is re-raised as a
/// `RuntimeError` carrying its rendered text.  With no candidate a
/// `RuntimeError` names both extensions that were tried.
pub open spec fn spec_require<O>(s: StateView<O>, name: Seq<char>, fuel: nat) -> (StateView<
    O,
>, EvalVal)
    decreases fuel, 1int,
{
    if s.is_required(name) {
        (s, EvalVal::Bool(false))
    } else {
        match s.file_index(name) {
            Some(fi) => {
                let s1 = StateView { required: s.required.push(name), ..s };
                (spec_apply_loaders(s1, s.files[fi].loaders), EvalVal::Bool(true))
            },
            None => match spec_candidate(s, name) {
                None => (
                    StateView {
                        exception: Some(
                            ExcView {
                                class: "RuntimeError"@,
                                message: "cannot load "@ + name + ".rb or "@ + name + ".mrb"@,
                            },
                        ),
                        ..s
                    },
                    EvalVal::Nil,
                ),
                Some(path) => {
                    if fuel == 0 {
                        (
                            StateView {
                                exception: Some(
                                    ExcView {
                                        class: "RuntimeError"@,
                                        message: "require nesting too deep"@,
                                    },
                                ),
                                ..s
                            },
                            EvalVal::Nil,
                        )
                    } else {
                        let f0 = s.filename;
                        let s1 = StateView { required: s.required.push(name), ..s };
                        let r = spec_execute(s1, path, (fuel - 1) as nat);
                        let s3 = StateView { filename: f0, ..r.0 };
                        match r.1 {
                            Ok(_) => (s3, EvalVal::Bool(true)),
                            Err(e) => (
                                StateView {
                                    exception: Some(
                                        ExcView {
                                            class: "RuntimeError"@,
                                            message: spec_err_message(e),
                                        },
                                    ),
                                    ..s3
                                },
                                EvalVal::Bool(true),
                            ),
                        }
                    }
                },
            },
        }
    }
}

/// Compiling and running a script source, checked: the state starts with
/// no active exception, and one active afterwards is taken and rendered
/// as a `Runtime` error.
pub open spec fn spec_run<O>(s: StateView<O>, src: Seq<char>, fuel: nat) -> (StateView<O>, Result<
    EvalVal,
    ErrView,
>)
    decreases fuel, 3int,
{
    let r = spec_eval_script(StateView { exception: None, ..s }, src, fuel);
    match r.0.exception {
        Some(e) => (
            StateView { exception: None, ..r.0 },
            Err(ErrView::Runtime(render_exc(e))),
        ),
        None => (r.0, Ok(r.1)),
    }
}

/// Running a script source unchecked: any exception it raises stays
/// active for the caller or the interpreter to observe.
pub open spec fn spec_run_unchecked<O>(s: StateView<O>, src: Seq<char>, fuel: nat) -> (StateView<
    O,
>, EvalVal) {
    spec_eval_script(StateView { exception: None, ..s }, src, fuel)
}

/// Running a compiled script: the compiled form is its source behind the
/// `RITE` header; anything else is refused as a `Runtime` error.
pub open spec fn spec_runb<O>(s: StateView<O>, src: Seq<char>, fuel: nat) -> (StateView<
    O,
>, Result<EvalVal, ErrView>)
    decreases fuel, 4int,
{
    if src.len() >= 4 && src.subrange(0, 4) == "RITE"@ {
        spec_run(s, src.subrange(4, src.len() as int), fuel)
    } else {
        (s, Err(ErrView::Runtime("invalid bytecode"@)))
    }
}

/// Executing a stored file by path: dispatch on the extension - source
/// runs checked, compiled form through the bytecode path, anything else
/// is a `Filetype` error - with the file's base name as the current
/// source name, and an `Io` error for a file the store does not hold.
pub open spec fn spec_execute<O>(s: StateView<O>, path: Seq<char>, fuel: nat) -> (StateView<
    O,
>, Result<EvalVal, ErrView>)
    decreases fuel, 5int,
{
    match spec_ext(path) {
        None => (s, Err(ErrView::Filetype)),
        Some(ext) => {
            let s1 = StateView { filename: Some(spec_basename(path)), ..s };
            match s1.fs_index(path) {
                None => (s1, Err(ErrView::Io("cannot open "@ + path))),
                Some(fi) => {
                    let contents = s1.fs[fi].contents;
                    if ext == "rb"@ {
                        spec_run(s1, contents, fuel)
                    } else if ext == "mrb"@ {
                        spec_runb(s1, contents, fuel)
                    } else {
                        (s1, Err(ErrView::Filetype))
                    }
                },
            }
        },
    }
}

/// A copy of one registration step.
fn clone_op(op: &RegOp) -> (r: RegOp)
    ensures
        r == *op,
{
    match op {
        RegOp::DefClass { token, name } => RegOp::DefClass { token: *token, name: name.clone() },
        RegOp::DefMethod { token, name, method } => RegOp::DefMethod {
            token: *token,
            name: name.clone(),
            method: *method,
        },
        RegOp::DefClassMethod { token, name, method } => RegOp::DefClassMethod {
            token: *token,
            name: name.clone(),
            method: *method,
        },
    }
}

/// A copy of a loader's registration steps.
#[verifier::loop_isolation(false)]
fn clone_ops(ops: &Vec<RegOp>) -> (r: Vec<RegOp>)
    ensures
        r@ == ops@,
{
    let mut out: Vec<RegOp> = Vec::new();
    let n = ops.len();
    let mut i: usize = 0;
    while i < n
        invariant
            i <= n,
            out@ =~= ops@.subrange(0, i as int),
        decreases n - i,
    {
        out.push(clone_op(&ops[i]));
        i = i + 1;
    }
    proof {
        assert(out@ =~= ops@);
    }
    out
}

/// A copy of a module's loader list.
#[verifier::loop_isolation(false)]
fn clone_loaders(ls: &Vec<Vec<RegOp>>) -> (r: Vec<Vec<RegOp>>)
    ensures
        r@.map_values(|l: Vec<RegOp>| l@) == ls@.map_values(|l: Vec<RegOp>| l@),
{
    let mut out: Vec<Vec<RegOp>> = Vec::new();
    let n = ls.len();
    let mut i: usize = 0;
    while i < n
        invariant
            i <= n,
            out@.len() == i,
            forall|j: int| 0 <= j < i ==> #[trigger] out@[j]@ == ls@[j]@,
        decreases n - i,
    {
        out.push(clone_ops(&ls[i]));
        i = i + 1;
    }
    proof {
        assert(out@.map_values(|l: Vec<RegOp>| l@) =~= ls@.map_values(|l: Vec<RegOp>| l@));
    }
    out
}

/// Finds the last occurrence of `c` in `s`.
#[verifier::loop_isolation(false)]
fn rfind_exec(s: &str, c: char) -> (r: Option<usize>)
    ensures
        match rfind(s@, c, s@.len() - 1) {
            Some(q) => r matches Some(x) && x as int == q && 0 <= q < s@.len(),
            None => r is None,
        },
{
    let n = s.unicode_len();
    let mut k: usize = n;
    while k > 0
        invariant
            k <= n,
            rfind(s@, c, n as int - 1) == rfind(s@, c, k as int - 1),
        decreases k,
    {
        k = k - 1;
        if s.get_char(k) == c {
            proof {
                assert(rfind(s@, c, k as int) == Some(k as int));
            }
            return Some(k);
        }
        proof {
            assert(rfind(s@, c, k as int) == rfind(s@, c, k as int - 1));
        }
    }
    None
}

/// The value of one term token.
fn term_value(t: &Tok) -> (v: Value)
    requires
        is_term_tok(t@),
    ensures
        val_matches(v.value, term_val(t@)),
{
    match t {
        Tok::Int(n) => Value { value: MrValue::Fixnum(*n) },
        Tok::StrLit(s) => Value { value: MrValue::Str(s.clone()) },
        Tok::KwTrue => Value { value: MrValue::Bool(true) },
        Tok::KwFalse => Value { value: MrValue::Bool(false) },
        _ => Value { value: MrValue::Nil },
    }
}

impl<O> Mruby<O> {
    /// Whether `name` is in the required-set.
    #[verifier::loop_isolation(false)]
    pub(crate) fn required_contains(&self, name: &str) -> (r: bool)
        ensures
            r == self@.is_required(name@),
    {
        let needle = name.to_owned();
        let n = self.required.len();
        let mut i: usize = 0;
        while i < n
            invariant
                i <= n,
                crate::runtime::name_find(self@.required, name@, 0) == crate::runtime::name_find(
                    self@.required,
                    name@,
                    i as int,
                ),
            decreases n - i,
        {
            if self.required[i] == needle {
                proof {
                    assert(self@.required[i as int] == name@);
                }
                return true;
            }
            proof {
                assert(self@.required[i as int] != name@);
            }
            i = i + 1;
        }
        false
    }

    /// Finds the module registry entry named `name`.
    #[verifier::loop_isolation(false)]
    pub(crate) fn lookup_file(&self, name: &str) -> (r: Option<usize>)
        ensures
            match self@.file_index(name@) {
                Some(i) => r matches Some(x) && x as int == i && 0 <= i < self@.files.len(),
                None => r is None,
            },
    {
        let needle = name.to_owned();
        let n = self.files.len();
        let mut i: usize = 0;
        while i < n
            invariant
                i <= n,
                crate::runtime::file_find(self@.files, name@, 0) == crate::runtime::file_find(
                    self@.files,
                    name@,
                    i as int,
                ),
            decreases n - i,
        {
            if self.files[i].name == needle {
                proof {
                    assert(self@.files[i as int].name == name@);
                }
                return Some(i);
            }
            proof {
                assert(self@.files[i as int].name != name@);
            }
            i = i + 1;
        }
        None
    }

    /// Applies one loader's registration steps in order.
    #[verifier::loop_isolation(false)]
    fn apply_ops(&mut self, ops: &Vec<RegOp>)
        ensures
            final(self)@ == spec_apply_ops(old(self)@, ops@),
    {
        let n = ops.len();
        proof {
            assert(ops@.subrange(0, n as int) =~= ops@);
        }
        let mut i: usize = 0;
        while i < n
            invariant
                i <= n,
                spec_apply_ops(old(self)@, ops@) == spec_apply_ops(
                    self@,
                    ops@.subrange(i as int, n as int),
                ),
            decreases n - i,
        {
            let ghost pre = self@;
            let ghost rest = ops@.subrange(i as int, n as int);
            match &ops[i] {
                RegOp::DefClass { token, name } => {
                    self.def_class(*token, name.as_str());
                },
                RegOp::DefMethod { token, name, method } => {
                    self.def_method_entry(*token, name.as_str(), MethodEntry::Host(*method), false);
                },
                RegOp::DefClassMethod { token, name, method } => {
                    self.def_method_entry(*token, name.as_str(), MethodEntry::Host(*method), true);
                },
            }
            proof {
                assert(rest[0] == ops@[i as int]);
                assert(self@ == spec_apply_op(pre, ops@[i as int]));
                assert(rest.drop_first() =~= ops@.subrange(i as int + 1, n as int));
                assert(spec_apply_ops(pre, rest) == spec_apply_ops(
                    self@,
                    ops@.subrange(i as int + 1, n as int),
                ));
            }
            i = i + 1;
        }
        proof {
            assert(ops@.subrange(n as int, n as int) =~= Seq::<RegOp>::empty());
        }
    }

    /// Applies a module's loaders in registration order.
    #[verifier::loop_isolation(false)]
    fn apply_loaders(&mut self, loaders: &Vec<Vec<RegOp>>)
        ensures
            final(self)@ == spec_apply_loaders(
                old(self)@,
                loaders@.map_values(|l: Vec<RegOp>| l@),
            ),
    {
        let ghost lv = loaders@.map_values(|l: Vec<RegOp>| l@);
        let n = loaders.len();
        proof {
            assert(lv.subrange(0, n as int) =~= lv);
        }
        let mut i: usize = 0;
        while i < n
            invariant
                i <= n,
                spec_apply_loaders(old(self)@, lv) == spec_apply_loaders(
                    self@,
                    lv.subrange(i as int, n as int),
                ),
            decreases n - i,
        {
            let ghost pre = self@;
            let ghost rest = lv.subrange(i as int, n as int);
            self.apply_ops(&loaders[i]);
            proof {
                assert(rest[0] == lv[i as int]);
                assert(self@ == spec_apply_ops(pre, lv[i as int]));
                assert(rest.drop_first() =~= lv.subrange(i as int + 1, n as int));
            }
            i = i + 1;
        }
        proof {
            assert(lv.subrange(n as int, n as int) =~= Seq::<Seq<RegOp>>::empty());
        }
    }

    /// Evaluates one script statement against the state.
    #[verifier::loop_isolation(false)]
    fn eval_script_fuel(&mut self, src: &str, fuel: u64) -> (v: Value)
        ensures
            ({
                let r = spec_eval_script(old(self)@, src@, fuel as nat);
                final(self)@ == r.0 && val_matches(v.value, r.1)
            }),
        decreases fuel, 2int,
    {
        let toks = tokenize(src);
        let ghost tv = tokens_from(src@, 0);
        let n = toks.len();
        if n == 0 {
            proof {
                assert(parse(tv) == Some(StmtView::Empty));
            }
            return Value { value: MrValue::Nil };
        }
        let is_req = match &toks[0] {
            Tok::KwRequire => true,
            _ => false,
        };
        if is_req {
            if n == 2 {
                let nm: Option<String> = match &toks[1] {
                    Tok::StrLit(s) => Some(s.clone()),
                    _ => None,
                };
                match nm {
                    Some(nmv) => {
                        proof {
                            assert(tv[1] is StrLit);
                            assert(parse(tv) == Some(StmtView::Require(tv[1]->StrLit_0)));
                            assert(nmv@ == tv[1]->StrLit_0);
                        }
                        return self.require_fuel(nmv.as_str(), fuel);
                    },
                    None => {
                        proof {
                            if valid_expr(tv) {
                                assert(is_term_tok(tv[0]));
                            }
                            assert(parse(tv) is None);
                        }
                        self.raise("SyntaxError", "invalid syntax");
                        return Value { value: MrValue::Nil };
                    },
                }
            }
            proof {
                if valid_expr(tv) {
                    assert(is_term_tok(tv[0]));
                }
                assert(parse(tv) is None);
            }
            self.raise("SyntaxError", "invalid syntax");
            return Value { value: MrValue::Nil };
        }
        if n % 2 == 0 {
            proof {
                assert(!valid_expr(tv));
                assert(parse(tv) is None);
            }
            self.raise("SyntaxError", "invalid syntax");
            return Value { value: MrValue::Nil };
        }
        let mut k: usize = 0;
        while k < n
            invariant
                k <= n,
                self@ == old(self)@,
                forall|j: int|
                    0 <= j < k ==> (if j % 2 == 0 {
                        is_term_tok(#[trigger] tv[j])
                    } else {
                        tv[j] is Plus
                    }),
            decreases n - k,
        {
            let good: bool = if k % 2 == 0 {
                match &toks[k] {
                    Tok::Int(_) => true,
                    Tok::StrLit(_) => true,
                    Tok::KwTrue => true,
                    Tok::KwFalse => true,
                    Tok::KwNil => true,
                    _ => false,
                }
            } else {
                match &toks[k] {
                    Tok::Plus => true,
                    _ => false,
                }
            };
            if !good {
                proof {
                    assert(tv[k as int] == toks@[k as int]@);
                    assert(tv[0] == toks@[0]@);
                    if valid_expr(tv) {
                        if k % 2 == 0 {
                            assert(is_term_tok(tv[k as int]));
                        } else {
                            assert(tv[k as int] is Plus);
                        }
                    }
                    assert(parse(tv) is None);
                }
                self.raise("SyntaxError", "invalid syntax");
                return Value { value: MrValue::Nil };
            }
            k = k + 1;
        }
        proof {
            assert(valid_expr(tv));
            assert(parse(tv) == Some(StmtView::Expr(tv)));
        }
        let ghost nt = nterms(tv);
        proof {
            assert(tv[0] == toks@[0]@);
        }
        let mut acc = term_value(&toks[0]);
        proof {
            assert(eval_expr(tv, 1) == Ok::<EvalVal, ExcView>(term_val(tv[0])));
        }
        let mut idx: usize = 1;
        while idx < n
            invariant
                self@ == old(self)@,
                1 <= idx <= n,
                idx % 2 == 1,
                eval_expr(tv, (idx as int + 1) / 2) matches Ok(ev) && val_matches(acc.value, ev),
            decreases n - idx,
        {
            let ghost m = (idx as int + 1) / 2;
            proof {
                assert(2 * m == idx as int + 1);
                assert(m < nt);
            }
            let b = term_value(&toks[idx + 1]);
            let ghost ae = eval_expr(tv, m)->Ok_0;
            let ghost be = term_val(tv[idx as int + 1]);
            match self.plus_step(acc, b, Ghost(ae), Ghost(be)) {
                Some(v2) => {
                    proof {
                        assert(eval_expr(tv, m + 1) == spec_plus(ae, be));
                    }
                    acc = v2;
                    idx = idx + 2;
                },
                None => {
                    proof {
                        assert(eval_expr(tv, m + 1) == spec_plus(ae, be));
                        lemma_eval_expr_err(tv, m + 1, nt);
                    }
                    return Value { value: MrValue::Nil };
                },
            }
        }
        proof {
            assert(idx as int == n as int);
            assert((idx as int + 1) / 2 == nt);
        }
        acc
    }

    /// The `require` primitive on the state.
    fn require_fuel(&mut self, name: &str, fuel: u64) -> (v: Value)
        ensures
            ({
                let r = spec_require(old(self)@, name@, fuel as nat);
                final(self)@ == r.0 && val_matches(v.value, r.1)
            }),
        decreases fuel, 1int,
    {
        if self.required_contains(name) {
            return Value { value: MrValue::Bool(false) };
        }
        match self.lookup_file(name) {
            Some(fi) => {
                let loaders = clone_loaders(&self.files[fi].loaders);
                let ghost pre = self@;
                self.required.push(name.to_owned());
                proof {
                    assert(self@.required =~= pre.required.push(name@));
                    assert(self@ =~= (StateView { required: pre.required.push(name@), ..pre }));
                }
                self.apply_loaders(&loaders);
                proof {
                    assert(loaders@.map_values(|l: Vec<RegOp>| l@) == pre.files[fi as int].loaders);
                }
                Value { value: MrValue::Bool(true) }
            },
            None => {
                let cand: Option<String> = if self.lookup_fs(name).is_some() {
                    Some(name.to_owned())
                } else {
                    let rb = name.to_owned().concat(".rb");
                    if self.lookup_fs(rb.as_str()).is_some() {
                        Some(rb)
                    } else {
                        let mrbp = name.to_owned().concat(".mrb");
                        if self.lookup_fs(mrbp.as_str()).is_some() {
                            Some(mrbp)
                        } else {
                            None
                        }
                    }
                };
                match cand {
                    None => {
                        let msg = String::from_str("cannot load ").concat(name).concat(
                            ".rb or ",
                        ).concat(name).concat(".mrb");
                        self.raise("RuntimeError", msg.as_str());
                        Value { value: MrValue::Nil }
                    },
                    Some(path) => {
                        if fuel == 0 {
                            self.raise("RuntimeError", "require nesting too deep");
                            return Value { value: MrValue::Nil };
                        }
                        let saved: Option<String> = match &self.filename {
                            Some(f) => Some(f.clone()),
                            None => None,
                        };
                        let ghost pre = self@;
                        self.required.push(name.to_owned());
                        proof {
                            assert(self@.required =~= pre.required.push(name@));
                            assert(self@ =~= (StateView {
                                required: pre.required.push(name@),
                                ..pre
                            }));
                        }
                        let res = self.execute_fuel(path.as_str(), fuel - 1);
                        let ghost mid = self@;
                        self.filename = saved;
                        proof {
                            assert(self@ =~= (StateView { filename: pre.filename, ..mid }));
                        }
                        match res {
                            Ok(_) => Value { value: MrValue::Bool(true) },
                            Err(e) => {
                                let m = e.message();
                                self.raise("RuntimeError", m.as_str());
                                Value { value: MrValue::Bool(true) }
                            },
                        }
                    },
                }
            },
        }
    }

    /// Compiles and runs the stored file `path`, dispatching on its
    /// extension.
    fn execute_fuel(&mut self, path: &str, fuel: u64) -> (r: Result<Value, MrubyError>)
        ensures
            ({
                let sr = spec_execute(old(self)@, path@, fuel as nat);
                &&& final(self)@ == sr.0
                &&& match sr.1 {
                    Ok(ev) => r matches Ok(v) && val_matches(v.value, ev),
                    Err(e) => r matches Err(x) && x@ == e,
                }
            }),
        decreases fuel, 5int,
    {
        let n = path.unicode_len();
        let base: String = match rfind_exec(path, '/') {
            Some(k) => path.substring_char(k + 1, n).to_owned(),
            None => path.to_owned(),
        };
        proof {
            assert(base@ == spec_basename(path@));
        }
        let bn = base.as_str().unicode_len();
        let ext: Option<String> = match rfind_exec(base.as_str(), '.') {
            Some(d) => if d > 0 {
                Some(base.as_str().substring_char(d + 1, bn).to_owned())
            } else {
                None
            },
            None => None,
        };
        match ext {
            None => Err(MrubyError::Filetype),
            Some(ext) => {
                self.filename(base.as_str());
                match self.lookup_fs(path) {
                    None => Err(MrubyError::Io(String::from_str("cannot open ").concat(path))),
                    Some(fi) => {
                        let contents = self.fs[fi].contents.clone();
                        if ext == String::from_str("rb") {
                            self.run_fuel(contents.as_str(), fuel)
                        } else if ext == String::from_str("mrb") {
                            self.runb_fuel(contents.as_str(), fuel)
                        } else {
                            Err(MrubyError::Filetype)
                        }
                    },
                }
            },
        }
    }

    /// Runs script source checked, against the given fuel.
    fn run_fuel(&mut self, script: &str, fuel: u64) -> (r: Result<Value, MrubyError>)
        ensures
            ({
                let sr = spec_run(old(self)@, script@, fuel as nat);
                &&& final(self)@ == sr.0
                &&& match sr.1 {
                    Ok(ev) => r matches Ok(v) && val_matches(v.value, ev),
                    Err(e) => r matches Err(x) && x@ == e,
                }
            }),
        decreases fuel, 3int,
    {
        self.exception = None;
        proof {
            assert(self@ =~= (StateView { exception: None, ..old(self)@ }));
        }
        let v = self.eval_script_fuel(script, fuel);
        let exc: Option<(String, String)> = match &self.exception {
            Some(e) => Some((e.class.clone(), e.message.clone())),
            None => None,
        };
        match exc {
            Some((cls, msg)) => {
                let ghost mid = self@;
                self.exception = None;
                proof {
                    assert(self@ =~= (StateView { exception: None, ..mid }));
                }
                Err(MrubyError::Runtime(cls.concat(": ").concat(msg.as_str())))
            },
            None => Ok(v),
        }
    }

    /// Runs compiled script source, against the given fuel.
    fn runb_fuel(&mut self, script: &str, fuel: u64) -> (r: Result<Value, MrubyError>)
        ensures
            ({
                let sr = spec_runb(old(self)@, script@, fuel as nat);
                &&& final(self)@ == sr.0
                &&& match sr.1 {
                    Ok(ev) => r matches Ok(v) && val_matches(v.value, ev),
                    Err(e) => r matches Err(x) && x@ == e,
                }
            }),
        decreases fuel, 4int,
    {
        let n = script.unicode_len();
        if n >= 4 {
            let head = script.substring_char(0, 4).to_owned();
            if head == String::from_str("RITE") {
                let rest = script.substring_char(4, n);
                return self.run_fuel(rest, fuel);
            }
        }
        Err(MrubyError::Runtime(String::from_str("invalid bytecode")))
    }

    /// The fuel budget of a public entry point.
    fn fuel_budget(&self) -> (f: u64)
        ensures
            f as nat == spec_fuel(self@),
    {
        let a = self.files.len() as u64;
        let b = self.fs.len() as u64;
        if b <= u64::MAX - a {
            if a + b <= u64::MAX - 1 {
                a + b + 1
            } else {
                u64::MAX
            }
        } else {
            u64::MAX
        }
    }

    /// Runs script `script` against the interpreter and returns its value
    /// in an `Ok`, or an `Err` carrying the rendered text of the script
    /// exception it raised.
    pub fn run(&mut self, script: &str) -> (r: Result<Value, MrubyError>)
        ensures
            ({
                let sr = spec_run(old(self)@, script@, spec_fuel(old(self)@));
                &&& final(self)@ == sr.0
                &&& match sr.1 {
                    Ok(ev) => r matches Ok(v) && val_matches(v.value, ev),
                    Err(e) => r matches Err(x) && x@ == e,
                }
            }),
    {
        let fuel = self.fuel_budget();
        self.run_fuel(script, fuel)
    }

    /// Runs script `script` and returns its value; an exception it raises
    /// stays active for the script's own exception handling to observe.
    pub fn run_unchecked(&mut self, script: &str) -> (r: Value)
        ensures
            ({
                let sr = spec_run_unchecked(old(self)@, script@, spec_fuel(old(self)@));
                final(self)@ == sr.0 && val_matches(r.value, sr.1)
            }),
    {
        let fuel = self.fuel_budget();
        self.exception = None;
        proof {
            assert(self@ =~= (StateView { exception: None, ..old(self)@ }));
        }
        self.eval_script_fuel(script, fuel)
    }

    /// Runs compiled script `script`: its source behind the compiled-form
    /// header, checked as `run`.
    pub fn runb(&mut self, script: &str) -> (r: Result<Value, MrubyError>)
        ensures
            ({
                let sr = spec_runb(old(self)@, script@, spec_fuel(old(self)@));
                &&& final(self)@ == sr.0
                &&& match sr.1 {
                    Ok(ev) => r matches Ok(v) && val_matches(v.value, ev),
                    Err(e) => r matches Err(x) && x@ == e,
                }
            }),
    {
        let fuel = self.fuel_budget();
        self.runb_fuel(script, fuel)
    }

    /// Runs the stored file `path`: its extension picks the source or the
    /// compiled path, anything else is a `Filetype` error.
    pub fn execute(&mut self, path: &str) -> (r: Result<Value, MrubyError>)
        ensures
            ({
                let sr = spec_execute(old(self)@, path@, spec_fuel(old(self)@));
                &&& final(self)@ == sr.0
                &&& match sr.1 {
                    Ok(ev) => r matches Ok(v) && val_matches(v.value, ev),
                    Err(e) => r matches Err(x) && x@ == e,
                }
            }),
    {
        let fuel = self.fuel_budget();
        self.execute_fuel(path, fuel)
    }

    /// The `+` of the script language on two evaluated values; on a
    /// mismatch the exception is raised and nothing is returned.
    fn plus_step(
        &mut self,
        a: Value,
        b: Value,
        Ghost(ae): Ghost<EvalVal>,
        Ghost(be): Ghost<EvalVal>,
    ) -> (r: Option<Value>)
        requires
            val_matches(a.value, ae),
            val_matches(b.value, be),
        ensures
            match spec_plus(ae, be) {
                Ok(ev) => {
                    &&& final(self)@ == old(self)@
                    &&& r matches Some(v) && val_matches(v.value, ev)
                },
                Err(e) => {
                    &&& final(self)@ == (StateView { exception: Some(e), ..old(self)@ })
                    &&& r is None
                },
            },
    {
        match (a.value, b.value) {
            (MrValue::Fixnum(x), MrValue::Fixnum(y)) => Some(
                Value { value: MrValue::Fixnum(x.wrapping_add(y)) },
            ),
            (MrValue::Str(x), MrValue::Str(y)) => Some(
                Value { value: MrValue::Str(x.concat(y.as_str())) },
            ),
            (MrValue::Str(_), _) => {
                self.raise("TypeError", "expected String");
                None
            },
            (MrValue::Fixnum(_), _) => {
                self.raise("TypeError", "expected Integer");
                None
            },
            _ => {
                self.raise("NoMethodError", "undefined method '+'");
                None
            },
        }
    }
}

/// The character of one decimal digit.
pub open spec fn digit_char(k: int) -> char {
    ((48 + k) as u8) as char
}

/// The decimal digits of a non-negative number, most significant first.
pub open spec fn dec_digits(n: int) -> Seq<char>
    decreases n,
{
    if n < 10 {
        seq![digit_char(n)]
    } else {
        dec_digits(n / 10).push(digit_char(n % 10))
    }
}

/// The decimal rendering of a number, with a leading minus when negative.
pub open spec fn fixnum_str(n: int) -> Seq<char> {
    if n < 0 {
        seq!['-'] + dec_digits(-n)
    } else {
        dec_digits(n)
    }
}

/// The one-character string of a decimal digit.
fn digit_str(d: u32) -> (r: &'static str)
    requires
        d <= 9,
    ensures
        r@ == seq![digit_char(d as int)],
{
    proof {
        reveal_strlit("0");
        reveal_strlit("1");
        reveal_strlit("2");
        reveal_strlit("3");
        reveal_strlit("4");
        reveal_strlit("5");
        reveal_strlit("6");
        reveal_strlit("7");
        reveal_strlit("8");
        reveal_strlit("9");
    }
    let r = match d {
        0 => "0",
        1 => "1",
        2 => "2",
        3 => "3",
        4 => "4",
        5 => "5",
        6 => "6",
        7 => "7",
        8 => "8",
        _ => "9",
    };
    proof {
        assert(r@ =~= seq![digit_char(d as int)]);
    }
    r
}

/// The characters of a digit stack read back most significant first.
pub open spec fn rev_digits(ds: Seq<u32>) -> Seq<char> {
    Seq::new(ds.len(), |i: int| digit_char(ds[ds.len() - 1 - i] as int))
}

/// Renders a fixnum as its decimal string.
#[verifier::loop_isolation(false)]
fn fixnum_to_string(n: i32) -> (s: String)
    ensures
        s@ == fixnum_str(n as int),
{
    let mag: u32 = if n < 0 {
        (-(n as i64)) as u32
    } else {
        n as u32
    };
    let mut digs: Vec<u32> = Vec::new();
    let mut m: u32 = mag;
    digs.push(m % 10);
    m = m / 10;
    proof {
        if m == 0 {
            assert(dec_digits(mag as int) =~= rev_digits(digs@));
        } else {
            assert(dec_digits(mag as int) =~= dec_digits(m as int) + rev_digits(digs@));
        }
    }
    while m > 0
        invariant
            digs@.len() >= 1,
            forall|i: int| 0 <= i < digs@.len() ==> #[trigger] digs@[i] <= 9,
            m > 0 ==> dec_digits(mag as int) == dec_digits(m as int) + rev_digits(digs@),
            m == 0 ==> dec_digits(mag as int) == rev_digits(digs@),
        decreases m,
    {
        let ghost pre = digs@;
        let d = m % 10;
        digs.push(d);
        m = m / 10;
        proof {
            assert(rev_digits(pre.push(d)) =~= seq![digit_char(d as int)] + rev_digits(pre));
            if m == 0 {
                assert(dec_digits(mag as int) =~= rev_digits(digs@));
            } else {
                assert(dec_digits(mag as int) =~= dec_digits(m as int) + rev_digits(digs@));
            }
        }
    }
    let mut s: String = if n < 0 {
        String::from_str("-")
    } else {
        String::new()
    };
    proof {
        reveal_strlit("-");
        if n < 0 {
            assert(s@ =~= seq!['-']);
        }
    }
    let ghost sign = s@;
    let ghost full = digs@;
    while digs.len() > 0
        invariant
            digs@.len() <= full.len(),
            digs@ == full.subrange(0, digs@.len() as int),
            forall|i: int| 0 <= i < full.len() ==> #[trigger] full[i] <= 9,
            s@ == sign + rev_digits(full).subrange(
                0,
                full.len() - digs@.len(),
            ),
        decreases digs@.len(),
    {
        let ghost pre = digs@;
        let d = match digs.pop() {
            Some(d) => d,
            None => {
                proof {
                    assert(false);
                }
                0
            },
        };
        proof {
            assert(pre[pre.len() - 1] == full[pre.len() - 1]);
            assert(digs@ =~= full.subrange(0, digs@.len() as int));
        }
        s.append(digit_str(d));
        proof {
            assert(rev_digits(full).subrange(0, full.len() - digs@.len()) =~= rev_digits(
                full,
            ).subrange(0, full.len() - pre.len()) + seq![digit_char(d as int)]);
            assert(s@ =~= sign + rev_digits(full).subrange(0, full.len() - digs@.len()));
        }
    }
    proof {
        assert(rev_digits(full).subrange(0, full.len() as int) =~= rev_digits(full));
        assert(s@ =~= sign + dec_digits(mag as int));
        if n < 0 {
            assert(s@ =~= fixnum_str(n as int));
        } else {
            assert(sign =~= Seq::<char>::empty());
            assert(s@ =~= fixnum_str(n as int));
        }
    }
    s
}

/// The evaluated form of a primitive value, where it has one.
pub open spec fn as_eval(v: MrValue) -> Option<EvalVal> {
    match v {
        MrValue::Nil => Some(EvalVal::Nil),
        MrValue::Bool(b) => Some(EvalVal::Bool(b)),
        MrValue::Fixnum(n) => Some(EvalVal::Fixnum(n)),
        MrValue::Str(s) => Some(EvalVal::Str(s@)),
        _ => None,
    }
}

/// The `+` method on raw values: fixnum addition, string concatenation,
/// and the exception every other pairing raises.
pub open spec fn spec_plus_mr(a: MrValue, b: MrValue) -> Result<EvalVal, ExcView> {
    match a {
        MrValue::Fixnum(x) => match b {
            MrValue::Fixnum(y) => Ok(EvalVal::Fixnum(x.wrapping_add(y))),
            _ => Err(ExcView { class: "TypeError"@, message: "expected Integer"@ }),
        },
        MrValue::Str(x) => match b {
            MrValue::Str(y) => Ok(EvalVal::Str(x@ + y@)),
            _ => Err(ExcView { class: "TypeError"@, message: "expected String"@ }),
        },
        _ => Err(ExcView { class: "NoMethodError"@, message: "undefined method '+'"@ }),
    }
}

/// Equality of two raw values, where the runtime answers it: by content
/// for the primitives, by identity for instances, and not at all when an
/// array is involved.
pub open spec fn spec_eq_mr(a: MrValue, b: MrValue) -> Option<bool> {
    if a is Array || b is Array {
        None
    } else {
        Some(
            match (a, b) {
                (MrValue::Nil, MrValue::Nil) => true,
                (MrValue::Bool(x), MrValue::Bool(y)) => x == y,
                (MrValue::Fixnum(x), MrValue::Fixnum(y)) => x == y,
                (MrValue::Str(x), MrValue::Str(y)) => x@ == y@,
                (MrValue::Sym(x), MrValue::Sym(y)) => x@ == y@,
                (
                    MrValue::Instance { class: c1, data: d1 },
                    MrValue::Instance { class: c2, data: d2 },
                ) => c1 == c2 && d1 == d2,
                _ => false,
            },
        )
    }
}

/// What a method call on a value produces: a primitive result, or a
/// duplicate of the receiver.
pub enum CallSpec {
    Val(EvalVal),
    Dup,
}

/// Invoking a named method on a value with arguments: the builtin method
/// protocol the runtime itself answers.  `+` and `==` take one argument;
/// `nil?`, `to_s` and `dup` take none; `to_s` is answered for every value
/// but arrays and instances.  A wrong argument count raises
/// `ArgumentError`, and any other method raises `NoMethodError` naming
/// the method.
pub open spec fn spec_call_unchecked<O>(
    s: StateView<O>,
    recv: MrValue,
    name: Seq<char>,
    args: Seq<MrValue>,
) -> (StateView<O>, CallSpec) {
    if name == "+"@ {
        if args.len() != 1 {
            (
                StateView {
                    exception: Some(
                        ExcView {
                            class: "ArgumentError"@,
                            message: "wrong number of arguments"@,
                        },
                    ),
                    ..s
                },
                CallSpec::Val(EvalVal::Nil),
            )
        } else {
            match spec_plus_mr(recv, args[0]) {
                Ok(ev) => (s, CallSpec::Val(ev)),
                Err(e) => (StateView { exception: Some(e), ..s }, CallSpec::Val(EvalVal::Nil)),
            }
        }
    } else if name == "nil?"@ {
        if args.len() != 0 {
            (
                StateView {
                    exception: Some(
                        ExcView {
                            class: "ArgumentError"@,
                            message: "wrong number of arguments"@,
                        },
                    ),
                    ..s
                },
                CallSpec::Val(EvalVal::Nil),
            )
        } else {
            (s, CallSpec::Val(EvalVal::Bool(recv is Nil)))
        }
    } else if name == "to_s"@ {
        if args.len() != 0 {
            (
                StateView {
                    exception: Some(
                        ExcView {
                            class: "ArgumentError"@,
                            message: "wrong number of arguments"@,
                        },
                    ),
                    ..s
                },
                CallSpec::Val(EvalVal::Nil),
            )
        } else {
            match recv {
                MrValue::Nil => (s, CallSpec::Val(EvalVal::Str(""@))),
                MrValue::Bool(b) => (
                    s,
                    CallSpec::Val(
                        EvalVal::Str(
                            if b {
                                "true"@
                            } else {
                                "false"@
                            },
                        ),
                    ),
                ),
                MrValue::Fixnum(x) => (s, CallSpec::Val(EvalVal::Str(fixnum_str(x as int)))),
                MrValue::Str(x) => (s, CallSpec::Val(EvalVal::Str(x@))),
                MrValue::Sym(x) => (s, CallSpec::Val(EvalVal::Str(x@))),
                _ => (
                    StateView {
                        exception: Some(
                            ExcView {
                                class: "NoMethodError"@,
                                message: "undefined method 'to_s'"@,
                            },
                        ),
                        ..s
                    },
                    CallSpec::Val(EvalVal::Nil),
                ),
            }
        }
    } else if name == "=="@ {
        if args.len() != 1 {
            (
                StateView {
                    exception: Some(
                        ExcView {
                            class: "ArgumentError"@,
                            message: "wrong number of arguments"@,
                        },
                    ),
                    ..s
                },
                CallSpec::Val(EvalVal::Nil),
            )
        } else {
            match spec_eq_mr(recv, args[0]) {
                Some(b) => (s, CallSpec::Val(EvalVal::Bool(b))),
                None => (
                    StateView {
                        exception: Some(
                            ExcView {
                                class: "NoMethodError"@,
                                message: "undefined method '=='"@,
                            },
                        ),
                        ..s
                    },
                    CallSpec::Val(EvalVal::Nil),
                ),
            }
        }
    } else if name == "dup"@ {
        if args.len() != 0 {
            (
                StateView {
                    exception: Some(
                        ExcView {
                            class: "ArgumentError"@,
                            message: "wrong number of arguments"@,
                        },
                    ),
                    ..s
                },
                CallSpec::Val(EvalVal::Nil),
            )
        } else {
            (crate::runtime::spec_dup(s, recv), CallSpec::Dup)
        }
    } else {
        (
            StateView {
                exception: Some(
                    ExcView {
                        class: "NoMethodError"@,
                        message: "undefined method '"@ + name + "'"@,
                    },
                ),
                ..s
            },
            CallSpec::Val(EvalVal::Nil),
        )
    }
}

/// The checked form of a call: the state starts with no active
/// exception, and one active afterwards is taken and rendered as a
/// `Runtime` error.
pub open spec fn spec_call<O>(
    s: StateView<O>,
    recv: MrValue,
    name: Seq<char>,
    args: Seq<MrValue>,
) -> (StateView<O>, Result<CallSpec, ErrView>) {
    let r = spec_call_unchecked(StateView { exception: None, ..s }, recv, name, args);
    match r.0.exception {
        Some(e) => (
            StateView { exception: None, ..r.0 },
            Err(ErrView::Runtime(render_exc(e))),
        ),
        None => (r.0, Ok(r.1)),
    }
}

/// The views of a call's arguments.
pub open spec fn args_view(args: Seq<Value>) -> Seq<MrValue> {
    args.map_values(|a: Value| a.value)
}

impl Value {
    /// Calls method `name` on a `Value` passing `args`, leaving any
    /// exception the call raises active for the caller or the
    /// interpreter to handle.
    pub fn call_unchecked<O>(&self, mruby: &mut Mruby<O>, name: &str, args: Vec<Value>) -> (r:
        Value)
        ensures
            ({
                let sr = spec_call_unchecked(old(mruby)@, self.value, name@, args_view(args@));
                &&& final(mruby)@ == sr.0
                &&& match sr.1 {
                    CallSpec::Val(ev) => val_matches(r.value, ev),
                    CallSpec::Dup => crate::value::mr_equiv(r.value, self.value),
                }
            }),
    {
        proof {
            assert(args_view(args@).len() == args@.len());
        }
        if name.to_owned() == String::from_str("+") {
            if args.len() != 1 {
                return mruby.raise("ArgumentError", "wrong number of arguments");
            }
            proof {
                assert(args_view(args@)[0] == args@[0].value);
            }
            match (&self.value, &args[0].value) {
                (MrValue::Fixnum(x), MrValue::Fixnum(y)) => Value {
                    value: MrValue::Fixnum(x.wrapping_add(*y)),
                },
                (MrValue::Str(x), MrValue::Str(y)) => Value {
                    value: MrValue::Str(x.clone().concat(y.as_str())),
                },
                (MrValue::Fixnum(_), _) => mruby.raise("TypeError", "expected Integer"),
                (MrValue::Str(_), _) => mruby.raise("TypeError", "expected String"),
                _ => mruby.raise("NoMethodError", "undefined method '+'"),
            }
        } else if name.to_owned() == String::from_str("nil?") {
            if args.len() != 0 {
                return mruby.raise("ArgumentError", "wrong number of arguments");
            }
            match &self.value {
                MrValue::Nil => Value { value: MrValue::Bool(true) },
                _ => Value { value: MrValue::Bool(false) },
            }
        } else if name.to_owned() == String::from_str("to_s") {
            if args.len() != 0 {
                return mruby.raise("ArgumentError", "wrong number of arguments");
            }
            match &self.value {
                MrValue::Nil => Value { value: MrValue::Str(String::from_str("")) },
                MrValue::Bool(b) => Value {
                    value: MrValue::Str(
                        if *b {
                            String::from_str("true")
                        } else {
                            String::from_str("false")
                        },
                    ),
                },
                MrValue::Fixnum(x) => Value { value: MrValue::Str(fixnum_to_string(*x)) },
                MrValue::Str(x) => Value { value: MrValue::Str(x.clone()) },
                MrValue::Sym(x) => Value { value: MrValue::Str(x.clone()) },
                _ => mruby.raise("NoMethodError", "undefined method 'to_s'"),
            }
        } else if name.to_owned() == String::from_str("==") {
            if args.len() != 1 {
                return mruby.raise("ArgumentError", "wrong number of arguments");
            }
            proof {
                assert(args_view(args@)[0] == args@[0].value);
            }
            let eq: Option<bool> = match (&self.value, &args[0].value) {
                (MrValue::Array(_), _) => None,
                (_, MrValue::Array(_)) => None,
                (MrValue::Nil, MrValue::Nil) => Some(true),
                (MrValue::Bool(x), MrValue::Bool(y)) => Some(*x == *y),
                (MrValue::Fixnum(x), MrValue::Fixnum(y)) => Some(*x == *y),
                (MrValue::Str(x), MrValue::Str(y)) => Some(x.eq(y)),
                (MrValue::Sym(x), MrValue::Sym(y)) => Some(x.eq(y)),
                (
                    MrValue::Instance { class: c1, data: d1 },
                    MrValue::Instance { class: c2, data: d2 },
                ) => Some(
                    *c1 == *c2 && match (d1, d2) {
                        (Some(a), Some(b)) => *a == *b,
                        (None, None) => true,
                        _ => false,
                    },
                ),
                _ => Some(false),
            };
            match eq {
                Some(b) => Value { value: MrValue::Bool(b) },
                None => mruby.raise("NoMethodError", "undefined method '=='"),
            }
        } else if name.to_owned() == String::from_str("dup") {
            if args.len() != 0 {
                return mruby.raise("ArgumentError", "wrong number of arguments");
            }
            self.dup(mruby)
        } else {
            let msg = String::from_str("undefined method '").concat(name).concat("'");
            mruby.raise("NoMethodError", msg.as_str())
        }
    }

    /// Calls method `name` on a `Value` passing `args` and inspects the
    /// interpreter afterwards: an exception the call raised is taken and
    /// returned as a `Runtime` error.
    pub fn call<O>(&self, mruby: &mut Mruby<O>, name: &str, args: Vec<Value>) -> (r: Result<
        Value,
        MrubyError,
    >)
        ensures
            ({
                let sr = spec_call(old(mruby)@, self.value, name@, args_view(args@));
                &&& final(mruby)@ == sr.0
                &&& match sr.1 {
                    Ok(CallSpec::Val(ev)) => r matches Ok(v) && val_matches(v.value, ev),
                    Ok(CallSpec::Dup) => r matches Ok(v) && crate::value::mr_equiv(
                        v.value,
                        self.value,
                    ),
                    Err(e) => r matches Err(x) && x@ == e,
                }
            }),
    {
        mruby.exception = None;
        proof {
            assert(mruby@ =~= (StateView { exception: None, ..old(mruby)@ }));
        }
        let v = self.call_unchecked(mruby, name, args);
        let exc: Option<(String, String)> = match &mruby.exception {
            Some(e) => Some((e.class.clone(), e.message.clone())),
            None => None,
        };
        match exc {
            Some((cls, msg)) => {
                let ghost mid = mruby@;
                mruby.exception = None;
                proof {
                    assert(mruby@ =~= (StateView { exception: None, ..mid }));
                }
                Err(MrubyError::Runtime(cls.concat(": ").concat(msg.as_str())))
            },
            None => Ok(v),
        }
    }
}

} // verus!
