//! The text form of a grammar document.
//!
//! A document is a sequence of lines (ASCII only):
//!
//! - `let NAME value` defines a constant (name case-insensitive);
//! - `rul NAME [gate]` opens one case of a rule; the invocation lines that
//!   follow form its body until `end`, the next `rul` or `let`, or the end
//!   of the document; the optional gate is a probability expression;
//! - any other non-empty line is an invocation: a primitive or rule name
//!   followed by `key value` pairs.
//!
//! A value is a number, a `?name` constant reference (`?` before a single
//! property letter reads that property of the node being built instead), a
//! `sub`/`abs`/`sig` prefix applied to a value, a parenthesized
//! `(value op value)` binary form, or a `lo..hi` range (`...` marks the
//! random-collapse form).  In a numeric literal a leading `m`, `M` or `-`
//! marks a negative number, so properties can be glued together as in
//! `p0.5 xm0.3ym0.3`.  Literals are clipped to the representable
//! fixed-point range; parsed expressions are constant-folded on the spot.
//!
//! Parsing builds the tables and then validates the whole document; a
//! grammar handed out by `parse` always carries the validation invariant.

use crate::binary_operator::BinaryOperator;
use crate::error::GrammarError;
use crate::expression::{Expression, ExpressionOrRange};
use crate::fixed::FX_MAX;
use crate::grammar::{rule_index, Grammar};
use crate::invocation::{Invocation, Method};
use crate::primitive::Primitive;
use crate::properties::{PropertyKey, TempProperty};
use crate::text::{eq_ignore_case, spec_lower, spec_lower_char};
use crate::unary_operator::UnaryOperator;
use crate::user_rules::{RuleCase, UserRule};
use vstd::prelude::*;

verus! {

/// The parser for the grammar document text.
pub struct ConvextParser;

fn is_alpha(b: u8) -> (r: bool)
    ensures
        r == ((65 <= b && b <= 90) || (97 <= b && b <= 122)),
{
    (65 <= b && b <= 90) || (97 <= b && b <= 122)
}

fn is_digit(b: u8) -> (r: bool)
    ensures
        r == (48 <= b && b <= 57),
{
    48 <= b && b <= 57
}

fn is_space(b: u8) -> (r: bool)
    ensures
        r == (b == 32 || b == 9 || b == 13),
{
    b == 32 || b == 9 || b == 13
}

/// An ASCII blank that does not end a line: space, tab or carriage
/// return.
pub open spec fn spec_is_space(c: char) -> bool {
    c == ' ' || c == '\t' || c == '\r'
}

pub open spec fn spec_is_alpha(c: char) -> bool {
    ('A' <= c && c <= 'Z') || ('a' <= c && c <= 'z')
}

pub open spec fn spec_is_digit(c: char) -> bool {
    '0' <= c && c <= '9'
}

pub open spec fn spec_is_name_char(c: char) -> bool {
    spec_is_alpha(c) || spec_is_digit(c) || c == '_'
}

/// The first position at or after `pos` holding something other than a
/// blank, up to `end`.
pub open spec fn spec_skip_spaces(s: Seq<char>, end: int, pos: int) -> int
    decreases end - pos,
{
    if pos < 0 || pos >= end || !spec_is_space(s[pos]) {
        pos
    } else {
        spec_skip_spaces(s, end, pos + 1)
    }
}

/// The end of the run of name characters starting at `pos`.
pub open spec fn spec_scan_name(s: Seq<char>, end: int, pos: int) -> int
    decreases end - pos,
{
    if pos < 0 || pos >= end || !spec_is_name_char(s[pos]) {
        pos
    } else {
        spec_scan_name(s, end, pos + 1)
    }
}

/// A run of blanks is skipped whole.
proof fn lemma_skip_all_spaces(s: Seq<char>, end: int, pos: int)
    requires
        0 <= pos <= end,
        forall|k: int| pos <= k < end ==> spec_is_space(#[trigger] s[k]),
    ensures
        spec_skip_spaces(s, end, pos) == end,
    decreases end - pos,
{
    if pos < end {
        lemma_skip_all_spaces(s, end, pos + 1);
    }
}

/// A name scan never moves backward.
proof fn lemma_scan_name_ge(s: Seq<char>, end: int, pos: int)
    ensures
        spec_scan_name(s, end, pos) >= pos,
    decreases end - pos,
{
    if !(pos < 0 || pos >= end || !spec_is_name_char(s[pos])) {
        lemma_scan_name_ge(s, end, pos + 1);
    }
}

fn skip_spaces(s: &str, end: usize, pos: usize) -> (r: usize)
    requires
        s.is_ascii(),
        end <= s@.len(),
        pos <= end,
    ensures
        pos <= r <= end,
        r as int == spec_skip_spaces(s@, end as int, pos as int),
{
    let mut p: usize = pos;
    while p < end && is_space(s.get_ascii(p))
        invariant
            s.is_ascii(),
            end <= s@.len(),
            pos <= p <= end,
            spec_skip_spaces(s@, end as int, pos as int) == spec_skip_spaces(
                s@,
                end as int,
                p as int,
            ),
        decreases end - p,
    {
        p = p + 1;
    }
    p
}

/// The end of the name starting at `pos`: letters, digits and underscores.
fn scan_name(s: &str, end: usize, pos: usize) -> (r: usize)
    requires
        s.is_ascii(),
        end <= s@.len(),
        pos <= end,
    ensures
        pos <= r <= end,
        r as int == spec_scan_name(s@, end as int, pos as int),
{
    let mut p: usize = pos;
    while p < end && (is_alpha(s.get_ascii(p)) || is_digit(s.get_ascii(p)) || s.get_ascii(p) == 95)
        invariant
            s.is_ascii(),
            end <= s@.len(),
            pos <= p <= end,
            spec_scan_name(s@, end as int, pos as int) == spec_scan_name(
                s@,
                end as int,
                p as int,
            ),
        decreases end - p,
    {
        p = p + 1;
    }
    p
}

/// Whole-part digit accumulation from `pos`, capped at a million so it
/// cannot grow without bound: the final accumulator and the position
/// after the run.
pub open spec fn spec_scan_int(s: Seq<char>, end: int, pos: int, acc: int) -> (int, int)
    decreases end - pos,
{
    if pos < 0 || pos >= end || !spec_is_digit(s[pos]) {
        (acc, pos)
    } else {
        let d = s[pos] as u32 - 48;
        spec_scan_int(
            s,
            end,
            pos + 1,
            if acc >= 1_000_000 {
                acc
            } else {
                acc * 10 + d
            },
        )
    }
}

/// Fractional digit accumulation: the first four digits land at their
/// decimal weights, the rest are ignored.
pub open spec fn spec_scan_frac(s: Seq<char>, end: int, pos: int, frac: int, scale: int) -> (
    int,
    int,
)
    decreases end - pos,
{
    if pos < 0 || pos >= end || !spec_is_digit(s[pos]) {
        (frac, pos)
    } else {
        let d = s[pos] as u32 - 48;
        if scale == 1_000 {
            spec_scan_frac(s, end, pos + 1, frac + d * 1_000, 100)
        } else if scale == 100 {
            spec_scan_frac(s, end, pos + 1, frac + d * 100, 10)
        } else if scale == 10 {
            spec_scan_frac(s, end, pos + 1, frac + d * 10, 1)
        } else if scale == 1 {
            spec_scan_frac(s, end, pos + 1, frac + d, 0)
        } else {
            spec_scan_frac(s, end, pos + 1, frac, scale)
        }
    }
}

/// What a numeric literal at `pos` denotes: a leading `-`, `m` or `M`
/// negates; the whole and fractional parts accumulate as above; the value
/// clips to the representable range.  Nothing to read (no digit at all)
/// is no literal.
pub open spec fn spec_parse_number(s: Seq<char>, end: int, pos: int) -> Option<(int, int)> {
    let neg = pos < end && (s[pos] == '-' || s[pos] == 'm' || s[pos] == 'M');
    let p0 = if neg {
        pos + 1
    } else {
        pos
    };
    let int_scan = spec_scan_int(s, end, p0, 0);
    let ip = if int_scan.0 > 1_000_000 {
        1_000_000
    } else {
        int_scan.0
    };
    let p1 = int_scan.1;
    let has_frac = p1 < end && end - p1 > 1 && s[p1] == '.' && spec_is_digit(s[p1 + 1]);
    let frac_scan = if has_frac {
        spec_scan_frac(s, end, p1 + 1, 0, 1_000)
    } else {
        (0, p1)
    };
    if !(p1 > p0 || has_frac) {
        None
    } else {
        let v0 = ip * 10_000 + frac_scan.0;
        let v = if v0 > FX_MAX as int {
            FX_MAX as int
        } else {
            v0
        };
        Some(
            (
                if neg {
                    -v
                } else {
                    v
                },
                frac_scan.1,
            ),
        )
    }
}

/// Parse a fixed-point numeric literal; a leading `-`, `m` or `M` negates.
fn parse_number(s: &str, end: usize, pos: usize) -> (r: Result<(i64, usize), GrammarError>)
    requires
        s.is_ascii(),
        end <= s@.len(),
        pos <= end,
    ensures
        (match spec_parse_number(s@, end as int, pos as int) {
            Some(t) => r matches Ok(o) && o.0 as int == t.0 && o.1 as int == t.1,
            None => r == Err::<(i64, usize), GrammarError>(GrammarError::Syntax(0)),
        }),
        r matches Ok(t) ==> pos < t.1 <= end && -FX_MAX <= t.0 <= FX_MAX,
{
    let mut p: usize = pos;
    let mut neg: bool = false;
    if p < end {
        let b: u8 = s.get_ascii(p);
        if b == 45 || b == 109 || b == 77 {
            neg = true;
            p = p + 1;
        }
    }
    let ghost p0: int = p as int;
    let mut acc: i64 = 0;
    let mut saw: bool = false;
    while p < end && is_digit(s.get_ascii(p))
        invariant
            s.is_ascii(),
            end <= s@.len(),
            p0 <= p as int,
            p <= end,
            0 <= acc <= 9_999_999,
            saw <==> p as int > p0,
            spec_scan_int(s@, end as int, p0, 0) == spec_scan_int(
                s@,
                end as int,
                p as int,
                acc as int,
            ),
        decreases end - p,
    {
        let d: i64 = (s.get_ascii(p) - 48) as i64;
        acc = if acc >= 1_000_000 {
            acc
        } else {
            acc * 10 + d
        };
        saw = true;
        p = p + 1;
    }
    proof {
        assert(spec_scan_int(s@, end as int, p as int, acc as int) == (acc as int, p as int));
    }
    let ip: i64 = if acc > 1_000_000 {
        1_000_000
    } else {
        acc
    };
    let mut frac: i64 = 0;
    let mut has_frac: bool = false;
    if p < end && end - p > 1 && s.get_ascii(p) == 46 && is_digit(s.get_ascii(p + 1)) {
        has_frac = true;
        p = p + 1;
        let ghost f0: int = p as int;
        let mut scale: i64 = 1_000;
        while p < end && is_digit(s.get_ascii(p))
            invariant
                s.is_ascii(),
                end <= s@.len(),
                f0 <= p as int,
                p <= end,
                0 <= scale <= 1_000,
                0 <= frac,
                frac + 10 * scale <= 10_000,
                spec_scan_frac(s@, end as int, f0, 0, 1_000) == spec_scan_frac(
                    s@,
                    end as int,
                    p as int,
                    frac as int,
                    scale as int,
                ),
            decreases end - p,
        {
            let d: i64 = (s.get_ascii(p) - 48) as i64;
            if scale == 1_000 {
                frac = frac + d * 1_000;
                scale = 100;
            } else if scale == 100 {
                frac = frac + d * 100;
                scale = 10;
            } else if scale == 10 {
                frac = frac + d * 10;
                scale = 1;
            } else if scale == 1 {
                frac = frac + d;
                scale = 0;
            }
            p = p + 1;
        }
        proof {
            assert(spec_scan_frac(s@, end as int, p as int, frac as int, scale as int) == (
                frac as int,
                p as int,
            ));
        }
    }
    if !(saw || has_frac) {
        return Err(GrammarError::Syntax(0));
    }
    let mut v: i64 = ip * 10_000 + frac;
    if v > FX_MAX {
        v = FX_MAX;
    }
    if neg {
        Ok((-v, p))
    } else {
        Ok((v, p))
    }
}

/// Which binary operator a token at `pos` denotes: a run of letters
/// compared by name ignoring case, else a two-character symbol, else a
/// one-character symbol.
pub open spec fn spec_scan_binop(s: Seq<char>, end: int, pos: int) -> Option<(
    BinaryOperator,
    int,
)> {
    if pos < 0 || pos >= end {
        None
    } else if spec_is_alpha(s[pos]) {
        let w = spec_scan_name(s, end, pos);
        let t = spec_lower(s.subrange(pos, w));
        if t == spec_lower("add"@) {
            Some((BinaryOperator::Add, w))
        } else if t == spec_lower("sub"@) {
            Some((BinaryOperator::Sub, w))
        } else if t == spec_lower("mul"@) {
            Some((BinaryOperator::Mul, w))
        } else if t == spec_lower("div"@) {
            Some((BinaryOperator::Div, w))
        } else if t == spec_lower("and"@) {
            Some((BinaryOperator::And, w))
        } else if t == spec_lower("or"@) {
            Some((BinaryOperator::Or, w))
        } else if t == spec_lower("eq"@) {
            Some((BinaryOperator::Eq, w))
        } else if t == spec_lower("neq"@) {
            Some((BinaryOperator::Neq, w))
        } else if t == spec_lower("lt"@) {
            Some((BinaryOperator::Lt, w))
        } else if t == spec_lower("gt"@) {
            Some((BinaryOperator::Gt, w))
        } else if t == spec_lower("leq"@) {
            Some((BinaryOperator::LEq, w))
        } else if t == spec_lower("geq"@) {
            Some((BinaryOperator::GEq, w))
        } else {
            None
        }
    } else if end - pos > 1 && s[pos] == '&' && s[pos + 1] == '&' {
        Some((BinaryOperator::And, pos + 2))
    } else if end - pos > 1 && s[pos] == '|' && s[pos + 1] == '|' {
        Some((BinaryOperator::Or, pos + 2))
    } else if end - pos > 1 && s[pos] == '=' && s[pos + 1] == '=' {
        Some((BinaryOperator::Eq, pos + 2))
    } else if end - pos > 1 && s[pos] == '!' && s[pos + 1] == '=' {
        Some((BinaryOperator::Neq, pos + 2))
    } else if end - pos > 1 && s[pos] == '<' && s[pos + 1] == '=' {
        Some((BinaryOperator::LEq, pos + 2))
    } else if end - pos > 1 && s[pos] == '>' && s[pos + 1] == '=' {
        Some((BinaryOperator::GEq, pos + 2))
    } else if s[pos] == '+' {
        Some((BinaryOperator::Add, pos + 1))
    } else if s[pos] == '-' {
        Some((BinaryOperator::Sub, pos + 1))
    } else if s[pos] == '*' {
        Some((BinaryOperator::Mul, pos + 1))
    } else if s[pos] == '/' {
        Some((BinaryOperator::Div, pos + 1))
    } else if s[pos] == '<' {
        Some((BinaryOperator::Lt, pos + 1))
    } else if s[pos] == '>' {
        Some((BinaryOperator::Gt, pos + 1))
    } else if s[pos] == '=' {
        Some((BinaryOperator::Eq, pos + 1))
    } else {
        None
    }
}

/// Digit accumulation never goes negative.
proof fn lemma_scan_int_nonneg(s: Seq<char>, end: int, pos: int, acc: int)
    requires
        acc >= 0,
    ensures
        spec_scan_int(s, end, pos, acc).0 >= 0,
    decreases end - pos,
{
    if !(pos < 0 || pos >= end || !spec_is_digit(s[pos])) {
        let d = s[pos] as u32 - 48;
        lemma_scan_int_nonneg(
            s,
            end,
            pos + 1,
            if acc >= 1_000_000 {
                acc
            } else {
                acc * 10 + d
            },
        );
    }
}

/// Fractional accumulation never goes negative.
proof fn lemma_scan_frac_nonneg(s: Seq<char>, end: int, pos: int, frac: int, scale: int)
    requires
        frac >= 0,
    ensures
        spec_scan_frac(s, end, pos, frac, scale).0 >= 0,
    decreases end - pos,
{
    if !(pos < 0 || pos >= end || !spec_is_digit(s[pos])) {
        let d = s[pos] as u32 - 48;
        if scale == 1_000 {
            lemma_scan_frac_nonneg(s, end, pos + 1, frac + d * 1_000, 100);
        } else if scale == 100 {
            lemma_scan_frac_nonneg(s, end, pos + 1, frac + d * 100, 10);
        } else if scale == 10 {
            lemma_scan_frac_nonneg(s, end, pos + 1, frac + d * 10, 1);
        } else if scale == 1 {
            lemma_scan_frac_nonneg(s, end, pos + 1, frac + d, 0);
        } else {
            lemma_scan_frac_nonneg(s, end, pos + 1, frac, scale);
        }
    }
}

/// A read literal lies in the representable range.
pub proof fn lemma_parse_number_bounds(s: Seq<char>, end: int, pos: int)
    ensures
        spec_parse_number(s, end, pos) matches Some(t) ==> -FX_MAX <= t.0 <= FX_MAX,
{
    let neg = pos < end && (s[pos] == '-' || s[pos] == 'm' || s[pos] == 'M');
    let p0 = if neg {
        pos + 1
    } else {
        pos
    };
    lemma_scan_int_nonneg(s, end, p0, 0);
    let p1 = spec_scan_int(s, end, p0, 0).1;
    lemma_scan_frac_nonneg(s, end, p1 + 1, 0, 1_000);
}

/// Recognize a binary operator token, symbolic or named.
fn scan_binop(s: &str, end: usize, pos: usize) -> (r: Result<(BinaryOperator, usize), GrammarError>)
    requires
        s.is_ascii(),
        end <= s@.len(),
        pos <= end,
    ensures
        (match spec_scan_binop(s@, end as int, pos as int) {
            Some(t) => r matches Ok(o) && o.0 == t.0 && o.1 as int == t.1,
            None => r == Err::<(BinaryOperator, usize), GrammarError>(GrammarError::Syntax(0)),
        }),
        r matches Ok(t) ==> pos < t.1 <= end,
{
    if pos >= end {
        return Err(GrammarError::Syntax(0));
    }
    let b: u8 = s.get_ascii(pos);
    if is_alpha(b) {
        let w: usize = scan_name(s, end, pos);
        let tok: &str = s.substring_ascii(pos, w);
        let op: Option<BinaryOperator> = if eq_ignore_case(tok, "add") {
            Some(BinaryOperator::Add)
        } else if eq_ignore_case(tok, "sub") {
            Some(BinaryOperator::Sub)
        } else if eq_ignore_case(tok, "mul") {
            Some(BinaryOperator::Mul)
        } else if eq_ignore_case(tok, "div") {
            Some(BinaryOperator::Div)
        } else if eq_ignore_case(tok, "and") {
            Some(BinaryOperator::And)
        } else if eq_ignore_case(tok, "or") {
            Some(BinaryOperator::Or)
        } else if eq_ignore_case(tok, "eq") {
            Some(BinaryOperator::Eq)
        } else if eq_ignore_case(tok, "neq") {
            Some(BinaryOperator::Neq)
        } else if eq_ignore_case(tok, "lt") {
            Some(BinaryOperator::Lt)
        } else if eq_ignore_case(tok, "gt") {
            Some(BinaryOperator::Gt)
        } else if eq_ignore_case(tok, "leq") {
            Some(BinaryOperator::LEq)
        } else if eq_ignore_case(tok, "geq") {
            Some(BinaryOperator::GEq)
        } else {
            None
        };
        proof {
            assert(s@[pos as int] <= '\u{7f}');
            assert(s@[pos as int] as u8 == b);
            assert(spec_is_alpha(s@[pos as int]));
            assert(spec_is_name_char(s@[pos as int]));
            lemma_scan_name_ge(s@, end as int, pos as int + 1);
            assert(spec_scan_name(s@, end as int, pos as int) == spec_scan_name(
                s@,
                end as int,
                pos as int + 1,
            ));
        }
        return match op {
            Some(o) => Ok((o, w)),
            None => Err(GrammarError::Syntax(0)),
        };
    }
    if end - pos > 1 {
        let b2: u8 = s.get_ascii(pos + 1);
        if b == 38 && b2 == 38 {
            return Ok((BinaryOperator::And, pos + 2));
        }
        if b == 124 && b2 == 124 {
            return Ok((BinaryOperator::Or, pos + 2));
        }
        if b == 61 && b2 == 61 {
            return Ok((BinaryOperator::Eq, pos + 2));
        }
        if b == 33 && b2 == 61 {
            return Ok((BinaryOperator::Neq, pos + 2));
        }
        if b == 60 && b2 == 61 {
            return Ok((BinaryOperator::LEq, pos + 2));
        }
        if b == 62 && b2 == 61 {
            return Ok((BinaryOperator::GEq, pos + 2));
        }
    }
    if b == 43 {
        Ok((BinaryOperator::Add, pos + 1))
    } else if b == 45 {
        Ok((BinaryOperator::Sub, pos + 1))
    } else if b == 42 {
        Ok((BinaryOperator::Mul, pos + 1))
    } else if b == 47 {
        Ok((BinaryOperator::Div, pos + 1))
    } else if b == 60 {
        Ok((BinaryOperator::Lt, pos + 1))
    } else if b == 62 {
        Ok((BinaryOperator::Gt, pos + 1))
    } else if b == 61 {
        Ok((BinaryOperator::Eq, pos + 1))
    } else {
        Err(GrammarError::Syntax(0))
    }
}

/// Parse one expression: a number, a `?name` reference, a unary prefix, or
/// a parenthesized binary form.  Constant folding is applied on the way
/// out.
fn parse_simple(s: &str, end: usize, pos: usize) -> (r: Result<(Expression, usize), GrammarError>)
    requires
        s.is_ascii(),
        end <= s@.len(),
        pos <= end,
    ensures
        r matches Ok(t) ==> pos < t.1 <= end && t.0.wf() && t.0.is_folded(),
        (pos < end && spec_is_digit(s@[pos as int])) ==> (match spec_parse_number(
            s@,
            end as int,
            pos as int,
        ) {
            Some(t) => r matches Ok(o) && o.0 == (Expression::Number { val: t.0 as i64 })
                && o.1 as int == t.1 && -FX_MAX <= t.0 <= FX_MAX,
            None => r is Err,
        }),
    decreases end - pos,
{
    if pos >= end {
        return Err(GrammarError::Syntax(0));
    }
    let b: u8 = s.get_ascii(pos);
    proof {
        if spec_is_digit(s@[pos as int]) {
            assert(s@[pos as int] <= '\u{7f}');
            assert(s@[pos as int] as u8 == b);
        }
    }
    let number_start: bool = is_digit(b) || (b == 46 && end - pos > 1 && is_digit(
        s.get_ascii(pos + 1),
    )) || ((b == 45 || b == 109 || b == 77) && end - pos > 1 && (is_digit(s.get_ascii(pos + 1))
        || s.get_ascii(pos + 1) == 46));
    if number_start {
        let (v, p): (i64, usize) = match parse_number(s, end, pos) {
            Ok(t) => t,
            Err(e) => {
                return Err(e);
            },
        };
        return Ok((Expression::Number { val: v }, p));
    }
    if b == 63 {
        let w: usize = scan_name(s, end, pos + 1);
        if w == pos + 1 {
            return Err(GrammarError::Syntax(0));
        }
        let tok: &str = s.substring_ascii(pos + 1, w);
        let e: Expression = match PropertyKey::from_str(tok) {
            Some(k) => Expression::PropertyAccess { property: k },
            None => Expression::Variable { name: tok.to_owned() },
        };
        return Ok((e, w));
    }
    if b == 40 {
        let (l, p1): (Expression, usize) = match parse_simple(s, end, pos + 1) {
            Ok(t) => t,
            Err(e) => {
                return Err(e);
            },
        };
        let p1b: usize = skip_spaces(s, end, p1);
        let (op, p2): (BinaryOperator, usize) = match scan_binop(s, end, p1b) {
            Ok(t) => t,
            Err(e) => {
                return Err(e);
            },
        };
        let p2b: usize = skip_spaces(s, end, p2);
        let (rr, p3): (Expression, usize) = match parse_simple(s, end, p2b) {
            Ok(t) => t,
            Err(e) => {
                return Err(e);
            },
        };
        let p3b: usize = skip_spaces(s, end, p3);
        if p3b < end && s.get_ascii(p3b) == 41 {
            let e: Expression = Expression::Binary {
                left: Box::new(l),
                operator: op,
                right: Box::new(rr),
            };
            return Ok((e.fold(), p3b + 1));
        }
        return Err(GrammarError::Syntax(0));
    }
    if is_alpha(b) {
        if end - pos >= 3 {
            let tok: &str = s.substring_ascii(pos, pos + 3);
            let op: Option<UnaryOperator> = if eq_ignore_case(tok, "sub") {
                Some(UnaryOperator::Sub)
            } else if eq_ignore_case(tok, "abs") {
                Some(UnaryOperator::Abs)
            } else if eq_ignore_case(tok, "sig") {
                Some(UnaryOperator::Sig)
            } else {
                None
            };
            match op {
                Some(operator) => {
                    let (operand, p): (Expression, usize) = match parse_simple(s, end, pos + 3) {
                        Ok(t) => t,
                        Err(e) => {
                            return Err(e);
                        },
                    };
                    let e: Expression = Expression::Unary {
                        operator,
                        operand: Box::new(operand),
                    };
                    return Ok((e.fold(), p));
                },
                None => {
                    return Err(GrammarError::Syntax(0));
                },
            }
        }
        return Err(GrammarError::Syntax(0));
    }
    Err(GrammarError::Syntax(0))
}

/// Parse one assignment value: an expression, or a `lo..hi` range, with
/// `...` marking the random-collapse form.
fn parse_value(s: &str, end: usize, pos: usize) -> (r: Result<
    (ExpressionOrRange, usize),
    GrammarError,
>)
    requires
        s.is_ascii(),
        end <= s@.len(),
        pos <= end,
    ensures
        r matches Ok(t) ==> pos < t.1 <= end && t.0.wf() && (match t.0 {
            ExpressionOrRange::Exp(e) => e.is_folded(),
            ExpressionOrRange::Range { is_random, first, second } => first.is_folded()
                && second.is_folded(),
        }),
        (pos < end && spec_is_digit(s@[pos as int]) && (match spec_parse_number(
            s@,
            end as int,
            pos as int,
        ) {
            Some(t) => t.1 >= end as int || s@[t.1] != '.',
            None => false,
        })) ==> (match spec_parse_number(s@, end as int, pos as int) {
            Some(t) => r matches Ok(o) && o.0 == (ExpressionOrRange::Exp(
                Expression::Number { val: t.0 as i64 },
            )) && o.1 as int == t.1 && -FX_MAX <= t.0 <= FX_MAX,
            None => true,
        }),
{
    let ghost plain_number: bool = pos < end && spec_is_digit(s@[pos as int]) && (
    match spec_parse_number(s@, end as int, pos as int) {
        Some(t) => t.1 >= end as int || s@[t.1] != '.',
        None => false,
    });
    let (first, p): (Expression, usize) = match parse_simple(s, end, pos) {
        Ok(t) => t,
        Err(e) => {
            return Err(e);
        },
    };
    proof {
        if plain_number && (p as int) < end as int {
            assert(s@[p as int] <= '\u{7f}');
        }
    }
    if p < end && end - p > 1 && s.get_ascii(p) == 46 && s.get_ascii(p + 1) == 46 {
        let is_random: bool = end - p > 2 && s.get_ascii(p + 2) == 46;
        let after: usize = if is_random {
            p + 3
        } else {
            p + 2
        };
        let (second, p2): (Expression, usize) = match parse_simple(s, end, after) {
            Ok(t) => t,
            Err(e) => {
                return Err(e);
            },
        };
        Ok((ExpressionOrRange::Range { is_random, first, second }, p2))
    } else {
        Ok((ExpressionOrRange::Exp(first), p))
    }
}

/// The segment holds a name followed by exactly one `key value` pair,
/// the key one of the twelve and the value one plain numeric literal.
pub open spec fn spec_one_number_property(s: Seq<char>, end: int, pos: int) -> bool {
    let w = spec_scan_name(s, end, pos);
    let q = spec_skip_spaces(s, end, w);
    let vpos = spec_skip_spaces(s, end, q + 1);
    &&& spec_is_alpha(s[pos])
    &&& q < end
    &&& spec_is_alpha(s[q])
    &&& PropertyKey::spec_key_of(s.subrange(q, q + 1)) is Some
    &&& vpos < end
    &&& spec_is_digit(s[vpos])
    &&& (match spec_parse_number(s, end, vpos) {
        Some(t) => (t.1 >= end || s[t.1] != '.') && spec_skip_spaces(s, end, t.1) == end,
        None => false,
    })
}

/// The one property such a segment carries.
pub open spec fn spec_one_number_property_value(s: Seq<char>, end: int, pos: int) -> TempProperty {
    let w = spec_scan_name(s, end, pos);
    let q = spec_skip_spaces(s, end, w);
    let vpos = spec_skip_spaces(s, end, q + 1);
    TempProperty {
        key: PropertyKey::spec_key_of(s.subrange(q, q + 1))->0,
        value: ExpressionOrRange::Exp(
            Expression::Number { val: (spec_parse_number(s, end, vpos)->0).0 as i64 },
        ),
    }
}

/// Parse one invocation line: a name, then `key value` pairs to the end of
/// the segment.
fn parse_invocation_segment(s: &str, end: usize, pos: usize) -> (r: Result<
    Invocation,
    GrammarError,
>)
    requires
        s.is_ascii(),
        end <= s@.len(),
        pos < end,
    ensures
        ({
            let w = spec_scan_name(s@, end as int, pos as int);
            let word = s@.subrange(pos as int, w);
            (spec_is_alpha(s@[pos as int]) && spec_skip_spaces(s@, end as int, w) == end as int)
                ==> (r matches Ok(inv) && inv.properties@.len() == 0 && (
            match Primitive::spec_primitive_of(word) {
                Some(prim) => inv.method == Method::Primitive(prim),
                None => inv.method matches Method::Rule(nm) && nm@ == word,
            }))
        }),
        ({
            let w = spec_scan_name(s@, end as int, pos as int);
            let q = spec_skip_spaces(s@, end as int, w);
            (spec_is_alpha(s@[pos as int]) && q < end as int && spec_is_alpha(s@[q])
                && PropertyKey::spec_key_of(s@.subrange(q, q + 1)) is None) ==> (
            r matches Err(er) && er matches GrammarError::UnknownProperty(k) && k@ == s@.subrange(
                q,
                q + 1,
            ))
        }),
        spec_one_number_property(s@, end as int, pos as int) ==> (({
            let w = spec_scan_name(s@, end as int, pos as int);
            let word = s@.subrange(pos as int, w);
            r matches Ok(inv) && inv.properties@.len() == 1 && inv.properties@[0]
                == spec_one_number_property_value(s@, end as int, pos as int) && (
            match Primitive::spec_primitive_of(word) {
                Some(prim) => inv.method == Method::Primitive(prim),
                None => inv.method matches Method::Rule(nm) && nm@ == word,
            })
        })),
{
    let b0: u8 = s.get_ascii(pos);
    proof {
        if spec_is_alpha(s@[pos as int]) {
            assert(s@[pos as int] <= '\u{7f}');
            assert(s@[pos as int] as u8 == b0);
        }
    }
    if !is_alpha(b0) {
        return Err(GrammarError::Syntax(0));
    }
    let w: usize = scan_name(s, end, pos);
    let name_txt: &str = s.substring_ascii(pos, w);
    let method: Method = match Primitive::from_str(name_txt) {
        Some(p) => Method::Primitive(p),
        None => Method::Rule(name_txt.to_owned()),
    };
    let ghost bare: bool = spec_skip_spaces(s@, end as int, w as int) == end as int;
    let ghost badkey: bool = ({
        let q = spec_skip_spaces(s@, end as int, w as int);
        q < end as int && spec_is_alpha(s@[q]) && PropertyKey::spec_key_of(
            s@.subrange(q, q + 1),
        ) is None
    });
    let ghost shape: bool = spec_one_number_property(s@, end as int, pos as int);
    let mut properties: Vec<TempProperty> = Vec::new();
    let mut p: usize = skip_spaces(s, end, w);
    while p < end
        invariant
            s.is_ascii(),
            end <= s@.len(),
            p <= end,
            bare == (spec_skip_spaces(
                s@,
                end as int,
                spec_scan_name(s@, end as int, pos as int),
            ) == end as int),
            badkey == ({
                let q = spec_skip_spaces(
                    s@,
                    end as int,
                    spec_scan_name(s@, end as int, pos as int),
                );
                q < end as int && spec_is_alpha(s@[q]) && PropertyKey::spec_key_of(
                    s@.subrange(q, q + 1),
                ) is None
            }),
            bare ==> p >= end,
            bare ==> properties@.len() == 0,
            properties@.len() == 0 ==> p as int == spec_skip_spaces(
                s@,
                end as int,
                spec_scan_name(s@, end as int, pos as int),
            ),
            badkey ==> properties@.len() == 0,
            shape == spec_one_number_property(s@, end as int, pos as int),
            shape ==> ((properties@.len() == 0 && p as int == spec_skip_spaces(
                s@,
                end as int,
                spec_scan_name(s@, end as int, pos as int),
            )) || (properties@.len() == 1 && properties@[0]
                == spec_one_number_property_value(s@, end as int, pos as int) && p >= end)),
        decreases end - p,
    {
        proof {
            assert(!bare);
        }
        let b2: u8 = s.get_ascii(p);
        proof {
            if badkey || shape {
                assert(properties@.len() == 0);
                assert(s@[p as int] <= '\u{7f}');
                assert(s@[p as int] as u8 == b2);
            }
        }
        if !is_alpha(b2) {
            return Err(GrammarError::Syntax(0));
        }
        let key_txt: &str = s.substring_ascii(p, p + 1);
        let key: PropertyKey = match PropertyKey::from_str(key_txt) {
            Some(k) => k,
            None => {
                return Err(GrammarError::UnknownProperty(key_txt.to_owned()));
            },
        };
        let p2: usize = skip_spaces(s, end, p + 1);
        let (value, p3): (ExpressionOrRange, usize) = match parse_value(s, end, p2) {
            Ok(t) => t,
            Err(e) => {
                return Err(e);
            },
        };
        properties.push(TempProperty { key, value });
        p = skip_spaces(s, end, p3);
    }
    Ok(Invocation { method, properties })
}

/// Close the rule case under construction, if any: append it to its rule,
/// refusing a case declared after an already unconditional one.
fn close_pending(
    rules: &mut Vec<UserRule>,
    name: Option<String>,
    probability: Option<Expression>,
    invocations: Vec<Invocation>,
) -> (r: Result<(), GrammarError>)
    ensures
        name is None ==> r is Ok && final(rules)@ == old(rules)@,
        (match name {
            Some(nm) => crate::grammar::spec_rule_index(old(rules)@, nm@) is None ==> (
            r is Ok && final(rules)@.len() == old(rules)@.len() + 1 && final(rules)@.subrange(
                0,
                old(rules)@.len() as int,
            ) == old(rules)@ && final(rules)@.last().name == nm
                && final(rules)@.last().cases@.len() == 1
                && final(rules)@.last().cases@[0].probability
                == probability && final(rules)@.last().cases@[0].invocations@ == invocations@),
            None => true,
        }),
        (match name {
            Some(nm) => (match crate::grammar::spec_rule_index(old(rules)@, nm@) {
                Some(ri) => (exists|k: int|
                    0 <= k < old(rules)@[ri].cases@.len()
                        && (#[trigger] old(rules)@[ri].cases@[k]).probability is None) ==> r
                    == Err::<(), GrammarError>(
                    GrammarError::UnreachableCase(nm),
                ),
                None => true,
            }),
            None => true,
        }),
{
    match name {
        None => Ok(()),
        Some(nm) => {
            let case = RuleCase { probability, invocations };
            match rule_index(rules, nm.as_str()) {
                None => {
                    rules.push(UserRule { name: nm, cases: vec![case] });
                    proof {
                        assert(rules@.subrange(0, old(rules)@.len() as int) =~= old(rules)@);
                        assert(rules@.last().cases@ =~= seq![
                            RuleCase { probability, invocations },
                        ]);
                    }
                    Ok(())
                },
                Some(ri) => {
                    proof {
                        crate::grammar::lemma_rule_index_in_range(rules@, nm@);
                    }
                    let mut rule: UserRule = rules.remove(ri);
                    let ghost rule0: UserRule = rule;
                    let mut has_unconditional: bool = false;
                    let mut j: usize = 0;
                    while j < rule.cases.len()
                        invariant
                            j <= rule.cases@.len(),
                            rule == rule0,
                            has_unconditional <==> (exists|k: int|
                                0 <= k < j && (#[trigger] rule.cases@[k]).probability is None),
                        decreases rule.cases@.len() - j,
                    {
                        match &rule.cases[j].probability {
                            None => {
                                has_unconditional = true;
                            },
                            Some(_) => {},
                        }
                        j = j + 1;
                    }
                    if has_unconditional {
                        Err(GrammarError::UnreachableCase(nm))
                    } else {
                        rule.cases.push(case);
                        rules.insert(ri, rule);
                        Ok(())
                    }
                },
            }
        },
    }
}

/// A syntax failure gets the line it was found on; every other failure
/// passes through unchanged.
fn line_err(e: GrammarError, line: usize) -> (r: GrammarError)
    ensures
        e matches GrammarError::Syntax(_) ==> r == GrammarError::Syntax(line),
        !(e matches GrammarError::Syntax(_)) ==> r == e,
{
    match e {
        GrammarError::Syntax(_) => GrammarError::Syntax(line),
        other => other,
    }
}

/// Parse and validate one grammar document.  A returned grammar carries
/// the whole validation invariant, so expanding it cannot fail.
/// Every character is a blank or a line break: such a document holds no
/// statement.
pub open spec fn spec_all_blank(s: Seq<char>) -> bool {
    forall|i: int| 0 <= i < s.len() ==> spec_is_space(#[trigger] s[i]) || s[i] == '\n'
}

/// One line holding one bare word (no keyword): a single invocation of a
/// primitive or rule name with no properties.
pub open spec fn spec_single_word(s: Seq<char>) -> bool {
    let n = s.len() as int;
    let p0 = spec_skip_spaces(s, n, 0);
    let w = spec_scan_name(s, n, p0);
    &&& (forall|k: int| 0 <= k < n ==> (#[trigger] s[k]) != '\n')
    &&& p0 < n
    &&& spec_is_alpha(s[p0])
    &&& spec_skip_spaces(s, n, w) == n
    &&& spec_lower(s.subrange(p0, w)) != spec_lower("let"@)
    &&& spec_lower(s.subrange(p0, w)) != spec_lower("rul"@)
    &&& spec_lower(s.subrange(p0, w)) != spec_lower("end"@)
}

/// One line holding one bare word followed by a property key that is not
/// one of the twelve.
pub open spec fn spec_single_bad_key(s: Seq<char>) -> bool {
    let n = s.len() as int;
    let p0 = spec_skip_spaces(s, n, 0);
    let w = spec_scan_name(s, n, p0);
    let q = spec_skip_spaces(s, n, w);
    &&& (forall|k: int| 0 <= k < n ==> (#[trigger] s[k]) != '\n')
    &&& p0 < n
    &&& spec_is_alpha(s[p0])
    &&& spec_lower(s.subrange(p0, w)) != spec_lower("let"@)
    &&& spec_lower(s.subrange(p0, w)) != spec_lower("rul"@)
    &&& spec_lower(s.subrange(p0, w)) != spec_lower("end"@)
    &&& q < n
    &&& spec_is_alpha(s[q])
    &&& PropertyKey::spec_key_of(s.subrange(q, q + 1)) is None
}

/// The positions `[start, end)` hold one constant definition:
/// `let NAME value` and nothing else.
pub open spec fn spec_let_line(s: Seq<char>, start: int, end: int) -> bool {
    let p0 = spec_skip_spaces(s, end, start);
    let w = spec_scan_name(s, end, p0);
    let p2 = spec_skip_spaces(s, end, w);
    let p3 = spec_skip_spaces(s, end, spec_scan_name(s, end, p2));
    &&& p0 < end
    &&& spec_is_alpha(s[p0])
    &&& spec_lower(s.subrange(p0, w)) == spec_lower("let"@)
    &&& p2 < end
    &&& spec_is_alpha(s[p2])
    &&& (match spec_parse_number(s, end, p3) {
        Some(t) => spec_skip_spaces(s, end, t.1) == end,
        None => false,
    })
}

/// The name such a definition writes, as spelled.
pub open spec fn spec_let_name(s: Seq<char>, start: int, end: int) -> Seq<char> {
    let p2 = spec_skip_spaces(s, end, spec_scan_name(s, end, spec_skip_spaces(s, end, start)));
    s.subrange(p2, spec_scan_name(s, end, p2))
}

/// The value such a definition assigns.
pub open spec fn spec_let_value(s: Seq<char>, start: int, end: int) -> int {
    let p2 = spec_skip_spaces(s, end, spec_scan_name(s, end, spec_skip_spaces(s, end, start)));
    let p3 = spec_skip_spaces(s, end, spec_scan_name(s, end, p2));
    (spec_parse_number(s, end, p3)->0).0
}

/// The first line break at or after `i`, or the text's end.
pub open spec fn spec_find_nl(s: Seq<char>, i: int) -> int
    decreases s.len() - i,
{
    if i < 0 || i >= s.len() || s[i] == '\n' {
        i
    } else {
        spec_find_nl(s, i + 1)
    }
}

/// The found position is the first line break, if any.
proof fn lemma_find_nl(s: Seq<char>, i: int)
    requires
        0 <= i <= s.len(),
    ensures
        i <= spec_find_nl(s, i) <= s.len(),
        spec_find_nl(s, i) < s.len() ==> s[spec_find_nl(s, i)] == '\n',
        forall|k: int| i <= k < spec_find_nl(s, i) ==> (#[trigger] s[k]) != '\n',
    decreases s.len() - i,
{
    if !(i < 0 || i >= s.len() || s[i] == '\n') {
        lemma_find_nl(s, i + 1);
    }
}

/// One line defining one constant: `let NAME value` and nothing else.
pub open spec fn spec_single_let(s: Seq<char>) -> bool {
    &&& (forall|k: int| 0 <= k < s.len() ==> (#[trigger] s[k]) != '\n')
    &&& spec_let_line(s, 0, s.len() as int)
}

/// Two lines, each defining one constant, the two names equal up to ASCII
/// case.
pub open spec fn spec_double_let(s: Seq<char>) -> bool {
    let n = s.len() as int;
    let m = spec_find_nl(s, 0);
    &&& m < n
    &&& (forall|k: int| m < k < n ==> (#[trigger] s[k]) != '\n')
    &&& spec_let_line(s, 0, m)
    &&& spec_let_line(s, m + 1, n)
    &&& spec_lower(spec_let_name(s, 0, m)) == spec_lower(spec_let_name(s, m + 1, n))
}

/// What a single-`let` document yields: the empty grammar but for the one
/// constant, its spelling taken from the document and its value read by
/// the literal rules (a leading `m`, `M` or `-` negates).
pub open spec fn spec_single_let_outcome(s: Seq<char>, r: Result<Grammar, GrammarError>) -> bool {
    let n = s.len() as int;
    r matches Ok(g) && g.top_level@.len() == 0 && g.rules@.len() == 0 && g.defs@.len() == 1
        && g.defs@[0].0@ == spec_let_name(s, 0, n) && g.defs@[0].1 as int == spec_let_value(
        s,
        0,
        n,
    )
}

/// One line holding one invocation with exactly one numeric property:
/// `name key value` and nothing else.
pub open spec fn spec_single_invocation(s: Seq<char>) -> bool {
    let n = s.len() as int;
    let p0 = spec_skip_spaces(s, n, 0);
    let w = spec_scan_name(s, n, p0);
    &&& (forall|k: int| 0 <= k < n ==> (#[trigger] s[k]) != '\n')
    &&& p0 < n
    &&& spec_lower(s.subrange(p0, w)) != spec_lower("let"@)
    &&& spec_lower(s.subrange(p0, w)) != spec_lower("rul"@)
    &&& spec_lower(s.subrange(p0, w)) != spec_lower("end"@)
    &&& spec_one_number_property(s, n, p0)
}

/// What such a document yields: a known primitive becomes the one
/// top-level invocation carrying the one property; any other word is an
/// unknown rule, reported by name.
pub open spec fn spec_single_invocation_outcome(
    s: Seq<char>,
    r: Result<Grammar, GrammarError>,
) -> bool {
    let n = s.len() as int;
    let p0 = spec_skip_spaces(s, n, 0);
    let w = spec_scan_name(s, n, p0);
    let word = s.subrange(p0, w);
    match Primitive::spec_primitive_of(word) {
        Some(prim) => r matches Ok(g) && g.defs@.len() == 0 && g.rules@.len() == 0
            && g.top_level@.len() == 1 && g.top_level@[0].method == Method::Primitive(prim)
            && g.top_level@[0].properties@.len() == 1 && g.top_level@[0].properties@[0]
            == spec_one_number_property_value(s, n, p0),
        None => r matches Err(er) && er matches GrammarError::UnknownRule(nm) && nm@ == word,
    }
}

/// The positions `[start, end)` open one ungated rule case:
/// `rul NAME` and nothing else.
pub open spec fn spec_rul_line(s: Seq<char>, start: int, end: int) -> bool {
    let p0 = spec_skip_spaces(s, end, start);
    let w = spec_scan_name(s, end, p0);
    let p2 = spec_skip_spaces(s, end, w);
    &&& p0 < end
    &&& spec_is_alpha(s[p0])
    &&& spec_lower(s.subrange(p0, w)) == spec_lower("rul"@)
    &&& p2 < end
    &&& spec_is_alpha(s[p2])
    &&& spec_skip_spaces(s, end, spec_scan_name(s, end, p2)) == end
}

/// The rule name such a line opens, as spelled.
pub open spec fn spec_rul_name(s: Seq<char>, start: int, end: int) -> Seq<char> {
    let p2 = spec_skip_spaces(s, end, spec_scan_name(s, end, spec_skip_spaces(s, end, start)));
    s.subrange(p2, spec_scan_name(s, end, p2))
}

/// Two lines, each opening an ungated case of the same rule (names equal
/// up to ASCII case): the second case can never be reached.
pub open spec fn spec_double_rul(s: Seq<char>) -> bool {
    let n = s.len() as int;
    let m = spec_find_nl(s, 0);
    &&& m < n
    &&& (forall|k: int| m < k < n ==> (#[trigger] s[k]) != '\n')
    &&& spec_rul_line(s, 0, m)
    &&& spec_rul_line(s, m + 1, n)
    &&& spec_lower(spec_rul_name(s, 0, m)) == spec_lower(spec_rul_name(s, m + 1, n))
}

/// What a bare-word document yields: a known primitive becomes the one
/// top-level invocation of an otherwise empty grammar; any other word is
/// an unknown rule, reported by name.
pub open spec fn spec_single_word_outcome(s: Seq<char>, r: Result<Grammar, GrammarError>) -> bool {
    let n = s.len() as int;
    let p0 = spec_skip_spaces(s, n, 0);
    let w = spec_scan_name(s, n, p0);
    let word = s.subrange(p0, w);
    match Primitive::spec_primitive_of(word) {
        Some(prim) => r matches Ok(g) && g.defs@.len() == 0 && g.rules@.len() == 0
            && g.top_level@.len() == 1 && g.top_level@[0].method == Method::Primitive(prim)
            && g.top_level@[0].properties@.len() == 0,
        None => r matches Err(er) && er matches GrammarError::UnknownRule(nm) && nm@ == word,
    }
}

/// Parse and validate one grammar document.  A returned grammar carries
/// the whole validation invariant, so expanding it cannot fail.  Text
/// that is not ASCII is a syntax error; a document of nothing but blanks
/// and line breaks parses to the empty grammar.  Beyond that, the
/// contract pins whole document classes: a bare word becomes the one
/// top-level invocation of a known primitive or fails as an unknown rule;
/// a name with one numeric property parses to exactly that invocation; a
/// single `let` line defines exactly its constant; an unknown property
/// key fails by that key; a repeated `let` of one name fails as a
/// duplicate definition; and a second ungated case of one rule fails as
/// unreachable.
pub fn parse(input: &str) -> (r: Result<Grammar, GrammarError>)
    ensures
        r matches Ok(g) ==> g.valid(),
        !input.is_ascii() ==> r == Err::<Grammar, GrammarError>(GrammarError::Syntax(0)),
        (input.is_ascii() && spec_all_blank(input@)) ==> (r matches Ok(g) && g.top_level@.len()
            == 0 && g.defs@.len() == 0 && g.rules@.len() == 0),
        (input.is_ascii() && spec_single_word(input@)) ==> spec_single_word_outcome(input@, r),
        (input.is_ascii() && spec_single_let(input@)) ==> spec_single_let_outcome(input@, r),
        (input.is_ascii() && spec_single_invocation(input@)) ==> spec_single_invocation_outcome(
            input@,
            r,
        ),
        (input.is_ascii() && spec_double_let(input@)) ==> (r matches Err(er)
            && er matches GrammarError::DuplicateDefinition(nm) && nm@ == spec_let_name(
            input@,
            spec_find_nl(input@, 0) + 1,
            input@.len() as int,
        )),
        (input.is_ascii() && spec_double_rul(input@)) ==> (r matches Err(er)
            && er matches GrammarError::UnreachableCase(nm) && nm@ == spec_rul_name(
            input@,
            spec_find_nl(input@, 0) + 1,
            input@.len() as int,
        )),
        (input.is_ascii() && spec_single_bad_key(input@)) ==> (r matches Err(er)
            && er matches GrammarError::UnknownProperty(k) && k@ == ({
            let q = spec_skip_spaces(
                input@,
                input@.len() as int,
                spec_scan_name(
                    input@,
                    input@.len() as int,
                    spec_skip_spaces(input@, input@.len() as int, 0),
                ),
            );
            input@.subrange(q, q + 1)
        })),
{
    if !input.is_ascii() {
        return Err(GrammarError::Syntax(0));
    }
    let n: usize = input.unicode_len();
    let ghost single: bool = spec_single_word(input@);
    let ghost single_bad: bool = spec_single_bad_key(input@);
    let ghost single_let: bool = spec_single_let(input@);
    let ghost single_inv: bool = spec_single_invocation(input@);
    let ghost dlet: bool = spec_double_let(input@);
    let ghost drul: bool = spec_double_rul(input@);
    let mut defs: Vec<(String, i64)> = Vec::new();
    let mut rules: Vec<UserRule> = Vec::new();
    let mut top_level: Vec<Invocation> = Vec::new();
    let mut pending_name: Option<String> = None;
    let mut pending_prob: Option<Expression> = None;
    let mut pending_invs: Vec<Invocation> = Vec::new();
    let mut i: usize = 0;
    let mut line: usize = 1;
    while i < n
        invariant
            input.is_ascii(),
            n == input@.len(),
            i <= n,
            spec_all_blank(input@) ==> (defs@.len() == 0 && rules@.len() == 0 && top_level@.len()
                == 0 && pending_name is None),
            single == spec_single_word(input@),
            single_bad == spec_single_bad_key(input@),
            single_bad ==> i == 0,
            single_let == spec_single_let(input@),
            single_inv == spec_single_invocation(input@),
            dlet == spec_double_let(input@),
            drul == spec_double_rul(input@),
            drul ==> ((i == 0 && defs@.len() == 0 && rules@.len() == 0 && top_level@.len() == 0
                && pending_name is None) || ({
                let m = spec_find_nl(input@, 0);
                ||| (i == m + 1 && rules@.len() == 0 && defs@.len() == 0 && top_level@.len() == 0
                    && (pending_name matches Some(nm1) && nm1@ == spec_rul_name(input@, 0, m))
                    && pending_prob is None && pending_invs@.len() == 0)
                ||| (i >= n && rules@.len() == 1 && defs@.len() == 0 && top_level@.len() == 0
                    && rules@[0].name@ == spec_rul_name(input@, 0, m) && rules@[0].cases@.len()
                    == 1 && rules@[0].cases@[0].probability is None && (
                    pending_name matches Some(nm2) && nm2@ == spec_rul_name(
                        input@,
                        m + 1,
                        n as int,
                    )) && pending_prob is None && pending_invs@.len() == 0)
            })),
            dlet ==> ((i == 0 && defs@.len() == 0 && rules@.len() == 0 && top_level@.len() == 0
                && pending_name is None) || ({
                let m = spec_find_nl(input@, 0);
                ||| (i == m + 1 && rules@.len() == 0 && top_level@.len() == 0
                    && pending_name is None && defs@.len() == 1 && defs@[0].0@ == spec_let_name(
                    input@,
                    0,
                    m,
                ) && -FX_MAX <= defs@[0].1 <= FX_MAX)
                ||| (i >= n && rules@.len() == 0 && top_level@.len() == 0
                    && pending_name is None && defs@.len() == 2 && defs@[0].0@ == spec_let_name(
                    input@,
                    0,
                    m,
                ) && defs@[1].0@ == spec_let_name(input@, m + 1, n as int) && -FX_MAX <= defs@[
                    0
                ].1 <= FX_MAX && -FX_MAX <= defs@[1].1 <= FX_MAX)
            })),
            single_inv ==> ((i == 0 && defs@.len() == 0 && rules@.len() == 0
                && top_level@.len() == 0 && pending_name is None) || (i >= n && defs@.len() == 0
                && rules@.len() == 0 && pending_name is None && top_level@.len() == 1 && ({
                let p0 = spec_skip_spaces(input@, n as int, 0);
                let w = spec_scan_name(input@, n as int, p0);
                let word = input@.subrange(p0, w);
                top_level@[0].properties@.len() == 1 && top_level@[0].properties@[0]
                    == spec_one_number_property_value(input@, n as int, p0) && (
                match Primitive::spec_primitive_of(word) {
                    Some(prim) => top_level@[0].method == Method::Primitive(prim),
                    None => top_level@[0].method matches Method::Rule(nm) && nm@ == word,
                })
            }))),
            single_let ==> ((i == 0 && defs@.len() == 0 && rules@.len() == 0 && top_level@.len()
                == 0 && pending_name is None) || (i >= n && rules@.len() == 0
                && top_level@.len() == 0 && pending_name is None && defs@.len() == 1 && ({
                let p0 = spec_skip_spaces(input@, n as int, 0);
                let w = spec_scan_name(input@, n as int, p0);
                let p2 = spec_skip_spaces(input@, n as int, w);
                let w2 = spec_scan_name(input@, n as int, p2);
                let p3 = spec_skip_spaces(input@, n as int, w2);
                defs@[0].0@ == input@.subrange(p2, w2) && (
                match spec_parse_number(input@, n as int, p3) {
                    Some(t) => defs@[0].1 as int == t.0 && -FX_MAX <= defs@[0].1 <= FX_MAX,
                    None => false,
                })
            }))),
            single ==> ((i == 0 && defs@.len() == 0 && rules@.len() == 0 && top_level@.len() == 0
                && pending_name is None) || (i >= n && defs@.len() == 0 && rules@.len() == 0
                && pending_name is None && top_level@.len() == 1 && ({
                let p0 = spec_skip_spaces(input@, n as int, 0);
                let w = spec_scan_name(input@, n as int, p0);
                let word = input@.subrange(p0, w);
                top_level@[0].properties@.len() == 0 && (
                match Primitive::spec_primitive_of(word) {
                    Some(prim) => top_level@[0].method == Method::Primitive(prim),
                    None => top_level@[0].method matches Method::Rule(nm) && nm@ == word,
                })
            }))),
        decreases n - i,
    {
        let mut e: usize = i;
        while e < n && input.get_ascii(e) != 10
            invariant
                input.is_ascii(),
                n == input@.len(),
                i <= e <= n,
                forall|k: int| i <= k < e ==> input@[k] != '\n',
            decreases n - e,
        {
            e = e + 1;
        }
        proof {
            if spec_all_blank(input@) {
                assert forall|k: int| i <= k < e implies spec_is_space(#[trigger] input@[k]) by {
                    assert(input@[k] != '\n');
                }
                lemma_skip_all_spaces(input@, e as int, i as int);
            }
            if single || single_bad || single_let || single_inv {
                if e < n {
                    assert(input@[e as int] <= '\u{7f}');
                    assert(input@[e as int] != '\n');
                    assert(false);
                }
                assert(e == n);
                assert(i == 0);
            }
            if dlet || drul {
                let m = spec_find_nl(input@, 0);
                lemma_find_nl(input@, 0);
                if i == 0 {
                    if e < n {
                        assert(input@[e as int] <= '\u{7f}');
                        assert(input@[e as int] == '\n');
                    } else {
                        assert(input@[m] != '\n');
                        assert(false);
                    }
                    assert(e as int >= m);
                    assert(e as int <= m);
                    assert(e as int == m);
                } else {
                    assert(i as int == m + 1);
                    if e < n {
                        assert(input@[e as int] <= '\u{7f}');
                        assert(input@[e as int] != '\n');
                        assert(false);
                    }
                    assert(e == n);
                }
            }
        }
        let p: usize = skip_spaces(input, e, i);
        let b1: u8 = if p < e {
            input.get_ascii(p)
        } else {
            0
        };
        proof {
            if single || single_bad || single_let || single_inv {
                let p0 = spec_skip_spaces(input@, n as int, 0);
                assert(p as int == p0);
                assert(p < e);
                assert(input@[p as int] <= '\u{7f}');
                assert(input@[p as int] as u8 == b1);
            }
            if dlet || drul {
                assert(p as int == spec_skip_spaces(input@, e as int, i as int));
                assert(p < e);
                assert(input@[p as int] <= '\u{7f}');
                assert(input@[p as int] as u8 == b1);
            }
        }
        if p < e {
            if !is_alpha(b1) {
                return Err(GrammarError::Syntax(line));
            }
            let w: usize = scan_name(input, e, p);
            let tok: &str = input.substring_ascii(p, w);
            proof {
                if drul {
                    assert(spec_lower("let"@) != spec_lower("rul"@)) by {
                        reveal_strlit("let");
                        reveal_strlit("rul");
                        assert(spec_lower("let"@)[0] == spec_lower_char('l'));
                        assert(spec_lower("rul"@)[0] == spec_lower_char('r'));
                    }
                }
            }
            if eq_ignore_case(tok, "let") {
                let nm0: Option<String> = pending_name;
                let pr0: Option<Expression> = pending_prob;
                let iv0: Vec<Invocation> = pending_invs;
                pending_name = None;
                pending_prob = None;
                pending_invs = Vec::new();
                match close_pending(&mut rules, nm0, pr0, iv0) {
                    Ok(()) => {},
                    Err(er) => {
                        return Err(er);
                    },
                }
                let p2: usize = skip_spaces(input, e, w);
                let b2: u8 = if p2 < e {
                    input.get_ascii(p2)
                } else {
                    0
                };
                proof {
                    if single_let || dlet {
                        assert(p2 < e);
                        assert(input@[p2 as int] <= '\u{7f}');
                        assert(input@[p2 as int] as u8 == b2);
                    }
                }
                if p2 >= e || !is_alpha(b2) {
                    return Err(GrammarError::Syntax(line));
                }
                let w2: usize = scan_name(input, e, p2);
                let name: String = input.substring_ascii(p2, w2).to_owned();
                let p3: usize = skip_spaces(input, e, w2);
                let (v, p4): (i64, usize) = match parse_number(input, e, p3) {
                    Ok(t) => t,
                    Err(er) => {
                        return Err(line_err(er, line));
                    },
                };
                if skip_spaces(input, e, p4) < e {
                    return Err(GrammarError::Syntax(line));
                }
                defs.push((name, v));
            } else if eq_ignore_case(tok, "rul") {
                let nm0: Option<String> = pending_name;
                let pr0: Option<Expression> = pending_prob;
                let iv0: Vec<Invocation> = pending_invs;
                pending_name = None;
                pending_prob = None;
                pending_invs = Vec::new();
                match close_pending(&mut rules, nm0, pr0, iv0) {
                    Ok(()) => {},
                    Err(er) => {
                        return Err(er);
                    },
                }
                let p2: usize = skip_spaces(input, e, w);
                let b3: u8 = if p2 < e {
                    input.get_ascii(p2)
                } else {
                    0
                };
                proof {
                    if drul {
                        assert(p2 < e);
                        assert(input@[p2 as int] <= '\u{7f}');
                        assert(input@[p2 as int] as u8 == b3);
                    }
                }
                if p2 >= e || !is_alpha(b3) {
                    return Err(GrammarError::Syntax(line));
                }
                let w2: usize = scan_name(input, e, p2);
                let name: String = input.substring_ascii(p2, w2).to_owned();
                let p3: usize = skip_spaces(input, e, w2);
                if p3 < e {
                    let (prob, p4): (Expression, usize) = match parse_simple(input, e, p3) {
                        Ok(t) => t,
                        Err(er) => {
                            return Err(line_err(er, line));
                        },
                    };
                    if skip_spaces(input, e, p4) < e {
                        return Err(GrammarError::Syntax(line));
                    }
                    pending_prob = Some(prob);
                }
                pending_name = Some(name);
            } else if eq_ignore_case(tok, "end") {
                let nm0: Option<String> = pending_name;
                let pr0: Option<Expression> = pending_prob;
                let iv0: Vec<Invocation> = pending_invs;
                pending_name = None;
                pending_prob = None;
                pending_invs = Vec::new();
                match close_pending(&mut rules, nm0, pr0, iv0) {
                    Ok(()) => {},
                    Err(er) => {
                        return Err(er);
                    },
                }
            } else {
                let inv: Invocation = match parse_invocation_segment(input, e, p) {
                    Ok(t) => t,
                    Err(er) => {
                        return Err(line_err(er, line));
                    },
                };
                match &pending_name {
                    Some(_) => {
                        pending_invs.push(inv);
                    },
                    None => {
                        top_level.push(inv);
                    },
                }
            }
        }
        i = if e < n {
            e + 1
        } else {
            n
        };
        line = if line == usize::MAX {
            line
        } else {
            line + 1
        };
    }
    match close_pending(&mut rules, pending_name, pending_prob, pending_invs) {
        Ok(()) => {},
        Err(er) => {
            return Err(er);
        },
    }
    let grammar = Grammar { top_level, defs, rules };
    proof {
        if spec_all_blank(input@) {
            assert(grammar.valid());
        }
        if single {
            let p0 = spec_skip_spaces(input@, n as int, 0);
            let w = spec_scan_name(input@, n as int, p0);
            let word = input@.subrange(p0, w);
            match Primitive::spec_primitive_of(word) {
                Some(prim) => {
                    assert(grammar.top_level@[0].method == Method::Primitive(prim));
                    assert(prim.wf());
                    assert(grammar.top_level@[0].wf());
                    assert(grammar.invocation_ok(grammar.top_level@[0]));
                    assert(grammar.valid());
                },
                None => {},
            }
        }
        if single_let {
            assert(crate::grammar::defs_wf(grammar.defs@));
            assert(crate::grammar::defs_unique(grammar.defs@));
            assert(grammar.valid());
        }
        if dlet {
            lemma_find_nl(input@, 0);
            assert(crate::grammar::defs_wf(grammar.defs@));
            assert(spec_lower(grammar.defs@[0].0@) == spec_lower(grammar.defs@[1].0@));
        }
        if single_inv {
            let p0 = spec_skip_spaces(input@, n as int, 0);
            let w = spec_scan_name(input@, n as int, p0);
            let word = input@.subrange(p0, w);
            lemma_parse_number_bounds(
                input@,
                n as int,
                spec_skip_spaces(
                    input@,
                    n as int,
                    spec_skip_spaces(input@, n as int, spec_scan_name(input@, n as int, p0)) + 1,
                ),
            );
            assert(grammar.top_level@[0].properties@[0].value.wf());
            assert(grammar.top_level@[0].properties@[0].value.spec_vars() =~= Seq::<
                Seq<char>,
            >::empty());
            assert(crate::expression::vars_defined_or(
                grammar.top_level@[0].properties@[0].value,
                grammar.defs@,
            ));
            match Primitive::spec_primitive_of(word) {
                Some(prim) => {
                    assert(grammar.top_level@[0].method == Method::Primitive(prim));
                    assert(prim.wf());
                    assert(grammar.top_level@[0].wf());
                    assert(grammar.invocation_ok(grammar.top_level@[0]));
                    assert(grammar.valid());
                },
                None => {},
            }
        }
    }
    match grammar.validate() {
        Ok(()) => Ok(grammar),
        Err(er) => Err(er),
    }
}

impl ConvextParser {
    /// Parse and validate one grammar document.
    pub fn parse(input: &str) -> (r: Result<Grammar, GrammarError>)
        ensures
            r matches Ok(g) ==> g.valid(),
            !input.is_ascii() ==> r == Err::<Grammar, GrammarError>(GrammarError::Syntax(0)),
            (input.is_ascii() && spec_all_blank(input@)) ==> (r matches Ok(g)
                && g.top_level@.len() == 0 && g.defs@.len() == 0 && g.rules@.len() == 0),
            (input.is_ascii() && spec_single_word(input@)) ==> spec_single_word_outcome(
                input@,
                r,
            ),
    {
        parse(input)
    }
}

} // verus!
