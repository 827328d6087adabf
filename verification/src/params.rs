//! The filter grammar and its parser.
//!
//! A filter token reads `<name><op><number>`: a column name of letters and
//! underscores, one of the comparison operators `<`, `<=`, `>`, `>=`, `=`,
//! `==`, `!=`, and a numeric literal with an optional sign and an optional
//! decimal point. A token that does not match fails the whole request.

use vstd::prelude::*;

use crate::error::EngineError;

verus! {

/// A comparison operator of the filter grammar.
#[derive(Clone, Copy, Debug, PartialEq, Eq, Structural)]
pub enum CompareOp {
    Lt,
    Le,
    Gt,
    Ge,
    Eq,
    Ne,
}

/// One column/operator/literal comparison. The literal is kept as written;
/// it is typed against the column's declared type at evaluation time.
#[derive(Debug, PartialEq, Eq)]
pub struct Predicate {
    pub column: String,
    pub op: CompareOp,
    pub literal: String,
}

/// A character a column name may hold.
pub open spec fn is_name_char(c: char) -> bool {
    ('a' <= c && c <= 'z') || ('A' <= c && c <= 'Z') || c == '_'
}

/// A decimal digit.
pub open spec fn is_digit(c: char) -> bool {
    '0' <= c && c <= '9'
}

/// Every character of `s` is a decimal digit.
pub open spec fn all_digits(s: Seq<char>) -> bool {
    forall|i: int| 0 <= i < s.len() ==> is_digit(#[trigger] s[i])
}

/// The position of the first character of `s` at or after `i` that is not a
/// digit, or the length of `s` when all the rest are digits.
pub open spec fn digits_end_from(s: Seq<char>, i: nat) -> nat
    recommends
        i <= s.len(),
    decreases s.len() - i when i <= s.len()
{
    if i >= s.len() {
        i
    } else if !is_digit(s[i as int]) {
        i
    } else {
        digits_end_from(s, i + 1)
    }
}

pub proof fn lemma_digits_end_from(s: Seq<char>, i: nat)
    requires
        i <= s.len(),
    ensures
        i <= digits_end_from(s, i) <= s.len(),
        forall|j: int| i <= j < digits_end_from(s, i) ==> is_digit(s[j]),
        digits_end_from(s, i) < s.len() ==> !is_digit(s[digits_end_from(s, i) as int]),
    decreases s.len() - i,
{
    if i < s.len() && is_digit(s[i as int]) {
        lemma_digits_end_from(s, i + 1);
    }
}

/// Scanning for the first non-digit from `i` gives the same position whether
/// the prefix before `k` is there or not.
proof fn lemma_digits_end_skip(s: Seq<char>, k: nat, i: nat)
    requires
        k <= i <= s.len(),
    ensures
        digits_end_from(s, i) == digits_end_from(s.skip(k as int), (i - k) as nat) + k,
    decreases s.len() - i,
{
    if i < s.len() {
        assert(s.skip(k as int)[i - k] == s[i as int]);
        if is_digit(s[i as int]) {
            lemma_digits_end_skip(s, k, i + 1);
        }
    }
}

/// The position of the first character of `s` at or after `i` that cannot be
/// part of a column name, or the length of `s`.
pub open spec fn name_end_from(s: Seq<char>, i: nat) -> nat
    recommends
        i <= s.len(),
    decreases s.len() - i when i <= s.len()
{
    if i >= s.len() {
        i
    } else if !is_name_char(s[i as int]) {
        i
    } else {
        name_end_from(s, i + 1)
    }
}

pub proof fn lemma_name_end_from(s: Seq<char>, i: nat)
    requires
        i <= s.len(),
    ensures
        i <= name_end_from(s, i) <= s.len(),
        forall|j: int| i <= j < name_end_from(s, i) ==> is_name_char(s[j]),
        name_end_from(s, i) < s.len() ==> !is_name_char(s[name_end_from(s, i) as int]),
    decreases s.len() - i,
{
    if i < s.len() && is_name_char(s[i as int]) {
        lemma_name_end_from(s, i + 1);
    }
}

/// A numeric literal without its sign: digits, optionally followed by one
/// decimal point and digits again.
pub open spec fn valid_unsigned_number(s: Seq<char>) -> bool {
    ||| (s.len() > 0 && all_digits(s))
    ||| (exists|k: int|
        1 <= k < s.len() - 1 && #[trigger] s[k] == '.' && all_digits(s.subrange(0, k))
            && all_digits(s.subrange(k + 1, s.len() as int)))
}

/// A numeric literal: an optional sign, digits, an optional decimal point
/// and digits.
pub open spec fn valid_number(s: Seq<char>) -> bool {
    if s.len() > 0 && (s[0] == '+' || s[0] == '-') {
        valid_unsigned_number(s.skip(1))
    } else {
        valid_unsigned_number(s)
    }
}

/// The declarative shape above coincides with what a left-to-right scan of
/// the digits finds.
proof fn lemma_unsigned_number_shape(t: Seq<char>)
    ensures
        valid_unsigned_number(t) <==> ({
            let d = digits_end_from(t, 0) as int;
            &&& d > 0
            &&& (d == t.len() || (t[d] == '.' && d + 1 < t.len() && digits_end_from(
                t,
                (d + 1) as nat,
            ) == t.len()))
        }),
{
    lemma_digits_end_from(t, 0);
    let d = digits_end_from(t, 0) as int;
    if d > 0 {
        if d == t.len() {
            assert(valid_unsigned_number(t));
        } else if t[d] == '.' && d + 1 < t.len() && digits_end_from(t, (d + 1) as nat) == t.len() {
            lemma_digits_end_from(t, (d + 1) as nat);
            assert(all_digits(t.subrange(0, d))) by {
                assert(forall|j: int| 0 <= j < d ==> t.subrange(0, d)[j] == t[j]);
            }
            assert(all_digits(t.subrange(d + 1, t.len() as int))) by {
                assert(forall|j: int|
                    0 <= j < t.len() - d - 1 ==> #[trigger] t.subrange(d + 1, t.len() as int)[j]
                        == t[j + d + 1]);
            }
            assert(valid_unsigned_number(t));
        }
    }
    if valid_unsigned_number(t) {
        if t.len() > 0 && all_digits(t) {
            assert(d == t.len());
        } else {
            let k = choose|k: int|
                1 <= k < t.len() - 1 && #[trigger] t[k] == '.' && all_digits(t.subrange(0, k))
                    && all_digits(t.subrange(k + 1, t.len() as int));
            assert(forall|j: int| 0 <= j < k ==> is_digit(t[j])) by {
                assert(forall|j: int| 0 <= j < k ==> t[j] == t.subrange(0, k)[j]);
            }
            assert(!is_digit(t[k]));
            if d < k {
                assert(is_digit(t[d]));
                assert(false);
            }
            if d > k {
                assert(is_digit(t[k]));
                assert(false);
            }
            assert(d == k);
            lemma_digits_end_from(t, (d + 1) as nat);
            let e = digits_end_from(t, (d + 1) as nat) as int;
            if e < t.len() {
                assert(t.subrange(k + 1, t.len() as int)[e - k - 1] == t[e]);
                assert(is_digit(t[e]));
                assert(false);
            }
        }
    }
}

/// First index at or after `from` whose character is not a digit.
fn scan_digits(s: &str, from: usize) -> (r: usize)
    requires
        from <= s@.len(),
    ensures
        r == digits_end_from(s@, from as nat),
        from <= r <= s@.len(),
{
    let n = s.unicode_len();
    let mut i: usize = from;
    while i < n
        invariant
            from <= i <= n,
            n == s@.len(),
            digits_end_from(s@, from as nat) == digits_end_from(s@, i as nat),
        decreases n - i,
    {
        let c = s.get_char(i);
        if !('0' <= c && c <= '9') {
            return i;
        }
        i = i + 1;
    }
    i
}

/// First index at or after `from` whose character cannot be part of a name.
fn scan_name(s: &str, from: usize) -> (r: usize)
    requires
        from <= s@.len(),
    ensures
        r == name_end_from(s@, from as nat),
        from <= r <= s@.len(),
{
    let n = s.unicode_len();
    let mut i: usize = from;
    while i < n
        invariant
            from <= i <= n,
            n == s@.len(),
            name_end_from(s@, from as nat) == name_end_from(s@, i as nat),
        decreases n - i,
    {
        let c = s.get_char(i);
        if !(('a' <= c && c <= 'z') || ('A' <= c && c <= 'Z') || c == '_') {
            return i;
        }
        i = i + 1;
    }
    i
}

/// Whether `s` is a numeric literal of the grammar.
pub fn is_valid_number(s: &str) -> (r: bool)
    ensures
        r == valid_number(s@),
{
    let n = s.unicode_len();
    let start: usize = if n > 0 {
        let c0 = s.get_char(0);
        if c0 == '+' || c0 == '-' {
            1
        } else {
            0
        }
    } else {
        0
    };
    let ghost t = if start == 1 {
        s@.skip(1)
    } else {
        s@
    };
    proof {
        if start == 0 {
            assert(s@.skip(0) =~= s@);
        }
        lemma_unsigned_number_shape(t);
        lemma_digits_end_skip(s@, start as nat, start as nat);
        assert(valid_number(s@) == valid_unsigned_number(t));
    }
    let d = scan_digits(s, start);
    proof {
        assert(digits_end_from(t, 0) == d - start);
    }
    if d == start {
        return false;
    }
    if d == n {
        proof {
            assert(digits_end_from(t, 0) == t.len());
        }
        return true;
    }
    proof {
        assert(t[(d - start) as int] == s@[d as int]);
    }
    if s.get_char(d) != '.' {
        return false;
    }
    if d + 1 == n {
        return false;
    }
    let e = scan_digits(s, d + 1);
    proof {
        lemma_digits_end_skip(s@, start as nat, (d + 1) as nat);
        assert(digits_end_from(t, (d + 1 - start) as nat) == e - start);
    }
    e == n
}

/// The operator starting at position `i` of `s`, with the count of
/// characters it spans. The legacy single `=` means equality.
pub open spec fn op_at(s: Seq<char>, i: int) -> Option<(CompareOp, int)> {
    if 0 <= i < s.len() && s[i] == '<' {
        if i + 1 < s.len() && s[i + 1] == '=' {
            Some((CompareOp::Le, 2))
        } else {
            Some((CompareOp::Lt, 1))
        }
    } else if 0 <= i < s.len() && s[i] == '>' {
        if i + 1 < s.len() && s[i + 1] == '=' {
            Some((CompareOp::Ge, 2))
        } else {
            Some((CompareOp::Gt, 1))
        }
    } else if 0 <= i < s.len() && s[i] == '=' {
        if i + 1 < s.len() && s[i + 1] == '=' {
            Some((CompareOp::Eq, 2))
        } else {
            Some((CompareOp::Eq, 1))
        }
    } else if 0 <= i < s.len() - 1 && s[i] == '!' && s[i + 1] == '=' {
        Some((CompareOp::Ne, 2))
    } else {
        None
    }
}

/// What parsing a filter token yields: the column name, the operator, and
/// the literal, when the token matches the grammar.
pub open spec fn spec_parse_condition(s: Seq<char>) -> Option<(Seq<char>, CompareOp, Seq<char>)> {
    let ne = name_end_from(s, 0) as int;
    if ne == 0 {
        None
    } else {
        match op_at(s, ne) {
            Some((op, w)) => {
                let lit = s.skip(ne + w);
                if valid_number(lit) {
                    Some((s.subrange(0, ne), op, lit))
                } else {
                    None
                }
            },
            None => None,
        }
    }
}

/// Parses one filter token of the form `<name><op><number>`.
///
/// Returns the parsed comparison exactly when the token matches the grammar,
/// and refuses the token otherwise.
pub fn parse_condition(condition: &str) -> (r: Result<Predicate, EngineError>)
    ensures
        r is Ok <==> spec_parse_condition(condition@) is Some,
        r matches Ok(p) ==> spec_parse_condition(condition@) == Some((p.column@, p.op, p.literal@)),
        r matches Err(e) ==> e == EngineError::MalformedFilter,
{
    let n = condition.unicode_len();
    let ne = scan_name(condition, 0);
    if ne == 0 {
        return Err(EngineError::MalformedFilter);
    }
    if ne == n {
        return Err(EngineError::MalformedFilter);
    }
    let c1 = condition.get_char(ne);
    let has_next = ne + 1 < n;
    let (op, w): (CompareOp, usize) = if c1 == '<' {
        if has_next && condition.get_char(ne + 1) == '=' {
            (CompareOp::Le, 2)
        } else {
            (CompareOp::Lt, 1)
        }
    } else if c1 == '>' {
        if has_next && condition.get_char(ne + 1) == '=' {
            (CompareOp::Ge, 2)
        } else {
            (CompareOp::Gt, 1)
        }
    } else if c1 == '=' {
        if has_next && condition.get_char(ne + 1) == '=' {
            (CompareOp::Eq, 2)
        } else {
            (CompareOp::Eq, 1)
        }
    } else if c1 == '!' {
        if has_next && condition.get_char(ne + 1) == '=' {
            (CompareOp::Ne, 2)
        } else {
            return Err(EngineError::MalformedFilter);
        }
    } else {
        return Err(EngineError::MalformedFilter);
    };
    proof {
        assert(op_at(condition@, ne as int) == Some((op, w as int)));
    }
    let lit = condition.substring_char(ne + w, n).to_owned();
    proof {
        assert(lit@ =~= condition@.skip(ne as int + w as int));
    }
    if !is_valid_number(lit.as_str()) {
        return Err(EngineError::MalformedFilter);
    }
    let name = condition.substring_char(0, ne).to_owned();
    Ok(Predicate { column: name, op, literal: lit })
}

} // verus!
