//! A JSON document model and its text form.
//!
//! `JsonValue` is the executable tree; `JsonData` is its mathematical view.
//! Numbers are carried as their wire tokens (the exact character sequence of
//! the number in the text form), so the tree represents every number a
//! backend can send without rounding.  The printer and the parser below are
//! exact inverses on well-formed trees, which the round-trip lemma states.

use vstd::prelude::*;

verus! {

broadcast use vstd::std_specs::vec::group_vec_axioms;

/// The mathematical view of a JSON document.
#[verifier::ext_equal]
pub enum JsonData {
    Null,
    Bool(bool),
    /// A number, as its wire token (for example `0.5` or `-12e3`).
    Num(Seq<char>),
    Str(Seq<char>),
    Arr(Seq<JsonData>),
    Obj(Seq<(Seq<char>, JsonData)>),
}

/// A JSON document.
///
/// `Num` holds the number's wire token rather than a binary value, so that
/// every number round-trips exactly.
#[derive(Debug, PartialEq)]
pub enum JsonValue {
    Null,
    Bool(bool),
    Num(String),
    Str(String),
    Arr(Vec<JsonValue>),
    Obj(Vec<(String, JsonValue)>),
}

pub open spec fn jx_of(v: JsonValue) -> JsonData
    decreases v,
{
    match v {
        JsonValue::Null => JsonData::Null,
        JsonValue::Bool(b) => JsonData::Bool(b),
        JsonValue::Num(t) => JsonData::Num(t@),
        JsonValue::Str(s) => JsonData::Str(s@),
        JsonValue::Arr(xs) => JsonData::Arr(jx_of_seq(xs@)),
        JsonValue::Obj(ps) => JsonData::Obj(jx_of_pairs(ps@)),
    }
}

pub open spec fn jx_of_seq(s: Seq<JsonValue>) -> Seq<JsonData>
    decreases s,
{
    if s.len() == 0 {
        Seq::empty()
    } else {
        seq![jx_of(s[0])] + jx_of_seq(s.subrange(1, s.len() as int))
    }
}

pub open spec fn jx_of_pairs(s: Seq<(String, JsonValue)>) -> Seq<(Seq<char>, JsonData)>
    decreases s,
{
    if s.len() == 0 {
        Seq::empty()
    } else {
        seq![(s[0].0@, jx_of(s[0].1))] + jx_of_pairs(s.subrange(1, s.len() as int))
    }
}

impl View for JsonValue {
    type V = JsonData;

    open spec fn view(&self) -> JsonData {
        jx_of(*self)
    }
}

pub broadcast proof fn lemma_jx_of_seq_index(s: Seq<JsonValue>, i: int)
    requires
        0 <= i < s.len(),
    ensures
        #[trigger] jx_of_seq(s)[i] == jx_of(s[i]),
        jx_of_seq(s).len() == s.len(),
    decreases s.len(),
{
    if s.len() > 0 {
        lemma_jx_of_seq_len(s.subrange(1, s.len() as int));
        if i > 0 {
            lemma_jx_of_seq_index(s.subrange(1, s.len() as int), i - 1);
        }
    }
}

pub proof fn lemma_jx_of_seq_len(s: Seq<JsonValue>)
    ensures
        jx_of_seq(s).len() == s.len(),
    decreases s.len(),
{
    if s.len() > 0 {
        lemma_jx_of_seq_len(s.subrange(1, s.len() as int));
    }
}

pub broadcast proof fn lemma_jx_of_pairs_index(s: Seq<(String, JsonValue)>, i: int)
    requires
        0 <= i < s.len(),
    ensures
        #[trigger] jx_of_pairs(s)[i] == (s[i].0@, jx_of(s[i].1)),
        jx_of_pairs(s).len() == s.len(),
    decreases s.len(),
{
    if s.len() > 0 {
        lemma_jx_of_pairs_len(s.subrange(1, s.len() as int));
        if i > 0 {
            lemma_jx_of_pairs_index(s.subrange(1, s.len() as int), i - 1);
        }
    }
}

pub proof fn lemma_jx_of_pairs_len(s: Seq<(String, JsonValue)>)
    ensures
        jx_of_pairs(s).len() == s.len(),
    decreases s.len(),
{
    if s.len() > 0 {
        lemma_jx_of_pairs_len(s.subrange(1, s.len() as int));
    }
}

// ---------------------------------------------------------------------------
// Number tokens
// ---------------------------------------------------------------------------

pub open spec fn is_digit(c: char) -> bool {
    '0' <= c && c <= '9'
}

/// The first index at or after `i` that does not hold a digit.
pub open spec fn scan_digits(s: Seq<char>, i: int) -> int
    decreases s.len() - i,
{
    if 0 <= i < s.len() && is_digit(s[i]) {
        scan_digits(s, i + 1)
    } else {
        i
    }
}

/// Whether `t` is a number of the JSON grammar:
/// `-? (0 | [1-9][0-9]*) (. [0-9]+)? ([eE] [+-]? [0-9]+)?`.
pub open spec fn is_number_token(t: Seq<char>) -> bool {
    let i0: int = if t.len() > 0 && t[0] == '-' {
        1
    } else {
        0
    };
    let i1 = scan_digits(t, i0);
    &&& i1 > i0
    &&& (t[i0] == '0' ==> i1 == i0 + 1)
    &&& {
        let i2 = if i1 < t.len() && t[i1] == '.' {
            scan_digits(t, i1 + 1)
        } else {
            i1
        };
        &&& (i1 < t.len() && t[i1] == '.' ==> i2 > i1 + 1)
        &&& {
            let i3 = if i2 < t.len() && (t[i2] == 'e' || t[i2] == 'E') {
                scan_digits(
                    t,
                    if i2 + 1 < t.len() && (t[i2 + 1] == '+' || t[i2 + 1] == '-') {
                        i2 + 2
                    } else {
                        i2 + 1
                    },
                )
            } else {
                i2
            };
            &&& (i2 < t.len() && (t[i2] == 'e' || t[i2] == 'E') ==> i3 > (
            if i2 + 1 < t.len() && (t[i2 + 1] == '+' || t[i2 + 1] == '-') {
                i2 + 2
            } else {
                i2 + 1
            }))
            &&& i3 == t.len()
        }
    }
}

/// The character of one decimal digit.
pub open spec fn digit_char(d: nat) -> char {
    if d == 0 {
        '0'
    } else if d == 1 {
        '1'
    } else if d == 2 {
        '2'
    } else if d == 3 {
        '3'
    } else if d == 4 {
        '4'
    } else if d == 5 {
        '5'
    } else if d == 6 {
        '6'
    } else if d == 7 {
        '7'
    } else if d == 8 {
        '8'
    } else {
        '9'
    }
}

/// The value of one decimal digit character.
pub open spec fn digit_val(c: char) -> nat {
    if c == '0' {
        0
    } else if c == '1' {
        1
    } else if c == '2' {
        2
    } else if c == '3' {
        3
    } else if c == '4' {
        4
    } else if c == '5' {
        5
    } else if c == '6' {
        6
    } else if c == '7' {
        7
    } else if c == '8' {
        8
    } else {
        9
    }
}

/// The decimal digits of `n`, most significant first.
pub open spec fn u64_dec(n: nat) -> Seq<char>
    decreases n,
{
    if n < 10 {
        seq![digit_char(n)]
    } else {
        u64_dec(n / 10) + seq![digit_char(n % 10)]
    }
}

pub open spec fn all_digits(t: Seq<char>) -> bool {
    forall|i: int| 0 <= i < t.len() ==> is_digit(#[trigger] t[i])
}

/// The number the digit characters denote.
pub open spec fn digits_val(t: Seq<char>) -> nat
    decreases t.len(),
{
    if t.len() == 0 {
        0
    } else {
        10 * digits_val(t.drop_last()) + digit_val(t.last())
    }
}

pub proof fn lemma_u64_dec_shape(n: nat)
    ensures
        u64_dec(n).len() >= 1,
        all_digits(u64_dec(n)),
        u64_dec(n)[0] == '0' ==> n == 0,
        digits_val(u64_dec(n)) == n,
    decreases n,
{
    if n < 10 {
        assert(u64_dec(n) =~= seq![digit_char(n)]);
        assert(u64_dec(n).drop_last() =~= Seq::<char>::empty());
        assert(u64_dec(n).last() == digit_char(n));
        assert(digits_val(u64_dec(n)) == 10 * digits_val(Seq::<char>::empty()) + digit_val(
            digit_char(n),
        ));
        assert(digit_val(digit_char(n)) == n);
    } else {
        lemma_u64_dec_shape(n / 10);
        let t = u64_dec(n);
        assert(t =~= u64_dec(n / 10) + seq![digit_char(n % 10)]);
        assert(t.drop_last() =~= u64_dec(n / 10));
        assert(t.last() == digit_char(n % 10));
        assert(digit_val(digit_char(n % 10)) == n % 10);
        assert(digits_val(t) == 10 * (n / 10) + n % 10);
        assert(10 * (n / 10) + n % 10 == n) by (nonlinear_arith);
        assert forall|i: int| 0 <= i < t.len() implies is_digit(#[trigger] t[i]) by {
            if i < t.len() - 1 {
                assert(t[i] == u64_dec(n / 10)[i]);
            }
        }
    }
}

pub proof fn lemma_scan_all_digits(t: Seq<char>, i: int)
    requires
        0 <= i <= t.len(),
        forall|j: int| i <= j < t.len() ==> is_digit(#[trigger] t[j]),
    ensures
        scan_digits(t, i) == t.len(),
    decreases t.len() - i,
{
    if i < t.len() {
        lemma_scan_all_digits(t, i + 1);
    }
}

/// The decimal form of a machine integer is a number of the JSON grammar.
pub proof fn lemma_u64_dec_is_number_token(n: nat)
    ensures
        is_number_token(u64_dec(n)),
{
    lemma_u64_dec_shape(n);
    let t = u64_dec(n);
    lemma_scan_all_digits(t, 0);
    assert(!(t[0] == '-'));
    if t[0] == '0' {
        assert(n == 0);
        assert(t =~= seq![digit_char(0)]);
    }
}

/// A prefix of a digit string never denotes more than the whole.
pub proof fn lemma_digits_val_prefix(t: Seq<char>, j: int)
    requires
        0 <= j <= t.len(),
    ensures
        digits_val(t.subrange(0, j)) <= digits_val(t),
    decreases t.len() - j,
{
    if j < t.len() {
        lemma_digits_val_prefix(t, j + 1);
        let a = t.subrange(0, j + 1);
        assert(a.drop_last() =~= t.subrange(0, j));
        assert(digits_val(a) == 10 * digits_val(t.subrange(0, j)) + digit_val(a.last()));
        assert(digits_val(t.subrange(0, j)) <= 10 * digits_val(t.subrange(0, j))) by (
        nonlinear_arith);
    } else {
        assert(t.subrange(0, j) =~= t);
    }
}

fn digit_of(d: u64) -> (c: char)
    requires
        d < 10,
    ensures
        c == digit_char(d as nat),
{
    if d == 0 {
        '0'
    } else if d == 1 {
        '1'
    } else if d == 2 {
        '2'
    } else if d == 3 {
        '3'
    } else if d == 4 {
        '4'
    } else if d == 5 {
        '5'
    } else if d == 6 {
        '6'
    } else if d == 7 {
        '7'
    } else if d == 8 {
        '8'
    } else {
        '9'
    }
}

fn u64_digits(n: u64, out: &mut Vec<char>)
    ensures
        final(out)@ == old(out)@ + u64_dec(n as nat),
    decreases n,
{
    if n < 10 {
        out.push(digit_of(n));
        assert(out@ =~= old(out)@ + u64_dec(n as nat));
    } else {
        u64_digits(n / 10, out);
        out.push(digit_of(n % 10));
        assert(out@ =~= old(out)@ + u64_dec(n as nat));
    }
}

/// The decimal form of `n`: a number token of the JSON grammar.
pub fn u64_to_token(n: u64) -> (r: String)
    ensures
        r@ == u64_dec(n as nat),
        is_number_token(r@),
{
    proof {
        lemma_u64_dec_is_number_token(n as nat);
    }
    let mut out: Vec<char> = Vec::new();
    u64_digits(n, &mut out);
    chars_to_string(&out)
}

/// Reads a plain decimal digit string as a machine integer; yields nothing
/// when the string is empty, holds a non-digit, or denotes more than the
/// largest machine integer.
pub fn token_to_u64(s: &String) -> (r: Option<u64>)
    ensures
        r matches Some(v) ==> s@.len() > 0 && all_digits(s@) && v as nat == digits_val(s@),
        r is None ==> !(s@.len() > 0 && all_digits(s@) && digits_val(s@) <= u64::MAX),
{
    let st = s.as_str();
    let n = st.unicode_len();
    if n == 0 {
        return None;
    }
    let mut acc: u64 = 0;
    let mut i: usize = 0;
    while i < n
        invariant
            0 <= i <= n,
            n == st@.len(),
            st@ == s@,
            acc as nat == digits_val(s@.subrange(0, i as int)),
            forall|j: int| 0 <= j < i ==> is_digit(#[trigger] s@[j]),
        decreases n - i,
    {
        let c = st.get_char(i);
        if !('0' <= c && c <= '9') {
            assert(!all_digits(s@));
            return None;
        }
        let d: u64 = if c == '0' {
            0
        } else if c == '1' {
            1
        } else if c == '2' {
            2
        } else if c == '3' {
            3
        } else if c == '4' {
            4
        } else if c == '5' {
            5
        } else if c == '6' {
            6
        } else if c == '7' {
            7
        } else if c == '8' {
            8
        } else {
            9
        };
        assert(d as nat == digit_val(c));
        proof {
            let a = s@.subrange(0, i + 1);
            assert(a.drop_last() =~= s@.subrange(0, i as int));
            assert(a.last() == s@[i as int]);
            assert(digits_val(a) == 10 * digits_val(s@.subrange(0, i as int)) + digit_val(
                s@[i as int],
            ));
        }
        if acc > (u64::MAX - d) / 10 {
            proof {
                assert(10 * (acc as nat) + d as nat > u64::MAX) by (nonlinear_arith)
                    requires
                        acc as nat > ((u64::MAX - d) / 10) as nat,
                        d < 10,
                ;
                lemma_digits_val_prefix(s@, i + 1);
            }
            return None;
        }
        assert(10 * (acc as nat) + d as nat <= u64::MAX) by (nonlinear_arith)
            requires
                acc as nat <= ((u64::MAX - d) / 10) as nat,
                d < 10,
        ;
        acc = acc * 10 + d;
        i = i + 1;
    }
    assert(s@.subrange(0, n as int) =~= s@);
    Some(acc)
}

// ---------------------------------------------------------------------------
// Well-formedness
// ---------------------------------------------------------------------------

/// A tree is well formed when every number holds a valid wire token.
/// The printer produces valid JSON text exactly for such trees.
pub open spec fn wf_json(j: JsonData) -> bool
    decreases j,
{
    match j {
        JsonData::Null => true,
        JsonData::Bool(_) => true,
        JsonData::Num(t) => is_number_token(t),
        JsonData::Str(_) => true,
        JsonData::Arr(xs) => wf_json_seq(xs),
        JsonData::Obj(ps) => wf_json_pairs(ps),
    }
}

pub open spec fn wf_json_seq(s: Seq<JsonData>) -> bool
    decreases s,
{
    if s.len() == 0 {
        true
    } else {
        wf_json(s[0]) && wf_json_seq(s.subrange(1, s.len() as int))
    }
}

pub open spec fn wf_json_pairs(s: Seq<(Seq<char>, JsonData)>) -> bool
    decreases s,
{
    if s.len() == 0 {
        true
    } else {
        wf_json(s[0].1) && wf_json_pairs(s.subrange(1, s.len() as int))
    }
}

// ---------------------------------------------------------------------------
// The printer, as a specification
// ---------------------------------------------------------------------------

/// The text a character contributes inside a string literal.
pub open spec fn esc_char(c: char) -> Seq<char> {
    if c == '"' {
        seq!['\\', '"']
    } else if c == '\\' {
        seq!['\\', '\\']
    } else if c == '\n' {
        seq!['\\', 'n']
    } else if c == '\r' {
        seq!['\\', 'r']
    } else if c == '\t' {
        seq!['\\', 't']
    } else {
        seq![c]
    }
}

pub open spec fn esc_str(s: Seq<char>) -> Seq<char>
    decreases s.len(),
{
    if s.len() == 0 {
        Seq::empty()
    } else {
        esc_char(s[0]) + esc_str(s.subrange(1, s.len() as int))
    }
}

/// A string literal: the escaped text between two quotes.
pub open spec fn quoted(s: Seq<char>) -> Seq<char> {
    seq!['"'] + esc_str(s) + seq!['"']
}

/// The text form of a tree: compact JSON, no whitespace.
pub open spec fn sp_print(j: JsonData) -> Seq<char>
    decreases j,
{
    match j {
        JsonData::Null => seq!['n', 'u', 'l', 'l'],
        JsonData::Bool(b) => if b {
            seq!['t', 'r', 'u', 'e']
        } else {
            seq!['f', 'a', 'l', 's', 'e']
        },
        JsonData::Num(t) => t,
        JsonData::Str(s) => quoted(s),
        JsonData::Arr(xs) => seq!['['] + sp_print_items(xs) + seq![']'],
        JsonData::Obj(ps) => seq!['{'] + sp_print_members(ps) + seq!['}'],
    }
}

pub open spec fn sp_print_items(xs: Seq<JsonData>) -> Seq<char>
    decreases xs,
{
    if xs.len() == 0 {
        Seq::empty()
    } else if xs.len() == 1 {
        sp_print(xs[0])
    } else {
        sp_print(xs[0]) + seq![','] + sp_print_items(xs.subrange(1, xs.len() as int))
    }
}

pub open spec fn sp_print_members(ps: Seq<(Seq<char>, JsonData)>) -> Seq<char>
    decreases ps,
{
    if ps.len() == 0 {
        Seq::empty()
    } else if ps.len() == 1 {
        quoted(ps[0].0) + seq![':'] + sp_print(ps[0].1)
    } else {
        quoted(ps[0].0) + seq![':'] + sp_print(ps[0].1) + seq![','] + sp_print_members(
            ps.subrange(1, ps.len() as int),
        )
    }
}

pub proof fn lemma_jx_of_seq_subrange(s: Seq<JsonValue>, a: int, b: int)
    requires
        0 <= a <= b <= s.len(),
    ensures
        jx_of_seq(s.subrange(a, b)) == jx_of_seq(s).subrange(a, b),
{
    lemma_jx_of_seq_len(s);
    lemma_jx_of_seq_len(s.subrange(a, b));
    assert forall|i: int| 0 <= i < b - a implies jx_of_seq(s.subrange(a, b))[i] == jx_of_seq(
        s,
    ).subrange(a, b)[i] by {
        lemma_jx_of_seq_index(s.subrange(a, b), i);
        lemma_jx_of_seq_index(s, a + i);
    }
    assert(jx_of_seq(s.subrange(a, b)) =~= jx_of_seq(s).subrange(a, b));
}

pub proof fn lemma_jx_of_pairs_subrange(s: Seq<(String, JsonValue)>, a: int, b: int)
    requires
        0 <= a <= b <= s.len(),
    ensures
        jx_of_pairs(s.subrange(a, b)) == jx_of_pairs(s).subrange(a, b),
{
    lemma_jx_of_pairs_len(s);
    lemma_jx_of_pairs_len(s.subrange(a, b));
    assert forall|i: int| 0 <= i < b - a implies jx_of_pairs(s.subrange(a, b))[i] == jx_of_pairs(
        s,
    ).subrange(a, b)[i] by {
        lemma_jx_of_pairs_index(s.subrange(a, b), i);
        lemma_jx_of_pairs_index(s, a + i);
    }
    assert(jx_of_pairs(s.subrange(a, b)) =~= jx_of_pairs(s).subrange(a, b));
}

/// Two element-wise equal views give the same mapped sequence.
pub proof fn lemma_jx_of_seq_pointwise(a: Seq<JsonValue>, b: Seq<JsonValue>)
    requires
        a.len() == b.len(),
        forall|i: int| 0 <= i < a.len() ==> jx_of(#[trigger] a[i]) == jx_of(b[i]),
    ensures
        jx_of_seq(a) == jx_of_seq(b),
{
    lemma_jx_of_seq_len(a);
    lemma_jx_of_seq_len(b);
    assert forall|i: int| 0 <= i < a.len() implies jx_of_seq(a)[i] == jx_of_seq(b)[i] by {
        lemma_jx_of_seq_index(a, i);
        lemma_jx_of_seq_index(b, i);
    }
    assert(jx_of_seq(a) =~= jx_of_seq(b));
}

pub proof fn lemma_jx_of_pairs_pointwise(a: Seq<(String, JsonValue)>, b: Seq<(String, JsonValue)>)
    requires
        a.len() == b.len(),
        forall|i: int| 0 <= i < a.len() ==> (#[trigger] a[i]).0@ == b[i].0@ && jx_of(a[i].1)
            == jx_of(b[i].1),
    ensures
        jx_of_pairs(a) == jx_of_pairs(b),
{
    lemma_jx_of_pairs_len(a);
    lemma_jx_of_pairs_len(b);
    assert forall|i: int| 0 <= i < a.len() implies jx_of_pairs(a)[i] == jx_of_pairs(b)[i] by {
        lemma_jx_of_pairs_index(a, i);
        lemma_jx_of_pairs_index(b, i);
    }
    assert(jx_of_pairs(a) =~= jx_of_pairs(b));
}

// ---------------------------------------------------------------------------
// The parser, as a specification
// ---------------------------------------------------------------------------

pub open spec fn is_ws(c: char) -> bool {
    c == ' ' || c == '\n' || c == '\r' || c == '\t'
}

/// The first index at or after `i` that does not hold whitespace.
pub open spec fn skip_ws(s: Seq<char>, i: int) -> int
    decreases s.len() - i,
{
    if 0 <= i < s.len() && is_ws(s[i]) {
        skip_ws(s, i + 1)
    } else {
        i
    }
}

pub open spec fn is_num_char(c: char) -> bool {
    is_digit(c) || c == '-' || c == '+' || c == '.' || c == 'e' || c == 'E'
}

/// The first index at or after `i` that does not hold a number character.
pub open spec fn scan_num(s: Seq<char>, i: int) -> int
    decreases s.len() - i,
{
    if 0 <= i < s.len() && is_num_char(s[i]) {
        scan_num(s, i + 1)
    } else {
        i
    }
}

pub broadcast proof fn lemma_scan_digits_bounds(s: Seq<char>, i: int)
    requires
        0 <= i <= s.len(),
    ensures
        i <= #[trigger] scan_digits(s, i) <= s.len(),
    decreases s.len() - i,
{
    if i < s.len() && is_digit(s[i]) {
        lemma_scan_digits_bounds(s, i + 1);
    }
}

pub open spec fn is_hex_digit(c: char) -> bool {
    is_digit(c) || ('a' <= c && c <= 'f') || ('A' <= c && c <= 'F')
}

/// The value of one hexadecimal digit character.
pub open spec fn hex_val(c: char) -> int {
    if is_digit(c) {
        c as int - 48
    } else if 'a' <= c && c <= 'f' {
        c as int - 87
    } else {
        c as int - 55
    }
}

/// Whether a scalar value names a character: not a surrogate, in range.
pub open spec fn is_scalar(v: int) -> bool {
    (0 <= v < 0xD800) || (0xE000 <= v <= 0x10FFFF)
}

/// The character a single-character escape stands for.
pub open spec fn unescape(c: char) -> Option<char> {
    if c == '"' {
        Some('"')
    } else if c == '\\' {
        Some('\\')
    } else if c == '/' {
        Some('/')
    } else if c == 'n' {
        Some('\n')
    } else if c == 't' {
        Some('\t')
    } else if c == 'r' {
        Some('\r')
    } else if c == 'b' {
        Some('\u{0008}')
    } else if c == 'f' {
        Some('\u{000C}')
    } else {
        None
    }
}

/// Reads a string body starting just after the opening quote; yields the
/// decoded characters and the index just after the closing quote.  The
/// `\uXXXX` form is read for plain scalar values; a surrogate pair is not
/// combined, so such a text fails to parse.
pub open spec fn sp_string(s: Seq<char>, i: int) -> Option<(Seq<char>, int)>
    decreases s.len() - i,
{
    if !(0 <= i < s.len()) {
        None
    } else if s[i] == '"' {
        Some((Seq::empty(), i + 1))
    } else if s[i] == '\\' {
        if i + 1 >= s.len() {
            None
        } else if s[i + 1] == 'u' {
            if i + 6 <= s.len() && is_hex_digit(s[i + 2]) && is_hex_digit(s[i + 3]) && is_hex_digit(
                s[i + 4],
            ) && is_hex_digit(s[i + 5]) {
                let v = hex_val(s[i + 2]) * 4096 + hex_val(s[i + 3]) * 256 + hex_val(s[i + 4]) * 16
                    + hex_val(s[i + 5]);
                if is_scalar(v) {
                    match sp_string(s, i + 6) {
                        None => None,
                        Some((t, j)) => Some((seq![v as char] + t, j)),
                    }
                } else {
                    None
                }
            } else {
                None
            }
        } else {
            match unescape(s[i + 1]) {
                None => None,
                Some(d) => match sp_string(s, i + 2) {
                    None => None,
                    Some((t, j)) => Some((seq![d] + t, j)),
                },
            }
        }
    } else {
        match sp_string(s, i + 1) {
            None => None,
            Some((t, j)) => Some((seq![s[i]] + t, j)),
        }
    }
}

pub broadcast proof fn lemma_sp_string_bounds(s: Seq<char>, i: int)
    requires
        0 <= i <= s.len(),
    ensures
        (#[trigger] sp_string(s, i)) matches Some(p) ==> i < p.1 <= s.len(),
    decreases s.len() - i,
{
    if 0 <= i < s.len() {
        if s[i] == '\\' {
            if i + 2 <= s.len() {
                lemma_sp_string_bounds(s, i + 2);
            }
            if i + 6 <= s.len() {
                lemma_sp_string_bounds(s, i + 6);
            }
        } else if s[i] != '"' {
            lemma_sp_string_bounds(s, i + 1);
        }
    }
}

/// Reads one JSON value starting at `i`, after optional whitespace; yields
/// the value and the index just after it.  The fuel bounds the nesting the
/// parser will enter; one unit is spent for each `[`, `{` and `,`.
pub open spec fn sp_value(s: Seq<char>, i: int, fuel: nat) -> Option<(JsonData, int)>
    decreases fuel, 0int,
{
    if fuel == 0 {
        None
    } else {
        let i = skip_ws(s, i);
        if !(0 <= i < s.len()) {
            None
        } else if s[i] == 'n' {
            if i + 4 <= s.len() && s[i + 1] == 'u' && s[i + 2] == 'l' && s[i + 3] == 'l' {
                Some((JsonData::Null, i + 4))
            } else {
                None
            }
        } else if s[i] == 't' {
            if i + 4 <= s.len() && s[i + 1] == 'r' && s[i + 2] == 'u' && s[i + 3] == 'e' {
                Some((JsonData::Bool(true), i + 4))
            } else {
                None
            }
        } else if s[i] == 'f' {
            if i + 5 <= s.len() && s[i + 1] == 'a' && s[i + 2] == 'l' && s[i + 3] == 's' && s[i + 4]
                == 'e' {
                Some((JsonData::Bool(false), i + 5))
            } else {
                None
            }
        } else if s[i] == '"' {
            match sp_string(s, i + 1) {
                None => None,
                Some((t, j)) => Some((JsonData::Str(t), j)),
            }
        } else if s[i] == '-' || is_digit(s[i]) {
            let j = scan_num(s, i);
            if is_number_token(s.subrange(i, j)) {
                Some((JsonData::Num(s.subrange(i, j)), j))
            } else {
                None
            }
        } else if s[i] == '[' {
            let k = skip_ws(s, i + 1);
            if k < s.len() && s[k] == ']' {
                Some((JsonData::Arr(Seq::empty()), k + 1))
            } else {
                match sp_items(s, i + 1, (fuel - 1) as nat) {
                    None => None,
                    Some((xs, j)) => Some((JsonData::Arr(xs), j)),
                }
            }
        } else if s[i] == '{' {
            let k = skip_ws(s, i + 1);
            if k < s.len() && s[k] == '}' {
                Some((JsonData::Obj(Seq::empty()), k + 1))
            } else {
                match sp_members(s, i + 1, (fuel - 1) as nat) {
                    None => None,
                    Some((ps, j)) => Some((JsonData::Obj(ps), j)),
                }
            }
        } else {
            None
        }
    }
}

/// Reads the elements of a non-empty array, up to and including the `]`.
pub open spec fn sp_items(s: Seq<char>, i: int, fuel: nat) -> Option<(Seq<JsonData>, int)>
    decreases fuel, 1int,
{
    if fuel == 0 {
        None
    } else {
        match sp_value(s, i, fuel) {
            None => None,
            Some((v, j)) => {
                let j2 = skip_ws(s, j);
                if j2 < s.len() && s[j2] == ',' {
                    match sp_items(s, j2 + 1, (fuel - 1) as nat) {
                        None => None,
                        Some((vs, k)) => Some((seq![v] + vs, k)),
                    }
                } else if j2 < s.len() && s[j2] == ']' {
                    Some((seq![v], j2 + 1))
                } else {
                    None
                }
            },
        }
    }
}

/// Reads the members of a non-empty object, up to and including the `}`.
pub open spec fn sp_members(s: Seq<char>, i: int, fuel: nat) -> Option<
    (Seq<(Seq<char>, JsonData)>, int),
>
    decreases fuel, 1int,
{
    if fuel == 0 {
        None
    } else {
        let i2 = skip_ws(s, i);
        if !(0 <= i2 < s.len() && s[i2] == '"') {
            None
        } else {
            match sp_string(s, i2 + 1) {
                None => None,
                Some((key, j)) => {
                    let j2 = skip_ws(s, j);
                    if !(j2 < s.len() && s[j2] == ':') {
                        None
                    } else {
                        match sp_value(s, j2 + 1, fuel) {
                            None => None,
                            Some((v, k)) => {
                                let k2 = skip_ws(s, k);
                                if k2 < s.len() && s[k2] == ',' {
                                    match sp_members(s, k2 + 1, (fuel - 1) as nat) {
                                        None => None,
                                        Some((ps, m)) => Some((seq![(key, v)] + ps, m)),
                                    }
                                } else if k2 < s.len() && s[k2] == '}' {
                                    Some((seq![(key, v)], k2 + 1))
                                } else {
                                    None
                                }
                            },
                        }
                    }
                },
            }
        }
    }
}

/// The tree a complete text denotes: one value, with nothing but whitespace
/// around it.
pub open spec fn sp_parse(s: Seq<char>) -> Option<JsonData> {
    if s.len() < usize::MAX {
        match sp_value(s, 0, (s.len() + 1) as nat) {
            None => None,
            Some((v, j)) => if skip_ws(s, j) == s.len() {
                Some(v)
            } else {
                None
            },
        }
    } else {
        None
    }
}

/// Appending one member extends the mapped members by its view.
pub proof fn lemma_jx_of_pairs_snoc(s: Seq<(String, JsonValue)>, p: (String, JsonValue))
    ensures
        jx_of_pairs(s.push(p)) == jx_of_pairs(s) + seq![(p.0@, jx_of(p.1))],
{
    lemma_jx_of_pairs_len(s);
    lemma_jx_of_pairs_len(s.push(p));
    assert forall|i: int| 0 <= i < s.len() + 1 implies jx_of_pairs(s.push(p))[i] == (jx_of_pairs(s)
        + seq![(p.0@, jx_of(p.1))])[i] by {
        lemma_jx_of_pairs_index(s.push(p), i);
        if i < s.len() {
            lemma_jx_of_pairs_index(s, i);
        }
    }
    assert(jx_of_pairs(s.push(p)) =~= jx_of_pairs(s) + seq![(p.0@, jx_of(p.1))]);
}

// ---------------------------------------------------------------------------
// Small string building blocks
// ---------------------------------------------------------------------------

/// Relies on String::push: appends the given character to the end of the string.
#[verifier::external_body]
pub fn push_char(s: &mut String, c: char)
    ensures
        final(s)@ == old(s)@.push(c),
{
    s.push(c);
}

/// Builds the string holding exactly the given characters.
pub fn chars_to_string(cs: &Vec<char>) -> (r: String)
    ensures
        r@ == cs@,
{
    let mut r = String::new();
    let mut i: usize = 0;
    while i < cs.len()
        invariant
            0 <= i <= cs.len(),
            r@ == cs@.subrange(0, i as int),
        decreases cs.len() - i,
    {
        push_char(&mut r, cs[i]);
        assert(cs@.subrange(0, i as int).push(cs@[i as int]) =~= cs@.subrange(0, i + 1));
        i = i + 1;
    }
    assert(cs@.subrange(0, cs@.len() as int) =~= cs@);
    r
}

/// The characters of a string, in order.
pub fn str_chars(s: &str) -> (r: Vec<char>)
    ensures
        r@ == s@,
{
    let n = s.unicode_len();
    let mut r: Vec<char> = Vec::new();
    let mut i: usize = 0;
    while i < n
        invariant
            0 <= i <= n,
            n == s@.len(),
            r@ == s@.subrange(0, i as int),
        decreases n - i,
    {
        r.push(s.get_char(i));
        assert(s@.subrange(0, i as int).push(s@[i as int]) =~= s@.subrange(0, i + 1));
        i = i + 1;
    }
    assert(s@.subrange(0, s@.len() as int) =~= s@);
    r
}

// ---------------------------------------------------------------------------
// The executable printer
// ---------------------------------------------------------------------------

fn emit_raw(s: &str, out: &mut Vec<char>)
    ensures
        final(out)@ == old(out)@ + s@,
{
    let n = s.unicode_len();
    let mut i: usize = 0;
    while i < n
        invariant
            0 <= i <= n,
            n == s@.len(),
            out@ == old(out)@ + s@.subrange(0, i as int),
        decreases n - i,
    {
        out.push(s.get_char(i));
        assert(old(out)@ + s@.subrange(0, i as int).push(s@[i as int]) =~= old(out)@ + s@.subrange(
            0,
            i + 1,
        ));
        i = i + 1;
    }
    assert(old(out)@ + s@.subrange(0, s@.len() as int) =~= old(out)@ + s@);
}

proof fn lemma_esc_str_snoc(s: Seq<char>, i: int)
    requires
        0 <= i < s.len(),
    ensures
        esc_str(s.subrange(0, i + 1)) == esc_str(s.subrange(0, i)) + esc_char(s[i]),
    decreases i,
{
    if i == 0 {
        let a = s.subrange(0, 1);
        assert(a.len() == 1 && a[0] == s[0]);
        assert(a.subrange(1, 1) =~= Seq::<char>::empty());
        assert(esc_str(a) == esc_char(a[0]) + esc_str(a.subrange(1, 1)));
        assert(esc_char(s[0]) + Seq::<char>::empty() =~= esc_char(s[0]));
        assert(esc_str(s.subrange(0, 0)).len() == 0);
        assert(esc_str(s.subrange(0, 0)) + esc_char(s[0]) =~= esc_char(s[0]));
    } else {
        let a = s.subrange(0, i + 1);
        let b = s.subrange(0, i);
        assert(a.subrange(1, a.len() as int) =~= s.subrange(1, s.len() as int).subrange(0, i));
        assert(b.subrange(1, b.len() as int) =~= s.subrange(1, s.len() as int).subrange(0, i - 1));
        lemma_esc_str_snoc(s.subrange(1, s.len() as int), i - 1);
        assert(esc_str(a) =~= esc_str(b) + esc_char(s[i]));
    }
}

fn emit_escaped(s: &str, out: &mut Vec<char>)
    ensures
        final(out)@ == old(out)@ + esc_str(s@),
{
    let n = s.unicode_len();
    let mut i: usize = 0;
    while i < n
        invariant
            0 <= i <= n,
            n == s@.len(),
            out@ == old(out)@ + esc_str(s@.subrange(0, i as int)),
        decreases n - i,
    {
        let c = s.get_char(i);
        if c == '"' {
            out.push('\\');
            out.push('"');
        } else if c == '\\' {
            out.push('\\');
            out.push('\\');
        } else if c == '\n' {
            out.push('\\');
            out.push('n');
        } else if c == '\r' {
            out.push('\\');
            out.push('r');
        } else if c == '\t' {
            out.push('\\');
            out.push('t');
        } else {
            out.push(c);
        }
        proof {
            lemma_esc_str_snoc(s@, i as int);
            assert(out@ =~= old(out)@ + esc_str(s@.subrange(0, i + 1)));
        }
        i = i + 1;
    }
    assert(s@.subrange(0, s@.len() as int) =~= s@);
}

/// Writes the text form of `v` after the characters already in `out`.
pub fn emit_json(v: &JsonValue, out: &mut Vec<char>)
    ensures
        final(out)@ == old(out)@ + sp_print(v@),
    decreases *v, 0int,
{
    match v {
        JsonValue::Null => {
            out.push('n');
            out.push('u');
            out.push('l');
            out.push('l');
            assert(out@ =~= old(out)@ + sp_print(v@));
        },
        JsonValue::Bool(b) => {
            if *b {
                out.push('t');
                out.push('r');
                out.push('u');
                out.push('e');
            } else {
                out.push('f');
                out.push('a');
                out.push('l');
                out.push('s');
                out.push('e');
            }
            assert(out@ =~= old(out)@ + sp_print(v@));
        },
        JsonValue::Num(t) => {
            emit_raw(t.as_str(), out);
        },
        JsonValue::Str(s) => {
            out.push('"');
            emit_escaped(s.as_str(), out);
            out.push('"');
            assert(out@ =~= old(out)@ + sp_print(v@));
        },
        JsonValue::Arr(xs) => {
            out.push('[');
            emit_items(xs, 0, out);
            out.push(']');
            proof {
                assert(xs@.subrange(0, xs@.len() as int) =~= xs@);
                assert(out@ =~= old(out)@ + sp_print(v@));
            }
        },
        JsonValue::Obj(ps) => {
            out.push('{');
            emit_members(ps, 0, out);
            out.push('}');
            proof {
                assert(ps@.subrange(0, ps@.len() as int) =~= ps@);
                assert(out@ =~= old(out)@ + sp_print(v@));
            }
        },
    }
}

fn emit_items(xs: &Vec<JsonValue>, k: usize, out: &mut Vec<char>)
    requires
        k <= xs@.len(),
    ensures
        final(out)@ == old(out)@ + sp_print_items(
            jx_of_seq(xs@.subrange(k as int, xs@.len() as int)),
        ),
    decreases *xs, xs@.len() - k, 1int,
{
    let n = xs.len();
    let ghost rest = xs@.subrange(k as int, xs@.len() as int);
    proof {
        lemma_jx_of_seq_len(rest);
    }
    if k == n {
        assert(out@ =~= old(out)@ + sp_print_items(jx_of_seq(rest)));
    } else {
        emit_json(&xs[k], out);
        proof {
            lemma_jx_of_seq_index(rest, 0);
        }
        if k + 1 < n {
            out.push(',');
            emit_items(xs, k + 1, out);
            proof {
                lemma_jx_of_seq_subrange(rest, 1, rest.len() as int);
                assert(rest.subrange(1, rest.len() as int) =~= xs@.subrange(
                    k + 1,
                    xs@.len() as int,
                ));
                assert(out@ =~= old(out)@ + sp_print_items(jx_of_seq(rest)));
            }
        } else {
            assert(out@ =~= old(out)@ + sp_print_items(jx_of_seq(rest)));
        }
    }
}

fn emit_members(ps: &Vec<(String, JsonValue)>, k: usize, out: &mut Vec<char>)
    requires
        k <= ps@.len(),
    ensures
        final(out)@ == old(out)@ + sp_print_members(
            jx_of_pairs(ps@.subrange(k as int, ps@.len() as int)),
        ),
    decreases *ps, ps@.len() - k, 1int,
{
    let n = ps.len();
    let ghost rest = ps@.subrange(k as int, ps@.len() as int);
    proof {
        lemma_jx_of_pairs_len(rest);
    }
    if k == n {
        assert(out@ =~= old(out)@ + sp_print_members(jx_of_pairs(rest)));
    } else {
        out.push('"');
        emit_escaped(ps[k].0.as_str(), out);
        out.push('"');
        out.push(':');
        emit_json(&ps[k].1, out);
        proof {
            lemma_jx_of_pairs_index(rest, 0);
        }
        if k + 1 < n {
            out.push(',');
            emit_members(ps, k + 1, out);
            proof {
                lemma_jx_of_pairs_subrange(rest, 1, rest.len() as int);
                assert(rest.subrange(1, rest.len() as int) =~= ps@.subrange(
                    k + 1,
                    ps@.len() as int,
                ));
                assert(out@ =~= old(out)@ + sp_print_members(jx_of_pairs(rest)));
            }
        } else {
            assert(out@ =~= old(out)@ + sp_print_members(jx_of_pairs(rest)));
        }
    }
}

/// The compact text form of a document.
pub fn to_text(v: &JsonValue) -> (r: String)
    ensures
        r@ == sp_print(v@),
{
    let mut buf: Vec<char> = Vec::new();
    emit_json(v, &mut buf);
    chars_to_string(&buf)
}

// ---------------------------------------------------------------------------
// Field lookup in objects
// ---------------------------------------------------------------------------

/// The value of the first member named `key` at or after position `i`.
pub open spec fn obj_lookup(ps: Seq<(Seq<char>, JsonData)>, key: Seq<char>, i: int) -> Option<
    JsonData,
>
    decreases ps.len() - i,
{
    if !(0 <= i < ps.len()) {
        None
    } else if ps[i].0 == key {
        Some(ps[i].1)
    } else {
        obj_lookup(ps, key, i + 1)
    }
}

/// The value of the first member named `key`, if any.
pub open spec fn obj_get(ps: Seq<(Seq<char>, JsonData)>, key: Seq<char>) -> Option<JsonData> {
    obj_lookup(ps, key, 0)
}

/// Looks a member up by name.
pub fn get_field<'a>(ps: &'a Vec<(String, JsonValue)>, key: &String) -> (r: Option<&'a JsonValue>)
    ensures
        ({
            let sp = obj_get(jx_of_pairs(ps@), key@);
            match r {
                None => sp is None,
                Some(v) => sp matches Some(q) && jx_of(*v) == q,
            }
        }),
{
    proof {
        lemma_jx_of_pairs_len(ps@);
    }
    let ghost gps = jx_of_pairs(ps@);
    let mut i: usize = 0;
    while i < ps.len()
        invariant
            0 <= i <= ps@.len(),
            gps == jx_of_pairs(ps@),
            gps.len() == ps@.len(),
            obj_lookup(gps, key@, 0) == obj_lookup(gps, key@, i as int),
        decreases ps@.len() - i,
    {
        proof {
            lemma_jx_of_pairs_index(ps@, i as int);
        }
        if ps[i].0.eq(key) {
            return Some(&ps[i].1);
        }
        assert(obj_lookup(gps, key@, i as int) == obj_lookup(gps, key@, i + 1));
        i = i + 1;
    }
    None
}

// ---------------------------------------------------------------------------
// The executable parser
// ---------------------------------------------------------------------------

fn e_skip_ws(s: &Vec<char>, i: usize) -> (r: usize)
    requires
        i <= s@.len(),
    ensures
        r as int == skip_ws(s@, i as int),
        i <= r <= s@.len(),
{
    let mut j = i;
    while j < s.len() && (s[j] == ' ' || s[j] == '\n' || s[j] == '\r' || s[j] == '\t')
        invariant
            i <= j <= s@.len(),
            skip_ws(s@, i as int) == skip_ws(s@, j as int),
        decreases s@.len() - j,
    {
        assert(skip_ws(s@, j as int) == skip_ws(s@, j + 1));
        j = j + 1;
    }
    assert(skip_ws(s@, j as int) == j as int);
    j
}

fn e_scan_num(s: &Vec<char>, i: usize) -> (r: usize)
    requires
        i <= s@.len(),
    ensures
        r as int == scan_num(s@, i as int),
        i <= r <= s@.len(),
{
    let mut j = i;
    while j < s.len() && (('0' <= s[j] && s[j] <= '9') || s[j] == '-' || s[j] == '+' || s[j] == '.'
        || s[j] == 'e' || s[j] == 'E')
        invariant
            i <= j <= s@.len(),
            scan_num(s@, i as int) == scan_num(s@, j as int),
        decreases s@.len() - j,
    {
        assert(scan_num(s@, j as int) == scan_num(s@, j + 1));
        j = j + 1;
    }
    assert(scan_num(s@, j as int) == j as int);
    j
}

fn e_scan_digits(s: &Vec<char>, i: usize) -> (r: usize)
    requires
        i <= s@.len(),
    ensures
        r as int == scan_digits(s@, i as int),
        i <= r <= s@.len(),
{
    let mut j = i;
    while j < s.len() && '0' <= s[j] && s[j] <= '9'
        invariant
            i <= j <= s@.len(),
            scan_digits(s@, i as int) == scan_digits(s@, j as int),
        decreases s@.len() - j,
    {
        assert(scan_digits(s@, j as int) == scan_digits(s@, j + 1));
        j = j + 1;
    }
    assert(scan_digits(s@, j as int) == j as int);
    j
}

/// Whether the characters form a number of the JSON grammar.
pub fn num_token_ok(t: &Vec<char>) -> (r: bool)
    ensures
        r == is_number_token(t@),
{
    let n = t.len();
    let i0: usize = if n > 0 && t[0] == '-' {
        1
    } else {
        0
    };
    let i1 = e_scan_digits(t, i0);
    if !(i1 > i0) {
        return false;
    }
    if t[i0] == '0' && i1 != i0 + 1 {
        return false;
    }
    let mut i2: usize = i1;
    let mut ok: bool = true;
    if i1 < n && t[i1] == '.' {
        let d = e_scan_digits(t, i1 + 1);
        i2 = d;
        if !(d > i1 + 1) {
            ok = false;
        }
    }
    let mut i3: usize = i2;
    if ok && i2 < n && (t[i2] == 'e' || t[i2] == 'E') {
        let j0: usize = if i2 + 1 < n && (t[i2 + 1] == '+' || t[i2 + 1] == '-') {
            i2 + 2
        } else {
            i2 + 1
        };
        let d = e_scan_digits(t, j0);
        i3 = d;
        if !(d > j0) {
            ok = false;
        }
    }
    ok && i3 == n
}

/// Relies on char::from_u32: the character of a scalar value; none for
/// surrogates and values beyond the last code point.
#[verifier::external_body]
fn char_of_u32(v: u32) -> (r: Option<char>)
    ensures
        r == if is_scalar(v as int) {
            Some(v as char)
        } else {
            None::<char>
        },
{
    char::from_u32(v)
}

fn e_hex(c: char) -> (r: Option<u32>)
    ensures
        r is Some <==> is_hex_digit(c),
        r matches Some(v) ==> v as int == hex_val(c) && v < 16,
{
    if '0' <= c && c <= '9' {
        Some(c as u32 - 48)
    } else if 'a' <= c && c <= 'f' {
        Some(c as u32 - 87)
    } else if 'A' <= c && c <= 'F' {
        Some(c as u32 - 55)
    } else {
        None
    }
}

fn e_unescape(c: char) -> (r: Option<char>)
    ensures
        r == unescape(c),
{
    if c == '"' {
        Some('"')
    } else if c == '\\' {
        Some('\\')
    } else if c == '/' {
        Some('/')
    } else if c == 'n' {
        Some('\n')
    } else if c == 't' {
        Some('\t')
    } else if c == 'r' {
        Some('\r')
    } else if c == 'b' {
        Some('\u{0008}')
    } else if c == 'f' {
        Some('\u{000C}')
    } else {
        None
    }
}

fn e_string(s: &Vec<char>, i: usize) -> (r: Option<(String, usize)>)
    requires
        i <= s@.len(),
    ensures
        ({
            let sp = sp_string(s@, i as int);
            match r {
                None => sp is None,
                Some(p) => sp matches Some(q) && p.0@ == q.0 && p.1 as int == q.1 && i < p.1
                    <= s@.len(),
            }
        }),
{
    let ghost sp0 = sp_string(s@, i as int);
    let mut acc: Vec<char> = Vec::new();
    let mut p = i;
    loop
        invariant
            i <= p <= s@.len(),
            sp0 == sp_string(s@, i as int),
            sp0 == match sp_string(s@, p as int) {
                None => None::<(Seq<char>, int)>,
                Some((t, j)) => Some((acc@ + t, j)),
            },
        decreases s@.len() - p,
    {
        if p >= s.len() {
            return None;
        }
        let c = s[p];
        if c == '"' {
            proof {
                assert(sp_string(s@, p as int) == Some((Seq::<char>::empty(), p + 1 as int)));
                assert(acc@ + Seq::<char>::empty() =~= acc@);
                lemma_sp_string_bounds(s@, i as int);
            }
            let out = chars_to_string(&acc);
            return Some((out, p + 1));
        }
        if c == '\\' {
            if p + 1 >= s.len() {
                return None;
            }
            let d = s[p + 1];
            if d == 'u' {
                if s.len() - p < 6 {
                    return None;
                }
                let h2 = match e_hex(s[p + 2]) {
                    Some(h) => h,
                    None => {
                        return None;
                    },
                };
                let h3 = match e_hex(s[p + 3]) {
                    Some(h) => h,
                    None => {
                        return None;
                    },
                };
                let h4 = match e_hex(s[p + 4]) {
                    Some(h) => h,
                    None => {
                        return None;
                    },
                };
                let h5 = match e_hex(s[p + 5]) {
                    Some(h) => h,
                    None => {
                        return None;
                    },
                };
                let v: u32 = h2 * 4096 + h3 * 256 + h4 * 16 + h5;
                match char_of_u32(v) {
                    None => {
                        return None;
                    },
                    Some(u) => {
                        acc.push(u);
                        proof {
                            let sp2 = sp_string(s@, p + 6);
                            if sp2 is Some {
                                let t = (sp2->0).0;
                                assert((acc@.drop_last() + (seq![u] + t)) =~= (acc@ + t));
                            }
                        }
                        p = p + 6;
                    },
                }
            } else {
                match e_unescape(d) {
                    None => {
                        return None;
                    },
                    Some(u) => {
                        acc.push(u);
                        proof {
                            let sp2 = sp_string(s@, p + 2);
                            if sp2 is Some {
                                let t = (sp2->0).0;
                                assert((acc@.drop_last() + (seq![u] + t)) =~= (acc@ + t));
                            }
                        }
                        p = p + 2;
                    },
                }
            }
        } else {
            acc.push(c);
            proof {
                let sp2 = sp_string(s@, p + 1);
                if sp2 is Some {
                    let t = (sp2->0).0;
                    assert((acc@.drop_last() + (seq![c] + t)) =~= (acc@ + t));
                }
            }
            p = p + 1;
        }
    }
}

fn p_value(s: &Vec<char>, i: usize, fuel: usize) -> (r: Option<(JsonValue, usize)>)
    requires
        i <= s@.len(),
    ensures
        ({
            let sp = sp_value(s@, i as int, fuel as nat);
            match r {
                None => sp is None,
                Some(p) => sp matches Some(q) && jx_of(p.0) == q.0 && p.1 as int == q.1 && p.1
                    <= s@.len(),
            }
        }),
    decreases fuel, 0int,
{
    if fuel == 0 {
        return None;
    }
    let i = e_skip_ws(s, i);
    if i >= s.len() {
        return None;
    }
    let c = s[i];
    if c == 'n' {
        if s.len() - i >= 4 && s[i + 1] == 'u' && s[i + 2] == 'l' && s[i + 3] == 'l' {
            Some((JsonValue::Null, i + 4))
        } else {
            None
        }
    } else if c == 't' {
        if s.len() - i >= 4 && s[i + 1] == 'r' && s[i + 2] == 'u' && s[i + 3] == 'e' {
            Some((JsonValue::Bool(true), i + 4))
        } else {
            None
        }
    } else if c == 'f' {
        if s.len() - i >= 5 && s[i + 1] == 'a' && s[i + 2] == 'l' && s[i + 3] == 's' && s[i + 4]
            == 'e' {
            Some((JsonValue::Bool(false), i + 5))
        } else {
            None
        }
    } else if c == '"' {
        match e_string(s, i + 1) {
            None => None,
            Some((t, j)) => Some((JsonValue::Str(t), j)),
        }
    } else if c == '-' || ('0' <= c && c <= '9') {
        let j = e_scan_num(s, i);
        let mut tok: Vec<char> = Vec::new();
        let mut k = i;
        while k < j
            invariant
                i <= k <= j <= s@.len(),
                tok@ == s@.subrange(i as int, k as int),
            decreases j - k,
        {
            tok.push(s[k]);
            assert(s@.subrange(i as int, k as int).push(s@[k as int]) =~= s@.subrange(
                i as int,
                k + 1,
            ));
            k = k + 1;
        }
        if num_token_ok(&tok) {
            Some((JsonValue::Num(chars_to_string(&tok)), j))
        } else {
            None
        }
    } else if c == '[' {
        let k = e_skip_ws(s, i + 1);
        if k < s.len() && s[k] == ']' {
            let vs: Vec<JsonValue> = Vec::new();
            proof {
                assert(jx_of_seq(vs@) =~= Seq::<JsonData>::empty());
            }
            Some((JsonValue::Arr(vs), k + 1))
        } else {
            match p_items(s, i + 1, fuel - 1) {
                None => None,
                Some((xs, j)) => Some((JsonValue::Arr(xs), j)),
            }
        }
    } else if c == '{' {
        let k = e_skip_ws(s, i + 1);
        if k < s.len() && s[k] == '}' {
            let ps: Vec<(String, JsonValue)> = Vec::new();
            proof {
                assert(jx_of_pairs(ps@) =~= Seq::<(Seq<char>, JsonData)>::empty());
            }
            Some((JsonValue::Obj(ps), k + 1))
        } else {
            match p_members(s, i + 1, fuel - 1) {
                None => None,
                Some((ps, j)) => Some((JsonValue::Obj(ps), j)),
            }
        }
    } else {
        None
    }
}

fn p_items(s: &Vec<char>, i: usize, fuel: usize) -> (r: Option<(Vec<JsonValue>, usize)>)
    requires
        i <= s@.len(),
    ensures
        ({
            let sp = sp_items(s@, i as int, fuel as nat);
            match r {
                None => sp is None,
                Some(p) => sp matches Some(q) && jx_of_seq(p.0@) == q.0 && p.1 as int == q.1 && p.1
                    <= s@.len(),
            }
        }),
    decreases fuel, 1int,
{
    if fuel == 0 {
        return None;
    }
    match p_value(s, i, fuel) {
        None => None,
        Some((v, j)) => {
            let j2 = e_skip_ws(s, j);
            if j2 < s.len() && s[j2] == ',' {
                match p_items(s, j2 + 1, fuel - 1) {
                    None => None,
                    Some((mut vs, k)) => {
                        let ghost old_vs = vs@;
                        vs.insert(0, v);
                        proof {
                            assert(vs@ =~= seq![v] + old_vs);
                            lemma_jx_of_seq_len(vs@);
                            assert(vs@.subrange(1, vs@.len() as int) =~= old_vs);
                            assert(jx_of_seq(vs@) =~= seq![jx_of(v)] + jx_of_seq(old_vs));
                        }
                        Some((vs, k))
                    },
                }
            } else if j2 < s.len() && s[j2] == ']' {
                let mut vs: Vec<JsonValue> = Vec::new();
                vs.push(v);
                proof {
                    let e = vs@.subrange(1, vs@.len() as int);
                    assert(e =~= Seq::<JsonValue>::empty());
                    assert(jx_of_seq(e) == Seq::<JsonData>::empty());
                    assert(vs@[0] == v);
                    assert(jx_of_seq(vs@) == seq![jx_of(vs@[0])] + jx_of_seq(e));
                    assert(seq![jx_of(v)] + Seq::<JsonData>::empty() =~= seq![jx_of(v)]);
                }
                Some((vs, j2 + 1))
            } else {
                None
            }
        },
    }
}

fn p_members(s: &Vec<char>, i: usize, fuel: usize) -> (r: Option<(Vec<(String, JsonValue)>, usize)>)
    requires
        i <= s@.len(),
    ensures
        ({
            let sp = sp_members(s@, i as int, fuel as nat);
            match r {
                None => sp is None,
                Some(p) => sp matches Some(q) && jx_of_pairs(p.0@) == q.0 && p.1 as int == q.1
                    && p.1 <= s@.len(),
            }
        }),
    decreases fuel, 1int,
{
    if fuel == 0 {
        return None;
    }
    let i2 = e_skip_ws(s, i);
    if !(i2 < s.len() && s[i2] == '"') {
        return None;
    }
    match e_string(s, i2 + 1) {
        None => None,
        Some((key, j)) => {
            let j2 = e_skip_ws(s, j);
            if !(j2 < s.len() && s[j2] == ':') {
                return None;
            }
            match p_value(s, j2 + 1, fuel) {
                None => None,
                Some((v, k)) => {
                    let k2 = e_skip_ws(s, k);
                    if k2 < s.len() && s[k2] == ',' {
                        match p_members(s, k2 + 1, fuel - 1) {
                            None => None,
                            Some((mut ps, m)) => {
                                let ghost old_ps = ps@;
                                ps.insert(0, (key, v));
                                proof {
                                    assert(ps@ =~= seq![(key, v)] + old_ps);
                                    lemma_jx_of_pairs_len(ps@);
                                    assert(ps@.subrange(1, ps@.len() as int) =~= old_ps);
                                    assert(jx_of_pairs(ps@) =~= seq![(key@, jx_of(v))]
                                        + jx_of_pairs(old_ps));
                                }
                                Some((ps, m))
                            },
                        }
                    } else if k2 < s.len() && s[k2] == '}' {
                        let mut ps: Vec<(String, JsonValue)> = Vec::new();
                        ps.push((key, v));
                        proof {
                            let e = ps@.subrange(1, ps@.len() as int);
                            assert(e =~= Seq::<(String, JsonValue)>::empty());
                            assert(jx_of_pairs(e) == Seq::<(Seq<char>, JsonData)>::empty());
                            assert(ps@[0] == (key, v));
                            assert(jx_of_pairs(ps@) == seq![(ps@[0].0@, jx_of(ps@[0].1))]
                                + jx_of_pairs(e));
                            assert(seq![(key@, jx_of(v))] + Seq::<(Seq<char>, JsonData)>::empty()
                                =~= seq![(key@, jx_of(v))]);
                        }
                        Some((ps, k2 + 1))
                    } else {
                        None
                    }
                },
            }
        },
    }
}

/// Reads a complete JSON text: one value with only whitespace around it.
///
/// The result is exactly what `sp_parse` denotes for the given characters.
pub fn parse_text(s: &str) -> (r: Option<JsonValue>)
    ensures
        ({
            let sp = sp_parse(s@);
            match r {
                None => sp is None,
                Some(v) => sp matches Some(q) && jx_of(v) == q,
            }
        }),
{
    let cs = str_chars(s);
    parse_chars(&cs)
}

/// Reads a complete JSON text given as characters.
pub fn parse_chars(cs: &Vec<char>) -> (r: Option<JsonValue>)
    ensures
        ({
            let sp = sp_parse(cs@);
            match r {
                None => sp is None,
                Some(v) => sp matches Some(q) && jx_of(v) == q,
            }
        }),
{
    if cs.len() == usize::MAX {
        return None;
    }
    match p_value(cs, 0, cs.len() + 1) {
        None => None,
        Some((v, j)) => {
            let j2 = e_skip_ws(cs, j);
            if j2 == cs.len() {
                Some(v)
            } else {
                None
            }
        },
    }
}

// ---------------------------------------------------------------------------
// The round trip: the parser undoes the printer
// ---------------------------------------------------------------------------

/// The fuel one tree costs the parser.
pub open spec fn nfuel(j: JsonData) -> nat
    decreases j,
{
    match j {
        JsonData::Null => 1,
        JsonData::Bool(_) => 1,
        JsonData::Num(_) => 1,
        JsonData::Str(_) => 1,
        JsonData::Arr(xs) => 1 + nfuel_items(xs),
        JsonData::Obj(ps) => 1 + nfuel_members(ps),
    }
}

pub open spec fn nfuel_items(xs: Seq<JsonData>) -> nat
    decreases xs,
{
    if xs.len() == 0 {
        0
    } else {
        1 + nfuel(xs[0]) + nfuel_items(xs.subrange(1, xs.len() as int))
    }
}

pub open spec fn nfuel_members(ps: Seq<(Seq<char>, JsonData)>) -> nat
    decreases ps,
{
    if ps.len() == 0 {
        0
    } else {
        1 + nfuel(ps[0].1) + nfuel_members(ps.subrange(1, ps.len() as int))
    }
}

/// The printed form always pays for the fuel the parser spends on it.
pub proof fn lemma_nfuel_le_print(j: JsonData)
    requires
        wf_json(j),
    ensures
        nfuel(j) <= sp_print(j).len(),
        sp_print(j).len() >= 1,
    decreases j, 0int,
{
    match j {
        JsonData::Num(t) => {
            assert(scan_digits(t, if t.len() > 0 && t[0] == '-' {
                1int
            } else {
                0int
            }) > 0 ==> t.len() > 0) by {
                if t.len() == 0 {
                    assert(scan_digits(t, 0) == 0);
                }
            }
        },
        JsonData::Arr(xs) => {
            lemma_nfuel_items_le_print(xs);
        },
        JsonData::Obj(ps) => {
            lemma_nfuel_members_le_print(ps);
        },
        _ => {},
    }
}

pub proof fn lemma_nfuel_items_le_print(xs: Seq<JsonData>)
    requires
        wf_json_seq(xs),
    ensures
        nfuel_items(xs) <= sp_print_items(xs).len() + 1,
    decreases xs, 1int,
{
    if xs.len() == 0 {
    } else if xs.len() == 1 {
        lemma_nfuel_le_print(xs[0]);
        assert(xs.subrange(1, xs.len() as int) =~= Seq::<JsonData>::empty());
        assert(nfuel_items(xs) == 1 + nfuel(xs[0]) + nfuel_items(xs.subrange(1, xs.len() as int)));
        assert(nfuel_items(xs.subrange(1, xs.len() as int)) == 0);
        assert(sp_print_items(xs) == sp_print(xs[0]));
    } else {
        lemma_nfuel_le_print(xs[0]);
        lemma_nfuel_items_le_print(xs.subrange(1, xs.len() as int));
        assert(nfuel_items(xs) == 1 + nfuel(xs[0]) + nfuel_items(xs.subrange(1, xs.len() as int)));
        assert(sp_print_items(xs) == sp_print(xs[0]) + seq![','] + sp_print_items(
            xs.subrange(1, xs.len() as int),
        ));
    }
}

pub proof fn lemma_nfuel_members_le_print(ps: Seq<(Seq<char>, JsonData)>)
    requires
        wf_json_pairs(ps),
    ensures
        nfuel_members(ps) <= sp_print_members(ps).len() + 1,
    decreases ps, 1int,
{
    if ps.len() == 0 {
    } else if ps.len() == 1 {
        lemma_nfuel_le_print(ps[0].1);
        assert(ps.subrange(1, ps.len() as int) =~= Seq::<(Seq<char>, JsonData)>::empty());
        assert(nfuel_members(ps) == 1 + nfuel(ps[0].1) + nfuel_members(
            ps.subrange(1, ps.len() as int),
        ));
        assert(nfuel_members(ps.subrange(1, ps.len() as int)) == 0);
        assert(sp_print_members(ps) == quoted(ps[0].0) + seq![':'] + sp_print(ps[0].1));
        assert(quoted(ps[0].0).len() >= 2);
    } else {
        lemma_nfuel_le_print(ps[0].1);
        lemma_nfuel_members_le_print(ps.subrange(1, ps.len() as int));
        assert(nfuel_members(ps) == 1 + nfuel(ps[0].1) + nfuel_members(
            ps.subrange(1, ps.len() as int),
        ));
        assert(sp_print_members(ps) == quoted(ps[0].0) + seq![':'] + sp_print(ps[0].1) + seq![',']
            + sp_print_members(ps.subrange(1, ps.len() as int)));
        assert(quoted(ps[0].0).len() >= 2);
    }
}

/// Every character the digit scanner passes is a digit.
pub proof fn lemma_scan_digits_all(t: Seq<char>, i: int, k: int)
    requires
        0 <= i <= k < scan_digits(t, i),
    ensures
        is_digit(t[k]),
    decreases k - i,
{
    if scan_digits(t, i) > i {
        assert(0 <= i < t.len() && is_digit(t[i]));
        if k > i {
            lemma_scan_digits_all(t, i + 1, k);
        }
    }
}

/// A number token holds number characters only.
pub proof fn lemma_token_chars(t: Seq<char>)
    requires
        is_number_token(t),
    ensures
        t.len() > 0,
        forall|k: int| 0 <= k < t.len() ==> is_num_char(#[trigger] t[k]),
        t[0] == '-' || is_digit(t[0]),
{
    let i0: int = if t.len() > 0 && t[0] == '-' {
        1
    } else {
        0
    };
    let i1 = scan_digits(t, i0);
    lemma_scan_digits_bounds(t, i0);
    let i2 = if i1 < t.len() && t[i1] == '.' {
        scan_digits(t, i1 + 1)
    } else {
        i1
    };
    let j0 = if i2 + 1 < t.len() && (t[i2 + 1] == '+' || t[i2 + 1] == '-') {
        i2 + 2
    } else {
        i2 + 1
    };
    let i3 = if i2 < t.len() && (t[i2] == 'e' || t[i2] == 'E') {
        scan_digits(t, j0)
    } else {
        i2
    };
    if i1 < t.len() && t[i1] == '.' {
        lemma_scan_digits_bounds(t, i1 + 1);
    }
    if i2 < t.len() && (t[i2] == 'e' || t[i2] == 'E') {
        if j0 <= t.len() {
            lemma_scan_digits_bounds(t, j0);
        }
    }
    assert forall|k: int| 0 <= k < t.len() implies is_num_char(#[trigger] t[k]) by {
        if k == 0 && t[0] == '-' {
        } else if i0 <= k < i1 {
            lemma_scan_digits_all(t, i0, k);
        } else if k == i1 && i1 < t.len() && t[i1] == '.' {
        } else if i1 < t.len() && t[i1] == '.' && i1 + 1 <= k < i2 {
            lemma_scan_digits_all(t, i1 + 1, k);
        } else if k == i2 {
        } else if i2 + 1 <= k < j0 {
        } else {
            lemma_scan_digits_all(t, j0, k);
        }
    }
    if t[0] != '-' {
        assert(i1 > 0);
        assert(is_digit(t[0])) by {
            lemma_scan_digits_all(t, 0, 0);
        }
    }
}

/// The number scanner consumes a region of number characters exactly.
pub proof fn lemma_scan_num_region(s: Seq<char>, i: int, e: int)
    requires
        0 <= i <= e <= s.len(),
        forall|k: int| i <= k < e ==> is_num_char(#[trigger] s[k]),
        e == s.len() || !is_num_char(s[e]),
    ensures
        scan_num(s, i) == e,
    decreases e - i,
{
    if i < e {
        lemma_scan_num_region(s, i + 1, e);
    }
}

/// Reading a printed string literal body yields the original characters.
pub proof fn lemma_string_round_trip(t: Seq<char>, s: Seq<char>, i: int)
    requires
        0 <= i,
        i + esc_str(t).len() + 1 <= s.len(),
        forall|k: int| 0 <= k < esc_str(t).len() ==> s[i + k] == #[trigger] esc_str(t)[k],
        s[i + esc_str(t).len()] == '"',
    ensures
        sp_string(s, i) == Some((t, i + esc_str(t).len() + 1)),
    decreases t.len(),
{
    if t.len() == 0 {
        assert(esc_str(t).len() == 0);
        assert(s[i] == '"');
    } else {
        let c = t[0];
        let rest = t.subrange(1, t.len() as int);
        let ec = esc_char(c);
        let er = esc_str(rest);
        assert(esc_str(t) == ec + er);
        assert forall|k: int| 0 <= k < er.len() implies s[(i + ec.len()) + k] == #[trigger] er[k] by {
            assert(esc_str(t)[ec.len() + k] == er[k]);
            assert(s[i + (ec.len() + k)] == esc_str(t)[ec.len() + k]);
        }
        assert(s[(i + ec.len()) + er.len()] == '"') by {
            assert(i + ec.len() + er.len() == i + esc_str(t).len());
        }
        lemma_string_round_trip(rest, s, i + ec.len());
        if c == '"' || c == '\\' || c == '\n' || c == '\r' || c == '\t' {
            assert(ec.len() == 2);
            assert(s[i + 0] == esc_str(t)[0]);
            assert(esc_str(t)[0] == ec[0]);
            assert(s[i] == '\\');
            assert(s[i + 1] == esc_str(t)[1]);
            assert(esc_str(t)[1] == ec[1]);
            assert(s[i + 1] == ec[1]);
            assert(unescape(ec[1]) == Some(c));
            assert(sp_string(s, i) == Some((seq![c] + rest, i + esc_str(t).len() + 1)));
            assert(seq![c] + rest =~= t);
        } else {
            assert(ec.len() == 1);
            assert(s[i + 0] == esc_str(t)[0]);
            assert(esc_str(t)[0] == ec[0]);
            assert(s[i] == c);
            assert(s[i] != '"' && s[i] != '\\');
            assert(sp_string(s, i) == Some((seq![c] + rest, i + esc_str(t).len() + 1)));
            assert(seq![c] + rest =~= t);
        }
    }
}

/// The first character of a printed tree is never whitespace nor a closing
/// or separating character.
pub proof fn lemma_print_head(j: JsonData)
    requires
        wf_json(j),
    ensures
        sp_print(j).len() >= 1,
        !is_ws(sp_print(j)[0]),
        sp_print(j)[0] != ']',
        sp_print(j)[0] != '}',
        sp_print(j)[0] != ',',
{
    lemma_nfuel_le_print(j);
    match j {
        JsonData::Num(t) => {
            lemma_token_chars(t);
            if t[0] != '-' {
                assert(is_digit(t[0]));
            }
        },
        JsonData::Str(t) => {
            assert(sp_print(j)[0] == '"');
        },
        _ => {},
    }
}

pub proof fn lemma_value_round_trip(j: JsonData, s: Seq<char>, i: int, fuel: nat)
    requires
        wf_json(j),
        0 <= i,
        i + sp_print(j).len() <= s.len(),
        forall|k: int| 0 <= k < sp_print(j).len() ==> s[i + k] == #[trigger] sp_print(j)[k],
        fuel >= nfuel(j),
        j is Num ==> i + sp_print(j).len() == s.len() || !is_num_char(s[i + sp_print(j).len()]),
    ensures
        sp_value(s, i, fuel) == Some((j, i + sp_print(j).len())),
    decreases j, 0int,
{
    let p = sp_print(j);
    lemma_print_head(j);
    assert(s[i + 0] == p[0]);
    assert(skip_ws(s, i) == i);
    match j {
        JsonData::Null => {
            assert(s[i + 1] == p[1] && s[i + 2] == p[2] && s[i + 3] == p[3]);
        },
        JsonData::Bool(b) => {
            if b {
                assert(s[i + 1] == p[1] && s[i + 2] == p[2] && s[i + 3] == p[3]);
            } else {
                assert(s[i + 1] == p[1] && s[i + 2] == p[2] && s[i + 3] == p[3] && s[i + 4]
                    == p[4]);
            }
        },
        JsonData::Num(t) => {
            lemma_token_chars(t);
            assert forall|k: int| i <= k < i + t.len() implies is_num_char(#[trigger] s[k]) by {
                assert(s[i + (k - i)] == p[k - i]);
            }
            lemma_scan_num_region(s, i, i + t.len());
            assert(s.subrange(i, i + t.len()) =~= t);
        },
        JsonData::Str(t) => {
            let e = esc_str(t);
            assert(p =~= seq!['"'] + e + seq!['"']);
            assert forall|k: int| 0 <= k < e.len() implies s[(i + 1) + k] == #[trigger] e[k] by {
                assert(p[1 + k] == e[k]);
                assert(s[i + (1 + k)] == p[1 + k]);
            }
            assert(s[(i + 1) + e.len()] == '"') by {
                assert(p[1 + e.len() as int] == '"');
                assert(s[i + 1 + e.len() as int] == p[1 + e.len() as int]);
            }
            lemma_string_round_trip(t, s, i + 1);
        },
        JsonData::Arr(xs) => {
            let items = sp_print_items(xs);
            assert(p =~= seq!['['] + items + seq![']']);
            if xs.len() == 0 {
                assert(items.len() == 0);
                assert(s[i + 1] == p[1]);
                assert(p[1] == ']');
                assert(skip_ws(s, i + 1) == i + 1);
                assert(sp_value(s, i, fuel) == Some((JsonData::Arr(Seq::empty()), i + 2)));
                assert(JsonData::Arr(Seq::<JsonData>::empty()) == j) by {
                    assert(xs =~= Seq::<JsonData>::empty());
                }
            } else {
                assert forall|k: int| 0 <= k < items.len() implies s[(i + 1) + k]
                    == #[trigger] items[k] by {
                    assert(p[1 + k] == items[k]);
                    assert(s[i + (1 + k)] == p[1 + k]);
                }
                assert(s[(i + 1) + items.len()] == ']') by {
                    assert(p[1 + items.len() as int] == ']');
                    assert(s[i + 1 + items.len() as int] == p[1 + items.len() as int]);
                }
                lemma_print_head(xs[0]);
                assert(items[0] == sp_print(xs[0])[0]);
                assert(s[i + 1] == items[0]);
                assert(skip_ws(s, i + 1) == i + 1);
                assert(!(s[i + 1] == ']'));
                lemma_items_round_trip(xs, s, i + 1, (fuel - 1) as nat);
                assert(sp_value(s, i, fuel) == Some((JsonData::Arr(xs), (i + 1) + items.len() + 1)));
            }
        },
        JsonData::Obj(ps) => {
            let mem = sp_print_members(ps);
            assert(p =~= seq!['{'] + mem + seq!['}']);
            if ps.len() == 0 {
                assert(mem.len() == 0);
                assert(s[i + 1] == p[1]);
                assert(p[1] == '}');
                assert(skip_ws(s, i + 1) == i + 1);
                assert(sp_value(s, i, fuel) == Some(
                    (JsonData::Obj(Seq::<(Seq<char>, JsonData)>::empty()), i + 2),
                ));
                assert(JsonData::Obj(Seq::<(Seq<char>, JsonData)>::empty()) == j) by {
                    assert(ps =~= Seq::<(Seq<char>, JsonData)>::empty());
                }
            } else {
                assert forall|k: int| 0 <= k < mem.len() implies s[(i + 1) + k]
                    == #[trigger] mem[k] by {
                    assert(p[1 + k] == mem[k]);
                    assert(s[i + (1 + k)] == p[1 + k]);
                }
                assert(s[(i + 1) + mem.len()] == '}') by {
                    assert(p[1 + mem.len() as int] == '}');
                    assert(s[i + 1 + mem.len() as int] == p[1 + mem.len() as int]);
                }
                assert(mem[0] == quoted(ps[0].0)[0]);
                assert(quoted(ps[0].0)[0] == '"');
                assert(s[i + 1] == mem[0]);
                assert(skip_ws(s, i + 1) == i + 1);
                assert(!(s[i + 1] == '}'));
                lemma_members_round_trip(ps, s, i + 1, (fuel - 1) as nat);
                assert(sp_value(s, i, fuel) == Some((JsonData::Obj(ps), (i + 1) + mem.len() + 1)));
            }
        },
    }
}

pub proof fn lemma_items_round_trip(xs: Seq<JsonData>, s: Seq<char>, i: int, fuel: nat)
    requires
        xs.len() >= 1,
        wf_json_seq(xs),
        0 <= i,
        i + sp_print_items(xs).len() + 1 <= s.len(),
        forall|k: int|
            0 <= k < sp_print_items(xs).len() ==> s[i + k] == #[trigger] sp_print_items(xs)[k],
        s[i + sp_print_items(xs).len()] == ']',
        fuel >= nfuel_items(xs),
    ensures
        sp_items(s, i, fuel) == Some((xs, i + sp_print_items(xs).len() + 1)),
    decreases xs, 1int,
{
    let items = sp_print_items(xs);
    let x0 = xs[0];
    let p0 = sp_print(x0);
    let rest = xs.subrange(1, xs.len() as int);
    assert(nfuel_items(xs) == 1 + nfuel(x0) + nfuel_items(rest));
    if xs.len() == 1 {
        assert(items == p0);
        assert forall|k: int| 0 <= k < p0.len() implies s[i + k] == #[trigger] p0[k] by {
            assert(s[i + k] == items[k]);
        }
        lemma_value_round_trip(x0, s, i, fuel);
        let jj = i + p0.len();
        assert(s[jj] == ']');
        assert(skip_ws(s, jj) == jj);
        assert(sp_items(s, i, fuel) == Some((seq![x0], jj + 1)));
        assert(seq![x0] =~= xs);
    } else {
        let rest_items = sp_print_items(rest);
        assert(items =~= p0 + seq![','] + rest_items);
        assert forall|k: int| 0 <= k < p0.len() implies s[i + k] == #[trigger] p0[k] by {
            assert(items[k] == p0[k]);
            assert(s[i + k] == items[k]);
        }
        assert(s[i + p0.len()] == ',') by {
            assert(items[p0.len() as int] == ',');
        }
        lemma_value_round_trip(x0, s, i, fuel);
        let jj = i + p0.len();
        assert(skip_ws(s, jj) == jj);
        assert(!(s[jj] == ']'));
        assert forall|k: int| 0 <= k < rest_items.len() implies s[(jj + 1) + k]
            == #[trigger] rest_items[k] by {
            assert(items[p0.len() as int + 1 + k] == rest_items[k]);
            assert(s[i + p0.len() as int + 1 + k] == items[p0.len() as int + 1 + k]);
        }
        assert(s[(jj + 1) + rest_items.len()] == ']') by {
            assert(i + items.len() == (jj + 1) + rest_items.len());
        }
        lemma_items_round_trip(rest, s, jj + 1, (fuel - 1) as nat);
        assert(sp_items(s, i, fuel) == Some(
            (seq![x0] + rest, (jj + 1) + rest_items.len() + 1),
        ));
        assert(seq![x0] + rest =~= xs);
        assert((jj + 1) + rest_items.len() + 1 == i + items.len() + 1);
    }
}

pub proof fn lemma_members_round_trip(
    ps: Seq<(Seq<char>, JsonData)>,
    s: Seq<char>,
    i: int,
    fuel: nat,
)
    requires
        ps.len() >= 1,
        wf_json_pairs(ps),
        0 <= i,
        i + sp_print_members(ps).len() + 1 <= s.len(),
        forall|k: int|
            0 <= k < sp_print_members(ps).len() ==> s[i + k] == #[trigger] sp_print_members(ps)[k],
        s[i + sp_print_members(ps).len()] == '}',
        fuel >= nfuel_members(ps),
    ensures
        sp_members(s, i, fuel) == Some((ps, i + sp_print_members(ps).len() + 1)),
    decreases ps, 1int,
{
    let mem = sp_print_members(ps);
    let k0 = ps[0].0;
    let v0 = ps[0].1;
    let q0 = quoted(k0);
    let p0 = sp_print(v0);
    let rest = ps.subrange(1, ps.len() as int);
    assert(nfuel_members(ps) == 1 + nfuel(v0) + nfuel_members(rest));
    let head = q0 + seq![':'] + p0;
    if ps.len() == 1 {
        assert(mem == head);
    } else {
        assert(mem =~= head + seq![','] + sp_print_members(rest));
    }
    assert forall|k: int| 0 <= k < head.len() implies s[i + k] == #[trigger] head[k] by {
        assert(mem[k] == head[k]);
        assert(s[i + k] == mem[k]);
    }
    assert(s[i + 0] == head[0]);
    assert(head[0] == '"');
    assert(skip_ws(s, i) == i);
    let e = esc_str(k0);
    assert(q0 =~= seq!['"'] + e + seq!['"']);
    assert forall|k: int| 0 <= k < e.len() implies s[(i + 1) + k] == #[trigger] e[k] by {
        assert(head[1 + k] == e[k]);
        assert(s[i + (1 + k)] == head[1 + k]);
    }
    assert(s[(i + 1) + e.len()] == '"') by {
        assert(head[1 + e.len() as int] == '"');
        assert(s[i + 1 + e.len() as int] == head[1 + e.len() as int]);
    }
    lemma_string_round_trip(k0, s, i + 1);
    let jk = i + q0.len();
    assert(sp_string(s, i + 1) == Some((k0, jk)));
    assert(s[jk] == ':') by {
        assert(head[q0.len() as int] == ':');
        assert(s[i + q0.len() as int] == head[q0.len() as int]);
    }
    assert(skip_ws(s, jk) == jk);
    assert forall|k: int| 0 <= k < p0.len() implies s[(jk + 1) + k] == #[trigger] p0[k] by {
        assert(head[q0.len() as int + 1 + k] == p0[k]);
        assert(s[i + q0.len() as int + 1 + k] == head[q0.len() as int + 1 + k]);
    }
    let jv = (jk + 1) + p0.len();
    if ps.len() == 1 {
        assert(s[jv] == '}') by {
            assert(jv == i + mem.len());
        }
        lemma_value_round_trip(v0, s, jk + 1, fuel);
        assert(skip_ws(s, jv) == jv);
        assert(!(s[jv] == ','));
        assert(sp_members(s, i, fuel) == Some((seq![(k0, v0)], jv + 1)));
        assert(seq![(k0, v0)] =~= ps);
    } else {
        let rest_mem = sp_print_members(rest);
        assert(s[jv] == ',') by {
            assert(mem[head.len() as int] == ',');
            assert(s[i + head.len() as int] == mem[head.len() as int]);
            assert(jv == i + head.len());
        }
        lemma_value_round_trip(v0, s, jk + 1, fuel);
        assert(skip_ws(s, jv) == jv);
        assert forall|k: int| 0 <= k < rest_mem.len() implies s[(jv + 1) + k]
            == #[trigger] rest_mem[k] by {
            assert(mem[head.len() as int + 1 + k] == rest_mem[k]);
            assert(s[i + head.len() as int + 1 + k] == mem[head.len() as int + 1 + k]);
        }
        assert(s[(jv + 1) + rest_mem.len()] == '}') by {
            assert(i + mem.len() == (jv + 1) + rest_mem.len());
        }
        lemma_members_round_trip(rest, s, jv + 1, (fuel - 1) as nat);
        assert(sp_members(s, i, fuel) == Some(
            (seq![(k0, v0)] + rest, (jv + 1) + rest_mem.len() + 1),
        ));
        assert(seq![(k0, v0)] + rest =~= ps);
        assert((jv + 1) + rest_mem.len() + 1 == i + mem.len() + 1);
    }
}

/// The round-trip law of the text codec: reading a printed tree back yields
/// exactly that tree.
pub proof fn lemma_json_round_trip(j: JsonData)
    requires
        wf_json(j),
        sp_print(j).len() < usize::MAX,
    ensures
        sp_parse(sp_print(j)) == Some(j),
{
    let s = sp_print(j);
    lemma_nfuel_le_print(j);
    assert forall|k: int| 0 <= k < sp_print(j).len() implies s[0 + k] == #[trigger] sp_print(j)[k]
        by {}
    lemma_value_round_trip(j, s, 0, (s.len() + 1) as nat);
    assert(skip_ws(s, s.len() as int) == s.len() as int);
}

// ---------------------------------------------------------------------------
// Deep copies
// ---------------------------------------------------------------------------

impl JsonValue {
    /// A copy of the document with the same view.
    pub fn deep_clone(&self) -> (r: JsonValue)
        ensures
            r@ == self@,
        decreases *self,
    {
        match self {
            JsonValue::Null => JsonValue::Null,
            JsonValue::Bool(b) => JsonValue::Bool(*b),
            JsonValue::Num(t) => JsonValue::Num(t.clone()),
            JsonValue::Str(s) => JsonValue::Str(s.clone()),
            JsonValue::Arr(xs) => {
                let mut ys: Vec<JsonValue> = Vec::new();
                let mut i: usize = 0;
                while i < xs.len()
                    invariant
                        *self == JsonValue::Arr(*xs),
                        0 <= i <= xs@.len(),
                        ys@.len() == i,
                        forall|j: int|
                            0 <= j < i ==> jx_of(#[trigger] ys@[j]) == jx_of(xs@[j]),
                    decreases xs@.len() - i,
                {
                    proof {
                        assert(decreases_to!(*self => self->Arr_0));
                        assert(decreases_to!(self->Arr_0 => self->Arr_0@[i as int]));
                        assert(self->Arr_0@[i as int] == xs@[i as int]);
                    }
                    ys.push(xs[i].deep_clone());
                    i = i + 1;
                }
                proof {
                    lemma_jx_of_seq_pointwise(ys@, xs@);
                }
                JsonValue::Arr(ys)
            },
            JsonValue::Obj(ps) => {
                let mut qs: Vec<(String, JsonValue)> = Vec::new();
                let mut i: usize = 0;
                while i < ps.len()
                    invariant
                        *self == JsonValue::Obj(*ps),
                        0 <= i <= ps@.len(),
                        qs@.len() == i,
                        forall|j: int|
                            0 <= j < i ==> (#[trigger] qs@[j]).0@ == ps@[j].0@ && jx_of(qs@[j].1)
                                == jx_of(ps@[j].1),
                    decreases ps@.len() - i,
                {
                    proof {
                        assert(decreases_to!(*self => self->Obj_0));
                        assert(decreases_to!(self->Obj_0 => self->Obj_0@[i as int].1));
                        assert(self->Obj_0@[i as int].1 == ps@[i as int].1);
                    }
                    qs.push((ps[i].0.clone(), ps[i].1.deep_clone()));
                    i = i + 1;
                }
                proof {
                    lemma_jx_of_pairs_pointwise(qs@, ps@);
                }
                JsonValue::Obj(qs)
            },
        }
    }
}

} // verus!
