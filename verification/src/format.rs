//! The key/value text format shared by the registry file and the package
//! manifest: one record per line, `[name]` section headers, `key = value`
//! entries with quoted strings, decimal integers and booleans, `#` comment
//! lines and blank lines.
//!
//! Printing is canonical (no blank lines, one space around `=`); parsing
//! accepts exactly that canon plus interleaved blank and comment lines.
//! Parsing a printed document is proved to give back what was printed.
//!
//! The format carries no escape sequences: a string value may hold any
//! character but the quote, the backslash and control characters, and a
//! value outside that alphabet is rejected at parse time. The restriction is
//! what lets the printer emit every value verbatim and the round-trip law be
//! exact; names, URLs, commit identifiers and route paths all fit in it.

use vstd::prelude::*;
use vstd::string::{StrSliceExecFns, StringExecFns};
use crate::text::{dec_digit, name_char, valid_name_seq, value_char, value_str_ok, is_valid_name, is_value_str, str_eq};

verus! {

/// One value of the format.
#[derive(Debug)]
pub enum Value {
    Text(String),
    Int(u64),
    Flag(bool),
}

/// Mathematical image of a [`Value`].
pub enum ValueView {
    Text(Seq<char>),
    Int(u64),
    Flag(bool),
}

impl View for Value {
    type V = ValueView;

    open spec fn view(&self) -> ValueView {
        match self {
            Value::Text(s) => ValueView::Text(s@),
            Value::Int(n) => ValueView::Int(*n),
            Value::Flag(b) => ValueView::Flag(*b),
        }
    }
}

/// One line of the format. Blank stands for an empty, all-space or comment
/// line.
#[derive(Debug)]
pub enum Line {
    Blank,
    Header(String),
    Entry(String, Value),
}

/// Mathematical image of a [`Line`].
pub enum LineView {
    Blank,
    Header(Seq<char>),
    Entry(Seq<char>, ValueView),
}

impl View for Line {
    type V = LineView;

    open spec fn view(&self) -> LineView {
        match self {
            Line::Blank => LineView::Blank,
            Line::Header(n) => LineView::Header(n@),
            Line::Entry(k, v) => LineView::Entry(k@, v@),
        }
    }
}

impl Clone for Value {
    fn clone(&self) -> (r: Self)
        ensures
            r@ == self@,
    {
        match self {
            Value::Text(s) => Value::Text(s.clone()),
            Value::Int(n) => Value::Int(*n),
            Value::Flag(b) => Value::Flag(*b),
        }
    }
}

impl Clone for Line {
    fn clone(&self) -> (r: Self)
        ensures
            r@ == self@,
    {
        match self {
            Line::Blank => Line::Blank,
            Line::Header(n) => Line::Header(n.clone()),
            Line::Entry(k, v) => Line::Entry(k.clone(), v.clone()),
        }
    }
}

/// A key: non-empty, of name characters.
pub open spec fn key_wf(k: Seq<char>) -> bool {
    k.len() > 0 && forall|i: int| 0 <= i < k.len() ==> name_char(#[trigger] k[i])
}

pub open spec fn value_wf(v: ValueView) -> bool {
    match v {
        ValueView::Text(s) => value_str_ok(s),
        ValueView::Int(_) => true,
        ValueView::Flag(_) => true,
    }
}

/// A line the canonical printer may emit.
pub open spec fn line_wf(l: LineView) -> bool {
    match l {
        LineView::Blank => false,
        LineView::Header(n) => valid_name_seq(n),
        LineView::Entry(k, v) => key_wf(k) && value_wf(v),
    }
}

/// The character of one decimal digit.
pub open spec fn digit_char(d: int) -> char {
    if d == 0 {
        '0'
    } else if d == 1 {
        '1'
    } else if d == 2 {
        '2'
    } else if d == 3 {
        '3'
    } else if d == 4 {
        '4'
    } else if d == 5 {
        '5'
    } else if d == 6 {
        '6'
    } else if d == 7 {
        '7'
    } else if d == 8 {
        '8'
    } else {
        '9'
    }
}

/// The canonical decimal rendering of `n`.
pub open spec fn spec_dec(n: int) -> Seq<char>
    decreases n,
{
    if n < 10 {
        seq![digit_char(n)]
    } else {
        spec_dec(n / 10).push(digit_char(n % 10))
    }
}

/// The numeric value of a digit sequence.
pub open spec fn digits_val(s: Seq<char>) -> int
    decreases s.len(),
{
    if s.len() == 0 {
        0
    } else {
        digits_val(s.drop_last()) * 10 + (s.last() as u32 - 48)
    }
}

pub open spec fn is_digits(s: Seq<char>) -> bool {
    s.len() > 0 && forall|i: int| 0 <= i < s.len() ==> dec_digit(#[trigger] s[i])
}

pub open spec fn print_value(v: ValueView) -> Seq<char> {
    match v {
        ValueView::Text(s) => seq!['"'] + s + seq!['"'],
        ValueView::Int(n) => spec_dec(n as int),
        ValueView::Flag(b) => if b {
            seq!['t', 'r', 'u', 'e']
        } else {
            seq!['f', 'a', 'l', 's', 'e']
        },
    }
}

pub open spec fn print_line(l: LineView) -> Seq<char> {
    match l {
        LineView::Blank => Seq::empty(),
        LineView::Header(n) => seq!['['] + n + seq![']'],
        LineView::Entry(k, v) => k + seq![' ', '=', ' '] + print_value(v),
    }
}

/// A line of nothing but spaces (or nothing at all).
pub open spec fn is_blank_seq(s: Seq<char>) -> bool {
    forall|i: int| 0 <= i < s.len() ==> s[i] == ' '
}

/// The length of the longest prefix of name characters.
pub open spec fn scan_key_len(s: Seq<char>) -> nat
    decreases s.len(),
{
    if s.len() == 0 || !name_char(s[0]) {
        0
    } else {
        1 + scan_key_len(s.skip(1))
    }
}

pub open spec fn parse_value_spec(s: Seq<char>) -> Option<ValueView> {
    if s.len() == 0 {
        None
    } else if s[0] == '"' {
        if s.len() >= 2 && s.last() == '"' && value_str_ok(s.subrange(1, s.len() - 1)) {
            Some(ValueView::Text(s.subrange(1, s.len() - 1)))
        } else {
            None
        }
    } else if s == seq!['t', 'r', 'u', 'e'] {
        Some(ValueView::Flag(true))
    } else if s == seq!['f', 'a', 'l', 's', 'e'] {
        Some(ValueView::Flag(false))
    } else if is_digits(s) && digits_val(s) <= u64::MAX {
        Some(ValueView::Int(digits_val(s) as u64))
    } else {
        None
    }
}

pub open spec fn parse_entry_spec(s: Seq<char>) -> Option<LineView> {
    let k = scan_key_len(s) as int;
    if k == 0 || s.len() < k + 3 {
        None
    } else if s[k] == ' ' && s[k + 1] == '=' && s[k + 2] == ' ' {
        match parse_value_spec(s.skip(k + 3)) {
            Some(v) => Some(LineView::Entry(s.take(k), v)),
            None => None,
        }
    } else {
        None
    }
}

pub open spec fn parse_line_spec(s: Seq<char>) -> Option<LineView> {
    if is_blank_seq(s) || s[0] == '#' {
        Some(LineView::Blank)
    } else if s[0] == '[' {
        if s.len() >= 2 && s.last() == ']' && valid_name_seq(s.subrange(1, s.len() - 1)) {
            Some(LineView::Header(s.subrange(1, s.len() - 1)))
        } else {
            None
        }
    } else {
        parse_entry_spec(s)
    }
}

/// Digit sequences denote non-negative values.
proof fn lemma_digits_val_nonneg(s: Seq<char>)
    requires
        forall|i: int| 0 <= i < s.len() ==> dec_digit(#[trigger] s[i]),
    ensures
        digits_val(s) >= 0,
    decreases s.len(),
{
    if s.len() > 0 {
        lemma_digits_val_nonneg(s.drop_last());
        assert(dec_digit(s.last()));
        assert(digits_val(s.drop_last()) * 10 >= 0) by (nonlinear_arith)
            requires digits_val(s.drop_last()) >= 0;
    }
}

/// A longer digit prefix denotes no smaller a value.
proof fn lemma_digits_val_mono(s: Seq<char>, i: int)
    requires
        forall|j: int| 0 <= j < s.len() ==> dec_digit(#[trigger] s[j]),
        0 <= i <= s.len(),
    ensures
        digits_val(s.take(i)) <= digits_val(s),
    decreases s.len() - i,
{
    if i < s.len() {
        lemma_digits_val_mono(s, i + 1);
        let t = s.take(i + 1);
        assert(t.drop_last() =~= s.take(i));
        assert(t.last() == s[i]);
        lemma_digits_val_nonneg(s.take(i));
        assert(digits_val(s.take(i)) * 10 + (s[i] as u32 - 48) >= digits_val(s.take(i)))
            by (nonlinear_arith)
            requires digits_val(s.take(i)) >= 0, s[i] as u32 >= 48;
    } else {
        assert(s.take(i) =~= s);
    }
}

/// The canonical decimal rendering is made of digits and denotes `n` again.
proof fn lemma_spec_dec_val(n: int)
    requires
        n >= 0,
    ensures
        is_digits(spec_dec(n)),
        digits_val(spec_dec(n)) == n,
        dec_digit(spec_dec(n)[0]),
    decreases n,
{
    if n < 10 {
        assert(spec_dec(n) =~= seq![digit_char(n)]);
        assert(dec_digit(digit_char(n)) && digit_char(n) as u32 - 48 == n);
        let s = spec_dec(n);
        assert(s.len() == 1);
        assert(s.drop_last() =~= Seq::<char>::empty());
        assert(s.last() == digit_char(n));
        assert(digits_val(s.drop_last()) == 0);
        assert(digits_val(s) == digits_val(s.drop_last()) * 10 + (s.last() as u32 - 48));
    } else {
        lemma_spec_dec_val(n / 10);
        let d = n % 10;
        assert(0 <= d < 10);
        assert(dec_digit(digit_char(d)) && digit_char(d) as u32 - 48 == d);
        let s = spec_dec(n);
        assert(s == spec_dec(n / 10).push(digit_char(d)));
        assert(s.drop_last() =~= spec_dec(n / 10));
        assert(s.last() == digit_char(d));
        assert(digits_val(s) == digits_val(spec_dec(n / 10)) * 10 + (digit_char(d) as u32 - 48));
        assert(digits_val(s) == (n / 10) * 10 + d);
        assert((n / 10) * 10 + n % 10 == n) by (nonlinear_arith);
        assert forall|i: int| 0 <= i < s.len() implies dec_digit(#[trigger] s[i]) by {
            if i < s.len() - 1 {
                assert(s[i] == spec_dec(n / 10)[i]);
            }
        }
    }
}

/// The one-character text of a decimal digit.
fn digit_str(d: u64) -> (r: &'static str)
    requires
        d < 10,
    ensures
        r@ == seq![digit_char(d as int)],
{
    let r: &'static str = if d == 0 {
        "0"
    } else if d == 1 {
        "1"
    } else if d == 2 {
        "2"
    } else if d == 3 {
        "3"
    } else if d == 4 {
        "4"
    } else if d == 5 {
        "5"
    } else if d == 6 {
        "6"
    } else if d == 7 {
        "7"
    } else if d == 8 {
        "8"
    } else {
        "9"
    };
    proof {
        reveal_strlit("0");
        reveal_strlit("1");
        reveal_strlit("2");
        reveal_strlit("3");
        reveal_strlit("4");
        reveal_strlit("5");
        reveal_strlit("6");
        reveal_strlit("7");
        reveal_strlit("8");
        reveal_strlit("9");
        assert(r@ =~= seq![digit_char(d as int)]);
    }
    r
}

/// Parse a decimal, boolean or quoted-string value.
#[verifier::loop_isolation(false)]
pub fn parse_value(s: &str) -> (r: Option<Value>)
    ensures
        match r {
            Some(v) => parse_value_spec(s@) == Some(v@),
            None => parse_value_spec(s@) is None,
        },
{
    let n = s.unicode_len();
    if n == 0 {
        return None;
    }
    let c0 = s.get_char(0);
    if c0 == '"' {
        if n >= 2 && s.get_char(n - 1) == '"' {
            let mid = s.substring_char(1, n - 1);
            proof {
                assert(mid@ =~= s@.subrange(1, s@.len() - 1));
            }
            if is_value_str(mid) {
                return Some(Value::Text(String::from_str(mid)));
            }
        }
        return None;
    }
    proof {
        reveal_strlit("true");
        reveal_strlit("false");
        assert("true"@ =~= seq!['t', 'r', 'u', 'e']);
        assert("false"@ =~= seq!['f', 'a', 'l', 's', 'e']);
    }
    if str_eq(s, "true") {
        return Some(Value::Flag(true));
    }
    if str_eq(s, "false") {
        return Some(Value::Flag(false));
    }
    let mut acc: u64 = 0;
    let mut i: usize = 0;
    while i < n
        invariant
            n == s@.len(),
            0 <= i <= n,
            forall|j: int| 0 <= j < i ==> dec_digit(#[trigger] s@[j]),
            acc == digits_val(s@.take(i as int)),
        decreases n - i,
    {
        let c = s.get_char(i);
        let u = c as u32;
        if !(48 <= u && u <= 57) {
            assert(!dec_digit(s@[i as int]));
            assert(!is_digits(s@));
            return None;
        }
        let d: u64 = (u - 48) as u64;
        proof {
            assert(s@.take(i + 1).drop_last() =~= s@.take(i as int));
            assert(s@.take(i + 1).last() == s@[i as int]);
            lemma_digits_val_nonneg(s@.take(i as int));
            vstd::arithmetic::div_mod::lemma_fundamental_div_mod((u64::MAX - d) as int, 10);
        }
        if acc > (u64::MAX - d) / 10 {
            proof {
                let q = (u64::MAX - d) as int / 10;
                assert(acc >= q + 1);
                vstd::arithmetic::mul::lemma_mul_inequality(q + 1, acc as int, 10);
                assert(acc as int * 10 + d >= (q + 1) * 10 + d);
                assert((q + 1) * 10 == q * 10 + 10) by (nonlinear_arith);
                assert(digits_val(s@.take(i + 1)) > u64::MAX);
                if is_digits(s@) {
                    lemma_digits_val_mono(s@, i + 1);
                    assert(digits_val(s@) > u64::MAX);
                }
            }
            return None;
        }
        proof {
            let q = (u64::MAX - d) as int / 10;
            vstd::arithmetic::mul::lemma_mul_inequality(acc as int, q, 10);
            assert(acc as int * 10 + d <= q * 10 + d);
            assert(q * 10 <= (u64::MAX - d) as int);
        }
        acc = acc * 10 + d;
        i += 1;
    }
    proof {
        assert(s@.take(n as int) =~= s@);
        assert(is_digits(s@));
        assert(s@[0] != '"');
    }
    Some(Value::Int(acc))
}

/// Parse one line: blank or comment, `[name]` header, or `key = value`.
#[verifier::loop_isolation(false)]
pub fn parse_line(s: &str) -> (r: Option<Line>)
    ensures
        match r {
            Some(l) => parse_line_spec(s@) == Some(l@),
            None => parse_line_spec(s@) is None,
        },
{
    let n = s.unicode_len();
    let mut b: usize = 0;
    while b < n && s.get_char(b) == ' '
        invariant
            n == s@.len(),
            0 <= b <= n,
            forall|j: int| 0 <= j < b ==> s@[j] == ' ',
        decreases n - b,
    {
        b += 1;
    }
    if b == n {
        return Some(Line::Blank);
    }
    assert(!is_blank_seq(s@));
    let c0 = s.get_char(0);
    if c0 == '#' {
        return Some(Line::Blank);
    }
    if c0 == '[' {
        if n >= 2 && s.get_char(n - 1) == ']' {
            let mid = s.substring_char(1, n - 1);
            proof {
                assert(mid@ =~= s@.subrange(1, s@.len() - 1));
            }
            if is_valid_name(mid) {
                return Some(Line::Header(String::from_str(mid)));
            }
        }
        return None;
    }
    let mut i: usize = 0;
    while i < n && crate::text::name_char_exec(s.get_char(i))
        invariant
            n == s@.len(),
            0 <= i <= n,
            forall|j: int| 0 <= j < i ==> name_char(#[trigger] s@[j]),
        decreases n - i,
    {
        i += 1;
    }
    proof {
        lemma_scan_key_chars(s@, i as int);
    }
    if i == 0 {
        return None;
    }
    if n < 3 || i > n - 3 {
        return None;
    }
    if s.get_char(i) == ' ' && s.get_char(i + 1) == '=' && s.get_char(i + 2) == ' ' {
        let rest = s.substring_char(i + 3, n);
        let key = s.substring_char(0, i);
        proof {
            assert(rest@ =~= s@.skip(i + 3));
            assert(key@ =~= s@.take(i as int));
        }
        match parse_value(rest) {
            Some(v) => Some(Line::Entry(String::from_str(key), v)),
            None => None,
        }
    } else {
        None
    }
}

/// `scan_key_len` is the position of the first non-name character.
proof fn lemma_scan_key_chars(s: Seq<char>, k: int)
    requires
        0 <= k <= s.len(),
        forall|j: int| 0 <= j < k ==> name_char(#[trigger] s[j]),
        k == s.len() || !name_char(s[k]),
    ensures
        scan_key_len(s) == k,
    decreases k,
{
    if k == 0 {
    } else {
        assert(name_char(s[0]));
        assert forall|j: int| 0 <= j < k - 1 implies name_char(#[trigger] s.skip(1)[j]) by {
            assert(s.skip(1)[j] == s[j + 1]);
        }
        assert(k - 1 == s.skip(1).len() || !name_char(s.skip(1)[k - 1]));
        lemma_scan_key_chars(s.skip(1), k - 1);
    }
}

/// Render `n` in decimal.
pub fn u64_to_string(n: u64) -> (r: String)
    ensures
        r@ == spec_dec(n as int),
    decreases n,
{
    if n < 10 {
        let out = String::from_str(digit_str(n));
        proof {
            assert(out@ =~= seq![digit_char(n as int)]);
        }
        out
    } else {
        let mut out = u64_to_string(n / 10);
        out.append(digit_str(n % 10));
        proof {
            assert(out@ =~= spec_dec(n as int / 10).push(digit_char(n as int % 10)));
        }
        out
    }
}

/// Render one value canonically.
pub fn print_value_string(v: &Value) -> (r: String)
    ensures
        r@ == print_value(v@),
{
    match v {
        Value::Text(s) => {
            let mut out = String::from_str("\"");
            out.append(s.as_str());
            out.append("\"");
            proof {
                reveal_strlit("\"");
                assert(out@ =~= seq!['"'] + s@ + seq!['"']);
            }
            out
        },
        Value::Int(n) => u64_to_string(*n),
        Value::Flag(b) => {
            proof {
                reveal_strlit("true");
                reveal_strlit("false");
                assert("true"@ =~= seq!['t', 'r', 'u', 'e']);
                assert("false"@ =~= seq!['f', 'a', 'l', 's', 'e']);
            }
            if *b {
                String::from_str("true")
            } else {
                String::from_str("false")
            }
        },
    }
}

/// Render one line canonically (without its newline).
pub fn print_line_string(l: &Line) -> (r: String)
    ensures
        r@ == print_line(l@),
{
    match l {
        Line::Blank => {
            let out = String::new();
            proof {
                assert(out@ =~= Seq::<char>::empty());
            }
            out
        },
        Line::Header(n) => {
            let mut out = String::from_str("[");
            out.append(n.as_str());
            out.append("]");
            proof {
                reveal_strlit("[");
                reveal_strlit("]");
                assert(out@ =~= seq!['['] + n@ + seq![']']);
            }
            out
        },
        Line::Entry(k, v) => {
            let mut out = k.clone();
            out.append(" = ");
            let pv = print_value_string(v);
            out.append(pv.as_str());
            proof {
                reveal_strlit(" = ");
                assert(out@ =~= k@ + seq![' ', '=', ' '] + print_value(v@));
            }
            out
        },
    }
}

/// Parsing a canonically printed value gives the value back.
pub proof fn lemma_value_round_trip(v: ValueView)
    requires
        value_wf(v),
    ensures
        parse_value_spec(print_value(v)) == Some(v),
{
    let p = print_value(v);
    match v {
        ValueView::Text(s) => {
            assert(p.len() >= 2);
            assert(p[0] == '"');
            assert(p.last() == '"');
            assert(p.subrange(1, p.len() - 1) =~= s);
        },
        ValueView::Flag(b) => {
            if b {
                assert(p[0] == 't' && p[0] != '"');
                assert(p == seq!['t', 'r', 'u', 'e']);
            } else {
                assert(p[0] == 'f' && p[0] != '"');
                assert(p != seq!['t', 'r', 'u', 'e']);
                assert(p == seq!['f', 'a', 'l', 's', 'e']);
            }
        },
        ValueView::Int(n) => {
            lemma_spec_dec_val(n as int);
            assert(dec_digit(p[0]));
            assert(p[0] != '"');
            assert(p != seq!['t', 'r', 'u', 'e']) by {
                if p == seq!['t', 'r', 'u', 'e'] {
                    assert(p[0] == 't');
                    assert(!dec_digit('t'));
                }
            }
            assert(p != seq!['f', 'a', 'l', 's', 'e']) by {
                if p == seq!['f', 'a', 'l', 's', 'e'] {
                    assert(p[0] == 'f');
                    assert(!dec_digit('f'));
                }
            }
            assert(digits_val(p) == n as int);
        },
    }
}

/// A key followed by anything that does not begin with a name character
/// scans as exactly the key.
proof fn lemma_scan_key_concat(k: Seq<char>, rest: Seq<char>)
    requires
        forall|i: int| 0 <= i < k.len() ==> name_char(#[trigger] k[i]),
        rest.len() > 0,
        !name_char(rest[0]),
    ensures
        scan_key_len(k + rest) == k.len(),
    decreases k.len(),
{
    let s = k + rest;
    if k.len() == 0 {
        assert(s =~= rest);
    } else {
        assert(s[0] == k[0]);
        assert(name_char(s[0]));
        assert(s.skip(1) =~= k.skip(1) + rest);
        assert forall|i: int| 0 <= i < k.skip(1).len() implies name_char(#[trigger] k.skip(1)[i]) by {
            assert(k.skip(1)[i] == k[i + 1]);
        }
        lemma_scan_key_concat(k.skip(1), rest);
    }
}

/// Parsing a canonically printed line gives the line back.
pub proof fn lemma_line_round_trip(l: LineView)
    requires
        line_wf(l),
    ensures
        parse_line_spec(print_line(l)) == Some(l),
{
    let p = print_line(l);
    match l {
        LineView::Blank => {},
        LineView::Header(n) => {
            assert(p.len() == n.len() + 2);
            assert(p[0] == '[');
            assert(!is_blank_seq(p)) by {
                assert(p[0] != ' ');
            }
            assert(p.last() == ']');
            assert(p.subrange(1, p.len() - 1) =~= n);
        },
        LineView::Entry(k, v) => {
            lemma_value_round_trip(v);
            let sep = seq![' ', '=', ' '];
            let pv = print_value(v);
            assert(p =~= k + (sep + pv));
            assert(p[0] == k[0]);
            assert(name_char(k[0]));
            assert(!is_blank_seq(p)) by {
                assert(p[0] != ' ');
            }
            assert(p[0] != '#');
            assert(p[0] != '[');
            assert((sep + pv)[0] == ' ');
            lemma_scan_key_concat(k, sep + pv);
            let kl = k.len() as int;
            assert(scan_key_len(p) == k.len());
            assert(p.len() == k.len() + 3 + pv.len());
            assert(p[kl] == (sep + pv)[0]);
            assert(p[kl + 1] == (sep + pv)[1]);
            assert(p[kl + 2] == (sep + pv)[2]);
            assert(p[kl] == ' ' && p[kl + 1] == '=' && p[kl + 2] == ' ');
            assert(p.skip(kl + 3) =~= pv);
            assert(p.take(kl) =~= k);
        },
    }
}

/// The canonical text of a line sequence: each line, each followed by a
/// newline.
pub open spec fn print_lines(ls: Seq<LineView>) -> Seq<char>
    decreases ls.len(),
{
    if ls.len() == 0 {
        Seq::empty()
    } else {
        print_line(ls[0]) + seq!['\n'] + print_lines(ls.skip(1))
    }
}

/// The index of the first newline, or the length when there is none.
pub open spec fn line_end(s: Seq<char>) -> nat
    decreases s.len(),
{
    if s.len() == 0 {
        0
    } else if s[0] == '\n' {
        0
    } else {
        1 + line_end(s.skip(1))
    }
}

/// The rows of a text: newline-separated, a final newline terminating the
/// last row rather than opening an empty one.
pub open spec fn split_lines(s: Seq<char>) -> Seq<Seq<char>>
    decreases s.len(),
{
    if s.len() == 0 {
        Seq::empty()
    } else {
        let e = line_end(s) as int;
        if e >= s.len() {
            seq![s]
        } else {
            seq![s.take(e)] + split_lines(s.skip(e + 1))
        }
    }
}

/// Parse every row; any ill-formed row spoils the document.
pub open spec fn parse_rows(rows: Seq<Seq<char>>) -> Option<Seq<LineView>>
    decreases rows.len(),
{
    if rows.len() == 0 {
        Some(Seq::empty())
    } else {
        match parse_line_spec(rows[0]) {
            Some(l) => match parse_rows(rows.skip(1)) {
                Some(t) => Some(seq![l] + t),
                None => None,
            },
            None => None,
        }
    }
}

/// What a whole document denotes: its rows, each parsed.
pub open spec fn parse_doc(s: Seq<char>) -> Option<Seq<LineView>> {
    parse_rows(split_lines(s))
}

/// No character of a canonically printed line is a newline.
proof fn lemma_print_line_no_nl(l: LineView)
    requires
        line_wf(l),
    ensures
        forall|i: int| 0 <= i < print_line(l).len() ==> print_line(l)[i] != '\n',
{
    let p = print_line(l);
    match l {
        LineView::Blank => {},
        LineView::Header(n) => {
            assert forall|i: int| 0 <= i < p.len() implies p[i] != '\n' by {
                if 1 <= i < p.len() - 1 {
                    assert(p[i] == n[i - 1]);
                    assert(name_char(n[i - 1]));
                }
            }
        },
        LineView::Entry(k, v) => {
            let pv = print_value(v);
            let kl = k.len() as int;
            assert forall|i: int| 0 <= i < pv.len() implies pv[i] != '\n' by {
                match v {
                    ValueView::Text(s) => {
                        if 1 <= i < pv.len() - 1 {
                            assert(pv[i] == s[i - 1]);
                            assert(value_char(s[i - 1]));
                        }
                    },
                    ValueView::Int(n) => {
                        lemma_spec_dec_val(n as int);
                        assert(dec_digit(pv[i]));
                    },
                    ValueView::Flag(b) => {},
                }
            }
            assert forall|i: int| 0 <= i < p.len() implies p[i] != '\n' by {
                if i < kl {
                    assert(p[i] == k[i]);
                    assert(name_char(k[i]));
                } else if i >= kl + 3 {
                    assert(p[i] == pv[i - kl - 3]);
                }
            }
        },
    }
}

/// The first newline of `a + '\n' + t` stands right after `a`.
proof fn lemma_line_end_concat(a: Seq<char>, t: Seq<char>)
    requires
        forall|i: int| 0 <= i < a.len() ==> a[i] != '\n',
    ensures
        line_end(a + seq!['\n'] + t) == a.len(),
    decreases a.len(),
{
    let s = a + seq!['\n'] + t;
    if a.len() == 0 {
        assert(s[0] == '\n');
    } else {
        assert(s[0] == a[0]);
        assert(s.skip(1) =~= a.skip(1) + seq!['\n'] + t);
        assert forall|i: int| 0 <= i < a.skip(1).len() implies a.skip(1)[i] != '\n' by {
            assert(a.skip(1)[i] == a[i + 1]);
        }
        lemma_line_end_concat(a.skip(1), t);
    }
}

/// Parsing a canonically printed document gives the lines back.
pub proof fn lemma_doc_round_trip(ls: Seq<LineView>)
    requires
        forall|i: int| 0 <= i < ls.len() ==> line_wf(#[trigger] ls[i]),
    ensures
        parse_doc(print_lines(ls)) == Some(ls),
    decreases ls.len(),
{
    if ls.len() == 0 {
        assert(print_lines(ls) =~= Seq::<char>::empty());
        assert(split_lines(Seq::<char>::empty()) =~= Seq::<Seq<char>>::empty());
    } else {
        let l0 = ls[0];
        let rest = ls.skip(1);
        let p0 = print_line(l0);
        let doc = print_lines(ls);
        let tail = print_lines(rest);
        assert(doc == p0 + seq!['\n'] + tail);
        lemma_print_line_no_nl(l0);
        lemma_line_end_concat(p0, tail);
        assert(line_end(doc) == p0.len());
        assert(doc.len() == p0.len() + 1 + tail.len());
        let e = p0.len() as int;
        assert(doc.take(e) =~= p0);
        assert(doc.skip(e + 1) =~= tail);
        assert forall|i: int| 0 <= i < rest.len() implies line_wf(#[trigger] rest[i]) by {
            assert(rest[i] == ls[i + 1]);
        }
        lemma_doc_round_trip(rest);
        lemma_line_round_trip(l0);
        let rows = split_lines(doc);
        assert(rows == seq![p0] + split_lines(tail));
        assert(rows[0] == p0);
        assert(rows.skip(1) =~= split_lines(tail));
        assert(parse_rows(rows) == Some(seq![l0] + rest));
        assert(seq![l0] + rest =~= ls);
    }
}

/// Split a document into rows and parse each line.
#[verifier::loop_isolation(false)]
pub fn parse_doc_lines(s: &str) -> (r: Option<Vec<Line>>)
    ensures
        match r {
            Some(v) => parse_doc(s@) == Some(v@.map_values(|l: Line| l@)),
            None => parse_doc(s@) is None,
        },
{
    let n = s.unicode_len();
    let mut acc: Vec<Line> = Vec::new();
    let mut pos: usize = 0;
    proof {
        assert(acc@.map_values(|l: Line| l@) =~= Seq::<LineView>::empty());
        assert(s@.skip(0) =~= s@);
        if parse_rows(split_lines(s@)) is Some {
            let t = parse_rows(split_lines(s@)).unwrap();
            assert(Seq::<LineView>::empty() + t =~= t);
        }
    }
    while pos < n
        invariant
            n == s@.len(),
            0 <= pos <= n,
            ({
                let done = acc@.map_values(|l: Line| l@);
                match parse_rows(split_lines(s@.skip(pos as int))) {
                    Some(t) => parse_doc(s@) == Some(done + t),
                    None => parse_doc(s@) is None,
                }
            }),
        decreases n - pos,
    {
        let ghost u = s@.skip(pos as int);
        let mut j: usize = pos;
        while j < n && s.get_char(j) != '\n'
            invariant
                pos <= j <= n,
                forall|i: int| pos <= i < j ==> s@[i] != '\n',
            decreases n - j,
        {
            j += 1;
        }
        proof {
            assert forall|i: int| 0 <= i < j - pos implies u[i] != '\n' by {
                assert(u[i] == s@[pos + i]);
            }
            if j < n {
                assert(u[j - pos] == s@[j as int]);
            }
            lemma_line_end_chars(u, j - pos as int);
        }
        let row = s.substring_char(pos, j);
        proof {
            assert(row@ =~= u.take(j - pos as int));
        }
        let parsed = parse_line(row);
        match parsed {
            None => {
                proof {
                    if j == n {
                        assert(u.take(j - pos as int) =~= u);
                        assert(split_lines(u) == seq![u]);
                        assert(parse_rows(split_lines(u)) is None);
                    } else {
                        let rows = split_lines(u);
                        assert(rows == seq![u.take(j - pos as int)] + split_lines(
                            u.skip(j + 1 - pos as int),
                        ));
                        assert(rows[0] == row@);
                        assert(parse_rows(rows) is None);
                    }
                }
                return None;
            },
            Some(l) => {
                let ghost done0 = acc@.map_values(|x: Line| x@);
                acc.push(l);
                proof {
                    assert(acc@.map_values(|x: Line| x@) =~= done0.push(l@));
                }
                if j == n {
                    proof {
                        assert(u.take(j - pos as int) =~= u);
                        assert(split_lines(u) == seq![u]);
                        assert(parse_line_spec(u) == Some(l@));
                        assert(seq![u].skip(1) =~= Seq::<Seq<char>>::empty());
                        assert(parse_rows(Seq::<Seq<char>>::empty()) == Some(Seq::<LineView>::empty()));
                        assert(seq![l@] + Seq::<LineView>::empty() =~= seq![l@]);
                        assert(parse_rows(split_lines(u)) == Some(seq![l@]));
                        assert(done0 + seq![l@] =~= done0.push(l@));
                        assert(s@.skip(n as int) =~= Seq::<char>::empty());
                        assert(split_lines(s@.skip(n as int)) =~= Seq::<Seq<char>>::empty());
                        assert(done0.push(l@) + Seq::<LineView>::empty() =~= done0.push(l@));
                    }
                    pos = n;
                } else {
                    proof {
                        let rows = split_lines(u);
                        assert(rows == seq![u.take(j - pos as int)] + split_lines(
                            u.skip(j + 1 - pos as int),
                        ));
                        assert(rows[0] == row@);
                        assert(rows.skip(1) =~= split_lines(u.skip(j + 1 - pos as int)));
                        assert(u.skip(j + 1 - pos as int) =~= s@.skip(j + 1));
                        match parse_rows(split_lines(s@.skip(j + 1))) {
                            Some(t) => {
                                assert(parse_rows(rows) == Some(seq![l@] + t));
                                assert(done0 + (seq![l@] + t) =~= done0.push(l@) + t);
                            },
                            None => {
                                assert(parse_rows(rows) is None);
                            },
                        }
                    }
                    pos = j + 1;
                }
            },
        }
    }
    proof {
        assert(s@.skip(n as int) =~= Seq::<char>::empty());
        assert(split_lines(s@.skip(n as int)) =~= Seq::<Seq<char>>::empty());
        let done = acc@.map_values(|l: Line| l@);
        assert(done + Seq::<LineView>::empty() =~= done);
    }
    Some(acc)
}

/// `line_end` is the position of the first newline.
proof fn lemma_line_end_chars(u: Seq<char>, e: int)
    requires
        0 <= e <= u.len(),
        forall|i: int| 0 <= i < e ==> u[i] != '\n',
        e == u.len() || u[e] == '\n',
    ensures
        line_end(u) == e,
    decreases e,
{
    if e == 0 {
    } else {
        assert(u[0] != '\n');
        assert forall|i: int| 0 <= i < e - 1 implies u.skip(1)[i] != '\n' by {
            assert(u.skip(1)[i] == u[i + 1]);
        }
        if e < u.len() {
            assert(u.skip(1)[e - 1] == u[e]);
        }
        lemma_line_end_chars(u.skip(1), e - 1);
    }
}

/// Render a line sequence as a document.
pub fn print_lines_string(ls: &Vec<Line>) -> (r: String)
    ensures
        r@ == print_lines(ls@.map_values(|l: Line| l@)),
{
    let ghost lv = ls@.map_values(|l: Line| l@);
    let mut out = String::new();
    let n = ls.len();
    let mut i: usize = 0;
    proof {
        assert(out@ =~= Seq::<char>::empty());
        assert(lv.take(0) =~= Seq::<LineView>::empty());
        assert(print_lines(lv.take(0)) == Seq::<char>::empty());
    }
    while i < n
        invariant
            n == ls@.len(),
            0 <= i <= n,
            lv == ls@.map_values(|l: Line| l@),
            out@ == print_lines(lv.take(i as int)),
        decreases n - i,
    {
        let p = print_line_string(&ls[i]);
        out.append(p.as_str());
        out.append("\n");
        proof {
            reveal_strlit("\n");
            assert("\n"@ =~= seq!['\n']);
            lemma_print_lines_snoc(lv, i as int);
        }
        i += 1;
    }
    proof {
        assert(lv.take(n as int) =~= lv);
    }
    out
}

/// Printing distributes over concatenation of line sequences.
pub proof fn lemma_print_lines_concat(a: Seq<LineView>, b: Seq<LineView>)
    ensures
        print_lines(a + b) == print_lines(a) + print_lines(b),
    decreases a.len(),
{
    if a.len() == 0 {
        assert(a + b =~= b);
        assert(print_lines(a) =~= Seq::<char>::empty());
        assert(Seq::<char>::empty() + print_lines(b) =~= print_lines(b));
    } else {
        assert((a + b)[0] == a[0]);
        assert((a + b).skip(1) =~= a.skip(1) + b);
        lemma_print_lines_concat(a.skip(1), b);
        assert(print_lines(a + b) == print_line(a[0]) + seq!['\n'] + (print_lines(a.skip(1))
            + print_lines(b)));
        assert(print_line(a[0]) + seq!['\n'] + (print_lines(a.skip(1)) + print_lines(b)) =~= (
        print_line(a[0]) + seq!['\n'] + print_lines(a.skip(1))) + print_lines(b));
    }
}

/// A single line prints as its text and a newline.
proof fn lemma_print_lines_one(l: LineView)
    ensures
        print_lines(seq![l]) == print_line(l) + seq!['\n'],
{
    assert(seq![l][0] == l);
    assert(seq![l].skip(1) =~= Seq::<LineView>::empty());
    assert(print_lines(Seq::<LineView>::empty()) == Seq::<char>::empty());
    assert(print_line(l) + seq!['\n'] + Seq::<char>::empty() =~= print_line(l) + seq!['\n']);
}

/// Printing one more line appends its text and a newline.
proof fn lemma_print_lines_snoc(lv: Seq<LineView>, i: int)
    requires
        0 <= i < lv.len(),
    ensures
        print_lines(lv.take(i + 1)) == print_lines(lv.take(i)) + print_line(lv[i]) + seq!['\n'],
{
    assert(lv.take(i + 1) =~= lv.take(i) + seq![lv[i]]);
    lemma_print_lines_concat(lv.take(i), seq![lv[i]]);
    lemma_print_lines_one(lv[i]);
    assert(print_lines(lv.take(i)) + (print_line(lv[i]) + seq!['\n']) =~= print_lines(lv.take(i))
        + print_line(lv[i]) + seq!['\n']);
}

/// What every successfully parsed line satisfies: headers are valid names,
/// keys are proper keys, string values are printable.
pub open spec fn line_sane(l: LineView) -> bool {
    match l {
        LineView::Blank => true,
        LineView::Header(n) => valid_name_seq(n),
        LineView::Entry(k, v) => key_wf(k) && value_wf(v),
    }
}

/// The scanned key prefix is made of name characters.
proof fn lemma_scan_key_prefix(s: Seq<char>)
    ensures
        scan_key_len(s) <= s.len(),
        forall|j: int| 0 <= j < scan_key_len(s) ==> name_char(#[trigger] s[j]),
    decreases s.len(),
{
    if s.len() > 0 && name_char(s[0]) {
        lemma_scan_key_prefix(s.skip(1));
        assert forall|j: int| 0 <= j < scan_key_len(s) implies name_char(#[trigger] s[j]) by {
            if j > 0 {
                assert(s.skip(1)[j - 1] == s[j]);
            }
        }
    }
}

/// A line a parse hands back is sane.
pub proof fn lemma_parse_line_sane(s: Seq<char>)
    ensures
        parse_line_spec(s) matches Some(l) ==> line_sane(l),
{
    lemma_scan_key_prefix(s);
    if !(is_blank_seq(s) || s[0] == '#') && s[0] != '[' {
        let k = scan_key_len(s) as int;
        if k > 0 && s.len() >= k + 3 {
            assert forall|j: int| 0 <= j < s.take(k).len() implies name_char(
                #[trigger] s.take(k)[j],
            ) by {
                assert(s.take(k)[j] == s[j]);
            }
        }
    }
}

/// Every line of a parsed document is sane.
pub proof fn lemma_parse_rows_sane(rows: Seq<Seq<char>>)
    ensures
        parse_rows(rows) matches Some(t) ==> forall|i: int|
            0 <= i < t.len() ==> line_sane(#[trigger] t[i]),
    decreases rows.len(),
{
    if rows.len() > 0 {
        lemma_parse_line_sane(rows[0]);
        lemma_parse_rows_sane(rows.skip(1));
        match parse_rows(rows) {
            Some(t) => {
                let l = parse_line_spec(rows[0]).unwrap();
                let rest = parse_rows(rows.skip(1)).unwrap();
                assert(t == seq![l] + rest);
                assert forall|i: int| 0 <= i < t.len() implies line_sane(#[trigger] t[i]) by {
                    if i == 0 {
                        assert(t[0] == l);
                    } else {
                        assert(t[i] == rest[i - 1]);
                    }
                }
            },
            None => {},
        }
    }
}

/// Dropping blanks keeps every line sane and leaves no blank.
pub proof fn lemma_non_blank_sane(ls: Seq<LineView>)
    requires
        forall|i: int| 0 <= i < ls.len() ==> line_sane(#[trigger] ls[i]),
    ensures
        forall|i: int|
            0 <= i < non_blank(ls).len() ==> line_sane(#[trigger] non_blank(ls)[i]) && !(non_blank(
                ls,
            )[i] is Blank),
    decreases ls.len(),
{
    if ls.len() > 0 {
        assert forall|i: int| 0 <= i < ls.skip(1).len() implies line_sane(
            #[trigger] ls.skip(1)[i],
        ) by {
            assert(ls.skip(1)[i] == ls[i + 1]);
        }
        lemma_non_blank_sane(ls.skip(1));
        let t = non_blank(ls);
        if ls[0] is Blank {
        } else {
            assert forall|i: int| 0 <= i < t.len() implies line_sane(#[trigger] t[i]) && !(t[i]
                is Blank) by {
                if i == 0 {
                    assert(t[0] == ls[0]);
                } else {
                    assert(t[i] == non_blank(ls.skip(1))[i - 1]);
                }
            }
        }
    }
}

/// On a sequence without blanks, dropping blanks does nothing.
pub proof fn lemma_non_blank_id(ls: Seq<LineView>)
    requires
        forall|i: int| 0 <= i < ls.len() ==> !((#[trigger] ls[i]) is Blank),
    ensures
        non_blank(ls) == ls,
    decreases ls.len(),
{
    if ls.len() > 0 {
        assert forall|i: int| 0 <= i < ls.skip(1).len() implies !((#[trigger] ls.skip(1)[i])
            is Blank) by {
            assert(ls.skip(1)[i] == ls[i + 1]);
        }
        lemma_non_blank_id(ls.skip(1));
        assert(seq![ls[0]] + ls.skip(1) =~= ls);
    }
}

/// The keys and words of the registry and manifest documents.
pub open spec fn key_url() -> Seq<char> {
    seq!['u', 'r', 'l']
}

pub open spec fn key_commit() -> Seq<char> {
    seq!['c', 'o', 'm', 'm', 'i', 't']
}

pub open spec fn key_backend() -> Seq<char> {
    seq!['b', 'a', 'c', 'k', 'e', 'n', 'd']
}

pub open spec fn key_type() -> Seq<char> {
    seq!['t', 'y', 'p', 'e']
}

pub open spec fn key_dockerfile() -> Seq<char> {
    seq!['d', 'o', 'c', 'k', 'e', 'r', 'f', 'i', 'l', 'e']
}

pub open spec fn key_scoped() -> Seq<char> {
    seq!['s', 'c', 'o', 'p', 'e', 'd']
}

pub open spec fn key_max_replica() -> Seq<char> {
    seq!['m', 'a', 'x', '_', 'r', 'e', 'p', 'l', 'i', 'c', 'a']
}

pub open spec fn key_path() -> Seq<char> {
    seq!['p', 'a', 't', 'h']
}

pub open spec fn key_protocol() -> Seq<char> {
    seq!['p', 'r', 'o', 't', 'o', 'c', 'o', 'l']
}

pub open spec fn word_local() -> Seq<char> {
    seq!['L', 'o', 'c', 'a', 'l']
}

pub open spec fn word_docker() -> Seq<char> {
    seq!['D', 'o', 'c', 'k', 'e', 'r']
}

pub open spec fn word_mcp() -> Seq<char> {
    seq!['M', 'C', 'P']
}

pub open spec fn word_endpoint() -> Seq<char> {
    seq!['e', 'n', 'd', 'p', 'o', 'i', 'n', 't']
}

/// The lines that carry meaning: everything but blanks and comments.
pub open spec fn non_blank(ls: Seq<LineView>) -> Seq<LineView>
    decreases ls.len(),
{
    if ls.len() == 0 {
        Seq::empty()
    } else if ls[0] is Blank {
        non_blank(ls.skip(1))
    } else {
        seq![ls[0]] + non_blank(ls.skip(1))
    }
}

/// Drop blank and comment lines.
#[verifier::loop_isolation(false)]
pub fn drop_blanks(ls: &Vec<Line>) -> (r: Vec<Line>)
    ensures
        r@.map_values(|l: Line| l@) == non_blank(ls@.map_values(|l: Line| l@)),
{
    let ghost lv = ls@.map_values(|l: Line| l@);
    let n = ls.len();
    let mut out: Vec<Line> = Vec::new();
    let mut i: usize = 0;
    proof {
        assert(out@.map_values(|l: Line| l@) =~= Seq::<LineView>::empty());
        assert(lv.skip(0) =~= lv);
        let t = non_blank(lv);
        assert(Seq::<LineView>::empty() + t =~= t);
    }
    while i < n
        invariant
            n == ls@.len(),
            0 <= i <= n,
            lv == ls@.map_values(|l: Line| l@),
            out@.map_values(|l: Line| l@) + non_blank(lv.skip(i as int)) == non_blank(lv),
        decreases n - i,
    {
        proof {
            assert(lv.skip(i as int)[0] == lv[i as int]);
            assert(lv.skip(i as int).skip(1) =~= lv.skip(i + 1));
        }
        let ghost done0 = out@.map_values(|l: Line| l@);
        let keep = match &ls[i] {
            Line::Blank => false,
            _ => true,
        };
        if keep {
            out.push(ls[i].clone());
            proof {
                assert(out@.map_values(|l: Line| l@) =~= done0.push(lv[i as int]));
                assert(done0.push(lv[i as int]) + non_blank(lv.skip(i + 1)) =~= done0 + (seq![
                    lv[i as int],
                ] + non_blank(lv.skip(i + 1))));
            }
        }
        i += 1;
    }
    proof {
        assert(lv.skip(n as int) =~= Seq::<LineView>::empty());
        assert(non_blank(Seq::<LineView>::empty()) =~= Seq::<LineView>::empty());
        let done = out@.map_values(|l: Line| l@);
        assert(done + Seq::<LineView>::empty() =~= done);
    }
    out
}

} // verus!
