//! The grammar of the wire format, and the parser proved against it.
//!
//! One line holds one compact JSON value: no whitespace between tokens,
//! numbers are signed 64-bit integers, strings escape the quote, the
//! backslash and the common control characters. `parse_text` is the
//! definition of which character sequences are well-formed lines and of
//! the value each one denotes; `parse_json` computes it.

use vstd::prelude::*;

use crate::json::JVal;
use crate::json::Json;
use crate::json::jlist;
use crate::json::jfields;

verus! {

/// Where a collection parse stands: before the first element, after an
/// element, or after a separating comma.
#[derive(Clone, Copy, PartialEq, Eq, Structural)]
pub enum Phase {
    First,
    AfterValue,
    AfterComma,
}

/// Whether `c` is a decimal digit.
pub open spec fn is_digit(c: char) -> bool {
    48 <= (c as u32) && (c as u32) <= 57
}

/// The numeric value of the digit `c`.
pub open spec fn digit_val(c: char) -> int {
    (c as u32) - 48
}

/// What a backslash escape denotes, if it is one the grammar accepts.
pub open spec fn unescape(c: char) -> Option<char> {
    if c == '"' { Some('"') }
    else if c == '\\' { Some('\\') }
    else if c == '/' { Some('/') }
    else if c == 'n' { Some('\n') }
    else if c == 'r' { Some('\r') }
    else if c == 't' { Some('\t') }
    else { None }
}

/// Reads a run of digits starting at `i`, folding them onto `acc`;
/// yields the value and the index after the run.
pub open spec fn read_digits(s: Seq<char>, i: int, acc: int) -> (int, int)
    decreases s.len() - i,
{
    if 0 <= i && i < s.len() && is_digit(s[i]) {
        read_digits(s, i + 1, acc * 10 + digit_val(s[i]))
    } else {
        (acc, i)
    }
}

/// Folding further digits onto a non-negative accumulator never
/// shrinks it.
pub proof fn lemma_read_digits_lower(s: Seq<char>, i: int, acc: int)
    requires
        acc >= 0,
    ensures
        read_digits(s, i, acc).0 >= acc,
    decreases s.len() - i,
{
    if 0 <= i && i < s.len() && is_digit(s[i]) {
        lemma_read_digits_lower(s, i + 1, acc * 10 + digit_val(s[i]));
    }
}

/// Reads a string body starting at `i` (just past the opening quote),
/// with `acc` the characters read so far; yields the body and the index
/// after the closing quote.
pub open spec fn read_string(s: Seq<char>, i: int, acc: Seq<char>) -> Option<(Seq<char>, int)>
    decreases s.len() - i,
{
    if i < 0 || i >= s.len() {
        None
    } else if s[i] == '"' {
        Some((acc, i + 1))
    } else if s[i] == '\\' {
        if i + 1 < s.len() {
            match unescape(s[i + 1]) {
                Some(c) => read_string(s, i + 2, acc.push(c)),
                None => None,
            }
        } else {
            None
        }
    } else {
        read_string(s, i + 1, acc.push(s[i]))
    }
}

/// Whether the word `w` stands in `s` at position `i`.
pub open spec fn lit_at(s: Seq<char>, i: int, w: Seq<char>) -> bool {
    0 <= i && i + w.len() <= s.len() && s.subrange(i, i + w.len()) == w
}

/// Parses one value at `i`: a literal, an integer, a string, an array
/// or an object; yields the value and the index just past it.
pub open spec fn parse_value(s: Seq<char>, i: int) -> Option<(JVal, int)>
    decreases s.len() - i, 0int,
{
    if i < 0 || i >= s.len() {
        None
    } else if s[i] == 'n' {
        if lit_at(s, i, seq!['n', 'u', 'l', 'l']) { Some((JVal::Null, i + 4)) } else { None }
    } else if s[i] == 't' {
        if lit_at(s, i, seq!['t', 'r', 'u', 'e']) { Some((JVal::Bool(true), i + 4)) } else { None }
    } else if s[i] == 'f' {
        if lit_at(s, i, seq!['f', 'a', 'l', 's', 'e']) { Some((JVal::Bool(false), i + 5)) } else { None }
    } else if s[i] == '"' {
        match read_string(s, i + 1, Seq::empty()) {
            Some((t, j)) => Some((JVal::Str(t), j)),
            None => None,
        }
    } else if s[i] == '-' {
        if i + 1 < s.len() && is_digit(s[i + 1]) {
            let (m, j) = read_digits(s, i + 1, 0);
            if m <= 0x8000000000000000 {
                Some((JVal::Int(-m), j))
            } else {
                None
            }
        } else {
            None
        }
    } else if is_digit(s[i]) {
        let (m, j) = read_digits(s, i, 0);
        if m <= i64::MAX as int {
            Some((JVal::Int(m), j))
        } else {
            None
        }
    } else if s[i] == '[' {
        parse_items(s, i + 1, Seq::empty(), Phase::First)
    } else if s[i] == '{' {
        parse_members(s, i + 1, Seq::empty(), Phase::First)
    } else {
        None
    }
}

/// Parses the remainder of an array whose elements so far are `acc`;
/// `ph` says whether a value, a comma or the closing bracket may come
/// next.
pub open spec fn parse_items(s: Seq<char>, i: int, acc: Seq<JVal>, ph: Phase) -> Option<(JVal, int)>
    decreases s.len() - i, 1int,
{
    if i < 0 || i >= s.len() {
        None
    } else if s[i] == ']' && !(ph is AfterComma) {
        Some((JVal::Arr(acc), i + 1))
    } else if s[i] == ',' && ph is AfterValue {
        parse_items(s, i + 1, acc, Phase::AfterComma)
    } else if !(ph is AfterValue) {
        match parse_value(s, i) {
            Some((v, j)) => parse_items(
                s,
                if i + 1 <= j && j <= s.len() { j } else { s.len() as int },
                acc.push(v),
                Phase::AfterValue,
            ),
            None => None,
        }
    } else {
        None
    }
}

/// Parses the remainder of an object whose members so far are `acc`.
pub open spec fn parse_members(
    s: Seq<char>,
    i: int,
    acc: Seq<(Seq<char>, JVal)>,
    ph: Phase,
) -> Option<(JVal, int)>
    decreases s.len() - i, 1int,
{
    if i < 0 || i >= s.len() {
        None
    } else if s[i] == '}' && !(ph is AfterComma) {
        Some((JVal::Obj(acc), i + 1))
    } else if s[i] == ',' && ph is AfterValue {
        parse_members(s, i + 1, acc, Phase::AfterComma)
    } else if s[i] == '"' && !(ph is AfterValue) {
        match read_string(s, i + 1, Seq::empty()) {
            Some((k, j0)) => {
                let j = if j0 >= i + 1 { j0 } else { i + 1 };
                if j < s.len() && s[j] == ':' {
                    match parse_value(s, j + 1) {
                        Some((v, j2)) => parse_members(
                            s,
                            if j + 2 <= j2 && j2 <= s.len() { j2 } else { s.len() as int },
                            acc.push((k, v)),
                            Phase::AfterValue,
                        ),
                        None => None,
                    }
                } else {
                    None
                }
            },
            None => None,
        }
    } else {
        None
    }
}

/// The wire grammar: a line is well-formed when it is exactly one value
/// with nothing after it, and then denotes that value.
pub open spec fn parse_text(s: Seq<char>) -> Option<JVal> {
    match parse_value(s, 0) {
        Some((v, j)) => if j == s.len() { Some(v) } else { None },
        None => None,
    }
}

/// What a backslash escape denotes, executably.
fn unescape_x(c: char) -> (r: Option<char>)
    ensures
        r == unescape(c),
{
    if c == '"' { Some('"') }
    else if c == '\\' { Some('\\') }
    else if c == '/' { Some('/') }
    else if c == 'n' { Some('\n') }
    else if c == 'r' { Some('\r') }
    else if c == 't' { Some('\t') }
    else { None }
}

/// Whether the three characters after position `i` are `c1 c2 c3`.
fn tail3(s: &str, i: usize, c1: char, c2: char, c3: char) -> (b: bool)
    requires
        i < s@.len(),
    ensures
        b == lit_at(s@, i as int, seq![s@[i as int], c1, c2, c3]),
{
    let n = s.unicode_len();
    if n - i >= 4 {
        let b = s.get_char(i + 1) == c1 && s.get_char(i + 2) == c2 && s.get_char(i + 3) == c3;
        proof {
            let w = seq![s@[i as int], c1, c2, c3];
            if b {
                assert(s@.subrange(i as int, i as int + 4) =~= w);
            } else if lit_at(s@, i as int, w) {
                assert(s@.subrange(i as int, i as int + 4)[1] == s@[i as int + 1]);
                assert(s@.subrange(i as int, i as int + 4)[2] == s@[i as int + 2]);
                assert(s@.subrange(i as int, i as int + 4)[3] == s@[i as int + 3]);
            }
        }
        b
    } else {
        false
    }
}

/// Whether the four characters after position `i` are `c1 c2 c3 c4`.
fn tail4(s: &str, i: usize, c1: char, c2: char, c3: char, c4: char) -> (b: bool)
    requires
        i < s@.len(),
    ensures
        b == lit_at(s@, i as int, seq![s@[i as int], c1, c2, c3, c4]),
{
    let n = s.unicode_len();
    if n - i >= 5 {
        let b = s.get_char(i + 1) == c1 && s.get_char(i + 2) == c2 && s.get_char(i + 3) == c3
            && s.get_char(i + 4) == c4;
        proof {
            let w = seq![s@[i as int], c1, c2, c3, c4];
            if b {
                assert(s@.subrange(i as int, i as int + 5) =~= w);
            } else if lit_at(s@, i as int, w) {
                assert(s@.subrange(i as int, i as int + 5)[1] == s@[i as int + 1]);
                assert(s@.subrange(i as int, i as int + 5)[2] == s@[i as int + 2]);
                assert(s@.subrange(i as int, i as int + 5)[3] == s@[i as int + 3]);
                assert(s@.subrange(i as int, i as int + 5)[4] == s@[i as int + 4]);
            }
        }
        b
    } else {
        false
    }
}

/// Reads a run of digits; `None` reports a value too large for any
/// number of the model.
fn scan_digits(s: &str, i: usize) -> (r: Option<(u64, usize)>)
    requires
        i <= s@.len(),
    ensures
        match r {
            Some((m, j)) => {
                &&& read_digits(s@, i as int, 0) == (m as int, j as int)
                &&& m <= 0x8000000000000000u64
                &&& i <= j <= s@.len()
                &&& ((i < s@.len() && is_digit(s@[i as int])) ==> i < j)
            },
            None => read_digits(s@, i as int, 0).0 > 0x8000000000000000,
        },
{
    let n = s.unicode_len();
    let mut cur = i;
    let mut acc: u64 = 0;
    loop
        invariant
            i <= cur <= n,
            n == s@.len(),
            acc <= 0x8000000000000000u64,
            read_digits(s@, i as int, 0) == read_digits(s@, cur as int, acc as int),
        decreases n - cur,
    {
        if cur == n {
            return Some((acc, cur));
        }
        let c = s.get_char(cur);
        let u = c as u32;
        if 48 <= u && u <= 57 {
            let d = (u - 48) as u64;
            if acc < 922337203685477580u64 || (acc == 922337203685477580u64 && d <= 8) {
                proof {
                    assert(acc as int * 10 + d as int <= 0x8000000000000000);
                }
                acc = acc * 10 + d;
                cur = cur + 1;
            } else {
                proof {
                    assert(acc as int * 10 + d as int > 0x8000000000000000);
                    lemma_read_digits_lower(s@, cur as int + 1, acc as int * 10 + digit_val(s@[cur as int]));
                }
                return None;
            }
        } else {
            return Some((acc, cur));
        }
    }
}

/// Reads a string body just past the opening quote; yields the decoded
/// body and the index after the closing quote.
fn scan_string(s: &str, i: usize) -> (r: Option<(String, usize)>)
    requires
        i <= s@.len(),
    ensures
        match r {
            Some((t, j)) => {
                &&& read_string(s@, i as int, Seq::empty()) == Some((t@, j as int))
                &&& i < j <= s@.len()
            },
            None => read_string(s@, i as int, Seq::empty()) is None,
        },
{
    let n = s.unicode_len();
    let mut cur = i;
    let mut acc = String::new();
    loop
        invariant
            i <= cur <= n,
            n == s@.len(),
            read_string(s@, i as int, Seq::empty()) == read_string(s@, cur as int, acc@),
        decreases n - cur,
    {
        if cur == n {
            return None;
        }
        let c = s.get_char(cur);
        if c == '"' {
            return Some((acc, cur + 1));
        } else if c == '\\' {
            if cur + 1 == n {
                return None;
            }
            let e = s.get_char(cur + 1);
            match unescape_x(e) {
                Some(decoded) => {
                    let ghost acca = acc@;
                    crate::json::push_char(&mut acc, decoded);
                    proof {
                        assert(acc@ =~= acca.push(decoded));
                    }
                    cur = cur + 2;
                },
                None => {
                    return None;
                },
            }
        } else {
            let ghost acca = acc@;
            crate::json::push_char(&mut acc, c);
            proof {
                assert(acc@ =~= acca.push(c));
            }
            cur = cur + 1;
        }
    }
}

/// Parses one value at `i`, executably.
fn scan_value(s: &str, i: usize) -> (r: Option<(Json, usize)>)
    requires
        i <= s@.len(),
    ensures
        match r {
            Some((v, j)) => parse_value(s@, i as int) == Some((v@, j as int)) && i < j <= s@.len(),
            None => parse_value(s@, i as int) is None,
        },
    decreases s@.len() - i, 0int,
{
    let n = s.unicode_len();
    if i == n {
        return None;
    }
    let c = s.get_char(i);
    if c == 'n' {
        if tail3(s, i, 'u', 'l', 'l') {
            Some((Json::Null, i + 4))
        } else {
            None
        }
    } else if c == 't' {
        if tail3(s, i, 'r', 'u', 'e') {
            Some((Json::Bool(true), i + 4))
        } else {
            None
        }
    } else if c == 'f' {
        if tail4(s, i, 'a', 'l', 's', 'e') {
            Some((Json::Bool(false), i + 5))
        } else {
            None
        }
    } else if c == '"' {
        match scan_string(s, i + 1) {
            Some((t, j)) => Some((Json::Str(t), j)),
            None => None,
        }
    } else if c == '-' {
        if i + 1 < n {
            let c2 = s.get_char(i + 1);
            let u2 = c2 as u32;
            if 48 <= u2 && u2 <= 57 {
                match scan_digits(s, i + 1) {
                    Some((m, j)) => {
                        if m == 0x8000000000000000u64 {
                            Some((Json::Int(i64::MIN), j))
                        } else {
                            Some((Json::Int(-(m as i64)), j))
                        }
                    },
                    None => None,
                }
            } else {
                None
            }
        } else {
            None
        }
    } else if 48 <= (c as u32) && (c as u32) <= 57 {
        match scan_digits(s, i) {
            Some((m, j)) => {
                if m <= 0x7fffffffffffffffu64 {
                    Some((Json::Int(m as i64), j))
                } else {
                    None
                }
            },
            None => None,
        }
    } else if c == '[' {
        let acc: Vec<Json> = Vec::new();
        scan_items(s, i + 1, acc, Phase::First)
    } else if c == '{' {
        let acc: Vec<(String, Json)> = Vec::new();
        scan_members(s, i + 1, acc, Phase::First)
    } else {
        None
    }
}

/// Parses the remainder of an array, executably.
fn scan_items(s: &str, i: usize, acc: Vec<Json>, ph: Phase) -> (r: Option<(Json, usize)>)
    requires
        i <= s@.len(),
    ensures
        match r {
            Some((v, j)) => parse_items(s@, i as int, jlist(acc@), ph) == Some((v@, j as int))
                && i < j <= s@.len(),
            None => parse_items(s@, i as int, jlist(acc@), ph) is None,
        },
    decreases s@.len() - i, 1int,
{
    let n = s.unicode_len();
    if i == n {
        return None;
    }
    let c = s.get_char(i);
    if c == ']' && !(ph == Phase::AfterComma) {
        return Some((Json::Arr(acc), i + 1));
    }
    if c == ',' && ph == Phase::AfterValue {
        return scan_items(s, i + 1, acc, Phase::AfterComma);
    }
    if !(ph == Phase::AfterValue) {
        match scan_value(s, i) {
            Some((v, j)) => {
                let ghost acc0 = acc@;
                let ghost vv = v@;
                let mut acc2 = acc;
                acc2.push(v);
                proof {
                    assert(acc2@.drop_last() =~= acc0);
                    assert(jlist(acc2@) == jlist(acc0).push(vv));
                }
                scan_items(s, j, acc2, Phase::AfterValue)
            },
            None => None,
        }
    } else {
        None
    }
}

/// Parses the remainder of an object, executably.
fn scan_members(s: &str, i: usize, acc: Vec<(String, Json)>, ph: Phase) -> (r: Option<(Json, usize)>)
    requires
        i <= s@.len(),
    ensures
        match r {
            Some((v, j)) => parse_members(s@, i as int, jfields(acc@), ph) == Some((v@, j as int))
                && i < j <= s@.len(),
            None => parse_members(s@, i as int, jfields(acc@), ph) is None,
        },
    decreases s@.len() - i, 1int,
{
    let n = s.unicode_len();
    if i == n {
        return None;
    }
    let c = s.get_char(i);
    if c == '}' && !(ph == Phase::AfterComma) {
        return Some((Json::Obj(acc), i + 1));
    }
    if c == ',' && ph == Phase::AfterValue {
        return scan_members(s, i + 1, acc, Phase::AfterComma);
    }
    if c == '"' && !(ph == Phase::AfterValue) {
        match scan_string(s, i + 1) {
            Some((k, j)) => {
                if j < n && s.get_char(j) == ':' {
                    match scan_value(s, j + 1) {
                        Some((v, j2)) => {
                            let ghost acc0 = acc@;
                            let ghost kk = k@;
                            let ghost vv = v@;
                            let mut acc2 = acc;
                            acc2.push((k, v));
                            proof {
                                assert(acc2@.drop_last() =~= acc0);
                                assert(jfields(acc2@) == jfields(acc0).push((kk, vv)));
                            }
                            scan_members(s, j2, acc2, Phase::AfterValue)
                        },
                        None => None,
                    }
                } else {
                    None
                }
            },
            None => None,
        }
    } else {
        None
    }
}

/// Parses one line; `None` when it is not a well-formed line of the
/// grammar.
pub fn parse_json(s: &str) -> (r: Option<Json>)
    ensures
        match r {
            Some(v) => parse_text(s@) == Some(v@),
            None => parse_text(s@) is None,
        },
{
    match scan_value(s, 0) {
        Some((v, j)) => {
            if j == s.unicode_len() {
                Some(v)
            } else {
                None
            }
        },
        None => None,
    }
}

} // verus!
