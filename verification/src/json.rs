//! The untyped structured values that travel over the wire, and the
//! line codec for them: one value per line, encoded as compact JSON
//! (no whitespace between tokens, integers only as numbers).
//!
//! `Json` is the executable tree; `JVal` is its mathematical value.
//! `enc_val` defines what the encoder emits; the grammar of accepted
//! lines lives in the `parse` module.

use vstd::prelude::*;

verus! {

/// An untyped structured value: null / bool / integer / string /
/// array / object, as one line of the stream encodes it.
#[derive(Debug, PartialEq, Eq)]
pub enum Json {
    Null,
    Bool(bool),
    Int(i64),
    Str(String),
    Arr(Vec<Json>),
    Obj(Vec<(String, Json)>),
}

/// The mathematical value of a `Json` tree.
pub ghost enum JVal {
    Null,
    Bool(bool),
    Int(int),
    Str(Seq<char>),
    Arr(Seq<JVal>),
    Obj(Seq<(Seq<char>, JVal)>),
}

impl View for Json {
    type V = JVal;

    open spec fn view(&self) -> JVal
        decreases *self,
    {
        match self {
            Json::Null => JVal::Null,
            Json::Bool(b) => JVal::Bool(*b),
            Json::Int(n) => JVal::Int(*n as int),
            Json::Str(s) => JVal::Str(s@),
            Json::Arr(xs) => JVal::Arr(jlist(xs@)),
            Json::Obj(fs) => JVal::Obj(jfields(fs@)),
        }
    }
}

/// The mathematical values of a sequence of trees, element by element.
pub open spec fn jlist(xs: Seq<Json>) -> Seq<JVal>
    decreases xs,
{
    if xs.len() == 0 {
        Seq::empty()
    } else {
        jlist(xs.drop_last()).push(xs.last()@)
    }
}

/// The mathematical values of a sequence of members, member by member.
pub open spec fn jfields(fs: Seq<(String, Json)>) -> Seq<(Seq<char>, JVal)>
    decreases fs,
{
    if fs.len() == 0 {
        Seq::empty()
    } else {
        jfields(fs.drop_last()).push((fs.last().0@, fs.last().1@))
    }
}

/// `jlist` maps each element to its value, keeping length and order.
pub proof fn lemma_jlist(xs: Seq<Json>)
    ensures
        jlist(xs).len() == xs.len(),
        forall|i: int| 0 <= i < xs.len() ==> jlist(xs)[i] == xs[i]@,
    decreases xs.len(),
{
    if xs.len() > 0 {
        let pre = xs.drop_last();
        lemma_jlist(pre);
        assert(jlist(xs) == jlist(pre).push(xs.last()@));
        assert(jlist(xs).len() == xs.len());
        assert forall|i: int| 0 <= i < xs.len() implies jlist(xs)[i] == xs[i]@ by {
            if i < xs.len() - 1 {
                assert(jlist(pre).push(xs.last()@)[i] == jlist(pre)[i]);
                assert(pre[i] == xs[i]);
            } else {
                assert(jlist(pre).push(xs.last()@)[i] == xs.last()@);
            }
        }
    }
}

/// `jfields` maps each member to its value, keeping length and order.
pub proof fn lemma_jfields(fs: Seq<(String, Json)>)
    ensures
        jfields(fs).len() == fs.len(),
        forall|i: int| 0 <= i < fs.len()
            ==> jfields(fs)[i] == (fs[i].0@, fs[i].1@),
    decreases fs.len(),
{
    if fs.len() > 0 {
        lemma_jfields(fs.drop_last());
        assert forall|i: int| 0 <= i < fs.len() implies
            jfields(fs)[i] == (fs[i].0@, fs[i].1@) by {
            if i < fs.len() - 1 {
                assert(jfields(fs)[i] == jfields(fs.drop_last())[i]);
                assert(fs.drop_last()[i] == fs[i]);
            } else {
                assert(jfields(fs)[i] == (fs.last().0@, fs.last().1@));
            }
        }
    }
}

/// The decimal digit character for `n` (0 through 9).
pub open spec fn digit_char(n: int) -> char {
    if n == 0 { '0' }
    else if n == 1 { '1' }
    else if n == 2 { '2' }
    else if n == 3 { '3' }
    else if n == 4 { '4' }
    else if n == 5 { '5' }
    else if n == 6 { '6' }
    else if n == 7 { '7' }
    else if n == 8 { '8' }
    else { '9' }
}

/// Decimal digits of `n`, most significant first, with no leading zeros
/// (a lone zero for `n == 0`).
pub open spec fn dec_digits(n: nat) -> Seq<char>
    decreases n,
{
    if n < 10 {
        seq![digit_char(n as int)]
    } else {
        dec_digits(n / 10) + seq![digit_char((n % 10) as int)]
    }
}

/// The encoding of the integer `n`: optional minus sign, then digits.
pub open spec fn enc_int(n: int) -> Seq<char> {
    if n < 0 {
        seq!['-'] + dec_digits((-n) as nat)
    } else {
        dec_digits(n as nat)
    }
}

/// How one character of a string body is emitted: the quote, the
/// backslash and the three common control characters are escaped,
/// everything else stands as itself.
pub open spec fn enc_escape(c: char) -> Seq<char> {
    if c == '"' { seq!['\\', '"'] }
    else if c == '\\' { seq!['\\', '\\'] }
    else if c == '\n' { seq!['\\', 'n'] }
    else if c == '\r' { seq!['\\', 'r'] }
    else if c == '\t' { seq!['\\', 't'] }
    else { seq![c] }
}

/// The body of an encoded string: each character escaped as needed.
pub open spec fn enc_str_body(s: Seq<char>) -> Seq<char>
    decreases s.len(),
{
    if s.len() == 0 {
        Seq::empty()
    } else {
        enc_str_body(s.drop_last()) + enc_escape(s.last())
    }
}

/// The encoding of a string value: the body between double quotes.
pub open spec fn enc_string(s: Seq<char>) -> Seq<char> {
    seq!['"'] + enc_str_body(s) + seq!['"']
}

/// What the encoder emits for a value.
pub open spec fn enc_val(v: JVal) -> Seq<char>
    decreases v,
{
    match v {
        JVal::Null => seq!['n', 'u', 'l', 'l'],
        JVal::Bool(b) => if b { seq!['t', 'r', 'u', 'e'] } else { seq!['f', 'a', 'l', 's', 'e'] },
        JVal::Int(n) => enc_int(n),
        JVal::Str(s) => enc_string(s),
        JVal::Arr(vs) => seq!['['] + enc_list(vs) + seq![']'],
        JVal::Obj(fs) => seq!['{'] + enc_fields(fs) + seq!['}'],
    }
}

/// The comma-separated encodings of the elements of an array.
pub open spec fn enc_list(vs: Seq<JVal>) -> Seq<char>
    decreases vs,
{
    if vs.len() == 0 {
        Seq::empty()
    } else if vs.len() == 1 {
        enc_val(vs.last())
    } else {
        enc_list(vs.drop_last()) + seq![','] + enc_val(vs.last())
    }
}

/// The comma-separated `"key":value` encodings of the members of an object.
pub open spec fn enc_fields(fs: Seq<(Seq<char>, JVal)>) -> Seq<char>
    decreases fs,
{
    if fs.len() == 0 {
        Seq::empty()
    } else if fs.len() == 1 {
        enc_field(fs.last())
    } else {
        enc_fields(fs.drop_last()) + seq![','] + enc_field(fs.last())
    }
}

/// One object member: quoted key, colon, value.
pub open spec fn enc_field(f: (Seq<char>, JVal)) -> Seq<char>
    decreases f,
{
    enc_string(f.0) + seq![':'] + enc_val(f.1)
}

/// Relies on String::push: appends exactly the one character.
#[verifier::external_body]
pub(crate) fn push_char(s: &mut String, c: char)
    ensures
        final(s)@ == old(s)@ + seq![c],
{
    s.push(c);
}

/// The decimal digit character for `n`, executably.
fn digit_char_x(n: u64) -> (c: char)
    requires
        n < 10,
    ensures
        c == digit_char(n as int),
{
    match n {
        0 => '0',
        1 => '1',
        2 => '2',
        3 => '3',
        4 => '4',
        5 => '5',
        6 => '6',
        7 => '7',
        8 => '8',
        _ => '9',
    }
}

/// Appends the decimal digits of `n` to `out`.
fn push_uint(out: &mut String, n: u64)
    ensures
        final(out)@ == old(out)@ + dec_digits(n as nat),
    decreases n,
{
    if n < 10 {
        push_char(out, digit_char_x(n));
    } else {
        push_uint(out, n / 10);
        push_char(out, digit_char_x(n % 10));
    }
}

/// Appends the encoding of the integer `n` to `out`.
fn push_int(out: &mut String, n: i64)
    ensures
        final(out)@ == old(out)@ + enc_int(n as int),
{
    if n < 0 {
        push_char(out, '-');
        let mag: u64 = if n == i64::MIN {
            9223372036854775808u64
        } else {
            (-n) as u64
        };
        assert(mag as nat == (-(n as int)) as nat);
        push_uint(out, mag);
        assert(out@ == old(out)@ + enc_int(n as int));
    } else {
        push_uint(out, n as u64);
    }
}

/// Appends the body of the encoded string `s` (everything between the
/// quotes) to `out`.
fn push_str_body(out: &mut String, s: &str)
    ensures
        final(out)@ == old(out)@ + enc_str_body(s@),
{
    let n = s.unicode_len();
    let mut i: usize = 0;
    while i < n
        invariant
            n == s@.len(),
            i <= n,
            out@ == old(out)@ + enc_str_body(s@.subrange(0, i as int)),
        decreases n - i,
    {
        let c = s.get_char(i);
        if c == '"' {
            push_char(out, '\\');
            push_char(out, '"');
        } else if c == '\\' {
            push_char(out, '\\');
            push_char(out, '\\');
        } else if c == '\n' {
            push_char(out, '\\');
            push_char(out, 'n');
        } else if c == '\r' {
            push_char(out, '\\');
            push_char(out, 'r');
        } else if c == '\t' {
            push_char(out, '\\');
            push_char(out, 't');
        } else {
            push_char(out, c);
        }
        proof {
            let pre = s@.subrange(0, i as int);
            let post = s@.subrange(0, i + 1 as int);
            assert(post.drop_last() =~= pre);
            assert(post.last() == s@[i as int]);
            assert(out@ =~= old(out)@ + enc_str_body(post));
        }
        i = i + 1;
    }
    proof {
        assert(s@.subrange(0, n as int) =~= s@);
    }
}

/// Appends the encoded string value (quotes included) to `out`.
pub(crate) fn push_string(out: &mut String, s: &str)
    ensures
        final(out)@ == old(out)@ + enc_string(s@),
{
    push_char(out, '"');
    push_str_body(out, s);
    push_char(out, '"');
    proof {
        assert(out@ =~= old(out)@ + enc_string(s@));
    }
}

impl Json {
    /// Appends the encoding of this value to `out`.
    #[verifier::loop_isolation(false)]
    pub fn write_to(&self, out: &mut String)
        ensures
            final(out)@ == old(out)@ + enc_val(self@),
        decreases *self,
    {
        match self {
            Json::Null => {
                push_char(out, 'n');
                push_char(out, 'u');
                push_char(out, 'l');
                push_char(out, 'l');
                proof {
                    assert(out@ =~= old(out)@ + enc_val(self@));
                }
            },
            Json::Bool(b) => {
                if *b {
                    push_char(out, 't');
                    push_char(out, 'r');
                    push_char(out, 'u');
                    push_char(out, 'e');
                } else {
                    push_char(out, 'f');
                    push_char(out, 'a');
                    push_char(out, 'l');
                    push_char(out, 's');
                    push_char(out, 'e');
                }
                proof {
                    assert(out@ =~= old(out)@ + enc_val(self@));
                }
            },
            Json::Int(n) => {
                push_int(out, *n);
            },
            Json::Str(s) => {
                push_string(out, s.as_str());
            },
            Json::Arr(xs) => {
                push_char(out, '[');
                let ghost vs = self@->Arr_0;
                proof {
                    lemma_jlist(xs@);
                }
                let n = xs.len();
                let mut i: usize = 0;
                while i < n
                    invariant
                        n == xs@.len(),
                        i <= n,
                        vs == jlist(xs@),
                        vs.len() == n,
                        out@ == old(out)@ + seq!['['] + enc_list(vs.subrange(0, i as int)),
                        forall|k: int| 0 <= k < n ==> #[trigger] vs[k] == xs@[k]@,
                    decreases n - i,
                {
                    if i > 0 {
                        push_char(out, ',');
                    }
                    proof {
                        assert(decreases_to!(*self => self->Arr_0));
                        assert(self->Arr_0 == *xs);
                        assert(decreases_to!(*xs => xs@));
                        assert(decreases_to!(xs@ => xs@[i as int]));
                    }
                    xs[i].write_to(out);
                    proof {
                        let pre = vs.subrange(0, i as int);
                        let post = vs.subrange(0, i + 1 as int);
                        assert(post.drop_last() =~= pre);
                        assert(post.last() == vs[i as int]);
                        if i == 0 {
                            assert(enc_list(post) == enc_val(vs[0]));
                        }
                        assert(out@ =~= old(out)@ + seq!['['] + enc_list(post));
                    }
                    i = i + 1;
                }
                push_char(out, ']');
                proof {
                    assert(vs.subrange(0, n as int) =~= vs);
                    assert(out@ =~= old(out)@ + enc_val(self@));
                }
            },
            Json::Obj(fields) => {
                push_char(out, '{');
                let ghost fs = self@->Obj_0;
                proof {
                    lemma_jfields(fields@);
                }
                let n = fields.len();
                let mut i: usize = 0;
                while i < n
                    invariant
                        n == fields@.len(),
                        i <= n,
                        fs == jfields(fields@),
                        fs.len() == n,
                        out@ == old(out)@ + seq!['{'] + enc_fields(fs.subrange(0, i as int)),
                        forall|k: int| 0 <= k < n ==>
                            #[trigger] fs[k] == (fields@[k].0@, fields@[k].1@),
                    decreases n - i,
                {
                    if i > 0 {
                        push_char(out, ',');
                    }
                    push_string(out, fields[i].0.as_str());
                    push_char(out, ':');
                    proof {
                        assert(decreases_to!(*self => self->Obj_0));
                        assert(self->Obj_0 == *fields);
                        assert(decreases_to!(*fields => fields@));
                        assert(decreases_to!(fields@ => fields@[i as int]));
                        assert(decreases_to!(fields@[i as int] => fields@[i as int].1));
                    }
                    fields[i].1.write_to(out);
                    proof {
                        let pre = fs.subrange(0, i as int);
                        let post = fs.subrange(0, i + 1 as int);
                        assert(post.drop_last() =~= pre);
                        assert(post.last() == fs[i as int]);
                        assert(enc_field(fs[i as int])
                            == enc_string(fields@[i as int].0@) + seq![':']
                                + enc_val(fields@[i as int].1@));
                        if i == 0 {
                            assert(enc_fields(post) == enc_field(fs[0]));
                        }
                        assert(out@ =~= old(out)@ + seq!['{'] + enc_fields(post));
                    }
                    i = i + 1;
                }
                push_char(out, '}');
                proof {
                    assert(fs.subrange(0, n as int) =~= fs);
                    assert(out@ =~= old(out)@ + enc_val(self@));
                }
            },
        }
    }

    /// The encoding of this value as a fresh string.
    pub fn encode(&self) -> (r: String)
        ensures
            r@ == enc_val(self@),
    {
        let mut out = String::new();
        self.write_to(&mut out);
        out
    }

    /// The member of the object named `key`, the first if several share
    /// the name; `None` for a non-object or a missing member.
    #[verifier::loop_isolation(false)]
    pub fn get<'a>(&'a self, key: &str) -> (r: Option<&'a Json>)
        ensures
            match r {
                Some(v) => get_field(self@, key@) == Some(v@),
                None => get_field(self@, key@) is None,
            },
    {
        match self {
            Json::Obj(fields) => {
                proof {
                    lemma_jfields(fields@);
                }
                let ghost fs = jfields(fields@);
                proof {
                    assert(fs.skip(0) =~= fs);
                }
                let n = fields.len();
                let mut i: usize = 0;
                while i < n
                    invariant
                        n == fields@.len(),
                        i <= n,
                        fs == jfields(fields@),
                        fs.len() == n,
                        forall|k: int| 0 <= k < n ==>
                            #[trigger] fs[k] == (fields@[k].0@, fields@[k].1@),
                        obj_lookup(fs, key@) == obj_lookup(fs.skip(i as int), key@),
                    decreases n - i,
                {
                    proof {
                        assert(fs.skip(i as int)[0] == fs[i as int]);
                        assert(fs.skip(i as int).drop_first() =~= fs.skip(i as int + 1));
                    }
                    if str_eq(fields[i].0.as_str(), key) {
                        return Some(&fields[i].1);
                    }
                    i = i + 1;
                }
                proof {
                    assert(fs.skip(n as int) =~= Seq::empty());
                }
                None
            },
            _ => None,
        }
    }

    /// A fresh tree with the same value.
    #[verifier::loop_isolation(false)]
    pub fn deep_copy(&self) -> (r: Json)
        ensures
            r@ == self@,
        decreases *self,
    {
        match self {
            Json::Null => Json::Null,
            Json::Bool(b) => Json::Bool(*b),
            Json::Int(n) => Json::Int(*n),
            Json::Str(s) => Json::Str(s.clone()),
            Json::Arr(xs) => {
                let n = xs.len();
                let mut out: Vec<Json> = Vec::new();
                let mut i: usize = 0;
                while i < n
                    invariant
                        n == xs@.len(),
                        i <= n,
                        out@.len() == i,
                        forall|k: int| 0 <= k < i ==> #[trigger] out@[k]@ == xs@[k]@,
                    decreases n - i,
                {
                    proof {
                        assert(decreases_to!(*self => self->Arr_0));
                        assert(self->Arr_0 == *xs);
                        assert(decreases_to!(*xs => xs@));
                        assert(decreases_to!(xs@ => xs@[i as int]));
                    }
                    let c = xs[i].deep_copy();
                    out.push(c);
                    i = i + 1;
                }
                proof {
                    lemma_jlist(out@);
                    lemma_jlist(xs@);
                    assert(jlist(out@) =~= jlist(xs@));
                }
                Json::Arr(out)
            },
            Json::Obj(fields) => {
                let n = fields.len();
                let mut out: Vec<(String, Json)> = Vec::new();
                let mut i: usize = 0;
                while i < n
                    invariant
                        n == fields@.len(),
                        i <= n,
                        out@.len() == i,
                        forall|k: int| 0 <= k < i ==> #[trigger] out@[k].0@ == fields@[k].0@,
                        forall|k: int| 0 <= k < i ==> #[trigger] out@[k].1@ == fields@[k].1@,
                    decreases n - i,
                {
                    proof {
                        assert(decreases_to!(*self => self->Obj_0));
                        assert(self->Obj_0 == *fields);
                        assert(decreases_to!(*fields => fields@));
                        assert(decreases_to!(fields@ => fields@[i as int]));
                        assert(decreases_to!(fields@[i as int] => fields@[i as int].1));
                    }
                    let k = fields[i].0.clone();
                    let v = fields[i].1.deep_copy();
                    out.push((k, v));
                    i = i + 1;
                }
                proof {
                    lemma_jfields(out@);
                    lemma_jfields(fields@);
                    assert(jfields(out@) =~= jfields(fields@));
                }
                Json::Obj(out)
            },
        }
    }
}

/// The value of the first member of `fs` named `key`, if any.
pub open spec fn obj_lookup(fs: Seq<(Seq<char>, JVal)>, key: Seq<char>) -> Option<JVal>
    decreases fs.len(),
{
    if fs.len() == 0 {
        None
    } else if fs[0].0 == key {
        Some(fs[0].1)
    } else {
        obj_lookup(fs.drop_first(), key)
    }
}

/// The member of `v` named `key`; `None` for a non-object or a
/// missing member.
pub open spec fn get_field(v: JVal, key: Seq<char>) -> Option<JVal> {
    match v {
        JVal::Obj(fs) => obj_lookup(fs, key),
        _ => None,
    }
}

/// Whether `s` is free of raw newlines, so that it stands on one line.
pub open spec fn line_safe(s: Seq<char>) -> bool {
    forall|k: int| 0 <= k < s.len() ==> s[k] != '\n'
}

/// Decimal digits never hold a newline.
proof fn lemma_dec_digits_safe(n: nat)
    ensures
        line_safe(dec_digits(n)),
    decreases n,
{
    if n >= 10 {
        lemma_dec_digits_safe(n / 10);
    }
}

/// An encoded integer never holds a newline.
proof fn lemma_enc_int_safe(n: int)
    ensures
        line_safe(enc_int(n)),
{
    if n < 0 {
        lemma_dec_digits_safe((-n) as nat);
    } else {
        lemma_dec_digits_safe(n as nat);
    }
}

/// An encoded string body never holds a raw newline: the newline
/// itself is emitted as its escape.
proof fn lemma_enc_str_body_safe(s: Seq<char>)
    ensures
        line_safe(enc_str_body(s)),
    decreases s.len(),
{
    if s.len() > 0 {
        lemma_enc_str_body_safe(s.drop_last());
    }
}

/// An encoded string value never holds a raw newline.
proof fn lemma_enc_string_safe(s: Seq<char>)
    ensures
        line_safe(enc_string(s)),
{
    lemma_enc_str_body_safe(s);
}

/// What the encoder emits never holds a raw newline: every value
/// stands on a single line.
pub proof fn lemma_enc_val_single_line(v: JVal)
    ensures
        line_safe(enc_val(v)),
    decreases v,
{
    match v {
        JVal::Int(n) => {
            lemma_enc_int_safe(n);
        },
        JVal::Str(s) => {
            lemma_enc_string_safe(s);
        },
        JVal::Arr(vs) => {
            lemma_enc_list_safe(vs);
        },
        JVal::Obj(fs) => {
            lemma_enc_fields_safe(fs);
        },
        _ => {},
    }
}

/// Encoded array elements never hold a raw newline.
proof fn lemma_enc_list_safe(vs: Seq<JVal>)
    ensures
        line_safe(enc_list(vs)),
    decreases vs,
{
    if vs.len() == 1 {
        lemma_enc_val_single_line(vs.last());
    } else if vs.len() > 1 {
        lemma_enc_list_safe(vs.drop_last());
        lemma_enc_val_single_line(vs.last());
    }
}

/// One encoded object member never holds a raw newline.
proof fn lemma_enc_field_safe(f: (Seq<char>, JVal))
    ensures
        line_safe(enc_field(f)),
    decreases f,
{
    lemma_enc_string_safe(f.0);
    lemma_enc_val_single_line(f.1);
    assert forall|k: int| 0 <= k < enc_field(f).len() implies enc_field(f)[k] != '\n' by {
        let a = enc_string(f.0);
        let c = enc_val(f.1);
        if k < a.len() {
            assert(enc_field(f)[k] == a[k]);
        } else if k == a.len() {
            assert(enc_field(f)[k] == ':');
        } else {
            assert(enc_field(f)[k] == c[k - a.len() - 1]);
        }
    }
}

/// Encoded object members never hold a raw newline.
proof fn lemma_enc_fields_safe(fs: Seq<(Seq<char>, JVal)>)
    ensures
        line_safe(enc_fields(fs)),
    decreases fs,
{
    if fs.len() == 1 {
        lemma_enc_field_safe(fs.last());
    } else if fs.len() > 1 {
        lemma_enc_fields_safe(fs.drop_last());
        lemma_enc_field_safe(fs.last());
    }
}

/// Whether two strings hold the same characters.
pub fn str_eq(a: &str, b: &str) -> (r: bool)
    ensures
        r == (a@ == b@),
{
    let na = a.unicode_len();
    let nb = b.unicode_len();
    if na != nb {
        return false;
    }
    let mut i: usize = 0;
    while i < na
        invariant
            na == a@.len(),
            nb == b@.len(),
            na == nb,
            i <= na,
            forall|k: int| 0 <= k < i ==> a@[k] == b@[k],
        decreases na - i,
    {
        if a.get_char(i) != b.get_char(i) {
            return false;
        }
        i = i + 1;
    }
    proof {
        assert(a@ =~= b@);
    }
    true
}

} // verus!
