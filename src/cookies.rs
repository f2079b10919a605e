//! The stored credential record and its text form.
//!
//! The record is written as a small JSON object, one field per line, in a
//! fixed order. Reading it back gives the same three fields.

use vstd::prelude::*;
use crate::error::BiliLiveError;
use crate::text::{all_digits, char_from_code, char_from_digit, is_scalar, lemma_decimal_nonneg, char_vec, digits_value, int_text, is_digit, lemma_nat_text, parse_digits, push_char, push_decimal, push_text, string_of};

verus! {

/// The credentials of one logged-in account.
#[derive(Debug, Clone, PartialEq, Eq)]
pub struct Cookies {
    pub room_id: i32,
    pub sessdata: String,
    pub csrf_token: String,
}

impl View for Cookies {
    type V = (int, Seq<char>, Seq<char>);

    open spec fn view(&self) -> (int, Seq<char>, Seq<char>) {
        (self.room_id as int, self.sessdata@, self.csrf_token@)
    }
}

pub open spec fn head_lit() -> Seq<char> {
    "{\n  \"room_id\": "@
}

pub open spec fn sessdata_lit() -> Seq<char> {
    ",\n  \"sessdata\": \""@
}

pub open spec fn csrf_lit() -> Seq<char> {
    ",\n  \"csrf_token\": \""@
}

pub open spec fn tail_lit() -> Seq<char> {
    "\n}"@
}

/// How one character is written inside a quoted string.
pub open spec fn escape_char(c: char) -> Seq<char> {
    if c == '"' {
        seq!['\\', '"']
    } else if c == '\\' {
        seq!['\\', '\\']
    } else if c == '\n' {
        seq!['\\', 'n']
    } else if c == '\r' {
        seq!['\\', 'r']
    } else if c == '\t' {
        seq!['\\', 't']
    } else if c == '\u{8}' {
        seq!['\\', 'b']
    } else if c == '\u{c}' {
        seq!['\\', 'f']
    } else if 0 <= (c as int) < 0x20 {
        seq!['\\', 'u', '0', '0', hex_digit((c as int) / 16), hex_digit((c as int) % 16)]
    } else {
        seq![c]
    }
}

/// The lower-case hexadecimal digit for `d`, below 16.
pub open spec fn hex_digit(d: int) -> char {
    if d < 10 {
        (d + ('0' as int)) as char
    } else {
        (d - 10 + ('a' as int)) as char
    }
}

/// The value of a hexadecimal digit, of either case.
pub open spec fn hex_value(c: char) -> Option<int> {
    if '0' <= c && c <= '9' {
        Some((c as int) - ('0' as int))
    } else if 'a' <= c && c <= 'f' {
        Some((c as int) - ('a' as int) + 10)
    } else if 'A' <= c && c <= 'F' {
        Some((c as int) - ('A' as int) + 10)
    } else {
        None
    }
}

/// The value of four hexadecimal digits.
pub open spec fn hex4_value(t: Seq<char>) -> Option<int> {
    match (hex_value(t[0]), hex_value(t[1]), hex_value(t[2]), hex_value(t[3])) {
        (Some(a), Some(b), Some(c), Some(d)) => Some(a * 4096 + b * 256 + c * 16 + d),
        _ => None,
    }
}

/// How a string is written between quotes.
pub open spec fn escape(s: Seq<char>) -> Seq<char>
    decreases s.len(),
{
    if s.len() == 0 {
        seq![]
    } else {
        escape_char(s[0]) + escape(s.drop_first())
    }
}

/// The character that an escape `\c` stands for.
pub open spec fn unescaped_char(c: char) -> Option<char> {
    if c == '"' {
        Some('"')
    } else if c == '\\' {
        Some('\\')
    } else if c == '/' {
        Some('/')
    } else if c == 'n' {
        Some('\n')
    } else if c == 'r' {
        Some('\r')
    } else if c == 't' {
        Some('\t')
    } else if c == 'b' {
        Some('\u{8}')
    } else if c == 'f' {
        Some('\u{c}')
    } else {
        None
    }
}

/// Reads the body of a quoted string up to its closing quote: the characters
/// it stands for, and what follows the quote.
pub open spec fn read_string(t: Seq<char>) -> Option<(Seq<char>, Seq<char>)>
    decreases t.len(),
{
    if t.len() == 0 {
        None
    } else if t[0] == '"' {
        Some((seq![], t.drop_first()))
    } else if t[0] == '\\' {
        if t.len() < 2 {
            None
        } else if t[1] == 'u' {
            if t.len() < 6 {
                None
            } else {
                match hex4_value(t.subrange(2, 6)) {
                    Some(v) => if is_scalar(v) {
                        match read_string(t.subrange(6, t.len() as int)) {
                            Some((s, r)) => Some((seq![v as char] + s, r)),
                            None => None,
                        }
                    } else {
                        None
                    },
                    None => None,
                }
            }
        } else {
            match unescaped_char(t[1]) {
                Some(c) => match read_string(t.subrange(2, t.len() as int)) {
                    Some((s, r)) => Some((seq![c] + s, r)),
                    None => None,
                },
                None => None,
            }
        }
    } else if 0 <= (t[0] as int) < 0x20 {
        None
    } else {
        match read_string(t.drop_first()) {
            Some((s, r)) => Some((seq![t[0]] + s, r)),
            None => None,
        }
    }
}

pub open spec fn is_number_char(c: char) -> bool {
    is_digit(c) || c == '-'
}

/// The length of the run of digits and `-` at the start of `t`.
pub open spec fn number_span(t: Seq<char>) -> nat
    decreases t.len(),
{
    if t.len() > 0 && is_number_char(t[0]) {
        1 + number_span(t.drop_first())
    } else {
        0
    }
}

/// The integer that a numeral with an optional leading `-` denotes.
pub open spec fn int_value(s: Seq<char>) -> Option<int> {
    if s.len() > 0 && s[0] == '-' {
        match json_digits_value(s.drop_first()) {
            Some(v) => Some(-v),
            None => None,
        }
    } else {
        json_digits_value(s)
    }
}

/// The value of the digits of a JSON number: no leading zero, but for `0`
/// itself.
pub open spec fn json_digits_value(d: Seq<char>) -> Option<int> {
    if d.len() > 1 && d[0] == '0' {
        None
    } else {
        digits_value(d)
    }
}

/// What follows `lit` in `t`, where `t` starts with it.
pub open spec fn after(t: Seq<char>, lit: Seq<char>) -> Option<Seq<char>> {
    if lit.len() <= t.len() && t.take(lit.len() as int) == lit {
        Some(t.skip(lit.len() as int))
    } else {
        None
    }
}

/// The text form of a record.
pub open spec fn cookies_text(k: (int, Seq<char>, Seq<char>)) -> Seq<char> {
    head_lit() + int_text(k.0) + sessdata_lit() + escape(k.1) + seq!['"'] + csrf_lit()
        + escape(k.2) + seq!['"'] + tail_lit()
}

/// The token after the session field: the anti-forgery token, then the end.
pub open spec fn csrf_value(c: Seq<char>) -> Option<Seq<char>> {
    match after(c, csrf_lit()) {
        None => None,
        Some(d) => match read_string(d) {
            None => None,
            Some((csrf, e)) => if e == tail_lit() || e == tail_lit().push('\n') {
                Some(csrf)
            } else {
                None
            },
        },
    }
}

/// The two tokens, after the room number.
pub open spec fn tokens_value(b: Seq<char>) -> Option<(Seq<char>, Seq<char>)> {
    match after(b, sessdata_lit()) {
        None => None,
        Some(x) => match read_string(x) {
            None => None,
            Some((sess, c)) => match csrf_value(c) {
                None => None,
                Some(csrf) => Some((sess, csrf)),
            },
        },
    }
}

/// The record, after its opening line.
pub open spec fn fields_value(a: Seq<char>) -> Option<(int, Seq<char>, Seq<char>)> {
    let k = number_span(a) as int;
    match int_value(a.take(k)) {
        None => None,
        Some(room) => if !(i32::MIN <= room <= i32::MAX) {
            None
        } else {
            match tokens_value(a.skip(k)) {
                None => None,
                Some((sess, csrf)) => Some((room, sess, csrf)),
            }
        },
    }
}

/// The record that a text holds, if it is one.
pub open spec fn cookies_value(t: Seq<char>) -> Option<(int, Seq<char>, Seq<char>)> {
    match after(t, head_lit()) {
        None => None,
        Some(a) => fields_value(a),
    }
}

proof fn lemma_after(lit: Seq<char>, x: Seq<char>)
    ensures
        after(lit + x, lit) == Some(x),
{
    assert((lit + x).take(lit.len() as int) =~= lit);
    assert((lit + x).skip(lit.len() as int) =~= x);
}

proof fn lemma_hex_digit(d: int)
    requires
        0 <= d < 16,
    ensures
        hex_value(hex_digit(d)) == Some(d),
{
}

proof fn lemma_read_control(c: char, t: Seq<char>, u: Seq<char>)
    requires
        escape_char(c).len() == 6,
        t == escape_char(c) + u,
    ensures
        t.subrange(6, t.len() as int) == u,
        t[0] == '\\' && t[1] == 'u' && t.len() >= 6,
        hex4_value(t.subrange(2, 6)) == Some(c as int),
        is_scalar(c as int),
        ((c as int) as char) == c,
{
    let x = c as int;
    assert(0 <= x < 0x20);
    assert(t.subrange(6, t.len() as int) =~= u);
    assert(t.subrange(2, 6) =~= seq!['0', '0', hex_digit(x / 16), hex_digit(x % 16)]);
    lemma_hex_digit(x / 16);
    lemma_hex_digit(x % 16);
    assert(hex_value('0') == Some(0int));
}

proof fn lemma_read_escape(s: Seq<char>, rest: Seq<char>)
    ensures
        read_string(escape(s) + seq!['"'] + rest) == Some((s, rest)),
    decreases s.len(),
{
    let t = escape(s) + seq!['"'] + rest;
    if s.len() == 0 {
        assert(t =~= seq!['"'] + rest);
        assert(t.drop_first() =~= rest);
    } else {
        let c = s[0];
        let tail = s.drop_first();
        lemma_read_escape(tail, rest);
        let u = escape(tail) + seq!['"'] + rest;
        assert(t =~= escape_char(c) + u);
        if escape_char(c).len() == 2 {
            assert(t.subrange(2, t.len() as int) =~= u);
        } else if escape_char(c).len() == 6 {
            lemma_read_control(c, t, u);
        } else {
            assert(t.drop_first() =~= u);
        }
        assert(seq![c] + tail =~= s);
    }
}

proof fn lemma_span_run(x: Seq<char>, rest: Seq<char>)
    requires
        forall|i: int| 0 <= i < x.len() ==> is_number_char(#[trigger] x[i]),
    ensures
        number_span(x + rest) == x.len() + number_span(rest),
    decreases x.len(),
{
    if x.len() > 0 {
        assert((x + rest)[0] == x[0]);
        assert((x + rest).drop_first() =~= x.drop_first() + rest);
        lemma_span_run(x.drop_first(), rest);
    } else {
        assert(x + rest =~= rest);
    }
}

proof fn lemma_nat_text_first(m: nat)
    ensures
        m == 0 ==> crate::text::nat_text(m).len() == 1,
        m > 0 ==> crate::text::nat_text(m)[0] != '0',
    decreases m,
{
    if m >= 10 {
        lemma_nat_text_first(m / 10);
        lemma_nat_text(m / 10);
        assert(crate::text::nat_text(m)[0] == crate::text::nat_text(m / 10)[0]);
    }
}

proof fn lemma_int_text(n: int)
    ensures
        int_value(int_text(n)) == Some(n),
        forall|i: int| 0 <= i < int_text(n).len() ==> is_number_char(#[trigger] int_text(n)[i]),
{
    let m: nat = if n < 0 { (-n) as nat } else { n as nat };
    lemma_nat_text(m);
    let d = crate::text::nat_text(m);
    assert(is_digit(d[0]));
    lemma_nat_text_first(m);
    if n < 0 {
        assert(int_text(n).drop_first() =~= d);
        assert forall|i: int| 0 <= i < int_text(n).len() implies is_number_char(#[trigger] int_text(n)[i]) by {
            if i > 0 {
                assert(int_text(n)[i] == d[i - 1]);
            }
        }
    } else {
        assert(forall|i: int| 0 <= i < d.len() ==> is_digit(#[trigger] d[i]));
    }
}

proof fn lemma_csrf_value(c: Seq<char>)
    ensures
        csrf_value(csrf_lit() + escape(c) + seq!['"'] + tail_lit()) == Some(c),
{
    let d = escape(c) + seq!['"'] + tail_lit();
    assert(csrf_lit() + escape(c) + seq!['"'] + tail_lit() =~= csrf_lit() + d);
    lemma_after(csrf_lit(), d);
    lemma_read_escape(c, tail_lit());
}

proof fn lemma_tokens_value(s: Seq<char>, c: Seq<char>)
    ensures
        tokens_value(sessdata_lit() + escape(s) + seq!['"'] + csrf_lit() + escape(c) + seq!['"']
            + tail_lit()) == Some((s, c)),
{
    let rest = csrf_lit() + escape(c) + seq!['"'] + tail_lit();
    let x = escape(s) + seq!['"'] + rest;
    assert(sessdata_lit() + escape(s) + seq!['"'] + csrf_lit() + escape(c) + seq!['"']
        + tail_lit() =~= sessdata_lit() + x);
    lemma_after(sessdata_lit(), x);
    lemma_read_escape(s, rest);
    lemma_csrf_value(c);
}

proof fn lemma_fields_value(v: (int, Seq<char>, Seq<char>))
    requires
        i32::MIN <= v.0 <= i32::MAX,
    ensures
        fields_value(int_text(v.0) + sessdata_lit() + escape(v.1) + seq!['"'] + csrf_lit()
            + escape(v.2) + seq!['"'] + tail_lit()) == Some(v),
{
    let num = int_text(v.0);
    let t3 = sessdata_lit() + escape(v.1) + seq!['"'] + csrf_lit() + escape(v.2) + seq!['"']
        + tail_lit();
    let a = num + t3;
    assert(int_text(v.0) + sessdata_lit() + escape(v.1) + seq!['"'] + csrf_lit() + escape(v.2)
        + seq!['"'] + tail_lit() =~= a);
    lemma_int_text(v.0);
    reveal_strlit(",\n  \"sessdata\": \"");
    assert(t3[0] == ',');
    assert(number_span(t3) == 0);
    lemma_span_run(num, t3);
    assert(a.take(num.len() as int) =~= num);
    assert(a.skip(num.len() as int) =~= t3);
    lemma_tokens_value(v.1, v.2);
}

/// Writing a record and reading the text back gives the same record, field
/// for field: the text is never empty, and `Cookies::from_json` of the text
/// that `to_json` wrote succeeds with the record that was written.
pub proof fn lemma_cookies_round_trip(k: Cookies)
    ensures
        cookies_value(cookies_text(k@)) == Some(k@),
        cookies_text(k@).len() > 0,
        forall|r: Result<Cookies, BiliLiveError>| #[trigger] loaded_from(cookies_text(k@), r)
            ==> (r is Ok && r->Ok_0@ == k@),
{
    let v = k@;
    let a = int_text(v.0) + sessdata_lit() + escape(v.1) + seq!['"'] + csrf_lit() + escape(v.2)
        + seq!['"'] + tail_lit();
    assert(cookies_text(v) =~= head_lit() + a);
    lemma_after(head_lit(), a);
    lemma_fields_value(v);
    reveal_strlit("{\n  \"room_id\": ");
    assert(cookies_text(v)[0] == '{');
}

proof fn lemma_escape_push(x: Seq<char>, c: char)
    ensures
        escape(x.push(c)) == escape(x) + escape_char(c),
    decreases x.len(),
{
    if x.len() == 0 {
        assert(x.push(c).drop_first() =~= Seq::<char>::empty());
        assert(escape(x.push(c)) =~= escape_char(c) + escape(Seq::<char>::empty()));
        assert(escape(x.push(c)) =~= escape(x) + escape_char(c));
    } else {
        assert(x.push(c).drop_first() =~= x.drop_first().push(c));
        lemma_escape_push(x.drop_first(), c);
        assert(escape(x.push(c)) =~= escape(x) + escape_char(c));
    }
}

fn push_escaped(r: &mut String, s: &str)
    ensures
        final(r)@ == old(r)@ + escape(s@),
{
    let cs = char_vec(s);
    let ghost start = r@;
    let mut i: usize = 0;
    assert(escape(cs@.take(0)) =~= Seq::<char>::empty()) by {
        assert(cs@.take(0).len() == 0);
    }
    while i < cs.len()
        invariant
            i <= cs@.len(),
            r@ =~= start + escape(cs@.take(i as int)),
        decreases cs@.len() - i,
    {
        let c = cs[i];
        proof {
            assert(cs@.take(i as int + 1) =~= cs@.take(i as int).push(c));
            lemma_escape_push(cs@.take(i as int), c);
        }
        if c == '"' {
            push_text(r, "\\\"");
            proof { reveal_strlit("\\\""); }
        } else if c == '\\' {
            push_text(r, "\\\\");
            proof { reveal_strlit("\\\\"); }
        } else if c == '\n' {
            push_text(r, "\\n");
            proof { reveal_strlit("\\n"); }
        } else if c == '\r' {
            push_text(r, "\\r");
            proof { reveal_strlit("\\r"); }
        } else if c == '\t' {
            push_text(r, "\\t");
            proof { reveal_strlit("\\t"); }
        } else if c == '\u{8}' {
            push_text(r, "\\b");
            proof { reveal_strlit("\\b"); }
        } else if c == '\u{c}' {
            push_text(r, "\\f");
            proof { reveal_strlit("\\f"); }
        } else if '\u{0}' <= c && c <= '\u{1f}' {
            let x = c as u32;
            assert(x as int == c as int);
            push_text(r, "\\u00");
            proof { reveal_strlit("\\u00"); }
            push_char(r, hex_char(x / 16));
            push_char(r, hex_char(x % 16));
        } else {
            push_char(r, c);
        }
        i = i + 1;
    }
    assert(cs@.take(cs@.len() as int) =~= cs@);
}

fn hex_char(d: u32) -> (c: char)
    requires
        d < 16,
    ensures
        c == hex_digit(d as int),
{
    if d < 10 {
        char_from_digit(d)
    } else if d == 10 {
        'a'
    } else if d == 11 {
        'b'
    } else if d == 12 {
        'c'
    } else if d == 13 {
        'd'
    } else if d == 14 {
        'e'
    } else {
        'f'
    }
}

fn hex_val(c: char) -> (r: Option<u32>)
    ensures
        r == (match hex_value(c) {
            Some(v) => Some(v as u32),
            None => None,
        }),
{
    if '0' <= c && c <= '9' {
        Some((c as u32) - ('0' as u32))
    } else if 'a' <= c && c <= 'f' {
        Some((c as u32) - ('a' as u32) + 10)
    } else if 'A' <= c && c <= 'F' {
        Some((c as u32) - ('A' as u32) + 10)
    } else {
        None
    }
}

/// The value of the four hexadecimal digits at `pos`.
fn hex4(t: &[char], pos: usize) -> (r: Option<u32>)
    requires
        pos + 4 <= t@.len(),
    ensures
        r == (match hex4_value(t@.subrange(pos as int, pos + 4)) {
            Some(v) => Some(v as u32),
            None => None,
        }),
{
    let ghost w = t@.subrange(pos as int, pos + 4);
    assert(w[0] == t@[pos as int] && w[1] == t@[pos + 1] && w[2] == t@[pos + 2] && w[3]
        == t@[pos + 3]);
    let a = match hex_val(t[pos]) {
        Some(a) => a,
        None => return None,
    };
    let b = match hex_val(t[pos + 1]) {
        Some(b) => b,
        None => return None,
    };
    let c = match hex_val(t[pos + 2]) {
        Some(c) => c,
        None => return None,
    };
    let d = match hex_val(t[pos + 3]) {
        Some(d) => d,
        None => return None,
    };
    Some(a * 4096 + b * 256 + c * 16 + d)
}

/// Where `lit` ends, if `t` holds it at `pos`.
fn skip_lit(t: &[char], pos: usize, lit: &str) -> (r: Option<usize>)
    requires
        pos <= t@.len(),
    ensures
        match after(t@.skip(pos as int), lit@) {
            Some(x) => r == Some((pos + lit@.len()) as usize) && pos + lit@.len() <= t@.len()
                && t@.skip(r->0 as int) == x,
            None => r is None,
        },
{
    let l = char_vec(lit);
    let ghost u = t@.skip(pos as int);
    let n = t.len();
    if l.len() > n - pos {
        return None;
    }
    let mut i: usize = 0;
    while i < l.len()
        invariant
            n == t@.len(),
            l@ == lit@,
            u == t@.skip(pos as int),
            pos + l@.len() <= t@.len(),
            i <= l@.len(),
            forall|j: int| 0 <= j < i ==> t@[pos + j] == l@[j],
        decreases l@.len() - i,
    {
        if t[pos + i] != l[i] {
            assert(u.take(l@.len() as int)[i as int] != l@[i as int]);
            return None;
        }
        i = i + 1;
    }
    assert(u.take(l@.len() as int) =~= l@);
    assert(t@.skip((pos + l@.len()) as int) =~= u.skip(l@.len() as int));
    Some(pos + l.len())
}

/// Whether what follows `pos` in `t` is exactly `lit`.
fn rest_is(t: &[char], pos: usize, lit_text: &str) -> (r: bool)
    requires
        pos <= t@.len(),
    ensures
        r == (t@.skip(pos as int) == lit_text@),
{
    let ghost lit = lit_text@;
    match skip_lit(t, pos, lit_text) {
        Some(e) => {
            if e == t.len() {
                assert(t@.skip(pos as int) =~= t@.skip(pos as int).take(lit.len() as int));
                true
            } else {
                assert(t@.skip(pos as int).len() != lit.len());
                false
            }
        },
        None => {
            proof {
                if t@.skip(pos as int) == lit {
                    assert(t@.skip(pos as int).take(lit.len() as int) =~= lit);
                }
            }
            false
        },
    }
}

/// Where the run of digits and `-` that starts at `pos` ends.
fn number_end(t: &[char], pos: usize) -> (r: usize)
    requires
        pos <= t@.len(),
    ensures
        r == pos + number_span(t@.skip(pos as int)),
        r <= t@.len(),
{
    let mut i: usize = pos;
    while i < t.len() && (('0' <= t[i] && t[i] <= '9') || t[i] == '-')
        invariant
            pos <= i <= t@.len(),
            number_span(t@.skip(pos as int)) == (i - pos) + number_span(t@.skip(i as int)),
        decreases t@.len() - i,
    {
        assert(t@.skip(i as int).drop_first() =~= t@.skip(i as int + 1));
        i = i + 1;
    }
    i
}

/// The room number written between `from` and `to`.
fn parse_room(t: &[char], from: usize, to: usize) -> (r: Option<i32>)
    requires
        from <= to <= t@.len(),
    ensures
        r == (match int_value(t@.subrange(from as int, to as int)) {
            Some(v) => if i32::MIN <= v <= i32::MAX { Some(v as i32) } else { None },
            None => None,
        }),
{
    let ghost x = t@.subrange(from as int, to as int);
    assert(x.len() > 0 ==> x[0] == t@[from as int]);
    proof {
        if all_digits(x) {
            lemma_decimal_nonneg(x);
        }
        if x.len() > 0 && all_digits(x.drop_first()) {
            lemma_decimal_nonneg(x.drop_first());
        }
    }
    if from < to && t[from] == '-' {
        assert(x.drop_first() =~= t@.subrange(from + 1, to as int));
        if to - from > 2 && t[from + 1] == '0' {
            return None;
        }
        match parse_digits(t, from + 1, to) {
            Some(v) => if v <= 2147483648 {
                Some((0 - (v as i64)) as i32)
            } else {
                None
            },
            None => None,
        }
    } else {
        if to - from > 1 && t[from] == '0' {
            return None;
        }
        match parse_digits(t, from, to) {
            Some(v) => if v <= 2147483647 {
                Some(v as i32)
            } else {
                None
            },
            None => None,
        }
    }
}

/// Reads a quoted string body that starts at `pos`: its characters, and
/// where the closing quote ends.
#[verifier::rlimit(60)]
fn read_quoted(t: &[char], pos: usize) -> (r: Option<(String, usize)>)
    requires
        pos <= t@.len(),
    ensures
        match read_string(t@.skip(pos as int)) {
            Some((s, rest)) => match r {
                Some((x, p)) => x@ == s && p <= t@.len() && t@.skip(p as int) == rest,
                None => false,
            },
            None => r is None,
        },
{
    let mut acc: Vec<char> = Vec::new();
    let mut i: usize = pos;
    while i < t.len()
        invariant
            pos <= i <= t@.len(),
            read_string(t@.skip(pos as int)) == (match read_string(t@.skip(i as int)) {
                Some((s, rest)) => Some((acc@ + s, rest)),
                None => None,
            }),
        decreases t@.len() - i,
    {
        let ghost u = t@.skip(i as int);
        let c = t[i];
        if c == '"' {
            assert(u.drop_first() =~= t@.skip(i as int + 1));
            assert(acc@ + Seq::<char>::empty() =~= acc@);
            let s = string_of(acc.as_slice());
            return Some((s, i + 1));
        } else if c == '\\' {
            if i + 1 >= t.len() {
                return None;
            }
            let e = t[i + 1];
            if e == 'u' {
                if t.len() - i < 6 {
                    return None;
                }
                let v = match hex4(t, i + 2) {
                    Some(v) => v,
                    None => return None,
                };
                let d = match char_from_code(v) {
                    Some(d) => d,
                    None => return None,
                };
                assert(d == ((v as int) as char));
                assert(u.subrange(6, u.len() as int) =~= t@.skip(i as int + 6));
                proof {
                    match read_string(t@.skip(i as int + 6)) {
                        Some((s, rest)) => {
                            assert(acc@.push(d) + s =~= acc@ + (seq![d] + s));
                        },
                        None => {},
                    }
                }
                acc.push(d);
                i = i + 6;
                continue;
            }
            let d: char = if e == '"' {
                '"'
            } else if e == '\\' {
                '\\'
            } else if e == '/' {
                '/'
            } else if e == 'n' {
                '\n'
            } else if e == 'r' {
                '\r'
            } else if e == 't' {
                '\t'
            } else if e == 'b' {
                '\u{8}'
            } else if e == 'f' {
                '\u{c}'
            } else {
                return None;
            };
            assert(u.subrange(2, u.len() as int) =~= t@.skip(i as int + 2));
            proof {
                match read_string(t@.skip(i as int + 2)) {
                    Some((s, rest)) => {
                        assert(acc@.push(d) + s =~= acc@ + (seq![d] + s));
                    },
                    None => {},
                }
            }
            acc.push(d);
            i = i + 2;
        } else if '\u{0}' <= c && c <= '\u{1f}' {
            return None;
        } else {
            assert(u.drop_first() =~= t@.skip(i as int + 1));
            proof {
                match read_string(t@.skip(i as int + 1)) {
                    Some((s, rest)) => {
                        assert(acc@.push(c) + s =~= acc@ + (seq![c] + s));
                    },
                    None => {},
                }
            }
            acc.push(c);
            i = i + 1;
        }
    }
    assert(t@.skip(i as int).len() == 0);
    None
}

/// Reads a record from its characters.
fn decode(t: &[char]) -> (r: Option<Cookies>)
    ensures
        match cookies_value(t@) {
            Some(v) => r is Some && r->0@ == v,
            None => r is None,
        },
{
    assert(t@.skip(0) =~= t@);
    let a = match skip_lit(t, 0, "{\n  \"room_id\": ") {
        Some(a) => a,
        None => return None,
    };
    let ghost av = t@.skip(a as int);
    let e = number_end(t, a);
    assert(av.take(e - a) =~= t@.subrange(a as int, e as int));
    assert(av.skip(e - a) =~= t@.skip(e as int));
    let room = match parse_room(t, a, e) {
        Some(room) => room,
        None => return None,
    };
    let x = match skip_lit(t, e, ",\n  \"sessdata\": \"") {
        Some(x) => x,
        None => return None,
    };
    let (sess, c) = match read_quoted(t, x) {
        Some(p) => p,
        None => return None,
    };
    let d = match skip_lit(t, c, ",\n  \"csrf_token\": \"") {
        Some(d) => d,
        None => return None,
    };
    let (csrf, e2) = match read_quoted(t, d) {
        Some(p) => p,
        None => return None,
    };
    proof {
        reveal_strlit("\n}");
        reveal_strlit("\n}\n");
        assert("\n}\n"@ =~= tail_lit().push('\n'));
    }
    if rest_is(t, e2, "\n}") || rest_is(t, e2, "\n}\n") {
        Some(Cookies { room_id: room, sessdata: sess, csrf_token: csrf })
    } else {
        None
    }
}

impl Cookies {
    /// The text form of the record.
    pub fn to_json(&self) -> (r: String)
        ensures
            r@ == cookies_text(self@),
    {
        let mut r = String::new();
        push_text(&mut r, "{\n  \"room_id\": ");
        push_decimal(&mut r, self.room_id as i64);
        push_text(&mut r, ",\n  \"sessdata\": \"");
        push_escaped(&mut r, self.sessdata.as_str());
        push_char(&mut r, '"');
        push_text(&mut r, ",\n  \"csrf_token\": \"");
        push_escaped(&mut r, self.csrf_token.as_str());
        push_char(&mut r, '"');
        push_text(&mut r, "\n}");
        assert(r@ =~= cookies_text(self@));
        r
    }

    /// Reads a record from its text form. An empty text, as an empty file
    /// holds, means that nothing was stored; any other text that is no record
    /// is malformed.
    pub fn from_json(text: &str) -> (r: Result<Cookies, BiliLiveError>)
        ensures
            loaded_from(text@, r),
    {
        let t = char_vec(text);
        if t.len() == 0 {
            return Err(BiliLiveError::NotFound);
        }
        match decode(t.as_slice()) {
            Some(k) => Ok(k),
            None => Err(BiliLiveError::JsonError("malformed credential record".to_owned())),
        }
    }
}

/// What reading the credential file gave.
#[derive(Debug, Clone, PartialEq, Eq)]
pub enum StoredText {
    /// There is no such file.
    Missing,
    /// The file is there but could not be read; the reason.
    Unreadable(String),
    /// What the file holds.
    Text(String),
}

/// What `Cookies::from_json` returns for `text`.
pub open spec fn loaded_from(text: Seq<char>, r: Result<Cookies, BiliLiveError>) -> bool {
    if text.len() == 0 {
        r == Err::<Cookies, BiliLiveError>(BiliLiveError::NotFound)
    } else {
        match cookies_value(text) {
            Some(v) => r is Ok && r->Ok_0@ == v,
            None => r matches Err(BiliLiveError::JsonError(_)),
        }
    }
}

/// The stored credentials, from what reading their file gave. A missing or
/// empty file means that nobody has logged in.
pub fn cookies_from_file(read: StoredText) -> (r: Result<Cookies, BiliLiveError>)
    ensures
        read is Missing ==> r == Err::<Cookies, BiliLiveError>(BiliLiveError::NotFound),
        read matches StoredText::Unreadable(why) ==> (r matches Err(BiliLiveError::IoError(m))
            && m@ == why@),
        read matches StoredText::Text(t) ==> loaded_from(t@, r),
{
    match read {
        StoredText::Missing => Err(BiliLiveError::NotFound),
        StoredText::Unreadable(why) => Err(BiliLiveError::IoError(why)),
        StoredText::Text(t) => Cookies::from_json(t.as_str()),
    }
}

/// The credentials of a fresh login, where the room number fits and neither
/// token is empty.
pub fn login_cookies(room_id: i64, sessdata: String, csrf_token: String) -> (r: Result<
    Cookies,
    BiliLiveError,
>)
    ensures
        i32::MIN <= room_id <= i32::MAX && sessdata@.len() > 0 && csrf_token@.len() > 0 ==> (
        r matches Ok(k) && k.room_id == room_id && k.sessdata@ == sessdata@ && k.csrf_token@
            == csrf_token@),
        !(i32::MIN <= room_id <= i32::MAX && sessdata@.len() > 0 && csrf_token@.len() > 0)
            ==> r matches Err(BiliLiveError::ParseError(_)),
{
    if room_id < -2147483648 || room_id > 2147483647 {
        return Err(BiliLiveError::ParseError("room number out of range".to_owned()));
    }
    if sessdata.as_str().is_empty() || csrf_token.as_str().is_empty() {
        return Err(BiliLiveError::ParseError("empty token".to_owned()));
    }
    Ok(Cookies { room_id: room_id as i32, sessdata, csrf_token })
}

} // verus!
