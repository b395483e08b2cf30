//! The wire format: one JSON object per line, tagged by a `type` field.
//!
//! ```text
//! {"type":"ping"}
//! {"type":"pong"}
//! {"type":"clip","clip":"<text>"}
//! {"type":"ack"}
//! ```
//!
//! Clipboard text is written as a JSON string literal. A record is accepted
//! exactly when it is the encoding of some message, so every accepted line
//! names one message and nothing else is silently taken for one.
use vstd::prelude::*;
use crate::text::{chars_of, matches_at, push_char};

verus! {

broadcast use vstd::utf8::char_u32_cast;

/// A message on the wire.
#[derive(Debug, Clone)]
pub enum Message {
    Ping,
    Pong,
    Clip { clip: String },
    Ack,
}

/// The mathematical value of a [`Message`].
pub enum MessageModel {
    Ping,
    Pong,
    Clip(Seq<char>),
    Ack,
}

impl View for Message {
    type V = MessageModel;

    open spec fn view(&self) -> MessageModel {
        match self {
            Message::Ping => MessageModel::Ping,
            Message::Pong => MessageModel::Pong,
            Message::Clip { clip } => MessageModel::Clip(clip@),
            Message::Ack => MessageModel::Ack,
        }
    }
}

/// Why a line could not be decoded.
#[derive(Debug, Clone, Copy, PartialEq, Eq, Structural)]
pub enum DecodeError {
    /// The line holds no characters but, at most, its separator.
    Empty,
    /// The line is not the encoding of any message.
    Malformed,
}

/// Lowercase hexadecimal digit of `n`, for `n < 16`.
pub open spec fn hex_digit(n: u32) -> char {
    if n == 0 { '0' } else if n == 1 { '1' } else if n == 2 { '2' } else if n == 3 { '3' }
    else if n == 4 { '4' } else if n == 5 { '5' } else if n == 6 { '6' } else if n == 7 { '7' }
    else if n == 8 { '8' } else if n == 9 { '9' } else if n == 10 { 'a' } else if n == 11 { 'b' }
    else if n == 12 { 'c' } else if n == 13 { 'd' } else if n == 14 { 'e' } else { 'f' }
}

/// How one character is written inside a JSON string literal: quote and
/// backslash are escaped, as are control characters, with the short form
/// where JSON has one and `\u00XX` otherwise.
pub open spec fn escape_char(c: char) -> Seq<char> {
    if c == '"' {
        seq!['\\', '"']
    } else if c == '\\' {
        seq!['\\', '\\']
    } else if c == '\n' {
        seq!['\\', 'n']
    } else if c == '\r' {
        seq!['\\', 'r']
    } else if c == '\t' {
        seq!['\\', 't']
    } else if c == '\x08' {
        seq!['\\', 'b']
    } else if c == '\x0c' {
        seq!['\\', 'f']
    } else if (c as u32) < 32 {
        seq!['\\', 'u', '0', '0', if (c as u32) < 16 { '0' } else { '1' }, hex_digit((c as u32) % 16)]
    } else {
        seq![c]
    }
}

/// The escaped form of a whole text.
pub open spec fn escape(s: Seq<char>) -> Seq<char>
    decreases s.len(),
{
    if s.len() == 0 {
        Seq::empty()
    } else {
        escape_char(s[0]) + escape(s.drop_first())
    }
}

/// `s` as a JSON string literal.
pub open spec fn quoted(s: Seq<char>) -> Seq<char> {
    seq!['"'] + escape(s) + seq!['"']
}

/// `{"type":"`
pub open spec fn head() -> Seq<char> {
    seq!['{', '"', 't', 'y', 'p', 'e', '"', ':', '"']
}

/// `"}`
pub open spec fn tail() -> Seq<char> {
    seq!['"', '}']
}

/// `{"type":"clip","clip":`
pub open spec fn clip_head() -> Seq<char> {
    head() + seq!['c', 'l', 'i', 'p', '"', ',', '"', 'c', 'l', 'i', 'p', '"', ':']
}

/// The record of a message, without the line separator.
pub open spec fn record(m: MessageModel) -> Seq<char> {
    match m {
        MessageModel::Ping => head() + seq!['p', 'i', 'n', 'g'] + tail(),
        MessageModel::Pong => head() + seq!['p', 'o', 'n', 'g'] + tail(),
        MessageModel::Ack => head() + seq!['a', 'c', 'k'] + tail(),
        MessageModel::Clip(s) => clip_head() + quoted(s) + seq!['}'],
    }
}

/// The encoding of a message: its record followed by the line separator.
pub open spec fn encoded(m: MessageModel) -> Seq<char> {
    record(m).push('\n')
}

/// Whether `line` is the record of `m`, with or without its separator.
pub open spec fn is_line_of(line: Seq<char>, m: MessageModel) -> bool {
    line == record(m) || line == encoded(m)
}

/// What decoding `line` yields.
pub open spec fn decoded(line: Seq<char>) -> Result<MessageModel, DecodeError> {
    if exists|m: MessageModel| is_line_of(line, m) {
        Ok(choose|m: MessageModel| is_line_of(line, m))
    } else if line.len() == 0 || line == seq!['\n'] {
        Err(DecodeError::Empty)
    } else {
        Err(DecodeError::Malformed)
    }
}


proof fn lemma_escape_append(a: Seq<char>, c: char)
    ensures
        escape(a.push(c)) == escape(a) + escape_char(c),
    decreases a.len(),
{
    if a.len() == 0 {
        assert(a.push(c).drop_first() =~= Seq::<char>::empty());
        assert(a.push(c)[0] == c);
        assert(escape(a.push(c).drop_first()) == Seq::<char>::empty());
        assert(escape(a) == Seq::<char>::empty());
        assert(escape(a.push(c)) =~= escape(a) + escape_char(c));
    } else {
        assert(a.push(c).drop_first() =~= a.drop_first().push(c));
        assert(a.push(c)[0] == a[0]);
        lemma_escape_append(a.drop_first(), c);
        assert(escape(a.push(c)) == escape_char(a[0]) + (escape(a.drop_first()) + escape_char(c)));
        assert(escape(a.push(c)) =~= escape(a) + escape_char(c));
    }
}

/// No escaped character is a proper prefix of another: two that both begin
/// the same text are the same.
proof fn lemma_escape_char_unique(x: char, y: char, t: Seq<char>)
    requires
        escape_char(x).len() <= t.len(),
        escape_char(y).len() <= t.len(),
        t.take(escape_char(x).len() as int) == escape_char(x),
        t.take(escape_char(y).len() as int) == escape_char(y),
    ensures
        x == y,
{
    let ex = escape_char(x);
    let ey = escape_char(y);
    assert(ex[0] == t[0] && ey[0] == t[0]);
    if ex.len() >= 2 && ey.len() >= 2 {
        assert(ex[1] == t[1] && ey[1] == t[1]);
        if ex.len() == 6 && ey.len() == 6 {
            assert(ex[4] == t[4] && ey[4] == t[4]);
            assert(ex[5] == t[5] && ey[5] == t[5]);
            assert((x as u32) == (y as u32));
        }
    }
}

proof fn lemma_escape_prefix(a: Seq<char>, s: Seq<char>)
    requires
        escape(a).len() < escape(s).len(),
        escape(s).take(escape(a).len() as int) == escape(a),
    ensures
        a.len() < s.len(),
        a == s.take(a.len() as int),
        escape(s).subrange(escape(a).len() as int, (escape(a).len() + escape_char(s[a.len() as int]).len()) as int)
            == escape_char(s[a.len() as int]),
        escape(a).len() + escape_char(s[a.len() as int]).len() <= escape(s).len(),
    decreases a.len(),
{
    let es = escape(s);
    assert(s.len() > 0);
    let e0 = escape_char(s[0]);
    assert(es == e0 + escape(s.drop_first()));
    if a.len() == 0 {
        assert(es.subrange(0, e0.len() as int) =~= e0);
        assert(a =~= s.take(0));
    } else {
        let ea = escape(a);
        let a0 = escape_char(a[0]);
        assert(ea == a0 + escape(a.drop_first()));
        assert(es.take(a0.len() as int) =~= a0) by {
            assert(forall|k: int| 0 <= k < a0.len() ==> es[k] == ea[k]);
        }
        assert(es.take(e0.len() as int) =~= e0);
        lemma_escape_char_unique(a[0], s[0], es);
        let rest = escape(s.drop_first());
        let ra = escape(a.drop_first());
        assert(rest.take(ra.len() as int) =~= ra) by {
            assert(forall|k: int| 0 <= k < ra.len() ==> rest[k] == es[a0.len() + k]);
            assert(forall|k: int| 0 <= k < ra.len() ==> ra[k] == ea[a0.len() + k]);
        }
        lemma_escape_prefix(a.drop_first(), s.drop_first());
        assert(a =~= s.take(a.len() as int)) by {
            assert(forall|k: int| 1 <= k < a.len() ==> a[k] == a.drop_first()[k - 1]);
        }
        let i = a.len() as int;
        assert(s[i] == s.drop_first()[i - 1]);
        let c = escape_char(s[i]);
        assert(es.subrange(ea.len() as int, (ea.len() + c.len()) as int) =~= rest.subrange(
            ra.len() as int,
            (ra.len() + c.len()) as int,
        ));
    }
}

/// Different texts have different escaped forms.
pub proof fn lemma_escape_injective(a: Seq<char>, s: Seq<char>)
    requires
        escape(a) == escape(s),
    ensures
        a == s,
    decreases a.len(),
{
    if a.len() == 0 {
        if s.len() > 0 {
            assert(escape(s).len() >= escape_char(s[0]).len());
        }
        assert(a =~= s);
    } else {
        assert(escape(a).len() >= escape_char(a[0]).len());
        assert(s.len() > 0);
        let e = escape(a);
        assert(e.take(escape_char(a[0]).len() as int) =~= escape_char(a[0]));
        assert(e.take(escape_char(s[0]).len() as int) =~= escape_char(s[0]));
        lemma_escape_char_unique(a[0], s[0], e);
        let n = escape_char(a[0]).len() as int;
        assert(escape(a.drop_first()) =~= e.subrange(n, e.len() as int));
        assert(escape(s.drop_first()) =~= e.subrange(n, e.len() as int));
        lemma_escape_injective(a.drop_first(), s.drop_first());
        assert(a =~= s) by {
            assert(forall|k: int| 1 <= k < a.len() ==> a[k] == a.drop_first()[k - 1]);
            assert(forall|k: int| 1 <= k < s.len() ==> s[k] == s.drop_first()[k - 1]);
        }
    }
}


/// The value of a lowercase hexadecimal digit.
pub open spec fn hex_value_of(c: char) -> Option<u32> {
    if c == '0' { Some(0) } else if c == '1' { Some(1) } else if c == '2' { Some(2) }
    else if c == '3' { Some(3) } else if c == '4' { Some(4) } else if c == '5' { Some(5) }
    else if c == '6' { Some(6) } else if c == '7' { Some(7) } else if c == '8' { Some(8) }
    else if c == '9' { Some(9) } else if c == 'a' { Some(10) } else if c == 'b' { Some(11) }
    else if c == 'c' { Some(12) } else if c == 'd' { Some(13) } else if c == 'e' { Some(14) }
    else if c == 'f' { Some(15) } else { None }
}

proof fn lemma_hex_value_of_digit(n: u32)
    requires
        n < 16,
    ensures
        hex_value_of(hex_digit(n)) == Some(n),
{
}

fn hex_value(c: char) -> (r: Option<u32>)
    ensures
        r == hex_value_of(c),
        r is Some ==> r->0 < 16 && hex_digit(r->0) == c,
{
    if c == '0' { Some(0) } else if c == '1' { Some(1) } else if c == '2' { Some(2) }
    else if c == '3' { Some(3) } else if c == '4' { Some(4) } else if c == '5' { Some(5) }
    else if c == '6' { Some(6) } else if c == '7' { Some(7) } else if c == '8' { Some(8) }
    else if c == '9' { Some(9) } else if c == 'a' { Some(10) } else if c == 'b' { Some(11) }
    else if c == 'c' { Some(12) } else if c == 'd' { Some(13) } else if c == 'e' { Some(14) }
    else if c == 'f' { Some(15) } else { None }
}

/// Reads the one escaped character that starts at `v[j]` and ends before
/// `v[hi]`, with the number of characters it takes.
fn escaped_char_at(v: &Vec<char>, j: usize, hi: usize) -> (r: Option<(char, usize)>)
    requires
        j < hi <= v.len(),
    ensures
        r is Some ==> ({
            let (c, k) = r->0;
            &&& j + k <= hi
            &&& k == escape_char(c).len()
            &&& v@.subrange(j as int, (j + k) as int) == escape_char(c)
        }),
        r is None ==> forall|c: char|
            !(j + escape_char(c).len() <= hi && #[trigger] escape_char(c) == v@.subrange(
                j as int,
                j + escape_char(c).len(),
            )),
{
    let c = v[j];
    if c != '\\' {
        if c == '"' || (c as u32) < 32u32 {
            proof {
                assert forall|x: char|
                    !(j + escape_char(x).len() <= hi && #[trigger] escape_char(x) == v@.subrange(
                        j as int,
                        j + escape_char(x).len(),
                    )) by {
                    if j + escape_char(x).len() <= hi && escape_char(x) == v@.subrange(
                        j as int,
                        j + escape_char(x).len(),
                    ) {
                        assert(escape_char(x)[0] == c);
                    }
                }
            }
            return None;
        }
        assert(v@.subrange(j as int, j + 1) =~= escape_char(c));
        return Some((c, 1));
    }
    if j + 1 >= hi {
        proof {
            assert forall|x: char|
                !(j + escape_char(x).len() <= hi && #[trigger] escape_char(x) == v@.subrange(
                    j as int,
                    j + escape_char(x).len(),
                )) by {
                if j + escape_char(x).len() <= hi && escape_char(x) == v@.subrange(
                    j as int,
                    j + escape_char(x).len(),
                ) {
                    assert(escape_char(x)[0] == c);
                }
            }
        }
        return None;
    }
    let d = v[j + 1];
    let short: Option<char> = if d == '"' {
        Some('"')
    } else if d == '\\' {
        Some('\\')
    } else if d == 'n' {
        Some('\n')
    } else if d == 'r' {
        Some('\r')
    } else if d == 't' {
        Some('\t')
    } else if d == 'b' {
        Some('\x08')
    } else if d == 'f' {
        Some('\x0c')
    } else {
        None
    };
    if let Some(x) = short {
        assert(v@.subrange(j as int, j + 2) =~= escape_char(x));
        return Some((x, 2));
    }
    if !(d == 'u' && hi - j > 5 && v[j + 2] == '0' && v[j + 3] == '0' && (v[j + 4] == '0'
        || v[j + 4] == '1')) {
        proof {
            assert forall|x: char|
                !(j + escape_char(x).len() <= hi && #[trigger] escape_char(x) == v@.subrange(
                    j as int,
                    j + escape_char(x).len(),
                )) by {
                if j + escape_char(x).len() <= hi && escape_char(x) == v@.subrange(
                    j as int,
                    j + escape_char(x).len(),
                ) {
                    lemma_escape_char_shape(x, v@, j as int);
                }
            }
        }
        return None;
    }
    let low = match hex_value(v[j + 5]) {
        Some(l) => l,
        None => {
            proof {
                assert forall|x: char|
                    !(j + escape_char(x).len() <= hi && #[trigger] escape_char(x) == v@.subrange(
                        j as int,
                        j + escape_char(x).len(),
                    )) by {
                    if j + escape_char(x).len() <= hi && escape_char(x) == v@.subrange(
                        j as int,
                        j + escape_char(x).len(),
                    ) {
                        lemma_escape_char_shape(x, v@, j as int);
                    }
                }
            }
            return None;
        },
    };
    let val: u32 = if v[j + 4] == '1' { 16 + low } else { low };
    if val == 8 || val == 9 || val == 10 || val == 12 || val == 13 {
        proof {
            assert forall|x: char|
                !(j + escape_char(x).len() <= hi && #[trigger] escape_char(x) == v@.subrange(
                    j as int,
                    j + escape_char(x).len(),
                )) by {
                if j + escape_char(x).len() <= hi && escape_char(x) == v@.subrange(
                    j as int,
                    j + escape_char(x).len(),
                ) {
                    lemma_escape_char_shape(x, v@, j as int);
                }
            }
        }
        return None;
    }
    let x = (val as u8) as char;
    assert(x as u32 == val);
    assert(v@.subrange(j as int, j + 6) =~= escape_char(x));
    Some((x, 6))
}

proof fn lemma_escape_char_shape(x: char, t: Seq<char>, j: int)
    requires
        0 <= j,
        j + escape_char(x).len() <= t.len(),
        escape_char(x) == t.subrange(j, j + escape_char(x).len()),
    ensures
        escape_char(x).len() == 1 ==> t[j] == x && x != '"' && x != '\\' && (x as u32) >= 32,
        escape_char(x).len() >= 2 ==> t[j] == '\\',
        escape_char(x).len() == 2 ==> (t[j + 1] == '"' ==> x == '"') && (t[j + 1] == '\\' ==> x
            == '\\') && (t[j + 1] == 'n' ==> x == '\n') && (t[j + 1] == 'r' ==> x == '\r') && (t[j
            + 1] == 't' ==> x == '\t') && (t[j + 1] == 'b' ==> x == '\x08') && (t[j + 1] == 'f' ==> x
            == '\x0c') && (t[j + 1] == '"' || t[j + 1] == '\\' || t[j + 1] == 'n' || t[j + 1] == 'r'
            || t[j + 1] == 't' || t[j + 1] == 'b' || t[j + 1] == 'f'),
        escape_char(x).len() == 6 ==> {
            &&& t[j + 1] == 'u'
            &&& t[j + 2] == '0'
            &&& t[j + 3] == '0'
            &&& t[j + 4] == (if (x as u32) < 16 { '0' } else { '1' })
            &&& hex_value_of(t[j + 5]) == Some((x as u32) % 16)
            &&& (x as u32) < 32
            &&& (x as u32) != 8 && (x as u32) != 9 && (x as u32) != 10 && (x as u32) != 12 && (x
                as u32) != 13
        },
        escape_char(x).len() == 1 || escape_char(x).len() == 2 || escape_char(x).len() == 6,
{
    let e = escape_char(x);
    assert(forall|k: int| 0 <= k < e.len() ==> e[k] == t[j + k]);
    assert(e[0] == t[j]);
    if e.len() >= 2 {
        assert(e[1] == t[j + 1]);
    }
    if e.len() == 6 {
        assert(e[2] == t[j + 2] && e[3] == t[j + 3] && e[4] == t[j + 4] && e[5] == t[j + 5]);
        lemma_hex_value_of_digit((x as u32) % 16);
    }
}

/// Reads the text whose escaped form is `v[lo..hi]`, if there is one.
fn unescape_range(v: &Vec<char>, lo: usize, hi: usize) -> (r: Option<String>)
    requires
        lo <= hi <= v.len(),
    ensures
        r is Some ==> escape(r->0@) == v@.subrange(lo as int, hi as int),
        r is None ==> forall|s: Seq<char>| escape(s) != v@.subrange(lo as int, hi as int),
{
    let mut out = String::new();
    let mut j: usize = lo;
    while j < hi
        invariant
            lo <= j <= hi <= v.len(),
            escape(out@) == v@.subrange(lo as int, j as int),
        decreases hi - j,
    {
        match escaped_char_at(v, j, hi) {
            Some((c, k)) => {
                proof {
                    lemma_escape_append(out@, c);
                    assert(v@.subrange(lo as int, (j + k) as int) =~= v@.subrange(lo as int, j as int)
                        + v@.subrange(j as int, (j + k) as int));
                }
                push_char(&mut out, c);
                j = j + k;
            },
            None => {
                proof {
                    let w = v@.subrange(lo as int, hi as int);
                    assert forall|s: Seq<char>| escape(s) != w by {
                        if escape(s) == w {
                            let eo = escape(out@);
                            assert(escape(s).take(eo.len() as int) =~= eo);
                            lemma_escape_prefix(out@, s);
                            let x = s[out@.len() as int];
                            assert(escape(s).subrange(eo.len() as int, (eo.len() + escape_char(x).len()) as int)
                                =~= v@.subrange(j as int, j + escape_char(x).len()));
                        }
                    }
                }
                return None;
            },
        }
    }
    assert(v@.subrange(lo as int, hi as int) == v@.subrange(lo as int, j as int));
    Some(out)
}

proof fn lemma_record_injective(a: MessageModel, b: MessageModel)
    requires
        record(a) == record(b),
    ensures
        a == b,
{
    let r = record(a);
    assert(r[9] == record(b)[9]);
    assert(r[10] == record(b)[10]);
    if let MessageModel::Clip(x) = a {
        if let MessageModel::Clip(y) = b {
            let n = clip_head().len() + 1;
            assert(escape(x) =~= r.subrange(n as int, r.len() - 2));
            assert(escape(y) =~= r.subrange(n as int, r.len() - 2));
            lemma_escape_injective(x, y);
        } else {
            assert(r.len() != record(b).len() || r[11] != record(b)[11]);
        }
    } else if let MessageModel::Clip(y) = b {
        assert(r.len() != record(b).len() || r[11] != record(b)[11]);
    }
}

/// Where `line` ends with its separator, it matches a record by what comes
/// before the separator; otherwise by all of it.
proof fn lemma_line_of_body(line: Seq<char>, n: int, m: MessageModel)
    requires
        n == (if line.len() > 0 && line.last() == '\n' { line.len() - 1 } else { line.len() as int }),
    ensures
        is_line_of(line, m) == (line.take(n) == record(m)),
{
    let r = record(m);
    assert(r.last() == '}');
    if line.len() > 0 && line.last() == '\n' {
        if line.take(n) == r {
            assert(line =~= r.push('\n'));
        }
        if line == r.push('\n') {
            assert(line.take(n) =~= r);
        }
    } else {
        assert(line.take(n) =~= line);
        assert(line != r.push('\n') || line.len() == 0 || line.last() == '\n');
    }
}

/// Encoding a message and decoding the result gives that message back.
pub proof fn lemma_round_trip(m: MessageModel)
    ensures
        decoded(encoded(m)) == Ok::<MessageModel, DecodeError>(m),
{
    assert(is_line_of(encoded(m), m));
    let c = choose|x: MessageModel| is_line_of(encoded(m), x);
    if encoded(m) == record(c) {
        assert(record(c).last() == '}');
    } else {
        assert(record(c) =~= encoded(c).drop_last());
        assert(record(m) =~= encoded(m).drop_last());
        lemma_record_injective(c, m);
    }
}

proof fn lemma_escape_has_no_separator(s: Seq<char>)
    ensures
        forall|i: int| 0 <= i < escape(s).len() ==> escape(s)[i] != '\n',
    decreases s.len(),
{
    if s.len() > 0 {
        lemma_escape_has_no_separator(s.drop_first());
        let e = escape_char(s[0]);
        assert(forall|i: int| 0 <= i < e.len() ==> e[i] != '\n');
        assert forall|i: int| 0 <= i < escape(s).len() implies escape(s)[i] != '\n' by {
            if i >= e.len() {
                assert(escape(s)[i] == escape(s.drop_first())[i - e.len()]);
            }
        }
    }
}

/// An encoded message is one line: its only separator is the last character.
pub proof fn lemma_single_line(m: MessageModel)
    ensures
        encoded(m).last() == '\n',
        forall|i: int| 0 <= i < encoded(m).len() - 1 ==> encoded(m)[i] != '\n',
{
    if let MessageModel::Clip(s) = m {
        lemma_escape_has_no_separator(s);
        let e = encoded(m);
        let n = clip_head().len() + 1;
        assert forall|i: int| 0 <= i < e.len() - 1 implies e[i] != '\n' by {
            if n <= i < n + escape(s).len() {
                assert(e[i] == escape(s)[i - n]);
            }
        }
    }
}

/// Relies on `serde_json::to_string` applied to a `str`: the text as a JSON
/// string literal, in quotes, where `"` and `\` are escaped with a backslash,
/// the control characters below U+0020 as `\b`, `\t`, `\n`, `\f`, `\r` or
/// `\u00XX` in lowercase hexadecimal, and every other character is kept.
/// Writing a `str` into memory does not fail.
#[verifier::external_body]
fn json_string(s: &str) -> (r: String)
    ensures
        r@ == quoted(s@),
{
    serde_json::to_string(s).unwrap_or_default()
}

/// The line that carries `m`: its record followed by the line separator.
pub fn encode(m: &Message) -> (r: String)
    ensures
        r@ == encoded(m@),
{
    match m {
        Message::Ping => {
            let r = String::from_str("{\"type\":\"ping\"}\n");
            proof {
                reveal_strlit("{\"type\":\"ping\"}\n");
            }
            assert(r@ =~= encoded(m@));
            r
        },
        Message::Pong => {
            let r = String::from_str("{\"type\":\"pong\"}\n");
            proof {
                reveal_strlit("{\"type\":\"pong\"}\n");
            }
            assert(r@ =~= encoded(m@));
            r
        },
        Message::Ack => {
            let r = String::from_str("{\"type\":\"ack\"}\n");
            proof {
                reveal_strlit("{\"type\":\"ack\"}\n");
            }
            assert(r@ =~= encoded(m@));
            r
        },
        Message::Clip { clip } => {
            let mut r = String::from_str("{\"type\":\"clip\",\"clip\":");
            let q = json_string(clip.as_str());
            r.append(q.as_str());
            r.append("}\n");
            proof {
                reveal_strlit("{\"type\":\"clip\",\"clip\":");
                reveal_strlit("}\n");
            }
            assert(r@ =~= encoded(m@));
            r
        },
    }
}

/// The message that `line` carries. `line` may end with its separator or
/// not; a blank line is `Empty`, and any line that is not exactly the
/// record of a message is `Malformed`.
pub fn decode(line: &str) -> (r: Result<Message, DecodeError>)
    ensures
        match r {
            Ok(m) => decoded(line@) == Ok::<MessageModel, DecodeError>(m@),
            Err(e) => decoded(line@) == Err::<MessageModel, DecodeError>(e),
        },
{
    let v = chars_of(line);
    let mut n: usize = v.len();
    if n > 0 && v[n - 1] == '\n' {
        n = n - 1;
    }
    let ghost body = line@.take(n as int);
    proof {
        assert forall|m: MessageModel| #[trigger] is_line_of(line@, m) == (body == record(m)) by {
            lemma_line_of_body(line@, n as int, m);
        }
    }
    let found: Option<Message> = if n == 15 && matches_at(&v, 0, "{\"type\":\"ping\"}") {
        proof {
            reveal_strlit("{\"type\":\"ping\"}");
            assert(body =~= record(MessageModel::Ping));
        }
        Some(Message::Ping)
    } else if n == 15 && matches_at(&v, 0, "{\"type\":\"pong\"}") {
        proof {
            reveal_strlit("{\"type\":\"pong\"}");
            assert(body =~= record(MessageModel::Pong));
        }
        Some(Message::Pong)
    } else if n == 14 && matches_at(&v, 0, "{\"type\":\"ack\"}") {
        proof {
            reveal_strlit("{\"type\":\"ack\"}");
            assert(body =~= record(MessageModel::Ack));
        }
        Some(Message::Ack)
    } else if n >= 25 && matches_at(&v, 0, "{\"type\":\"clip\",\"clip\":\"") && v[n - 2] == '"'
        && v[n - 1] == '}' {
        proof {
            reveal_strlit("{\"type\":\"clip\",\"clip\":\"");
        }
        match unescape_range(&v, 23, n - 2) {
            Some(text) => {
                assert(body =~= record(MessageModel::Clip(text@)));
                Some(Message::Clip { clip: text })
            },
            None => {
                proof {
                    assert forall|m: MessageModel| body != record(m) by {
                        if let MessageModel::Clip(x) = m {
                            if body == record(m) {
                                let r = record(m);
                                assert(r.subrange(23, r.len() - 2) =~= escape(x));
                                assert(body.subrange(23, n - 2) =~= v@.subrange(23, n - 2));
                            }
                        } else {
                            assert(body[11] != record(m)[11]);
                        }
                    }
                }
                None
            },
        }
    } else {
        proof {
            reveal_strlit("{\"type\":\"ping\"}");
            reveal_strlit("{\"type\":\"pong\"}");
            reveal_strlit("{\"type\":\"ack\"}");
            reveal_strlit("{\"type\":\"clip\",\"clip\":\"");
            assert forall|m: MessageModel| body != record(m) by {
                if body == record(m) {
                    match m {
                        MessageModel::Ping => {
                            assert(record(m) =~= "{\"type\":\"ping\"}"@);
                            assert(v@.subrange(0, 15) =~= body);
                        },
                        MessageModel::Pong => {
                            assert(record(m) =~= "{\"type\":\"pong\"}"@);
                            assert(v@.subrange(0, 15) =~= body);
                        },
                        MessageModel::Ack => {
                            assert(record(m) =~= "{\"type\":\"ack\"}"@);
                            assert(v@.subrange(0, 14) =~= body);
                        },
                        MessageModel::Clip(x) => {
                            let r = record(m);
                            assert(r.subrange(0, 23) =~= "{\"type\":\"clip\",\"clip\":\""@);
                            assert(v@.subrange(0, 23) =~= body.subrange(0, 23));
                            assert(r[r.len() - 2] == '"' && r[r.len() - 1] == '}');
                        },
                    }
                }
            }
        }
        None
    };
    match found {
        Some(m) => {
            proof {
                assert(is_line_of(line@, m@));
                let c = choose|x: MessageModel| is_line_of(line@, x);
                lemma_record_injective(c, m@);
            }
            Ok(m)
        },
        None => {
            if n == 0 {
                assert(line@.len() == 0 || line@ =~= seq!['\n']);
                Err(DecodeError::Empty)
            } else {
                Err(DecodeError::Malformed)
            }
        },
    }
}

} // verus!
