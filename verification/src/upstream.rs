//! The line protocol of the upstream chat stream: blank lines, the marker
//! line that reports a broken stream, and the splitting of received bytes
//! into lines.

use vstd::prelude::*;
use crate::ext::{from_utf8_lossy, utf8_lossy};
use crate::text::{
    chars_of, ends_with, ends_with_exec, extend, extend_str, slice_chars, starts_with_exec,
    string_of, strip_prefix, trim, trim_exec,
};

verus! {

/// The text that opens a line reporting a broken upstream stream.
pub open spec fn error_prefix() -> Seq<char> {
    "{\"__stream_error__\":\""@
}

/// The text that closes such a line.
pub open spec fn error_suffix() -> Seq<char> {
    "\"}"@
}

/// `s` with every `"` written as `\"`.
pub open spec fn escape_quotes(s: Seq<char>) -> Seq<char>
    decreases s.len(),
{
    if s.len() == 0 {
        Seq::empty()
    } else if s[0] == '"' {
        seq!['\\', '"'] + escape_quotes(s.skip(1))
    } else {
        seq![s[0]] + escape_quotes(s.skip(1))
    }
}

/// `s` with every `\"` read from left to right written as `"`.
pub open spec fn unescape_quotes(s: Seq<char>) -> Seq<char>
    decreases s.len(),
{
    if s.len() == 0 {
        Seq::empty()
    } else if s.len() >= 2 && s[0] == '\\' && s[1] == '"' {
        seq!['"'] + unescape_quotes(s.skip(2))
    } else {
        seq![s[0]] + unescape_quotes(s.skip(1))
    }
}

/// `s` with every trailing repetition of `p` removed.
pub open spec fn trim_end_pat(s: Seq<char>, p: Seq<char>) -> Seq<char>
    decreases s.len(),
{
    if p.len() > 0 && ends_with(s, p) {
        trim_end_pat(s.take(s.len() - p.len()), p)
    } else {
        s
    }
}

/// The line that reports a broken upstream stream with message `msg`.
pub open spec fn error_line(msg: Seq<char>) -> Seq<char> {
    error_prefix() + escape_quotes(msg) + error_suffix()
}

/// The message a line reports, when it is a broken-stream line.
pub open spec fn error_message(line: Seq<char>) -> Option<Seq<char>> {
    match strip_prefix(line, error_prefix()) {
        Some(rest) => Some(unescape_quotes(trim_end_pat(rest, error_suffix()))),
        None => None,
    }
}

/// The line that reports a broken upstream stream with message `msg`.
pub fn stream_error_line(msg: &str) -> (r: String)
    ensures
        r@ == error_line(msg@),
{
    let s = chars_of(msg);
    let mut out: Vec<char> = chars_of("{\"__stream_error__\":\"");
    let mut i: usize = 0;
    proof {
        assert(s@.skip(0) == s@);
    }
    while i < s.len()
        invariant
            i <= s@.len(),
            out@ + escape_quotes(s@.skip(i as int)) == error_prefix() + escape_quotes(msg@),
            s@ == msg@,
        decreases s@.len() - i,
    {
        let ghost rest = s@.skip(i as int);
        assert(rest.skip(1) == s@.skip(i + 1));
        if s[i] == '"' {
            out.push('\\');
            out.push('"');
            assert(escape_quotes(rest) == seq!['\\', '"'] + escape_quotes(rest.skip(1)));
        } else {
            out.push(s[i]);
            assert(escape_quotes(rest) == seq![s@[i as int]] + escape_quotes(rest.skip(1)));
        }
        i = i + 1;
    }
    assert(s@.skip(i as int).len() == 0);
    extend_str(&mut out, "\"}");
    string_of(out.as_slice())
}

fn unescape_exec(s: &[char]) -> (r: Vec<char>)
    ensures
        r@ == unescape_quotes(s@),
{
    let mut out: Vec<char> = Vec::new();
    let mut i: usize = 0;
    proof {
        assert(s@.skip(0) == s@);
    }
    while i < s.len()
        invariant
            i <= s@.len(),
            out@ + unescape_quotes(s@.skip(i as int)) == unescape_quotes(s@),
        decreases s@.len() - i,
    {
        let ghost rest = s@.skip(i as int);
        if i + 1 < s.len() && s[i] == '\\' && s[i + 1] == '"' {
            out.push('"');
            assert(rest.skip(2) == s@.skip(i + 2));
            assert(out@ + unescape_quotes(s@.skip(i + 2)) == unescape_quotes(s@));
            i = i + 2;
        } else {
            out.push(s[i]);
            assert(rest.skip(1) == s@.skip(i + 1));
            assert(out@ + unescape_quotes(s@.skip(i + 1)) == unescape_quotes(s@));
            i = i + 1;
        }
    }
    assert(s@.skip(i as int).len() == 0);
    assert(out@ + Seq::<char>::empty() == out@);
    out
}

fn trim_end_pat_exec(s: &[char], p: &[char]) -> (r: Vec<char>)
    ensures
        r@ == trim_end_pat(s@, p@),
{
    let mut n: usize = s.len();
    assert(s@.take(n as int) == s@);
    loop
        invariant
            n <= s@.len(),
            trim_end_pat(s@.take(n as int), p@) == trim_end_pat(s@, p@),
        decreases n,
    {
        let cur = slice_chars(s, 0, n);
        assert(cur@ == s@.take(n as int));
        if p.len() > 0 && ends_with_exec(cur.as_slice(), p) {
            assert(cur@.take(cur@.len() - p@.len()) == s@.take(n - p@.len()));
            n = n - p.len();
        } else {
            return cur;
        }
    }
}

/// The message of a broken-stream line; `None` for any other line.
pub fn stream_error_message(line: &str) -> (r: Option<String>)
    ensures
        r matches Some(m) ==> error_message(line@) == Some(m@),
        r is None ==> error_message(line@) is None,
{
    let l = chars_of(line);
    let prefix = chars_of("{\"__stream_error__\":\"");
    if !starts_with_exec(l.as_slice(), prefix.as_slice()) {
        return None;
    }
    let rest = slice_chars(l.as_slice(), prefix.len(), l.len());
    let suffix = chars_of("\"}");
    let trimmed = trim_end_pat_exec(rest.as_slice(), suffix.as_slice());
    let m = unescape_exec(trimmed.as_slice());
    Some(string_of(m.as_slice()))
}

/// Whether a line holds nothing but white space.
pub fn is_blank_line(line: &str) -> (b: bool)
    ensures
        b == (trim(line@).len() == 0),
{
    trim_exec(chars_of(line).as_slice()).len() == 0
}

// ---------------------------------------------------------------------------
// Round trip of broken-stream lines
// ---------------------------------------------------------------------------

proof fn lemma_escape_concat(a: Seq<char>, b: Seq<char>)
    ensures
        escape_quotes(a + b) == escape_quotes(a) + escape_quotes(b),
    decreases a.len(),
{
    if a.len() == 0 {
        assert(a + b == b);
    } else {
        assert((a + b).skip(1) == a.skip(1) + b);
        assert((a + b)[0] == a[0]);
        lemma_escape_concat(a.skip(1), b);
    }
}

proof fn lemma_unescape_escape(m: Seq<char>)
    ensures
        unescape_quotes(escape_quotes(m)) == m,
    decreases m.len(),
{
    if m.len() > 0 {
        let rest = m.skip(1);
        lemma_unescape_escape(rest);
        let er = escape_quotes(rest);
        if rest.len() > 0 {
            assert(er[0] != '"');
        }
        if m[0] == '"' {
            let e = seq!['\\', '"'] + er;
            assert(e.skip(2) == er);
            assert(unescape_quotes(e) == seq!['"'] + unescape_quotes(er));
        } else {
            let e = seq![m[0]] + er;
            assert(e.skip(1) == er);
            assert(unescape_quotes(e) == seq![m[0]] + unescape_quotes(er));
        }
        assert(m == seq![m[0]] + rest);
    }
}

/// The last character of `escape_quotes(m)` is `"` exactly when `m` ends
/// with `"`.
proof fn lemma_escape_ends(m: Seq<char>)
    requires
        m.len() > 0,
    ensures
        escape_quotes(m) == escape_quotes(m.drop_last()) + escape_quotes(seq![m.last()]),
        escape_quotes(m).len() > 0,
        (escape_quotes(m).last() == '"') == (m.last() == '"'),
        m.last() != '"' ==> escape_quotes(m).last() == m.last() && escape_quotes(m).drop_last()
            == escape_quotes(m.drop_last()),
{
    assert(m.drop_last() + seq![m.last()] == m);
    lemma_escape_concat(m.drop_last(), seq![m.last()]);
    let one = seq![m.last()];
    assert(one.skip(1).len() == 0);
    assert(escape_quotes(one.skip(1)) == Seq::<char>::empty());
    if m.last() == '"' {
        assert(escape_quotes(one) == seq!['\\', '"']);
    } else {
        assert(escape_quotes(one) == seq![m.last()]);
        assert((escape_quotes(m.drop_last()) + seq![m.last()]).drop_last() == escape_quotes(
            m.drop_last(),
        ));
    }
}

proof fn lemma_escape_keeps_end(m: Seq<char>)
    requires
        !ends_with(m, error_suffix()),
    ensures
        !ends_with(escape_quotes(m), error_suffix()),
{
    reveal_strlit("\"}");
    let e = escape_quotes(m);
    if ends_with(e, error_suffix()) {
        assert(e.len() >= 2);
        assert(error_suffix().len() == 2 && error_suffix()[0] == '"' && error_suffix()[1] == '}');
        assert(e.subrange(e.len() - 2, e.len() as int) == error_suffix());
        assert(e.subrange(e.len() - 2, e.len() as int)[1] == e[e.len() - 1]);
        assert(e.subrange(e.len() - 2, e.len() as int)[0] == e[e.len() - 2]);
        assert(e[e.len() - 1] == '}');
        assert(e[e.len() - 2] == '"');
        if m.len() == 0 {
            assert(e.len() == 0);
        }
        lemma_escape_ends(m);
        assert(m.last() != '"');
        assert(m.last() == '}');
        let d = m.drop_last();
        let ed = escape_quotes(d);
        assert(ed == e.drop_last());
        if d.len() == 0 {
            assert(ed.len() == 0);
        }
        lemma_escape_ends(d);
        assert(ed.last() == e[e.len() - 2]);
        assert(d.last() == '"');
        assert(m.subrange(m.len() - 2, m.len() as int) =~= error_suffix());
    }
}

/// A broken-stream line gives back the message it was made from, unless
/// the message itself ends with `"}`.
pub proof fn lemma_error_line_roundtrip(msg: Seq<char>)
    requires
        !ends_with(msg, error_suffix()),
    ensures
        error_message(error_line(msg)) == Some(msg),
{
    reveal_strlit("\"}");
    let line = error_line(msg);
    let e = escape_quotes(msg);
    assert(line == error_prefix() + (e + error_suffix()));
    assert(line.subrange(0, error_prefix().len() as int) == error_prefix());
    assert(line.skip(error_prefix().len() as int) == e + error_suffix());
    let x = e + error_suffix();
    assert(ends_with(x, error_suffix())) by {
        assert(x.subrange(x.len() - 2, x.len() as int) == error_suffix());
    }
    assert(x.take(x.len() - 2) == e);
    lemma_escape_keeps_end(msg);
    assert(trim_end_pat(e, error_suffix()) == e);
    assert(trim_end_pat(x, error_suffix()) == e);
    lemma_unescape_escape(msg);
}

// ---------------------------------------------------------------------------
// Splitting a body into lines
// ---------------------------------------------------------------------------

/// The position of the first line feed in `b`.
pub open spec fn first_newline(b: Seq<u8>) -> Option<int>
    decreases b.len(),
{
    if b.len() == 0 {
        None
    } else if b[0] == 10u8 {
        Some(0)
    } else {
        match first_newline(b.skip(1)) {
            Some(k) => Some(k + 1),
            None => None,
        }
    }
}

/// A line without the carriage return that may end it.
pub open spec fn strip_cr(line: Seq<u8>) -> Seq<u8> {
    if line.len() > 0 && line.last() == 13u8 {
        line.drop_last()
    } else {
        line
    }
}

/// The complete lines of `buf`, each without its line end, and the bytes
/// after the last line feed.
pub open spec fn split_lines(buf: Seq<u8>) -> (Seq<Seq<u8>>, Seq<u8>)
    decreases buf.len(),
{
    match first_newline(buf) {
        Some(p) => if 0 <= p < buf.len() {
            let rest = split_lines(buf.skip(p + 1));
            (seq![strip_cr(buf.take(p))] + rest.0, rest.1)
        } else {
            (Seq::empty(), buf)
        },
        None => (Seq::empty(), buf),
    }
}

proof fn lemma_first_newline(b: Seq<u8>, j: int)
    requires
        0 <= j <= b.len(),
        forall|k: int| 0 <= k < j ==> b[k] != 10u8,
    ensures
        j < b.len() && b[j] == 10u8 ==> first_newline(b) == Some(j),
        j == b.len() ==> first_newline(b) is None,
    decreases j,
{
    if j > 0 {
        lemma_first_newline(b.skip(1), j - 1);
    } else if b.len() > 0 {
    }
}

pub open spec fn decoded(lines: Seq<Seq<u8>>) -> Seq<Seq<char>> {
    lines.map_values(|l: Seq<u8>| utf8_lossy(l))
}

pub open spec fn string_views(v: Seq<String>) -> Seq<Seq<char>> {
    v.map_values(|s: String| s@)
}

/// Bytes of a response body received so far and not yet part of a
/// complete line.
pub struct LineSplitter {
    buffer: Vec<u8>,
}

impl View for LineSplitter {
    type V = Seq<u8>;

    closed spec fn view(&self) -> Seq<u8> {
        self.buffer@
    }
}

impl LineSplitter {
    /// A splitter with nothing buffered.
    pub fn new() -> (r: LineSplitter)
        ensures
            r@ == Seq::<u8>::empty(),
    {
        LineSplitter { buffer: Vec::new() }
    }

    /// Takes in a chunk of the body and returns the lines it completes,
    /// decoded as UTF-8 with invalid sequences replaced; what follows the
    /// last line feed stays buffered.
    pub fn push(&mut self, bytes: &[u8]) -> (r: Vec<String>)
        ensures
            string_views(r@) == decoded(split_lines(old(self)@ + bytes@).0),
            final(self)@ == split_lines(old(self)@ + bytes@).1,
    {
        let mut buf: Vec<u8> = Vec::new();
        std::mem::swap(&mut buf, &mut self.buffer);
        let mut i: usize = 0;
        while i < bytes.len()
            invariant
                i <= bytes@.len(),
                buf@ == old(self)@ + bytes@.take(i as int),
            decreases bytes@.len() - i,
        {
            buf.push(bytes[i]);
            assert(bytes@.take(i + 1) == bytes@.take(i as int).push(bytes@[i as int]));
            i = i + 1;
        }
        assert(bytes@.take(i as int) == bytes@);
        let ghost all = buf@;
        let n = buf.len();
        let mut out: Vec<String> = Vec::new();
        let ghost mut raw: Seq<Seq<u8>> = Seq::empty();
        let mut pos: usize = 0;
        assert(all.skip(0) == all);
        assert(string_views(out@) =~= decoded(raw));
        loop
            invariant
                pos <= n,
                n == all.len(),
                buf@ == all,
                all == old(self)@ + bytes@,
                string_views(out@) == decoded(raw),
                raw + split_lines(all.skip(pos as int)).0 == split_lines(all).0,
                split_lines(all.skip(pos as int)).1 == split_lines(all).1,
            decreases n - pos,
        {
            let ghost rest = all.skip(pos as int);
            let mut j = pos;
            while j < n && buf[j] != 10u8
                invariant
                    pos <= j <= n,
                    n == all.len(),
                    buf@ == all,
                    rest == all.skip(pos as int),
                    forall|k: int| 0 <= k < j - pos ==> rest[k] != 10u8,
                decreases n - j,
            {
                j = j + 1;
            }
            proof {
                lemma_first_newline(rest, j - pos);
            }
            if j == n {
                let mut tail: Vec<u8> = Vec::new();
                let mut k = pos;
                while k < n
                    invariant
                        pos <= k <= n,
                        n == all.len(),
                        buf@ == all,
                        tail@ == all.subrange(pos as int, k as int),
                    decreases n - k,
                {
                    tail.push(buf[k]);
                    assert(all.subrange(pos as int, k + 1) == all.subrange(pos as int, k as int).push(all[k as int]));
                    k = k + 1;
                }
                assert(tail@ == rest);
                assert(first_newline(rest) is None);
                assert(split_lines(rest) == (Seq::<Seq<u8>>::empty(), rest));
                assert(raw + Seq::<Seq<u8>>::empty() == raw);
                self.buffer = tail;
                return out;
            }
            let mut line: Vec<u8> = Vec::new();
            let mut k = pos;
            while k < j
                invariant
                    pos <= k <= j,
                    j < n,
                    n == all.len(),
                    buf@ == all,
                    line@ == all.subrange(pos as int, k as int),
                decreases j - k,
            {
                line.push(buf[k]);
                assert(all.subrange(pos as int, k + 1) == all.subrange(pos as int, k as int).push(all[k as int]));
                k = k + 1;
            }
            assert(line@ == rest.take(j - pos));
            if line.len() > 0 && line[line.len() - 1] == 13u8 {
                line.pop();
            }
            assert(line@ == strip_cr(rest.take(j - pos)));
            let text = from_utf8_lossy(line.as_slice());
            let ghost before = out@;
            out.push(text);
            proof {
                assert(rest.skip(j - pos + 1) == all.skip(j + 1));
                assert(string_views(out@) =~= string_views(before).push(text@));
                assert(decoded(raw.push(line@)) =~= decoded(raw).push(utf8_lossy(line@)));
                assert(string_views(out@) =~= decoded(raw.push(line@)));
                assert(split_lines(rest).0 == seq![line@] + split_lines(all.skip(j + 1)).0);
                assert(raw.push(line@) + split_lines(all.skip(j + 1)).0 =~= raw + (seq![line@]
                    + split_lines(all.skip(j + 1)).0));
                raw = raw.push(line@);
            }
            pos = j + 1;
        }
    }

    /// The last line of the body, when bytes are left after the last line
    /// feed and they decode to a non-empty text.
    pub fn finish(&self) -> (r: Option<String>)
        ensures
            self@.len() > 0 && utf8_lossy(self@).len() > 0 ==> (r matches Some(l) && l@ == utf8_lossy(self@)),
            !(self@.len() > 0 && utf8_lossy(self@).len() > 0) ==> r is None,
    {
        if self.buffer.len() == 0 {
            return None;
        }
        let line = from_utf8_lossy(self.buffer.as_slice());
        if line.as_str().is_empty() {
            None
        } else {
            Some(line)
        }
    }
}

proof fn lemma_first_newline_concat(x: Seq<u8>, y: Seq<u8>)
    ensures
        first_newline(x) matches Some(p) ==> first_newline(x + y) == Some(p),
        first_newline(x) is None ==> first_newline(x + y) == match first_newline(y) {
            Some(q) => Some(q + x.len()),
            None => None,
        },
        first_newline(x) matches Some(p) ==> 0 <= p < x.len(),
    decreases x.len(),
{
    if x.len() == 0 {
        assert(x + y == y);
    } else {
        assert((x + y)[0] == x[0]);
        assert((x + y).skip(1) == x.skip(1) + y);
        lemma_first_newline_concat(x.skip(1), y);
    }
}

/// Splitting is the same whatever the chunks the bytes arrive in: the lines
/// of `x` followed by the lines of what is left of `x` with `y` added are
/// the lines of `x + y`, and what is left over agrees.
pub proof fn lemma_split_lines_concat(x: Seq<u8>, y: Seq<u8>)
    ensures
        split_lines(x).0 + split_lines(split_lines(x).1 + y).0 == split_lines(x + y).0,
        split_lines(split_lines(x).1 + y).1 == split_lines(x + y).1,
    decreases x.len(),
{
    lemma_first_newline_concat(x, y);
    match first_newline(x) {
        Some(p) => {
            let rest = x.skip(p + 1);
            lemma_split_lines_concat(rest, y);
            assert((x + y).take(p) == x.take(p));
            assert((x + y).skip(p + 1) == rest + y);
            assert(split_lines(x).1 == split_lines(rest).1);
            assert(split_lines(x + y).0 == seq![strip_cr(x.take(p))] + split_lines(rest + y).0);
            assert(split_lines(x).0 + split_lines(split_lines(x).1 + y).0 =~= seq![strip_cr(x.take(p))]
                + (split_lines(rest).0 + split_lines(split_lines(rest).1 + y).0));
        },
        None => {
            assert(split_lines(x) == (Seq::<Seq<u8>>::empty(), x));
            assert(Seq::<Seq<u8>>::empty() + split_lines(x + y).0 == split_lines(x + y).0);
        },
    }
}

} // verus!
