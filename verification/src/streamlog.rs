//! The text form of log lines streamed to the log service: every line of a
//! message on its own line, prefixed with the stream code and the time in
//! milliseconds, as `[code][millis]`.
use vstd::prelude::*;
use crate::client::LogLine;
use crate::text::{chars_of, push_char};

verus! {

broadcast use vstd::string::group_string_axioms;

/// Decimal digits of `n`, without leading zeros.
pub open spec fn digits(n: nat) -> Seq<char>
    decreases n,
{
    if n < 10 {
        seq![('0' as nat + n) as char]
    } else {
        digits(n / 10) + seq![('0' as nat + n % 10) as char]
    }
}

/// `n` in decimal, with a leading `-` when negative, as integers print.
pub open spec fn decimal(n: int) -> Seq<char> {
    if n < 0 {
        seq!['-'] + digits((-n) as nat)
    } else {
        digits(n as nat)
    }
}

fn push_digits(out: &mut String, n: u128)
    ensures
        final(out)@ == old(out)@ + digits(n as nat),
    decreases n,
{
    if n >= 10 {
        push_digits(out, n / 10);
    }
    let d = (n % 10) as u8;
    let c = ('0' as u8 + d) as char;
    assert(c == ('0' as nat + n % 10) as char);
    push_char(out, c);
    assert(final(out)@ =~= old(out)@ + digits(n as nat));
}

/// Writes an integer in decimal.
pub fn push_decimal(out: &mut String, n: i128)
    ensures
        final(out)@ == old(out)@ + decimal(n as int),
{
    if n < 0 {
        push_char(out, '-');
        let m: u128 = ((-(n + 1)) as u128) + 1;
        assert(m == -(n as int));
        push_digits(out, m);
        assert(final(out)@ =~= old(out)@ + decimal(n as int));
    } else {
        push_digits(out, n as u128);
    }
}

/// Milliseconds since the epoch of a time in nanoseconds, rounded down.
pub open spec fn millis_of(nanos: i128) -> int {
    (nanos as int) / 1_000_000
}

/// Rounds a time in nanoseconds down to milliseconds.
pub fn to_millis(nanos: i128) -> (r: i128)
    ensures
        r as int == millis_of(nanos),
{
    if nanos >= 0 {
        nanos / 1_000_000
    } else {
        let r = -((-(nanos + 1)) / 1_000_000) - 1;
        assert(r as int == millis_of(nanos)) by (nonlinear_arith)
            requires
                nanos < 0,
                r == -((-(nanos + 1)) / 1_000_000) - 1,
        {
        }
        r
    }
}

/// Position of the first newline at or after `i`, or the length when there
/// is none.
pub open spec fn newline_from(s: Seq<char>, i: int) -> int
    decreases s.len() - i,
{
    if i < 0 || i >= s.len() {
        s.len() as int
    } else if s[i] == '\n' {
        i
    } else {
        newline_from(s, i + 1)
    }
}

pub proof fn lemma_newline_from(s: Seq<char>, i: int)
    requires
        0 <= i <= s.len(),
    ensures
        i <= newline_from(s, i) <= s.len(),
        newline_from(s, i) < s.len() ==> s[newline_from(s, i)] == '\n',
    decreases s.len() - i,
{
    if i < s.len() && s[i] != '\n' {
        lemma_newline_from(s, i + 1);
    }
}

/// The pieces of `s` between newlines, as `str::split('\n')` yields them.
pub open spec fn lines(s: Seq<char>) -> Seq<Seq<char>>
    decreases s.len(),
{
    let k = newline_from(s, 0);
    if k < s.len() {
        proof {
            lemma_newline_from(s, 0);
        }
        seq![s.subrange(0, k)] + lines(s.subrange(k + 1, s.len() as int))
    } else {
        seq![s]
    }
}

proof fn lemma_newline_shift(s: Seq<char>, a: int, j: int)
    requires
        0 <= a <= s.len(),
        0 <= j <= s.len() - a,
    ensures
        newline_from(s.subrange(a, s.len() as int), j) == newline_from(s, a + j) - a,
    decreases s.len() - a - j,
{
    let t = s.subrange(a, s.len() as int);
    if j < t.len() {
        assert(t[j] == s[a + j]);
        if s[a + j] != '\n' {
            lemma_newline_shift(s, a, j + 1);
        }
    }
}

fn find_newline(cs: &Vec<char>, start: usize) -> (r: usize)
    requires
        start <= cs@.len(),
    ensures
        r as int == newline_from(cs@, start as int),
{
    let mut k = start;
    while k < cs.len() && cs[k] != '\n'
        invariant
            start <= k <= cs@.len(),
            newline_from(cs@, start as int) == newline_from(cs@, k as int),
        decreases cs@.len() - k,
    {
        k = k + 1;
    }
    k
}

/// The streamed text of a message: every line with the prefix and a newline.
pub open spec fn stream_text(prefix: Seq<char>, ls: Seq<Seq<char>>) -> Seq<char>
    decreases ls.len(),
{
    if ls.len() == 0 {
        Seq::empty()
    } else {
        prefix + ls[0] + seq!['\n'] + stream_text(prefix, ls.drop_first())
    }
}

/// The prefix of a streamed line: `[code][millis]`.
pub open spec fn prefix_text(code: u8, millis: int) -> Seq<char> {
    seq!['['] + decimal(code as int) + seq![']', '['] + decimal(millis) + seq![']']
}

/// The streamed text of a log line.
pub fn stream_log_line(line: &LogLine) -> (r: String)
    ensures
        r@ == stream_text(prefix_text(line.dst.code_spec(), millis_of(line.timestamp)), lines(line.line@)),
{
    let mut prefix = String::new();
    push_char(&mut prefix, '[');
    push_decimal(&mut prefix, line.dst.code() as i128);
    push_char(&mut prefix, ']');
    push_char(&mut prefix, '[');
    push_decimal(&mut prefix, to_millis(line.timestamp));
    push_char(&mut prefix, ']');
    assert(prefix@ =~= prefix_text(line.dst.code_spec(), millis_of(line.timestamp)));
    let cs = chars_of(line.line.as_str());
    let len = cs.len();
    let ghost total = stream_text(prefix@, lines(cs@));
    let mut out = String::new();
    let mut start: usize = 0;
    assert(cs@.subrange(0, len as int) =~= cs@);
    loop
        invariant
            cs@ == line.line@,
            len == cs@.len(),
            start <= len,
            prefix@ == prefix_text(line.dst.code_spec(), millis_of(line.timestamp)),
            total == stream_text(prefix@, lines(cs@)),
            total == out@ + stream_text(prefix@, lines(cs@.subrange(start as int, len as int))),
        decreases len - start,
    {
        let k = find_newline(&cs, start);
        let ghost sub = cs@.subrange(start as int, len as int);
        proof {
            lemma_newline_from(cs@, start as int);
            lemma_newline_shift(cs@, start as int, 0);
            assert(sub.subrange(0, k - start) =~= cs@.subrange(start as int, k as int));
        }
        let ghost before = out@;
        out = out.concat(prefix.as_str());
        let piece = crate::text::string_from(&cs, start, k);
        out = out.concat(piece.as_str());
        push_char(&mut out, '\n');
        if k == len {
            assert(lines(sub) == seq![sub]);
            assert(stream_text(prefix@, seq![sub]) =~= prefix@ + sub + seq!['\n'] + stream_text(prefix@, seq![sub].drop_first()));
            assert(seq![sub].drop_first() =~= Seq::<Seq<char>>::empty());
            assert(out@ =~= total);
            return out;
        }
        proof {
            assert(sub.subrange(k - start + 1, sub.len() as int) =~= cs@.subrange(k + 1, len as int));
            let ls = lines(sub);
            assert(ls == seq![cs@.subrange(start as int, k as int)] + lines(cs@.subrange(k + 1, len as int)));
            assert(ls.drop_first() =~= lines(cs@.subrange(k + 1, len as int)));
            assert(out@ =~= before + (prefix@ + cs@.subrange(start as int, k as int) + seq!['\n']));
        }
        start = k + 1;
    }
}

} // verus!
