//! Character-level string operations: white space, trimming, prefixes.
use vstd::prelude::*;

verus! {

/// Whether `c` has the Unicode `White_Space` property, as std's
/// `char::is_whitespace` decides it.
pub uninterp spec fn white_space(c: char) -> bool;

/// Calls std's `char::is_whitespace`. The contract names its result
/// `white_space(c)` and claims nothing else: std documents it as the Unicode
/// `White_Space` property, and the table behind it is not stated here.
#[verifier::external_body]
fn is_white_space(c: char) -> (r: bool)
    ensures
        r == white_space(c),
{
    c.is_whitespace()
}

/// Calls std's `String::push`, which appends one character.
#[verifier::external_body]
fn push_char(s: &mut String, c: char)
    ensures
        final(s)@ == old(s)@.push(c),
{
    s.push(c);
}

/// `s` without its leading white space.
pub open spec fn trim_start_spec(s: Seq<char>) -> Seq<char>
    decreases s.len(),
{
    if s.len() > 0 && white_space(s[0]) {
        trim_start_spec(s.drop_first())
    } else {
        s
    }
}

/// `s` without its trailing white space.
pub open spec fn trim_end_spec(s: Seq<char>) -> Seq<char>
    decreases s.len(),
{
    if s.len() > 0 && white_space(s.last()) {
        trim_end_spec(s.drop_last())
    } else {
        s
    }
}

/// `s` without leading and trailing white space, as `str::trim` gives it.
pub open spec fn trimmed(s: Seq<char>) -> Seq<char> {
    trim_end_spec(trim_start_spec(s))
}

proof fn lemma_trim_start_skip(s: Seq<char>, i: int)
    requires
        0 <= i <= s.len(),
        forall|k: int| 0 <= k < i ==> white_space(#[trigger] s[k]),
        i == s.len() || !white_space(s[i]),
    ensures
        trim_start_spec(s) == s.skip(i),
    decreases i,
{
    if i == 0 {
        assert(s.skip(0) =~= s);
    } else {
        let t = s.drop_first();
        assert forall|k: int| 0 <= k < i - 1 implies white_space(#[trigger] t[k]) by {
            assert(t[k] == s[k + 1]);
        }
        if i - 1 < t.len() {
            assert(t[i - 1] == s[i]);
        }
        lemma_trim_start_skip(t, i - 1);
        assert(t.skip(i - 1) =~= s.skip(i));
    }
}

proof fn lemma_trim_end_take(s: Seq<char>, j: int)
    requires
        0 <= j <= s.len(),
        forall|k: int| j <= k < s.len() ==> white_space(#[trigger] s[k]),
        j == 0 || !white_space(s[j - 1]),
    ensures
        trim_end_spec(s) == s.take(j),
    decreases s.len() - j,
{
    if j == s.len() {
        assert(s.take(j) =~= s);
    } else {
        let t = s.drop_last();
        assert(white_space(s[s.len() - 1]));
        assert forall|k: int| j <= k < t.len() implies white_space(#[trigger] t[k]) by {
            assert(t[k] == s[k]);
        }
        if j > 0 {
            assert(t[j - 1] == s[j - 1]);
        }
        lemma_trim_end_take(t, j);
        assert(t.take(j) =~= s.take(j));
    }
}

/// The characters of `s`.
pub fn chars_of(s: &str) -> (v: Vec<char>)
    ensures
        v@ == s@,
{
    let mut v: Vec<char> = Vec::new();
    for c in it: s.chars()
        invariant
            v@ == it.seq().take(it.index() as int),
    {
        v.push(c);
    }
    v
}

/// The string made of `v[from..to]`.
pub fn string_from(v: &Vec<char>, from: usize, to: usize) -> (s: String)
    requires
        from <= to <= v@.len(),
    ensures
        s@ == v@.subrange(from as int, to as int),
{
    let mut s = String::new();
    let mut i = from;
    while i < to
        invariant
            from <= i <= to,
            to <= v@.len(),
            s@ == v@.subrange(from as int, i as int),
        decreases to - i,
    {
        push_char(&mut s, v[i]);
        assert(v@.subrange(from as int, i + 1) =~= v@.subrange(from as int, i as int).push(v@[i as int]));
        i = i + 1;
    }
    s
}

/// Appends one character.
pub fn push(s: &mut String, c: char)
    ensures
        final(s)@ == old(s)@.push(c),
{
    push_char(s, c);
}

/// Appends a string.
pub fn append(s: &mut String, t: &str)
    ensures
        final(s)@ == old(s)@ + t@,
{
    s.append(t);
}

/// The string `s` trimmed of white space at both ends.
pub fn trim(s: &str) -> (r: String)
    ensures
        r@ == trimmed(s@),
{
    let v = chars_of(s);
    let n = v.len();
    let mut i: usize = 0;
    while i < n && is_white_space(v[i])
        invariant
            n == v@.len(),
            0 <= i <= n,
            forall|k: int| 0 <= k < i ==> white_space(#[trigger] v@[k]),
        decreases n - i,
    {
        i = i + 1;
    }
    proof {
        lemma_trim_start_skip(v@, i as int);
    }
    let mut j: usize = n;
    while j > i && is_white_space(v[j - 1])
        invariant
            n == v@.len(),
            i <= j <= n,
            forall|k: int| j <= k < n ==> white_space(#[trigger] v@[k]),
        decreases j,
    {
        j = j - 1;
    }
    proof {
        let t = v@.skip(i as int);
        assert forall|k: int| j - i <= k < t.len() implies white_space(#[trigger] t[k]) by {
            assert(t[k] == v@[k + i]);
        }
        if j > i {
            assert(t[j - i - 1] == v@[j - 1]);
        }
        lemma_trim_end_take(t, j - i);
        assert(t.take(j - i) =~= v@.subrange(i as int, j as int));
    }
    string_from(&v, i, j)
}

/// Whether `s` is empty once trimmed, that is, holds only white space.
pub fn is_blank(s: &str) -> (r: bool)
    ensures
        r == (trimmed(s@).len() == 0),
{
    let t = trim(s);
    t.as_str().unicode_len() == 0
}

/// `s` without `prefix`, where `s` starts with `prefix`.
pub fn strip_prefix(s: &str, prefix: &str) -> (r: Option<String>)
    ensures
        r is Some <==> prefix@.is_prefix_of(s@),
        r matches Some(rest) ==> rest@ == s@.skip(prefix@.len() as int),
{
    let v = chars_of(s);
    let p = chars_of(prefix);
    if p.len() > v.len() {
        return None;
    }
    for k in 0..p.len()
        invariant
            p@ == prefix@,
            v@ == s@,
            p@.len() <= v@.len(),
            forall|m: int| 0 <= m < k ==> p@[m] == v@[m],
    {
        if p[k] != v[k] {
            return None;
        }
    }
    assert(v@.take(p@.len() as int) =~= p@);
    Some(string_from(&v, p.len(), v.len()))
}

/// Whether two strings hold the same characters.
pub fn same_text(a: &String, b: &String) -> (r: bool)
    ensures
        r == (a@ == b@),
{
    a.eq(b)
}

/// The decimal digit for `d`, below ten.
pub open spec fn digit_char(d: nat) -> char {
    if d == 0 { '0' } else if d == 1 { '1' } else if d == 2 { '2' } else if d == 3 { '3' }
    else if d == 4 { '4' } else if d == 5 { '5' } else if d == 6 { '6' } else if d == 7 { '7' }
    else if d == 8 { '8' } else { '9' }
}

/// `n` written in decimal, as `format!("{n}")` writes it.
pub open spec fn decimal_spec(n: nat) -> Seq<char>
    decreases n,
{
    if n < 10 {
        seq![digit_char(n)]
    } else {
        decimal_spec(n / 10).push(digit_char(n % 10))
    }
}

fn digit(d: usize) -> (c: char)
    requires
        d < 10,
    ensures
        c == digit_char(d as nat),
{
    if d == 0 { '0' } else if d == 1 { '1' } else if d == 2 { '2' } else if d == 3 { '3' }
    else if d == 4 { '4' } else if d == 5 { '5' } else if d == 6 { '6' } else if d == 7 { '7' }
    else if d == 8 { '8' } else { '9' }
}

/// `n` written in decimal.
pub fn decimal(n: usize) -> (s: String)
    ensures
        s@ == decimal_spec(n as nat),
    decreases n,
{
    if n < 10 {
        let mut s = String::new();
        push_char(&mut s, digit(n));
        assert(s@ =~= seq![digit_char(n as nat)]);
        s
    } else {
        let mut s = decimal(n / 10);
        push_char(&mut s, digit(n % 10));
        s
    }
}

/// The pieces of `s` between newline characters, the last one possibly
/// empty; there is always one more piece than newlines.
pub open spec fn split_newlines(s: Seq<char>) -> Seq<Seq<char>>
    decreases s.len(),
{
    if s.len() == 0 {
        seq![Seq::empty()]
    } else {
        let rest = split_newlines(s.drop_last());
        if s.last() == '\n' {
            rest.push(Seq::empty())
        } else {
            rest.update(rest.len() - 1, rest.last().push(s.last()))
        }
    }
}

/// A line that ended with a newline, without the carriage return that may
/// have preceded the newline.
pub open spec fn strip_cr(line: Seq<char>) -> Seq<char> {
    if line.len() > 0 && line.last() == '\r' {
        line.drop_last()
    } else {
        line
    }
}

/// The lines of `s`, as `str::lines` gives them: split at `\n` or `\r\n`,
/// without the terminators; a final line ending adds no empty line.
pub open spec fn lines_spec(s: Seq<char>) -> Seq<Seq<char>> {
    let pieces = split_newlines(s);
    let n = pieces.len();
    let ended = pieces.take(n - 1).map_values(|l: Seq<char>| strip_cr(l));
    if pieces[n - 1].len() > 0 {
        ended.push(pieces[n - 1])
    } else {
        ended
    }
}

proof fn lemma_split_newlines_len(s: Seq<char>)
    ensures
        split_newlines(s).len() >= 1,
    decreases s.len(),
{
    if s.len() > 0 {
        lemma_split_newlines_len(s.drop_last());
    }
}

/// The lines of `s`.
pub fn lines(s: &str) -> (r: Vec<String>)
    ensures
        r@.map_values(|l: String| l@) == lines_spec(s@),
{
    let v = chars_of(s);
    let n = v.len();
    let mut done: Vec<String> = Vec::new();
    let ghost mut raw: Seq<Seq<char>> = Seq::empty();
    let mut start: usize = 0;
    let mut i: usize = 0;
    proof {
        assert(v@.take(0) =~= Seq::<char>::empty());
        assert(raw.push(v@.subrange(0, 0)) =~= seq![Seq::<char>::empty()]);
        assert(done@.map_values(|l: String| l@) =~= raw.map_values(|l: Seq<char>| strip_cr(l)));
    }
    while i < n
        invariant
            n == v@.len(),
            v@ == s@,
            start <= i <= n,
            split_newlines(v@.take(i as int)) == raw.push(v@.subrange(start as int, i as int)),
            done@.map_values(|l: String| l@) == raw.map_values(|l: Seq<char>| strip_cr(l)),
        decreases n - i,
    {
        proof {
            assert(v@.take(i + 1).drop_last() =~= v@.take(i as int));
            assert(v@.take(i + 1).last() == v@[i as int]);
        }
        if v[i] == '\n' {
            let end = if i > start && v[i - 1] == '\r' { i - 1 } else { i };
            let line = string_from(&v, start, end);
            proof {
                let piece = v@.subrange(start as int, i as int);
                assert(strip_cr(piece) =~= v@.subrange(start as int, end as int));
            }
            let ghost before = done@;
            let ghost line_v = line@;
            done.push(line);
            proof {
                let piece = v@.subrange(start as int, i as int);
                assert(line_v == strip_cr(piece));
                assert(done@.map_values(|l: String| l@) =~= before.map_values(|l: String| l@).push(line_v));
                assert(raw.push(piece).map_values(|l: Seq<char>| strip_cr(l)) =~= raw.map_values(|l: Seq<char>| strip_cr(l)).push(strip_cr(piece)));
                raw = raw.push(piece);
                assert(done@.map_values(|l: String| l@) =~= raw.map_values(|l: Seq<char>| strip_cr(l)));
                assert(v@.subrange((i + 1) as int, (i + 1) as int) =~= Seq::<char>::empty());
            }
            start = i + 1;
        } else {
            proof {
                let old_piece = v@.subrange(start as int, i as int);
                assert(v@.subrange(start as int, i + 1) =~= old_piece.push(v@[i as int]));
                assert(raw.push(old_piece).update(raw.len() as int, old_piece.push(v@[i as int]))
                    =~= raw.push(v@.subrange(start as int, i + 1)));
            }
        }
        i = i + 1;
    }
    proof {
        assert(v@.take(n as int) =~= v@);
        lemma_split_newlines_len(v@);
        let pieces = split_newlines(v@);
        assert(pieces.take(pieces.len() - 1) =~= raw);
    }
    if start < n {
        let last = string_from(&v, start, n);
        done.push(last);
        proof {
            assert(done@.map_values(|l: String| l@) =~= lines_spec(s@));
        }
    } else {
        proof {
            assert(done@.map_values(|l: String| l@) =~= lines_spec(s@));
        }
    }
    done
}

/// The lines joined with newlines in between.
pub open spec fn join_spec(lines: Seq<Seq<char>>) -> Seq<char>
    decreases lines.len(),
{
    if lines.len() == 0 {
        Seq::empty()
    } else if lines.len() == 1 {
        lines[0]
    } else {
        join_spec(lines.drop_last()) + "\n"@ + lines.last()
    }
}

/// The lines joined with newlines in between, as `[..].join("\n")` does.
pub fn join_lines(lines: &Vec<String>) -> (r: String)
    ensures
        r@ == join_spec(lines@.map_values(|l: String| l@)),
{
    let mut out = String::new();
    let n = lines.len();
    for i in 0..n
        invariant
            n == lines@.len(),
            out@ == join_spec(lines@.map_values(|l: String| l@).take(i as int)),
    {
        proof {
            let all = lines@.map_values(|l: String| l@);
            assert(all.take(i + 1).drop_last() =~= all.take(i as int));
            assert(all.take(i + 1).last() == lines@[i as int]@);
        }
        if i > 0 {
            out.append("\n");
        } else {
            proof {
                assert(join_spec(Seq::<Seq<char>>::empty()) =~= Seq::<char>::empty());
            }
        }
        out.append(lines[i].as_str());
        proof {
            let all = lines@.map_values(|l: String| l@);
            if i == 0 {
                assert(all.take(1) =~= seq![lines@[0]@]);
                assert(out@ =~= lines@[0]@);
            }
        }
    }
    proof {
        assert(lines@.map_values(|l: String| l@).take(n as int) =~= lines@.map_values(|l: String| l@));
    }
    out
}

/// `n` copies of `s` one after another.
pub open spec fn repeat_spec(s: Seq<char>, n: nat) -> Seq<char>
    decreases n,
{
    if n == 0 {
        Seq::empty()
    } else {
        repeat_spec(s, (n - 1) as nat) + s
    }
}

/// `n` copies of `s` one after another.
pub fn repeat(s: &str, n: usize) -> (r: String)
    ensures
        r@ == repeat_spec(s@, n as nat),
{
    let mut out = String::new();
    for i in 0..n
        invariant
            out@ == repeat_spec(s@, i as nat),
    {
        out.append(s);
    }
    out
}

} // verus!
