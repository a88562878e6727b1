//! Character-level utilities for the pattern extractor: substring search,
//! zero-padding of pager codes, whitespace trimming and line splitting,
//! all stated over `Seq<char>`.

use vstd::prelude::*;

verus! {

/// `pat` occurs as a contiguous run of characters inside `text`.
pub open spec fn spec_contains(text: Seq<char>, pat: Seq<char>) -> bool {
    exists|i: int|
        0 <= i && i + pat.len() <= text.len() && #[trigger] text.subrange(i, i + pat.len())
            == pat
}

/// Compares `pat` against `text` at position `i`.
fn matches_at(text: &Vec<char>, pat: &Vec<char>, i: usize) -> (r: bool)
    requires
        i + pat@.len() <= text@.len(),
    ensures
        r == (text@.subrange(i as int, i + pat@.len()) == pat@),
{
    let mut j: usize = 0;
    while j < pat.len()
        invariant
            j <= pat@.len(),
            i + pat@.len() <= text@.len(),
            forall|k: int| 0 <= k < j ==> text@[i + k] == pat@[k],
        decreases pat@.len() - j,
    {
        assert(i + j < text.len());
        if text[i + j] != pat[j] {
            proof {
                assert(text@.subrange(i as int, i + pat@.len())[j as int] == text@[i + j]);
            }
            return false;
        }
        j += 1;
    }
    proof {
        assert(text@.subrange(i as int, i + pat@.len()) =~= pat@);
    }
    true
}

/// Decides whether `pat` occurs as a substring of `text`.
pub fn contains_chars(text: &Vec<char>, pat: &Vec<char>) -> (r: bool)
    ensures
        r == spec_contains(text@, pat@),
{
    if pat.len() > text.len() {
        return false;
    }
    if pat.len() == 0 {
        proof {
            assert(text@.subrange(0, 0 + pat@.len() as int) =~= pat@);
        }
        return true;
    }
    let mut i: usize = 0;
    while i <= text.len() - pat.len()
        invariant
            1 <= pat@.len() <= text@.len(),
            i <= text@.len() - pat@.len() + 1,
            forall|k: int|
                0 <= k < i ==> #[trigger] text@.subrange(k, k + pat@.len()) != pat@,
        decreases text@.len() - pat@.len() - i + 1,
    {
        if matches_at(text, pat, i) {
            return true;
        }
        i += 1;
    }
    false
}

/// A pager code of fewer than `width` characters gains leading zeroes until
/// it is `width` characters long; longer codes are kept as they are.
pub open spec fn spec_pad(code: Seq<char>, width: nat) -> Seq<char> {
    if code.len() >= width {
        code
    } else {
        Seq::new((width - code.len()) as nat, |i: int| '0') + code
    }
}

/// Zero-pads `code` on the left to `width` characters.
pub fn zero_pad(code: &Vec<char>, width: usize) -> (r: Vec<char>)
    ensures
        r@ == spec_pad(code@, width as nat),
{
    let mut out: Vec<char> = Vec::new();
    if code.len() < width {
        let fill: usize = width - code.len();
        let mut k: usize = 0;
        while k < fill
            invariant
                k <= fill,
                out@ =~= Seq::new(k as nat, |i: int| '0'),
            decreases fill - k,
        {
            out.push('0');
            k += 1;
        }
    }
    let mut j: usize = 0;
    let ghost prefix: Seq<char> = out@;
    while j < code.len()
        invariant
            j <= code@.len(),
            out@ == prefix + code@.subrange(0, j as int),
        decreases code@.len() - j,
    {
        out.push(code[j]);
        proof {
            assert(prefix + code@.subrange(0, j + 1) =~= (prefix + code@.subrange(0, j as int)).push(
                code@[j as int]));
        }
        j += 1;
    }
    proof {
        assert(code@.subrange(0, code@.len() as int) =~= code@);
        assert(out@ =~= spec_pad(code@, width as nat));
    }
    out
}

/// `s` with every occurrence of `banned` removed, other characters kept in
/// order.
pub open spec fn spec_remove(s: Seq<char>, banned: char) -> Seq<char>
    decreases s.len(),
{
    if s.len() == 0 {
        Seq::empty()
    } else if s.last() == banned {
        spec_remove(s.drop_last(), banned)
    } else {
        spec_remove(s.drop_last(), banned).push(s.last())
    }
}

/// Removes every occurrence of `banned` from `text`.
pub fn remove_char(text: &Vec<char>, banned: char) -> (r: Vec<char>)
    ensures
        r@ == spec_remove(text@, banned),
{
    let mut out: Vec<char> = Vec::new();
    let mut i: usize = 0;
    proof {
        assert(text@.subrange(0, 0) =~= Seq::<char>::empty());
    }
    while i < text.len()
        invariant
            i <= text@.len(),
            out@ == spec_remove(text@.subrange(0, i as int), banned),
        decreases text@.len() - i,
    {
        proof {
            assert(text@.subrange(0, i + 1).drop_last() =~= text@.subrange(0, i as int));
            assert(text@.subrange(0, i + 1).last() == text@[i as int]);
        }
        if text[i] != banned {
            out.push(text[i]);
        }
        i += 1;
    }
    proof {
        assert(text@.subrange(0, text@.len() as int) =~= text@);
    }
    out
}

/// The characters with the Unicode `White_Space` property, the set that
/// surrounding-whitespace trimming removes.
pub open spec fn spec_is_space(c: char) -> bool {
    c == '\u{0009}' || c == '\u{000A}' || c == '\u{000B}' || c == '\u{000C}' || c == '\u{000D}'
        || c == '\u{0020}' || c == '\u{0085}' || c == '\u{00A0}' || c == '\u{1680}' || c
        == '\u{2000}' || c == '\u{2001}' || c == '\u{2002}' || c == '\u{2003}' || c == '\u{2004}'
        || c == '\u{2005}' || c == '\u{2006}' || c == '\u{2007}' || c == '\u{2008}' || c
        == '\u{2009}' || c == '\u{200A}' || c == '\u{2028}' || c == '\u{2029}' || c == '\u{202F}'
        || c == '\u{205F}' || c == '\u{3000}'
}

/// Decides `spec_is_space`.
pub fn is_space(c: char) -> (r: bool)
    ensures
        r == spec_is_space(c),
{
    c == '\u{0009}' || c == '\u{000A}' || c == '\u{000B}' || c == '\u{000C}' || c == '\u{000D}'
        || c == '\u{0020}' || c == '\u{0085}' || c == '\u{00A0}' || c == '\u{1680}' || c
        == '\u{2000}' || c == '\u{2001}' || c == '\u{2002}' || c == '\u{2003}' || c == '\u{2004}'
        || c == '\u{2005}' || c == '\u{2006}' || c == '\u{2007}' || c == '\u{2008}' || c
        == '\u{2009}' || c == '\u{200A}' || c == '\u{2028}' || c == '\u{2029}' || c == '\u{202F}'
        || c == '\u{205F}' || c == '\u{3000}'
}

/// `s` without its leading whitespace.
pub open spec fn spec_trim_start(s: Seq<char>) -> Seq<char>
    decreases s.len(),
{
    if s.len() == 0 {
        s
    } else if spec_is_space(s.first()) {
        spec_trim_start(s.drop_first())
    } else {
        s
    }
}

/// `s` without its trailing whitespace.
pub open spec fn spec_trim_end(s: Seq<char>) -> Seq<char>
    decreases s.len(),
{
    if s.len() == 0 {
        s
    } else if spec_is_space(s.last()) {
        spec_trim_end(s.drop_last())
    } else {
        s
    }
}

/// `s` without its surrounding whitespace.
pub open spec fn spec_trim(s: Seq<char>) -> Seq<char> {
    spec_trim_end(spec_trim_start(s))
}

/// Removes leading and trailing whitespace from `text`.
pub fn trim_chars(text: &Vec<char>) -> (r: Vec<char>)
    ensures
        r@ == spec_trim(text@),
{
    let mut start: usize = 0;
    proof {
        assert(text@.skip(0) =~= text@);
    }
    while start < text.len() && is_space(text[start])
        invariant
            start <= text@.len(),
            spec_trim_start(text@) == spec_trim_start(text@.skip(start as int)),
        decreases text@.len() - start,
    {
        proof {
            assert(text@.skip(start as int).first() == text@[start as int]);
            assert(text@.skip(start as int).drop_first() =~= text@.skip(start + 1));
        }
        start += 1;
    }
    proof {
        if start < text@.len() {
            assert(spec_trim_start(text@.skip(start as int)) == text@.skip(start as int));
        } else {
            assert(text@.skip(start as int) =~= Seq::<char>::empty());
        }
        assert(spec_trim_start(text@) == text@.skip(start as int));
    }
    let mut end: usize = text.len();
    while end > start && is_space(text[end - 1])
        invariant
            start <= end <= text@.len(),
            spec_trim_end(text@.skip(start as int)) == spec_trim_end(
                text@.subrange(start as int, end as int),
            ),
        decreases end,
    {
        proof {
            assert(text@.subrange(start as int, end as int).last() == text@[end - 1]);
            assert(text@.subrange(start as int, end as int).drop_last() =~= text@.subrange(
                start as int,
                end - 1,
            ));
        }
        end -= 1;
    }
    proof {
        if end > start {
            assert(spec_trim_end(text@.subrange(start as int, end as int)) == text@.subrange(
                start as int,
                end as int,
            ));
        } else {
            assert(text@.subrange(start as int, end as int) =~= Seq::<char>::empty());
        }
    }
    let mut out: Vec<char> = Vec::new();
    let mut i: usize = start;
    while i < end
        invariant
            start <= i <= end <= text@.len(),
            out@ == text@.subrange(start as int, i as int),
        decreases end - i,
    {
        out.push(text[i]);
        proof {
            assert(text@.subrange(start as int, i + 1) =~= text@.subrange(
                start as int,
                i as int,
            ).push(text@[i as int]));
        }
        i += 1;
    }
    proof {
        assert(out@ =~= spec_trim(text@));
    }
    out
}

/// Index of the last `'\n'` in `s`, or `-1` when there is none.
pub open spec fn spec_last_nl(s: Seq<char>) -> int
    decreases s.len(),
{
    if s.len() == 0 {
        -1
    } else if s.last() == '\n' {
        s.len() - 1
    } else {
        spec_last_nl(s.drop_last())
    }
}

proof fn lemma_last_nl_in_range(s: Seq<char>)
    ensures
        -1 <= spec_last_nl(s) < s.len(),
        spec_last_nl(s) >= 0 ==> s[spec_last_nl(s)] == '\n',
    decreases s.len(),
{
    if s.len() > 0 && s.last() != '\n' {
        lemma_last_nl_in_range(s.drop_last());
        if spec_last_nl(s.drop_last()) >= 0 {
            assert(s[spec_last_nl(s)] == s.drop_last()[spec_last_nl(s.drop_last())]);
        }
    }
}

#[via_fn]
proof fn spec_split_decreases(s: Seq<char>) {
    lemma_last_nl_in_range(s);
}

/// `s` cut at every `'\n'`: one piece more than there are newlines, in order,
/// without the newlines themselves.
pub open spec fn spec_split(s: Seq<char>) -> Seq<Seq<char>>
    decreases s.len(),
    via spec_split_decreases
{
    if spec_last_nl(s) < 0 {
        seq![s]
    } else {
        spec_split(s.subrange(0, spec_last_nl(s))).push(
            s.subrange(spec_last_nl(s) + 1, s.len() as int),
        )
    }
}

/// The lines of `s`, as the `lines` iterator of `str` yields them for text
/// free of `'\r'`: pieces between newlines, a trailing newline ending the
/// last line rather than opening an empty one.
pub open spec fn spec_lines(s: Seq<char>) -> Seq<Seq<char>> {
    if s.len() == 0 {
        Seq::empty()
    } else if s.last() == '\n' {
        spec_split(s).drop_last()
    } else {
        spec_split(s)
    }
}

/// Appending a newline closes the current line and opens an empty one.
proof fn lemma_split_push_nl(s: Seq<char>)
    ensures
        spec_split(s.push('\n')) == spec_split(s).push(Seq::empty()),
{
    let t = s.push('\n');
    assert(spec_last_nl(t) == s.len());
    assert(t.subrange(0, s.len() as int) =~= s);
    assert(t.subrange(s.len() as int + 1, t.len() as int) =~= Seq::<char>::empty());
}

/// Appending any other character extends the last line.
proof fn lemma_split_push_ch(s: Seq<char>, c: char)
    requires
        c != '\n',
    ensures
        spec_split(s.push(c)) == spec_split(s).update(
            spec_split(s).len() - 1,
            spec_split(s).last().push(c),
        ),
{
    let t = s.push(c);
    assert(t.drop_last() =~= s);
    assert(spec_last_nl(t) == spec_last_nl(s));
    lemma_last_nl_in_range(s);
    let i = spec_last_nl(s);
    if i < 0 {
        assert(spec_split(t) =~~= spec_split(s).update(
            spec_split(s).len() - 1,
            spec_split(s).last().push(c),
        ));
    } else {
        assert(t.subrange(0, i) =~= s.subrange(0, i));
        assert(t.subrange(i + 1, t.len() as int) =~= s.subrange(i + 1, s.len() as int).push(c));
        assert(spec_split(t) =~~= spec_split(s).update(
            spec_split(s).len() - 1,
            spec_split(s).last().push(c),
        ));
    }
}

/// Splits `text` into its lines, as `spec_lines` describes.
pub fn split_lines(text: &Vec<char>) -> (r: Vec<Vec<char>>)
    ensures
        r.deep_view() == spec_lines(text@),
{
    let mut out: Vec<Vec<char>> = Vec::new();
    let mut cur: Vec<char> = Vec::new();
    let mut i: usize = 0;
    proof {
        assert(text@.subrange(0, 0) =~= Seq::<char>::empty());
        assert(spec_split(text@.subrange(0, 0)) =~~= out.deep_view().push(cur@));
    }
    while i < text.len()
        invariant
            i <= text@.len(),
            spec_split(text@.subrange(0, i as int)) == out.deep_view().push(cur@),
        decreases text@.len() - i,
    {
        let ghost prefix = text@.subrange(0, i as int);
        proof {
            assert(text@.subrange(0, i + 1) =~= prefix.push(text@[i as int]));
        }
        if text[i] == '\n' {
            proof {
                lemma_split_push_nl(prefix);
            }
            out.push(cur);
            cur = Vec::new();
            proof {
                assert(spec_split(text@.subrange(0, i + 1)) =~~= out.deep_view().push(cur@));
            }
        } else {
            proof {
                lemma_split_push_ch(prefix, text@[i as int]);
            }
            cur.push(text[i]);
            proof {
                assert(spec_split(text@.subrange(0, i + 1)) =~~= out.deep_view().push(cur@));
            }
        }
        i += 1;
    }
    proof {
        assert(text@.subrange(0, text@.len() as int) =~= text@);
    }
    if text.len() == 0 {
        proof {
            assert(out.deep_view() =~~= spec_lines(text@));
        }
        return out;
    }
    if text[text.len() - 1] == '\n' {
        proof {
            assert(out.deep_view() =~~= spec_split(text@).drop_last());
        }
        return out;
    }
    out.push(cur);
    proof {
        assert(out.deep_view() =~~= spec_split(text@));
    }
    out
}

/// The characters of `s`, one vector element per `char`.
pub fn chars_of(s: &str) -> (r: Vec<char>)
    ensures
        r@ == s@,
{
    let n: usize = s.unicode_len();
    let mut out: Vec<char> = Vec::new();
    let mut i: usize = 0;
    while i < n
        invariant
            i <= n,
            n == s@.len(),
            out@ == s@.subrange(0, i as int),
        decreases n - i,
    {
        out.push(s.get_char(i));
        proof {
            assert(s@.subrange(0, i + 1) =~= s@.subrange(0, i as int).push(s@[i as int]));
        }
        i += 1;
    }
    proof {
        assert(out@ =~= s@);
    }
    out
}

/// Relies on `String::push`: appends the given character to the end of the
/// string.
#[verifier::external_body]
fn push_char(s: &mut String, c: char)
    ensures
        final(s)@ == old(s)@.push(c),
{
    s.push(c);
}

/// Builds the `String` whose characters are exactly `v`.
pub fn string_from_chars(v: &Vec<char>) -> (r: String)
    ensures
        r@ == v@,
{
    let mut out = String::new();
    let mut i: usize = 0;
    while i < v.len()
        invariant
            i <= v@.len(),
            out@ == v@.subrange(0, i as int),
        decreases v@.len() - i,
    {
        push_char(&mut out, v[i]);
        proof {
            assert(v@.subrange(0, i + 1) =~= v@.subrange(0, i as int).push(v@[i as int]));
        }
        i += 1;
    }
    proof {
        assert(out@ =~= v@);
    }
    out
}

} // verus!
