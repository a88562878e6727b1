//! The pattern extractor: a pure transform from one message body and the
//! shared pattern rule set to a structured alert record.
//!
//! Every field pattern is evaluated line by line, a later matching line
//! overwriting an earlier value; the free-text addendum pattern runs against
//! the whole body. Pager trigger phrases are collected per line, a phrase
//! that is a strict substring of another phrase matched on the same line is
//! suppressed, and the surviving codes are zero-padded to the configured
//! width.

use vstd::prelude::*;
use crate::config::{ParsedData, ParsedV, PatternRules, Ric, RicV, RulesV};
use crate::text::{chars_of, contains_chars, remove_char, spec_contains, spec_lines, spec_pad,
    spec_remove, spec_trim, split_lines, string_from_chars, trim_chars, zero_pad};

verus! {

/// The first capture group of the leftmost match of the regular expression
/// `pattern` on `text`, or `None` when the pattern is invalid, does not
/// match, or its first group takes no part in the match. A pure function of
/// the two arguments.
pub uninterp spec fn capture_of(pattern: Seq<char>, text: Seq<char>) -> Option<Seq<char>>;

/// Relies on `regex::Regex::new`, `Regex::captures` and `Captures::get`:
/// `captures` returns the capture groups of the leftmost match, if any, and
/// `get(1)` the text of the first group when it participated in the match.
/// Matching is a deterministic function of the pattern and the haystack.
#[verifier::external_body]
fn capture(pattern: &str, text: &Vec<char>) -> (r: Option<Vec<char>>)
    ensures
        r.deep_view() == capture_of(pattern@, text@),
{
    let haystack: String = text.iter().collect();
    let re = match regex::Regex::new(pattern) {
        Ok(re) => re,
        Err(_) => return None,
    };
    re.captures(&haystack).and_then(|caps| caps.get(1)).map(|m| m.as_str().chars().collect())
}

/// The value a line-by-line field pattern extracts from `lines`: the first
/// capture group on the last line where the pattern captures, or the empty
/// sequence when it captures nowhere.
pub open spec fn spec_field(pattern: Seq<char>, lines: Seq<Seq<char>>) -> Seq<char>
    decreases lines.len(),
{
    if lines.len() == 0 {
        Seq::empty()
    } else {
        match capture_of(pattern, lines.last()) {
            Some(v) => v,
            None => spec_field(pattern, lines.drop_last()),
        }
    }
}

/// Runs one field pattern over every line; the capture from the last
/// matching line wins.
fn last_capture(pattern: &str, lines: &Vec<Vec<char>>) -> (r: Vec<char>)
    ensures
        r@ == spec_field(pattern@, lines.deep_view()),
{
    let mut out: Vec<char> = Vec::new();
    let mut i: usize = 0;
    proof {
        assert(lines.deep_view().subrange(0, 0) =~= Seq::<Seq<char>>::empty());
    }
    while i < lines.len()
        invariant
            i <= lines@.len(),
            out@ == spec_field(pattern@, lines.deep_view().subrange(0, i as int)),
        decreases lines@.len() - i,
    {
        proof {
            assert(lines.deep_view().subrange(0, i + 1).drop_last() =~= lines.deep_view().subrange(
                0,
                i as int,
            ));
            assert(lines.deep_view().subrange(0, i + 1).last() == lines@[i as int]@);
        }
        match capture(pattern, &lines[i]) {
            Some(v) => {
                out = v;
            },
            None => {},
        }
        i += 1;
    }
    proof {
        assert(lines.deep_view().subrange(0, lines@.len() as int) =~= lines.deep_view());
    }
    out
}

/// `a` occurs inside `b` but differs from it.
pub open spec fn spec_strict_sub(a: Seq<char>, b: Seq<char>) -> bool {
    a != b && spec_contains(b, a)
}

/// The pager table entries whose trigger phrase occurs in `line`, in table
/// order.
pub open spec fn spec_matched(rics: Seq<RicV>, line: Seq<char>) -> Seq<RicV>
    decreases rics.len(),
{
    if rics.len() == 0 {
        Seq::empty()
    } else {
        let rest = spec_matched(rics.drop_last(), line);
        if spec_contains(line, rics.last().text) {
            rest.push(rics.last())
        } else {
            rest
        }
    }
}

/// Some entry of `m` has `t` as a strict substring of its trigger phrase.
pub open spec fn spec_has_strict_super(m: Seq<RicV>, t: Seq<char>) -> bool {
    exists|j: int| 0 <= j < m.len() && spec_strict_sub(t, #[trigger] m[j].text)
}

/// The entries of `m` that no other entry of `all` suppresses: an entry
/// survives unless its trigger phrase is a strict substring of another
/// matched trigger phrase.
pub open spec fn spec_survivors(m: Seq<RicV>, all: Seq<RicV>) -> Seq<RicV>
    decreases m.len(),
{
    if m.len() == 0 {
        Seq::empty()
    } else {
        let rest = spec_survivors(m.drop_last(), all);
        if spec_has_strict_super(all, m.last().text) {
            rest
        } else {
            rest.push(m.last())
        }
    }
}

/// An entry with its pager code zero-padded to `width`.
pub open spec fn spec_pad_ric(r: RicV, width: nat) -> RicV {
    RicV { text: r.text, ric: spec_pad(r.ric, width), subric: r.subric }
}

/// Every entry zero-padded to `width`.
pub open spec fn spec_pad_all(s: Seq<RicV>, width: nat) -> Seq<RicV>
    decreases s.len(),
{
    if s.len() == 0 {
        Seq::empty()
    } else {
        spec_pad_all(s.drop_last(), width).push(spec_pad_ric(s.last(), width))
    }
}

/// The pager entries one line contributes: the matched entries, the
/// suppressed ones dropped, the codes zero-padded.
pub open spec fn spec_line_rics(rics: Seq<RicV>, line: Seq<char>, width: nat) -> Seq<RicV> {
    let m = spec_matched(rics, line);
    spec_pad_all(spec_survivors(m, m), width)
}

/// The pager entries of the whole body: each line's surviving matches, in
/// line order, kept as encountered and not deduplicated.
pub open spec fn spec_all_rics(rics: Seq<RicV>, lines: Seq<Seq<char>>, width: nat) -> Seq<RicV>
    decreases lines.len(),
{
    if lines.len() == 0 {
        Seq::empty()
    } else {
        spec_all_rics(rics, lines.drop_last(), width) + spec_line_rics(rics, lines.last(), width)
    }
}

/// Collects the pager table entries whose trigger phrase occurs in `line`.
fn line_matches(rics: &Vec<Ric>, line: &Vec<char>) -> (m: Vec<Ric>)
    ensures
        m.deep_view() == spec_matched(rics.deep_view(), line@),
{
    let mut out: Vec<Ric> = Vec::new();
    let mut k: usize = 0;
    proof {
        assert(rics.deep_view().subrange(0, 0) =~= Seq::<RicV>::empty());
    }
    while k < rics.len()
        invariant
            k <= rics@.len(),
            out.deep_view() == spec_matched(rics.deep_view().subrange(0, k as int), line@),
        decreases rics@.len() - k,
    {
        proof {
            assert(rics.deep_view().subrange(0, k + 1).drop_last() =~= rics.deep_view().subrange(
                0,
                k as int,
            ));
            assert(rics.deep_view().subrange(0, k + 1).last() == rics@[k as int]@);
        }
        let text = chars_of(rics[k].text.as_str());
        if contains_chars(line, &text) {
            out.push(rics[k].duplicate());
            proof {
                assert(out.deep_view() =~= spec_matched(
                    rics.deep_view().subrange(0, k + 1),
                    line@,
                ));
            }
        }
        k += 1;
    }
    proof {
        assert(rics.deep_view().subrange(0, rics@.len() as int) =~= rics.deep_view());
    }
    out
}

/// Decides whether some entry of `m` suppresses the trigger phrase `t`.
fn has_strict_super(m: &Vec<Ric>, t: &Vec<char>) -> (r: bool)
    ensures
        r == spec_has_strict_super(m.deep_view(), t@),
{
    let mut j: usize = 0;
    while j < m.len()
        invariant
            j <= m@.len(),
            forall|k: int| 0 <= k < j ==> !spec_strict_sub(t@, #[trigger] m.deep_view()[k].text),
        decreases m@.len() - j,
    {
        let other = chars_of(m[j].text.as_str());
        let cont = contains_chars(&other, t);
        let equal = other.len() == t.len() && cont;
        proof {
            if equal {
                let i = choose|i: int|
                    0 <= i && i + t@.len() <= other@.len() && #[trigger] other@.subrange(
                        i,
                        i + t@.len(),
                    ) == t@;
                assert(other@.subrange(0, t@.len() as int) =~= other@);
            }
            if t@ == other@ {
                assert(other@.subrange(0, 0 + t@.len() as int) =~= t@);
            }
            assert(equal == (t@ == other@));
        }
        if cont && !equal {
            proof {
                assert(spec_strict_sub(t@, m.deep_view()[j as int].text));
            }
            return true;
        }
        proof {
            assert(!spec_strict_sub(t@, m.deep_view()[j as int].text));
        }
        j += 1;
    }
    false
}

/// Keeps the matched entries of one line that survive longest-match
/// suppression, their codes zero-padded to `width`.
fn line_survivors(m: &Vec<Ric>, width: usize) -> (s: Vec<Ric>)
    ensures
        s.deep_view() == spec_pad_all(
            spec_survivors(m.deep_view(), m.deep_view()),
            width as nat,
        ),
{
    let mut out: Vec<Ric> = Vec::new();
    let mut i: usize = 0;
    proof {
        assert(m.deep_view().subrange(0, 0) =~= Seq::<RicV>::empty());
    }
    while i < m.len()
        invariant
            i <= m@.len(),
            out.deep_view() == spec_pad_all(
                spec_survivors(m.deep_view().subrange(0, i as int), m.deep_view()),
                width as nat,
            ),
        decreases m@.len() - i,
    {
        proof {
            assert(m.deep_view().subrange(0, i + 1).drop_last() =~= m.deep_view().subrange(
                0,
                i as int,
            ));
            assert(m.deep_view().subrange(0, i + 1).last() == m@[i as int]@);
        }
        let t = chars_of(m[i].text.as_str());
        if !has_strict_super(m, &t) {
            let code = chars_of(m[i].ric.as_str());
            let padded = zero_pad(&code, width);
            let entry = Ric {
                text: m[i].text.clone(),
                ric: string_from_chars(&padded),
                subric: m[i].subric.clone(),
            };
            proof {
                assert(entry@ == spec_pad_ric(m.deep_view()[i as int], width as nat));
            }
            out.push(entry);
            proof {
                let sv = spec_survivors(m.deep_view().subrange(0, i as int), m.deep_view());
                let cur = m.deep_view()[i as int];
                assert(sv.push(cur).drop_last() =~= sv);
                assert(spec_survivors(m.deep_view().subrange(0, i + 1), m.deep_view()) == sv.push(
                    cur,
                ));
                assert(spec_pad_all(sv.push(cur), width as nat) == spec_pad_all(
                    sv,
                    width as nat,
                ).push(spec_pad_ric(cur, width as nat)));
                assert(out.deep_view() =~= spec_pad_all(
                    spec_survivors(m.deep_view().subrange(0, i + 1), m.deep_view()),
                    width as nat,
                ));
            }
        }
        i += 1;
    }
    proof {
        assert(m.deep_view().subrange(0, m@.len() as int) =~= m.deep_view());
    }
    out
}

/// The record that extraction produces from `body` under `rules`: line
/// endings normalized, each field the trimmed capture of the last line its
/// pattern matches (the addendum matched against the whole body, the keyword
/// also stripped of `'/'`), and the pager entries of every line after
/// longest-match suppression, codes zero-padded.
pub open spec fn spec_extract(body: Seq<char>, rules: RulesV) -> ParsedV {
    let cleaned = spec_remove(body, '\r');
    let lines = spec_lines(cleaned);
    ParsedV {
        rics: spec_all_rics(rules.rics, lines, rules.ric_width),
        einsatznrlst: spec_trim(spec_field(rules.regex_einsatznrleitstelle, lines)),
        strasse: spec_trim(spec_field(rules.regex_strasse, lines)),
        hausnummer: spec_trim(spec_field(rules.regex_hausnummer, lines)),
        ort: spec_trim(spec_field(rules.regex_ort, lines)),
        ortsteil: spec_trim(spec_field(rules.regex_ortsteil, lines)),
        objektname: spec_trim(spec_field(rules.regex_objektname, lines)),
        koordinaten: spec_trim(spec_field(rules.regex_koordinaten, lines)),
        einsatzstichwort: spec_trim(
            spec_remove(spec_field(rules.regex_einsatzstichwort, lines), '/'),
        ),
        zusatzinfo: spec_trim(
            match capture_of(rules.regex_zusatzinfo, cleaned) {
                Some(v) => v,
                None => Seq::empty(),
            },
        ),
    }
}

/// Extracts the structured alert record from one message body. A pure
/// transform: the site identifier tags the record's origin for the caller
/// and does not influence the result.
pub fn parse(_standort: &str, body_input: String, configuration: &PatternRules) -> (r: ParsedData)
    ensures
        r@ == spec_extract(body_input@, configuration@),
{
    let body = chars_of(body_input.as_str());
    let cleaned = remove_char(&body, '\r');
    let lines = split_lines(&cleaned);
    let einsatznrlst = string_from_chars(
        &trim_chars(&last_capture(configuration.regex_einsatznrleitstelle.as_str(), &lines)),
    );
    let strasse = string_from_chars(
        &trim_chars(&last_capture(configuration.regex_strasse.as_str(), &lines)),
    );
    let hausnummer = string_from_chars(
        &trim_chars(&last_capture(configuration.regex_hausnummer.as_str(), &lines)),
    );
    let ort = string_from_chars(
        &trim_chars(&last_capture(configuration.regex_ort.as_str(), &lines)),
    );
    let ortsteil = string_from_chars(
        &trim_chars(&last_capture(configuration.regex_ortsteil.as_str(), &lines)),
    );
    let objektname = string_from_chars(
        &trim_chars(&last_capture(configuration.regex_objektname.as_str(), &lines)),
    );
    let koordinaten = string_from_chars(
        &trim_chars(&last_capture(configuration.regex_koordinaten.as_str(), &lines)),
    );
    let stichwort_raw = last_capture(configuration.regex_einsatzstichwort.as_str(), &lines);
    let einsatzstichwort = string_from_chars(&trim_chars(&remove_char(&stichwort_raw, '/')));
    let captured_zusatz = capture(configuration.regex_zusatzinfo.as_str(), &cleaned);
    let zusatz_raw = match captured_zusatz {
        Some(v) => {
            proof {
                assert(capture_of(configuration@.regex_zusatzinfo, cleaned@) == Some(v@));
            }
            v
        },
        None => {
            proof {
                assert(capture_of(configuration@.regex_zusatzinfo, cleaned@) is None);
            }
            Vec::new()
        },
    };
    let zusatzinfo = string_from_chars(&trim_chars(&zusatz_raw));
    let mut rics: Vec<Ric> = Vec::new();
    let mut i: usize = 0;
    proof {
        assert(lines.deep_view().subrange(0, 0) =~= Seq::<Seq<char>>::empty());
    }
    while i < lines.len()
        invariant
            i <= lines@.len(),
            rics.deep_view() == spec_all_rics(
                configuration@.rics,
                lines.deep_view().subrange(0, i as int),
                configuration@.ric_width,
            ),
        decreases lines@.len() - i,
    {
        proof {
            assert(lines.deep_view().subrange(0, i + 1).drop_last() =~= lines.deep_view().subrange(
                0,
                i as int,
            ));
            assert(lines.deep_view().subrange(0, i + 1).last() == lines@[i as int]@);
        }
        let m = line_matches(&configuration.rics, &lines[i]);
        let mut s = line_survivors(&m, configuration.ric_width);
        let ghost before = rics.deep_view();
        let ghost contributed = s.deep_view();
        rics.append(&mut s);
        proof {
            assert(contributed == spec_line_rics(
                configuration@.rics,
                lines.deep_view()[i as int],
                configuration@.ric_width,
            ));
            assert forall|k: int| 0 <= k < rics.deep_view().len() implies rics.deep_view()[k] == (
            before + contributed)[k] by {
                if k < before.len() {
                    assert(rics@[k] == rics@.subrange(0, before.len() as int)[k]);
                }
            }
            assert(rics.deep_view() =~= before + contributed);
            assert(rics.deep_view() =~= spec_all_rics(
                configuration@.rics,
                lines.deep_view().subrange(0, i + 1),
                configuration@.ric_width,
            ));
        }
        i += 1;
    }
    proof {
        assert(lines.deep_view().subrange(0, lines@.len() as int) =~= lines.deep_view());
    }
    ParsedData {
        rics,
        einsatznrlst,
        strasse,
        hausnummer,
        ort,
        ortsteil,
        objektname,
        koordinaten,
        einsatzstichwort,
        zusatzinfo,
    }
}

/// Every survivor of suppression is one of the matched entries and has no
/// strict superstring among the matched trigger phrases.
pub proof fn lemma_survivors_sound(p: Seq<RicV>, all: Seq<RicV>)
    ensures
        forall|j: int|
            0 <= j < spec_survivors(p, all).len() ==> p.contains(
                #[trigger] spec_survivors(p, all)[j],
            ) && !spec_has_strict_super(all, spec_survivors(p, all)[j].text),
    decreases p.len(),
{
    if p.len() > 0 {
        lemma_survivors_sound(p.drop_last(), all);
        let rest = spec_survivors(p.drop_last(), all);
        let whole = spec_survivors(p, all);
        assert forall|j: int| 0 <= j < whole.len() implies p.contains(#[trigger] whole[j])
            && !spec_has_strict_super(all, whole[j].text) by {
            if j < rest.len() {
                assert(whole[j] == rest[j]);
                let i = choose|i: int| 0 <= i < p.drop_last().len() && p.drop_last()[i] == rest[j];
                assert(p[i] == rest[j]);
            } else {
                assert(whole[j] == p.last());
                assert(p[p.len() - 1] == p.last());
            }
        }
    }
}

/// Longest-match suppression: a matched trigger phrase that is a strict
/// substring of another trigger phrase matched on the same line appears
/// nowhere among that line's surviving entries.
pub proof fn lemma_longest_match_suppressed(rics: Seq<RicV>, line: Seq<char>, width: nat, k: int)
    requires
        0 <= k < spec_matched(rics, line).len(),
        spec_has_strict_super(spec_matched(rics, line), spec_matched(rics, line)[k].text),
    ensures
        forall|j: int|
            0 <= j < spec_line_rics(rics, line, width).len()
                ==> (#[trigger] spec_line_rics(rics, line, width)[j]).text
                != spec_matched(rics, line)[k].text,
{
    let m = spec_matched(rics, line);
    lemma_survivors_sound(m, m);
    lemma_pad_all_texts(spec_survivors(m, m), width);
}

/// Zero-padding changes no trigger phrase and keeps the entry count.
pub proof fn lemma_pad_all_texts(s: Seq<RicV>, width: nat)
    ensures
        spec_pad_all(s, width).len() == s.len(),
        forall|j: int|
            0 <= j < s.len() ==> (#[trigger] spec_pad_all(s, width)[j]).text == s[j].text
                && spec_pad_all(s, width)[j].ric == spec_pad(s[j].ric, width),
    decreases s.len(),
{
    if s.len() > 0 {
        lemma_pad_all_texts(s.drop_last(), width);
    }
}

/// A matched entry that no other matched trigger phrase strictly contains
/// survives suppression.
pub proof fn lemma_longest_match_kept(p: Seq<RicV>, all: Seq<RicV>, k: int)
    requires
        0 <= k < p.len(),
        !spec_has_strict_super(all, p[k].text),
    ensures
        spec_survivors(p, all).contains(p[k]),
    decreases p.len(),
{
    let whole = spec_survivors(p, all);
    if k == p.len() - 1 {
        assert(whole.last() == p.last());
        assert(whole.contains(p[k])) by {
            assert(whole[whole.len() - 1] == p[k]);
        }
    } else {
        lemma_longest_match_kept(p.drop_last(), all, k);
        let rest = spec_survivors(p.drop_last(), all);
        let i = choose|i: int| 0 <= i < rest.len() && rest[i] == p.drop_last()[k];
        assert(p.drop_last()[k] == p[k]);
        if spec_has_strict_super(all, p.last().text) {
            assert(whole[i] == p[k]);
        } else {
            assert(whole[i] == p[k]);
        }
    }
}

/// Field overwrite order: when line `j` is the last line on which a field
/// pattern captures, the extracted field is that capture — a later matching
/// line overwrites every earlier value.
pub proof fn lemma_field_last_match_wins(
    pattern: Seq<char>,
    lines: Seq<Seq<char>>,
    j: int,
    v: Seq<char>,
)
    requires
        0 <= j < lines.len(),
        capture_of(pattern, lines[j]) == Some(v),
        forall|k: int| j < k < lines.len() ==> capture_of(pattern, #[trigger] lines[k]) is None,
    ensures
        spec_field(pattern, lines) == v,
    decreases lines.len(),
{
    if j == lines.len() - 1 {
        assert(lines.last() == lines[j]);
    } else {
        assert(capture_of(pattern, lines.last()) is None);
        assert forall|k: int| j < k < lines.drop_last().len() implies capture_of(
            pattern,
            #[trigger] lines.drop_last()[k],
        ) is None by {
            assert(lines.drop_last()[k] == lines[k]);
        }
        assert(lines.drop_last()[j] == lines[j]);
        lemma_field_last_match_wins(pattern, lines.drop_last(), j, v);
    }
}

/// Zero-pad invariant: every pager code the extractor emits is at least the
/// configured width long, and a code at most that long ends in the supplied
/// digits with only zeroes before them.
pub proof fn lemma_extracted_codes_padded(rics: Seq<RicV>, lines: Seq<Seq<char>>, width: nat)
    ensures
        forall|j: int|
            0 <= j < spec_all_rics(rics, lines, width).len()
                ==> (#[trigger] spec_all_rics(rics, lines, width)[j]).ric.len() >= width,
    decreases lines.len(),
{
    if lines.len() > 0 {
        lemma_extracted_codes_padded(rics, lines.drop_last(), width);
        let m = spec_matched(rics, lines.last());
        lemma_pad_all_texts(spec_survivors(m, m), width);
        let prior = spec_all_rics(rics, lines.drop_last(), width);
        let line = spec_line_rics(rics, lines.last(), width);
        assert forall|j: int| 0 <= j < spec_all_rics(rics, lines, width).len() implies (
        #[trigger] spec_all_rics(rics, lines, width)[j]).ric.len() >= width by {
            if j < prior.len() {
                assert(spec_all_rics(rics, lines, width)[j] == prior[j]);
            } else {
                assert(spec_all_rics(rics, lines, width)[j] == line[j - prior.len()]);
            }
        }
    }
}

} // verus!
