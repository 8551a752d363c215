//! The search tools: which lines match, and the summaries they answer with.
use vstd::prelude::*;

use crate::text::{
    chars_contains, chars_of, contains_seq, decimal, join_strings, join_with, lines, lines_of,
    push_decimal, push_str_chars, string_from_chars, string_views,
};

verus! {

#[verifier::external_type_specification]
#[verifier::external_body]
pub struct ExRegex(regex::Regex);

/// Whether the regular expression `pattern` (as the `regex` crate reads
/// it) matches somewhere in `line`; a function of the two texts.
pub uninterp spec fn regex_match(pattern: Seq<char>, line: Seq<char>) -> bool;

/// The error text of `Regex::new(pattern)`, when the pattern is refused; a
/// function of the pattern.
pub uninterp spec fn regex_error(pattern: Seq<char>) -> Option<Seq<char>>;

/// A compiled regular expression with the text it was compiled from.
pub struct RegexMatcher {
    source: String,
    re: regex::Regex,
}

impl RegexMatcher {
    pub closed spec fn source_view(&self) -> Seq<char> {
        self.source@
    }
}

/// `regex::Regex::new(pattern)`: the compiled expression, kept with its
/// text, or the text of the error; which one is named by `regex_error`.
#[verifier::external_body]
fn compile_regex(pattern: &str) -> (r: Result<RegexMatcher, String>)
    ensures
        match regex_error(pattern@) {
            Some(e) => r matches Err(x) && x@ == e,
            None => r matches Ok(m) && m.source_view() == pattern@,
        },
{
    match regex::Regex::new(pattern) {
        Ok(re) => Ok(RegexMatcher { source: pattern.to_string(), re }),
        Err(e) => Err(e.to_string()),
    }
}

/// `Regex::is_match` of an expression compiled from `m.source`; named by
/// `regex_match`.
#[verifier::external_body]
fn regex_is_match(m: &RegexMatcher, line: &str) -> (r: bool)
    ensures
        r == regex_match(m.source_view(), line@),
{
    m.re.is_match(line)
}

/// What a search looks for: a piece of text, or a regular expression.
pub enum Matcher {
    Literal(String),
    Regex(RegexMatcher),
}

/// Whether a line is a match.
pub open spec fn line_matches(m: Matcher, line: Seq<char>) -> bool {
    match m {
        Matcher::Literal(p) => contains_seq(line, p@),
        Matcher::Regex(r) => regex_match(r.source_view(), line),
    }
}

/// A text search finds a line exactly when the pattern occurs in it at some
/// offset, not only at its start.
pub proof fn law_literal_matches_anywhere(p: String, line: Seq<char>)
    ensures
        line_matches(Matcher::Literal(p), line) <==> exists|i: int|
            0 <= i && i + p@.len() <= line.len() && #[trigger] line.subrange(i, i + p@.len()) == p@,
{
    if line_matches(Matcher::Literal(p), line) {
        let i = choose|i: int| crate::text::occurs_at(line, p@, i);
        assert(line.subrange(i, i + p@.len()) == p@);
    }
    if exists|i: int| 0 <= i && i + p@.len() <= line.len() && #[trigger] line.subrange(i, i + p@.len()) == p@ {
        let i = choose|i: int| 0 <= i && i + p@.len() <= line.len() && #[trigger] line.subrange(i, i + p@.len()) == p@;
        assert(crate::text::occurs_at(line, p@, i));
    }
}

/// A text search that has room reports every line containing the pattern
/// anywhere: the line `k` of a file is reported, as `path:k+1:line`, right
/// after what the earlier lines gave.
pub proof fn law_scan_reports_inner_match(
    found: Seq<Seq<char>>,
    path: Seq<char>,
    ls: Seq<Seq<char>>,
    p: String,
    k: nat,
    i: int,
)
    requires
        k < ls.len(),
        0 <= i && i + p@.len() <= ls[k as int].len(),
        ls[k as int].subrange(i, i + p@.len()) == p@,
        scan_spec(found, path, ls, Matcher::Literal(p), k).len() < 100,
    ensures
        scan_spec(found, path, ls, Matcher::Literal(p), k + 1) == scan_spec(
            found,
            path,
            ls,
            Matcher::Literal(p),
            k,
        ).push(path + ":"@ + decimal(k + 1) + ":"@ + ls[k as int]),
{
    assert(crate::text::occurs_at(ls[k as int], p@, i));
}

/// The matcher of a search: the pattern as a regular expression when
/// `is_regex`, else as text; a refused expression gives `invalid regex: `
/// and the error.
pub fn make_matcher(pattern: &str, is_regex: bool) -> (r: Result<Matcher, String>)
    ensures
        !is_regex ==> (r matches Ok(Matcher::Literal(p)) && p@ == pattern@),
        is_regex ==> (match regex_error(pattern@) {
            Some(e) => r matches Err(x) && x@ == "invalid regex: "@ + e,
            None => r matches Ok(Matcher::Regex(m)) && m.source_view() == pattern@,
        }),
{
    if !is_regex {
        return Ok(Matcher::Literal(pattern.to_string()));
    }
    match compile_regex(pattern) {
        Ok(m) => Ok(Matcher::Regex(m)),
        Err(e) => {
            let mut s = String::new();
            push_str_chars(&mut s, "invalid regex: ");
            push_str_chars(&mut s, e.as_str());
            proof {
                reveal_strlit("invalid regex: ");
            }
            Err(s)
        },
    }
}

fn matches_exec(m: &Matcher, line: &Vec<char>) -> (r: bool)
    ensures
        r == line_matches(*m, line@),
{
    match m {
        Matcher::Literal(p) => {
            let pc = chars_of(p.as_str());
            chars_contains(line, &pc)
        },
        Matcher::Regex(re) => {
            let s = string_from_chars(line);
            regex_is_match(re, s.as_str())
        },
    }
}

/// The most matches a search reports.
pub const MAX_MATCHES: usize = 100;

/// A reported match: the file, the line number (from one) and the line.
pub open spec fn match_text(path: Seq<char>, k: nat, line: Seq<char>) -> Seq<char> {
    path + ":"@ + decimal(k + 1) + ":"@ + line
}

/// The matches after the first `n` lines of a file, starting from `found`:
/// each matching line is added until there are 100.
pub open spec fn scan_spec(
    found: Seq<Seq<char>>,
    path: Seq<char>,
    ls: Seq<Seq<char>>,
    m: Matcher,
    n: nat,
) -> Seq<Seq<char>>
    decreases n,
{
    if n == 0 {
        found
    } else {
        let r = scan_spec(found, path, ls, m, (n - 1) as nat);
        if r.len() < 100 && line_matches(m, ls[n - 1]) {
            r.push(match_text(path, (n - 1) as nat, ls[n - 1]))
        } else {
            r
        }
    }
}

/// Adds the matching lines of one file (its lines as `str::lines` gives
/// them) to the matches found so far, while there are fewer than 100.
pub fn scan_file(found: &mut Vec<String>, path: &str, content: &str, m: &Matcher)
    ensures
        string_views(final(found)@) == scan_spec(
            string_views(old(found)@),
            path@,
            lines(content@),
            *m,
            lines(content@).len(),
        ),
{
    proof {
        reveal_strlit(":");
    }
    let cs = chars_of(content);
    let ls = lines_of(&cs);
    let ghost lv = lines(content@);
    let ghost start = string_views(found@);
    let n = ls.len();
    for k in 0..n
        invariant
            n == ls@.len(),
            n == lv.len(),
            lv == lines(content@),
            forall|q: int| 0 <= q < n ==> (#[trigger] ls@[q])@ == lv[q],
            string_views(found@) == scan_spec(start, path@, lv, *m, k as nat),
    {
        if found.len() < MAX_MATCHES && matches_exec(m, &ls[k]) {
            let mut t = String::new();
            push_str_chars(&mut t, path);
            push_str_chars(&mut t, ":");
            push_decimal(&mut t, k + 1);
            push_str_chars(&mut t, ":");
            crate::text::push_chars(&mut t, &ls[k]);
            let ghost before = found@;
            let ghost tv = t@;
            found.push(t);
            assert(string_views(found@) =~= string_views(before).push(tv));
        }
    }
}

/// What `search_files` answers: the matches one per line and their count
/// (marked as cut at 100), or that there are none.
pub open spec fn search_summary_spec(ms: Seq<Seq<char>>) -> Seq<char> {
    if ms.len() == 0 {
        "no matches found"@
    } else {
        join_with(
            ms.push(
                "\n["@ + decimal(ms.len()) + " matches"@ + (if ms.len() >= 100 {
                    " (truncated)"@
                } else {
                    Seq::empty()
                }) + "]"@,
            ),
            "\n"@,
        )
    }
}

pub fn search_summary(matches: &Vec<String>) -> (r: String)
    ensures
        r@ == search_summary_spec(string_views(matches@)),
{
    proof {
        reveal_strlit("no matches found");
        reveal_strlit("\n[");
        reveal_strlit(" matches");
        reveal_strlit(" (truncated)");
        reveal_strlit("]");
        reveal_strlit("\n");
    }
    if matches.len() == 0 {
        return "no matches found".to_owned();
    }
    let count = matches.len();
    let mut tail = String::new();
    push_str_chars(&mut tail, "\n[");
    push_decimal(&mut tail, count);
    push_str_chars(&mut tail, " matches");
    if count >= MAX_MATCHES {
        push_str_chars(&mut tail, " (truncated)");
    } else {
        assert(tail@ =~= tail@ + Seq::<char>::empty());
    }
    push_str_chars(&mut tail, "]");
    let mut all: Vec<String> = Vec::new();
    let n = matches.len();
    for i in 0..n
        invariant
            n == matches@.len(),
            string_views(all@) == string_views(matches@).take(i as int),
    {
        let ghost before = all@;
        all.push(matches[i].clone());
        assert(string_views(all@) =~= string_views(before).push(matches@[i as int]@));
        assert(string_views(matches@).take(i + 1) =~= string_views(matches@).take(i as int).push(
            matches@[i as int]@,
        ));
    }
    assert(string_views(matches@).take(n as int) =~= string_views(matches@));
    let ghost tv = tail@;
    let ghost before = all@;
    all.push(tail);
    assert(string_views(all@) =~= string_views(before).push(tv));
    join_strings(&all, "\n")
}

/// The most files that `glob_files` reports.
pub const MAX_GLOB: usize = 200;

/// What `glob_files` answers: the paths one per line and their count
/// (marked as cut at 200), or that there are none.
pub open spec fn glob_summary_spec(ps: Seq<Seq<char>>) -> Seq<char> {
    if ps.len() == 0 {
        "no matches found"@
    } else {
        join_with(
            ps.push(
                "["@ + decimal(ps.len()) + " file(s)"@ + (if ps.len() >= 200 {
                    " (truncated at 200)"@
                } else {
                    Seq::empty()
                }) + "]"@,
            ),
            "\n"@,
        )
    }
}

pub fn glob_summary(paths: &Vec<String>) -> (r: String)
    ensures
        r@ == glob_summary_spec(string_views(paths@)),
{
    proof {
        reveal_strlit("no matches found");
        reveal_strlit("[");
        reveal_strlit(" file(s)");
        reveal_strlit(" (truncated at 200)");
        reveal_strlit("]");
        reveal_strlit("\n");
    }
    if paths.len() == 0 {
        return "no matches found".to_owned();
    }
    let count = paths.len();
    let mut tail = String::new();
    push_str_chars(&mut tail, "[");
    push_decimal(&mut tail, count);
    push_str_chars(&mut tail, " file(s)");
    if count >= MAX_GLOB {
        push_str_chars(&mut tail, " (truncated at 200)");
    } else {
        assert(tail@ =~= tail@ + Seq::<char>::empty());
    }
    push_str_chars(&mut tail, "]");
    let mut all: Vec<String> = Vec::new();
    let n = paths.len();
    for i in 0..n
        invariant
            n == paths@.len(),
            string_views(all@) == string_views(paths@).take(i as int),
    {
        let ghost before = all@;
        all.push(paths[i].clone());
        assert(string_views(all@) =~= string_views(before).push(paths@[i as int]@));
        assert(string_views(paths@).take(i + 1) =~= string_views(paths@).take(i as int).push(
            paths@[i as int]@,
        ));
    }
    assert(string_views(paths@).take(n as int) =~= string_views(paths@));
    let ghost tv = tail@;
    let ghost before = all@;
    all.push(tail);
    assert(string_views(all@) =~= string_views(before).push(tv));
    join_strings(&all, "\n")
}


/// Whether a file counts for `line_count`: any file when no extensions are
/// given, else one whose extension is among them.
pub open spec fn ext_selected(exts: Seq<Seq<char>>, ext: Option<Seq<char>>) -> bool {
    exts.len() == 0 || (ext is Some && exists|i: int|
        0 <= i < exts.len() && exts[i] == ext->Some_0)
}

pub fn ext_selected_exec(exts: &Vec<String>, ext: Option<&str>) -> (r: bool)
    ensures
        r == ext_selected(string_views(exts@), match ext {
            Some(e) => Some(e@),
            None => None,
        }),
{
    if exts.len() == 0 {
        return true;
    }
    match ext {
        None => false,
        Some(e) => {
            let n = exts.len();
            for i in 0..n
                invariant
                    n == exts@.len(),
                    ext == Some(e),
                    forall|q: int| 0 <= q < i ==> string_views(exts@)[q] != e@,
            {
                if crate::text::str_eq(exts[i].as_str(), e) {
                    assert(string_views(exts@)[i as int] == e@);
                    assert(exists|q: int|
                        0 <= q < string_views(exts@).len() && string_views(exts@)[q] == e@);
                    return true;
                }
            }
            false
        },
    }
}

/// The number of newline bytes in a file.
pub open spec fn newline_count(bytes: Seq<u8>) -> nat
    decreases bytes.len(),
{
    if bytes.len() == 0 {
        0
    } else {
        newline_count(bytes.drop_last()) + if bytes.last() == 10u8 {
            1nat
        } else {
            0nat
        }
    }
}

pub fn count_newlines(bytes: &[u8]) -> (r: usize)
    ensures
        r == newline_count(bytes@),
{
    let n = bytes.len();
    let mut c: usize = 0;
    for i in 0..n
        invariant
            n == bytes@.len(),
            c == newline_count(bytes@.take(i as int)),
            c <= i,
    {
        assert(bytes@.take(i + 1).drop_last() =~= bytes@.take(i as int));
        if bytes[i] == 10u8 {
            c = c + 1;
        }
    }
    assert(bytes@.take(n as int) =~= bytes@);
    c
}

/// Where an entry of the given count goes among entries already in
/// decreasing order: after every entry that counts at least as much.
pub open spec fn ins_pos(s: Seq<(Seq<char>, nat)>, c: nat, k: nat) -> nat
    decreases k,
{
    if k > 0 && k <= s.len() && s[k - 1].1 < c {
        ins_pos(s, c, (k - 1) as nat)
    } else {
        k
    }
}

pub open spec fn insert_desc(s: Seq<(Seq<char>, nat)>, x: (Seq<char>, nat)) -> Seq<(Seq<char>, nat)> {
    let p = ins_pos(s, x.1, s.len()) as int;
    s.take(p) + seq![x] + s.skip(p)
}

/// The entries in decreasing order of count; entries of equal count keep
/// their order.
pub open spec fn sort_desc(s: Seq<(Seq<char>, nat)>) -> Seq<(Seq<char>, nat)>
    decreases s.len(),
{
    if s.len() == 0 {
        Seq::empty()
    } else {
        insert_desc(sort_desc(s.drop_last()), s.last())
    }
}

pub open spec fn count_views(v: Seq<(String, usize)>) -> Seq<(Seq<char>, nat)> {
    v.map_values(|e: (String, usize)| (e.0@, e.1 as nat))
}

/// The entries sorted by decreasing count, stably.
pub fn sort_by_count_desc(entries: &Vec<(String, usize)>) -> (r: Vec<(String, usize)>)
    ensures
        count_views(r@) == sort_desc(count_views(entries@)),
{
    let ghost ev = count_views(entries@);
    let mut out: Vec<(String, usize)> = Vec::new();
    let n = entries.len();
    assert(ev.take(0) =~= Seq::<(Seq<char>, nat)>::empty());
    assert(count_views(out@) =~= Seq::<(Seq<char>, nat)>::empty());
    for i in 0..n
        invariant
            n == ev.len(),
            ev == count_views(entries@),
            count_views(out@) == sort_desc(ev.take(i as int)),
            out@.len() == i,
    {
        let ghost sv = count_views(out@);
        let x = (entries[i].0.clone(), entries[i].1);
        let ghost xv = (x.0@, x.1 as nat);
        assert(xv == ev[i as int]);
        let mut p = out.len();
        while p > 0 && out[p - 1].1 < x.1
            invariant
                p <= out@.len(),
                sv == count_views(out@),
                ins_pos(sv, x.1 as nat, sv.len()) == ins_pos(sv, x.1 as nat, p as nat),
            decreases p,
        {
            p = p - 1;
        }
        assert(ins_pos(sv, x.1 as nat, p as nat) == p);
        out.insert(p, x);
        assert(count_views(out@) =~= sv.take(p as int) + seq![xv] + sv.skip(p as int));
        assert(ev.take(i + 1).drop_last() =~= ev.take(i as int));
        assert(ev.take(i + 1).last() == xv);
    }
    assert(ev.take(n as int) =~= ev);
    out
}


/// The sum of the counts.
pub open spec fn total_count(s: Seq<(Seq<char>, nat)>) -> nat
    decreases s.len(),
{
    if s.len() == 0 {
        0
    } else {
        total_count(s.drop_last()) + s.last().1
    }
}

/// The rows of a line count: the count right-aligned, two spaces, the path.
pub open spec fn count_rows(s: Seq<(Seq<char>, nat)>) -> Seq<char>
    decreases s.len(),
{
    if s.len() == 0 {
        Seq::empty()
    } else {
        count_rows(s.drop_last()) + crate::tools::file_io::pad6(s.last().1) + "  "@ + s.last().0
            + "\n"@
    }
}

/// The most files that `line_count` counts.
pub const MAX_COUNTED: usize = 500;

/// What `line_count` answers for the files counted (in the order found):
/// the files by decreasing count, then how many files and lines there are.
pub open spec fn count_report_spec(found: Seq<(Seq<char>, nat)>) -> Seq<char> {
    if found.len() == 0 {
        "no files found"@
    } else {
        let sorted = sort_desc(found);
        count_rows(sorted) + "\n["@ + decimal(found.len()) + " file(s), "@ + decimal(
            total_count(sorted),
        ) + " total lines"@ + (if found.len() >= 500 {
            ", truncated at 500"@
        } else {
            Seq::empty()
        }) + "]"@
    }
}

proof fn lemma_total_prefix(s: Seq<(Seq<char>, nat)>, i: int)
    requires
        0 <= i <= s.len(),
    ensures
        total_count(s.take(i)) <= total_count(s),
    decreases s.len() - i,
{
    if i < s.len() {
        lemma_total_prefix(s, i + 1);
        assert(s.take(i + 1).drop_last() =~= s.take(i));
    } else {
        assert(s.take(i) =~= s);
    }
}

/// What `line_count` answers.
pub fn line_count_report(found: &Vec<(String, usize)>) -> (r: String)
    requires
        total_count(sort_desc(count_views(found@))) <= usize::MAX,
    ensures
        r@ == count_report_spec(count_views(found@)),
{
    proof {
        reveal_strlit("no files found");
        reveal_strlit("  ");
        reveal_strlit("\n");
        reveal_strlit("\n[");
        reveal_strlit(" file(s), ");
        reveal_strlit(" total lines");
        reveal_strlit(", truncated at 500");
        reveal_strlit("]");
    }
    if found.len() == 0 {
        return "no files found".to_owned();
    }
    let sorted = sort_by_count_desc(found);
    let ghost sv = count_views(sorted@);
    let mut out = String::new();
    let mut total: usize = 0;
    let n = sorted.len();
    assert(sv.take(0) =~= Seq::<(Seq<char>, nat)>::empty());
    for i in 0..n
        invariant
            n == sorted@.len(),
            sv == count_views(sorted@),
            total_count(sv) <= usize::MAX,
            out@ == count_rows(sv.take(i as int)),
            total == total_count(sv.take(i as int)),
    {
        assert(sv.take(i + 1).drop_last() =~= sv.take(i as int));
        proof {
            lemma_total_prefix(sv, i + 1);
        }
        let (path, count) = &sorted[i];
        crate::tools::file_io::push_pad6(&mut out, *count);
        push_str_chars(&mut out, "  ");
        push_str_chars(&mut out, path.as_str());
        push_str_chars(&mut out, "\n");
        total = total + *count;
    }
    assert(sv.take(n as int) =~= sv);
    push_str_chars(&mut out, "\n[");
    push_decimal(&mut out, found.len());
    push_str_chars(&mut out, " file(s), ");
    push_decimal(&mut out, total);
    push_str_chars(&mut out, " total lines");
    if found.len() >= MAX_COUNTED {
        push_str_chars(&mut out, ", truncated at 500");
    } else {
        assert(out@ =~= out@ + Seq::<char>::empty());
    }
    push_str_chars(&mut out, "]");
    out
}

} // verus!
