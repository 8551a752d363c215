//! The edits that the file tools make to text: replacing a snippet that must
//! be unique, replacing a range of lines, and the line diff of two texts.
use vstd::prelude::*;

use crate::text::{
    chars_contains, chars_of, contains_seq, decimal, extend_chars, find_chars_from, find_from,
    join_strings, join_with, lemma_find_from, lines, lines_of, push_chars, push_decimal,
    slice_chars, string_from_chars, string_views, trim, trim_chars,
};

verus! {

// ---------------------------------------------------------------------------
// Occurrences and replacement
// ---------------------------------------------------------------------------

/// How many times `pat` occurs in `s` from `i` on, counting left to right
/// without overlap (`str::matches(..).count()`).
pub open spec fn matches_from(s: Seq<char>, pat: Seq<char>, i: nat) -> nat
    decreases s.len() + 1 - i,
{
    if pat.len() == 0 {
        0
    } else {
        match find_from(s, pat, i) {
            None => 0,
            Some(k) => {
                proof {
                    lemma_find_from(s, pat, i);
                }
                1 + matches_from(s, pat, (k + pat.len()) as nat)
            },
        }
    }
}

/// `s` from `i` on with every occurrence of `pat`, left to right without
/// overlap, replaced by `new` (`str::replace`).
pub open spec fn replace_from(s: Seq<char>, pat: Seq<char>, new: Seq<char>, i: nat) -> Seq<char>
    decreases s.len() + 1 - i,
{
    if pat.len() == 0 || i > s.len() {
        s.skip(i as int)
    } else {
        match find_from(s, pat, i) {
            None => s.skip(i as int),
            Some(k) => {
                proof {
                    lemma_find_from(s, pat, i);
                }
                s.subrange(i as int, k) + new + replace_from(s, pat, new, (k + pat.len()) as nat)
            },
        }
    }
}

/// `s` with its first occurrence of `pat` replaced by `new` (`str::replacen(.., 1)`).
pub open spec fn replace_first(s: Seq<char>, pat: Seq<char>, new: Seq<char>) -> Seq<char> {
    match find_from(s, pat, 0) {
        None => s,
        Some(k) => s.take(k) + new + s.skip(k + pat.len()),
    }
}

pub fn count_matches(s: &Vec<char>, pat: &Vec<char>) -> (r: usize)
    requires
        pat@.len() > 0,
    ensures
        r == matches_from(s@, pat@, 0),
{
    let n = s.len();
    let m = pat.len();
    let mut i: usize = 0;
    let mut count: usize = 0;
    loop
        invariant_except_break
            n == s@.len(),
            m == pat@.len(),
            pat@.len() > 0,
            i <= s@.len(),
            count <= i,
            matches_from(s@, pat@, 0) == count + matches_from(s@, pat@, i as nat),
        ensures
            matches_from(s@, pat@, 0) == count,
        decreases s@.len() + 1 - i,
    {
        match find_chars_from(s, pat, i) {
            Some(k) => {
                count = count + 1;
                i = k + m;
            },
            None => {
                break;
            },
        }
    }
    count
}

pub fn replace_all_chars(s: &Vec<char>, pat: &Vec<char>, new: &Vec<char>) -> (r: Vec<char>)
    requires
        pat@.len() > 0,
    ensures
        r@ == replace_from(s@, pat@, new@, 0),
{
    let n = s.len();
    let m = pat.len();
    let mut out: Vec<char> = Vec::new();
    let mut i: usize = 0;
    assert(out@ + replace_from(s@, pat@, new@, 0) =~= replace_from(s@, pat@, new@, 0));
    loop
        invariant_except_break
            n == s@.len(),
            m == pat@.len(),
            pat@.len() > 0,
            i <= s@.len(),
            out@ + replace_from(s@, pat@, new@, i as nat) == replace_from(s@, pat@, new@, 0),
        ensures
            out@ == replace_from(s@, pat@, new@, 0),
        decreases s@.len() + 1 - i,
    {
        match find_chars_from(s, pat, i) {
            Some(k) => {
                let piece = slice_chars(s, i, k);
                extend_chars(&mut out, &piece);
                extend_chars(&mut out, new);
                assert(out@ + replace_from(s@, pat@, new@, (k + pat@.len()) as nat) =~= (out@.take(
                    out@.len() - piece@.len() - new@.len(),
                )) + replace_from(s@, pat@, new@, i as nat));
                i = k + m;
            },
            None => {
                let rest = slice_chars(s, i, n);
                extend_chars(&mut out, &rest);
                assert(rest@ =~= s@.skip(i as int));
                break;
            },
        }
    }
    out
}

pub fn replace_first_chars(s: &Vec<char>, pat: &Vec<char>, new: &Vec<char>) -> (r: Vec<char>)
    ensures
        r@ == replace_first(s@, pat@, new@),
{
    let n = s.len();
    let m = pat.len();
    match find_chars_from(s, pat, 0) {
        Some(k) => {
            let mut out = slice_chars(s, 0, k);
            extend_chars(&mut out, new);
            let rest = slice_chars(s, k + m, n);
            extend_chars(&mut out, &rest);
            assert(out@ =~= s@.take(k as int) + new@ + s@.skip(k + pat@.len()));
            out
        },
        None => slice_chars_all(s),
    }
}

fn slice_chars_all(s: &Vec<char>) -> (r: Vec<char>)
    ensures
        r@ == s@,
{
    let r = slice_chars(s, 0, s.len());
    assert(r@ =~= s@);
    r
}

// ---------------------------------------------------------------------------
// Replacing a snippet
// ---------------------------------------------------------------------------

pub const EMPTY_OLD: &'static str = "old_string must not be empty";

pub const IDENTICAL: &'static str = "old_string and new_string are identical — nothing to change";

/// Why the snippet arguments of an edit are refused, if they are.
pub open spec fn edit_args_error_spec(old: Seq<char>, new: Seq<char>) -> Option<Seq<char>> {
    if old.len() == 0 {
        Some(EMPTY_OLD@)
    } else if old == new {
        Some(IDENTICAL@)
    } else {
        None
    }
}

pub fn edit_args_error(old: &str, new: &str) -> (r: Option<String>)
    ensures
        match edit_args_error_spec(old@, new@) {
            Some(e) => r matches Some(m) && m@ == e,
            None => r is None,
        },
{
    if old.is_empty() {
        Some(EMPTY_OLD.to_owned())
    } else if crate::text::str_eq(old, new) {
        Some(IDENTICAL.to_owned())
    } else {
        None
    }
}

/// A hint: the line number (from 1) and the line.
pub open spec fn hint(n: nat, line: Seq<char>) -> Seq<char> {
    "  line "@ + decimal(n) + ": "@ + line
}

/// Hints for at most `left` of the lines from `k` on that contain `needle`.
pub open spec fn hints_from(ls: Seq<Seq<char>>, needle: Seq<char>, k: nat, left: nat) -> Seq<
    Seq<char>,
>
    decreases ls.len() - k,
{
    if k >= ls.len() || left == 0 {
        Seq::empty()
    } else if contains_seq(ls[k as int], needle) {
        seq![hint(k + 1, ls[k as int])] + hints_from(ls, needle, k + 1, (left - 1) as nat)
    } else {
        hints_from(ls, needle, k + 1, left)
    }
}

/// The first line of the snippet, or the snippet itself when it has no line.
pub open spec fn snippet_first_line(old: Seq<char>) -> Seq<char> {
    if lines(old).len() > 0 {
        lines(old)[0]
    } else {
        old
    }
}

/// At most this many partial matches are shown.
pub const HINT_LIMIT: usize = 3;

pub open spec fn not_found_spec(path: Seq<char>, content: Seq<char>, old: Seq<char>) -> Seq<char> {
    let hs = hints_from(lines(content), trim(snippet_first_line(old)), 0, HINT_LIMIT as nat);
    if hs.len() == 0 {
        "old_string not found in "@ + path + ". Make sure whitespace and indentation match exactly."@
    } else {
        "old_string not found in "@ + path + ". Partial matches on first line:\n"@ + join_with(
            hs,
            "\n"@,
        )
    }
}

/// The outcome of replacing `old` by `new` in the text `content` of the file
/// at `path`: the new text and the report, or why nothing was changed. The
/// snippet must occur exactly once, unless every occurrence is to be replaced.
pub open spec fn edit_spec(
    path: Seq<char>,
    content: Seq<char>,
    old: Seq<char>,
    new: Seq<char>,
    replace_all: bool,
) -> Result<(Seq<char>, Seq<char>), Seq<char>> {
    let n = matches_from(content, old, 0);
    if n == 0 {
        Err(not_found_spec(path, content, old))
    } else if n == 1 {
        Ok(
            (
                replace_first(content, old, new),
                "edited "@ + path + ": replaced "@ + decimal(lines(old).len()) + " line(s) with "@
                    + decimal(lines(new).len()) + " line(s)"@,
            ),
        )
    } else if replace_all {
        Ok(
            (
                replace_from(content, old, new, 0),
                "edited "@ + path + ": replaced "@ + decimal(n) + " occurrence(s)"@,
            ),
        )
    } else {
        Err(
            "old_string matched "@ + decimal(n) + " times in "@ + path
                + " — must be unique. Add more surrounding context to old_string."@,
        )
    }
}

fn hint_lines(content: &Vec<char>, needle: &Vec<char>) -> (r: Vec<String>)
    ensures
        string_views(r@) == hints_from(lines(content@), needle@, 0, HINT_LIMIT as nat),
{
    let ls = lines_of(content);
    let ghost lv = lines(content@);
    let n = ls.len();
    let mut out: Vec<String> = Vec::new();
    let mut left: usize = HINT_LIMIT;
    let mut k: usize = 0;
    assert(string_views(out@) + hints_from(lv, needle@, 0, HINT_LIMIT as nat) =~= hints_from(
        lv,
        needle@,
        0,
        HINT_LIMIT as nat,
    ));
    while k < n && left > 0
        invariant
            n == lv.len(),
            ls@.len() == lv.len(),
            forall|i: int| 0 <= i < lv.len() ==> (#[trigger] ls@[i])@ == lv[i],
            k <= n,
            string_views(out@) + hints_from(lv, needle@, k as nat, left as nat) == hints_from(
                lv,
                needle@,
                0,
                HINT_LIMIT as nat,
            ),
        decreases n - k,
    {
        if chars_contains(&ls[k], needle) {
            let mut h = String::new();
            h.append("  line ");
            push_decimal(&mut h, k + 1);
            h.append(": ");
            push_chars(&mut h, &ls[k]);
            assert(string_views(out@.push(h)) =~= string_views(out@).push(h@));
            out.push(h);
            left = left - 1;
        }
        k = k + 1;
    }
    assert(hints_from(lv, needle@, k as nat, left as nat) =~= Seq::<Seq<char>>::empty());
    out
}

/// Replaces `old` by `new` in `content`; `old` was checked to be non-empty.
pub fn apply_edit(path: &str, content: &str, old: &str, new: &str, replace_all: bool) -> (r: Result<
    (String, String),
    String,
>)
    requires
        old@.len() > 0,
    ensures
        match edit_spec(path@, content@, old@, new@, replace_all) {
            Ok((text, report)) => r matches Ok((t, m)) && t@ == text && m@ == report,
            Err(e) => r matches Err(m) && m@ == e,
        },
{
    let cs = chars_of(content);
    let oc = chars_of(old);
    let nc = chars_of(new);
    let n = count_matches(&cs, &oc);
    if n == 0 {
        let ol = lines_of(&oc);
        let first = if ol.len() > 0 {
            slice_chars_all(&ol[0])
        } else {
            slice_chars_all(&oc)
        };
        let needle = trim_chars(&first);
        let hs = hint_lines(&cs, &needle);
        let mut m = String::new();
        m.append("old_string not found in ");
        m.append(path);
        if hs.len() == 0 {
            m.append(". Make sure whitespace and indentation match exactly.");
        } else {
            m.append(". Partial matches on first line:\n");
            let joined = join_strings(&hs, "\n");
            m.append(joined.as_str());
        }
        Err(m)
    } else if n == 1 {
        let text = replace_first_chars(&cs, &oc, &nc);
        let mut m = String::new();
        m.append("edited ");
        m.append(path);
        m.append(": replaced ");
        let old_lines = lines_of(&oc);
        push_decimal(&mut m, old_lines.len());
        m.append(" line(s) with ");
        let new_lines = lines_of(&nc);
        push_decimal(&mut m, new_lines.len());
        m.append(" line(s)");
        Ok((string_from_chars(&text), m))
    } else if replace_all {
        let text = replace_all_chars(&cs, &oc, &nc);
        let mut m = String::new();
        m.append("edited ");
        m.append(path);
        m.append(": replaced ");
        push_decimal(&mut m, n);
        m.append(" occurrence(s)");
        Ok((string_from_chars(&text), m))
    } else {
        let mut m = String::new();
        m.append("old_string matched ");
        push_decimal(&mut m, n);
        m.append(" times in ");
        m.append(path);
        m.append(" — must be unique. Add more surrounding context to old_string.");
        Err(m)
    }
}

// ---------------------------------------------------------------------------
// Replacing a range of lines
// ---------------------------------------------------------------------------

/// The outcome of replacing lines `start..=end` (counted from 1) of `content`
/// by the lines of `new_content`: the new text, which ends with a newline
/// when the old one did, and the report; or why the range is refused.
pub open spec fn replace_lines_spec(
    path: Seq<char>,
    content: Seq<char>,
    start: nat,
    end: nat,
    new_content: Seq<char>,
) -> Result<(Seq<char>, Seq<char>), Seq<char>> {
    let ls = lines(content);
    let total = ls.len();
    if start < 1 || start > total {
        Err(
            "start_line "@ + decimal(start) + " out of range (file has "@ + decimal(total)
                + " lines)"@,
        )
    } else if end < start || end > total {
        Err(
            "end_line "@ + decimal(end) + " out of range (start="@ + decimal(start) + ", total="@
                + decimal(total) + ")"@,
        )
    } else {
        let nl = lines(new_content);
        let joined = join_with(ls.take(start - 1) + nl + ls.skip(end as int), "\n"@);
        let text = if content.len() > 0 && content.last() == '\n' {
            joined + "\n"@
        } else {
            joined
        };
        Ok(
            (
                text,
                "replaced lines "@ + decimal(start) + "-"@ + decimal(end) + " ("@ + decimal(
                    (end - start + 1) as nat,
                ) + " lines) with "@ + decimal(nl.len()) + " lines in "@ + path,
            ),
        )
    }
}

fn strings_of_lines(ls: &Vec<Vec<char>>, lo: usize, hi: usize, out: &mut Vec<String>)
    requires
        lo <= hi <= ls@.len(),
    ensures
        string_views(final(out)@) == string_views(old(out)@) + crate::text::texts(ls@).subrange(
            lo as int,
            hi as int,
        ),
{
    let mut i = lo;
    while i < hi
        invariant
            lo <= i <= hi <= ls@.len(),
            string_views(out@) == string_views(old(out)@) + crate::text::texts(ls@).subrange(
                lo as int,
                i as int,
            ),
        decreases hi - i,
    {
        let s = string_from_chars(&ls[i]);
        let ghost before = out@;
        out.push(s);
        assert(string_views(out@) =~= string_views(before).push(ls@[i as int]@));
        assert(crate::text::texts(ls@).subrange(lo as int, i + 1) =~= crate::text::texts(
            ls@,
        ).subrange(lo as int, i as int).push(ls@[i as int]@));
        assert(string_views(out@) =~= string_views(old(out)@) + crate::text::texts(ls@).subrange(
            lo as int,
            i + 1,
        ));
        i = i + 1;
    }
}

pub fn replace_lines_in(path: &str, content: &str, start: usize, end: usize, new_content: &str) -> (r:
    Result<(String, String), String>)
    ensures
        match replace_lines_spec(path@, content@, start as nat, end as nat, new_content@) {
            Ok((text, report)) => r matches Ok((t, m)) && t@ == text && m@ == report,
            Err(e) => r matches Err(m) && m@ == e,
        },
{
    let cs = chars_of(content);
    let ls = lines_of(&cs);
    let ghost lv = lines(cs@);
    assert(crate::text::texts(ls@) =~= lv);
    let total = ls.len();
    if start < 1 || start > total {
        let mut m = String::new();
        m.append("start_line ");
        push_decimal(&mut m, start);
        m.append(" out of range (file has ");
        push_decimal(&mut m, total);
        m.append(" lines)");
        return Err(m);
    }
    if end < start || end > total {
        let mut m = String::new();
        m.append("end_line ");
        push_decimal(&mut m, end);
        m.append(" out of range (start=");
        push_decimal(&mut m, start);
        m.append(", total=");
        push_decimal(&mut m, total);
        m.append(")");
        return Err(m);
    }
    let nc = chars_of(new_content);
    let nls = lines_of(&nc);
    assert(crate::text::texts(nls@) =~= lines(nc@));
    let mut parts: Vec<String> = Vec::new();
    strings_of_lines(&ls, 0, start - 1, &mut parts);
    strings_of_lines(&nls, 0, nls.len(), &mut parts);
    strings_of_lines(&ls, end, total, &mut parts);
    assert(string_views(parts@) =~= lv.take(start - 1) + lines(nc@) + lv.skip(end as int));
    let mut text = join_strings(&parts, "\n");
    if cs.len() > 0 && cs[cs.len() - 1] == '\n' {
        text.append("\n");
    }
    let mut m = String::new();
    m.append("replaced lines ");
    push_decimal(&mut m, start);
    m.append("-");
    push_decimal(&mut m, end);
    m.append(" (");
    push_decimal(&mut m, end - start + 1);
    m.append(" lines) with ");
    push_decimal(&mut m, nls.len());
    m.append(" lines in ");
    m.append(path);
    Ok((text, m))
}

// ---------------------------------------------------------------------------
// Line diff
// ---------------------------------------------------------------------------

/// One line of a diff.
pub enum DiffLine {
    Context(String),
    Add(String),
    Remove(String),
}

/// One line of a diff, as text.
pub enum DiffView {
    Context(Seq<char>),
    Add(Seq<char>),
    Remove(Seq<char>),
}

impl View for DiffLine {
    type V = DiffView;

    open spec fn view(&self) -> DiffView {
        match self {
            DiffLine::Context(l) => DiffView::Context(l@),
            DiffLine::Add(l) => DiffView::Add(l@),
            DiffLine::Remove(l) => DiffView::Remove(l@),
        }
    }
}

/// The length of a longest common subsequence of `a[i..]` and `b[j..]`.
pub open spec fn lcs_len(a: Seq<Seq<char>>, b: Seq<Seq<char>>, i: nat, j: nat) -> nat
    decreases (a.len() - i) + (b.len() - j),
{
    if i >= a.len() || j >= b.len() {
        0
    } else if a[i as int] == b[j as int] {
        1 + lcs_len(a, b, i + 1, j + 1)
    } else {
        let x = lcs_len(a, b, i + 1, j);
        let y = lcs_len(a, b, i, j + 1);
        if x >= y {
            x
        } else {
            y
        }
    }
}

/// The diff of `a[i..]` against `b[j..]`: common lines as context; where the
/// lines differ, the line of `b` is added first unless the table says that
/// skipping it loses more common lines than skipping the line of `a`.
pub open spec fn diff_from(a: Seq<Seq<char>>, b: Seq<Seq<char>>, i: nat, j: nat) -> Seq<DiffView>
    decreases (if i < a.len() {
        a.len() - i
    } else {
        0
    }) + (if j < b.len() {
        b.len() - j
    } else {
        0
    }),
{
    if i >= a.len() && j >= b.len() {
        Seq::empty()
    } else if i < a.len() && j < b.len() && a[i as int] == b[j as int] {
        seq![DiffView::Context(a[i as int])] + diff_from(a, b, i + 1, j + 1)
    } else if j < b.len() && (i >= a.len() || lcs_len(a, b, i + 1, j) >= lcs_len(a, b, i, j + 1)) {
        seq![DiffView::Add(b[j as int])] + diff_from(a, b, i, j + 1)
    } else {
        seq![DiffView::Remove(a[i as int])] + diff_from(a, b, i + 1, j)
    }
}

proof fn lemma_lcs_bound(a: Seq<Seq<char>>, b: Seq<Seq<char>>, i: nat, j: nat)
    requires
        i <= a.len(),
        j <= b.len(),
    ensures
        lcs_len(a, b, i, j) <= a.len() - i,
    decreases (a.len() - i) + (b.len() - j),
{
    if i < a.len() && j < b.len() {
        lemma_lcs_bound(a, b, i + 1, j);
        lemma_lcs_bound(a, b, i, j + 1);
        lemma_lcs_bound(a, b, i + 1, j + 1);
    }
}

/// The table of `lcs_len` for all suffixes: `rows[k][j]` is the length for
/// `a[a.len() - k..]` and `b[j..]`.
spec fn table_ok(rows: Seq<Vec<usize>>, a: Seq<Seq<char>>, b: Seq<Seq<char>>) -> bool {
    &&& rows.len() <= a.len() + 1
    &&& forall|k: int|
        0 <= k < rows.len() ==> (#[trigger] rows[k])@.len() == b.len() + 1 && forall|j: int|
            0 <= j <= b.len() ==> rows[k]@[j] == lcs_len(a, b, (a.len() - k) as nat, j as nat)
}

fn zeros(n: usize) -> (r: Vec<usize>)
    ensures
        r@.len() == n,
        forall|j: int| 0 <= j < n ==> r@[j] == 0,
{
    let mut r: Vec<usize> = Vec::new();
    for _i in 0..n
        invariant
            r@.len() == _i,
            forall|j: int| 0 <= j < r@.len() ==> r@[j] == 0,
    {
        r.push(0);
    }
    r
}

fn lcs_table(a: &Vec<Vec<char>>, b: &Vec<Vec<char>>) -> (rows: Vec<Vec<usize>>)
    requires
        a@.len() < usize::MAX,
        b@.len() < usize::MAX,
    ensures
        rows@.len() == a@.len() + 1,
        table_ok(rows@, crate::text::texts(a@), crate::text::texts(b@)),
{
    let ghost av = crate::text::texts(a@);
    let ghost bv = crate::text::texts(b@);
    let m = a.len();
    let n = b.len();
    assert(m < usize::MAX && n < usize::MAX);
    let mut rows: Vec<Vec<usize>> = Vec::new();
    let first = zeros(n + 1);
    rows.push(first);
    let mut k: usize = 1;
    while k <= m
        invariant
            av == crate::text::texts(a@),
            bv == crate::text::texts(b@),
            m == a@.len(),
            n == b@.len(),
            m < usize::MAX,
            n < usize::MAX,
            1 <= k <= m + 1,
            rows@.len() == k,
            table_ok(rows@, av, bv),
        decreases m + 1 - k,
    {
        let i = m - k;
        let mut row = zeros(n + 1);
        let mut j = n;
        assert(lcs_len(av, bv, i as nat, n as nat) == 0);
        while j > 0
            invariant
                av == crate::text::texts(a@),
                bv == crate::text::texts(b@),
                m == a@.len(),
                n == b@.len(),
                m < usize::MAX,
                n < usize::MAX,
                i < m,
                i == m - k,
                rows@.len() == k,
                table_ok(rows@, av, bv),
                j <= n,
                row@.len() == n + 1,
                forall|q: int| j <= q <= n ==> row@[q] == lcs_len(av, bv, i as nat, q as nat),
            decreases j,
        {
            let jj = j - 1;
            let next = &rows[k - 1];
            assert(next@.len() == n + 1);
            proof {
                lemma_lcs_bound(av, bv, (i + 1) as nat, j as nat);
                lemma_lcs_bound(av, bv, i as nat, jj as nat);
            }
            let v = if crate::text::chars_eq(&a[i], &b[jj]) {
                assert(av[i as int] == bv[jj as int]);
                next[j] + 1
            } else {
                assert(av[i as int] != bv[jj as int]);
                let x = next[jj];
                let y = row[j];
                if x >= y {
                    x
                } else {
                    y
                }
            };
            row.set(jj, v);
            j = jj;
        }
        rows.push(row);
        k = k + 1;
    }
    rows
}

proof fn lemma_diff_step(a: Seq<Seq<char>>, b: Seq<Seq<char>>, i: nat, j: nat)
    requires
        i <= a.len(),
        j <= b.len(),
        i < a.len() || j < b.len(),
    ensures
        diff_from(a, b, i, j).len() >= 1,
{
}

/// The diff of two lists of lines.
pub fn lcs_diff(a: &Vec<Vec<char>>, b: &Vec<Vec<char>>) -> (r: Vec<DiffLine>)
    requires
        a@.len() < usize::MAX,
        b@.len() < usize::MAX,
    ensures
        r@.map_values(|d: DiffLine| d@) == diff_from(
            crate::text::texts(a@),
            crate::text::texts(b@),
            0,
            0,
        ),
{
    let ghost av = crate::text::texts(a@);
    let ghost bv = crate::text::texts(b@);
    let rows = lcs_table(a, b);
    let m = a.len();
    let n = b.len();
    let mut out: Vec<DiffLine> = Vec::new();
    let mut i: usize = 0;
    let mut j: usize = 0;
    assert(out@.map_values(|d: DiffLine| d@) + diff_from(av, bv, 0, 0) =~= diff_from(av, bv, 0, 0));
    while i < m || j < n
        invariant
            av == crate::text::texts(a@),
            bv == crate::text::texts(b@),
            m == a@.len(),
            n == b@.len(),
            i <= m,
            j <= n,
            rows@.len() == m + 1,
            table_ok(rows@, av, bv),
            out@.map_values(|d: DiffLine| d@) + diff_from(av, bv, i as nat, j as nat) == diff_from(
                av,
                bv,
                0,
                0,
            ),
        decreases (m - i) + (n - j),
    {
        let ghost before = out@;
        if i < m && j < n && crate::text::chars_eq(&a[i], &b[j]) {
            assert(av[i as int] == bv[j as int]);
            out.push(DiffLine::Context(string_from_chars(&a[i])));
            proof {
                assert(out@.map_values(|d: DiffLine| d@) =~= before.map_values(|d: DiffLine| d@).push(
                    DiffView::Context(av[i as int]),
                ));
                assert(out@.map_values(|d: DiffLine| d@) + diff_from(
                    av,
                    bv,
                    (i + 1) as nat,
                    (j + 1) as nat,
                ) =~= before.map_values(|d: DiffLine| d@) + diff_from(av, bv, i as nat, j as nat));
            }
            i = i + 1;
            j = j + 1;
        } else {
            let take_b = if j < n {
                if i >= m {
                    true
                } else {
                    let below = &rows[m - (i + 1)];
                    let here = &rows[m - i];
                    assert(below@.len() == n + 1 && here@.len() == n + 1);
                    below[j] >= here[j + 1]
                }
            } else {
                false
            };
            if take_b {
                out.push(DiffLine::Add(string_from_chars(&b[j])));
                proof {
                    assert(out@.map_values(|d: DiffLine| d@) =~= before.map_values(|d: DiffLine| d@).push(
                        DiffView::Add(bv[j as int]),
                    ));
                    assert(out@.map_values(|d: DiffLine| d@) + diff_from(
                        av,
                        bv,
                        i as nat,
                        (j + 1) as nat,
                    ) =~= before.map_values(|d: DiffLine| d@) + diff_from(av, bv, i as nat, j as nat));
                }
                j = j + 1;
            } else {
                out.push(DiffLine::Remove(string_from_chars(&a[i])));
                proof {
                    assert(out@.map_values(|d: DiffLine| d@) =~= before.map_values(|d: DiffLine| d@).push(
                        DiffView::Remove(av[i as int]),
                    ));
                    assert(out@.map_values(|d: DiffLine| d@) + diff_from(
                        av,
                        bv,
                        (i + 1) as nat,
                        j as nat,
                    ) =~= before.map_values(|d: DiffLine| d@) + diff_from(av, bv, i as nat, j as nat));
                }
                i = i + 1;
            }
        }
    }
    assert(out@.map_values(|d: DiffLine| d@) + diff_from(av, bv, i as nat, j as nat) =~= out@.map_values(
        |d: DiffLine| d@,
    ));
    out
}

/// The lines of the first text that a diff shows: context and removed lines.
pub open spec fn old_side(d: Seq<DiffView>) -> Seq<Seq<char>>
    decreases d.len(),
{
    if d.len() == 0 {
        Seq::empty()
    } else {
        match d[0] {
            DiffView::Context(l) => seq![l] + old_side(d.skip(1)),
            DiffView::Remove(l) => seq![l] + old_side(d.skip(1)),
            DiffView::Add(_) => old_side(d.skip(1)),
        }
    }
}

/// The lines of the second text that a diff shows: context and added lines.
pub open spec fn new_side(d: Seq<DiffView>) -> Seq<Seq<char>>
    decreases d.len(),
{
    if d.len() == 0 {
        Seq::empty()
    } else {
        match d[0] {
            DiffView::Context(l) => seq![l] + new_side(d.skip(1)),
            DiffView::Add(l) => seq![l] + new_side(d.skip(1)),
            DiffView::Remove(_) => new_side(d.skip(1)),
        }
    }
}

proof fn lemma_diff_sides(a: Seq<Seq<char>>, b: Seq<Seq<char>>, i: nat, j: nat)
    requires
        i <= a.len(),
        j <= b.len(),
    ensures
        old_side(diff_from(a, b, i, j)) == a.skip(i as int),
        new_side(diff_from(a, b, i, j)) == b.skip(j as int),
    decreases (a.len() - i) + (b.len() - j),
{
    let d = diff_from(a, b, i, j);
    if i >= a.len() && j >= b.len() {
        assert(a.skip(i as int) =~= Seq::<Seq<char>>::empty());
        assert(b.skip(j as int) =~= Seq::<Seq<char>>::empty());
    } else if i < a.len() && j < b.len() && a[i as int] == b[j as int] {
        lemma_diff_sides(a, b, i + 1, j + 1);
        assert(d.skip(1) =~= diff_from(a, b, i + 1, j + 1));
        assert(a.skip(i as int) =~= seq![a[i as int]] + a.skip(i + 1int));
        assert(b.skip(j as int) =~= seq![b[j as int]] + b.skip(j + 1int));
    } else if j < b.len() && (i >= a.len() || lcs_len(a, b, i + 1, j) >= lcs_len(a, b, i, j + 1)) {
        lemma_diff_sides(a, b, i, j + 1);
        assert(d.skip(1) =~= diff_from(a, b, i, j + 1));
        assert(b.skip(j as int) =~= seq![b[j as int]] + b.skip(j + 1int));
    } else {
        lemma_diff_sides(a, b, i + 1, j);
        assert(d.skip(1) =~= diff_from(a, b, i + 1, j));
        assert(a.skip(i as int) =~= seq![a[i as int]] + a.skip(i + 1int));
    }
}

/// A diff loses no line: its context and removed lines are the first text,
/// line by line in order, and its context and added lines the second.
pub proof fn law_diff_sides(a: Seq<Seq<char>>, b: Seq<Seq<char>>)
    ensures
        old_side(diff_from(a, b, 0, 0)) == a,
        new_side(diff_from(a, b, 0, 0)) == b,
{
    lemma_diff_sides(a, b, 0, 0);
    assert(a.skip(0) =~= a);
    assert(b.skip(0) =~= b);
}

/// How a diff line is printed.
pub open spec fn diff_line_text(d: DiffView) -> Seq<char> {
    match d {
        DiffView::Context(l) => " "@ + l + "\n"@,
        DiffView::Add(l) => "+"@ + l + "\n"@,
        DiffView::Remove(l) => "-"@ + l + "\n"@,
    }
}

pub open spec fn render_diff(d: Seq<DiffView>) -> Seq<char>
    decreases d.len(),
{
    if d.len() == 0 {
        Seq::empty()
    } else {
        render_diff(d.drop_last()) + diff_line_text(d.last())
    }
}

/// At most this many diff lines are printed.
pub const DIFF_LIMIT: usize = 500;

pub const DIFF_TRUNCATED: &'static str = "[diff truncated at 500 lines]\n";

/// The printed diff of the texts of `path_a` and `path_b`.
pub open spec fn diff_text_spec(path_a: Seq<char>, path_b: Seq<char>, d: Seq<DiffView>) -> Seq<char> {
    "--- "@ + path_a + "\n+++ "@ + path_b + "\n"@ + if d.len() > DIFF_LIMIT {
        render_diff(d.take(DIFF_LIMIT as int)) + DIFF_TRUNCATED@
    } else {
        render_diff(d)
    }
}

proof fn lemma_lines_len(s: Seq<char>)
    ensures
        lines(s).len() <= s.len(),
{
    lemma_lines_acc_len(s);
}

proof fn lemma_lines_acc_len(s: Seq<char>)
    ensures
        crate::text::lines_acc(s).0.len() + (if crate::text::lines_acc(s).1.len() > 0 {
            1int
        } else {
            0int
        }) <= s.len(),
        crate::text::lines_acc(s).1.len() <= s.len(),
    decreases s.len(),
{
    if s.len() > 0 {
        lemma_lines_acc_len(s.drop_last());
    }
}

/// The printed line diff of two texts.
pub fn diff_text(path_a: &str, path_b: &str, text_a: &str, text_b: &str) -> (r: String)
    requires
        text_a@.len() < usize::MAX,
        text_b@.len() < usize::MAX,
    ensures
        r@ == diff_text_spec(path_a@, path_b@, diff_from(lines(text_a@), lines(text_b@), 0, 0)),
{
    let ca = chars_of(text_a);
    let cb = chars_of(text_b);
    let la = lines_of(&ca);
    let lb = lines_of(&cb);
    proof {
        lemma_lines_len(ca@);
        lemma_lines_len(cb@);
    }
    assert(crate::text::texts(la@) =~= lines(text_a@));
    assert(crate::text::texts(lb@) =~= lines(text_b@));
    let d = lcs_diff(&la, &lb);
    let ghost dv = d@.map_values(|x: DiffLine| x@);
    let mut out = String::new();
    out.append("--- ");
    out.append(path_a);
    out.append("\n+++ ");
    out.append(path_b);
    out.append("\n");
    let ghost head = out@;
    let n = d.len();
    let shown = if n > DIFF_LIMIT {
        DIFF_LIMIT
    } else {
        n
    };
    assert(dv.take(0) =~= Seq::<DiffView>::empty());
    for k in 0..shown
        invariant
            n == d@.len(),
            shown <= n,
            dv == d@.map_values(|x: DiffLine| x@),
            out@ == head + render_diff(dv.take(k as int)),
    {
        assert(dv.take(k + 1).drop_last() =~= dv.take(k as int));
        assert(dv.take(k + 1).last() == d@[k as int]@);
        match &d[k] {
            DiffLine::Context(l) => {
                out.append(" ");
                out.append(l.as_str());
            },
            DiffLine::Add(l) => {
                out.append("+");
                out.append(l.as_str());
            },
            DiffLine::Remove(l) => {
                out.append("-");
                out.append(l.as_str());
            },
        }
        out.append("\n");
        assert(out@ =~= head + render_diff(dv.take(k + 1)));
    }
    if n > DIFF_LIMIT {
        out.append(DIFF_TRUNCATED);
    } else {
        assert(dv.take(n as int) =~= dv);
    }
    out
}

} // verus!
