//! Memories kept as small front-matter files under `.agent/memory`: how a
//! name becomes a file name, how a memory is written out and read back, and
//! the text that listing and recall answer with.
use vstd::prelude::*;

use crate::text::{
    chars_contains, contains_seq, sort_strings, chars_of, join_strings, join_with, string_views, find_chars, find_seq, is_alnum, is_alphanumeric, lines, lines_of, lowercase,
    push_chars, push_str_chars, slice_chars, split_on, split_on_exec, string_from_chars,
    strip_prefix, strip_prefix_chars, to_lowercase, trim, trim_chars, trim_either, trim_either_start,
    trim_either_chars,
};

verus! {

/// One stored memory.
pub struct MemoryEntry {
    pub name: String,
    pub description: String,
    pub tags: Vec<String>,
    pub content: String,
}

/// What a memory holds, as text.
pub struct MemoryView {
    pub name: Seq<char>,
    pub description: Seq<char>,
    pub tags: Seq<Seq<char>>,
    pub content: Seq<char>,
}

impl View for MemoryEntry {
    type V = MemoryView;

    open spec fn view(&self) -> MemoryView {
        MemoryView {
            name: self.name@,
            description: self.description@,
            tags: string_views(self.tags@),
            content: self.content@,
        }
    }
}

// ---------------------------------------------------------------------------
// Slugs
// ---------------------------------------------------------------------------

/// Letters and digits stay; everything else becomes a dash.
pub open spec fn slug_char(c: char) -> char {
    if is_alnum(c) {
        c
    } else {
        '-'
    }
}

/// `s` with every run of dashes shortened to one dash.
pub open spec fn dedup_dashes(s: Seq<char>) -> Seq<char>
    decreases s.len(),
{
    if s.len() == 0 {
        Seq::empty()
    } else {
        let p = dedup_dashes(s.drop_last());
        if s.last() == '-' && s.len() >= 2 && s[s.len() - 2] == '-' {
            p
        } else {
            p.push(s.last())
        }
    }
}

/// The file-name stem of a memory called `name`: lowercased, every character
/// that is not a letter or digit turned into a dash, runs of dashes merged,
/// and dashes at either end removed.
pub open spec fn slug(name: Seq<char>) -> Seq<char> {
    trim_either(dedup_dashes(lowercase(name).map_values(|c: char| slug_char(c))), '-', '-')
}

pub fn slugify(name: &str) -> (r: String)
    ensures
        r@ == slug(name@),
{
    let lower = to_lowercase(name);
    let cs = chars_of(lower.as_str());
    let ghost raw = lowercase(name@).map_values(|c: char| slug_char(c));
    let n = cs.len();
    let mut dedup: Vec<char> = Vec::new();
    let mut prev_dash = false;
    assert(raw.take(0) =~= Seq::<char>::empty());
    for i in 0..n
        invariant
            n == cs@.len(),
            cs@ == lowercase(name@),
            raw == lowercase(name@).map_values(|c: char| slug_char(c)),
            dedup@ == dedup_dashes(raw.take(i as int)),
            prev_dash == (i > 0 && raw[i - 1] == '-'),
    {
        let c = cs[i];
        let m = if is_alphanumeric(c) {
            c
        } else {
            '-'
        };
        assert(raw.take(i + 1).drop_last() =~= raw.take(i as int));
        assert(raw[i as int] == m);
        if m == '-' {
            if !prev_dash {
                dedup.push(m);
            }
            prev_dash = true;
        } else {
            dedup.push(m);
            prev_dash = false;
        }
    }
    assert(raw.take(n as int) =~= raw);
    let trimmed = trim_either_chars(&dedup, '-', '-');
    string_from_chars(&trimmed)
}

// ---------------------------------------------------------------------------
// Paths and file text
// ---------------------------------------------------------------------------

/// `base` joined with the relative path `rel`, as `Path::join` does: a slash
/// goes between them unless `base` is empty or already ends with one.
pub open spec fn join_path(base: Seq<char>, rel: Seq<char>) -> Seq<char> {
    if base.len() == 0 || base.last() == '/' {
        base + rel
    } else {
        base + seq!['/'] + rel
    }
}

pub fn join_path_str(base: &str, rel: &str) -> (r: String)
    ensures
        r@ == join_path(base@, rel@),
{
    let b = chars_of(base);
    let mut r = string_from_chars(&b);
    if b.len() > 0 && b[b.len() - 1] != '/' {
        r.append("/");
        proof {
            reveal_strlit("/");
        }
    }
    push_str_chars(&mut r, rel);
    r
}

/// The directory that holds the memories of a project.
pub open spec fn memory_dir_spec(working_dir: Seq<char>) -> Seq<char> {
    join_path(join_path(working_dir, ".agent"@), "memory"@)
}

pub fn memory_dir(working_dir: &str) -> (r: String)
    ensures
        r@ == memory_dir_spec(working_dir@),
{
    let a = join_path_str(working_dir, ".agent");
    join_path_str(a.as_str(), "memory")
}

/// The file name of the memory called `name`.
pub open spec fn memory_file_name_spec(name: Seq<char>) -> Seq<char> {
    slug(name) + ".md"@
}

pub fn memory_file_name(name: &str) -> (r: String)
    ensures
        r@ == memory_file_name_spec(name@),
{
    let mut r = slugify(name);
    r.append(".md");
    r
}

/// Tags written between the brackets of the front matter.
pub open spec fn join_tags(tags: Seq<Seq<char>>) -> Seq<char> {
    join_with(tags, ", "@)
}

pub const FRONT_OPEN: &'static str = "---\n";

pub const NAME_KEY: &'static str = "name:";

pub const DESCRIPTION_KEY: &'static str = "description:";

pub const TAGS_KEY: &'static str = "tags:";

pub const FRONT_CLOSE: &'static str = "\n---\n";

/// The text of the file that stores a memory.
pub open spec fn memory_file(
    name: Seq<char>,
    description: Seq<char>,
    tags: Seq<Seq<char>>,
    content: Seq<char>,
) -> Seq<char> {
    FRONT_OPEN@ + NAME_KEY@ + " "@ + name + "\n"@ + DESCRIPTION_KEY@ + " "@ + description + "\n"@
        + TAGS_KEY@ + " ["@ + join_tags(tags) + "]"@ + FRONT_CLOSE@ + "\n"@ + content
}

pub fn memory_file_text(name: &str, description: &str, tags: &Vec<String>, content: &str) -> (r:
    String)
    ensures
        r@ == memory_file(name@, description@, string_views(tags@), content@),
{
    let mut s = String::new();
    s.append(FRONT_OPEN);
    s.append(NAME_KEY);
    s.append(" ");
    s.append(name);
    s.append("\n");
    s.append(DESCRIPTION_KEY);
    s.append(" ");
    s.append(description);
    s.append("\n");
    s.append(TAGS_KEY);
    s.append(" [");
    let joined = join_strings(tags, ", ");
    s.append(joined.as_str());
    s.append("]");
    s.append(FRONT_CLOSE);
    s.append("\n");
    s.append(content);
    s
}

// ---------------------------------------------------------------------------
// Reading a memory back
// ---------------------------------------------------------------------------

pub const MISSING_OPEN: &'static str = "missing frontmatter opening ---";

pub const MISSING_CLOSE: &'static str = "missing frontmatter closing ---";

/// What follows `key` on the last of `ls` that starts with it.
pub open spec fn field_value(ls: Seq<Seq<char>>, key: Seq<char>) -> Option<Seq<char>>
    decreases ls.len(),
{
    if ls.len() == 0 {
        None
    } else {
        match strip_prefix(ls.last(), key) {
            Some(v) => Some(v),
            None => field_value(ls.drop_last(), key),
        }
    }
}

/// A text field: the trimmed value, or empty when the key is absent.
pub open spec fn text_field(ls: Seq<Seq<char>>, key: Seq<char>) -> Seq<char> {
    match field_value(ls, key) {
        Some(v) => trim(v),
        None => Seq::empty(),
    }
}

/// The trimmed pieces, without the empty ones.
pub open spec fn clean_tags(parts: Seq<Seq<char>>) -> Seq<Seq<char>>
    decreases parts.len(),
{
    if parts.len() == 0 {
        Seq::empty()
    } else {
        let r = clean_tags(parts.drop_last());
        let t = trim(parts.last());
        if t.len() > 0 {
            r.push(t)
        } else {
            r
        }
    }
}

/// The tags of a `tags:` value such as ` [rust, async]`.
pub open spec fn parse_tags(v: Seq<char>) -> Seq<Seq<char>> {
    clean_tags(split_on(trim_either(trim(v), '[', ']'), ','))
}

/// What a memory file holds, or why it cannot be read: it opens with a `---`
/// line; the front matter runs to the first `---` line after it; `name:`,
/// `description:` and `tags:` lines give the fields (the last one of each
/// counts); the body after the closing line, without its leading newlines,
/// is the content.
pub open spec fn parse_memory_spec(raw: Seq<char>) -> Result<MemoryView, Seq<char>> {
    match strip_prefix(raw, FRONT_OPEN@) {
        None => Err(MISSING_OPEN@),
        Some(rest) => match find_seq(rest, FRONT_CLOSE@) {
            None => Err(MISSING_CLOSE@),
            Some(k) => {
                let ls = lines(rest.take(k));
                let body = rest.skip(k + FRONT_CLOSE@.len());
                Ok(
                    MemoryView {
                        name: text_field(ls, NAME_KEY@),
                        description: text_field(ls, DESCRIPTION_KEY@),
                        tags: match field_value(ls, TAGS_KEY@) {
                            Some(v) => parse_tags(v),
                            None => Seq::empty(),
                        },
                        content: trim_either_start(body, '\n', '\n'),
                    },
                )
            },
        },
    }
}

fn field_of_lines(ls: &Vec<Vec<char>>, key: &str, Ghost(lv): Ghost<Seq<Seq<char>>>) -> (r: Option<
    Vec<char>>)
    requires
        ls@.len() == lv.len(),
        forall|i: int| 0 <= i < lv.len() ==> (#[trigger] ls@[i])@ == lv[i],
    ensures
        match field_value(lv, key@) {
            Some(v) => r matches Some(w) && w@ == v,
            None => r is None,
        },
{
    let n = ls.len();
    let mut found: Option<Vec<char>> = None;
    assert(lv.take(0) =~= Seq::<Seq<char>>::empty());
    for i in 0..n
        invariant
            n == lv.len(),
            ls@.len() == lv.len(),
            forall|i: int| 0 <= i < lv.len() ==> (#[trigger] ls@[i])@ == lv[i],
            match field_value(lv.take(i as int), key@) {
                Some(v) => found matches Some(w) && w@ == v,
                None => found is None,
            },
    {
        assert(lv.take(i + 1).drop_last() =~= lv.take(i as int));
        assert(lv.take(i + 1).last() == ls@[i as int]@);
        match strip_prefix_chars(&ls[i], key) {
            Some(v) => {
                found = Some(v);
            },
            None => {},
        }
    }
    assert(lv.take(n as int) =~= lv);
    found
}

fn text_field_of(found: Option<Vec<char>>) -> (r: String)
    ensures
        r@ == match found {
            Some(v) => trim(v@),
            None => Seq::empty(),
        },
{
    match found {
        Some(v) => {
            let t = trim_chars(&v);
            string_from_chars(&t)
        },
        None => String::new(),
    }
}

pub fn parse_tags_chars(v: &Vec<char>) -> (r: Vec<String>)
    ensures
        string_views(r@) == parse_tags(v@),
{
    let t = trim_chars(v);
    let inner = trim_either_chars(&t, '[', ']');
    let parts = split_on_exec(&inner, ',');
    let ghost pv = split_on(inner@, ',');
    let n = parts.len();
    let mut tags: Vec<String> = Vec::new();
    assert(pv.take(0) =~= Seq::<Seq<char>>::empty());
    for i in 0..n
        invariant
            n == pv.len(),
            pv == split_on(inner@, ','),
            parts@.len() == pv.len(),
            forall|j: int| 0 <= j < pv.len() ==> (#[trigger] parts@[j])@ == pv[j],
            string_views(tags@) == clean_tags(pv.take(i as int)),
    {
        assert(pv.take(i + 1).drop_last() =~= pv.take(i as int));
        assert(pv.take(i + 1).last() == parts@[i as int]@);
        let piece = trim_chars(&parts[i]);
        if piece.len() > 0 {
            let s = string_from_chars(&piece);
            tags.push(s);
            assert(string_views(tags@) =~= clean_tags(pv.take(i as int)).push(piece@));
        }
    }
    assert(pv.take(n as int) =~= pv);
    tags
}

/// Reads the text of a memory file.
pub fn parse_memory(raw: &str) -> (r: Result<MemoryEntry, String>)
    ensures
        match parse_memory_spec(raw@) {
            Ok(m) => r matches Ok(e) && e@ == m,
            Err(msg) => r matches Err(e) && e@ == msg,
        },
{
    let cs = chars_of(raw);
    let rest = match strip_prefix_chars(&cs, FRONT_OPEN) {
        Some(rest) => rest,
        None => {
            return Err(MISSING_OPEN.to_owned());
        },
    };
    let close = chars_of(FRONT_CLOSE);
    let rest_len = rest.len();
    let found = find_chars(&rest, &close);
    let (k, end) = match found {
        Some(k) => (k, k + close.len()),
        None => {
            return Err(MISSING_CLOSE.to_owned());
        },
    };
    let front = slice_chars(&rest, 0, k);
    let body = slice_chars(&rest, end, rest_len);
    assert(front@ =~= rest@.take(k as int));
    assert(body@ =~= rest@.skip(k + FRONT_CLOSE@.len()));
    let ls = lines_of(&front);
    let ghost lv = lines(front@);
    let name = text_field_of(field_of_lines(&ls, NAME_KEY, Ghost(lv)));
    let description = text_field_of(field_of_lines(&ls, DESCRIPTION_KEY, Ghost(lv)));
    let tags = match field_of_lines(&ls, TAGS_KEY, Ghost(lv)) {
        Some(v) => parse_tags_chars(&v),
        None => Vec::new(),
    };
    let content_chars = crate::text::trim_either_start_chars(&body, '\n', '\n');
    let content = string_from_chars(&content_chars);
    let e = MemoryEntry { name, description, tags, content };
    assert(e@.tags =~= (match field_value(lv, TAGS_KEY@) {
        Some(v) => parse_tags(v),
        None => Seq::<Seq<char>>::empty(),
    }));
    Ok(e)
}

// ---------------------------------------------------------------------------
// Writing then reading gives the memory back
// ---------------------------------------------------------------------------

/// `c` does not occur in `s`.
pub open spec fn lacks(s: Seq<char>, c: char) -> bool {
    forall|i: int| 0 <= i < s.len() ==> s[i] != c
}

/// `s` neither starts nor ends with whitespace.
pub open spec fn is_trimmed(s: Seq<char>) -> bool {
    s.len() == 0 || (!crate::text::is_ws(s[0]) && !crate::text::is_ws(s.last()))
}

/// A value that `memory_file` writes and `parse_memory_spec` reads back unchanged.
pub open spec fn storable_field(s: Seq<char>) -> bool {
    lacks(s, '\n') && is_trimmed(s)
}

/// Tags that survive the bracketed, comma-separated list.
pub open spec fn storable_tags(tags: Seq<Seq<char>>) -> bool {
    &&& forall|i: int|
        0 <= i < tags.len() ==> storable_field(#[trigger] tags[i]) && lacks(tags[i], ',')
            && tags[i].len() > 0
    &&& tags.len() > 0 ==> tags[0][0] != '[' && tags[0][0] != ']'
    &&& tags.len() > 0 ==> tags.last().last() != '[' && tags.last().last() != ']'
}

proof fn lemma_trim_trimmed(t: Seq<char>)
    requires
        is_trimmed(t),
    ensures
        trim(t) == t,
        trim(" "@ + t) == t,
{
    reveal_strlit(" ");
    assert(crate::text::trim_start(t) == t);
    assert(crate::text::trim_end(t) == t);
    assert((" "@ + t).skip(1) =~= t);
    assert(crate::text::trim_start(" "@ + t) == crate::text::trim_start(t));
}

proof fn lemma_lines_acc_plain(p: Seq<char>, b: Seq<char>)
    requires
        lacks(b, '\n'),
    ensures
        lines_acc_of(p + b) == (lines_acc_of(p).0, lines_acc_of(p).1 + b),
    decreases b.len(),
{
    if b.len() == 0 {
        assert(p + b =~= p);
        assert(lines_acc_of(p).1 + b =~= lines_acc_of(p).1);
    } else {
        lemma_lines_acc_plain(p, b.drop_last());
        assert((p + b).drop_last() =~= p + b.drop_last());
        assert((lines_acc_of(p).1 + b.drop_last()).push(b.last()) =~= lines_acc_of(p).1 + b);
    }
}

/// Lines finished so far and the line being read.
pub open spec fn lines_acc_of(s: Seq<char>) -> (Seq<Seq<char>>, Seq<char>) {
    crate::text::lines_acc(s)
}

proof fn lemma_lines_acc_newline(p: Seq<char>)
    ensures
        lines_acc_of(p + "\n"@) == (
            lines_acc_of(p).0.push(crate::text::strip_cr(lines_acc_of(p).1)),
            Seq::<char>::empty(),
        ),
{
    reveal_strlit("\n");
    assert((p + "\n"@).drop_last() =~= p);
}

/// The three lines of the front matter.
proof fn lemma_front_lines(l1: Seq<char>, l2: Seq<char>, l3: Seq<char>)
    requires
        lacks(l1, '\n'),
        lacks(l2, '\n'),
        lacks(l3, '\n'),
        l1.len() > 0 && l1.last() != '\r',
        l2.len() > 0 && l2.last() != '\r',
        l3.len() > 0,
    ensures
        lines(l1 + "\n"@ + l2 + "\n"@ + l3) == seq![l1, l2, l3],
{
    let e = Seq::<char>::empty();
    assert(lines_acc_of(e) == (Seq::<Seq<char>>::empty(), e));
    lemma_lines_acc_plain(e, l1);
    assert(e + l1 =~= l1);
    assert(e + l1 =~= l1);
    lemma_lines_acc_newline(l1);
    lemma_lines_acc_plain(l1 + "\n"@, l2);
    assert(e + l2 =~= l2);
    lemma_lines_acc_newline(l1 + "\n"@ + l2);
    lemma_lines_acc_plain(l1 + "\n"@ + l2 + "\n"@, l3);
    assert(e + l3 =~= l3);
    assert(lines(l1 + "\n"@ + l2 + "\n"@ + l3) =~= seq![l1, l2, l3]);
}

proof fn lemma_split_plain(p: Seq<char>, b: Seq<char>, sep: char)
    requires
        lacks(b, sep),
    ensures
        split_on(p + b, sep) == split_on(p, sep).update(
            split_on(p, sep).len() - 1,
            split_on(p, sep).last() + b,
        ),
    decreases b.len(),
{
    crate::text::lemma_split_on_nonempty(p, sep);
    if b.len() == 0 {
        assert(p + b =~= p);
        assert(split_on(p, sep).update(split_on(p, sep).len() - 1, split_on(p, sep).last() + b)
            =~= split_on(p, sep));
    } else {
        lemma_split_plain(p, b.drop_last(), sep);
        assert((p + b).drop_last() =~= p + b.drop_last());
        assert((split_on(p, sep).last() + b.drop_last()).push(b.last()) =~= split_on(p, sep).last()
            + b);
        assert(split_on(p + b, sep) =~= split_on(p, sep).update(
            split_on(p, sep).len() - 1,
            split_on(p, sep).last() + b,
        ));
    }
}

/// The pieces of the joined tags: the first as it is, the others after a space.
pub open spec fn spaced(tags: Seq<Seq<char>>) -> Seq<Seq<char>> {
    Seq::new(tags.len(), |i: int| if i == 0 { tags[0] } else { " "@ + tags[i] })
}

proof fn lemma_split_joined(tags: Seq<Seq<char>>)
    requires
        tags.len() > 0,
        forall|i: int| 0 <= i < tags.len() ==> lacks(#[trigger] tags[i], ','),
    ensures
        split_on(join_tags(tags), ',') == spaced(tags),
    decreases tags.len(),
{
    reveal_strlit(", ");
    reveal_strlit(" ");
    let e = Seq::<char>::empty();
    if tags.len() == 1 {
        lemma_split_plain(e, tags[0], ',');
        assert(e + tags[0] =~= tags[0]);
        assert(split_on(e, ',') =~= seq![e]);
        assert(e + tags[0] =~= tags[0]);
        assert(split_on(join_tags(tags), ',') =~= spaced(tags));
    } else {
        let dl = tags.drop_last();
        assert forall|i: int| 0 <= i < dl.len() implies lacks(#[trigger] dl[i], ',') by {
            assert(dl[i] == tags[i]);
        }
        lemma_split_joined(dl);
        let j = join_tags(dl);
        let t = tags.last();
        assert(lacks(t, ',')) by {
            assert(t == tags[tags.len() - 1]);
        }
        assert(join_tags(tags) =~= (j + seq![',']) + (" "@ + t));
        assert((j + seq![',']).drop_last() =~= j);
        crate::text::lemma_split_on_nonempty(j, ',');
        assert(split_on(j + seq![','], ',') == split_on(j, ',').push(e));
        lemma_split_plain(j + seq![','], " "@ + t, ',');
        assert(e + (" "@ + t) =~= " "@ + t);
        assert(split_on(join_tags(tags), ',') =~= spaced(tags));
    }
}

proof fn lemma_clean_spaced(tags: Seq<Seq<char>>)
    requires
        forall|i: int| 0 <= i < tags.len() ==> is_trimmed(#[trigger] tags[i]) && tags[i].len() > 0,
    ensures
        clean_tags(spaced(tags)) == tags,
    decreases tags.len(),
{
    if tags.len() > 0 {
        let dl = tags.drop_last();
        assert forall|i: int| 0 <= i < dl.len() implies is_trimmed(#[trigger] dl[i]) && dl[i].len()
            > 0 by {
            assert(dl[i] == tags[i]);
        }
        lemma_clean_spaced(dl);
        assert(spaced(tags).drop_last() =~= spaced(dl));
        let t = tags[tags.len() - 1];
        lemma_trim_trimmed(t);
        assert(clean_tags(spaced(tags)) =~= tags);
    }
}

proof fn lemma_join_lacks(tags: Seq<Seq<char>>, c: char)
    requires
        forall|i: int| 0 <= i < tags.len() ==> lacks(#[trigger] tags[i], c),
        c != ',' && c != ' ',
    ensures
        lacks(join_tags(tags), c),
    decreases tags.len(),
{
    reveal_strlit(", ");
    if tags.len() > 1 {
        let dl = tags.drop_last();
        assert forall|i: int| 0 <= i < dl.len() implies lacks(#[trigger] dl[i], c) by {
            assert(dl[i] == tags[i]);
        }
        lemma_join_lacks(dl, c);
        assert(lacks(tags[tags.len() - 1], c));
    } else if tags.len() == 1 {
        assert(lacks(tags[0], c));
    }
}

proof fn lemma_join_ends(tags: Seq<Seq<char>>)
    requires
        tags.len() > 0,
        forall|i: int| 0 <= i < tags.len() ==> (#[trigger] tags[i]).len() > 0,
    ensures
        join_tags(tags).len() > 0,
        join_tags(tags)[0] == tags[0][0],
        join_tags(tags).last() == tags.last().last(),
    decreases tags.len(),
{
    if tags.len() > 1 {
        let dl = tags.drop_last();
        assert forall|i: int| 0 <= i < dl.len() implies (#[trigger] dl[i]).len() > 0 by {
            assert(dl[i] == tags[i]);
        }
        lemma_join_ends(dl);
        assert(tags[tags.len() - 1].len() > 0);
    }
}

/// `find_from` meets the first position where the pattern occurs.
proof fn lemma_find_first(s: Seq<char>, pat: Seq<char>, i: nat, k: nat)
    requires
        i <= k,
        occurs_at_pos(s, pat, k as int),
        forall|q: int| i <= q < k ==> !occurs_at_pos(s, pat, q),
    ensures
        crate::text::find_from(s, pat, i) == Some(k as int),
    decreases k - i,
{
    if i < k {
        assert(!occurs_at_pos(s, pat, i as int));
        lemma_find_first(s, pat, i + 1, k);
    }
}

/// `pat` occurs in `s` at position `i`.
pub open spec fn occurs_at_pos(s: Seq<char>, pat: Seq<char>, i: int) -> bool {
    crate::text::occurs_at(s, pat, i)
}

/// The `tags:` value that `memory_file` writes parses back to the tags.
proof fn lemma_parse_written_tags(tags: Seq<Seq<char>>)
    requires
        storable_tags(tags),
    ensures
        parse_tags(" ["@ + join_tags(tags) + "]"@) == tags,
{
    reveal_strlit(" ");
    reveal_strlit(" [");
    reveal_strlit("]");
    reveal_strlit("[");
    let j = join_tags(tags);
    let v = " ["@ + j + "]"@;
    let bracketed = "["@ + j + "]"@;
    assert(v.skip(1) =~= bracketed);
    assert(crate::text::trim_start(bracketed) == bracketed);
    assert(crate::text::trim_end(bracketed) == bracketed);
    assert(crate::text::trim_start(v) == crate::text::trim_start(bracketed));
    assert(trim(v) == bracketed);
    assert(bracketed.skip(1) =~= j + "]"@);
    if tags.len() == 0 {
        assert(j =~= Seq::<char>::empty());
        assert((j + "]"@).skip(1) =~= Seq::<char>::empty());
        assert(crate::text::trim_either_start(Seq::<char>::empty(), '[', ']') == Seq::<char>::empty());
        assert(crate::text::trim_either_start(j + "]"@, '[', ']') == Seq::<char>::empty());
        assert(trim_either(bracketed, '[', ']') =~= j);
        assert(split_on(j, ',') =~= seq![Seq::<char>::empty()]);
        assert(seq![Seq::<char>::empty()].drop_last() =~= Seq::<Seq<char>>::empty());
        assert(crate::text::trim_start(Seq::<char>::empty()) =~= Seq::<char>::empty());
        assert(crate::text::trim_end(Seq::<char>::empty()) =~= Seq::<char>::empty());
        assert(trim(Seq::<char>::empty()) =~= Seq::<char>::empty());
        assert(clean_tags(Seq::<Seq<char>>::empty()) =~= Seq::<Seq<char>>::empty());
        assert(seq![Seq::<char>::empty()].last() == Seq::<char>::empty());
        assert(clean_tags(seq![Seq::<char>::empty()]) =~= Seq::<Seq<char>>::empty());
        assert(parse_tags(v) =~= tags);
    } else {
        assert forall|i: int| 0 <= i < tags.len() implies (#[trigger] tags[i]).len() > 0 by {
            assert(storable_field(tags[i]));
        }
        lemma_join_ends(tags);
        assert(crate::text::trim_either_start(j + "]"@, '[', ']') == j + "]"@);
        assert((j + "]"@).drop_last() =~= j);
        assert(crate::text::trim_either_end(j, '[', ']') == j);
        assert(trim_either(bracketed, '[', ']') == j);
        assert forall|i: int| 0 <= i < tags.len() implies lacks(#[trigger] tags[i], ',') by {
            assert(storable_field(tags[i]));
        }
        lemma_split_joined(tags);
        assert forall|i: int| 0 <= i < tags.len() implies is_trimmed(#[trigger] tags[i])
            && tags[i].len() > 0 by {
            assert(storable_field(tags[i]));
        }
        lemma_clean_spaced(tags);
        assert(parse_tags(v) == tags);
    }

}

/// What `memory_file` writes, `parse_memory_spec` reads back: the name,
/// description, tags and content of a memory come back unchanged when the
/// name and description are single trimmed lines, each tag is a non-empty
/// trimmed line without commas (and the list does not begin or end with a
/// bracket), and the content does not begin with a newline.
#[verifier::rlimit(40)]
pub proof fn law_memory_roundtrip(
    name: Seq<char>,
    description: Seq<char>,
    tags: Seq<Seq<char>>,
    content: Seq<char>,
)
    requires
        storable_field(name),
        storable_field(description),
        storable_tags(tags),
        content.len() == 0 || content[0] != '\n',
    ensures
        parse_memory_spec(memory_file(name, description, tags, content)) == Ok::<MemoryView, Seq<char>>(
            MemoryView { name, description, tags, content },
        ),
{
    reveal_strlit("---\n");
    reveal_strlit("name:");
    reveal_strlit("description:");
    reveal_strlit("tags:");
    reveal_strlit("\n---\n");
    reveal_strlit(" ");
    reveal_strlit(" [");
    reveal_strlit("]");
    reveal_strlit("[");
    reveal_strlit("\n");
    let j = join_tags(tags);
    let l1 = NAME_KEY@ + " "@ + name;
    let l2 = DESCRIPTION_KEY@ + " "@ + description;
    let l3 = TAGS_KEY@ + " ["@ + j + "]"@;
    let front = l1 + "\n"@ + l2 + "\n"@ + l3;
    let rest = front + FRONT_CLOSE@ + ("\n"@ + content);
    let raw = memory_file(name, description, tags, content);
    assert(raw =~= FRONT_OPEN@ + rest);
    assert(raw.take(4) =~= FRONT_OPEN@);
    assert(raw.skip(4) =~= rest);
    assert(strip_prefix(raw, FRONT_OPEN@) == Some(rest));

    // The tags line holds no newline.
    assert forall|i: int| 0 <= i < tags.len() implies lacks(#[trigger] tags[i], '\n') by {
        assert(storable_field(tags[i]));
    }
    lemma_join_lacks(tags, '\n');
    assert(lacks(l1, '\n'));
    assert(lacks(l2, '\n'));
    assert(lacks(l3, '\n'));

    // The front matter ends at the first closing line.
    let k = front.len();
    assert(rest.subrange(k as int, k + 5int) =~= FRONT_CLOSE@);
    assert forall|q: int| 0 <= q < k implies !occurs_at_pos(rest, FRONT_CLOSE@, q) by {
        if occurs_at_pos(rest, FRONT_CLOSE@, q) {
            assert(rest.subrange(q, q + 5)[0] == rest[q]);
            assert(rest.subrange(q, q + 5)[1] == rest[q + 1]);
            assert(rest[q] == '\n');
            assert(rest[q + 1] == '-');
            if q < l1.len() {
                assert(rest[q] == l1[q]);
            } else if q == l1.len() {
                assert(rest[q + 1] == l2[0]);
            } else if q < l1.len() + 1 + l2.len() {
                assert(rest[q] == l2[q - l1.len() - 1]);
            } else if q == l1.len() + 1 + l2.len() {
                assert(rest[q + 1] == l3[0]);
            } else {
                assert(rest[q] == l3[q - l1.len() - 2 - l2.len()]);
            }
        }
    }
    lemma_find_first(rest, FRONT_CLOSE@, 0, k);
    assert(crate::text::find_seq(rest, FRONT_CLOSE@) == Some(k as int));
    assert(rest.take(k as int) =~= front);
    assert(rest.skip((k + FRONT_CLOSE@.len()) as int) =~= "\n"@ + content);

    // The three lines and their fields.
    lemma_front_lines(l1, l2, l3);
    let ls = seq![l1, l2, l3];
    assert(strip_prefix(l3, NAME_KEY@) is None) by {
        if l3.take(5) == NAME_KEY@ {
            assert(l3.take(5)[0] == l3[0]);
        }
    }
    assert(strip_prefix(l2, NAME_KEY@) is None) by {
        if l2.take(5) == NAME_KEY@ {
            assert(l2.take(5)[0] == l2[0]);
        }
    }
    assert(l1.take(5) =~= NAME_KEY@);
    assert(l1.skip(5) =~= " "@ + name);
    assert(ls.drop_last() =~= seq![l1, l2]);
    assert(seq![l1, l2].drop_last() =~= seq![l1]);
    assert(strip_prefix(l1, NAME_KEY@) == Some(" "@ + name));
    assert(seq![l1].drop_last() =~= Seq::<Seq<char>>::empty());
    assert(field_value(seq![l1], NAME_KEY@) == Some(" "@ + name));
    assert(field_value(seq![l1, l2], NAME_KEY@) == Some(" "@ + name));
    assert(field_value(ls, NAME_KEY@) == Some(" "@ + name));
    assert(strip_prefix(l3, DESCRIPTION_KEY@) is None) by {
        if l3.len() >= 12 && l3.take(12) == DESCRIPTION_KEY@ {
            assert(l3.take(12)[0] == l3[0]);
        }
    }
    assert(l2.take(12) =~= DESCRIPTION_KEY@);
    assert(l2.skip(12) =~= " "@ + description);
    assert(strip_prefix(l2, DESCRIPTION_KEY@) == Some(" "@ + description));
    assert(field_value(seq![l1, l2], DESCRIPTION_KEY@) == Some(" "@ + description));
    assert(field_value(ls, DESCRIPTION_KEY@) == Some(" "@ + description));
    assert(l3.take(5) =~= TAGS_KEY@);
    assert(l3.skip(5) =~= " ["@ + j + "]"@);
    assert(field_value(ls, TAGS_KEY@) == Some(" ["@ + j + "]"@));
    lemma_trim_trimmed(name);
    lemma_trim_trimmed(description);

    // The tag list.
    lemma_parse_written_tags(tags);
    // The body.
    let body = "\n"@ + content;
    assert(body.skip(1) =~= content);
    assert(crate::text::trim_either_start(content, '\n', '\n') == content);
    assert(crate::text::trim_either_start(body, '\n', '\n') == content);
}

// ---------------------------------------------------------------------------
// Answers about stored memories
// ---------------------------------------------------------------------------

/// At most this many memory files go into the index of the system prompt.
pub const MEMORY_INDEX_LIMIT: usize = 50;

pub const NO_MEMORIES: &'static str = "No memories stored yet.";

/// A memory in a list: `- **name**: description`.
pub open spec fn memory_line_spec(name: Seq<char>, description: Seq<char>) -> Seq<char> {
    "- **"@ + name + "**: "@ + description
}

pub fn memory_line(entry: &MemoryEntry) -> (r: String)
    ensures
        r@ == memory_line_spec(entry.name@, entry.description@),
{
    let mut r = String::new();
    r.append("- **");
    r.append(entry.name.as_str());
    r.append("**: ");
    r.append(entry.description.as_str());
    r
}

/// The lines in character order, one per line.
pub open spec fn sorted_join(lines: Seq<Seq<char>>, r: Seq<char>) -> bool {
    exists|s: Seq<Seq<char>>|
        s.to_multiset() == lines.to_multiset() && crate::text::sorted_texts(s) && r == join_with(
            s,
            "\n"@,
        )
}

/// The memory index of the system prompt: the memory lines in order.
pub fn memory_index(lines: &Vec<String>) -> (r: String)
    ensures
        sorted_join(string_views(lines@), r@),
{
    let sorted = sort_strings(lines);
    join_strings(&sorted, "\n")
}

/// The answer to a request for the list of memories.
pub fn list_answer(lines: &Vec<String>) -> (r: String)
    ensures
        lines@.len() == 0 ==> r@ == NO_MEMORIES@,
        lines@.len() > 0 ==> sorted_join(string_views(lines@), r@),
{
    if lines.len() == 0 {
        NO_MEMORIES.to_owned()
    } else {
        memory_index(lines)
    }
}

/// Whether a memory file mentions the keyword, ignoring case.
pub fn memory_matches(raw: &str, keyword: &str) -> (r: bool)
    ensures
        r == contains_seq(lowercase(raw@), lowercase(keyword@)),
{
    let a = to_lowercase(raw);
    let b = to_lowercase(keyword);
    let ac = chars_of(a.as_str());
    let bc = chars_of(b.as_str());
    chars_contains(&ac, &bc)
}

/// A recalled memory: its name in bold, its description, and its content.
pub open spec fn recall_entry_spec(m: MemoryView) -> Seq<char> {
    "**"@ + m.name + "**\n"@ + m.description + "\n\n"@ + m.content
}

pub fn recall_entry(entry: &MemoryEntry) -> (r: String)
    ensures
        r@ == recall_entry_spec(entry@),
{
    let mut r = String::new();
    r.append("**");
    r.append(entry.name.as_str());
    r.append("**\n");
    r.append(entry.description.as_str());
    r.append("\n\n");
    r.append(entry.content.as_str());
    r
}

/// The answer when no memory matches.
pub open spec fn no_match_spec(keyword: Seq<char>) -> Seq<char> {
    "No memories found matching '"@ + keyword + "'."@
}

pub const RECALL_SEPARATOR: &'static str = "\n\n---\n\n";

/// The answer to a recall: the matches separated by rules, or a note that
/// nothing matched.
pub open spec fn recall_answer_spec(keyword: Seq<char>, results: Seq<Seq<char>>) -> Seq<char> {
    if results.len() == 0 {
        no_match_spec(keyword)
    } else {
        join_with(results, RECALL_SEPARATOR@)
    }
}

pub fn recall_answer(keyword: &str, results: &Vec<String>) -> (r: String)
    ensures
        r@ == recall_answer_spec(keyword@, string_views(results@)),
{
    if results.len() == 0 {
        let mut r = String::new();
        r.append("No memories found matching '");
        r.append(keyword);
        r.append("'.");
        r
    } else {
        join_strings(results, RECALL_SEPARATOR)
    }
}

/// The entries a recall finds among the texts of the memory files, in file
/// order: those that mention the keyword in any case and parse.
pub open spec fn recalled(raws: Seq<Seq<char>>, keyword: Seq<char>) -> Seq<Seq<char>>
    decreases raws.len(),
{
    if raws.len() == 0 {
        Seq::empty()
    } else {
        let rest = recalled(raws.drop_last(), keyword);
        let raw = raws.last();
        match parse_memory_spec(raw) {
            Ok(m) => if contains_seq(lowercase(raw), lowercase(keyword)) {
                rest.push(recall_entry_spec(m))
            } else {
                rest
            },
            Err(_) => rest,
        }
    }
}

/// A recall searches the whole text of a memory file, not only its body: a
/// file that parses is recalled exactly when its text, lowercased, holds the
/// lowercased keyword at some offset (so a keyword found only in the name,
/// the description or a tag is enough); a file that does not parse never is.
pub proof fn law_recall_searches_whole_file(raw: Seq<char>, keyword: Seq<char>)
    ensures
        ({
            let lr = lowercase(raw);
            let lk = lowercase(keyword);
            let found = exists|i: int|
                0 <= i && i + lk.len() <= lr.len() && #[trigger] lr.subrange(i, i + lk.len()) == lk;
            recalled(seq![raw], keyword) == match parse_memory_spec(raw) {
                Ok(m) => if found {
                    seq![recall_entry_spec(m)]
                } else {
                    Seq::<Seq<char>>::empty()
                },
                Err(_) => Seq::<Seq<char>>::empty(),
            }
        }),
{
    let lr = lowercase(raw);
    let lk = lowercase(keyword);
    let one = seq![raw];
    assert(one.drop_last() =~= Seq::<Seq<char>>::empty());
    assert(one.last() == raw);
    assert(recalled(Seq::<Seq<char>>::empty(), keyword) == Seq::<Seq<char>>::empty());
    assert(recalled(one, keyword) == match parse_memory_spec(raw) {
        Ok(m) => if contains_seq(lr, lk) {
            Seq::<Seq<char>>::empty().push(recall_entry_spec(m))
        } else {
            Seq::<Seq<char>>::empty()
        },
        Err(_) => Seq::<Seq<char>>::empty(),
    });
    if contains_seq(lr, lk) {
        let i = choose|i: int| crate::text::occurs_at(lr, lk, i);
        assert(lr.subrange(i, i + lk.len()) == lk);
    }
    if exists|i: int| 0 <= i && i + lk.len() <= lr.len() && #[trigger] lr.subrange(i, i + lk.len()) == lk {
        let i = choose|i: int| 0 <= i && i + lk.len() <= lr.len() && #[trigger] lr.subrange(i, i + lk.len()) == lk;
        assert(crate::text::occurs_at(lr, lk, i));
    }
    if let Ok(m) = parse_memory_spec(raw) {
        assert(Seq::<Seq<char>>::empty().push(recall_entry_spec(m)) =~= seq![recall_entry_spec(m)]);
    }
}

/// Recalling over several files gives, in file order, what recalling over
/// each part gives.
pub proof fn law_recall_concat(a: Seq<Seq<char>>, b: Seq<Seq<char>>, keyword: Seq<char>)
    ensures
        recalled(a + b, keyword) == recalled(a, keyword) + recalled(b, keyword),
    decreases b.len(),
{
    if b.len() == 0 {
        assert(a + b =~= a);
        assert(recalled(a, keyword) + Seq::<Seq<char>>::empty() =~= recalled(a, keyword));
    } else {
        law_recall_concat(a, b.drop_last(), keyword);
        assert((a + b).drop_last() =~= a + b.drop_last());
        assert((a + b).last() == b.last());
        let ra = recalled(a, keyword);
        let rb = recalled(b.drop_last(), keyword);
        match parse_memory_spec(b.last()) {
            Ok(m) => if contains_seq(lowercase(b.last()), lowercase(keyword)) {
                assert(ra + rb.push(recall_entry_spec(m)) =~= (ra + rb).push(recall_entry_spec(m)));
            },
            Err(_) => {},
        }
    }
}

/// The answer to a recall, given the texts of the memory files.
pub fn recall_from_texts(keyword: &str, raws: &Vec<String>) -> (r: String)
    ensures
        r@ == recall_answer_spec(keyword@, recalled(string_views(raws@), keyword@)),
{
    let ghost rv = string_views(raws@);
    let mut results: Vec<String> = Vec::new();
    for i in 0..raws.len()
        invariant
            rv == string_views(raws@),
            string_views(results@) == recalled(rv.take(i as int), keyword@),
    {
        assert(rv.take(i + 1).drop_last() =~= rv.take(i as int));
        assert(rv.take(i + 1).last() == raws@[i as int]@);
        let raw = raws[i].as_str();
        if memory_matches(raw, keyword) {
            if let Ok(m) = parse_memory(raw) {
                let ghost before = results@;
                results.push(recall_entry(&m));
                assert(string_views(results@) =~= string_views(before).push(recall_entry_spec(m@)));
            }
        }
    }
    assert(rv.take(raws@.len() as int) =~= rv);
    recall_answer(keyword, &results)
}

/// The list lines of the memory files that parse, in file order.
pub open spec fn listed_memories(raws: Seq<Seq<char>>) -> Seq<Seq<char>>
    decreases raws.len(),
{
    if raws.len() == 0 {
        Seq::empty()
    } else {
        let rest = listed_memories(raws.drop_last());
        match parse_memory_spec(raws.last()) {
            Ok(m) => rest.push(memory_line_spec(m.name, m.description)),
            Err(_) => rest,
        }
    }
}

/// The list lines of the memories, given the texts of their files.
pub fn memory_lines_of(raws: &Vec<String>) -> (r: Vec<String>)
    ensures
        string_views(r@) == listed_memories(string_views(raws@)),
{
    let ghost rv = string_views(raws@);
    let mut lines: Vec<String> = Vec::new();
    for i in 0..raws.len()
        invariant
            rv == string_views(raws@),
            string_views(lines@) == listed_memories(rv.take(i as int)),
    {
        assert(rv.take(i + 1).drop_last() =~= rv.take(i as int));
        assert(rv.take(i + 1).last() == raws@[i as int]@);
        if let Ok(m) = parse_memory(raws[i].as_str()) {
            let ghost before = lines@;
            lines.push(memory_line(&m));
            assert(string_views(lines@) =~= string_views(before).push(
                memory_line_spec(m.name@, m.description@),
            ));
        }
    }
    assert(rv.take(raws@.len() as int) =~= rv);
    lines
}

/// The answer after a memory was written.
pub open spec fn saved_message_spec(name: Seq<char>, path: Seq<char>) -> Seq<char> {
    "Memory '"@ + name + "' saved to "@ + path
}

pub fn saved_message(name: &str, path: &str) -> (r: String)
    ensures
        r@ == saved_message_spec(name@, path@),
{
    let mut r = String::new();
    r.append("Memory '");
    r.append(name);
    r.append("' saved to ");
    r.append(path);
    r
}

/// The answer after a memory was deleted, or when there was none to delete.
pub open spec fn forget_message_spec(name: Seq<char>, found: bool) -> Seq<char> {
    if found {
        "Memory '"@ + name + "' deleted."@
    } else {
        "Memory '"@ + name + "' not found."@
    }
}

pub fn forget_message(name: &str, found: bool) -> (r: String)
    ensures
        r@ == forget_message_spec(name@, found),
{
    let mut r = String::new();
    r.append("Memory '");
    r.append(name);
    if found {
        r.append("' deleted.");
    } else {
        r.append("' not found.");
    }
    r
}

} // verus!
