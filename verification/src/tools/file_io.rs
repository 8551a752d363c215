//! The file tools: their arguments, and the text they answer with.
use vstd::prelude::*;

use crate::json::{
    json_array, json_as_array, json_as_bool, json_as_str, json_as_u64, json_bool, json_get,
    json_member, json_str, json_u64, str_at, str_member,
};
use crate::text::{
    byte_len, char_len, chars_of, decimal, lines, lines_of, push_chars, push_decimal,
    push_str_chars, string_from_chars, string_views,
};
use crate::tools::paths::is_ignore_dir;

verus! {

/// The error for a missing text argument.
pub open spec fn missing_arg(name: Seq<char>) -> Seq<char> {
    "missing '"@ + name + "' argument"@
}

/// The text argument `name` of a call, or the error that it is missing.
pub fn text_arg(args: &serde_json::Value, name: &str) -> (r: Result<String, String>)
    ensures
        match str_at(*args, name@) {
            Some(s) => r matches Ok(t) && t@ == s,
            None => r matches Err(e) && e@ == missing_arg(name@),
        },
{
    match str_member(args, name) {
        Some(s) => Ok(s),
        None => {
            let mut e = String::new();
            push_str_chars(&mut e, "missing '");
            push_str_chars(&mut e, name);
            push_str_chars(&mut e, "' argument");
            proof {
                reveal_strlit("missing '");
                reveal_strlit("' argument");
            }
            Err(e)
        },
    }
}

/// A number argument of a call, if it is a non-negative integer.
pub fn number_arg(args: &serde_json::Value, name: &str) -> (r: Option<u64>)
    ensures
        r == json_u64(json_get(*args, name@)),
{
    json_as_u64(&json_member(args, name))
}

/// A text argument, or `default` when it is missing or not text.
pub fn text_arg_or(args: &serde_json::Value, name: &str, default: &str) -> (r: String)
    ensures
        r@ == match str_at(*args, name@) {
            Some(s) => s,
            None => default@,
        },
{
    match str_member(args, name) {
        Some(s) => s,
        None => default.to_owned(),
    }
}

/// A flag argument: set only when it is the JSON value `true`.
pub fn flag_arg(args: &serde_json::Value, name: &str) -> (r: bool)
    ensures
        r == (json_bool(json_get(*args, name@)) == Some(true)),
{
    match json_as_bool(&json_member(args, name)) {
        Some(b) => b,
        None => false,
    }
}

/// The texts among some JSON values, in order.
pub open spec fn texts_among(items: Seq<serde_json::Value>) -> Seq<Seq<char>>
    decreases items.len(),
{
    if items.len() == 0 {
        Seq::empty()
    } else {
        let rest = texts_among(items.drop_last());
        match json_str(items.last()) {
            Some(t) => rest.push(t),
            None => rest,
        }
    }
}

/// A list argument: the texts in the array `name`, in order; none when the
/// argument is not an array.
pub open spec fn text_list_spec(args: serde_json::Value, name: Seq<char>) -> Seq<Seq<char>> {
    match json_array(json_get(args, name)) {
        Some(items) => texts_among(items),
        None => Seq::empty(),
    }
}

pub fn text_list_arg(args: &serde_json::Value, name: &str) -> (r: Vec<String>)
    ensures
        string_views(r@) == text_list_spec(*args, name@),
{
    let mut out: Vec<String> = Vec::new();
    let items = match json_as_array(&json_member(args, name)) {
        Some(a) => a,
        None => {
            assert(string_views(out@) =~= Seq::<Seq<char>>::empty());
            return out;
        },
    };
    let ghost iv = items@;
    for i in 0..items.len()
        invariant
            iv == items@,
            string_views(out@) == texts_among(iv.take(i as int)),
    {
        assert(iv.take(i + 1).drop_last() =~= iv.take(i as int));
        assert(iv.take(i + 1).last() == iv[i as int]);
        if let Some(t) = json_as_str(&items[i]) {
            let ghost before = out@;
            out.push(t);
            assert(string_views(out@) =~= string_views(before).push(out@.last()@));
        }
    }
    assert(iv.take(items@.len() as int) =~= iv);
    out
}

/// The arguments of `remember`.
pub struct RememberArgs {
    pub name: String,
    pub description: String,
    pub tags: Vec<String>,
    pub content: String,
}

/// Reads the arguments of `remember`: missing texts are empty, and the
/// description is the name when it is not given.
pub fn remember_args(args: &serde_json::Value) -> (r: RememberArgs)
    ensures
        r.name@ == match str_at(*args, "name"@) {
            Some(s) => s,
            None => Seq::empty(),
        },
        r.content@ == match str_at(*args, "content"@) {
            Some(s) => s,
            None => Seq::empty(),
        },
        r.description@ == match str_at(*args, "description"@) {
            Some(s) => s,
            None => r.name@,
        },
        string_views(r.tags@) == text_list_spec(*args, "tags"@),
{
    let name = text_arg_or(args, "name", "");
    let content = text_arg_or(args, "content", "");
    let description = text_arg_or(args, "description", name.as_str());
    let tags = text_list_arg(args, "tags");
    proof {
        reveal_strlit("");
    }
    RememberArgs { name, description, tags, content }
}

/// `n` right-aligned in six columns (`{:>6}`).
pub open spec fn pad6(n: nat) -> Seq<char> {
    let d = decimal(n);
    if d.len() < 6 {
        Seq::new((6 - d.len()) as nat, |i: int| ' ') + d
    } else {
        d
    }
}

/// Lines `start..end` of a file, each after its number and a tab.
pub open spec fn numbered(ls: Seq<Seq<char>>, start: nat, end: nat) -> Seq<char>
    decreases end,
{
    if end <= start {
        Seq::empty()
    } else {
        numbered(ls, start, (end - 1) as nat) + pad6(end) + "\t"@ + ls[end - 1] + "\n"@
    }
}

/// The most that a read shows, in bytes.
pub const MAX_READ_BYTES: usize = 50_000;

/// The character position at which `s` reaches exactly `b` bytes, if a
/// character ends there.
pub open spec fn cut_at(s: Seq<char>, b: nat) -> Option<int> {
    if exists|k: int| 0 <= k <= s.len() && byte_len(s.take(k)) == b {
        Some(choose|k: int| 0 <= k <= s.len() && byte_len(s.take(k)) == b)
    } else {
        None
    }
}

/// The length of the longest prefix of `s` that takes at most `b` bytes:
/// where a cut at `b` bytes lands, moved back to the start of a character
/// it would split.
pub open spec fn prefix_within(s: Seq<char>, b: nat) -> nat
    decreases s.len(),
{
    if byte_len(s) <= b || s.len() == 0 {
        s.len()
    } else {
        prefix_within(s.drop_last(), b)
    }
}

/// The answer when the last line asked for comes before the first.
pub open spec fn range_error(start: nat, end: nat) -> Seq<char> {
    "task join error: slice index starts at "@ + decimal(start) + " but ends at "@ + decimal(end)
}

pub open spec fn first_line_index(start_line: Option<u64>) -> nat {
    match start_line {
        Some(n) => if n as usize > 0 {
            (n as usize - 1) as nat
        } else {
            0
        },
        None => 0,
    }
}

pub open spec fn end_line_index(end_line: Option<u64>, total: nat) -> nat {
    match end_line {
        Some(n) => if (n as usize) < total {
            n as usize as nat
        } else {
            total
        },
        None => total,
    }
}

/// What `read_file` answers for a file's text and the lines asked for
/// (counted from one; the last one included): the lines with their numbers,
/// cut with a note where they pass 50000 bytes (before a character that the
/// cut would split), and a note of the range when it is not
/// the whole file.
pub open spec fn read_spec(content: Seq<char>, start_line: Option<u64>, end_line: Option<u64>) -> Result<
    Seq<char>,
    Seq<char>,
> {
    let ls = lines(content);
    let total = ls.len();
    let start = first_line_index(start_line);
    let end = end_line_index(end_line, total);
    if start >= total {
        Err(
            "start_line "@ + decimal(start + 1) + " exceeds file length ("@ + decimal(total)
                + " lines)"@,
        )
    } else if end < start {
        Err(range_error(start, end))
    } else {
        let out = numbered(ls, start, end);
        let shown = if byte_len(out) > 50000 {
            out.take(prefix_within(out, 50000) as int)
                + "\n[... truncated at 50000 chars, use start_line/end_line to read specific ranges ...]"@
        } else {
            out
        };
        Ok(
            if start > 0 || end < total {
                shown + "\n[showing lines "@ + decimal(start + 1) + "-"@ + decimal(end) + " of "@
                    + decimal(total) + "]"@
            } else {
                shown
            },
        )
    }
}

pub(crate) fn push_pad6(s: &mut String, n: usize)
    ensures
        final(s)@ == old(s)@ + pad6(n as nat),
{
    let mut digits = String::new();
    push_decimal(&mut digits, n);
    let dc = chars_of(digits.as_str());
    let ghost d = decimal(n as nat);
    if dc.len() < 6 {
        let pad = 6 - dc.len();
        let ghost before = s@;
        for i in 0..pad
            invariant
                s@ == before + Seq::new(i as nat, |q: int| ' '),
        {
            crate::text::push_char(s, ' ');
            assert(s@ =~= before + Seq::new((i + 1) as nat, |q: int| ' '));
        }
        push_chars(s, &dc);
        assert(s@ =~= before + (Seq::new((6 - d.len()) as nat, |q: int| ' ') + d));
    } else {
        push_chars(s, &dc);
    }
}

/// When the prefix of `k` characters fits in `b` bytes and one more
/// character would not, it is the longest prefix that fits.
proof fn lemma_prefix_within(s: Seq<char>, b: nat, k: int)
    requires
        0 <= k <= s.len(),
        byte_len(s.take(k)) <= b,
        k == s.len() || byte_len(s.take(k + 1)) > b,
    ensures
        prefix_within(s, b) == k,
    decreases s.len(),
{
    if k == s.len() {
        assert(s.take(k) =~= s);
    } else {
        assert(s.take(s.len() as int) =~= s);
        if k + 1 < s.len() {
            crate::text::lemma_offset_mono(s, k + 1, s.len() as int);
        }
        let t = s.drop_last();
        assert(t.take(k) =~= s.take(k));
        if k + 1 <= t.len() {
            assert(t.take(k + 1) =~= s.take(k + 1));
        }
        lemma_prefix_within(t, b, k);
    }
}

/// The longest prefix of `s` that takes at most `b` bytes, as a number of characters.
fn find_floor_cut(s: &Vec<char>, b: usize) -> (r: usize)
    requires
        b <= 1_000_000,
    ensures
        r == prefix_within(s@, b as nat),
        r <= s@.len(),
{
    let mut off: usize = 0;
    let mut i: usize = 0;
    proof {
        assert(s@.take(0) =~= Seq::<char>::empty());
        crate::text::lemma_byte_len_empty();
    }
    while i < s.len()
        invariant
            i <= s@.len(),
            s@.len() == s.len(),
            off == byte_len(s@.take(i as int)),
            off <= b,
            b <= 1_000_000,
        decreases s@.len() - i,
    {
        proof {
            assert(s@.take(i + 1) =~= s@.take(i as int).push(s@[i as int]));
            crate::text::lemma_byte_len_push(s@.take(i as int), s@[i as int]);
            crate::text::lemma_byte_len_single(s@[i as int]);
        }
        let w = char_len(s[i]);
        if off + w > b {
            proof {
                lemma_prefix_within(s@, b as nat, i as int);
            }
            return i;
        }
        off = off + w;
        i = i + 1;
    }
    proof {
        lemma_prefix_within(s@, b as nat, i as int);
    }
    i
}

/// What `read_file` answers for a file's text and the lines asked for.
pub fn read_window(content: &str, start_line: Option<u64>, end_line: Option<u64>) -> (r: Result<
    String,
    String,
>)
    ensures
        match read_spec(content@, start_line, end_line) {
            Ok(t) => r matches Ok(s) && s@ == t,
            Err(e) => r matches Err(s) && s@ == e,
        },
{
    proof {
        reveal_strlit("start_line ");
        reveal_strlit(" exceeds file length (");
        reveal_strlit(" lines)");
        reveal_strlit("\t");
        reveal_strlit("\n");
        reveal_strlit("\n[... truncated at 50000 chars, use start_line/end_line to read specific ranges ...]");
        reveal_strlit("\n[showing lines ");
        reveal_strlit("-");
        reveal_strlit(" of ");
        reveal_strlit("]");
        reveal_strlit("task join error: slice index starts at ");
        reveal_strlit(" but ends at ");
    }
    let cs = chars_of(content);
    let ls = lines_of(&cs);
    let ghost lv = lines(content@);
    let total = ls.len();
    let start: usize = match start_line {
        Some(n) => if n as usize > 0 {
            n as usize - 1
        } else {
            0
        },
        None => 0,
    };
    let end: usize = match end_line {
        Some(n) => if (n as usize) < total {
            n as usize
        } else {
            total
        },
        None => total,
    };
    assert(start == first_line_index(start_line));
    assert(end == end_line_index(end_line, total as nat));
    if start >= total {
        let mut e = String::new();
        push_str_chars(&mut e, "start_line ");
        push_decimal(&mut e, start + 1);
        push_str_chars(&mut e, " exceeds file length (");
        push_decimal(&mut e, total);
        push_str_chars(&mut e, " lines)");
        return Err(e);
    }
    if end < start {
        let mut e = String::new();
        push_str_chars(&mut e, "task join error: slice index starts at ");
        push_decimal(&mut e, start);
        push_str_chars(&mut e, " but ends at ");
        push_decimal(&mut e, end);
        return Err(e);
    }
    let mut out = String::new();
    let mut i = start;
    while i < end
        invariant
            start <= i <= end <= total,
            total == ls@.len(),
            total == lv.len(),
            forall|q: int| 0 <= q < total ==> (#[trigger] ls@[q])@ == lv[q],
            out@ == numbered(lv, start as nat, i as nat),
        decreases end - i,
    {
        push_pad6(&mut out, i + 1);
        push_str_chars(&mut out, "\t");
        push_chars(&mut out, &ls[i]);
        push_str_chars(&mut out, "\n");
        i = i + 1;
    }
    let oc = chars_of(out.as_str());
    let ob = out.as_str().as_bytes().len();
    assert(ob == byte_len(out@));
    let mut shown = if ob > MAX_READ_BYTES {
        let k = find_floor_cut(&oc, MAX_READ_BYTES);
        let kept = crate::text::slice_chars(&oc, 0, k);
        assert(kept@ =~= oc@.take(k as int));
        let mut t = string_from_chars(&kept);
        push_str_chars(
            &mut t,
            "\n[... truncated at 50000 chars, use start_line/end_line to read specific ranges ...]",
        );
        t
    } else {
        out
    };
    if start > 0 || end < total {
        push_str_chars(&mut shown, "\n[showing lines ");
        push_decimal(&mut shown, start + 1);
        push_str_chars(&mut shown, "-");
        push_decimal(&mut shown, end);
        push_str_chars(&mut shown, " of ");
        push_decimal(&mut shown, total);
        push_str_chars(&mut shown, "]");
    }
    Ok(shown)
}


/// How deep `list_dir` goes: the `depth` argument, at most 10; 0 without one.
pub fn list_depth(args: &serde_json::Value) -> (r: usize)
    ensures
        r == match json_u64(json_get(*args, "depth"@)) {
            Some(d) => if (d as usize) < 10 {
                d as usize
            } else {
                10
            },
            None => 0,
        },
{
    proof {
        reveal_strlit("depth");
    }
    match number_arg(args, "depth") {
        Some(d) => {
            let u = d as usize;
            if u < 10 {
                u
            } else {
                10
            }
        },
        None => 0,
    }
}

/// An entry that listings show: not hidden and not an ignored directory.
pub open spec fn shown_entry(name: Seq<char>) -> bool {
    !(name.len() > 0 && name[0] == '.') && !is_ignore_dir(name)
}

pub open spec fn shown_entries(names: Seq<Seq<char>>) -> Seq<Seq<char>>
    decreases names.len(),
{
    if names.len() == 0 {
        Seq::empty()
    } else if shown_entry(names.last()) {
        shown_entries(names.drop_last()).push(names.last())
    } else {
        shown_entries(names.drop_last())
    }
}

fn shown_entry_exec(name: &String) -> (r: bool)
    ensures
        r == shown_entry(name@),
{
    let cs = chars_of(name.as_str());
    if cs.len() > 0 && cs[0] == '.' {
        return false;
    }
    !crate::tools::paths::is_ignore_dir_exec(&cs)
}

/// The entries of a directory that a listing shows, in character order.
pub fn listed_names(names: &Vec<String>) -> (r: Vec<String>)
    ensures
        crate::text::string_views(r@).to_multiset() == shown_entries(
            crate::text::string_views(names@),
        ).to_multiset(),
        crate::text::sorted_texts(crate::text::string_views(r@)),
{
    let ghost nv = crate::text::string_views(names@);
    let mut kept: Vec<String> = Vec::new();
    let n = names.len();
    assert(nv.take(0) =~= Seq::<Seq<char>>::empty());
    assert(crate::text::string_views(kept@) =~= Seq::<Seq<char>>::empty());
    for i in 0..n
        invariant
            n == names@.len(),
            nv == crate::text::string_views(names@),
            crate::text::string_views(kept@) == shown_entries(nv.take(i as int)),
    {
        assert(nv.take(i + 1).drop_last() =~= nv.take(i as int));
        let ghost before = kept@;
        if shown_entry_exec(&names[i]) {
            kept.push(names[i].clone());
            assert(crate::text::string_views(kept@) =~= crate::text::string_views(before).push(
                names@[i as int]@,
            ));
        }
    }
    assert(nv.take(n as int) =~= nv);
    crate::text::sort_strings(&kept)
}

/// A line of a listing: a directory with a slash after its name, a file
/// with its size and the time it was changed; two spaces per level.
pub open spec fn entry_line(depth: nat, name: Seq<char>, file: Option<(u64, Seq<char>)>) -> Seq<char> {
    let indent = crate::markdown::repeat("  "@, depth);
    match file {
        None => indent + name + "/\n"@,
        Some((size, modified)) => indent + name + " ("@ + decimal(size as nat) + " bytes, "@
            + modified + ")\n"@,
    }
}

/// A line of a listing.
pub fn list_entry_line(depth: usize, name: &str, file: Option<(u64, &str)>) -> (r: String)
    ensures
        r@ == entry_line(
            depth as nat,
            name@,
            match file {
                Some((size, m)) => Some((size, m@)),
                None => None,
            },
        ),
{
    proof {
        reveal_strlit("  ");
        reveal_strlit("/\n");
        reveal_strlit(" (");
        reveal_strlit(" bytes, ");
        reveal_strlit(")\n");
    }
    let mut s = String::new();
    for i in 0..depth
        invariant
            s@ == crate::markdown::repeat("  "@, i as nat),
    {
        push_str_chars(&mut s, "  ");
    }
    push_str_chars(&mut s, name);
    match file {
        None => {
            push_str_chars(&mut s, "/\n");
        },
        Some((size, modified)) => {
            push_str_chars(&mut s, " (");
            crate::text::push_decimal_u64(&mut s, size);
            push_str_chars(&mut s, " bytes, ");
            push_str_chars(&mut s, modified);
            push_str_chars(&mut s, ")\n");
        },
    }
    s
}

/// What `write_file` answers once the file is written.
pub fn wrote_message(content: &str, path: &str) -> (r: String)
    ensures
        r@ == "wrote "@ + decimal(byte_len(content@)) + " bytes to "@ + path@,
{
    proof {
        reveal_strlit("wrote ");
        reveal_strlit(" bytes to ");
    }
    let n = content.as_bytes().len();
    let mut s = String::new();
    push_str_chars(&mut s, "wrote ");
    push_decimal(&mut s, n);
    push_str_chars(&mut s, " bytes to ");
    push_str_chars(&mut s, path);
    s
}

/// What `append_file` answers once the text is appended.
pub fn appended_message(content: &str, path: &str) -> (r: String)
    ensures
        r@ == "appended "@ + decimal(byte_len(content@)) + " bytes to "@ + path@,
{
    proof {
        reveal_strlit("appended ");
        reveal_strlit(" bytes to ");
    }
    let n = content.as_bytes().len();
    let mut s = String::new();
    push_str_chars(&mut s, "appended ");
    push_decimal(&mut s, n);
    push_str_chars(&mut s, " bytes to ");
    push_str_chars(&mut s, path);
    s
}

/// What `delete_path` answers once the path is removed.
pub fn deleted_message(is_dir: bool, path: &str) -> (r: String)
    ensures
        r@ == (if is_dir {
            "deleted directory "@
        } else {
            "deleted file "@
        }) + path@,
{
    proof {
        reveal_strlit("deleted directory ");
        reveal_strlit("deleted file ");
    }
    let mut s = String::new();
    if is_dir {
        push_str_chars(&mut s, "deleted directory ");
    } else {
        push_str_chars(&mut s, "deleted file ");
    }
    push_str_chars(&mut s, path);
    s
}


/// The character position at which `s` reaches exactly `b` bytes, when a
/// character ends there.
pub(crate) fn find_cut_at(s: &Vec<char>, b: usize) -> (r: usize)
    requires
        cut_at(s@, b as nat) is Some,
    ensures
        cut_at(s@, b as nat) == Some(r as int),
{
    let mut off: usize = 0;
    let mut i: usize = 0;
    let ghost k = cut_at(s@, b as nat)->Some_0;
    proof {
        assert(s@.take(0) =~= Seq::<char>::empty());
        crate::text::lemma_byte_len_empty();
        assert(0 <= k <= s@.len() && byte_len(s@.take(k)) == b);
    }
    while off < b
        invariant
            i <= k,
            0 <= k <= s@.len(),
            s@.len() == s.len(),
            byte_len(s@.take(k)) == b,
            off == byte_len(s@.take(i as int)),
        decreases k - i,
    {
        proof {
            if i == k {
                assert(false);
            }
            assert(s@.take(i + 1) =~= s@.take(i as int).push(s@[i as int]));
            crate::text::lemma_byte_len_push(s@.take(i as int), s@[i as int]);
            crate::text::lemma_offset_mono(s@, i + 1, k);
        }
        off = off + char_len(s[i]);
        i = i + 1;
    }
    proof {
        if i < k {
            crate::text::lemma_offsets_increase(s@, i as int, k);
        }
    }
    i
}

} // verus!
