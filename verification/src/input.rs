//! The editable input line: text with a byte cursor, a multi-line paste
//! block, and a history of sent messages.
use vstd::prelude::*;

use crate::text::{
    byte_len, byte_offset, char_len, char_width, chars_of, count_char, count_chars,
    first_index_of, find_char, last_index_of, lemma_byte_len_concat, lemma_byte_len_push,
    lemma_offset_mono, lemma_offsets_increase, push_char, rfind_char, string_from_chars,
};

verus! {

/// `pos` is the byte offset of a character position of `s` (a char boundary).
pub open spec fn is_boundary(s: Seq<char>, pos: int) -> bool {
    exists|k: int| 0 <= k <= s.len() && #[trigger] byte_len(s.take(k)) == pos
}

/// The character position whose byte offset is `pos`.
pub open spec fn char_pos(s: Seq<char>, pos: int) -> int {
    choose|k: int| 0 <= k <= s.len() && #[trigger] byte_len(s.take(k)) == pos
}

/// `s` with `ins` inserted at character position `k`.
pub open spec fn insert_at(s: Seq<char>, k: int, ins: Seq<char>) -> Seq<char> {
    s.take(k) + ins + s.skip(k)
}

/// Character position `k` is the last one whose byte offset lies before `pos`.
pub open spec fn is_prev_pos(s: Seq<char>, pos: int, k: int) -> bool {
    &&& 0 <= k <= s.len()
    &&& byte_len(s.take(k)) < pos
    &&& (k == s.len() || byte_len(s.take(k + 1)) >= pos)
}

/// Character position `k` is the first one whose byte offset lies after `pos`.
pub open spec fn is_next_pos(s: Seq<char>, pos: int, k: int) -> bool {
    &&& 1 <= k <= s.len()
    &&& byte_len(s.take(k)) > pos
    &&& byte_len(s.take(k - 1)) <= pos
}

/// `s` without its trailing spaces.
pub open spec fn trim_end_spaces(s: Seq<char>) -> Seq<char>
    decreases s.len(),
{
    if s.len() > 0 && s.last() == ' ' {
        trim_end_spaces(s.drop_last())
    } else {
        s
    }
}

/// Character position where the word before position `k` of `s` starts.
pub open spec fn word_start(s: Seq<char>, k: int) -> int {
    match last_index_of(trim_end_spaces(s.take(k)), ' ') {
        Some(j) => j + 1,
        None => 0,
    }
}

proof fn lemma_boundary_unique(s: Seq<char>, i: int, j: int)
    requires
        0 <= i <= s.len(),
        0 <= j <= s.len(),
        byte_len(s.take(i)) == byte_len(s.take(j)),
    ensures
        i == j,
{
    if i < j {
        lemma_offsets_increase(s, i, j);
    }
    if j < i {
        lemma_offsets_increase(s, j, i);
    }
}

proof fn lemma_char_pos(s: Seq<char>, pos: int)
    requires
        is_boundary(s, pos),
    ensures
        0 <= char_pos(s, pos) <= s.len(),
        byte_len(s.take(char_pos(s, pos))) == pos,
        forall|k: int|
            0 <= k <= s.len() && byte_len(#[trigger] s.take(k)) == pos ==> k == char_pos(s, pos),
{
    assert forall|k: int| 0 <= k <= s.len() && byte_len(#[trigger] s.take(k)) == pos implies k
        == char_pos(s, pos) by {
        lemma_boundary_unique(s, k, char_pos(s, pos));
    }
}

/// The byte offset of every character position is a boundary.
pub proof fn lemma_boundary_at(s: Seq<char>, k: int)
    requires
        0 <= k <= s.len(),
    ensures
        is_boundary(s, byte_len(s.take(k)) as int),
{
}

proof fn lemma_take_full(s: Seq<char>)
    ensures
        s.take(s.len() as int) == s,
{
    assert(s.take(s.len() as int) =~= s);
}

/// Character position of byte offset `pos`, which must be a boundary.
fn char_index(cs: &Vec<char>, pos: usize) -> (k: usize)
    requires
        is_boundary(cs@, pos as int),
        byte_len(cs@) <= usize::MAX,
    ensures
        k == char_pos(cs@, pos as int),
        k <= cs@.len(),
        byte_len(cs@.take(k as int)) == pos,
{
    proof {
        lemma_char_pos(cs@, pos as int);
    }
    let ghost target = char_pos(cs@, pos as int);
    let n = cs.len();
    let mut k: usize = 0;
    let mut off: usize = 0;
    proof {
        assert(cs@.take(0) =~= Seq::<char>::empty());
        crate::text::lemma_byte_len_empty();
    }
    while off < pos
        invariant
            k <= target <= cs@.len(),
            0 <= target,
            byte_len(cs@.take(target)) == pos,
            off == byte_len(cs@.take(k as int)),
            byte_len(cs@) <= usize::MAX,
            n == cs@.len(),
        decreases target - k,
    {
        proof {
            if k == target {
                assert(false);
            }
            assert(cs@.take(k + 1) =~= cs@.take(k as int).push(cs@[k as int]));
            lemma_byte_len_push(cs@.take(k as int), cs@[k as int]);
            if k + 1 > target {
                assert(false);
            }
            lemma_offset_mono(cs@, k + 1, cs@.len() as int);
            lemma_take_full(cs@);
        }
        off = off + char_len(cs[k]);
        k = k + 1;
    }
    proof {
        if k < target {
            lemma_offsets_increase(cs@, k as int, target);
        }
    }
    k
}

/// Character position before byte offset `pos` (`pos > 0`).
fn prev_index(cs: &Vec<char>, pos: usize) -> (k: usize)
    requires
        pos > 0,
        byte_len(cs@) <= usize::MAX,
    ensures
        is_prev_pos(cs@, pos as int, k as int),
{
    let mut k: usize = 0;
    let mut off: usize = 0;
    proof {
        assert(cs@.take(0) =~= Seq::<char>::empty());
        crate::text::lemma_byte_len_empty();
    }
    while k < cs.len()
        invariant
            k <= cs@.len(),
            off == byte_len(cs@.take(k as int)),
            off < pos,
            byte_len(cs@) <= usize::MAX,
        decreases cs@.len() - k,
    {
        proof {
            assert(cs@.take(k + 1) =~= cs@.take(k as int).push(cs@[k as int]));
            lemma_byte_len_push(cs@.take(k as int), cs@[k as int]);
            lemma_offset_mono(cs@, k + 1, cs@.len() as int);
            lemma_take_full(cs@);
        }
        let next = off + char_len(cs[k]);
        if next >= pos {
            return k;
        }
        off = next;
        k = k + 1;
    }
    k
}

/// First character position after byte offset `pos` (`pos < byte_len`).
fn next_index(cs: &Vec<char>, pos: usize) -> (k: usize)
    requires
        (pos as int) < byte_len(cs@),
        byte_len(cs@) <= usize::MAX,
    ensures
        is_next_pos(cs@, pos as int, k as int),
{
    let n = cs.len();
    let mut k: usize = 0;
    let mut off: usize = 0;
    proof {
        assert(cs@.take(0) =~= Seq::<char>::empty());
        crate::text::lemma_byte_len_empty();
        lemma_take_full(cs@);
    }
    while off <= pos
        invariant
            n == cs@.len(),
            k <= cs@.len(),
            off == byte_len(cs@.take(k as int)),
            byte_len(cs@) <= usize::MAX,
            (pos as int) < byte_len(cs@),
            k > 0 ==> byte_len(cs@.take(k - 1)) <= pos,
        decreases cs@.len() - k,
    {
        proof {
            if k == cs@.len() {
                lemma_take_full(cs@);
                assert(false);
            }
            assert(cs@.take(k + 1) =~= cs@.take(k as int).push(cs@[k as int]));
            lemma_byte_len_push(cs@.take(k as int), cs@[k as int]);
            lemma_offset_mono(cs@, k + 1, cs@.len() as int);
            lemma_take_full(cs@);
        }
        off = off + char_len(cs[k]);
        k = k + 1;
    }
    k
}

/// `cs[..lo] ++ ins ++ cs[hi..]`.
fn splice_chars(cs: &Vec<char>, lo: usize, hi: usize, ins: &Vec<char>) -> (r: Vec<char>)
    requires
        lo <= hi <= cs@.len(),
    ensures
        r@ == cs@.take(lo as int) + ins@ + cs@.skip(hi as int),
{
    let mut r: Vec<char> = Vec::new();
    for i in 0..lo
        invariant
            lo <= hi <= cs@.len(),
            r@ == cs@.take(i as int),
    {
        r.push(cs[i]);
        assert(cs@.take(i + 1) =~= cs@.take(i as int).push(cs@[i as int]));
    }
    let n = ins.len();
    for i in 0..n
        invariant
            n == ins@.len(),
            lo <= hi <= cs@.len(),
            r@ == cs@.take(lo as int) + ins@.take(i as int),
    {
        r.push(ins[i]);
        assert(ins@.take(i + 1) =~= ins@.take(i as int).push(ins@[i as int]));
        assert(cs@.take(lo as int) + ins@.take(i + 1) =~= (cs@.take(lo as int) + ins@.take(
            i as int,
        )).push(ins@[i as int]));
    }
    assert(ins@.take(n as int) =~= ins@);
    let len = cs.len();
    for i in hi..len
        invariant
            len == cs@.len(),
            lo <= hi <= cs@.len(),
            r@ == cs@.take(lo as int) + ins@ + cs@.subrange(hi as int, i as int),
    {
        r.push(cs[i]);
        assert(cs@.subrange(hi as int, i + 1) =~= cs@.subrange(hi as int, i as int).push(
            cs@[i as int],
        ));
        assert(cs@.take(lo as int) + ins@ + cs@.subrange(hi as int, i + 1) =~= (cs@.take(
            lo as int,
        ) + ins@ + cs@.subrange(hi as int, i as int)).push(cs@[i as int]));
    }
    assert(cs@.subrange(hi as int, len as int) =~= cs@.skip(hi as int));
    r
}

proof fn lemma_trim_end_spaces(x: Seq<char>)
    ensures
        trim_end_spaces(x).len() <= x.len(),
        trim_end_spaces(x) == x.take(trim_end_spaces(x).len() as int),
        forall|j: int| trim_end_spaces(x).len() <= j < x.len() ==> x[j] == ' ',
        trim_end_spaces(x).len() == 0 || x[trim_end_spaces(x).len() - 1] != ' ',
    decreases x.len(),
{
    if x.len() > 0 && x.last() == ' ' {
        let d = x.drop_last();
        lemma_trim_end_spaces(d);
        let t = trim_end_spaces(d);
        assert(x.take(t.len() as int) =~= d.take(t.len() as int));
        assert forall|j: int| t.len() <= j < x.len() implies x[j] == ' ' by {
            if j < d.len() {
                assert(x[j] == d[j]);
            }
        }
        if t.len() > 0 {
            assert(x[t.len() - 1] == d[t.len() - 1]);
        }
    } else {
        assert(x.take(x.len() as int) =~= x);
    }
}

/// Deleting `[w, k)` of `s` removes a word and the spaces after it: the
/// non-spaces `[w, m)` then the spaces `[m, k)`, with a space (or the start
/// of the line) before `w` and a non-space (or the start) before `m`.
pub open spec fn one_word_before(s: Seq<char>, k: int, w: int, m: int) -> bool {
    &&& 0 <= w <= m <= k <= s.len()
    &&& forall|j: int| m <= j < k ==> #[trigger] s[j] == ' '
    &&& m == 0 || s[m - 1] != ' '
    &&& forall|j: int| w <= j < m ==> #[trigger] s[j] != ' '
    &&& w == 0 || s[w - 1] == ' '
}

/// Ctrl-W deletes one word: what it removes before the cursor (character
/// position `k`) is the trailing spaces and the word before them, stopping
/// at the space that ends the previous word, or at the start of the line.
pub proof fn law_delete_word_takes_one_word(s: Seq<char>, k: int)
    requires
        0 <= k <= s.len(),
    ensures
        exists|m: int| #[trigger] one_word_before(s, k, word_start(s, k), m),
{
    let x = s.take(k);
    lemma_trim_end_spaces(x);
    let t = trim_end_spaces(x);
    let m = t.len() as int;
    crate::text::lemma_last_index_of(t, ' ');
    let w = word_start(s, k);
    assert forall|j: int| m <= j < k implies #[trigger] s[j] == ' ' by {
        assert(x[j] == s[j]);
    }
    if m > 0 {
        assert(x[m - 1] == s[m - 1]);
    }
    assert forall|j: int| w <= j < m implies #[trigger] s[j] != ' ' by {
        assert(t[j] == x[j]);
        assert(x[j] == s[j]);
    }
    if w > 0 {
        assert(t[w - 1] == x[w - 1]);
        assert(x[w - 1] == s[w - 1]);
    }
    assert(one_word_before(s, k, w, m));
}

/// Backspace undoes typing: typing a character at the cursor and then
/// deleting the character before the cursor gives back the line and the
/// cursor. `typed` is the state that `push_char` leaves, `back` the state
/// that `pop_char` then leaves, each as its `ensures` describes it.
pub proof fn law_backspace_undoes_typing(
    text: Seq<char>,
    cursor: int,
    c: char,
    typed: Seq<char>,
    typed_cursor: int,
    back: Seq<char>,
    back_cursor: int,
)
    requires
        is_boundary(text, cursor),
        typed == insert_at(text, char_pos(text, cursor), seq![c]),
        typed_cursor == cursor + char_width(c),
        exists|k: int|
            is_prev_pos(typed, typed_cursor, k) && k < typed.len() && back == typed.take(k)
                + typed.skip(k + 1) && back_cursor == byte_len(typed.take(k)),
    ensures
        back == text,
        back_cursor == cursor,
{
    lemma_char_pos(text, cursor);
    let k0 = char_pos(text, cursor);
    let k = choose|k: int|
        is_prev_pos(typed, typed_cursor, k) && k < typed.len() && back == typed.take(k)
            + typed.skip(k + 1) && back_cursor == byte_len(typed.take(k));
    assert(typed.take(k0) =~= text.take(k0));
    assert(typed.take(k0 + 1) =~= text.take(k0).push(c));
    crate::text::lemma_byte_len_push(text.take(k0), c);
    if k > k0 {
        crate::text::lemma_offsets_increase(typed, k0 + 1, k);
    }
    if k < k0 {
        crate::text::lemma_offsets_increase(typed, k + 1, k0 + 1);
    }
    assert(k == k0);
    assert(typed.skip(k0 + 1) =~= text.skip(k0));
    assert(text.take(k0) + text.skip(k0) =~= text);
}

/// The state of the input line.
pub struct InputState {
    pub text: String,
    /// Byte offset of the cursor in `text`.
    pub cursor_pos: usize,
    pub history: Vec<String>,
    /// Which history entry is shown, while browsing history.
    pub history_pos: Option<usize>,
    /// What was typed before history browsing started.
    pub draft: String,
    /// A multi-line paste, shown as one block ahead of `text`.
    pub pasted: Option<String>,
}

impl InputState {
    pub fn new() -> (r: Self)
        ensures
            r.text@ == Seq::<char>::empty(),
            r.cursor_pos == 0,
            r.history@ == Seq::<String>::empty(),
            r.history_pos is None,
            r.draft@ == Seq::<char>::empty(),
            r.pasted is None,
    {
        InputState {
            text: String::new(),
            cursor_pos: 0,
            history: Vec::new(),
            history_pos: None,
            draft: String::new(),
            pasted: None,
        }
    }

    pub fn is_empty(&self) -> (r: bool)
        ensures
            r == (self.pasted is None && self.text@.len() == 0),
    {
        self.pasted.is_none() && self.text.as_str().is_empty()
    }

    /// Inserts pasted text: a paste with a newline becomes the paste block
    /// (replacing what was typed), any other paste is typed at the cursor.
    pub fn insert_paste(&mut self, content: String)
        requires
            is_boundary(old(self).text@, old(self).cursor_pos as int),
            byte_len(old(self).text@) + byte_len(content@) <= usize::MAX,
        ensures
            is_boundary(final(self).text@, final(self).cursor_pos as int),
            final(self).history == old(self).history,
            final(self).draft == old(self).draft,
            final(self).history_pos is None,
            content@.contains('\n') ==> {
                &&& final(self).pasted == Some(content)
                &&& final(self).text@ == Seq::<char>::empty()
                &&& final(self).cursor_pos == 0
            },
            !content@.contains('\n') ==> {
                &&& final(self).pasted == old(self).pasted
                &&& final(self).text@ == insert_at(
                    old(self).text@,
                    char_pos(old(self).text@, old(self).cursor_pos as int),
                    content@,
                )
                &&& final(self).cursor_pos == old(self).cursor_pos + byte_len(content@)
            },
    {
        let ins = chars_of(content.as_str());
        match find_char(&ins, '\n') {
            Some(_) => {
                proof {
                    crate::text::lemma_first_index_of(ins@, '\n');
                }
                self.pasted = Some(content);
                self.text = String::new();
                self.cursor_pos = 0;
                self.history_pos = None;
                proof {
                    lemma_boundary_at(self.text@, 0);
                    crate::text::lemma_byte_len_empty();
                    assert(self.text@.take(0) =~= Seq::<char>::empty());
                }
            },
            None => {
                proof {
                    crate::text::lemma_first_index_of(ins@, '\n');
                    lemma_take_full(ins@);
                }
                let cs = chars_of(self.text.as_str());
                proof {
                    lemma_offset_mono(cs@, 0, cs@.len() as int);
                    lemma_take_full(cs@);
                }
                let k = char_index(&cs, self.cursor_pos);
                let nc = splice_chars(&cs, k, k, &ins);
                let added = byte_offset(&ins, ins.len());
                proof {
                    lemma_offset_mono(cs@, k as int, cs@.len() as int);
                }
                self.text = string_from_chars(&nc);
                self.cursor_pos = self.cursor_pos + added;
                self.history_pos = None;
                proof {
                    let m = k + ins@.len();
                    assert(nc@.take(m) =~= cs@.take(k as int) + ins@);
                    lemma_byte_len_concat(cs@.take(k as int), ins@);
                    lemma_boundary_at(nc@, m);
                }
            },
        }
    }

    /// Types `c` at the cursor.
    pub fn push_char(&mut self, c: char)
        requires
            is_boundary(old(self).text@, old(self).cursor_pos as int),
            byte_len(old(self).text@) + 4 <= usize::MAX,
        ensures
            is_boundary(final(self).text@, final(self).cursor_pos as int),
            final(self).text@ == insert_at(
                old(self).text@,
                char_pos(old(self).text@, old(self).cursor_pos as int),
                seq![c],
            ),
            final(self).cursor_pos == old(self).cursor_pos + char_width(c),
            final(self).history_pos is None,
            final(self).pasted == old(self).pasted,
            final(self).history == old(self).history,
            final(self).draft == old(self).draft,
    {
        let cs = chars_of(self.text.as_str());
        let k = char_index(&cs, self.cursor_pos);
        let ins = vec![c];
        let nc = splice_chars(&cs, k, k, &ins);
        proof {
            assert(ins@ =~= seq![c]);
            lemma_offset_mono(cs@, k as int, cs@.len() as int);
            lemma_take_full(cs@);
        }
        self.text = string_from_chars(&nc);
        self.cursor_pos = self.cursor_pos + char_len(c);
        self.history_pos = None;
        proof {
            assert(nc@.take(k + 1) =~= cs@.take(k as int).push(c));
            lemma_byte_len_push(cs@.take(k as int), c);
            lemma_boundary_at(nc@, k + 1);
        }
    }

    /// Backspace: deletes the character before the cursor; at the start of an
    /// empty line it discards the paste block instead.
    pub fn pop_char(&mut self)
        requires
            old(self).cursor_pos <= byte_len(old(self).text@),
            byte_len(old(self).text@) <= usize::MAX,
        ensures
            is_boundary(final(self).text@, final(self).cursor_pos as int),
            final(self).history == old(self).history,
            final(self).draft == old(self).draft,
            old(self).cursor_pos == 0 ==> {
                &&& final(self).text == old(self).text
                &&& final(self).cursor_pos == 0
                &&& final(self).history_pos == old(self).history_pos
                &&& final(self).pasted == if old(self).text@.len() == 0 {
                    None
                } else {
                    old(self).pasted
                }
            },
            old(self).cursor_pos > 0 ==> exists|k: int|
                is_prev_pos(old(self).text@, old(self).cursor_pos as int, k) && k < old(self).text@.len() && final(self).text@ == old(self).text@.take(k) + old(self).text@.skip(k + 1) && final(self).cursor_pos == byte_len(old(self).text@.take(k))
                    && final(self).history_pos is None && final(self).pasted == old(self).pasted,
    {
        if self.cursor_pos == 0 {
            if self.text.as_str().is_empty() {
                self.pasted = None;
            }
            proof {
                crate::text::lemma_byte_len_empty();
                assert(self.text@.take(0) =~= Seq::<char>::empty());
                lemma_boundary_at(self.text@, 0);
            }
            return;
        }
        let cs = chars_of(self.text.as_str());
        let _n = cs.len();
        let k = prev_index(&cs, self.cursor_pos);
        proof {
            if k == cs@.len() {
                lemma_take_full(cs@);
                assert(false);
            }
        }
        let nc = splice_chars(&cs, k, k + 1, &Vec::new());
        let off = byte_offset(&cs, k);
        proof {
            assert(cs@.take(k as int) + Seq::<char>::empty() + cs@.skip(k + 1) =~= cs@.take(
                k as int,
            ) + cs@.skip(k + 1));
        }
        self.text = string_from_chars(&nc);
        self.cursor_pos = off;
        self.history_pos = None;
        proof {
            assert(nc@.take(k as int) =~= cs@.take(k as int));
            lemma_boundary_at(nc@, k as int);
        }
    }

    /// Hands over the message (paste block, newline, typed text) and records it in history.
    pub fn take(&mut self) -> (r: String)
        ensures
            is_boundary(final(self).text@, final(self).cursor_pos as int),
            r@ == match old(self).pasted {
                Some(p) => if old(self).text@.len() == 0 {
                    p@
                } else {
                    p@ + seq!['\n'] + old(self).text@
                },
                None => old(self).text@,
            },
            final(self).text@ == Seq::<char>::empty(),
            final(self).cursor_pos == 0,
            final(self).history_pos is None,
            final(self).draft@ == Seq::<char>::empty(),
            final(self).pasted is None,
            r@.len() == 0 ==> final(self).history == old(self).history,
            r@.len() > 0 ==> final(self).history@ == old(self).history@.push(r),
    {
        let suffix = self.text.clone();
        self.text = String::new();
        let combined = match self.pasted.take() {
            Some(p) => {
                if suffix.as_str().is_empty() {
                    p
                } else {
                    let mut c = p;
                    push_char(&mut c, '\n');
                    c.append(suffix.as_str());
                    c
                }
            },
            None => suffix,
        };
        self.cursor_pos = 0;
        self.history_pos = None;
        self.draft = String::new();
        proof {
            crate::text::lemma_byte_len_empty();
            assert(self.text@.take(0) =~= Seq::<char>::empty());
            lemma_boundary_at(self.text@, 0);
        }
        if !combined.as_str().is_empty() {
            self.history.push(combined.clone());
        }
        combined
    }

    /// Shows the previous history entry, saving the typed text as draft on the first step.
    pub fn history_prev(&mut self)
        requires
            old(self).history_pos matches Some(i) ==> i <= old(self).history@.len(),
        ensures
            byte_len(final(self).text@) <= usize::MAX && is_boundary(old(self).text@, old(self).cursor_pos as int) ==> is_boundary(final(self).text@, final(self).cursor_pos as int),
            final(self).history == old(self).history,
            old(self).history@.len() == 0 ==> *final(self) == *old(self),
            old(self).history@.len() > 0 && old(self).history_pos is None ==> {
                let n = (old(self).history@.len() - 1) as int;
                &&& final(self).pasted is None
                &&& final(self).draft == old(self).text
                &&& final(self).history_pos == Some(n as usize)
                &&& final(self).text == old(self).history@[n]
                &&& final(self).cursor_pos == byte_len(final(self).text@) as usize
            },
            old(self).history_pos matches Some(i) ==> old(self).history@.len() > 0 && i > 0 ==> {
                &&& final(self).pasted == old(self).pasted
                &&& final(self).draft == old(self).draft
                &&& final(self).history_pos == Some((i - 1) as usize)
                &&& i - 1 < old(self).history@.len() ==> final(self).text == old(self).history@[i - 1]
                &&& final(self).cursor_pos == byte_len(final(self).text@) as usize
            },
            old(self).history@.len() > 0 && old(self).history_pos == Some(0usize) ==> *final(self)
                == *old(self),
    {
        if self.history.len() == 0 {
            return;
        }
        match self.history_pos {
            None => {
                self.pasted = None;
                self.draft = self.text.clone();
                let new_pos = self.history.len() - 1;
                self.history_pos = Some(new_pos);
                self.text = self.history[new_pos].clone();
                self.cursor_pos = self.text.as_str().len();
                proof {
                    lemma_take_full(self.text@);
                    lemma_boundary_at(self.text@, self.text@.len() as int);
                }
            },
            Some(i) => {
                if i > 0 {
                    let new_pos = i - 1;
                    self.history_pos = Some(new_pos);
                    self.text = self.history[new_pos].clone();
                    self.cursor_pos = self.text.as_str().len();
                    proof {
                        lemma_take_full(self.text@);
                        lemma_boundary_at(self.text@, self.text@.len() as int);
                    }
                }
            },
        }
    }

    /// Shows the next history entry; past the newest one, restores the draft.
    pub fn history_next(&mut self)
        ensures
            byte_len(final(self).text@) <= usize::MAX && is_boundary(old(self).text@, old(self).cursor_pos as int) ==> is_boundary(final(self).text@, final(self).cursor_pos as int),
            final(self).history == old(self).history,
            final(self).pasted == old(self).pasted,
            old(self).history_pos is None ==> *final(self) == *old(self),
            old(self).history_pos matches Some(i) ==> i + 1 < old(self).history@.len() ==> {
                &&& final(self).history_pos == Some((i + 1) as usize)
                &&& final(self).text == old(self).history@[i + 1]
                &&& final(self).draft == old(self).draft
                &&& final(self).cursor_pos == byte_len(final(self).text@) as usize
            },
            old(self).history_pos matches Some(i) ==> i + 1 >= old(self).history@.len() ==> {
                &&& final(self).history_pos is None
                &&& final(self).text == old(self).draft
                &&& final(self).draft@ == Seq::<char>::empty()
                &&& final(self).cursor_pos == byte_len(final(self).text@) as usize
            },
    {
        match self.history_pos {
            Some(i) => {
                if self.history.len() > 0 && i < self.history.len() - 1 {
                    let new_pos = i + 1;
                    self.history_pos = Some(new_pos);
                    self.text = self.history[new_pos].clone();
                    self.cursor_pos = self.text.as_str().len();
                    proof {
                        lemma_take_full(self.text@);
                        lemma_boundary_at(self.text@, self.text@.len() as int);
                    }
                } else {
                    self.text = self.draft.clone();
                    self.draft = String::new();
                    self.cursor_pos = self.text.as_str().len();
                    proof {
                        lemma_take_full(self.text@);
                        lemma_boundary_at(self.text@, self.text@.len() as int);
                    }
                    self.history_pos = None;
                }
            },
            None => {},
        }
    }

    /// Moves the cursor one character left.
    pub fn move_left(&mut self)
        requires
            byte_len(old(self).text@) <= usize::MAX,
        ensures
            is_boundary(old(self).text@, old(self).cursor_pos as int) ==> is_boundary(final(self).text@, final(self).cursor_pos as int),
            final(self).text == old(self).text,
            final(self).history == old(self).history,
            final(self).history_pos == old(self).history_pos,
            final(self).draft == old(self).draft,
            final(self).pasted == old(self).pasted,
            old(self).cursor_pos == 0 ==> final(self).cursor_pos == 0,
            old(self).cursor_pos > 0 ==> exists|k: int|
                is_prev_pos(old(self).text@, old(self).cursor_pos as int, k) && final(self).cursor_pos == byte_len(old(self).text@.take(k)),
    {
        if self.cursor_pos == 0 {
            return;
        }
        let cs = chars_of(self.text.as_str());
        let k = prev_index(&cs, self.cursor_pos);
        self.cursor_pos = byte_offset(&cs, k);
        proof {
            lemma_boundary_at(cs@, k as int);
        }
    }

    /// Moves the cursor one character right.
    pub fn move_right(&mut self)
        requires
            byte_len(old(self).text@) <= usize::MAX,
        ensures
            is_boundary(old(self).text@, old(self).cursor_pos as int) ==> is_boundary(final(self).text@, final(self).cursor_pos as int),
            final(self).text == old(self).text,
            final(self).history == old(self).history,
            final(self).history_pos == old(self).history_pos,
            final(self).draft == old(self).draft,
            final(self).pasted == old(self).pasted,
            old(self).cursor_pos >= byte_len(old(self).text@) ==> final(self).cursor_pos == old(self).cursor_pos,
            old(self).cursor_pos < byte_len(old(self).text@) ==> exists|k: int|
                is_next_pos(old(self).text@, old(self).cursor_pos as int, k) && final(self).cursor_pos == byte_len(old(self).text@.take(k)),
    {
        let len = self.text.as_str().len();
        if self.cursor_pos >= len {
            return;
        }
        let cs = chars_of(self.text.as_str());
        let k = next_index(&cs, self.cursor_pos);
        self.cursor_pos = byte_offset(&cs, k);
        proof {
            lemma_boundary_at(cs@, k as int);
        }
    }

    /// Rows the input takes: one for a paste block, else one per line of text.
    pub fn line_count(&self) -> (r: usize)
        requires
            self.text@.len() < usize::MAX,
        ensures
            self.pasted is Some ==> r == 1,
            self.pasted is None ==> r == count_char(self.text@, '\n') + 1,
    {
        if self.pasted.is_some() {
            1
        } else {
            let cs = chars_of(self.text.as_str());
            let _len = cs.len();
            let n = count_chars(&cs, '\n');
            proof {
                crate::text::lemma_count_char_le(cs@, '\n');
            }
            n + 1
        }
    }

    /// Deletes the word before the cursor (and the spaces after it).
    pub fn delete_word(&mut self)
        requires
            is_boundary(old(self).text@, old(self).cursor_pos as int),
            byte_len(old(self).text@) <= usize::MAX,
        ensures
            is_boundary(final(self).text@, final(self).cursor_pos as int),
            final(self).history == old(self).history,
            final(self).draft == old(self).draft,
            final(self).pasted == old(self).pasted,
            old(self).cursor_pos == 0 ==> *final(self) == *old(self),
            old(self).cursor_pos > 0 ==> {
                let k = char_pos(old(self).text@, old(self).cursor_pos as int);
                let w = word_start(old(self).text@, k);
                &&& final(self).text@ == old(self).text@.take(w) + old(self).text@.skip(k)
                &&& final(self).cursor_pos == byte_len(old(self).text@.take(w))
                &&& final(self).history_pos is None
            },
    {
        if self.cursor_pos == 0 {
            return;
        }
        let cs = chars_of(self.text.as_str());
        let k = char_index(&cs, self.cursor_pos);
        let mut t = k;
        while t > 0 && cs[t - 1] == ' '
            invariant
                t <= k <= cs@.len(),
                trim_end_spaces(cs@.take(k as int)) == trim_end_spaces(cs@.take(t as int)),
            decreases t,
        {
            assert(cs@.take(t as int).drop_last() =~= cs@.take(t - 1));
            t -= 1;
        }
        let trimmed = crate::text::slice_chars(&cs, 0, t);
        let _tn = trimmed.len();
        proof {
            assert(trimmed@ =~= cs@.take(t as int));
        }
        proof {
            crate::text::lemma_last_index_of(trimmed@, ' ');
        }
        let w = match rfind_char(&trimmed, ' ') {
            Some(j) => j + 1,
            None => 0,
        };
        let nc = splice_chars(&cs, w, k, &Vec::new());
        let off = byte_offset(&cs, w);
        proof {
            assert(cs@.take(w as int) + Seq::<char>::empty() + cs@.skip(k as int) =~= cs@.take(
                w as int,
            ) + cs@.skip(k as int));
        }
        self.text = string_from_chars(&nc);
        self.cursor_pos = off;
        self.history_pos = None;
        proof {
            assert(nc@.take(w as int) =~= cs@.take(w as int));
            lemma_boundary_at(nc@, w as int);
        }
    }

    /// Empties the line and drops the paste block.
    pub fn clear_line(&mut self)
        ensures
            is_boundary(final(self).text@, final(self).cursor_pos as int),
            final(self).pasted is None,
            final(self).text@ == Seq::<char>::empty(),
            final(self).cursor_pos == 0,
            final(self).history_pos is None,
            final(self).history == old(self).history,
            final(self).draft == old(self).draft,
    {
        self.pasted = None;
        self.text = String::new();
        self.cursor_pos = 0;
        self.history_pos = None;
        proof {
            crate::text::lemma_byte_len_empty();
            assert(self.text@.take(0) =~= Seq::<char>::empty());
            lemma_boundary_at(self.text@, 0);
        }
    }

    /// Moves the cursor to the start of its line.
    pub fn move_to_start(&mut self)
        requires
            is_boundary(old(self).text@, old(self).cursor_pos as int),
            byte_len(old(self).text@) <= usize::MAX,
        ensures
            is_boundary(final(self).text@, final(self).cursor_pos as int),
            final(self).text == old(self).text,
            final(self).history == old(self).history,
            final(self).history_pos == old(self).history_pos,
            final(self).draft == old(self).draft,
            final(self).pasted == old(self).pasted,
            final(self).cursor_pos == match last_index_of(
                old(self).text@.take(char_pos(old(self).text@, old(self).cursor_pos as int)),
                '\n',
            ) {
                Some(j) => byte_len(old(self).text@.take(j + 1)),
                None => 0,
            },
    {
        let cs = chars_of(self.text.as_str());
        let k = char_index(&cs, self.cursor_pos);
        let before = crate::text::slice_chars(&cs, 0, k);
        proof {
            assert(before@ =~= cs@.take(k as int));
            crate::text::lemma_last_index_of(before@, '\n');
        }
        self.cursor_pos = match rfind_char(&before, '\n') {
            Some(j) => {
                proof {
                    assert(cs@.take(k as int).take(j + 1) =~= cs@.take(j + 1));
                }
                proof {
                    lemma_boundary_at(cs@, j + 1);
                }
                byte_offset(&cs, j + 1)
            },
            None => {
                proof {
                    crate::text::lemma_byte_len_empty();
                    assert(cs@.take(0) =~= Seq::<char>::empty());
                    lemma_boundary_at(cs@, 0);
                }
                0
            },
        };
    }

    /// Moves the cursor to the end of its line.
    pub fn move_to_end(&mut self)
        requires
            is_boundary(old(self).text@, old(self).cursor_pos as int),
            byte_len(old(self).text@) <= usize::MAX,
        ensures
            is_boundary(final(self).text@, final(self).cursor_pos as int),
            final(self).text == old(self).text,
            final(self).history == old(self).history,
            final(self).history_pos == old(self).history_pos,
            final(self).draft == old(self).draft,
            final(self).pasted == old(self).pasted,
            ({
                let k = char_pos(old(self).text@, old(self).cursor_pos as int);
                final(self).cursor_pos == match first_index_of(old(self).text@.skip(k), '\n') {
                    Some(j) => byte_len(old(self).text@.take(k + j)),
                    None => byte_len(old(self).text@),
                }
            }),
    {
        let cs = chars_of(self.text.as_str());
        let k = char_index(&cs, self.cursor_pos);
        let after = crate::text::slice_chars(&cs, k, cs.len());
        proof {
            assert(after@ =~= cs@.skip(k as int));
            crate::text::lemma_first_index_of(after@, '\n');
            lemma_take_full(cs@);
        }
        self.cursor_pos = match find_char(&after, '\n') {
            Some(j) => {
                proof {
                    lemma_boundary_at(cs@, k + j);
                }
                byte_offset(&cs, k + j)
            },
            None => {
                proof {
                    lemma_boundary_at(cs@, cs@.len() as int);
                }
                byte_offset(&cs, cs.len())
            },
        };
    }
}

} // verus!
