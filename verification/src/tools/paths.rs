//! Paths under the working directory: which ones listings skip, and how a
//! requested path is resolved and kept inside the working directory.
use vstd::prelude::*;

use crate::text::{
    chars_eq, chars_of, extend_chars, push_str_chars, split_on, split_on_exec, string_from_chars,
};

verus! {

/// Directories that listings and searches skip.
pub open spec fn is_ignore_dir(name: Seq<char>) -> bool {
    ||| name == "target"@
    ||| name == ".git"@
    ||| name == "node_modules"@
    ||| name == ".cache"@
    ||| name == "dist"@
    ||| name == "build"@
    ||| name == "__pycache__"@
    ||| name == ".idea"@
    ||| name == ".vscode"@
}

/// Names of the directories that listings and searches skip.
pub fn ignore_dirs() -> (r: Vec<&'static str>)
    ensures
        r@.len() == 9,
        forall|i: int| 0 <= i < 9 ==> is_ignore_dir((#[trigger] r@[i])@),
        forall|n: Seq<char>| is_ignore_dir(n) ==> exists|i: int| 0 <= i < 9 && (#[trigger] r@[i])@ == n,
{
    let r = vec![
        "target",
        ".git",
        "node_modules",
        ".cache",
        "dist",
        "build",
        "__pycache__",
        ".idea",
        ".vscode",
    ];
    assert(r@[0]@ == "target"@);
    assert(r@[1]@ == ".git"@);
    assert(r@[2]@ == "node_modules"@);
    assert(r@[3]@ == ".cache"@);
    assert(r@[4]@ == "dist"@);
    assert(r@[5]@ == "build"@);
    assert(r@[6]@ == "__pycache__"@);
    assert(r@[7]@ == ".idea"@);
    assert(r@[8]@ == ".vscode"@);
    r
}

/// A piece between slashes that names a file or directory: not empty, not
/// `.` and not `..` (a normal component of the path).
pub open spec fn is_name_piece(p: Seq<char>) -> bool {
    p.len() > 0 && p != "."@ && p != ".."@
}

/// A name that listings skip: hidden (starting with a dot) or an ignored directory.
pub open spec fn is_ignored_name(p: Seq<char>) -> bool {
    p[0] == '.' || is_ignore_dir(p)
}

/// Whether some named component of the relative path `rel` is hidden or an
/// ignored directory.
pub open spec fn is_ignored_path_spec(rel: Seq<char>) -> bool {
    exists|k: int|
        0 <= k < split_on(rel, '/').len() && is_name_piece(#[trigger] split_on(rel, '/')[k])
            && is_ignored_name(split_on(rel, '/')[k])
}

pub(crate) fn is_ignore_dir_exec(name: &Vec<char>) -> (r: bool)
    ensures
        r == is_ignore_dir(name@),
{
    let dirs = ignore_dirs();
    let mut i: usize = 0;
    while i < dirs.len()
        invariant
            dirs@.len() == 9,
            forall|q: int| 0 <= q < 9 ==> is_ignore_dir((#[trigger] dirs@[q])@),
            forall|n: Seq<char>| is_ignore_dir(n) ==> exists|q: int| 0 <= q < 9 && (#[trigger] dirs@[q])@ == n,
            i <= 9,
            forall|q: int| 0 <= q < i ==> (#[trigger] dirs@[q])@ != name@,
        decreases 9 - i,
    {
        let d = chars_of(dirs[i]);
        if chars_eq(&d, name) {
            return true;
        }
        i = i + 1;
    }
    false
}

/// The deepest directory level that the searching walks enter.
pub const MAX_WALK_DEPTH: usize = 20;

/// Whether a searching walk passes over a directory entry: a hidden name, or
/// one of the ignored directories.
pub fn walk_skips(name: &str) -> (r: bool)
    ensures
        r == ((name@.len() > 0 && name@[0] == '.') || is_ignore_dir(name@)),
{
    let cs = chars_of(name);
    if cs.len() > 0 && cs[0] == '.' {
        return true;
    }
    is_ignore_dir_exec(&cs)
}

/// Whether a searching walk goes on at `depth` once it has `found` of at most
/// `limit` results.
pub fn walk_goes_on(depth: usize, found: usize, limit: usize) -> (r: bool)
    ensures
        r == (depth <= MAX_WALK_DEPTH && found < limit),
{
    depth <= MAX_WALK_DEPTH && found < limit
}

pub fn is_ignored_path(rel: &str) -> (r: bool)
    ensures
        r == is_ignored_path_spec(rel@),
{
    let cs = chars_of(rel);
    let pieces = split_on_exec(&cs, '/');
    let ghost ps = split_on(rel@, '/');
    let n = pieces.len();
    let dot = chars_of(".");
    let dotdot = chars_of("..");
    proof {
        reveal_strlit(".");
        reveal_strlit("..");
    }
    for k in 0..n
        invariant
            n == ps.len(),
            ps == split_on(rel@, '/'),
            pieces@.len() == ps.len(),
            forall|q: int| 0 <= q < ps.len() ==> (#[trigger] pieces@[q])@ == ps[q],
            dot@ == "."@,
            dotdot@ == ".."@,
            forall|q: int| 0 <= q < k ==> !(is_name_piece(#[trigger] ps[q]) && is_ignored_name(ps[q])),
    {
        let p = &pieces[k];
        assert(p@ == ps[k as int]);
        if p.len() > 0 && !chars_eq(p, &dot) && !chars_eq(p, &dotdot) {
            if p[0] == '.' || is_ignore_dir_exec(p) {
                return true;
            }
        }
    }
    false
}

// ---------------------------------------------------------------------------
// Resolving paths inside the working directory
// ---------------------------------------------------------------------------

/// A component of a path (as `std::path::Component` has them on Unix).
pub enum Comp {
    Root,
    Cur,
    Parent,
    Normal(Seq<char>),
}

/// A component of a path.
pub enum PathComp {
    Root,
    Cur,
    Parent,
    Normal(Vec<char>),
}

impl View for PathComp {
    type V = Comp;

    open spec fn view(&self) -> Comp {
        match self {
            PathComp::Root => Comp::Root,
            PathComp::Cur => Comp::Cur,
            PathComp::Parent => Comp::Parent,
            PathComp::Normal(n) => Comp::Normal(n@),
        }
    }
}

pub open spec fn comps_view(v: Seq<PathComp>) -> Seq<Comp> {
    v.map_values(|c: PathComp| c@)
}

/// The components of the pieces between slashes: empty pieces and `.` are
/// skipped, `..` is the parent.
pub open spec fn piece_comps(ps: Seq<Seq<char>>) -> Seq<Comp>
    decreases ps.len(),
{
    if ps.len() == 0 {
        Seq::empty()
    } else {
        let r = piece_comps(ps.drop_last());
        let p = ps.last();
        if p.len() == 0 || p == "."@ {
            r
        } else if p == ".."@ {
            r.push(Comp::Parent)
        } else {
            r.push(Comp::Normal(p))
        }
    }
}

/// The components of a path (`Path::components`): the root of an absolute
/// path, a leading `.` of a relative one, then the named parts and `..`.
pub open spec fn components(p: Seq<char>) -> Seq<Comp> {
    let ps = split_on(p, '/');
    if p.len() > 0 && p[0] == '/' {
        seq![Comp::Root] + piece_comps(ps)
    } else if ps.len() > 0 && ps[0] == "."@ {
        seq![Comp::Cur] + piece_comps(ps.skip(1))
    } else {
        piece_comps(ps)
    }
}

pub open spec fn comp_text(c: Comp) -> Seq<char> {
    match c {
        Comp::Root => "/"@,
        Comp::Cur => "."@,
        Comp::Parent => ".."@,
        Comp::Normal(n) => n,
    }
}

/// A path with one more component (`PathBuf::push`): the root replaces it;
/// others follow a slash unless it is empty or ends with one.
pub open spec fn push_comp(buf: Seq<char>, c: Comp) -> Seq<char> {
    if c is Root {
        "/"@
    } else if buf.len() == 0 {
        comp_text(c)
    } else if buf.last() == '/' {
        buf + comp_text(c)
    } else {
        buf + seq!['/'] + comp_text(c)
    }
}

/// The path made of the components (collecting them into a `PathBuf`).
pub open spec fn path_of(cs: Seq<Comp>) -> Seq<char>
    decreases cs.len(),
{
    if cs.len() == 0 {
        Seq::empty()
    } else {
        push_comp(path_of(cs.drop_last()), cs.last())
    }
}

/// The components with `.` dropped and each `..` removing the named part
/// before it (a `..` with no named part before it is dropped).
pub open spec fn normalize(cs: Seq<Comp>) -> Seq<Comp>
    decreases cs.len(),
{
    if cs.len() == 0 {
        Seq::empty()
    } else {
        let r = normalize(cs.drop_last());
        match cs.last() {
            Comp::Cur => r,
            Comp::Parent => if r.len() > 0 && r.last() is Normal {
                r.drop_last()
            } else {
                r
            },
            c => r.push(c),
        }
    }
}

/// `a` begins with the components of `b` (`Path::starts_with`).
pub open spec fn starts_with(a: Seq<Comp>, b: Seq<Comp>) -> bool {
    b.len() <= a.len() && a.take(b.len() as int) == b
}

/// The last position holding the named part `name`.
pub open spec fn last_named(cs: Seq<Comp>, name: Seq<char>) -> Option<int>
    decreases cs.len(),
{
    if cs.len() == 0 {
        None
    } else if cs.last() == Comp::Normal(name) {
        Some(cs.len() - 1)
    } else {
        last_named(cs.drop_last(), name)
    }
}

/// The last component of a path, when it is a named part (`Path::file_name`).
pub open spec fn file_name(p: Seq<char>) -> Option<Seq<char>> {
    let cs = components(p);
    if cs.len() > 0 && cs.last() is Normal {
        Some(cs.last()->Normal_0)
    } else {
        None
    }
}

/// The working directory's path with `rel` appended (`Path::join` of a relative path).
pub open spec fn join_rel(wd: Seq<char>, rel: Seq<char>) -> Seq<char> {
    crate::memory::join_path(wd, rel)
}

/// The normalized form of a path, as a path.
pub open spec fn normalized(p: Seq<char>) -> Seq<char> {
    path_of(normalize(components(p)))
}

/// Recovery of an absolute path that names the working directory's last
/// part somewhere: what follows the last such part, taken inside the
/// working directory, if that stays inside it.
pub open spec fn suffix_fallback(abs: Seq<char>, wd: Seq<char>) -> Option<Seq<char>> {
    match file_name(wd) {
        None => None,
        Some(base) => match last_named(components(abs), base) {
            None => None,
            Some(k) => {
                let candidate = normalized(join_rel(wd, path_of(components(abs).skip(k + 1))));
                if starts_with(components(candidate), components(wd)) {
                    Some(candidate)
                } else {
                    None
                }
            },
        },
    }
}

/// The refusal of a path outside the working directory.
pub open spec fn escape_message(wd: Seq<char>, requested: Seq<char>) -> Seq<char> {
    "path escapes working directory '"@ + wd + "': "@ + requested
}

/// Where a requested path leads, given the canonical working directory:
/// relative paths are taken inside it; the result is normalized; it must
/// stay inside the working directory, else an absolute path may still be
/// recovered by the working directory's name.
pub open spec fn resolve_spec(requested: Seq<char>, wd: Seq<char>) -> Result<Seq<char>, Seq<char>> {
    let abs = requested.len() > 0 && requested[0] == '/';
    let raw = if abs {
        requested
    } else {
        join_rel(wd, requested)
    };
    let n = normalized(raw);
    if starts_with(components(n), components(wd)) {
        Ok(n)
    } else if abs && suffix_fallback(n, wd) is Some {
        Ok(suffix_fallback(n, wd)->Some_0)
    } else {
        Err(escape_message(wd, requested))
    }
}

/// A path that resolution accepts lies inside the working directory: its
/// components begin with those of the working directory.
pub proof fn law_resolved_inside(requested: Seq<char>, wd: Seq<char>)
    ensures
        resolve_spec(requested, wd) matches Ok(p) ==> starts_with(components(p), components(wd)),
{
}

fn comp_of_piece(p: &Vec<char>) -> (r: Option<PathComp>)
    ensures
        match r {
            None => p@.len() == 0 || p@ == "."@,
            Some(c) => p@.len() > 0 && p@ != "."@ && c@ == if p@ == ".."@ {
                Comp::Parent
            } else {
                Comp::Normal(p@)
            },
        },
{
    let dot = chars_of(".");
    let dotdot = chars_of("..");
    proof {
        reveal_strlit(".");
        reveal_strlit("..");
    }
    if p.len() == 0 || chars_eq(p, &dot) {
        None
    } else if chars_eq(p, &dotdot) {
        Some(PathComp::Parent)
    } else {
        Some(PathComp::Normal(copy_chars(p)))
    }
}

fn copy_chars(p: &Vec<char>) -> (r: Vec<char>)
    ensures
        r@ == p@,
{
    let r = crate::text::slice_chars(p, 0, p.len());
    assert(r@ =~= p@);
    r
}

fn pieces_comps(ps: &Vec<Vec<char>>, from: usize, out: &mut Vec<PathComp>)
    requires
        from <= ps@.len(),
    ensures
        comps_view(final(out)@) == comps_view(old(out)@) + piece_comps(
            crate::text::texts(ps@).skip(from as int),
        ),
{
    let ghost pv = crate::text::texts(ps@).skip(from as int);
    let n = ps.len();
    let mut i = from;
    assert(pv.take(0) =~= Seq::<Seq<char>>::empty());
    assert(comps_view(out@) =~= comps_view(old(out)@) + piece_comps(pv.take(0)));
    while i < n
        invariant
            n == ps@.len(),
            from <= i <= n,
            pv == crate::text::texts(ps@).skip(from as int),
            comps_view(out@) == comps_view(old(out)@) + piece_comps(pv.take(i - from)),
        decreases n - i,
    {
        assert(pv.take(i - from + 1).drop_last() =~= pv.take(i - from));
        assert(pv.take(i - from + 1).last() == ps@[i as int]@);
        let ghost before = out@;
        match comp_of_piece(&ps[i]) {
            Some(c) => {
                out.push(c);
                assert(comps_view(out@) =~= comps_view(before).push(c@));
            },
            None => {},
        }
        i = i + 1;
    }
    assert(pv.take(n - from) =~= pv);
}

/// The components of a path.
pub fn components_of(p: &Vec<char>) -> (r: Vec<PathComp>)
    ensures
        comps_view(r@) == components(p@),
{
    let ps = crate::text::split_on_exec(p, '/');
    assert(crate::text::texts(ps@) =~= split_on(p@, '/'));
    proof {
        crate::text::lemma_split_on_nonempty(p@, '/');
    }
    let mut out: Vec<PathComp> = Vec::new();
    let dot = chars_of(".");
    if p.len() > 0 && p[0] == '/' {
        out.push(PathComp::Root);
        assert(comps_view(out@) =~= seq![Comp::Root]);
        pieces_comps(&ps, 0, &mut out);
        assert(crate::text::texts(ps@).skip(0) =~= crate::text::texts(ps@));
    } else if chars_eq(&ps[0], &dot) {
        out.push(PathComp::Cur);
        assert(comps_view(out@) =~= seq![Comp::Cur]);
        pieces_comps(&ps, 1, &mut out);
    } else {
        assert(comps_view(out@) =~= Seq::<Comp>::empty());
        pieces_comps(&ps, 0, &mut out);
        assert(crate::text::texts(ps@).skip(0) =~= crate::text::texts(ps@));
        assert(Seq::<Comp>::empty() + piece_comps(split_on(p@, '/')) =~= piece_comps(
            split_on(p@, '/'),
        ));
    }
    out
}

fn comp_copy(c: &PathComp) -> (r: PathComp)
    ensures
        r@ == c@,
{
    match c {
        PathComp::Root => PathComp::Root,
        PathComp::Cur => PathComp::Cur,
        PathComp::Parent => PathComp::Parent,
        PathComp::Normal(n) => PathComp::Normal(copy_chars(n)),
    }
}

/// The normalized components.
pub fn normalize_comps(cs: &Vec<PathComp>) -> (r: Vec<PathComp>)
    ensures
        comps_view(r@) == normalize(comps_view(cs@)),
{
    let ghost cv = comps_view(cs@);
    let n = cs.len();
    let mut out: Vec<PathComp> = Vec::new();
    assert(cv.take(0) =~= Seq::<Comp>::empty());
    assert(comps_view(out@) =~= Seq::<Comp>::empty());
    for i in 0..n
        invariant
            n == cs@.len(),
            cv == comps_view(cs@),
            comps_view(out@) == normalize(cv.take(i as int)),
    {
        assert(cv.take(i + 1).drop_last() =~= cv.take(i as int));
        assert(cv.take(i + 1).last() == cs@[i as int]@);
        let ghost before = out@;
        match &cs[i] {
            PathComp::Cur => {},
            PathComp::Parent => {
                let last_normal = out.len() > 0 && match &out[out.len() - 1] {
                    PathComp::Normal(_) => true,
                    _ => false,
                };
                if last_normal {
                    out.pop();
                    assert(comps_view(out@) =~= comps_view(before).drop_last());
                }
            },
            c => {
                out.push(comp_copy(c));
                assert(comps_view(out@) =~= comps_view(before).push(cs@[i as int]@));
            },
        }
    }
    assert(cv.take(n as int) =~= cv);
    out
}

/// The path made of the components.
pub fn path_of_comps(cs: &Vec<PathComp>) -> (r: Vec<char>)
    ensures
        r@ == path_of(comps_view(cs@)),
{
    let ghost cv = comps_view(cs@);
    let n = cs.len();
    let mut buf: Vec<char> = Vec::new();
    assert(cv.take(0) =~= Seq::<Comp>::empty());
    for i in 0..n
        invariant
            n == cs@.len(),
            cv == comps_view(cs@),
            buf@ == path_of(cv.take(i as int)),
    {
        assert(cv.take(i + 1).drop_last() =~= cv.take(i as int));
        assert(cv.take(i + 1).last() == cs@[i as int]@);
        let text: Vec<char> = match &cs[i] {
            PathComp::Root => chars_of("/"),
            PathComp::Cur => chars_of("."),
            PathComp::Parent => chars_of(".."),
            PathComp::Normal(n) => copy_chars(n),
        };
        assert(text@ == comp_text(cs@[i as int]@));
        match &cs[i] {
            PathComp::Root => {
                buf = text;
            },
            _ => {
                if buf.len() > 0 && buf[buf.len() - 1] != '/' {
                    buf.push('/');
                }
                crate::text::extend_chars(&mut buf, &text);
            },
        }
        assert(buf@ =~= path_of(cv.take(i + 1)));
    }
    assert(cv.take(n as int) =~= cv);
    buf
}

fn comp_eq(a: &PathComp, b: &PathComp) -> (r: bool)
    ensures
        r == (a@ == b@),
{
    match (a, b) {
        (PathComp::Root, PathComp::Root) => true,
        (PathComp::Cur, PathComp::Cur) => true,
        (PathComp::Parent, PathComp::Parent) => true,
        (PathComp::Normal(x), PathComp::Normal(y)) => chars_eq(x, y),
        _ => false,
    }
}

pub fn starts_with_comps(a: &Vec<PathComp>, b: &Vec<PathComp>) -> (r: bool)
    ensures
        r == starts_with(comps_view(a@), comps_view(b@)),
{
    if b.len() > a.len() {
        return false;
    }
    let n = b.len();
    for i in 0..n
        invariant
            n == b@.len(),
            n <= a@.len(),
            forall|q: int| 0 <= q < i ==> comps_view(a@)[q] == comps_view(b@)[q],
    {
        if !comp_eq(&a[i], &b[i]) {
            assert(comps_view(a@).take(n as int)[i as int] != comps_view(b@)[i as int]);
            return false;
        }
    }
    assert(comps_view(a@).take(n as int) =~= comps_view(b@));
    true
}


proof fn lemma_last_named(cs: Seq<Comp>, name: Seq<char>)
    ensures
        last_named(cs, name) matches Some(k) ==> 0 <= k < cs.len() && cs[k] == Comp::Normal(name),
    decreases cs.len(),
{
    if cs.len() > 0 {
        lemma_last_named(cs.drop_last(), name);
    }
}

fn last_named_exec(cs: &Vec<PathComp>, name: &Vec<char>) -> (r: Option<usize>)
    ensures
        match last_named(comps_view(cs@), name@) {
            None => r is None,
            Some(k) => r matches Some(j) && j == k && k < cs@.len(),
        },
{
    let ghost cv = comps_view(cs@);
    proof {
        lemma_last_named(cv, name@);
    }
    let mut i = cs.len();
    assert(cv.take(i as int) =~= cv);
    while i > 0
        invariant
            i <= cs@.len(),
            cv == comps_view(cs@),
            last_named(cv, name@) == last_named(cv.take(i as int), name@),
        decreases i,
    {
        assert(cv.take(i as int).drop_last() =~= cv.take(i - 1));
        assert(cv.take(i as int).last() == cs@[i - 1]@);
        let hit = match &cs[i - 1] {
            PathComp::Normal(n) => chars_eq(n, name),
            _ => false,
        };
        if hit {
            return Some(i - 1);
        }
        i = i - 1;
    }
    assert(cv.take(0) =~= Seq::<Comp>::empty());
    None
}

/// The last component of a path when it is a named part.
pub fn file_name_of(p: &Vec<char>) -> (r: Option<Vec<char>>)
    ensures
        match file_name(p@) {
            None => r is None,
            Some(n) => r matches Some(v) && v@ == n,
        },
{
    let cs = components_of(p);
    if cs.len() == 0 {
        return None;
    }
    match &cs[cs.len() - 1] {
        PathComp::Normal(n) => Some(copy_chars(n)),
        _ => None,
    }
}

fn normalized_of(p: &Vec<char>) -> (r: Vec<char>)
    ensures
        r@ == normalized(p@),
{
    let cs = components_of(p);
    let ns = normalize_comps(&cs);
    path_of_comps(&ns)
}

fn join_rel_chars(wd: &Vec<char>, rel: &Vec<char>) -> (r: Vec<char>)
    ensures
        r@ == join_rel(wd@, rel@),
{
    let mut out = copy_chars(wd);
    if out.len() > 0 && out[out.len() - 1] != '/' {
        out.push('/');
    }
    extend_chars(&mut out, rel);
    assert(out@ =~= join_rel(wd@, rel@));
    out
}

fn inside(p: &Vec<char>, wd: &Vec<char>) -> (r: bool)
    ensures
        r == starts_with(components(p@), components(wd@)),
{
    let a = components_of(p);
    let b = components_of(wd);
    starts_with_comps(&a, &b)
}

fn suffix_fallback_exec(abs: &Vec<char>, wd: &Vec<char>) -> (r: Option<Vec<char>>)
    ensures
        match suffix_fallback(abs@, wd@) {
            None => r is None,
            Some(c) => r matches Some(v) && v@ == c,
        },
{
    let base = match file_name_of(wd) {
        None => return None,
        Some(b) => b,
    };
    let cs = components_of(abs);
    let k = match last_named_exec(&cs, &base) {
        None => return None,
        Some(k) => k,
    };
    let ghost cv = comps_view(cs@);
    assert(last_named(cv, base@) == Some(k as int));
    assert(k < cs@.len());
    let mut rest: Vec<PathComp> = Vec::new();
    let n = cs.len();
    let mut i = k + 1;
    assert(cv.skip(k + 1).take(0) =~= comps_view(rest@));
    while i < n
        invariant
            n == cs@.len(),
            k < n,
            k + 1 <= i <= n,
            cv == comps_view(cs@),
            comps_view(rest@) == cv.skip(k + 1).take(i - (k + 1)),
        decreases n - i,
    {
        let ghost before = rest@;
        rest.push(comp_copy(&cs[i]));
        assert(comps_view(rest@) =~= comps_view(before).push(cs@[i as int]@));
        assert(comps_view(rest@) =~= cv.skip(k + 1).take(i + 1 - (k + 1)));
        i = i + 1;
    }
    assert(cv.skip(k + 1).take(n - (k + 1)) =~= cv.skip(k + 1));
    let suffix = path_of_comps(&rest);
    let joined = join_rel_chars(wd, &suffix);
    let candidate = normalized_of(&joined);
    if inside(&candidate, wd) {
        Some(candidate)
    } else {
        None
    }
}

/// The message that refuses a path outside the working directory.
pub fn escape_text(wd: &str, requested: &str) -> (r: String)
    ensures
        r@ == escape_message(wd@, requested@),
{
    let mut s = String::new();
    push_str_chars(&mut s, "path escapes working directory '");
    push_str_chars(&mut s, wd);
    push_str_chars(&mut s, "': ");
    push_str_chars(&mut s, requested);
    proof {
        reveal_strlit("path escapes working directory '");
        reveal_strlit("': ");
    }
    assert(s@ =~= escape_message(wd@, requested@));
    s
}

/// Resolves `requested` against the canonical working directory `wd`:
/// a relative path is taken inside it, the result is normalized, and it
/// must stay inside `wd` (an absolute path that names `wd`'s last part is
/// recovered from what follows that part); otherwise the path is refused.
pub fn resolve_within(requested: &str, wd: &str) -> (r: Result<String, String>)
    ensures
        match resolve_spec(requested@, wd@) {
            Ok(p) => r matches Ok(s) && s@ == p,
            Err(e) => r matches Err(s) && s@ == e,
        },
{
    let req = chars_of(requested);
    let w = chars_of(wd);
    let abs = req.len() > 0 && req[0] == '/';
    let raw = if abs {
        copy_chars(&req)
    } else {
        join_rel_chars(&w, &req)
    };
    let n = normalized_of(&raw);
    if inside(&n, &w) {
        return Ok(string_from_chars(&n));
    }
    if abs {
        match suffix_fallback_exec(&n, &w) {
            Some(c) => {
                return Ok(string_from_chars(&c));
            },
            None => {},
        }
    }
    Err(escape_text(wd, requested))
}


/// Where a requested path points: an absolute path as it is; a relative
/// one inside the working directory (`Path::join`).
pub open spec fn resolve_path_spec(requested: Seq<char>, wd: Seq<char>) -> Seq<char> {
    if requested.len() > 0 && requested[0] == '/' {
        requested
    } else {
        join_rel(wd, requested)
    }
}

pub fn resolve_path(requested: &str, working_dir: &str) -> (r: String)
    ensures
        r@ == resolve_path_spec(requested@, working_dir@),
{
    let cs = chars_of(requested);
    if cs.len() > 0 && cs[0] == '/' {
        requested.to_owned()
    } else {
        crate::memory::join_path_str(working_dir, requested)
    }
}

} // verus!
