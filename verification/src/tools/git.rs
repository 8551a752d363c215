//! The `git_diff` tool: the command it runs and the answer it gives.
use vstd::prelude::*;

use crate::json::{json_bool, json_get, str_at, str_member};
use crate::text::{byte_len, chars_of, push_str_chars, string_from_chars, string_views};
use crate::tools::file_io::cut_at;

verus! {

/// The arguments of `git` for a diff: `--cached` for staged changes, the
/// reference when given, then `--` and the path when given.
pub open spec fn git_diff_args_spec(staged: bool, git_ref: Option<Seq<char>>, path: Option<Seq<char>>) -> Seq<Seq<char>> {
    let a = seq!["diff"@];
    let b = if staged {
        a.push("--cached"@)
    } else {
        a
    };
    let c = match git_ref {
        Some(r) => b.push(r),
        None => b,
    };
    match path {
        Some(p) => c.push("--"@).push(p),
        None => c,
    }
}

/// The arguments of `git` for a `git_diff` call.
pub fn git_diff_args(args: &serde_json::Value) -> (r: Vec<String>)
    ensures
        string_views(r@) == git_diff_args_spec(
            json_bool(json_get(*args, "staged"@)) == Some(true),
            str_at(*args, "ref"@),
            str_at(*args, "path"@),
        ),
{
    proof {
        reveal_strlit("diff");
        reveal_strlit("--cached");
        reveal_strlit("--");
        reveal_strlit("staged");
    }
    let staged = crate::json::json_as_bool(&crate::json::json_member(args, "staged")) == Some(true);
    let mut v: Vec<String> = Vec::new();
    v.push("diff".to_owned());
    let ghost a = string_views(v@);
    assert(a =~= seq!["diff"@]);
    if staged {
        v.push("--cached".to_owned());
    }
    assert(string_views(v@) =~= if staged {
        a.push("--cached"@)
    } else {
        a
    });
    let ghost b = string_views(v@);
    match str_member(args, "ref") {
        Some(r) => {
            let ghost rv = r@;
            v.push(r);
            assert(string_views(v@) =~= b.push(rv));
        },
        None => {},
    }
    let ghost c = string_views(v@);
    match str_member(args, "path") {
        Some(p) => {
            let ghost pv = p@;
            v.push("--".to_owned());
            v.push(p);
            assert(string_views(v@) =~= c.push("--"@).push(pv));
        },
        None => {},
    }
    v
}

/// The most output the answer keeps, in bytes.
pub const MAX_DIFF_OUTPUT: usize = 100_000;

/// Whether the output can be cut at the limit: it fits, or a character
/// ends exactly at the limit.
pub open spec fn diff_cuttable(out: Seq<char>) -> bool {
    byte_len(out) <= 100_000 || cut_at(out, 100_000) is Some
}

/// The answer of `git_diff`: a failing run with error output gives that
/// output as the error; otherwise the output (cut at 100000 bytes with a
/// note), or a note that there are no differences.
pub open spec fn git_diff_spec(success: bool, stdout: Seq<char>, stderr: Seq<char>) -> Result<Seq<char>, Seq<char>> {
    if !success && stderr.len() > 0 {
        Err(stderr)
    } else {
        let out = if byte_len(stdout) > 100_000 {
            stdout.take(cut_at(stdout, 100_000)->Some_0) + "\n... [output truncated]"@
        } else {
            stdout
        };
        if out.len() == 0 {
            Ok("No differences found."@)
        } else {
            Ok(out)
        }
    }
}

pub fn git_diff_answer(success: bool, stdout: &str, stderr: &str) -> (r: Result<String, String>)
    requires
        diff_cuttable(stdout@),
    ensures
        match git_diff_spec(success, stdout@, stderr@) {
            Ok(t) => r matches Ok(s) && s@ == t,
            Err(e) => r matches Err(s) && s@ == e,
        },
{
    proof {
        reveal_strlit("\n... [output truncated]");
        reveal_strlit("No differences found.");
    }
    if !success && !stderr.is_empty() {
        return Err(stderr.to_owned());
    }
    let n = stdout.as_bytes().len();
    let out = if n > MAX_DIFF_OUTPUT {
        let cs = chars_of(stdout);
        let k = crate::tools::file_io::find_cut_at(&cs, MAX_DIFF_OUTPUT);
        let kept = crate::text::slice_chars(&cs, 0, k);
        assert(kept@ =~= cs@.take(k as int));
        let mut o = string_from_chars(&kept);
        push_str_chars(&mut o, "\n... [output truncated]");
        o
    } else {
        stdout.to_owned()
    };
    if out.as_str().is_empty() {
        Ok("No differences found.".to_owned())
    } else {
        Ok(out)
    }
}

} // verus!
