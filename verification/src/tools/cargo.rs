//! The `cargo_test` tool: the report of a test run.
use vstd::prelude::*;

use crate::text::{byte_len, chars_of, decimal, push_decimal, push_str_chars, string_from_chars};
use crate::tools::file_io::cut_at;

verus! {

/// The most output a report keeps, in bytes (the end of the output).
pub const MAX_OUTPUT: usize = 16_000;

/// An exit code as decimal text, with a minus sign when negative.
pub open spec fn signed_decimal(n: int) -> Seq<char> {
    if n < 0 {
        "-"@ + decimal((-n) as nat)
    } else {
        decimal(n as nat)
    }
}

fn push_signed(s: &mut String, n: i32)
    ensures
        final(s)@ == old(s)@ + signed_decimal(n as int),
{
    proof {
        reveal_strlit("-");
    }
    if n < 0 {
        push_str_chars(s, "-");
        let m: u64 = if n == i32::MIN {
            2147483648u64
        } else {
            (-n) as u64
        };
        crate::text::push_decimal_u64(s, m);
    } else {
        crate::text::push_decimal_u64(s, n as u64);
    }
}

/// Whether the end of the output can be kept whole: it fits, or a
/// character starts exactly where the kept part begins.
pub open spec fn keepable(out: Seq<char>) -> bool {
    byte_len(out) <= 16000 || cut_at(out, (byte_len(out) - 16000) as nat) is Some
}

/// The output kept in a report: all of it when it fits, else its last
/// 16000 bytes after a note of how many were left out.
pub open spec fn kept_output(out: Seq<char>) -> Seq<char> {
    if byte_len(out) > 16000 {
        let cut = (byte_len(out) - 16000) as nat;
        "[truncated: "@ + decimal(cut) + " chars elided from head]\n"@ + out.skip(
            cut_at(out, cut)->Some_0,
        )
    } else {
        out
    }
}

/// The report of a test run: whether it passed, its exit code (-1 when it
/// has none), then what it printed, standard output first.
pub open spec fn cargo_report_spec(success: bool, code: Option<i32>, stdout: Seq<char>, stderr: Seq<char>) -> Seq<char> {
    "cargo test: "@ + (if success {
        "pass"@
    } else {
        "fail"@
    }) + " (exit "@ + signed_decimal(
        match code {
            Some(c) => c as int,
            None => -1,
        },
    ) + ")\n---\n"@ + kept_output(stdout + stderr)
}

/// The report of a test run.
pub fn cargo_report(success: bool, code: Option<i32>, stdout: &str, stderr: &str) -> (r: String)
    requires
        keepable(stdout@ + stderr@),
    ensures
        r@ == cargo_report_spec(success, code, stdout@, stderr@),
{
    proof {
        reveal_strlit("cargo test: ");
        reveal_strlit("pass");
        reveal_strlit("fail");
        reveal_strlit(" (exit ");
        reveal_strlit(")\n---\n");
        reveal_strlit("[truncated: ");
        reveal_strlit(" chars elided from head]\n");
    }
    let mut combined = String::new();
    push_str_chars(&mut combined, stdout);
    push_str_chars(&mut combined, stderr);
    let mut r = String::new();
    push_str_chars(&mut r, "cargo test: ");
    if success {
        push_str_chars(&mut r, "pass");
    } else {
        push_str_chars(&mut r, "fail");
    }
    push_str_chars(&mut r, " (exit ");
    let c: i32 = match code {
        Some(c) => c,
        None => -1,
    };
    push_signed(&mut r, c);
    push_str_chars(&mut r, ")\n---\n");
    let len = combined.as_str().as_bytes().len();
    if len > MAX_OUTPUT {
        let cut = len - MAX_OUTPUT;
        let cs = chars_of(combined.as_str());
        let k = crate::tools::file_io::find_cut_at(&cs, cut);
        push_str_chars(&mut r, "[truncated: ");
        push_decimal(&mut r, cut);
        push_str_chars(&mut r, " chars elided from head]\n");
        let kept = crate::text::slice_chars(&cs, k, cs.len());
        assert(kept@ =~= cs@.skip(k as int));
        crate::text::push_chars(&mut r, &kept);
    } else {
        push_str_chars(&mut r, combined.as_str());
    }
    r
}

} // verus!
