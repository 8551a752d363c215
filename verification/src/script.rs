//! Test scripts for the headless mode: their lines, the report of a run,
//! and the checks that a script makes of what the agent did.
use vstd::prelude::*;

use crate::text::{
    chars_of, chars_eq, decimal, find_char, first_index_of, push_chars, push_decimal,
    slice_chars, string_from_chars, strip_prefix, strip_prefix_chars, trim, trim_chars, words,
    words_of,
};

verus! {

/// One command of a test script.
#[derive(Debug, PartialEq)]
pub enum ScriptCommand {
    Send(String),
    Wait(std::time::Duration),
    ExpectFile { path: String, content: String },
    ExpectNoFile(String),
    /// The most recent step reported an event of this name.
    ExpectEvent(String),
    /// The most recent step reported no event of this name.
    ExpectNoEvent(String),
    ExpectStat { lhs: String, op: String, rhs: String },
}

/// What a line of a script says.
pub enum ScriptLine {
    Command(ScriptCommand),
    /// A pause; its length is the text, in seconds.
    Wait(String),
}

/// A script line, as text.
pub enum LineSpec {
    Send(Seq<char>),
    Wait(Seq<char>),
    ExpectFile { path: Seq<char>, content: Seq<char> },
    ExpectNoFile(Seq<char>),
    ExpectEvent(Seq<char>),
    ExpectNoEvent(Seq<char>),
    ExpectStat { lhs: Seq<char>, op: Seq<char>, rhs: Seq<char> },
}

/// What a parsed line holds, as text (a pause parsed into a duration has no text).
pub open spec fn line_view(l: ScriptLine) -> Option<LineSpec> {
    match l {
        ScriptLine::Wait(t) => Some(LineSpec::Wait(t@)),
        ScriptLine::Command(c) => match c {
            ScriptCommand::Send(t) => Some(LineSpec::Send(t@)),
            ScriptCommand::Wait(_) => None,
            ScriptCommand::ExpectFile { path, content } => Some(
                LineSpec::ExpectFile { path: path@, content: content@ },
            ),
            ScriptCommand::ExpectNoFile(p) => Some(LineSpec::ExpectNoFile(p@)),
            ScriptCommand::ExpectEvent(e) => Some(LineSpec::ExpectEvent(e@)),
            ScriptCommand::ExpectNoEvent(e) => Some(LineSpec::ExpectNoEvent(e@)),
            ScriptCommand::ExpectStat { lhs, op, rhs } => Some(
                LineSpec::ExpectStat { lhs: lhs@, op: op@, rhs: rhs@ },
            ),
        },
    }
}

/// `s` as `{:?}` shows it: quoted, with special characters escaped.
pub uninterp spec fn debug_text(s: Seq<char>) -> Seq<char>;

/// `format!("{:?}", s)`: the Debug form of a string, a function of the string.
#[verifier::external_body]
fn debug_str(s: &str) -> (r: String)
    ensures
        r@ == debug_text(s@),
{
    format!("{:?}", s)
}

/// The start of an error about line `index` (counted from zero).
pub open spec fn line_error(index: nat, msg: Seq<char>) -> Seq<char> {
    "line "@ + decimal(index + 1) + ": "@ + msg
}

/// What line `index` of a script says: nothing for blank lines and
/// comments; a directive for lines starting with `@`; else a message to send.
pub open spec fn parse_line_spec(index: nat, raw: Seq<char>) -> Result<Option<LineSpec>, Seq<char>> {
    let line = trim(raw);
    if line.len() == 0 || line[0] == '#' {
        Ok(None)
    } else if let Some(rest) = strip_prefix(line, "@wait "@) {
        Ok(Some(LineSpec::Wait(rest)))
    } else if let Some(rest) = strip_prefix(line, "@expect_file "@) {
        match first_index_of(rest, ' ') {
            Some(k) => Ok(
                Some(LineSpec::ExpectFile { path: rest.take(k), content: rest.skip(k + 1) }),
            ),
            None => Err(line_error(index, "@expect_file requires path and content"@)),
        }
    } else if let Some(rest) = strip_prefix(line, "@expect_no_file "@) {
        Ok(Some(LineSpec::ExpectNoFile(trim(rest))))
    } else if let Some(rest) = strip_prefix(line, "@expect_no_event "@) {
        Ok(Some(LineSpec::ExpectNoEvent(trim(rest))))
    } else if let Some(rest) = strip_prefix(line, "@expect_event "@) {
        Ok(Some(LineSpec::ExpectEvent(trim(rest))))
    } else if let Some(rest) = strip_prefix(line, "@expect_stat "@) {
        let parts = words(rest);
        if parts.len() != 3 {
            Err(line_error(index, "@expect_stat requires '<field> <op> <field>'"@))
        } else {
            Ok(Some(LineSpec::ExpectStat { lhs: parts[0], op: parts[1], rhs: parts[2] }))
        }
    } else if line[0] == '@' {
        Err(line_error(index, "unknown directive "@ + debug_text(line)))
    } else {
        Ok(Some(LineSpec::Send(line)))
    }
}

fn line_error_exec(index: usize, msg: &str) -> (r: String)
    requires
        index < usize::MAX,
    ensures
        r@ == line_error(index as nat, msg@),
{
    let mut r = String::new();
    r.append("line ");
    push_decimal(&mut r, index + 1);
    r.append(": ");
    r.append(msg);
    r
}

/// Reads line `index` (counted from zero) of a script.
pub fn parse_script_line(index: usize, raw: &str) -> (r: Result<Option<ScriptLine>, String>)
    requires
        index < usize::MAX,
    ensures
        match parse_line_spec(index as nat, raw@) {
            Ok(None) => r matches Ok(None),
            Ok(Some(l)) => r matches Ok(Some(x)) && line_view(x) == Some(l),
            Err(e) => r matches Err(m) && m@ == e,
        },
{
    let cs = chars_of(raw);
    let line = trim_chars(&cs);
    if line.len() == 0 || line[0] == '#' {
        return Ok(None);
    }
    if let Some(rest) = strip_prefix_chars(&line, "@wait ") {
        return Ok(Some(ScriptLine::Wait(string_from_chars(&rest))));
    }
    if let Some(rest) = strip_prefix_chars(&line, "@expect_file ") {
        return match find_char(&rest, ' ') {
            Some(k) => {
                let path = slice_chars(&rest, 0, k);
                let content = slice_chars(&rest, k + 1, rest.len());
                assert(path@ =~= rest@.take(k as int));
                assert(content@ =~= rest@.skip(k + 1));
                Ok(
                    Some(
                        ScriptLine::Command(
                            ScriptCommand::ExpectFile {
                                path: string_from_chars(&path),
                                content: string_from_chars(&content),
                            },
                        ),
                    ),
                )
            },
            None => Err(line_error_exec(index, "@expect_file requires path and content")),
        };
    }
    if let Some(rest) = strip_prefix_chars(&line, "@expect_no_file ") {
        let t = trim_chars(&rest);
        return Ok(Some(ScriptLine::Command(ScriptCommand::ExpectNoFile(string_from_chars(&t)))));
    }
    if let Some(rest) = strip_prefix_chars(&line, "@expect_no_event ") {
        let t = trim_chars(&rest);
        return Ok(Some(ScriptLine::Command(ScriptCommand::ExpectNoEvent(string_from_chars(&t)))));
    }
    if let Some(rest) = strip_prefix_chars(&line, "@expect_event ") {
        let t = trim_chars(&rest);
        return Ok(Some(ScriptLine::Command(ScriptCommand::ExpectEvent(string_from_chars(&t)))));
    }
    if let Some(rest) = strip_prefix_chars(&line, "@expect_stat ") {
        let parts = words_of(&rest);
        if parts.len() != 3 {
            return Err(line_error_exec(index, "@expect_stat requires '<field> <op> <field>'"));
        }
        return Ok(
            Some(
                ScriptLine::Command(
                    ScriptCommand::ExpectStat {
                        lhs: string_from_chars(&parts[0]),
                        op: string_from_chars(&parts[1]),
                        rhs: string_from_chars(&parts[2]),
                    },
                ),
            ),
        );
    }
    let text = string_from_chars(&line);
    if line[0] == '@' {
        let d = debug_str(text.as_str());
        let mut m = String::new();
        m.append("unknown directive ");
        m.append(d.as_str());
        return Err(line_error_exec(index, m.as_str()));
    }
    Ok(Some(ScriptLine::Command(ScriptCommand::Send(text))))
}

/// The lines of a script read up to its first bad line: each command with
/// the index of its line, and the error of the bad line, if any.
pub struct ScriptParse {
    pub lines: Vec<(usize, ScriptLine)>,
    pub error: Option<String>,
}

/// The first `n` lines read: the commands with their line indices, and the
/// error of the first bad line among them (after which nothing is read).
pub open spec fn parse_upto(ls: Seq<Seq<char>>, n: nat) -> (Seq<(nat, LineSpec)>, Option<Seq<char>>)
    decreases n,
{
    if n == 0 {
        (Seq::empty(), None)
    } else {
        let (v, e) = parse_upto(ls, (n - 1) as nat);
        if e is Some {
            (v, e)
        } else {
            match parse_line_spec((n - 1) as nat, ls[n - 1]) {
                Err(m) => (v, Some(m)),
                Ok(None) => (v, None),
                Ok(Some(l)) => (v.push(((n - 1) as nat, l)), None),
            }
        }
    }
}

pub open spec fn parsed_view(v: Seq<(usize, ScriptLine)>) -> Seq<(nat, Option<LineSpec>)> {
    v.map_values(|p: (usize, ScriptLine)| (p.0 as nat, line_view(p.1)))
}

pub open spec fn spec_parsed(v: Seq<(nat, LineSpec)>) -> Seq<(nat, Option<LineSpec>)> {
    v.map_values(|p: (nat, LineSpec)| (p.0, Some(p.1)))
}

/// Reads the lines of a script (as `str::lines` splits them) until the first
/// bad one.
pub fn parse_script_text(src: &str) -> (r: ScriptParse)
    ensures
        parsed_view(r.lines@) == spec_parsed(parse_upto(crate::text::lines(src@), crate::text::lines(src@).len()).0),
        match parse_upto(crate::text::lines(src@), crate::text::lines(src@).len()).1 {
            None => r.error is None,
            Some(e) => r.error matches Some(m) && m@ == e,
        },
{
    let cs = chars_of(src);
    let ls = crate::text::lines_of(&cs);
    let ghost lv = crate::text::lines(src@);
    let n = ls.len();
    let mut out: Vec<(usize, ScriptLine)> = Vec::new();
    assert(parsed_view(out@) =~= spec_parsed(parse_upto(lv, 0).0));
    let mut i: usize = 0;
    while i < n
        invariant
            n == ls@.len(),
            n == lv.len(),
            lv == crate::text::lines(src@),
            forall|q: int| 0 <= q < n ==> (#[trigger] ls@[q])@ == lv[q],
            i <= n,
            parse_upto(lv, i as nat).1 is None,
            parsed_view(out@) == spec_parsed(parse_upto(lv, i as nat).0),
        decreases n - i,
    {
        let text = string_from_chars(&ls[i]);
        let ghost before = out@;
        match parse_script_line(i, text.as_str()) {
            Err(m) => {
                proof {
                    lemma_parse_upto_stops(lv, (i + 1) as nat);
                }
                return ScriptParse { lines: out, error: Some(m) };
            },
            Ok(None) => {},
            Ok(Some(l)) => {
                let ghost lvw = line_view(l);
                out.push((i, l));
                assert(parsed_view(out@) =~= parsed_view(before).push((i as nat, lvw)));
            },
        }
        i = i + 1;
    }
    ScriptParse { lines: out, error: None }
}

/// Once a line is bad, the lines after it change nothing.
proof fn lemma_parse_upto_stops(ls: Seq<Seq<char>>, n: nat)
    requires
        n <= ls.len(),
        parse_upto(ls, n).1 is Some,
    ensures
        parse_upto(ls, ls.len()) == parse_upto(ls, n),
    decreases ls.len() - n,
{
    if n < ls.len() {
        lemma_parse_upto_stops_step(ls, n, (n + 1) as nat);
        lemma_parse_upto_stops(ls, (n + 1) as nat);
    }
}

proof fn lemma_parse_upto_stops_step(ls: Seq<Seq<char>>, n: nat, m: nat)
    requires
        m == n + 1,
        parse_upto(ls, n).1 is Some,
    ensures
        parse_upto(ls, m) == parse_upto(ls, n),
{
}

// ---------------------------------------------------------------------------
// The report of a run
// ---------------------------------------------------------------------------

/// Token use of one step, by agent depth.
pub struct TokenSummary {
    /// The largest prompt of a turn at depth 0 (the orchestrator).
    pub orchestrator_prompt_max: u64,
    /// The largest prompt of a turn at depth 1 or more (subtasks).
    pub subtask_prompt_max: u64,
    /// Tokens generated, at all depths.
    pub total_eval: u64,
}

impl Default for TokenSummary {
    fn default() -> (r: Self)
        ensures
            r.orchestrator_prompt_max == 0 && r.subtask_prompt_max == 0 && r.total_eval == 0,
    {
        TokenSummary { orchestrator_prompt_max: 0, subtask_prompt_max: 0, total_eval: 0 }
    }
}

/// The value of a token count by its name in a script.
pub open spec fn resolve_field_spec(t: TokenSummary, name: Seq<char>) -> Option<u64> {
    if name == "orchestrator_prompt_max"@ {
        Some(t.orchestrator_prompt_max)
    } else if name == "subtask_prompt_max"@ {
        Some(t.subtask_prompt_max)
    } else if name == "total_eval"@ {
        Some(t.total_eval)
    } else {
        None
    }
}

impl TokenSummary {
    pub fn resolve_field(&self, name: &str) -> (r: Option<u64>)
        ensures
            r == resolve_field_spec(*self, name@),
    {
        if crate::text::str_eq(name, "orchestrator_prompt_max") {
            Some(self.orchestrator_prompt_max)
        } else if crate::text::str_eq(name, "subtask_prompt_max") {
            Some(self.subtask_prompt_max)
        } else if crate::text::str_eq(name, "total_eval") {
            Some(self.total_eval)
        } else {
            None
        }
    }
}

/// How a step ended.
pub enum StepStatus {
    Completed,
    TimedOut,
    Failed(String),
}

/// One step of a run: a message sent, and what the agent reported until its turn ended.
pub struct StepReport {
    pub command: String,
    pub events: Vec<String>,
    pub duration_ms: u64,
    pub status: StepStatus,
    pub token_summary: TokenSummary,
}

/// One check of a run.
pub struct AssertionResult {
    pub assert_type: String,
    pub path: String,
    pub expected: String,
    pub actual: String,
    pub pass: bool,
}

/// The report of a run.
pub struct TestReport {
    pub model: String,
    pub steps: Vec<StepReport>,
    pub assertions: Vec<AssertionResult>,
}

impl TestReport {
    pub fn new(model: &str) -> (r: Self)
        ensures
            r.model@ == model@,
            r.steps@.len() == 0,
            r.assertions@.len() == 0,
    {
        TestReport { model: model.to_owned(), steps: Vec::new(), assertions: Vec::new() }
    }

    pub fn add_step(&mut self, step: StepReport)
        ensures
            final(self).steps@ == old(self).steps@.push(step),
            final(self).assertions == old(self).assertions,
            final(self).model == old(self).model,
    {
        self.steps.push(step);
    }

    pub fn add_assertion(&mut self, assertion: AssertionResult)
        ensures
            final(self).assertions@ == old(self).assertions@.push(assertion),
            final(self).steps == old(self).steps,
            final(self).model == old(self).model,
    {
        self.assertions.push(assertion);
    }
}

/// How many checks passed (`pass`) or failed (`!pass`).
pub open spec fn count_pass(a: Seq<AssertionResult>, pass: bool) -> nat
    decreases a.len(),
{
    if a.len() == 0 {
        0
    } else {
        count_pass(a.drop_last(), pass) + if a.last().pass == pass {
            1nat
        } else {
            0nat
        }
    }
}

/// How many steps timed out.
pub open spec fn count_timed_out(s: Seq<StepReport>) -> nat
    decreases s.len(),
{
    if s.len() == 0 {
        0
    } else {
        count_timed_out(s.drop_last()) + if s.last().status is TimedOut {
            1nat
        } else {
            0nat
        }
    }
}

/// The token line of step `i`.
pub open spec fn step_tokens_line(i: nat, t: TokenSummary) -> Seq<char> {
    "step "@ + decimal(i) + " tokens: orchestrator_prompt_max="@ + decimal(
        t.orchestrator_prompt_max as nat,
    ) + " subtask_prompt_max="@ + decimal(t.subtask_prompt_max as nat) + " total_eval="@
        + decimal(t.total_eval as nat)
}

/// The token lines of the steps from `i` on that generated tokens.
pub open spec fn token_lines(s: Seq<StepReport>, i: nat) -> Seq<Seq<char>>
    decreases s.len() - i,
{
    if i >= s.len() {
        Seq::empty()
    } else if s[i as int].token_summary.total_eval > 0 {
        seq![step_tokens_line(i, s[i as int].token_summary)] + token_lines(s, i + 1)
    } else {
        token_lines(s, i + 1)
    }
}

/// The summary of a run: the counts, then the token use of each step that used any.
pub open spec fn summary_spec(r: TestReport) -> Seq<Seq<char>> {
    seq![
        "assertions: "@ + decimal(count_pass(r.assertions@, true)) + " passed, "@ + decimal(
            count_pass(r.assertions@, false),
        ) + " failed | steps timed out: "@ + decimal(count_timed_out(r.steps@)),
    ] + token_lines(r.steps@, 0)
}

fn push_decimal_u64(s: &mut String, n: u64)
    ensures
        final(s)@ == old(s)@ + decimal(n as nat),
    decreases n,
{
    if n >= 10 {
        push_decimal_u64(s, n / 10);
    }
    let mut digit = String::new();
    push_decimal(&mut digit, (n % 10) as usize);
    s.append(digit.as_str());
    assert(s@ =~= old(s)@ + decimal(n as nat));
}

impl TestReport {
    /// The lines that close a run on the terminal.
    pub fn summary_lines(&self) -> (r: Vec<String>)
        ensures
            crate::text::string_views(r@) == summary_spec(*self),
    {
        let na = self.assertions.len();
        let mut passed: usize = 0;
        let mut failed: usize = 0;
        for i in 0..na
            invariant
                na == self.assertions@.len(),
                passed == count_pass(self.assertions@.take(i as int), true),
                failed == count_pass(self.assertions@.take(i as int), false),
                passed + failed == i,
        {
            assert(self.assertions@.take(i + 1).drop_last() =~= self.assertions@.take(i as int));
            if self.assertions[i].pass {
                passed = passed + 1;
            } else {
                failed = failed + 1;
            }
        }
        assert(self.assertions@.take(na as int) =~= self.assertions@);
        let ns = self.steps.len();
        let mut timed_out: usize = 0;
        for i in 0..ns
            invariant
                ns == self.steps@.len(),
                timed_out == count_timed_out(self.steps@.take(i as int)),
                timed_out <= i,
        {
            assert(self.steps@.take(i + 1).drop_last() =~= self.steps@.take(i as int));
            match self.steps[i].status {
                StepStatus::TimedOut => {
                    timed_out = timed_out + 1;
                },
                _ => {},
            }
        }
        assert(self.steps@.take(ns as int) =~= self.steps@);
        let mut head = String::new();
        head.append("assertions: ");
        push_decimal(&mut head, passed);
        head.append(" passed, ");
        push_decimal(&mut head, failed);
        head.append(" failed | steps timed out: ");
        push_decimal(&mut head, timed_out);
        let mut out: Vec<String> = Vec::new();
        out.push(head);
        let ghost first = out@;
        assert(crate::text::string_views(out@) + token_lines(self.steps@, 0) =~= summary_spec(*self));
        for i in 0..ns
            invariant
                ns == self.steps@.len(),
                crate::text::string_views(out@) + token_lines(self.steps@, i as nat) == summary_spec(
                    *self,
                ),
        {
            let t = &self.steps[i].token_summary;
            if t.total_eval > 0 {
                let mut line = String::new();
                line.append("step ");
                push_decimal(&mut line, i);
                line.append(" tokens: orchestrator_prompt_max=");
                push_decimal_u64(&mut line, t.orchestrator_prompt_max);
                line.append(" subtask_prompt_max=");
                push_decimal_u64(&mut line, t.subtask_prompt_max);
                line.append(" total_eval=");
                push_decimal_u64(&mut line, t.total_eval);
                let ghost before = out@;
                out.push(line);
                assert(crate::text::string_views(out@) =~= crate::text::string_views(before).push(
                    line@,
                ));
                assert(crate::text::string_views(out@) + token_lines(self.steps@, (i + 1) as nat)
                    =~= crate::text::string_views(before) + token_lines(self.steps@, i as nat));
            }
        }
        assert(crate::text::string_views(out@) + token_lines(self.steps@, ns as nat)
            =~= crate::text::string_views(out@));
        out
    }
}

// ---------------------------------------------------------------------------
// Checks of a run
// ---------------------------------------------------------------------------

/// The check of a file that should hold `content`: it passes when the file's
/// text contains the content without its surrounding whitespace.
pub fn expect_file_result(path: &str, content: &str, actual: String) -> (r: AssertionResult)
    ensures
        r.assert_type@ == "expect_file"@,
        r.path@ == path@,
        r.expected@ == content@,
        r.actual == actual,
        r.pass == crate::text::contains_seq(actual@, trim(content@)),
{
    let a = chars_of(actual.as_str());
    let c = chars_of(content);
    let t = trim_chars(&c);
    let pass = crate::text::chars_contains(&a, &t);
    AssertionResult {
        assert_type: "expect_file".to_owned(),
        path: path.to_owned(),
        expected: content.to_owned(),
        actual,
        pass,
    }
}

/// The check of a file that should not exist.
pub fn expect_no_file_result(path: &str, present: bool) -> (r: AssertionResult)
    ensures
        r.assert_type@ == "expect_no_file"@,
        r.path@ == path@,
        r.expected@.len() == 0,
        r.actual@ == if present {
            "exists"@
        } else {
            Seq::<char>::empty()
        },
        r.pass == !present,
{
    AssertionResult {
        assert_type: "expect_no_file".to_owned(),
        path: path.to_owned(),
        expected: String::new(),
        actual: if present {
            "exists".to_owned()
        } else {
            String::new()
        },
        pass: !present,
    }
}

/// Some event line of the step mentions `name`.
pub open spec fn mentions(events: Seq<String>, name: Seq<char>) -> bool {
    exists|i: int| 0 <= i < events.len() && crate::text::contains_seq(#[trigger] events[i]@, name)
}

fn any_mentions(events: &Vec<String>, name: &str) -> (r: bool)
    ensures
        r == mentions(events@, name@),
{
    let nc = chars_of(name);
    let n = events.len();
    for i in 0..n
        invariant
            n == events@.len(),
            nc@ == name@,
            forall|q: int| 0 <= q < i ==> !crate::text::contains_seq(#[trigger] events@[q]@, name@),
    {
        let ec = chars_of(events[i].as_str());
        if crate::text::chars_contains(&ec, &nc) {
            return true;
        }
    }
    false
}

/// The check that the last step reported an event named `name` (there must be a step).
pub fn expect_event_result(last: Option<&StepReport>, name: &str) -> (r: AssertionResult)
    ensures
        r.assert_type@ == "expect_event"@,
        r.path@ == name@,
        r.expected@ == name@,
        match last {
            None => !r.pass && r.actual@ == "no prior step"@,
            Some(step) => r.pass == mentions(step.events@, name@) && r.actual@ == if r.pass {
                name@
            } else {
                Seq::<char>::empty()
            },
        },
{
    match last {
        None => AssertionResult {
            assert_type: "expect_event".to_owned(),
            path: name.to_owned(),
            expected: name.to_owned(),
            actual: "no prior step".to_owned(),
            pass: false,
        },
        Some(step) => {
            let pass = any_mentions(&step.events, name);
            AssertionResult {
                assert_type: "expect_event".to_owned(),
                path: name.to_owned(),
                expected: name.to_owned(),
                actual: if pass {
                    name.to_owned()
                } else {
                    String::new()
                },
                pass,
            }
        },
    }
}

/// The check that the last step reported no event named `name` (it passes when there is no step).
pub fn expect_no_event_result(last: Option<&StepReport>, name: &str) -> (r: AssertionResult)
    ensures
        r.assert_type@ == "expect_no_event"@,
        r.path@ == name@,
        r.expected@ == "no "@ + name@,
        match last {
            None => r.pass && r.actual@ == "no prior step"@,
            Some(step) => r.pass == !mentions(step.events@, name@) && r.actual@ == if r.pass {
                Seq::<char>::empty()
            } else {
                name@
            },
        },
{
    let mut expected = String::new();
    expected.append("no ");
    expected.append(name);
    match last {
        None => AssertionResult {
            assert_type: "expect_no_event".to_owned(),
            path: name.to_owned(),
            expected,
            actual: "no prior step".to_owned(),
            pass: true,
        },
        Some(step) => {
            let found = any_mentions(&step.events, name);
            AssertionResult {
                assert_type: "expect_no_event".to_owned(),
                path: name.to_owned(),
                expected,
                actual: if found {
                    name.to_owned()
                } else {
                    String::new()
                },
                pass: !found,
            }
        },
    }
}

/// The comparison of a stat check: `<`, `>` or `==`; any other operator fails.
pub open spec fn compare_spec(l: u64, op: Seq<char>, r: u64) -> bool {
    if op == "<"@ {
        l < r
    } else if op == ">"@ {
        l > r
    } else if op == "=="@ {
        l == r
    } else {
        false
    }
}

/// `lhs op rhs`, as a stat check names it.
pub open spec fn stat_text(lhs: Seq<char>, op: Seq<char>, rhs: Seq<char>) -> Seq<char> {
    lhs + " "@ + op + " "@ + rhs
}

/// The check of a comparison between two token counts of the last step.
pub fn expect_stat_result(last: Option<&StepReport>, lhs: &str, op: &str, rhs: &str) -> (r:
    AssertionResult)
    ensures
        r.assert_type@ == "expect_stat"@,
        r.path@ == stat_text(lhs@, op@, rhs@),
        r.expected@ == stat_text(lhs@, op@, rhs@),
        match last {
            None => !r.pass && r.actual@ == "no prior step"@,
            Some(step) => match (
                resolve_field_spec(step.token_summary, lhs@),
                resolve_field_spec(step.token_summary, rhs@),
            ) {
                (Some(l), Some(v)) => r.pass == compare_spec(l, op@, v) && r.actual@ == decimal(
                    l as nat,
                ) + " "@ + op@ + " "@ + decimal(v as nat),
                _ => !r.pass && r.actual@ == "unknown field(s): "@ + lhs@ + ", "@ + rhs@,
            },
        },
{
    let mut text = String::new();
    text.append(lhs);
    text.append(" ");
    text.append(op);
    text.append(" ");
    text.append(rhs);
    let (pass, actual) = match last {
        None => (false, "no prior step".to_owned()),
        Some(step) => {
            let l = step.token_summary.resolve_field(lhs);
            let v = step.token_summary.resolve_field(rhs);
            match (l, v) {
                (Some(l), Some(v)) => {
                    let pass = if crate::text::str_eq(op, "<") {
                        l < v
                    } else if crate::text::str_eq(op, ">") {
                        l > v
                    } else if crate::text::str_eq(op, "==") {
                        l == v
                    } else {
                        false
                    };
                    let mut a = String::new();
                    push_decimal_u64(&mut a, l);
                    a.append(" ");
                    a.append(op);
                    a.append(" ");
                    push_decimal_u64(&mut a, v);
                    (pass, a)
                },
                _ => {
                    let mut a = String::new();
                    a.append("unknown field(s): ");
                    a.append(lhs);
                    a.append(", ");
                    a.append(rhs);
                    (false, a)
                },
            }
        },
    };
    AssertionResult {
        assert_type: "expect_stat".to_owned(),
        path: text.clone(),
        expected: text,
        actual,
        pass,
    }
}

} // verus!
