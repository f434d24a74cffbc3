use vstd::prelude::*;
use vstd::string::StringExecFns;
use vstd::std_specs::iter::IteratorSpec;
use crate::model::TestCase;
use crate::protocol::{FailedTestCase, JudgingResults};

verus! {

/// The characters of `s`, in order.
pub fn chars_of(s: &str) -> (r: Vec<char>)
    ensures
        r@ == s@,
{
    broadcast use vstd::string::group_string_axioms;

    let mut it = s.chars();
    let mut r: Vec<char> = Vec::new();
    loop
        invariant
            r@ + IteratorSpec::remaining(&it) == s@,
            IteratorSpec::decrease(&it) is Some,
        ensures
            r@ == s@,
        decreases IteratorSpec::decrease(&it)->0,
    {
        match it.next() {
            Some(c) => {
                r.push(c);
            },
            None => {
                assert(r@ =~= s@);
                break;
            },
        }
    }
    r
}


/// Marks the harness's report line.
pub const REPORT_PREFIX: &'static str = "[[RADIX TEST OUTPUT]] ";

/// The sandbox's job directories, which error messages must not show.
pub const JOB_PATH_PATTERN: &'static str = "/piston/jobs/[a-zA-Z0-9-]+/";

/// Message of a run that printed nothing.
pub const NO_OUTPUT: &'static str = "Program did not output anything.";

/// Message of a run whose report is not the harness's JSON.
pub const UNREADABLE_OUTPUT: &'static str = "Program output could not be read.";

/// Message of a test case whose expected output is not JSON.
pub const BAD_EXPECTED_OUTPUT: &'static str = "Test case output is not valid JSON.";

/// Python code placed after the submitted code, up to the inputs.
pub const PYTHON_HEAD: &'static str = "import json\nimport time\n\nINPUTS = json.loads(r\"\"\"";

/// Python code placed after the inputs: runs `solve` on each argument list
/// and prints the report line.
pub const PYTHON_TAIL: &'static str = "\"\"\")\n\noutput = []\nstart = time.time()\nfor args in INPUTS:\n    output.append(solve(*args))\nruntime = int((time.time() - start) * 1000)\nprint(\"[[RADIX TEST OUTPUT]] \" + json.dumps({\"runtime\": runtime, \"program_output\": output}))\n";

/// What removing every match of `pattern` from `text` gives, or none when
/// `pattern` is not a valid expression.
pub uninterp spec fn regex_deleted(pattern: Seq<char>, text: Seq<char>) -> Option<Seq<char>>;

/// The compact JSON text of the value that `text` holds, or none when `text`
/// is not JSON.
pub uninterp spec fn json_canonical(text: Seq<char>) -> Option<Seq<char>>;

/// The runtime and the compact JSON text of each program output in the
/// report object `text`, or none when `text` is not such an object.
pub uninterp spec fn report_of(text: Seq<char>) -> Option<(u32, Seq<Seq<char>>)>;

/// Relies on regex::Regex::new and Regex::replace_all: every leftmost,
/// non-overlapping match of `pattern` in `text` is replaced by nothing.
#[verifier::external_body]
fn regex_delete_all(pattern: &str, text: &str) -> (r: Option<String>)
    ensures
        match r {
            Some(t) => regex_deleted(pattern@, text@) == Some(t@),
            None => regex_deleted(pattern@, text@) is None,
        },
{
    match regex::Regex::new(pattern) {
        Ok(re) => Some(re.replace_all(text, "").into_owned()),
        Err(_) => None,
    }
}

/// Relies on serde_json::from_str into serde_json::Value and on the
/// value's compact `Display` text.
#[verifier::external_body]
fn canonical_json(text: &str) -> (r: Option<String>)
    ensures
        match r {
            Some(t) => json_canonical(text@) == Some(t@),
            None => json_canonical(text@) is None,
        },
{
    serde_json::from_str::<serde_json::Value>(text).ok().map(|v| v.to_string())
}

/// Relies on serde_json::from_str into serde_json::Value: the fields
/// `runtime` (an integer that fits `u32`) and `program_output` (an array,
/// each element given as its compact JSON text) are moved out of the object.
#[verifier::external_body]
fn parse_report(text: &str) -> (r: Option<(u32, Vec<String>)>)
    ensures
        match r {
            Some((runtime, outs)) => report_of(text@) == Some((runtime, outs@.map_values(|o: String| o@))),
            None => report_of(text@) is None,
        },
{
    let v = serde_json::from_str::<serde_json::Value>(text).ok()?;
    let runtime = u32::try_from(v.get("runtime")?.as_u64()?).ok()?;
    let outs = v.get("program_output")?.as_array()?;
    Some((runtime, outs.iter().map(|o| o.to_string()).collect()))
}

/// `[a, b)` is the last line of `s` that holds a character.
pub open spec fn is_last_line(s: Seq<char>, a: int, b: int) -> bool {
    &&& 0 <= a < b <= s.len()
    &&& (a == 0 || s[a - 1] == '\n')
    &&& forall|k: int| a <= k < b ==> s[k] != '\n'
    &&& forall|k: int| b <= k < s.len() ==> s[k] == '\n'
}

/// `line` without `p` in front, if it starts with `p`.
pub open spec fn without_prefix(line: Seq<char>, p: Seq<char>) -> Seq<char> {
    if p.len() <= line.len() && line.take(p.len() as int) == p {
        line.skip(p.len() as int)
    } else {
        line
    }
}

/// The report text of a run's standard output: its last non-empty line,
/// without the report prefix.
pub open spec fn report_text(s: Seq<char>) -> Option<Seq<char>> {
    if exists|a: int, b: int| is_last_line(s, a, b) {
        let (a, b) = choose|a: int, b: int| is_last_line(s, a, b);
        Some(without_prefix(s.subrange(a, b), REPORT_PREFIX@))
    } else {
        None
    }
}

proof fn lemma_last_line_unique(s: Seq<char>, a1: int, b1: int, a2: int, b2: int)
    requires
        is_last_line(s, a1, b1),
        is_last_line(s, a2, b2),
    ensures
        a1 == a2 && b1 == b2,
{
    if b1 < b2 {
        assert(s[b2 - 1] != '\n');
    } else if b2 < b1 {
        assert(s[b1 - 1] != '\n');
    }
    if a1 < a2 {
        assert(s[a2 - 1] != '\n');
    } else if a2 < a1 {
        assert(s[a1 - 1] != '\n');
    }
}

/// Whether `cs` holds the characters of `p` from position `at` on.
fn has_at(cs: &Vec<char>, at: usize, p: &Vec<char>) -> (r: bool)
    requires
        at <= cs@.len(),
    ensures
        r == (at + p@.len() <= cs@.len() && cs@.subrange(at as int, at + p@.len()) == p@),
{
    if p.len() > cs.len() - at {
        return false;
    }
    let mut k: usize = 0;
    while k < p.len()
        invariant
            at + p@.len() <= cs@.len(),
            cs@.len() == cs.len(),
            k <= p@.len(),
            forall|j: int| 0 <= j < k ==> cs@[at + j] == p@[j],
        decreases p.len() - k,
    {
        if cs[at + k] != p[k] {
            assert(cs@.subrange(at as int, at + p@.len())[k as int] != p@[k as int]);
            return false;
        }
        k = k + 1;
    }
    assert(cs@.subrange(at as int, at + p@.len()) =~= p@);
    true
}

/// The report text of `stdout`: its last non-empty line, without the report
/// prefix.
pub fn report_line(stdout: &str) -> (r: Option<String>)
    ensures
        match r {
            Some(t) => report_text(stdout@) == Some(t@),
            None => report_text(stdout@) is None,
        },
{
    let cs = chars_of(stdout);
    let mut b: usize = cs.len();
    while b > 0 && cs[b - 1] == '\n'
        invariant
            b <= cs@.len(),
            cs@ == stdout@,
            forall|k: int| b <= k < cs@.len() ==> cs@[k] == '\n',
        decreases b,
    {
        b = b - 1;
    }
    if b == 0 {
        proof {
            if exists|a: int, b: int| is_last_line(stdout@, a, b) {
                let (a, bb) = choose|a: int, b: int| is_last_line(stdout@, a, b);
                assert(stdout@[bb - 1] == '\n');
            }
        }
        return None;
    }
    let mut a: usize = b - 1;
    while a > 0 && cs[a - 1] != '\n'
        invariant
            a < b <= cs@.len(),
            cs@ == stdout@,
            cs@[b - 1] != '\n',
            forall|k: int| a <= k < b ==> cs@[k] != '\n',
        decreases a,
    {
        a = a - 1;
    }
    assert(is_last_line(stdout@, a as int, b as int));
    proof {
        let (a2, b2) = choose|x: int, y: int| is_last_line(stdout@, x, y);
        lemma_last_line_unique(stdout@, a as int, b as int, a2, b2);
    }
    let p = chars_of(REPORT_PREFIX);
    let ghost line = stdout@.subrange(a as int, b as int);
    let start = if has_at(&cs, a, &p) && a + p.len() <= b {
        proof {
            assert(line.take(p@.len() as int) =~= cs@.subrange(a as int, a + p@.len()));
            assert(line.skip(p@.len() as int) =~= stdout@.subrange(a + p@.len(), b as int));
        }
        a + p.len()
    } else {
        proof {
            if p@.len() <= line.len() && line.take(p@.len() as int) == p@ {
                assert(line.take(p@.len() as int) =~= cs@.subrange(a as int, a + p@.len()));
            }
        }
        a
    };
    Some(String::from_str(stdout.substring_char(start, b)))
}

/// Positions `i < n` whose program output is not what test case `i`
/// expects, in order.
pub open spec fn failing(outs: Seq<Seq<char>>, cases: Seq<TestCase>, n: nat) -> Seq<int>
    decreases n,
{
    if n == 0 {
        Seq::empty()
    } else {
        let i = n - 1;
        let rest = failing(outs, cases, (n - 1) as nat);
        if json_canonical(cases[i].output@) == Some(outs[i]) {
            rest
        } else {
            rest.push(i)
        }
    }
}

/// Test cases `i < n` whose program output is what they expect, in order.
pub open spec fn passing(outs: Seq<Seq<char>>, cases: Seq<TestCase>, n: nat) -> Seq<TestCase>
    decreases n,
{
    if n == 0 {
        Seq::empty()
    } else {
        let i = n - 1;
        let rest = passing(outs, cases, (n - 1) as nat);
        if json_canonical(cases[i].output@) == Some(outs[i]) {
            rest.push(cases[i])
        } else {
            rest
        }
    }
}

/// How many outputs are paired with test cases.
pub open spec fn paired(outs: Seq<Seq<char>>, cases: Seq<TestCase>) -> nat {
    if outs.len() <= cases.len() { outs.len() } else { cases.len() }
}

/// `res` is the grading of `outs` against `cases`, paired by position.
pub open spec fn graded(res: JudgingResults, outs: Seq<Seq<char>>, cases: Seq<TestCase>, runtime: u32) -> bool {
    let n = paired(outs, cases);
    let f = failing(outs, cases, n);
    &&& res.runtime == runtime
    &&& res.okay_tests@ == passing(outs, cases, n)
    &&& res.failed_tests@.len() == f.len()
    &&& forall|k: int| 0 <= k < f.len() ==> {
        let t = #[trigger] res.failed_tests@[k];
        &&& t.input == cases[f[k]].input
        &&& t.output@ == outs[f[k]]
        &&& t.expected == cases[f[k]].output
    }
}

/// Whether the expected output of each of the first `n` test cases is JSON.
pub open spec fn expected_parse(cases: Seq<TestCase>, n: nat) -> bool {
    forall|i: int| 0 <= i < n ==> (#[trigger] json_canonical(cases[i].output@)) is Some
}

/// Grades the program outputs `outs` against `cases`, pairing them by
/// position: an output passes when its JSON text is that of the expected
/// output.
pub fn grade(outs: Vec<String>, cases: &Vec<TestCase>, runtime: u32) -> (r: Result<JudgingResults, String>)
    ensures
        match r {
            Ok(res) => expected_parse(cases@, paired(outs@.map_values(|o: String| o@), cases@))
                && graded(res, outs@.map_values(|o: String| o@), cases@, runtime),
            Err(m) => !expected_parse(cases@, paired(outs@.map_values(|o: String| o@), cases@))
                && m@ == BAD_EXPECTED_OUTPUT@,
        },
{
    let ghost ov = outs@.map_values(|o: String| o@);
    let n: usize = if outs.len() <= cases.len() { outs.len() } else { cases.len() };
    let mut failed: Vec<FailedTestCase> = Vec::new();
    let mut okay: Vec<TestCase> = Vec::new();
    let mut i: usize = 0;
    while i < n
        invariant
            n == paired(ov, cases@),
            n <= outs@.len(),
            n <= cases@.len(),
            ov == outs@.map_values(|o: String| o@),
            i <= n,
            expected_parse(cases@, i as nat),
            okay@ == passing(ov, cases@, i as nat),
            failed@.len() == failing(ov, cases@, i as nat).len(),
            forall|k: int| 0 <= k < failed@.len() ==> {
                let t = #[trigger] failed@[k];
                let f = failing(ov, cases@, i as nat);
                &&& t.input == cases@[f[k]].input
                &&& t.output@ == ov[f[k]]
                &&& t.expected == cases@[f[k]].output
            },
        decreases n - i,
    {
        let expected = match canonical_json(cases[i].output.as_str()) {
            Some(e) => e,
            None => {
                return Err(String::from_str(BAD_EXPECTED_OUTPUT));
            },
        };
        if outs[i] == expected {
            okay.push(cases[i].clone());
        } else {
            failed.push(FailedTestCase {
                input: cases[i].input.clone(),
                output: outs[i].clone(),
                expected: cases[i].output.clone(),
            });
        }
        i = i + 1;
    }
    Ok(JudgingResults { failed_tests: failed, okay_tests: okay, runtime })
}


/// An error text with the sandbox's job directories taken out.
pub open spec fn stripped_error(e: Seq<char>) -> Seq<char> {
    match regex_deleted(JOB_PATH_PATTERN@, e) {
        Some(t) => t,
        None => e,
    }
}

/// Takes the sandbox's job directories out of an error text.
pub fn strip_job_paths(stderr: &str) -> (r: String)
    ensures
        r@ == stripped_error(stderr@),
{
    match regex_delete_all(JOB_PATH_PATTERN, stderr) {
        Some(t) => t,
        None => String::from_str(stderr),
    }
}

/// What judging a run with output `stdout` and error output `stderr`
/// against `cases` gives: an error when the program wrote to `stderr` or
/// left no readable report, else the grading of its report.
pub open spec fn outcome_ok(r: Result<JudgingResults, String>, stdout: Seq<char>, stderr: Seq<char>, cases: Seq<TestCase>) -> bool {
    if stderr.len() > 0 {
        r matches Err(m) && m@ == stripped_error(stderr)
    } else {
        match report_text(stdout) {
            None => r matches Err(m) && m@ == NO_OUTPUT@,
            Some(line) => match report_of(line) {
                None => r matches Err(m) && m@ == UNREADABLE_OUTPUT@,
                Some((runtime, outs)) => match r {
                    Ok(res) => expected_parse(cases, paired(outs, cases)) && graded(res, outs, cases, runtime),
                    Err(m) => !expected_parse(cases, paired(outs, cases)) && m@ == BAD_EXPECTED_OUTPUT@,
                },
            },
        }
    }
}

/// Turns what the sandbox printed for a run of the harness into the
/// judging of `cases`.
pub fn judge_output(stdout: &str, stderr: &str, cases: &Vec<TestCase>) -> (r: Result<JudgingResults, String>)
    ensures
        outcome_ok(r, stdout@, stderr@, cases@),
{
    if stderr.unicode_len() > 0 {
        return Err(strip_job_paths(stderr));
    }
    let line = match report_line(stdout) {
        Some(l) => l,
        None => {
            return Err(String::from_str(NO_OUTPUT));
        },
    };
    match parse_report(line.as_str()) {
        None => Err(String::from_str(UNREADABLE_OUTPUT)),
        Some((runtime, outs)) => grade(outs, cases, runtime),
    }
}

/// The inputs of `cases` that are JSON, each as its compact text, in order.
pub open spec fn parsed_inputs(cases: Seq<TestCase>) -> Seq<Seq<char>>
    decreases cases.len(),
{
    if cases.len() == 0 {
        Seq::empty()
    } else {
        let rest = parsed_inputs(cases.drop_last());
        match json_canonical(cases.last().input@) {
            Some(t) => rest.push(t),
            None => rest,
        }
    }
}

/// `items` separated by commas.
pub open spec fn join_commas(items: Seq<Seq<char>>) -> Seq<char>
    decreases items.len(),
{
    if items.len() == 0 {
        Seq::empty()
    } else if items.len() == 1 {
        items[0]
    } else {
        join_commas(items.drop_last()) + ","@ + items.last()
    }
}

/// The harness run after the submitted code: it reads the inputs as a JSON
/// array of argument arrays, calls `solve` on each and prints the report.
pub open spec fn runner_source(cases: Seq<TestCase>) -> Seq<char> {
    PYTHON_HEAD@ + "["@ + join_commas(parsed_inputs(cases)) + "]"@ + PYTHON_TAIL@
}

/// The harness for `cases`; inputs that are not JSON are left out.
pub fn python_runner(cases: &Vec<TestCase>) -> (r: String)
    ensures
        r@ == runner_source(cases@),
{
    let mut items = String::new();
    let mut count: usize = 0;
    let mut i: usize = 0;
    while i < cases.len()
        invariant
            i <= cases@.len(),
            count == parsed_inputs(cases@.take(i as int)).len(),
            count <= i,
            items@ == join_commas(parsed_inputs(cases@.take(i as int))),
        decreases cases.len() - i,
    {
        assert(cases@.take(i + 1).drop_last() =~= cases@.take(i as int));
        match canonical_json(cases[i].input.as_str()) {
            Some(t) => {
                if count > 0 {
                    items.append(",");
                }
                items.append(t.as_str());
                count = count + 1;
                proof {
                    let ps = parsed_inputs(cases@.take(i + 1));
                    assert(ps.drop_last() == parsed_inputs(cases@.take(i as int)));
                    if count == 1 {
                        assert(ps.drop_last().len() == 0);
                        assert(items@ =~= join_commas(ps));
                    }
                }
            },
            None => {},
        }
        i = i + 1;
    }
    assert(cases@.take(i as int) =~= cases@);
    let mut r = String::from_str(PYTHON_HEAD);
    r.append("[");
    r.append(items.as_str());
    r.append("]");
    r.append(PYTHON_TAIL);
    r
}

/// The program sent to the sandbox: the submitted code, a blank line, then
/// the harness for `cases`.
pub fn job_source(code: &str, cases: &Vec<TestCase>) -> (r: String)
    ensures
        r@ == code@ + "\n\n"@ + runner_source(cases@),
{
    let mut r = String::from_str(code);
    r.append("\n\n");
    let runner = python_runner(cases);
    r.append(runner.as_str());
    r
}

} // verus!
