use radix_server::judge::{grade, job_source, judge_output, python_runner, report_line, strip_job_paths};
use radix_server::model::TestCase;

fn case(input: &str, output: &str) -> TestCase {
    TestCase { input: input.to_string(), output: output.to_string() }
}

#[test]
fn report_line_takes_last_non_empty_line() {
    let out = "debug\n[[RADIX TEST OUTPUT]] {\"runtime\": 3, \"program_output\": [3]}\n\n";
    assert_eq!(report_line(out), Some("{\"runtime\": 3, \"program_output\": [3]}".to_string()));
    assert_eq!(report_line("\n\n"), None);
    assert_eq!(report_line(""), None);
    assert_eq!(report_line("plain"), Some("plain".to_string()));
}

#[test]
fn test_code_success_judging() {
    let cases = vec![case("[1,2]", "3"), case("[5,7]", "12")];
    let out = "[[RADIX TEST OUTPUT]] {\"runtime\": 5, \"program_output\": [3, 12]}\n";
    let r = judge_output(out, "", &cases).expect("judged");
    assert!(r.failed_tests.is_empty());
    assert_eq!(r.okay_tests.len(), 2);
    assert_eq!(r.runtime, 5);
}

#[test]
fn wrong_answer_is_reported_with_got_and_expected() {
    let cases = vec![case("[1,2]", "3"), case("[5,7]", " 12 ")];
    let out = "[[RADIX TEST OUTPUT]] {\"runtime\": 1, \"program_output\": [4, 12]}";
    let r = judge_output(out, "", &cases).expect("judged");
    assert_eq!(r.okay_tests.len(), 1);
    assert_eq!(r.okay_tests[0].output, " 12 ");
    assert_eq!(r.failed_tests.len(), 1);
    assert_eq!(r.failed_tests[0].input, "[1,2]");
    assert_eq!(r.failed_tests[0].output, "4");
    assert_eq!(r.failed_tests[0].expected, "3");
}

#[test]
fn outputs_are_paired_up_to_the_shorter_list() {
    let cases = vec![case("[1]", "1"), case("[2]", "2")];
    let out = "[[RADIX TEST OUTPUT]] {\"runtime\": 1, \"program_output\": [1]}";
    let r = judge_output(out, "", &cases).expect("judged");
    assert_eq!(r.okay_tests.len(), 1);
    assert!(r.failed_tests.is_empty());
}

#[test]
fn judge_errors() {
    let cases = vec![case("[1]", "1")];
    assert_eq!(judge_output("", "", &cases).err(), Some("Program did not output anything.".to_string()));
    assert_eq!(judge_output("garbage", "", &cases).err(), Some("Program output could not be read.".to_string()));
    let bad = vec![case("[1]", "not json")];
    let out = "[[RADIX TEST OUTPUT]] {\"runtime\": 1, \"program_output\": [1]}";
    assert_eq!(judge_output(out, "", &bad).err(), Some("Test case output is not valid JSON.".to_string()));
    let err = "Traceback: File \"/piston/jobs/ab12-cd/main.py\", line 3";
    assert_eq!(judge_output(out, err, &cases).err(), Some("Traceback: File \"main.py\", line 3".to_string()));
}

#[test]
fn job_paths_are_stripped() {
    assert_eq!(strip_job_paths("/piston/jobs/x-1/a /piston/jobs/Y2/b"), "a b");
    assert_eq!(strip_job_paths("nothing here"), "nothing here");
}

#[test]
fn grade_compares_canonical_json() {
    let cases = vec![case("[1]", "[1, 2]"), case("[2]", " {\"a\" : 2} ")];
    let r = grade(vec!["[1,2]".to_string(), "{\"a\":2}".to_string()], &cases, 9).expect("graded");
    assert_eq!(r.okay_tests.len(), 2);
    assert_eq!(r.runtime, 9);
}

#[test]
fn runner_serialises_parsable_inputs() {
    let cases = vec![case("[1, 2]", "3"), case("oops", "0"), case("[ \"a\" ]", "1")];
    let src = python_runner(&cases);
    assert!(src.contains("json.loads(r\"\"\"[[1,2],[\"a\"]]\"\"\")"));
    assert!(src.contains("[[RADIX TEST OUTPUT]] "));
    let job = job_source("def solve(a, b):\n    return a + b", &cases);
    assert!(job.starts_with("def solve(a, b):\n    return a + b\n\nimport json"));
}
