use radix_server::model::{Code, Problem, PublicUser, TestCase, UserId};
use radix_server::sessions::session_to_evict;

fn problem_with(n: usize) -> Problem {
    Problem {
        id: "p".to_string(),
        title: "T".to_string(),
        author: PublicUser { id: UserId("author".to_string()), name: "A".to_string(), image: String::new() },
        description: String::new(),
        boilerplate_code: Code { python: String::new(), javascript: String::new() },
        test_cases: (0..n).map(|i| TestCase { input: format!("[{}]", i), output: i.to_string() }).collect(),
        difficulty: 0,
    }
}

#[test]
fn others_see_five_test_cases() {
    let mut p = problem_with(8);
    p.hide_tests_from(&UserId("someone".to_string()));
    assert_eq!(p.test_cases.len(), 5);
    assert_eq!(p.test_cases[4].output, "4");
}

#[test]
fn author_sees_every_test_case() {
    let mut p = problem_with(8);
    p.hide_tests_from(&UserId("author".to_string()));
    assert_eq!(p.test_cases.len(), 8);
    let mut q = problem_with(3);
    q.hide_tests_from(&UserId("someone".to_string()));
    assert_eq!(q.test_cases.len(), 3);
}

#[test]
fn at_most_seven_sessions_are_kept() {
    assert_eq!(session_to_evict(&vec![5, 1, 3, 4, 2, 6, 7]), None);
    assert_eq!(session_to_evict(&vec![5, 1, 3, 4, 2, 6, 7, 1]), Some(1));
    assert_eq!(session_to_evict(&vec![9, 9, 9, 9, 9, 9, 9, 0]), Some(7));
}
