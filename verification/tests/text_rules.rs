use readypoll::condition::ReadyCondition;
use readypoll::text::{
    at_least_matching_lines, contains_any_bytes, contains_bytes, is_affirmative, is_blank,
};

#[test]
fn keyword_found_in_output() {
    assert!(contains_bytes(b"pod-1   1/1   Running   0   2m", b"Running"));
}

#[test]
fn keyword_absent_from_output() {
    assert!(!contains_bytes(b"pod-1   0/1   Pending   0   2m", b"Running"));
}

#[test]
fn empty_keyword_is_everywhere() {
    assert!(contains_bytes(b"", b""));
    assert!(contains_bytes(b"anything", b""));
}

#[test]
fn keyword_longer_than_output() {
    assert!(!contains_bytes(b"Run", b"Running"));
}

#[test]
fn keyword_at_start_and_end() {
    assert!(contains_bytes(b"Running pods", b"Running"));
    assert!(contains_bytes(b"pods Running", b"Running"));
    assert!(contains_bytes(b"Running", b"Running"));
}

#[test]
fn any_of_several_keywords() {
    let words = vec![b"Running".to_vec(), b"Completed".to_vec()];
    assert!(contains_any_bytes(b"job-1  Completed", &words));
    assert!(contains_any_bytes(b"pod-1  Running", &words));
    assert!(!contains_any_bytes(b"pod-1  Pending", &words));
    let none: Vec<Vec<u8>> = Vec::new();
    assert!(!contains_any_bytes(b"pod-1  Running", &none));
}

#[test]
fn three_ready_nodes_meet_threshold() {
    let nodes = b"node-a   Ready    control-plane   5m\n\
                  node-b   Ready    worker          4m\n\
                  node-c   Ready    worker          4m";
    let words = vec![b"Ready".to_vec()];
    assert!(at_least_matching_lines(nodes, &words, 3));
    assert!(!at_least_matching_lines(nodes, &words, 4));
}

#[test]
fn not_ready_nodes_do_not_count() {
    let nodes = b"node-a   Ready      control-plane   5m\n\
                  node-b   NotReady   worker          4m\n\
                  node-c   Ready      worker          4m";
    // "NotReady" contains "Ready" as a substring, so that line counts too.
    let words = vec![b" Ready ".to_vec()];
    assert!(at_least_matching_lines(nodes, &words, 2));
    assert!(!at_least_matching_lines(nodes, &words, 3));
}

#[test]
fn five_pods_running_or_completed() {
    let pods = b"argocd-server         1/1  Running\n\
                 argocd-repo-server    1/1  Running\n\
                 argocd-controller     1/1  Running\n\
                 argocd-dex            1/1  Running\n\
                 argocd-redis-init     0/1  Completed\n\
                 argocd-notifications  0/1  Pending";
    let words = vec![b"Running".to_vec(), b"Completed".to_vec()];
    assert!(at_least_matching_lines(pods, &words, 5));
    assert!(!at_least_matching_lines(pods, &words, 6));
}

#[test]
fn zero_threshold_always_met() {
    let words = vec![b"Ready".to_vec()];
    assert!(at_least_matching_lines(b"", &words, 0));
    assert!(at_least_matching_lines(b"nothing here", &words, 0));
}

#[test]
fn empty_output_has_one_empty_line() {
    // Splitting an empty buffer yields a single empty line, which matches
    // only an empty keyword.
    let words = vec![b"Ready".to_vec()];
    assert!(!at_least_matching_lines(b"", &words, 1));
    let empty_word = vec![b"".to_vec()];
    assert!(at_least_matching_lines(b"", &empty_word, 1));
}

#[test]
fn trailing_newline_adds_a_line() {
    // "a\n" splits into ["a", ""], as the standard splitter does.
    let words = vec![b"a".to_vec()];
    assert!(at_least_matching_lines(b"a\na\n", &words, 2));
    assert!(!at_least_matching_lines(b"a\na\n", &words, 3));
}

#[test]
fn blank_output_detection() {
    assert!(is_blank(b""));
    assert!(is_blank(b" \t\r\n  "));
    assert!(!is_blank(b"  x  "));
    assert!(!is_blank(b"pod-1 CrashLoopBackOff"));
}

#[test]
fn affirmative_answers() {
    assert!(is_affirmative(b"y"));
    assert!(is_affirmative(b"Y"));
    assert!(is_affirmative(b"y\n"));
    assert!(is_affirmative(b"  Y  \r\n"));
}

#[test]
fn non_affirmative_answers() {
    assert!(!is_affirmative(b""));
    assert!(!is_affirmative(b"\n"));
    assert!(!is_affirmative(b"n\n"));
    assert!(!is_affirmative(b"yes\n"));
    assert!(!is_affirmative(b"y y\n"));
}

#[test]
fn condition_output_contains() {
    let c = ReadyCondition::OutputContains(b"Running".to_vec());
    assert!(c.eval(b"pod Running now"));
    assert!(!c.eval(b"pod Pending now"));
}

#[test]
fn condition_min_matching_lines() {
    let c = ReadyCondition::MinMatchingLines {
        words: vec![b"Running".to_vec(), b"Completed".to_vec()],
        threshold: 2,
    };
    assert!(c.eval(b"a Running\nb Completed\nc Pending"));
    assert!(!c.eval(b"a Running\nb Pending\nc Pending"));
}

#[test]
fn condition_output_blank() {
    let c = ReadyCondition::OutputBlank;
    assert!(c.eval(b"\n"));
    assert!(!c.eval(b"pod-1 Pending\n"));
}
