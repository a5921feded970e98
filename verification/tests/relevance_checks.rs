use cinematic::relevance::{check_relevance, contains_substring};

fn chars(s: &str) -> Vec<char> {
    s.chars().collect()
}

#[test]
fn substring_search() {
    assert!(contains_substring(&chars("clearly yes indeed"), &chars("yes")));
    assert!(contains_substring(&chars("yes"), &chars("yes")));
    assert!(!contains_substring(&chars("no way"), &chars("yes")));
    assert!(!contains_substring(&chars("ye s"), &chars("yes")));
    assert!(!contains_substring(&chars("ye"), &chars("yes")));
    assert!(contains_substring(&chars("anything"), &chars("")));
}

#[test]
fn relevant_when_any_sample_doubts() {
    let samples = vec!["yes".to_string(), "yes".to_string(), "no".to_string()];
    assert!(check_relevance(&samples));
}

#[test]
fn irrelevant_when_all_samples_agree() {
    let samples = vec![
        "yes".to_string(),
        "yes, certainly".to_string(),
        "i would say yes".to_string(),
    ];
    assert!(!check_relevance(&samples));
}

#[test]
fn no_samples_judge_nothing_relevant() {
    assert!(!check_relevance(&Vec::new()));
}
