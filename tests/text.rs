use growdb::text::{contains_chars, name_matches};

fn chars(s: &str) -> Vec<char> {
    s.chars().collect()
}

#[test]
fn contains_finds_runs() {
    assert!(contains_chars(&chars("gaylord og"), &chars("og")));
    assert!(contains_chars(&chars("abc"), &chars("")));
    assert!(contains_chars(&chars("abc"), &chars("abc")));
    assert!(!contains_chars(&chars("abc"), &chars("abcd")));
    assert!(!contains_chars(&chars("Gaylord OG"), &chars("og")));
    assert!(!contains_chars(&chars("aab"), &chars("ba")));
}

#[test]
fn names_match_in_lowercase() {
    assert!(name_matches("Gaylord OG", "og"));
    assert!(name_matches("gaylord og", "OG"));
    assert!(name_matches("ÉCLAIR", "éclair"));
    assert!(!name_matches("Wedding Cake", "og"));
}
