use prpick::artifact::artifact_file_name;

#[test]
fn slash_is_escaped() {
    assert_eq!(artifact_file_name("x/y", 5), "5-x%2Fy.md");
}

#[test]
fn percent_is_escaped() {
    assert_eq!(artifact_file_name("a%b/c", 7), "7-a%25b%2Fc.md");
}

#[test]
fn underscore_repositories_do_not_collide() {
    let a = artifact_file_name("a/b", 5);
    let b = artifact_file_name("a_b/c", 5);
    assert_ne!(a, b);
    assert_ne!(artifact_file_name("a/b_c", 5), artifact_file_name("a_b/c", 5));
}

#[test]
fn escaped_lookalikes_do_not_collide() {
    assert_ne!(artifact_file_name("a/b", 1), artifact_file_name("a%2Fb", 1));
    assert_ne!(artifact_file_name("x/y", 12), artifact_file_name("2-x/y", 1));
}

#[test]
fn number_distinguishes_same_repository() {
    assert_ne!(artifact_file_name("x/y", 1), artifact_file_name("x/y", 11));
    assert_eq!(artifact_file_name("x/y", 0), "0-x%2Fy.md");
}

#[test]
fn names_of_many_records_are_unique() {
    let repos = ["a/b", "a_b/c", "a/b_c", "a_b_c/d", "a%/b"];
    let mut names = Vec::new();
    for r in repos.iter() {
        for n in [1u64, 5, 15, 51] {
            names.push(artifact_file_name(r, n));
        }
    }
    let mut sorted = names.clone();
    sorted.sort();
    sorted.dedup();
    assert_eq!(sorted.len(), names.len());
}

#[test]
fn separators_are_escaped() {
    assert_eq!(artifact_file_name("a\tb/c\nd\re", 3), "3-a%09b%2Fc%0Ad%0De.md");
    assert!(!artifact_file_name("x\ty/z", 1).contains('\t'));
}
