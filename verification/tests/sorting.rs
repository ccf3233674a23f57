use git_commit_stats::commit::Commit;
use git_commit_stats::sorter::sort_commits;
use git_commit_stats::stats::aggregate;

#[test]
fn commit_new_sets_fields() {
    let c = Commit::new("abc".to_string(), 3, 7, 9);
    assert_eq!(c.commit_hash, "abc");
    assert_eq!(c.files_changed, 3);
    assert_eq!(c.added, 7);
    assert_eq!(c.deleted, 9);
}

#[test]
fn test_sort_commits() {
    let commits = vec![
        Commit {
            commit_hash: "commit1".to_string(),
            files_changed: 2,
            added: 10,
            deleted: 5,
        },
        Commit {
            commit_hash: "commit2".to_string(),
            files_changed: 3,
            added: 50,
            deleted: 10,
        },
        Commit {
            commit_hash: "commit3".to_string(),
            files_changed: 1,
            added: 30,
            deleted: 2,
        },
    ];

    let sorted_commits = sort_commits(commits.clone());

    assert_eq!(sorted_commits[0].added, 50);
    assert_eq!(sorted_commits[1].added, 30);
    assert_eq!(sorted_commits[2].added, 10);
}

#[test]
fn sort_is_stable_on_ties() {
    let commits = vec![
        Commit {
            commit_hash: "a".to_string(),
            files_changed: 1,
            added: 5,
            deleted: 0,
        },
        Commit {
            commit_hash: "b".to_string(),
            files_changed: 1,
            added: 7,
            deleted: 1,
        },
        Commit {
            commit_hash: "c".to_string(),
            files_changed: 2,
            added: 5,
            deleted: 2,
        },
        Commit {
            commit_hash: "d".to_string(),
            files_changed: 3,
            added: 7,
            deleted: 3,
        },
    ];
    let sorted = sort_commits(commits);
    let hashes: Vec<&str> = sorted.iter().map(|c| c.commit_hash.as_str()).collect();
    assert_eq!(hashes, vec!["b", "d", "a", "c"]);
}

#[test]
fn sort_output_is_nonincreasing() {
    let commits = vec![
        Commit {
            commit_hash: "w".to_string(),
            files_changed: 0,
            added: 3,
            deleted: 9,
        },
        Commit {
            commit_hash: "x".to_string(),
            files_changed: 4,
            added: 11,
            deleted: 0,
        },
        Commit {
            commit_hash: "y".to_string(),
            files_changed: 1,
            added: 3,
            deleted: 1,
        },
        Commit {
            commit_hash: "z".to_string(),
            files_changed: 2,
            added: 0,
            deleted: 7,
        },
    ];
    let sorted = sort_commits(commits);
    for pair in sorted.windows(2) {
        assert!(pair[0].added >= pair[1].added);
    }
}

#[test]
fn sort_empty_and_single() {
    assert!(sort_commits(Vec::new()).is_empty());
    let one = vec![Commit {
        commit_hash: "only".to_string(),
        files_changed: 1,
        added: 4,
        deleted: 4,
    }];
    let sorted = sort_commits(one.clone());
    assert_eq!(sorted, one);
}

#[test]
fn sort_three_synthetic_commits_and_totals() {
    let commits = vec![
        Commit {
            commit_hash: "first".to_string(),
            files_changed: 9,
            added: 10,
            deleted: 4,
        },
        Commit {
            commit_hash: "second".to_string(),
            files_changed: 2,
            added: 50,
            deleted: 17,
        },
        Commit {
            commit_hash: "third".to_string(),
            files_changed: 5,
            added: 30,
            deleted: 1,
        },
    ];
    let sorted = sort_commits(commits);
    let added: Vec<usize> = sorted.iter().map(|c| c.added).collect();
    assert_eq!(added, vec![50, 30, 10]);
    let (_, total_added, _) = aggregate(&sorted);
    assert_eq!(total_added, 90);
}
