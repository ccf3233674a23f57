use git_commit_stats::commit::{build_commits, Commit};
use git_commit_stats::diff::{
    analyze_diff_output, analyze_diff_output_strict, build_show_args, ParseError,
};
use git_commit_stats::finder::{build_log_args, parse_commit_list};
use git_commit_stats::stats::aggregate;

#[test]
fn finder_parses_newline_separated_hashes() {
    let out = "aaa\nbbb\nccc\n";
    let hashes = parse_commit_list(out);
    assert_eq!(hashes, vec!["aaa", "bbb", "ccc"]);
    let no_trailing = parse_commit_list("aaa\nbbb");
    assert_eq!(no_trailing, vec!["aaa", "bbb"]);
    let blank_lines = parse_commit_list("\naaa\n\n\nbbb\n");
    assert_eq!(blank_lines, vec!["aaa", "bbb"]);
}

#[test]
fn finder_no_matches_gives_empty_and_zero_totals() {
    let hashes = parse_commit_list("");
    assert!(hashes.is_empty());
    let commits: Vec<Commit> = Vec::new();
    assert_eq!(aggregate(&commits), (0, 0, 0));
}

#[test]
fn finder_is_idempotent() {
    let out = "f00\nba4\n";
    assert_eq!(parse_commit_list(out), parse_commit_list(out));
}

#[test]
fn analyze_single_record() {
    assert_eq!(analyze_diff_output("5 2 file.txt"), (1, 5, 2));
}

#[test]
fn analyze_no_touched_files() {
    assert_eq!(analyze_diff_output(""), (0, 0, 0));
    assert_eq!(analyze_diff_output("\n\n"), (0, 0, 0));
}

#[test]
fn analyze_sums_records() {
    assert_eq!(analyze_diff_output("1 2 a\n3 4 b\n10 20 c"), (3, 14, 26));
}

#[test]
fn analyze_skips_short_records() {
    assert_eq!(analyze_diff_output("1 2\n3 4 c"), (1, 3, 4));
    assert_eq!(analyze_diff_output("justonefield"), (0, 0, 0));
}

#[test]
fn analyze_malformed_fields_count_zero() {
    assert_eq!(analyze_diff_output("- - image.png"), (1, 0, 0));
    assert_eq!(analyze_diff_output("abc 7 f"), (1, 0, 7));
    assert_eq!(analyze_diff_output("3x 7 f"), (1, 0, 7));
}

#[test]
fn analyze_out_of_range_field_counts_zero() {
    assert_eq!(
        analyze_diff_output("999999999999999999999999999999 1 f"),
        (1, 0, 1)
    );
}

#[test]
fn analyze_accepts_leading_zeros() {
    assert_eq!(analyze_diff_output("007 0 f"), (1, 7, 0));
}

#[test]
fn analyze_tab_separated_records() {
    assert_eq!(analyze_diff_output("5\t2\tsrc/lib.rs\n0\t3\tREADME.md"), (2, 5, 5));
}

#[test]
fn strict_mode_agrees_with_lenient_on_clean_input() {
    let reply = "5 2 file.txt\n1 0 other.rs";
    assert_eq!(analyze_diff_output_strict(reply), Ok((2, 6, 2)));
    assert_eq!(analyze_diff_output_strict(reply), Ok(analyze_diff_output(reply)));
    assert_eq!(analyze_diff_output_strict(""), Ok((0, 0, 0)));
}

#[test]
fn strict_mode_reports_first_malformed_record() {
    assert_eq!(
        analyze_diff_output_strict("- - image.png"),
        Err(ParseError { record: 0 })
    );
    assert_eq!(
        analyze_diff_output_strict("1 2 a\n- 0 b\nbad 9 c"),
        Err(ParseError { record: 1 })
    );
    // A short record is skipped, not malformed.
    assert_eq!(analyze_diff_output_strict("1 2\n3 4 c"), Ok((1, 3, 4)));
}

#[test]
fn aggregate_is_order_independent() {
    let a = Commit {
        commit_hash: "a".to_string(),
        files_changed: 1,
        added: 2,
        deleted: 3,
    };
    let b = Commit {
        commit_hash: "b".to_string(),
        files_changed: 4,
        added: 5,
        deleted: 6,
    };
    let c = Commit {
        commit_hash: "c".to_string(),
        files_changed: 7,
        added: 8,
        deleted: 9,
    };
    let forward = vec![a.clone(), b.clone(), c.clone()];
    let shuffled = vec![c, a, b];
    assert_eq!(aggregate(&forward), (12, 15, 18));
    assert_eq!(aggregate(&forward), aggregate(&shuffled));
}

#[test]
fn build_log_args_forms_query() {
    let with_merges = build_log_args("fix", false);
    assert_eq!(with_merges, vec!["log", "--grep=fix", "--pretty=format:%H"]);
    let without_merges = build_log_args("fix", true);
    assert_eq!(
        without_merges,
        vec!["log", "--grep=fix", "--pretty=format:%H", "--no-merges"]
    );
}

#[test]
fn build_show_args_forms_query() {
    let args = build_show_args("abc123");
    assert_eq!(args, vec!["show", "abc123", "--pretty=format:", "--numstat"]);
}

#[test]
fn end_to_end_readme_scenario() {
    // The engine's two replies for keyword "README" with merges excluded.
    let log_reply = "cd13ae5251d6aaf12e4497d6285a6aa1b507eb42\n";
    let show_reply = "99\t0\tREADME.md\n";

    let hashes = parse_commit_list(log_reply);
    let mut triples = Vec::new();
    for _ in &hashes {
        triples.push(analyze_diff_output(show_reply));
    }
    let commits = build_commits(&hashes, &triples);

    assert!(!commits.is_empty());
    let expected = Commit {
        commit_hash: "cd13ae5251d6aaf12e4497d6285a6aa1b507eb42".to_string(),
        files_changed: 1,
        added: 99,
        deleted: 0,
    };
    assert!(commits.contains(&expected));
}

#[test]
fn build_commits_pairs_hashes_with_triples() {
    let hashes = vec!["h1".to_string(), "h2".to_string()];
    let triples = vec![(1, 2, 3), (4, 5, 6)];
    let commits = build_commits(&hashes, &triples);
    assert_eq!(commits.len(), 2);
    assert_eq!(commits[0].commit_hash, "h1");
    assert_eq!(commits[0].files_changed, 1);
    assert_eq!(commits[0].added, 2);
    assert_eq!(commits[0].deleted, 3);
    assert_eq!(commits[1].commit_hash, "h2");
    assert_eq!(commits[1].deleted, 6);
}
