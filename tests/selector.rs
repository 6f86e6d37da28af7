use prpick::artifact::artifact_file_name;
use prpick::query::search_query;
use prpick::rank::rank;
use prpick::record::{PrStatus, PullRequest};
use prpick::selector::{
    empty_report, protocol_line, resolve_selection, selected_key, selection_outcome, selector_lines,
};

const NOW: i64 = 1_700_000_000;

fn pr(number: u64, repo: &str, status: PrStatus, updated_at: i64) -> PullRequest {
    PullRequest {
        number,
        title: format!("Title {}", number),
        html_url: format!("https://github.com/{}/pull/{}", repo, number),
        body: Some(format!("Body {}", number)),
        created_at: 0,
        updated_at,
        repository_name: repo.to_string(),
        status,
    }
}

fn paths_of(prs: &[PullRequest]) -> Vec<String> {
    prs.iter()
        .map(|p| format!("/tmp/work/{}", artifact_file_name(&p.repository_name, p.number)))
        .collect()
}

#[test]
fn line_fields_in_order() {
    assert_eq!(
        protocol_line("/tmp/a.md", "1 day ago", "OPEN", "Add thing", None),
        "/tmp/a.md\t1 day ago\tOPEN\tAdd thing"
    );
    assert_eq!(
        protocol_line("/tmp/a.md", "1 day ago", "OPEN", "Add thing", Some("x/y")),
        "/tmp/a.md\t1 day ago\tOPEN\tAdd thing\tx/y"
    );
}

#[test]
fn separators_in_fields_become_spaces() {
    assert_eq!(
        protocol_line("/tmp/a.md", "2 hours ago", "DRAFT", "tab\there\nand\rthere", None),
        "/tmp/a.md\t2 hours ago\tDRAFT\ttab here and there"
    );
}

#[test]
fn key_is_first_field() {
    assert_eq!(selected_key("/tmp/a.md\t1 day ago\tOPEN\tx\n"), "/tmp/a.md");
    assert_eq!(selected_key("/tmp/a.md\n"), "/tmp/a.md");
    assert_eq!(selected_key(""), "");
}

#[test]
fn every_line_resolves_to_its_record() {
    let prs = vec![
        pr(5, "a/b", PrStatus::Open, NOW - 10),
        pr(5, "a_b/c", PrStatus::Merged, NOW - 20),
        pr(5, "a/b_c", PrStatus::Closed, NOW - 30),
        pr(6, "a/b", PrStatus::Draft, NOW - 40),
    ];
    let paths = paths_of(&prs);
    let lines = selector_lines(&prs, &paths, NOW, true);
    for (i, line) in lines.iter().enumerate() {
        let echoed = format!("{}\n", line);
        assert_eq!(resolve_selection(&paths, &echoed), Some(i));
    }
}

#[test]
fn unknown_or_ambiguous_selection_is_none() {
    let paths = vec!["/tmp/a".to_string(), "/tmp/b".to_string(), "/tmp/b".to_string()];
    assert_eq!(resolve_selection(&paths, "/tmp/c\tx"), None);
    assert_eq!(resolve_selection(&paths, "/tmp/b\tx"), None);
    assert_eq!(resolve_selection(&paths, "/tmp/a\tx"), Some(0));
    assert_eq!(resolve_selection(&paths, ""), None);
}

#[test]
fn two_records_end_to_end() {
    let mut prs = vec![
        pr(9, "x/y", PrStatus::Closed, NOW - 2 * 86400),
        pr(5, "x/y", PrStatus::Open, NOW - 600),
    ];
    assert_eq!(empty_report(&prs), None);
    rank(&mut prs);
    assert_eq!(prs[0].number, 5);
    assert_eq!(prs[1].number, 9);
    let paths = paths_of(&prs);
    let lines = selector_lines(&prs, &paths, NOW, false);
    assert_eq!(lines[0], "/tmp/work/5-x%2Fy.md\t10 minutes ago\tOPEN\tTitle 5");
    assert_eq!(lines[1], "/tmp/work/9-x%2Fy.md\t2 days ago\tCLOSED\tTitle 9");
    let chosen = format!("{}\n", lines[0]);
    assert_eq!(
        selection_outcome(&prs, &paths, Some(&chosen)),
        "Title: Title 5\nURL  : https://github.com/x/y/pull/5"
    );
    assert_eq!(selection_outcome(&prs, &paths, None), "No PR selected.");
    assert_eq!(selection_outcome(&prs, &paths, Some("")), "No PR selected.");
}

#[test]
fn zero_records_report_without_selection() {
    let prs: Vec<PullRequest> = Vec::new();
    assert_eq!(empty_report(&prs), Some("No pull requests found.".to_string()));
}

#[test]
fn repository_column_only_when_asked() {
    let prs = vec![pr(3, "o/r", PrStatus::Merged, NOW - 7200)];
    let paths = vec!["/p".to_string()];
    assert_eq!(selector_lines(&prs, &paths, NOW, true)[0], "/p\t2 hours ago\tMERGED\tTitle 3\to/r");
    assert_eq!(selector_lines(&prs, &paths, NOW, false)[0], "/p\t2 hours ago\tMERGED\tTitle 3");
}

#[test]
fn search_strings() {
    assert_eq!(search_query(Some(("owner", "repo")), "me"), "type:pr repo:owner/repo author:me");
    assert_eq!(search_query(None, "me"), "type:pr author:me");
}

#[test]
fn separators_in_repository_names_still_round_trip() {
    let prs = vec![
        pr(1, "a\tb/c", PrStatus::Open, NOW - 10),
        pr(1, "a b/c", PrStatus::Open, NOW - 20),
        pr(1, "a\nb/c", PrStatus::Open, NOW - 30),
    ];
    let paths = paths_of(&prs);
    let lines = selector_lines(&prs, &paths, NOW, true);
    for (i, line) in lines.iter().enumerate() {
        assert_eq!(resolve_selection(&paths, &format!("{}\n", line)), Some(i));
    }
}
