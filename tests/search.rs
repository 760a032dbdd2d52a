use tab_shell::file_search::{
    display_path_of, is_blank, match_target_of, refresh_due, search_files, stale_after, FileIndex,
};
use tab_shell::ranking::{top_ranked, Ranked, MAX_RESULTS};

fn strings(v: &[&str]) -> Vec<String> {
    v.iter().map(|s| s.to_string()).collect()
}

#[test]
fn blank_query_lists_first_paths() {
    let paths: Vec<String> = (0..25).map(|i| format!("/home/u/n{}.md", i)).collect();
    for q in ["", "   "] {
        let r = search_files(q, &paths, "/home/u");
        assert_eq!(r.len(), 20);
        for (j, hit) in r.iter().enumerate() {
            assert_eq!(hit.path, paths[j]);
            assert_eq!(hit.score, 0);
            assert_eq!(hit.display_path, format!("~/n{}.md", j));
        }
    }
    let few = strings(&["/x/a.md", "/home/u/b.md"]);
    let r = search_files("", &few, "/home/u");
    assert_eq!(r.len(), 2);
    assert_eq!(r[0].display_path, "/x/a.md");
    assert_eq!(r[1].display_path, "~/b.md");
}

#[test]
fn query_ranks_matching_document_first() {
    let paths = strings(&["/home/u/Documents/a.pdf", "/home/u/b.md"]);
    let r = search_files("a.pdf", &paths, "/home/u");
    assert!(!r.is_empty());
    assert_eq!(r[0].path, "/home/u/Documents/a.pdf");
    assert_eq!(r[0].display_path, "~/Documents/a.pdf");
    assert!(r[0].score > 0);
    if r.len() > 1 {
        assert!(r[0].score > r[1].score);
    }
}

#[test]
fn results_are_capped_and_sorted() {
    let paths: Vec<String> = (0..40)
        .map(|i| if i % 2 == 0 { format!("/home/u/notes/n{}.md", i) } else { format!("/home/u/nx{}otes.md", i) })
        .collect();
    let r = search_files("notes", &paths, "/home/u");
    assert!(r.len() <= MAX_RESULTS);
    assert_eq!(r.len(), 20);
    for w in r.windows(2) {
        assert!(w[0].score >= w[1].score);
    }
}

#[test]
fn non_matching_paths_are_dropped() {
    let paths = strings(&["/home/u/zzz.md", "/home/u/yyy.md"]);
    assert!(search_files("qqq", &paths, "/home/u").is_empty());
}

#[test]
fn ranking_is_stable_and_capped() {
    let mut scores: Vec<Option<u16>> = vec![Some(5), None, Some(9), Some(5), Some(1)];
    let top = top_ranked(&scores);
    assert_eq!(
        top,
        vec![
            Ranked { index: 2, score: 9 },
            Ranked { index: 0, score: 5 },
            Ranked { index: 3, score: 5 },
            Ranked { index: 4, score: 1 },
        ]
    );
    scores = (0..30).map(|i| Some((i % 3) as u16)).collect();
    let top = top_ranked(&scores);
    assert_eq!(top.len(), 20);
    assert!(top[..10].iter().all(|r| r.score == 2));
    assert_eq!(top[0].index, 2);
    assert_eq!(top[10], Ranked { index: 1, score: 1 });
    assert!(top_ranked(&vec![None, None]).is_empty());
}

#[test]
fn display_and_match_targets() {
    assert_eq!(display_path_of("/home/u/a.md", "/home/u"), "~/a.md");
    assert_eq!(display_path_of("/opt/a.md", "/home/u"), "/opt/a.md");
    assert_eq!(match_target_of("/home/u/a.md", "/home/u"), "/a.md");
    assert_eq!(match_target_of("/opt/a.md", "/home/u"), "/opt/a.md");
}

#[test]
fn staleness() {
    assert!(stale_after(30_000_000_001, 30));
    assert!(!stale_after(30_000_000_000, 30));
    assert!(stale_after(1_500_000_000, 1));
    assert!(!stale_after(0, 0));
    assert!(stale_after(1, 0));
    let mut index = FileIndex::new();
    assert!(index.is_empty());
    assert!(index.needs_refresh(1000));
    index.update(strings(&["/a.md", "/b.md"]));
    assert!(!index.is_empty());
    assert!(!index.is_stale(30));
    assert!(!index.needs_refresh(30));
    assert_eq!(index.get_paths(), strings(&["/a.md", "/b.md"]));
    index.update(strings(&["/c.md"]));
    assert_eq!(index.get_paths(), strings(&["/c.md"]));
}

#[test]
fn blank_queries() {
    assert!(is_blank(""));
    assert!(is_blank(" \t\n"));
    assert!(is_blank("\u{3000}\u{a0}\u{2028}"));
    assert!(!is_blank("\u{200b}"));
    assert!(!is_blank("  a  "));
}

#[test]
fn wide_space_query_lists_first_paths() {
    let paths = strings(&["/home/u/a.md", "/home/u/b.md"]);
    let r = search_files("\u{3000}", &paths, "/home/u");
    assert_eq!(r.len(), 2);
    assert!(r.iter().all(|h| h.score == 0));
}

#[test]
fn refresh_due_when_stale_or_empty() {
    assert!(refresh_due(30_000_000_001, 30, false));
    assert!(!refresh_due(30_000_000_000, 30, false));
    assert!(refresh_due(0, 30, true));
    assert!(!refresh_due(0, 0, false));
}

#[test]
fn index_search() {
    let mut index = FileIndex::new();
    index.update(strings(&["/home/u/Documents/a.pdf", "/home/u/b.md"]));
    let r = index.search("a.pdf", "/home/u").unwrap();
    assert_eq!(r[0].display_path, "~/Documents/a.pdf");
    let r = index.search("", "/home/u").unwrap();
    assert_eq!(r.len(), 2);
    assert_eq!(r[1].path, "/home/u/b.md");
}

#[test]
fn longest_query_is_scored_and_longer_is_refused() {
    let query = "a".repeat(2048);
    let paths = vec!["a".repeat(2049), "/home/u/b.md".to_string()];
    let r = search_files(&query, &paths, "/home/u");
    assert_eq!(r.len(), 1);
    assert_eq!(r[0].path, paths[0]);
    let mut index = FileIndex::new();
    index.update(paths.clone());
    assert!(index.search(&query, "/home/u").is_some());
    assert!(index.search(&"a".repeat(2049), "/home/u").is_none());
    assert_eq!(index.search(&" ".repeat(3000), "/home/u").unwrap().len(), 2);
}
