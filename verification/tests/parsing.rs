use gwt::commands::{extract_repo_name, stale_sections, workspace_name};
use gwt::error::GwtError;
use gwt::git::parse_tracked_branches;
use gwt::worktree::{Worktree, Worktrees};

fn strings(v: &[&str]) -> Vec<String> {
    v.iter().map(|s| s.to_string()).collect()
}

#[test]
fn extract_repo_name_returns_name_for_valid_url() {
    for url in ["https://github.com/user/repo-name.git", "git@github.com:user/repo-name.git"] {
        assert_eq!(extract_repo_name(url).unwrap(), "repo-name");
    }
}

#[test]
fn extract_repo_name_fails_for_invalid_url() {
    for url in ["https://github.com/user/repo-name", "git@github.com:user/repo-name", "not-a-url"] {
        let err = extract_repo_name(url).unwrap_err();
        assert!(matches!(err, GwtError::InvalidRepoUrl));
        assert_eq!(err.message(), "Invalid repo URL");
    }
}

#[test]
fn extract_repo_name_takes_the_last_segment() {
    assert_eq!(extract_repo_name("file:///tmp/x/test-repo.git").unwrap(), "test-repo");
    assert_eq!(extract_repo_name("a/.git").unwrap(), "");
    assert!(extract_repo_name("repo.git").is_err());
    assert!(extract_repo_name("a.git/b").is_err());
}

#[test]
fn workspace_name_defaults_to_repo_workspace() {
    assert_eq!(workspace_name("file:///tmp/x/test-repo.git", None).unwrap(), "test-repo-workspace");
    assert_eq!(
        workspace_name("file:///tmp/x/test-repo.git", Some("my-custom-workspace")).unwrap(),
        "my-custom-workspace"
    );
    assert_eq!(workspace_name("not-a-url", Some("given")).unwrap(), "given");
    assert!(matches!(workspace_name("not-a-url", None), Err(GwtError::InvalidRepoUrl)));
}

#[test]
fn worktree_block_with_branch() {
    let w = Worktree::from_str("worktree /ws/feat\nHEAD 0123abcd\nbranch refs/heads/feat").unwrap();
    assert_eq!(w.path(), &b"/ws/feat".to_vec());
    assert_eq!(w.head(), Some("0123abcd"));
    assert_eq!(w.branch(), Some("feat"));
    assert!(!w.is_bare());
}

#[test]
fn worktree_block_bare_and_detached() {
    let w = Worktree::from_str("worktree /ws/.bare\nbare").unwrap();
    assert!(w.is_bare());
    assert_eq!(w.branch(), None);
    assert_eq!(w.head(), None);
    let d = Worktree::from_str("worktree /ws/x\r\nHEAD abc\r\ndetached\r\n").unwrap();
    assert_eq!(d.path(), &b"/ws/x".to_vec());
    assert_eq!(d.head(), Some("abc"));
    assert_eq!(d.branch(), None);
}

#[test]
fn worktree_branch_outside_refs_heads_and_last_line_wins() {
    let w = Worktree::from_str("worktree /a\nbranch main\nbranch refs/heads/dev").unwrap();
    assert_eq!(w.branch(), Some("dev"));
    let r = Worktree::from_str("worktree /a\nbranch refs/remotes/x").unwrap();
    assert_eq!(r.branch(), Some("refs/remotes/x"));
}

#[test]
fn worktree_block_errors() {
    assert!(Worktree::from_str("").is_err());
    assert!(Worktree::from_str("HEAD abc\nworktree /a").is_err());
    assert!(Worktree::from_str("worktree").is_err());
    assert!(Worktree::from_str("worktree ").is_ok());
}

const LISTING: &str = "worktree /ws/.bare\nbare\n\nworktree /ws/main\nHEAD 1111\nbranch refs/heads/main\n\nworktree /ws/feat\nHEAD 2222\nbranch refs/heads/feat\n\nworktree /ws/again\nHEAD 3333\nbranch refs/heads/main\n\n";

#[test]
fn worktrees_listing() {
    let ws = Worktrees::from_str(LISTING).unwrap();
    assert_eq!(ws.len(), 4);
    assert!(ws.get(0).is_bare());
    assert_eq!(ws.get(1).branch(), Some("main"));
    assert_eq!(ws.get(2).path(), &b"/ws/feat".to_vec());
    let mut b = ws.branches();
    b.sort();
    assert_eq!(b, strings(&["feat", "main"]));
}

#[test]
fn worktrees_listing_empty_and_blank() {
    assert_eq!(Worktrees::from_str("").unwrap().len(), 0);
    assert_eq!(Worktrees::from_str("\n\n  \n\n").unwrap().len(), 0);
    assert!(Worktrees::from_str("worktree /a\n\nnot a block").is_err());
}

#[test]
fn tracked_branches_from_config_output() {
    let mut b = parse_tracked_branches(
        "branch.main.merge refs/heads/main\nbranch.feature.merge refs/heads/feature\nbranch.main.merge refs/heads/other\n",
    );
    b.sort();
    assert_eq!(b, strings(&["feature", "main"]));
    assert_eq!(parse_tracked_branches(""), Vec::<String>::new());
    assert_eq!(parse_tracked_branches("no dots here\n"), Vec::<String>::new());
    assert_eq!(parse_tracked_branches("branch.feat.x.merge y"), strings(&["feat.x"]));
    assert_eq!(parse_tracked_branches("branch.v1.2.merge refs/heads/v1.2\n"), strings(&["v1.2"]));
    assert_eq!(parse_tracked_branches("branch..merge y"), strings(&[""]));
    assert_eq!(parse_tracked_branches("branch.merge y"), strings(&["merge y"]));
    assert_eq!(parse_tracked_branches("branch.x.remote origin"), strings(&["x"]));
    assert_eq!(parse_tracked_branches("branch.autosetupmerge always\n"), strings(&["autosetupmerge always"]));
    assert_eq!(parse_tracked_branches("branch.lonely.merge"), strings(&["lonely"]));
}

#[test]
fn stale_sections_skip_checked_out_branches() {
    let s = stale_sections(&strings(&["main", "feature", "old"]), &strings(&["main"]));
    assert_eq!(s, strings(&["branch.feature", "branch.old"]));
    assert_eq!(stale_sections(&strings(&["main"]), &strings(&["main"])), Vec::<String>::new());
    assert_eq!(stale_sections(&vec![], &strings(&["main"])), Vec::<String>::new());
}

#[test]
fn worktree_unknown_lines_are_ignored() {
    let plain = Worktree::from_str("worktree /ws/b\nHEAD 42\nbranch refs/heads/b").unwrap();
    let noisy = Worktree::from_str(
        "worktree /ws/b\nlocked\nHEAD 42\nprunable gitdir file points to non-existent location\nbranch refs/heads/b\ndetached",
    )
    .unwrap();
    assert_eq!(plain.path(), noisy.path());
    assert_eq!(plain.head(), noisy.head());
    assert_eq!(plain.branch(), noisy.branch());
    assert_eq!(plain.is_bare(), noisy.is_bare());
    assert!(Worktree::from_str("HEAD 1\nlocked").is_err());
}

#[test]
fn worktree_listings_join_on_a_blank_line() {
    let a = "worktree /ws/.bare\nbare\n";
    let b = "\nworktree /ws/main\nHEAD 1\nbranch refs/heads/main";
    let joined = format!("{a}\n\n{b}");
    let wa = Worktrees::from_str(a).unwrap();
    let wb = Worktrees::from_str(b).unwrap();
    let ws = Worktrees::from_str(&joined).unwrap();
    assert_eq!(ws.len(), wa.len() + wb.len());
    assert!(ws.get(0).is_bare());
    assert_eq!(ws.get(1).branch(), wb.get(0).branch());
    assert_eq!(ws.get(1).path(), wb.get(0).path());
    assert!(Worktrees::from_str(&format!("{a}\n\nnot a block")).is_err());
    assert!(Worktrees::from_str("not a block").is_err());
}
