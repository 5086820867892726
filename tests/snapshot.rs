use cargo_lts::snapshot::{SnapshotError, Snapshotter, Step};

/// A step as text: the git directory (or `rm` for a removal) and the arguments.
fn describe(s: &Step) -> (String, Vec<String>) {
    match s {
        Step::Git { git_dir, args } => (git_dir.clone().unwrap_or_default(), args.clone()),
        Step::ClearDir { path } => ("rm".to_string(), vec![path.clone()]),
    }
}

/// Runs the protocol against canned answers; returns every step taken.
fn run<F: Fn(&[String]) -> (bool, String)>(s: &mut Snapshotter, answer: F) -> Vec<(String, Vec<String>)> {
    let mut seen = Vec::new();
    while let Some(step) = s.next_step() {
        let d = describe(&step);
        let (ok, out) = answer(&d.1);
        seen.push(d);
        s.advance(ok, &out);
        assert!(seen.len() < 50);
    }
    assert!(s.is_finished());
    seen
}

fn strs(v: &[&str]) -> Vec<String> {
    v.iter().map(|s| s.to_string()).collect()
}

/// A fake repository with two commits, dated 2016-01-01 and 2016-06-01, and no baseline.
fn fake_repo(args: &[String], synthetic: &str) -> (bool, String) {
    match args[0].as_str() {
        "rev-parse" => (false, String::new()),
        "log" => {
            let until = args.last().unwrap();
            if until.as_str() >= "2016-06-01" {
                (true, "c2016june\n".to_string())
            } else if until.as_str() >= "2016-01-01" {
                (true, "c2016jan\n".to_string())
            } else {
                (true, String::new())
            }
        }
        "commit-tree" => (true, format!("{}\n", synthetic)),
        _ => (true, String::new()),
    }
}

#[test]
fn cutoff_between_commits_selects_the_earlier() {
    let mut s = Snapshotter::new("/src/.git".into(), "/w/.cargo".into(), "2016-03-01".into(), false);
    let steps = run(&mut s, |a| fake_repo(a, "syn1"));
    assert_eq!(steps[0], ("/src/.git".to_string(), strs(&["rev-parse", "snapshot-2018-09-26", "--"])));
    assert_eq!(
        steps[1],
        (
            "/src/.git".to_string(),
            strs(&["fetch", "https://github.com/rust-lang/crates.io-index", "snapshot-2018-09-26:snapshot-2018-09-26"])
        )
    );
    assert_eq!(steps[2].1, strs(&["log", "--all", "-1", "--format=%H", "--until", "2016-03-01"]));
    assert_eq!(steps[3].1, strs(&["commit-tree", "c2016jan^{tree}", "-m", "Registry at 2016-03-01"]));
    assert_eq!(steps[4].1, strs(&["branch", "lts-repo-at-c2016jan", "syn1"]));
    assert_eq!(steps[5], ("rm".to_string(), strs(&["/w/.cargo/lts-repo-at-c2016jan"])));
    assert_eq!(
        steps[6],
        (
            String::new(),
            strs(&["clone", "--single-branch", "--bare", "--branch", "lts-repo-at-c2016jan", "/src/.git", "/w/.cargo/lts-repo-at-c2016jan"])
        )
    );
    assert_eq!(steps[7], ("/w/.cargo/lts-repo-at-c2016jan".to_string(), strs(&["update-ref", "HEAD", "syn1"])));
    assert_eq!(steps[8], ("/w/.cargo/lts-repo-at-c2016jan".to_string(), strs(&["branch", "master", "syn1"])));
    assert_eq!(steps.len(), 9);
    let snap = s.snapshot().unwrap();
    assert_eq!(snap.cutoff_commit, "c2016jan");
    assert_eq!(snap.synthetic_commit, "syn1");
    assert_eq!(snap.fork_name, "lts-repo-at-c2016jan");
    assert_eq!(snap.fork_repo, "/w/.cargo/lts-repo-at-c2016jan");
    assert_eq!(snap.source_repo, "/src/.git");
    assert!(s.error().is_none());
}

#[test]
fn same_cutoff_twice_gives_the_same_tree() {
    let mut a = Snapshotter::new("/src".into(), "/w".into(), "2016-03-01".into(), false);
    let mut b = Snapshotter::new("/src".into(), "/w".into(), "2016-03-01".into(), false);
    let sa = run(&mut a, |x| fake_repo(x, "first"));
    let sb = run(&mut b, |x| fake_repo(x, "second"));
    assert_eq!(sa[3], sb[3]);
    assert_eq!(sa[5], sb[5]);
    assert_eq!(sa[6], sb[6]);
    let (pa, pb) = (a.snapshot().unwrap(), b.snapshot().unwrap());
    assert_eq!(pa.fork_repo, pb.fork_repo);
    assert_eq!(pa.cutoff_commit, pb.cutoff_commit);
    assert_ne!(pa.synthetic_commit, pb.synthetic_commit);
}

#[test]
fn present_baseline_is_not_fetched() {
    let mut s = Snapshotter::new("/src".into(), "/w".into(), "2017-01-01".into(), false);
    let steps = run(&mut s, |x| match x[0].as_str() {
        "log" => (true, "abc\n".to_string()),
        "commit-tree" => (true, "def".to_string()),
        _ => (true, String::new()),
    });
    assert_eq!(steps[1].1[0], "log");
    assert!(steps.iter().all(|st| st.1[0] != "fetch"));
}

#[test]
fn prefetch_only_stops_after_baseline() {
    let mut s = Snapshotter::new("/src".into(), "/w".into(), String::new(), true);
    let steps = run(&mut s, |x| (x[0] != "rev-parse", String::new()));
    assert_eq!(steps.len(), 2);
    assert_eq!(steps[1].1[0], "fetch");
    assert!(s.snapshot().is_none());
    assert!(s.error().is_none());
}

#[test]
fn existing_branch_falls_back_to_update_ref() {
    let mut s = Snapshotter::new("/src".into(), "/w".into(), "2016-03-01".into(), false);
    let steps = run(&mut s, |x| match x[0].as_str() {
        "branch" if x[1] != "master" => (false, String::new()),
        _ => fake_repo(x, "syn"),
    });
    assert_eq!(steps[5].1, strs(&["update-ref", "refs/heads/lts-repo-at-c2016jan", "syn"]));
    assert!(s.snapshot().is_some());
}

#[test]
fn cutoff_before_history_fails() {
    let mut s = Snapshotter::new("/src".into(), "/w".into(), "2015-01-01".into(), false);
    run(&mut s, |x| fake_repo(x, "syn"));
    assert_eq!(s.error(), Some(SnapshotError::NoCommitBeforeCutoff));
    assert!(s.snapshot().is_none());
}

#[test]
fn failed_command_aborts() {
    let mut s = Snapshotter::new("/src".into(), "/w".into(), "2016-03-01".into(), false);
    let steps = run(&mut s, |x| match x[0].as_str() {
        "clone" => (false, String::new()),
        _ => fake_repo(x, "syn"),
    });
    assert_eq!(steps.last().unwrap().1[0], "clone");
    assert_eq!(s.error(), Some(SnapshotError::SubprocessFailure));
    let mut f = Snapshotter::new("/src".into(), "/w".into(), "2016-03-01".into(), false);
    run(&mut f, |_| (false, String::new()));
    assert_eq!(f.error(), Some(SnapshotError::SubprocessFailure));
}
