use noslop::watch::{should_rescan, Debounce, DEBOUNCE_MS};

fn paths(v: &[&str]) -> Vec<String> {
    v.iter().map(|p| p.to_string()).collect()
}

#[test]
fn only_source_changes_outside_skipped_dirs_rescan() {
    assert!(should_rescan(true, &paths(&["/repo/src/app.tsx"])));
    assert!(should_rescan(true, &paths(&["/repo/README.md", "/repo/pyproject.toml"])));
    assert!(!should_rescan(false, &paths(&["/repo/src/app.tsx"])));
    assert!(!should_rescan(true, &paths(&["/repo/node_modules/react/index.js"])));
    assert!(!should_rescan(true, &paths(&["/repo/.git/index", "/repo/target/debug/x.json"])));
    assert!(!should_rescan(true, &paths(&["/repo/.noslopcode/cache/facts.json"])));
    assert!(!should_rescan(true, &paths(&["/repo/notes.txt", "/repo/.ts"])));
    assert!(!should_rescan(true, &paths(&[])));
}

#[test]
fn a_burst_of_changes_rescans_once_after_the_quiet_period() {
    let mut d = Debounce::new(0);
    assert!(!d.step(false, 50));
    assert!(!d.step(true, 100));
    assert!(!d.step(true, 250));
    assert!(!d.step(false, 250 + DEBOUNCE_MS - 1));
    assert!(d.step(false, 250 + DEBOUNCE_MS));
    assert!(!d.pending);
    assert!(!d.step(false, 10_000));
}
