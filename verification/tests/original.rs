use launcher::branches::pick_default_branch;
use launcher::cargo::parse_executable;
use launcher::progress::git_download_pct;

fn fraction(seg: &str) -> Option<f32> {
    git_download_pct(seg).map(|p| p as f32 / 100.0)
}

#[test]
fn git_progress_parsing() {
    // real "Receiving objects" segment drives the bar
    assert_eq!(fraction("Receiving objects:  99% (1715/1720), 338 MiB"), Some(0.99));
    assert_eq!(fraction("Receiving objects: 100% (1720/1720), done."), Some(1.0));
    // other phases are ignored so the bar doesn't reset
    assert_eq!(fraction("remote: Counting objects:  50% (5/10)"), None);
    assert_eq!(fraction("Resolving deltas:  30% (30/100)"), None);
    assert_eq!(fraction("Cloning into 'repo'..."), None);
}

#[test]
fn executable_parsing() {
    // a bin artifact
    let line = r#"{"reason":"compiler-artifact","target":{"kind":["bin"]},"executable":"/home/u/repo/target/release/app"}"#;
    assert_eq!(parse_executable(line).as_deref(), Some("/home/u/repo/target/release/app"));
    // windows path with escaped backslashes
    let win = r#"{"executable":"C:\\repo\\target\\release\\app.exe"}"#;
    assert_eq!(parse_executable(win).as_deref(), Some(r"C:\repo\target\release\app.exe"));
    // library artifact -> no executable
    assert_eq!(parse_executable(r#"{"executable":null}"#), None);
    // unrelated line
    assert_eq!(parse_executable(r#"{"reason":"build-finished"}"#), None);
}

#[test]
fn default_branch_logic() {
    let branches = vec!["master".to_string(), "main".to_string(), "dev".to_string()];
    // saved exists
    assert_eq!(pick_default_branch(Some("dev"), &branches), "dev");
    // saved missing -> master
    assert_eq!(pick_default_branch(Some("gone"), &branches), "master");
    // no master -> main
    let no_master = vec!["main".to_string(), "dev".to_string()];
    assert_eq!(pick_default_branch(Some("gone"), &no_master), "main");
    // none of the above -> first branch
    let neither = vec!["dev".to_string(), "feature".to_string()];
    assert_eq!(pick_default_branch(Some("gone"), &neither), "dev");
}
