use launcher::build_steps::{build_step, start_build_run, Build, BuildEvent};
use launcher::cargo::announces_compiling;
use launcher::branches::{parse_branches, pick_default_branch};
use launcher::cargo::{
    build_failed_message, cached_units, count_compiled, find_executable, parse_executable,
    save_build_units, total_units,
};
use launcher::commands::{
    branch_list_args, cargo_build_args, cargo_locate_args, checkout_args, fetch_args,
    update_progress_args,
};
use launcher::config::{config_text, load_config};
use launcher::headless::{run_last_config, start_last_config, Headless, HeadlessEvent};
use launcher::launcher::{App, Effect, Event, Screen};
use launcher::paths::{config_path, data_dir, log_path, repo_dir, units_path};
use launcher::progress::{git_download_pct, GitProgress};

fn strings(v: &[&str]) -> Vec<String> {
    v.iter().map(|s| s.to_string()).collect()
}

#[test]
fn branch_listing_skips_pointer_and_prefixes() {
    let out = "  origin/HEAD -> origin/master\n  origin/master\n* origin/dev\r\n  origin/feature/x\n\n  HEAD\n";
    assert_eq!(parse_branches(out), strings(&["master", "dev", "feature/x"]));
}

#[test]
fn branch_listing_strips_repeated_prefixes() {
    assert_eq!(parse_branches("**origin/origin/a\n origin/ \n"), strings(&["a"]));
    assert_eq!(parse_branches(""), Vec::<String>::new());
}

#[test]
fn default_branch_without_branches_is_empty() {
    assert_eq!(pick_default_branch(Some("dev"), &[]), "");
    assert_eq!(pick_default_branch(None, &strings(&["x", "main"])), "main");
}

#[test]
fn config_loading() {
    assert_eq!(load_config(Some("dev\nrelease\n")), (Some("dev".to_string()), true));
    assert_eq!(load_config(Some("  dev  \r\n release \r\n")), (Some("dev".to_string()), true));
    assert_eq!(load_config(Some("dev\ndebug\n")), (Some("dev".to_string()), false));
    assert_eq!(load_config(Some("dev")), (Some("dev".to_string()), false));
    assert_eq!(load_config(Some("   \nrelease\n")), (None, true));
    assert_eq!(load_config(Some("")), (None, false));
    assert_eq!(load_config(None), (None, false));
}

#[test]
fn config_round_trip() {
    assert_eq!(config_text("dev", true), "dev\nrelease\n");
    assert_eq!(config_text("main", false), "main\ndebug\n");
    for (b, r) in [("feature/a", true), (" spaced ", false), ("cr\r", true), ("", false)] {
        let text = config_text(b, r);
        let trimmed = b.trim();
        let expect = if trimmed.is_empty() { None } else { Some(trimmed.to_string()) };
        assert_eq!(load_config(Some(&text)), (expect, r));
    }
}

#[test]
fn download_percent_edges() {
    assert_eq!(git_download_pct("Receiving objects:  45% (1/2)"), Some(45));
    assert_eq!(git_download_pct("Receiving objects: 12345% x"), Some(100));
    assert_eq!(git_download_pct("Receiving objects: 99999999999999999999999% x"), Some(100));
    assert_eq!(git_download_pct("Receiving objects: % x"), None);
    assert_eq!(git_download_pct("Receiving objects: 7"), None);
    assert_eq!(git_download_pct("Receiving objects:007% x"), Some(7));
}

#[test]
fn progress_splitting() {
    let mut p = GitProgress::new();
    let mut seen = Vec::new();
    for b in "Cloning into 'repo'...\nReceiving objects:  10% (1/10)\rReceiving objects: 100% (10/10), done.\nResolving deltas: 50% (1/2)\n".bytes() {
        if let Some(pct) = p.feed(b) {
            seen.push(pct);
        }
    }
    assert_eq!(seen, vec![10, 100]);
    let mut q = GitProgress::new();
    for b in "\n fatal: repository not found \n\r".bytes() {
        q.feed(b);
    }
    assert_eq!(q.failure_message(), "fatal: repository not found");
}

#[test]
fn units_reading_and_saving() {
    assert_eq!(cached_units(Some(" 312\n")), Some(312));
    assert_eq!(cached_units(Some("+5")), Some(5));
    assert_eq!(cached_units(Some("0")), None);
    assert_eq!(cached_units(Some("abc")), None);
    assert_eq!(cached_units(Some("4294967296")), None);
    assert_eq!(cached_units(Some("4294967295")), Some(4294967295));
    assert_eq!(cached_units(None), None);
    assert_eq!(total_units(None), 280);
    assert_eq!(total_units(Some(17)), 17);
    assert_eq!(save_build_units(300, Some(280)), Some("300".to_string()));
    assert_eq!(save_build_units(5, Some(9)), Some("9".to_string()));
    assert_eq!(save_build_units(0, None), None);
    assert_eq!(save_build_units(10, None), Some("10".to_string()));
    let saved = save_build_units(4096, Some(12)).unwrap();
    assert_eq!(cached_units(Some(&saved)), Some(4096));
}

#[test]
fn executable_from_cargo_output() {
    let out = "{\"executable\":\"/a/first\"}\n{\"reason\":\"x\"}\n{\"executable\":\"/a/last\"}\n{\"reason\":\"build-finished\"}\n";
    assert_eq!(find_executable(out), Ok("/a/last".to_string()));
    assert_eq!(
        find_executable("{\"executable\":null}\n"),
        Err("cargo build produced no executable".to_string())
    );
    assert_eq!(parse_executable("\"executable\":\"a\\\\\\\\b\""), Some("a\\\\b".to_string()));
}

#[test]
fn compiled_counting() {
    assert_eq!(count_compiled(3, "   Compiling serde v1.0.0"), Some(4));
    assert_eq!(count_compiled(3, "    Finished dev"), None);
    assert_eq!(count_compiled(0, "Compiling"), None);
    assert_eq!(
        build_failed_message("exit status: 101", "/tmp/run.log"),
        "build failed (exit exit status: 101); see /tmp/run.log"
    );
}

#[test]
fn command_lines() {
    assert_eq!(update_progress_args("/r", true, false), None);
    assert_eq!(
        update_progress_args("/r", true, true),
        Some(strings(&["-C", "/r", "fetch", "--prune", "--progress"]))
    );
    assert_eq!(
        update_progress_args("/r", false, true),
        Some(strings(&["clone", "--progress", "https://github.com/Ritze03/ForzaTelemetryV3.git", "/r"]))
    );
    assert_eq!(branch_list_args("/r"), strings(&["-C", "/r", "branch", "-r"]));
    assert_eq!(fetch_args("/r"), strings(&["-C", "/r", "fetch", "--prune"]));
    assert_eq!(checkout_args("/r", "dev"), strings(&["-C", "/r", "checkout", "-B", "dev", "origin/dev"]));
    assert_eq!(cargo_build_args(true), strings(&["build", "--release"]));
    assert_eq!(cargo_build_args(false), strings(&["build"]));
    assert_eq!(cargo_locate_args(true), strings(&["build", "--message-format=json", "--release"]));
    assert_eq!(cargo_locate_args(false), strings(&["build", "--message-format=json"]));
}

#[test]
fn file_locations() {
    assert_eq!(data_dir().parts, strings(&["ForzaTelemetryV3Launcher"]));
    assert_eq!(repo_dir().parts, strings(&["ForzaTelemetryV3Launcher", "repo"]));
    assert_eq!(log_path().parts, strings(&["ForzaTelemetryV3Launcher", "run.log"]));
    assert_eq!(config_path().parts, strings(&["ForzaTelemetryV3Launcher", "config.txt"]));
    assert_eq!(units_path(true).parts, strings(&["ForzaTelemetryV3Launcher", "units_release.txt"]));
    assert_eq!(units_path(false).parts, strings(&["ForzaTelemetryV3Launcher", "units_debug.txt"]));
    let p = repo_dir().to_path_buf();
    assert!(p.ends_with(std::path::Path::new("ForzaTelemetryV3Launcher").join("repo")));
    assert!(p.components().count() > 2);
}

#[test]
fn window_launch_flow() {
    let mut app = App::new(Some("dev".to_string()), true);
    assert_eq!(app.screen, Screen::Updating { percent: 0 });
    assert_eq!(app.update(Event::UpdateProgress { percent: 40 }), Effect::Nothing);
    assert_eq!(app.screen, Screen::Updating { percent: 40 });
    let eff = app.update(Event::UpdateDone { listing: Ok(strings(&["main", "dev"])) });
    assert_eq!(eff, Effect::Nothing);
    assert_eq!(app.selected_branch, "dev");
    assert_eq!(app.update(Event::SelectBranch { branch: "nope".to_string() }), Effect::Nothing);
    assert_eq!(app.selected_branch, "dev");
    app.update(Event::SelectBranch { branch: "main".to_string() });
    app.update(Event::SetRelease { release: false });
    let eff = app.update(Event::LaunchClicked { cached_units: None });
    assert_eq!(
        eff,
        Effect::StartBuild { branch: "main".to_string(), release: false, update: true }
    );
    assert_eq!(app.screen, Screen::Building { compiled: 0, total: 280 });
    app.update(Event::BuildProgress { compiled: 12 });
    assert_eq!(app.screen, Screen::Building { compiled: 12, total: 280 });
    let eff = app.update(Event::BuildDone { binary: Ok("/bin/tool".to_string()) });
    assert_eq!(eff, Effect::Run { exe: "/bin/tool".to_string() });
    app.update(Event::RunFailed { message: "no such file".to_string() });
    assert_eq!(app.screen, Screen::Error { message: "no such file".to_string() });
}

#[test]
fn window_update_failure_and_reinit() {
    let mut app = App::new(None, false);
    app.update(Event::UpdateDone { listing: Err("offline".to_string()) });
    assert_eq!(app.screen, Screen::Error { message: "offline".to_string() });
    assert_eq!(app.update(Event::ReinitClicked), Effect::Nothing);

    let mut app = App::new(None, false);
    app.update(Event::UpdateDone { listing: Ok(strings(&["dev", "master"])) });
    assert_eq!(app.selected_branch, "master");
    assert_eq!(app.update(Event::ReinitClicked), Effect::DeleteRepo);
    assert_eq!(app.update(Event::RepoDeleted { deleted: Ok(()) }), Effect::StartUpdate);
    assert_eq!(app.screen, Screen::Updating { percent: 0 });
    app.update(Event::UpdateDone { listing: Ok(strings(&["dev"])) });
    app.update(Event::LaunchClicked { cached_units: Some(0) });
    assert_eq!(app.screen, Screen::Building { compiled: 0, total: 280 });
    app.update(Event::BuildDone { binary: Err("build failed".to_string()) });
    assert_eq!(app.screen, Screen::Error { message: "build failed".to_string() });
}

#[test]
fn headless_run() {
    let s = start_last_config(Some("gone".to_string()), true);
    assert_eq!(s, Headless::Updating { saved: Some("gone".to_string()), release: true, fetch: true });
    let s = run_last_config(s, HeadlessEvent::Updated { listing: Ok(strings(&["x", "main"])) });
    assert_eq!(s, Headless::Building { branch: "main".to_string(), release: true, update: false });
    let s = run_last_config(s, HeadlessEvent::Launched { started: Ok(()) });
    assert_eq!(s, Headless::Building { branch: "main".to_string(), release: true, update: false });
    let s = run_last_config(s, HeadlessEvent::Built { binary: Ok("/bin/t".to_string()) });
    assert_eq!(s, Headless::Launching { exe: "/bin/t".to_string() });
    let s = run_last_config(s, HeadlessEvent::Launched { started: Ok(()) });
    assert_eq!(s, Headless::Finished { result: Ok(()) });

    let s = start_last_config(None, false);
    let s = run_last_config(s, HeadlessEvent::Updated { listing: Err("no git".to_string()) });
    assert_eq!(s, Headless::Finished { result: Err("no git".to_string()) });
}

#[test]
fn build_step_order() {
    let s = start_build_run("dev".to_string(), true, true);
    assert_eq!(s, Build::Fetching { branch: "dev".to_string(), release: true });
    let s = build_step(s, BuildEvent::Fetched { fetched: Ok(()) });
    assert_eq!(s, Build::CheckingOut { branch: "dev".to_string(), release: true });
    let s = build_step(s, BuildEvent::Compiled { built: Ok(3) });
    assert_eq!(s, Build::CheckingOut { branch: "dev".to_string(), release: true });
    let s = build_step(s, BuildEvent::CheckedOut { checked_out: Ok(()) });
    assert_eq!(s, Build::Compiling { release: true });
    let s = build_step(s, BuildEvent::Compiled { built: Ok(42) });
    assert_eq!(s, Build::Locating { release: true, compiled: 42 });
    let s = build_step(s, BuildEvent::Located { binary: Ok("/bin/t".to_string()) });
    assert_eq!(s, Build::Finished { result: Ok("/bin/t".to_string()) });

    let s = start_build_run("x".to_string(), false, false);
    assert_eq!(s, Build::CheckingOut { branch: "x".to_string(), release: false });
    let s = build_step(s, BuildEvent::CheckedOut { checked_out: Ok(()) });
    let s = build_step(s, BuildEvent::Compiled { built: Err("build failed".to_string()) });
    assert_eq!(s, Build::Finished { result: Err("build failed".to_string()) });
}

#[test]
fn compiling_announcements() {
    assert!(announces_compiling("  Compiling a v1"));
    assert!(!announces_compiling("Checking a v1"));
}

#[test]
fn units_track_largest_build() {
    let mut stored: Option<u32> = None;
    for n in [0u32, 12, 7, 30, 0] {
        if let Some(text) = save_build_units(n, stored) {
            stored = cached_units(Some(&text));
        }
    }
    assert_eq!(stored, Some(30));
}

#[test]
fn path_under_given_data_dir() {
    let base = std::path::PathBuf::from("/data");
    let p = repo_dir().path_under(Some(base.clone()));
    assert_eq!(p, base.join("ForzaTelemetryV3Launcher").join("repo"));
    let q = log_path().path_under(None);
    assert_eq!(q, std::path::PathBuf::from(".").join("ForzaTelemetryV3Launcher").join("run.log"));
}
