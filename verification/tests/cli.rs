use dispatch::cli::{CliAction, CliActionKind, CliArgs};
use std::path::PathBuf;

fn action() -> CliAction {
    CliAction {
        print_login_data: false,
        sync: false,
        stats: false,
        export_opml: None,
        import_opml: None,
        logout: false,
    }
}

fn args(action: CliAction, quiet: bool) -> CliArgs {
    CliArgs::new(
        Some("log.txt".to_string()),
        Some(log::LevelFilter::Debug),
        None,
        Some("nf".to_string()),
        None,
        true,
        action,
        quiet,
        false,
    )
}

#[test]
fn getters_return_given_values() {
    let a = args(action(), true);
    assert_eq!(a.log_file(), &Some("log.txt".to_string()));
    assert_eq!(a.log_level(), &Some(log::LevelFilter::Debug));
    assert_eq!(a.config_dir(), &None);
    assert_eq!(a.news_flash_config_dir(), &Some("nf".to_string()));
    assert_eq!(a.news_flash_state_dir(), &None);
    assert!(*a.show_secrets());
    assert!(*a.quiet());
    assert!(!*a.chyron());
    assert!(!a.action().sync);
}

#[test]
fn no_action_runs_without_flags() {
    assert_eq!(args(action(), false).requested_action(), None);
}

#[test]
fn stats_is_an_action() {
    let mut stats = action();
    stats.stats = true;
    assert_eq!(args(stats, false).requested_action(), Some(CliActionKind::Stats));
}

#[test]
fn each_single_action_is_requested() {
    let mut a = action();
    a.print_login_data = true;
    assert_eq!(args(a, false).requested_action(), Some(CliActionKind::PrintLoginData));
    let mut a = action();
    a.sync = true;
    assert_eq!(args(a, false).requested_action(), Some(CliActionKind::Sync));
    let mut a = action();
    a.export_opml = Some(PathBuf::from("out.opml"));
    assert_eq!(args(a, false).requested_action(), Some(CliActionKind::ExportOpml));
    let mut a = action();
    a.import_opml = Some(PathBuf::from("in.opml"));
    assert_eq!(args(a, false).requested_action(), Some(CliActionKind::ImportOpml));
    let mut a = action();
    a.logout = true;
    assert_eq!(args(a, false).requested_action(), Some(CliActionKind::Logout));
}

#[test]
fn earlier_action_wins() {
    let mut a = action();
    a.sync = true;
    a.logout = true;
    a.export_opml = Some(PathBuf::from("x"));
    assert_eq!(args(a, false).requested_action(), Some(CliActionKind::Sync));
}

#[test]
fn announcements_follow_quiet() {
    let loud = args(action(), false);
    assert_eq!(
        loud.start_announcement(CliActionKind::ExportOpml, "feeds.opml"),
        Some("**exporting OPML** to *feeds.opml*\n".to_string())
    );
    assert_eq!(
        loud.start_announcement(CliActionKind::ImportOpml, "in.opml"),
        Some("**importing OPML** from *in.opml*\n".to_string())
    );
    assert_eq!(
        loud.start_announcement(CliActionKind::Logout, ""),
        Some("**logging out**\n".to_string())
    );
    assert_eq!(loud.start_announcement(CliActionKind::Sync, "x"), None);
    assert_eq!(loud.done_announcement(CliActionKind::Logout), Some("**done**".to_string()));
    assert_eq!(loud.done_announcement(CliActionKind::PrintLoginData), None);
    let quiet = args(action(), true);
    assert_eq!(quiet.start_announcement(CliActionKind::ExportOpml, "x"), None);
    assert_eq!(quiet.done_announcement(CliActionKind::ExportOpml), None);
}
