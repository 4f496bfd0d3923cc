//! Command line arguments and the choice of the one-shot action they ask for.
use std::path::PathBuf;

use log::LevelFilter;
use vstd::prelude::*;

use crate::text::{str_chars, string_from_chars};

verus! {

/// The one-shot actions of the command line; at most one of them is given.
pub struct CliAction {
    /// Print login data as TOML.
    pub print_login_data: bool,
    /// Sync all feeds, print sync stats and then exit.
    pub sync: bool,
    /// Print current stats and then exit.
    pub stats: bool,
    /// Export to this OPML file.
    pub export_opml: Option<PathBuf>,
    /// Import this OPML file.
    pub import_opml: Option<PathBuf>,
    /// Logout of the RSS provider.
    pub logout: bool,
}

/// The kinds of one-shot action that are carried out before the
/// interface would start.
#[derive(Debug, Clone, Copy, PartialEq, Eq)]
pub enum CliActionKind {
    PrintLoginData,
    Sync,
    Stats,
    ExportOpml,
    ImportOpml,
    Logout,
}

/// The action that is carried out for `action`: the first one given, in
/// the order print login data, sync, stats, export OPML, import OPML,
/// logout.
pub open spec fn spec_requested_action(action: CliAction) -> Option<CliActionKind> {
    if action.print_login_data {
        Some(CliActionKind::PrintLoginData)
    } else if action.sync {
        Some(CliActionKind::Sync)
    } else if action.stats {
        Some(CliActionKind::Stats)
    } else if action.export_opml is Some {
        Some(CliActionKind::ExportOpml)
    } else if action.import_opml is Some {
        Some(CliActionKind::ImportOpml)
    } else if action.logout {
        Some(CliActionKind::Logout)
    } else {
        None
    }
}

/// The parsed command line.
pub struct CliArgs {
    log_file: Option<String>,
    log_level: Option<LevelFilter>,
    config_dir: Option<String>,
    news_flash_config_dir: Option<String>,
    news_flash_state_dir: Option<String>,
    show_secrets: bool,
    action: CliAction,
    quiet: bool,
    chyron: bool,
}

impl CliArgs {
    /// Command line arguments with the given values.
    pub fn new(
        log_file: Option<String>,
        log_level: Option<LevelFilter>,
        config_dir: Option<String>,
        news_flash_config_dir: Option<String>,
        news_flash_state_dir: Option<String>,
        show_secrets: bool,
        action: CliAction,
        quiet: bool,
        chyron: bool,
    ) -> (res: Self)
        ensures
            res.spec_log_file() == log_file,
            res.spec_log_level() == log_level,
            res.spec_config_dir() == config_dir,
            res.spec_news_flash_config_dir() == news_flash_config_dir,
            res.spec_news_flash_state_dir() == news_flash_state_dir,
            res.spec_show_secrets() == show_secrets,
            res.spec_action() == action,
            res.spec_quiet() == quiet,
            res.spec_chyron() == chyron,
    {
        CliArgs {
            log_file,
            log_level,
            config_dir,
            news_flash_config_dir,
            news_flash_state_dir,
            show_secrets,
            action,
            quiet,
            chyron,
        }
    }

    pub closed spec fn spec_log_file(&self) -> Option<String> {
        self.log_file
    }

    pub closed spec fn spec_log_level(&self) -> Option<LevelFilter> {
        self.log_level
    }

    pub closed spec fn spec_config_dir(&self) -> Option<String> {
        self.config_dir
    }

    pub closed spec fn spec_news_flash_config_dir(&self) -> Option<String> {
        self.news_flash_config_dir
    }

    pub closed spec fn spec_news_flash_state_dir(&self) -> Option<String> {
        self.news_flash_state_dir
    }

    pub closed spec fn spec_show_secrets(&self) -> bool {
        self.show_secrets
    }

    pub closed spec fn spec_action(&self) -> CliAction {
        self.action
    }

    pub closed spec fn spec_quiet(&self) -> bool {
        self.quiet
    }

    pub closed spec fn spec_chyron(&self) -> bool {
        self.chyron
    }

    /// Log file (must be writable).
    pub fn log_file(&self) -> (res: &Option<String>)
        ensures
            *res == self.spec_log_file(),
    {
        &self.log_file
    }

    /// Log level.
    pub fn log_level(&self) -> (res: &Option<LevelFilter>)
        ensures
            *res == self.spec_log_level(),
    {
        &self.log_level
    }

    /// Directory with the dispatch config file.
    pub fn config_dir(&self) -> (res: &Option<String>)
        ensures
            *res == self.spec_config_dir(),
    {
        &self.config_dir
    }

    /// Directory with news-flash config files.
    pub fn news_flash_config_dir(&self) -> (res: &Option<String>)
        ensures
            *res == self.spec_news_flash_config_dir(),
    {
        &self.news_flash_config_dir
    }

    /// Directory with news-flash state files.
    pub fn news_flash_state_dir(&self) -> (res: &Option<String>)
        ensures
            *res == self.spec_news_flash_state_dir(),
    {
        &self.news_flash_state_dir
    }

    /// Show secrets when printing login data.
    pub fn show_secrets(&self) -> (res: &bool)
        ensures
            *res == self.spec_show_secrets(),
    {
        &self.show_secrets
    }

    /// The one-shot actions given.
    pub fn action(&self) -> (res: &CliAction)
        ensures
            *res == self.spec_action(),
    {
        &self.action
    }

    /// Suppress output of the one-shot actions.
    pub fn quiet(&self) -> (res: &bool)
        ensures
            *res == self.spec_quiet(),
    {
        &self.quiet
    }

    /// Launch in chyron mode.
    pub fn chyron(&self) -> (res: &bool)
        ensures
            *res == self.spec_chyron(),
    {
        &self.chyron
    }

    /// The one-shot action that these arguments ask for, if any.
    pub fn requested_action(&self) -> (res: Option<CliActionKind>)
        ensures
            res == spec_requested_action(self.spec_action()),
    {
        if self.action.print_login_data {
            Some(CliActionKind::PrintLoginData)
        } else if self.action.sync {
            Some(CliActionKind::Sync)
        } else if self.action.stats {
            Some(CliActionKind::Stats)
        } else if self.action.export_opml.is_some() {
            Some(CliActionKind::ExportOpml)
        } else if self.action.import_opml.is_some() {
            Some(CliActionKind::ImportOpml)
        } else if self.action.logout {
            Some(CliActionKind::Logout)
        } else {
            None
        }
    }
}

/// `action` gives exactly the one-shot action `kind` and no other.
pub open spec fn gives_only(action: CliAction, kind: CliActionKind) -> bool {
    &&& action.print_login_data == (kind == CliActionKind::PrintLoginData)
    &&& action.sync == (kind == CliActionKind::Sync)
    &&& action.stats == (kind == CliActionKind::Stats)
    &&& (action.export_opml is Some) == (kind == CliActionKind::ExportOpml)
    &&& (action.import_opml is Some) == (kind == CliActionKind::ImportOpml)
    &&& action.logout == (kind == CliActionKind::Logout)
}

/// The command line allows at most one one-shot action: when exactly one
/// is given, that one is carried out.
pub proof fn lemma_single_action_is_requested(action: CliAction, kind: CliActionKind)
    requires
        gives_only(action, kind),
    ensures
        spec_requested_action(action) == Some(kind),
{
}

/// Without any of the six one-shot actions, none is carried out and the
/// interface starts.
pub proof fn lemma_no_action_requested(action: CliAction)
    requires
        !action.print_login_data,
        !action.sync,
        !action.stats,
        action.export_opml is None,
        action.import_opml is None,
        !action.logout,
    ensures
        spec_requested_action(action) is None,
{
}

/// The message printed when an action starts, for an action on the file
/// `path`: export and import name the file, logout announces itself; the
/// other actions print none.
pub open spec fn start_message(kind: CliActionKind, path: Seq<char>) -> Option<Seq<char>> {
    match kind {
        CliActionKind::ExportOpml => Some("**exporting OPML** to *"@ + path + "*\n"@),
        CliActionKind::ImportOpml => Some("**importing OPML** from *"@ + path + "*\n"@),
        CliActionKind::Logout => Some("**logging out**\n"@),
        _ => None,
    }
}

/// The message printed when an action has finished: `**done**` after
/// export, import and logout, none after the others.
pub open spec fn done_message(kind: CliActionKind) -> Option<Seq<char>> {
    match kind {
        CliActionKind::ExportOpml | CliActionKind::ImportOpml | CliActionKind::Logout => Some(
            "**done**"@,
        ),
        _ => None,
    }
}

fn concat3(a: &str, b: &str, c: &str) -> (res: String)
    ensures
        res@ == a@ + b@ + c@,
{
    let mut chars = str_chars(a);
    let mut middle = str_chars(b);
    let mut last = str_chars(c);
    chars.append(&mut middle);
    chars.append(&mut last);
    string_from_chars(&chars)
}

impl CliArgs {
    /// The message to print as the action `kind` on the file `path` starts;
    /// nothing when quiet.
    pub fn start_announcement(&self, kind: CliActionKind, path: &str) -> (res: Option<String>)
        ensures
            match res {
                Some(text) => !self.spec_quiet() && start_message(kind, path@) == Some(text@),
                None => self.spec_quiet() || start_message(kind, path@) is None,
            },
    {
        if self.quiet {
            return None;
        }
        match kind {
            CliActionKind::ExportOpml => Some(concat3("**exporting OPML** to *", path, "*\n")),
            CliActionKind::ImportOpml => Some(concat3("**importing OPML** from *", path, "*\n")),
            CliActionKind::Logout => Some("**logging out**\n".to_owned()),
            _ => None,
        }
    }

    /// The message to print when the action `kind` has finished; nothing
    /// when quiet.
    pub fn done_announcement(&self, kind: CliActionKind) -> (res: Option<String>)
        ensures
            match res {
                Some(text) => !self.spec_quiet() && done_message(kind) == Some(text@),
                None => self.spec_quiet() || done_message(kind) is None,
            },
    {
        if self.quiet {
            return None;
        }
        match kind {
            CliActionKind::ExportOpml | CliActionKind::ImportOpml | CliActionKind::Logout => Some("**done**".to_owned()),
            _ => None,
        }
    }
}

/// The actions that change files or the provider's data, and so report
/// their progress: export, import and logout.
pub open spec fn is_maintenance(kind: CliActionKind) -> bool {
    kind == CliActionKind::ExportOpml || kind == CliActionKind::ImportOpml || kind
        == CliActionKind::Logout
}

/// Every maintenance action announces its start and, once finished,
/// prints `**done**`; the other actions print neither. The start message of
/// export and import names the file.
pub proof fn lemma_maintenance_actions_report_progress(kind: CliActionKind, path: Seq<char>)
    ensures
        is_maintenance(kind) <==> start_message(kind, path) is Some,
        is_maintenance(kind) ==> done_message(kind) == Some("**done**"@),
        !is_maintenance(kind) ==> done_message(kind) is None,
        (kind == CliActionKind::ExportOpml || kind == CliActionKind::ImportOpml) ==> ({
            let text = start_message(kind, path)->0;
            exists|at: int|
                0 <= at && at + path.len() <= text.len() && #[trigger] text.subrange(
                    at,
                    at + path.len(),
                ) == path
        }),
{
    if kind == CliActionKind::ExportOpml {
        let text = start_message(kind, path)->0;
        let at = "**exporting OPML** to *"@.len() as int;
        assert(text.subrange(at, at + path.len()) =~= path);
    } else if kind == CliActionKind::ImportOpml {
        let text = start_message(kind, path)->0;
        let at = "**importing OPML** from *"@.len() as int;
        assert(text.subrange(at, at + path.len()) =~= path);
    }
}

} // verus!
