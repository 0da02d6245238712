use tool_uninstall::session::{finish_message, not_installed_warning};
use tool_uninstall::{
    Action, Event, Failure, Lookup, Origin, Phase, RepairStep, ResolutionError,
    ResolvedToolVersion, Session, ToolSpecifier, Uninstall,
};

/// A host that keeps its backends in memory and notes what it is asked.
#[derive(Default)]
struct Host {
    installed: Vec<(String, String)>,
    refusing: Vec<(String, String)>,
    failing_step: Option<RepairStep>,
    asked: Vec<String>,
    removed: Vec<String>,
    warnings: Vec<String>,
    reports: Vec<(String, String)>,
    repairs: Vec<RepairStep>,
    refreshed: Vec<bool>,
}

fn pair(backend: &str, version: &str) -> (String, String) {
    (backend.to_string(), version.to_string())
}

fn host(installed: &[(&str, &str)]) -> Host {
    Host {
        installed: installed.iter().map(|(backend, version)| pair(backend, version)).collect(),
        ..Host::default()
    }
}

fn entry(backend: &str, version: &str, origin: Origin) -> ResolvedToolVersion {
    ResolvedToolVersion::new(backend.to_string(), version.to_string(), origin)
}

fn texts(items: &[&str]) -> Vec<String> {
    items.iter().map(|item| item.to_string()).collect()
}

fn command(tokens: &[&str], all: bool, dry_run: bool) -> Uninstall {
    Uninstall {
        installed_tool: tokens.iter().map(|token| ToolSpecifier::parse(token)).collect(),
        all,
        dry_run,
    }
}

impl Host {
    fn versions_of(&self, backend: &str) -> Vec<String> {
        self.installed
            .iter()
            .filter(|(name, _)| name == backend)
            .map(|(_, version)| version.clone())
            .collect()
    }

    fn look_up(&self, tools: &Uninstall) -> Vec<Lookup> {
        tools
            .installed_tool
            .iter()
            .map(|specifier| Lookup::Known {
                installed: self.versions_of(&specifier.backend),
                alias: None,
            })
            .collect()
    }

    fn answer(&mut self, session: &Session, action: Action) -> Event {
        match action {
            Action::CheckInstalled { entry, refresh } => {
                let found = session.entry(entry).unwrap();
                self.refreshed.push(refresh);
                Event::Installed(self.installed.contains(&found.identity()))
            }
            Action::WarnNotInstalled { entry } => {
                self.warnings.push(not_installed_warning(session.entry(entry).unwrap()));
                Event::Done
            }
            Action::Uninstall { entry, dry_run } => {
                let found = session.entry(entry).unwrap();
                self.asked.push(found.label());
                if self.refusing.contains(&found.identity()) {
                    return Event::Failed(format!("cannot remove {}", found.version));
                }
                if !dry_run {
                    self.installed.retain(|known| *known != found.identity());
                    self.removed.push(found.label());
                }
                Event::Done
            }
            Action::Finish { entry, dry_run } => {
                let found = session.entry(entry).unwrap();
                self.reports.push((found.label(), finish_message(dry_run).to_string()));
                Event::Done
            }
            Action::Repair(step) => {
                self.repairs.push(step);
                if self.failing_step == Some(step) {
                    Event::Failed(format!("{step:?} failed"))
                } else {
                    Event::Done
                }
            }
            Action::Succeed | Action::Fail(_) => unreachable!(),
        }
    }

    fn drive(&mut self, mut session: Session) -> Session {
        loop {
            let action = session.pending();
            if matches!(action, Action::Succeed | Action::Fail(_)) {
                return session;
            }
            let event = self.answer(&session, action);
            session = session.step(event);
        }
    }
}

fn all_steps() -> Vec<RepairStep> {
    vec![
        RepairStep::TouchDataRoot,
        RepairStep::UpdateLockfiles,
        RepairStep::RebuildToolset,
        RepairStep::Reshim,
        RepairStep::RebuildSymlinks,
    ]
}

#[test]
fn exact_specifier_removes_that_version_only() {
    let mut host = host(&[("node", "18.0.0"), ("node", "18.0.1")]);
    let tools = command(&["node@18.0.0"], false, false);
    let found = tools.get_requested_tool_versions(&host.look_up(&tools)).unwrap();
    let session = tools.run(found).unwrap();
    assert_eq!(session.entries(), &vec![entry("node", "18.0.0", Origin::Exact)]);
    let session = host.drive(session);
    assert_eq!(session.outcome(), Some(Ok(())));
    assert_eq!(host.removed, texts(&["node@18.0.0"]));
    assert_eq!(host.installed, vec![pair("node", "18.0.1")]);
}

#[test]
fn exact_specifier_with_its_alias_resolves_to_one_entry() {
    let tools = command(&["node@18.0.0"], false, false);
    let lookups = vec![Lookup::Known {
        installed: texts(&["18.0.0", "18.0.1"]),
        alias: Some("18.0.0".to_string()),
    }];
    let session = tools.run(tools.get_requested_tool_versions(&lookups).unwrap()).unwrap();
    assert_eq!(session.entries(), &vec![entry("node", "18.0.0", Origin::Exact)]);
}

#[test]
fn prefix_specifier_resolves_to_the_versions_that_begin_with_it() {
    let mut host = host(&[("node", "18.0.0"), ("node", "18.0.1"), ("node", "20.0.0")]);
    let tools = command(&["node@18"], false, false);
    let found = tools.get_requested_tool_versions(&host.look_up(&tools)).unwrap();
    let session = tools.run(found).unwrap();
    assert_eq!(
        session.entries(),
        &vec![entry("node", "18.0.0", Origin::Prefix), entry("node", "18.0.1", Origin::Prefix)]
    );
    let session = host.drive(session);
    assert_eq!(session.outcome(), Some(Ok(())));
    assert_eq!(host.installed, vec![pair("node", "20.0.0")]);
}

#[test]
fn bare_specifier_removes_every_version_of_the_one_backend() {
    let mut host = host(&[("node", "18.0.0"), ("node", "20.0.0")]);
    let tools = command(&["node"], false, false);
    let found = tools.get_requested_tool_versions(&host.look_up(&tools)).unwrap();
    let session = tools.run(found).unwrap();
    assert_eq!(
        session.entries(),
        &vec![entry("node", "18.0.0", Origin::Prefix), entry("node", "20.0.0", Origin::Prefix)]
    );
    let session = host.drive(session);
    assert_eq!(session.outcome(), Some(Ok(())));
    assert_eq!(host.removed, texts(&["node@18.0.0", "node@20.0.0"]));
    assert!(host.installed.is_empty());
}

#[test]
fn all_without_specifiers_removes_the_declared_versions_of_every_backend() {
    let mut host = host(&[("python", "3.12.0"), ("node", "20.0.0"), ("node", "18.0.0")]);
    let tools = command(&[], true, false);
    assert!(tools.selects_declared());
    let found = tools.get_all_tool_versions(&host.installed.clone());
    let session = tools.run(found).unwrap();
    assert_eq!(
        session.entries(),
        &vec![
            entry("node", "18.0.0", Origin::Declared),
            entry("node", "20.0.0", Origin::Declared),
            entry("python", "3.12.0", Origin::Declared),
        ]
    );
    let session = host.drive(session);
    assert_eq!(session.outcome(), Some(Ok(())));
    assert_eq!(host.removed, texts(&["node@18.0.0", "node@20.0.0", "python@3.12.0"]));
    assert!(host.installed.is_empty());
    assert_eq!(host.repairs, all_steps());
}

#[test]
fn several_backends_without_all_are_refused_before_anything_is_done() {
    let host = host(&[("node", "18.0.0"), ("python", "3.12.0")]);
    let tools = command(&["node@18", "python@3"], false, false);
    let found = tools.get_requested_tool_versions(&host.look_up(&tools)).unwrap();
    let outcome = tools.run(found);
    assert!(matches!(outcome, Err(ResolutionError::Ambiguous)));
    assert!(host.asked.is_empty());
    assert!(host.repairs.is_empty());
    assert_eq!(host.installed.len(), 2);
}

#[test]
fn several_backends_with_all_are_removed() {
    let mut host = host(&[("node", "18.0.0"), ("python", "3.12.0")]);
    let tools = command(&["python@3", "node@18"], true, false);
    let found = tools.get_requested_tool_versions(&host.look_up(&tools)).unwrap();
    let session = host.drive(tools.run(found).unwrap());
    assert_eq!(session.outcome(), Some(Ok(())));
    assert_eq!(host.removed, texts(&["node@18.0.0", "python@3.12.0"]));
}

#[test]
fn failed_removal_stops_the_run() {
    let mut host = host(&[("node", "18.0.0"), ("node", "19.0.0"), ("node", "20.0.0")]);
    host.refusing = vec![pair("node", "19.0.0")];
    let entries = vec![
        entry("node", "18.0.0", Origin::Prefix),
        entry("node", "19.0.0", Origin::Prefix),
        entry("node", "20.0.0", Origin::Prefix),
    ];
    let session = host.drive(Session::begin(entries, false));
    assert_eq!(session.outcome(), Some(Err(Failure::Removal(1))));
    assert_eq!(session.pending(), Action::Fail(Failure::Removal(1)));
    assert_eq!(session.cause(), "cannot remove 19.0.0");
    assert_eq!(session.context(), Some("failed to uninstall node@19.0.0".to_string()));
    assert_eq!(host.asked, texts(&["node@18.0.0", "node@19.0.0"]));
    assert_eq!(host.removed, texts(&["node@18.0.0"]));
    assert_eq!(host.installed, vec![pair("node", "19.0.0"), pair("node", "20.0.0")]);
    assert_eq!(host.reports, vec![("node@18.0.0".to_string(), "uninstalled".to_string())]);
    assert!(host.repairs.is_empty());
}

#[test]
fn failed_run_takes_no_further_answer() {
    let session = Session::begin(vec![entry("node", "18.0.0", Origin::Exact)], false)
        .step(Event::Installed(true))
        .step(Event::Failed("denied".to_string()));
    let session = session.step(Event::Done).step(Event::Installed(true)).step(Event::Failed(
        "again".to_string(),
    ));
    assert_eq!(session.phase(), Phase::Failed(Failure::Removal(0)));
    assert_eq!(session.cause(), "denied");
}

#[test]
fn dry_run_removes_nothing_and_still_repairs() {
    let mut host = host(&[("node", "18.0.0"), ("node", "20.0.0")]);
    let tools = command(&["node"], false, true);
    let found = tools.get_requested_tool_versions(&host.look_up(&tools)).unwrap();
    let session = tools.run(found).unwrap();
    assert!(session.dry_run());
    let session = host.drive(session);
    assert_eq!(session.outcome(), Some(Ok(())));
    assert_eq!(host.asked, texts(&["node@18.0.0", "node@20.0.0"]));
    assert!(host.removed.is_empty());
    assert_eq!(host.installed, vec![pair("node", "18.0.0"), pair("node", "20.0.0")]);
    assert_eq!(
        host.reports,
        vec![
            ("node@18.0.0".to_string(), "uninstalled (dry-run)".to_string()),
            ("node@20.0.0".to_string(), "uninstalled (dry-run)".to_string()),
        ]
    );
    assert_eq!(host.repairs, all_steps());
}

#[test]
fn dry_run_asks_for_simulated_removal() {
    let session =
        Session::begin(vec![entry("node", "18.0.0", Origin::Exact)], true).step(Event::Installed(true));
    assert_eq!(session.pending(), Action::Uninstall { entry: 0, dry_run: true });
    let session = session.step(Event::Done);
    assert_eq!(session.pending(), Action::Finish { entry: 0, dry_run: true });
}

#[test]
fn version_that_is_not_installed_is_skipped_with_a_warning() {
    let mut host = host(&[("node", "20.0.0")]);
    let entries = vec![entry("node", "18.0.0", Origin::Alias), entry("node", "20.0.0", Origin::Exact)];
    let session = host.drive(Session::begin(entries, false));
    assert_eq!(session.outcome(), Some(Ok(())));
    assert_eq!(host.warnings, texts(&["node@18.0.0 is not installed"]));
    assert_eq!(host.asked, texts(&["node@20.0.0"]));
    assert_eq!(host.refreshed, vec![true, true]);
    assert_eq!(host.repairs, all_steps());
}

#[test]
fn empty_list_goes_straight_to_the_repair() {
    let mut host = host(&[]);
    let session = Session::begin(vec![], false);
    assert_eq!(session.pending(), Action::Repair(RepairStep::TouchDataRoot));
    let session = host.drive(session);
    assert_eq!(session.outcome(), Some(Ok(())));
    assert!(host.asked.is_empty());
    assert_eq!(host.repairs, all_steps());
}

#[test]
fn failed_repair_step_stops_the_repair() {
    let mut host = host(&[("node", "18.0.0")]);
    host.failing_step = Some(RepairStep::UpdateLockfiles);
    let session = host.drive(Session::begin(vec![entry("node", "18.0.0", Origin::Exact)], false));
    assert_eq!(session.outcome(), Some(Err(Failure::Repair(RepairStep::UpdateLockfiles))));
    assert_eq!(session.cause(), "UpdateLockfiles failed");
    assert_eq!(session.context(), Some("failed to update lockfiles".to_string()));
    assert_eq!(host.removed, texts(&["node@18.0.0"]));
    assert_eq!(host.repairs, vec![RepairStep::TouchDataRoot, RepairStep::UpdateLockfiles]);
}

#[test]
fn context_of_each_failure() {
    for (step, context) in [
        (RepairStep::TouchDataRoot, None),
        (RepairStep::UpdateLockfiles, Some("failed to update lockfiles")),
        (RepairStep::RebuildToolset, None),
        (RepairStep::Reshim, Some("failed to reshim")),
        (RepairStep::RebuildSymlinks, None),
    ] {
        let mut host = host(&[]);
        host.failing_step = Some(step);
        let session = host.drive(Session::begin(vec![], false));
        assert_eq!(session.outcome(), Some(Err(Failure::Repair(step))));
        assert_eq!(session.context(), context.map(|text| text.to_string()));
    }
    let session = Session::begin(vec![], false);
    assert_eq!(session.context(), None);
    assert_eq!(session.cause(), "");
}

#[test]
fn answer_that_was_not_called_for_ends_the_run() {
    let entries = vec![entry("node", "18.0.0", Origin::Exact)];
    let session = Session::begin(entries.clone(), false).step(Event::Done);
    assert_eq!(session.outcome(), Some(Err(Failure::Protocol)));
    assert_eq!(session.context(), Some("unexpected answer from the host".to_string()));
    let session = Session::begin(entries.clone(), false).step(Event::Failed("x".to_string()));
    assert_eq!(session.outcome(), Some(Err(Failure::Protocol)));
    assert_eq!(session.cause(), "");
    let session =
        Session::begin(entries.clone(), false).step(Event::Installed(true)).step(Event::Installed(true));
    assert_eq!(session.outcome(), Some(Err(Failure::Protocol)));
    let session = Session::begin(entries, false)
        .step(Event::Installed(false))
        .step(Event::Failed("x".to_string()));
    assert_eq!(session.outcome(), Some(Err(Failure::Protocol)));
    let session = Session::begin(vec![], false).step(Event::Installed(true));
    assert_eq!(session.outcome(), Some(Err(Failure::Protocol)));
}

#[test]
fn phases_of_a_run_over_one_entry() {
    let session = Session::begin(vec![entry("node", "18.0.0", Origin::Exact)], false);
    assert_eq!(session.phase(), Phase::Checking(0));
    assert_eq!(session.outcome(), None);
    let session = session.step(Event::Installed(true));
    assert_eq!(session.phase(), Phase::Removing(0));
    let session = session.step(Event::Done);
    assert_eq!(session.phase(), Phase::Reporting(0));
    let session = session.step(Event::Done);
    assert_eq!(session.phase(), Phase::Repairing(RepairStep::TouchDataRoot));
    let session = session.step(Event::Done);
    assert_eq!(session.phase(), Phase::Repairing(RepairStep::UpdateLockfiles));
    let session = session.step(Event::Done);
    assert_eq!(session.phase(), Phase::Repairing(RepairStep::RebuildToolset));
    let session = session.step(Event::Done);
    assert_eq!(session.phase(), Phase::Repairing(RepairStep::Reshim));
    let session = session.step(Event::Done);
    assert_eq!(session.phase(), Phase::Repairing(RepairStep::RebuildSymlinks));
    let session = session.step(Event::Done);
    assert_eq!(session.phase(), Phase::Succeeded);
    assert_eq!(session.pending(), Action::Succeed);
    assert_eq!(session.step(Event::Done).phase(), Phase::Succeeded);
}

#[test]
fn run_is_over_within_four_answers_an_entry_and_six_more() {
    let entries = vec![
        entry("node", "18.0.0", Origin::Prefix),
        entry("node", "20.0.0", Origin::Prefix),
    ];
    let mut session = Session::begin(entries, false);
    let mut answers = 0;
    while session.outcome().is_none() {
        let event = match session.pending() {
            Action::CheckInstalled { .. } => Event::Installed(true),
            _ => Event::Done,
        };
        session = session.step(event);
        answers += 1;
    }
    assert_eq!(answers, 2 * 3 + 5);
    assert!(answers <= 4 * 2 + 6);
}

#[test]
fn entry_beyond_the_list_is_none() {
    let session = Session::begin(vec![entry("node", "18.0.0", Origin::Exact)], false);
    assert_eq!(session.entry(0), Some(&entry("node", "18.0.0", Origin::Exact)));
    assert_eq!(session.entry(1), None);
}

#[test]
fn finish_messages() {
    assert_eq!(finish_message(false), "uninstalled");
    assert_eq!(finish_message(true), "uninstalled (dry-run)");
}
