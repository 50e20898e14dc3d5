use pup::vet::{classify_handle, extract_handles, list_checks, pager_tools_str, HandleKind, Severity};

#[test]
fn extract_handles_basic() {
    let handles = extract_handles("Alert! @pagerduty-prod @slack-alerts and @oncall-platform");
    assert_eq!(
        handles,
        vec!["pagerduty-prod", "slack-alerts", "oncall-platform"]
    );
}

#[test]
fn extract_handles_no_handles() {
    assert!(extract_handles("no notifications here").is_empty());
}

#[test]
fn extract_handles_email_like() {
    let handles = extract_handles("notify user@example.com and @pagerduty-svc");
    assert!(handles.contains(&"pagerduty-svc"));
}

#[test]
fn classify_pager_handles() {
    assert!(classify_handle("oncall-platform").is_pager());
    assert!(classify_handle("pagerduty-prod").is_pager());
    assert!(classify_handle("pagerduty").is_pager());
    assert!(classify_handle("opsgenie-sre").is_pager());
    assert!(classify_handle("victorops-team").is_pager());
    assert!(!classify_handle("slack-alerts").is_pager());
    assert!(!classify_handle("webhook-myapp").is_pager());
}

#[test]
fn classify_handle_display_names() {
    assert_eq!(classify_handle("oncall-x").display(), "Datadog On-Call");
    assert_eq!(classify_handle("pagerduty-x").display(), "PagerDuty");
    assert_eq!(classify_handle("opsgenie-x").display(), "OpsGenie");
    assert_eq!(classify_handle("victorops-x").display(), "VictorOps");
    assert_eq!(classify_handle("slack-x").display(), "other");
}

#[test]
fn handles_stop_at_punctuation_and_skip_bare_at() {
    assert_eq!(extract_handles("@a_b-1, @ @@c. @é"), vec!["a_b-1", "c"]);
    assert_eq!(classify_handle("oncall"), HandleKind::Other);
}

#[test]
fn pager_tools_are_listed_once_per_kind() {
    let s = pager_tools_str(&vec!["oncall-platform", "slack-x", "pagerduty-prod", "oncall-other"]);
    assert_eq!(s, "Datadog On-Call (@oncall-platform), PagerDuty (@pagerduty-prod)");
    assert_eq!(pager_tools_str(&vec!["slack-x"]), "");
    assert_eq!(pager_tools_str(&vec![]), "");
    assert_eq!(pager_tools_str(&vec!["victorops-t"]), "VictorOps (@victorops-t)");
}

#[test]
fn severity_labels_and_check_list() {
    assert_eq!(Severity::Critical.label(), "CRITICAL");
    assert_eq!(Severity::Warning.label(), "WARNING");
    assert_eq!(Severity::Info.label(), "INFO");
    let checks = list_checks();
    assert_eq!(checks.len(), 7);
    assert_eq!(checks[0].0, "silent-monitors");
    assert_eq!(checks[0].1, Severity::Critical);
    assert_eq!(checks[6].0, "pager-burden");
    assert_eq!(checks[4].1, Severity::Info);
}

use pup::vet::{
    check_pager_burden, needs_alert_history, run_check, run_checks, selected_checks,
    tally_alert_events, AlertEvent, AuditCheck, AuditError, MonitorCheck, MonitorInfo,
    MonitorState,
};

fn monitor(id: i64, name: &str) -> MonitorInfo {
    MonitorInfo {
        id: Some(id),
        name: Some(name.into()),
        message: Some("@slack-x".into()),
        overall_state: None,
        tags: Some(vec!["env:prod".into()]),
        silenced: None,
        has_critical: false,
        has_critical_recovery: false,
        renotify_interval: None,
    }
}

#[test]
fn silent_and_untagged_monitors_are_flagged() {
    let mut quiet = monitor(1, "quiet");
    quiet.message = Some("nobody hears this".into());
    let mut bare = monitor(2, "bare");
    bare.tags = None;
    let mut anon = monitor(3, "x");
    anon.name = None;
    anon.id = None;
    anon.message = None;
    let ms = vec![quiet, bare, anon, monitor(4, "fine")];

    let silent = run_check(MonitorCheck::Silent, &ms, 0);
    assert_eq!(silent.check, "silent-monitors");
    assert_eq!(silent.count, 2);
    assert_eq!(silent.resources[0].id, 1);
    assert_eq!(silent.resources[0].detail, "no notification channel (@-mention) in message");
    assert_eq!(silent.resources[1].id, 0);
    assert_eq!(silent.resources[1].name, "(unnamed)");

    let untagged = run_check(MonitorCheck::Untagged, &ms, 0);
    assert_eq!(untagged.count, 1);
    assert_eq!(untagged.resources[0].name, "bare");
    assert_eq!(untagged.resources[0].detail, "no tags set");
}

#[test]
fn stale_recovery_and_renotify_checks() {
    let mut nodata = monitor(1, "nodata");
    nodata.overall_state = Some(MonitorState::NoData);
    let mut flappy = monitor(2, "flappy");
    flappy.has_critical = true;
    let mut chatty = monitor(3, "chatty");
    chatty.renotify_interval = Some(15);
    let mut calm = monitor(4, "calm");
    calm.renotify_interval = Some(61);
    let ms = vec![nodata, flappy, chatty, calm];
    assert_eq!(run_check(MonitorCheck::Stale, &ms, 0).resources[0].detail, "monitor is in No Data state");
    let nr = run_check(MonitorCheck::NoRecovery, &ms, 0);
    assert_eq!(nr.count, 1);
    assert_eq!(nr.resources[0].id, 2);
    let fr = run_check(MonitorCheck::FastRenotify, &ms, 0);
    assert_eq!(fr.count, 1);
    assert_eq!(fr.resources[0].detail, "renotify_interval = 15 min");
}

#[test]
fn muted_monitors_forgotten_or_indefinite() {
    let now = 1_000_000;
    let mut forever = monitor(1, "forever");
    forever.silenced = Some(vec![Some(now + 10), None]);
    let mut long = monitor(2, "long");
    long.silenced = Some(vec![Some(now + 86_400), Some(now + 40 * 86_400 + 5)]);
    let mut short = monitor(3, "short");
    short.silenced = Some(vec![Some(now + 29 * 86_400)]);
    let mut empty = monitor(4, "empty");
    empty.silenced = Some(vec![]);
    let f = run_check(MonitorCheck::Muted, &vec![forever, long, short, empty], now);
    assert_eq!(f.count, 2);
    assert_eq!(f.resources[0].detail, "muted indefinitely (no expiry set)");
    assert_eq!(f.resources[1].detail, "muted for 40 more days");
}

#[test]
fn pager_burden_ranks_by_pages_then_alerting() {
    let mut a = monitor(1, "a");
    a.message = Some("@pagerduty-prod @slack-x".into());
    a.tags = Some(vec!["env:prod".into(), "team:core".into()]);
    let mut b = monitor(2, "b");
    b.message = Some("@oncall-platform".into());
    b.overall_state = Some(MonitorState::Alert);
    b.renotify_interval = Some(30);
    let mut c = monitor(3, "c");
    c.message = Some("@opsgenie-sre".into());
    c.overall_state = Some(MonitorState::Alert);
    let mut quiet = monitor(4, "quiet");
    quiet.message = Some("@victorops-t".into());
    let mut nopager = monitor(5, "nopager");
    nopager.overall_state = Some(MonitorState::Alert);
    let counts = vec![(1, 3), (2, 3), (5, 9)];
    let f = check_pager_burden(&vec![a, b, c, quiet, nopager], &counts);
    assert_eq!(f.check, "pager-burden");
    assert_eq!(f.count, 3);
    assert_eq!(f.resources[0].id, 2);
    assert_eq!(
        f.resources[0].detail,
        "3 pages (30d), currently alerting via Datadog On-Call (@oncall-platform), re-notifying every 30 min"
    );
    assert_eq!(f.resources[1].id, 1);
    assert_eq!(f.resources[1].detail, "3 pages (30d) via PagerDuty (@pagerduty-prod) [team:core]");
    assert_eq!(f.resources[2].id, 3);
    assert_eq!(f.resources[2].detail, "currently alerting via OpsGenie (@opsgenie-sre)");
}

#[test]
fn alert_events_are_tallied_per_monitor() {
    let ev = |t: Option<&str>, id: Option<i64>| AlertEvent {
        alert_type: t.map(String::from),
        monitor_id: id,
    };
    let counts = tally_alert_events(&vec![
        ev(Some("error"), Some(7)),
        ev(Some("warning"), Some(7)),
        ev(Some("success"), Some(7)),
        ev(Some("error"), None),
        ev(None, Some(8)),
        ev(Some("warning"), Some(9)),
    ]);
    assert_eq!(counts, vec![(7, 2), (9, 1)]);
    assert!(tally_alert_events(&vec![]).is_empty());
}

#[test]
fn check_selection_and_severity_filter() {
    assert_eq!(selected_checks(None).unwrap().len(), 7);
    assert_eq!(
        selected_checks(Some("pager-burden")).unwrap(),
        vec![AuditCheck::PagerBurden]
    );
    assert_eq!(
        selected_checks(Some("nope")).unwrap_err(),
        AuditError::UnknownCheck { given: "nope".into() }
    );
    assert!(needs_alert_history(&selected_checks(None).unwrap()));
    assert!(!needs_alert_history(&selected_checks(Some("stale-monitors")).unwrap()));

    let mut quiet = monitor(1, "quiet");
    quiet.message = Some("nobody".into());
    quiet.tags = None;
    let ms = vec![quiet];
    let all = selected_checks(None).unwrap();

    let r = run_checks(&all, &ms, &vec![], None, 0);
    assert_eq!(r.findings.len(), 2);
    assert_eq!(r.findings[0].check, "silent-monitors");
    assert_eq!(r.findings[1].check, "untagged-monitors");
    assert_eq!((r.critical, r.warnings, r.infos), (1, 1, 0));
    assert_eq!(r.passed.len(), 5);

    let r = run_checks(&all, &ms, &vec![], Some("critical"), 0);
    assert_eq!(r.findings.len(), 1);
    assert_eq!((r.critical, r.warnings, r.infos), (1, 0, 0));
    assert!(r.passed.contains(&"untagged-monitors"));
}
