use vstd::prelude::*;

use crate::callback::texts;
use crate::oauth::joined;
use crate::org_map::opt_string;
use crate::text::{contains_char, decimal, has_prefix, push_decimal, same_text, starts_with_text};

verus! {

/// How serious an audit finding is.
#[derive(Debug, Clone, Copy, PartialEq, Eq, Structural)]
pub enum Severity {
    Critical,
    Warning,
    Info,
}

impl Severity {
    /// The label printed in front of a finding.
    pub fn label(&self) -> (r: &'static str)
        ensures
            r@ == match self {
                Severity::Critical => "CRITICAL"@,
                Severity::Warning => "WARNING"@,
                Severity::Info => "INFO"@,
            },
    {
        match self {
            Severity::Critical => "CRITICAL",
            Severity::Warning => "WARNING",
            Severity::Info => "INFO",
        }
    }
}

/// The kind of a notification @-handle, by how it reaches people.
#[derive(Debug, Clone, Copy, PartialEq, Eq, Structural)]
pub enum HandleKind {
    /// Datadog On-Call (`@oncall-<schedule>`).
    DdOnCall,
    /// PagerDuty (`@pagerduty` or `@pagerduty-<service>`).
    PagerDuty,
    /// OpsGenie (`@opsgenie-<team>`).
    OpsGenie,
    /// VictorOps / Splunk On-Call (`@victorops-<team>`).
    VictorOps,
    /// Everything else: chat, email, webhooks.
    Other,
}

/// The display name of a handle kind.
pub open spec fn kind_display(k: HandleKind) -> Seq<char> {
    match k {
        HandleKind::DdOnCall => "Datadog On-Call"@,
        HandleKind::PagerDuty => "PagerDuty"@,
        HandleKind::OpsGenie => "OpsGenie"@,
        HandleKind::VictorOps => "VictorOps"@,
        HandleKind::Other => "other"@,
    }
}

impl HandleKind {
    /// Whether handles of this kind page a person.
    pub fn is_pager(self) -> (r: bool)
        ensures
            r == (self != HandleKind::Other),
    {
        !matches!(self, HandleKind::Other)
    }

    /// The kind's display name.
    pub fn display(self) -> (r: &'static str)
        ensures
            r@ == kind_display(self),
    {
        match self {
            HandleKind::DdOnCall => "Datadog On-Call",
            HandleKind::PagerDuty => "PagerDuty",
            HandleKind::OpsGenie => "OpsGenie",
            HandleKind::VictorOps => "VictorOps",
            HandleKind::Other => "other",
        }
    }
}

/// The kind of a bare handle (without its '@'), by prefix.
pub open spec fn kind_of(h: Seq<char>) -> HandleKind {
    if has_prefix(h, "oncall-"@) {
        HandleKind::DdOnCall
    } else if has_prefix(h, "pagerduty"@) {
        HandleKind::PagerDuty
    } else if has_prefix(h, "opsgenie-"@) {
        HandleKind::OpsGenie
    } else if has_prefix(h, "victorops-"@) {
        HandleKind::VictorOps
    } else {
        HandleKind::Other
    }
}

/// Classifies a bare handle name (without the leading '@').
pub fn classify_handle(handle: &str) -> (r: HandleKind)
    ensures
        r == kind_of(handle@),
{
    if starts_with_text(handle, "oncall-") {
        HandleKind::DdOnCall
    } else if starts_with_text(handle, "pagerduty") {
        HandleKind::PagerDuty
    } else if starts_with_text(handle, "opsgenie-") {
        HandleKind::OpsGenie
    } else if starts_with_text(handle, "victorops-") {
        HandleKind::VictorOps
    } else {
        HandleKind::Other
    }
}

/// Characters a handle is made of: ASCII letters and digits, '-' and '_'.
pub open spec fn is_handle_char(c: char) -> bool {
    ('a' <= c && c <= 'z') || ('A' <= c && c <= 'Z') || ('0' <= c && c <= '9') || c == '-' || c
        == '_'
}

fn handle_char(c: char) -> (r: bool)
    ensures
        r == is_handle_char(c),
{
    ('a' <= c && c <= 'z') || ('A' <= c && c <= 'Z') || ('0' <= c && c <= '9') || c == '-' || c
        == '_'
}

/// Length of the run of handle characters starting at `start`.
pub open spec fn handle_run(s: Seq<char>, start: int) -> int
    decreases s.len() - start,
{
    if 0 <= start < s.len() && is_handle_char(s[start]) {
        1 + handle_run(s, start + 1)
    } else {
        0
    }
}

/// The handles of `s` from position `i` on: each '@' followed by a non-empty run of
/// handle characters gives the run; the scan resumes after the run.
pub open spec fn handles_from(s: Seq<char>, i: int) -> Seq<Seq<char>>
    decreases s.len() - i,
    via handles_from_decreases
{
    if i < 0 || i >= s.len() {
        Seq::empty()
    } else if s[i] == '@' {
        let n = handle_run(s, i + 1);
        if n > 0 {
            seq![s.subrange(i + 1, i + 1 + n)] + handles_from(s, i + 1 + n)
        } else {
            handles_from(s, i + 1)
        }
    } else {
        handles_from(s, i + 1)
    }
}

#[via_fn]
proof fn handles_from_decreases(s: Seq<char>, i: int) {
    if 0 <= i < s.len() && s[i] == '@' {
        lemma_handle_run_bounds(s, i + 1);
    }
}

proof fn lemma_handle_run_bounds(s: Seq<char>, start: int)
    requires
        0 <= start,
    ensures
        0 <= handle_run(s, start),
        start < s.len() ==> start + handle_run(s, start) <= s.len(),
    decreases s.len() - start,
{
    if 0 <= start < s.len() && is_handle_char(s[start]) {
        lemma_handle_run_bounds(s, start + 1);
    }
}

/// Every `@handle` in a monitor message, in order. A handle is a non-empty run of
/// ASCII letters, digits, '-' and '_' right after '@'.
pub fn extract_handles<'a>(msg: &'a str) -> (r: Vec<&'a str>)
    ensures
        r@.map_values(|h: &str| h@) == handles_from(msg@, 0),
{
    let n = msg.unicode_len();
    let mut out: Vec<&'a str> = Vec::new();
    let mut i: usize = 0;
    while i < n
        invariant
            n == msg@.len(),
            i <= n,
            handles_from(msg@, 0) == out@.map_values(|h: &str| h@) + handles_from(msg@, i as int),
        decreases n - i,
    {
        if msg.get_char(i) == '@' {
            let start = i + 1;
            let mut j = start;
            proof {
                lemma_handle_run_bounds(msg@, start as int);
            }
            while j < n && handle_char(msg.get_char(j))
                invariant
                    n == msg@.len(),
                    start <= j <= n,
                    handle_run(msg@, start as int) == (j - start) + handle_run(msg@, j as int),
                decreases n - j,
            {
                j = j + 1;
            }
            let ghost before = out@.map_values(|h: &str| h@);
            if j > start {
                let h = msg.substring_char(start, j);
                out.push(h);
                assert(out@.map_values(|h: &str| h@) =~= before + seq![h@]);
            }
            i = j;
        } else {
            i = i + 1;
        }
    }
    out
}

/// Whether some handle before position `i` has kind `k`.
pub open spec fn kind_seen(hs: Seq<Seq<char>>, i: int, k: HandleKind) -> bool {
    exists|j: int| 0 <= j < i && kind_of(#[trigger] hs[j]) == k
}

/// "<tool> (@<handle>)" for the first handle of each pager kind, in order.
pub open spec fn tool_entries(hs: Seq<Seq<char>>) -> Seq<Seq<char>>
    decreases hs.len(),
{
    if hs.len() == 0 {
        Seq::empty()
    } else {
        let prev = tool_entries(hs.drop_last());
        let h = hs.last();
        let k = kind_of(h);
        if k != HandleKind::Other && !kind_seen(hs, hs.len() - 1, k) {
            prev.push(kind_display(k) + " (@"@ + h + ")"@)
        } else {
            prev
        }
    }
}

/// Describes the pager tools a monitor notifies, each kind once, as
/// "Datadog On-Call (@oncall-platform), PagerDuty (@pagerduty-prod)".
pub fn pager_tools_str(handles: &Vec<&str>) -> (r: String)
    ensures
        r@ == joined(tool_entries(handles@.map_values(|h: &str| h@)), ", "@),
{
    let ghost hs = handles@.map_values(|h: &str| h@);
    let mut out = String::new();
    let mut count: usize = 0;
    let mut seen_oncall = false;
    let mut seen_pd = false;
    let mut seen_og = false;
    let mut seen_vo = false;
    let mut i: usize = 0;
    while i < handles.len()
        invariant
            hs == handles@.map_values(|h: &str| h@),
            i <= handles@.len(),
            count == tool_entries(hs.subrange(0, i as int)).len(),
            count <= i,
            out@ == joined(tool_entries(hs.subrange(0, i as int)), ", "@),
            seen_oncall == kind_seen(hs, i as int, HandleKind::DdOnCall),
            seen_pd == kind_seen(hs, i as int, HandleKind::PagerDuty),
            seen_og == kind_seen(hs, i as int, HandleKind::OpsGenie),
            seen_vo == kind_seen(hs, i as int, HandleKind::VictorOps),
        decreases handles@.len() - i,
    {
        let h = handles[i];
        let k = classify_handle(h);
        let ghost sub = hs.subrange(0, i as int + 1);
        proof {
            assert(sub.drop_last() =~= hs.subrange(0, i as int));
            assert(sub.last() == h@);
            assert(forall|j: int| 0 <= j < i ==> sub[j] == hs[j]);
            assert(kind_seen(sub, i as int, k) == kind_seen(hs, i as int, k));
        }
        let seen = match k {
            HandleKind::DdOnCall => seen_oncall,
            HandleKind::PagerDuty => seen_pd,
            HandleKind::OpsGenie => seen_og,
            HandleKind::VictorOps => seen_vo,
            HandleKind::Other => true,
        };
        let ghost prev = tool_entries(hs.subrange(0, i as int));
        let ghost entry = kind_display(k) + " (@"@ + h@ + ")"@;
        proof {
            assert(tool_entries(sub) == if k != HandleKind::Other && !kind_seen(sub, i as int, k) {
                prev.push(entry)
            } else {
                prev
            });
            assert(prev.push(entry).drop_last() =~= prev);
        }
        if k.is_pager() && !seen {
            let ghost before = out@;
            if count > 0 {
                out.append(", ");
            }
            out.append(k.display());
            out.append(" (@");
            out.append(h);
            out.append(")");
            proof {
                if count == 0 {
                    assert(prev.len() == 0);
                    assert(prev.push(entry).len() == 1);
                    assert(prev.push(entry)[0] == entry);
                    assert(before == Seq::<char>::empty());
                    assert(out@ =~= entry);
                } else {
                    assert(prev.push(entry).last() == entry);
                    assert(out@ =~= before + ", "@ + entry);
                }
            }
            count = count + 1;
        }
        match k {
            HandleKind::DdOnCall => {
                seen_oncall = true;
            },
            HandleKind::PagerDuty => {
                seen_pd = true;
            },
            HandleKind::OpsGenie => {
                seen_og = true;
            },
            HandleKind::VictorOps => {
                seen_vo = true;
            },
            HandleKind::Other => {},
        }
        proof {
            assert forall|kk: HandleKind| #[trigger] kind_seen(hs, i as int + 1, kk) == (kind_seen(
                hs,
                i as int,
                kk,
            ) || kind_of(hs[i as int]) == kk) by {
                if kind_seen(hs, i as int + 1, kk) && !kind_seen(hs, i as int, kk) {
                    let j = choose|j: int| 0 <= j < i + 1 && kind_of(#[trigger] hs[j]) == kk;
                    assert(j == i);
                }
                if kind_of(hs[i as int]) == kk {
                    assert(kind_seen(hs, i as int + 1, kk));
                }
            }
        }
        i = i + 1;
    }
    assert(hs.subrange(0, handles@.len() as int) =~= hs);
    out
}

/// Name of the check for monitors that notify nobody.
pub const CHECK_SILENT: &'static str = "silent-monitors";
/// Name of the check for monitors in No Data state.
pub const CHECK_STALE: &'static str = "stale-monitors";
/// Name of the check for monitors muted indefinitely or for long.
pub const CHECK_MUTED: &'static str = "muted-forgotten";
/// Name of the check for monitors without tags.
pub const CHECK_UNTAGGED: &'static str = "untagged-monitors";
/// Name of the check for critical thresholds without a recovery threshold.
pub const CHECK_NO_RECOVERY: &'static str = "no-recovery-threshold";
/// Name of the check for short re-notification intervals.
pub const CHECK_FAST_RENOTIFY: &'static str = "fast-renotify-interval";
/// Name of the check for the monitors that page people most.
pub const CHECK_PAGER_BURDEN: &'static str = "pager-burden";

/// Every check: its name, severity and description, in the order they run.
pub open spec fn check_catalogue() -> Seq<(Seq<char>, Severity, Seq<char>)> {
    seq![
        (
            "silent-monitors"@,
            Severity::Critical,
            "Monitors with no notification channels — alerts fire into the void"@,
        ),
        (
            "stale-monitors"@,
            Severity::Warning,
            "Monitors in \"No Data\" state — abandoned or misconfigured data source"@,
        ),
        (
            "muted-forgotten"@,
            Severity::Warning,
            "Monitors muted indefinitely or for >30 days — meant to be temporary"@,
        ),
        (
            "untagged-monitors"@,
            Severity::Warning,
            "Monitors without any tags — can't be filtered, routed, or grouped"@,
        ),
        (
            "no-recovery-threshold"@,
            Severity::Info,
            "Monitors with no critical_recovery threshold — flapping risk"@,
        ),
        (
            "fast-renotify-interval"@,
            Severity::Info,
            "Monitors configured with renotify_interval ≤60 min — will spam on-call if they fire"@,
        ),
        (
            "pager-burden"@,
            Severity::Warning,
            "Top paging monitors by alert history (30d) — DD On-Call, PagerDuty, OpsGenie, VictorOps"@,
        ),
    ]
}

/// Lists every available check with its severity and description.
pub fn list_checks() -> (r: Vec<(&'static str, Severity, &'static str)>)
    ensures
        r@.map_values(|c: (&str, Severity, &str)| (c.0@, c.1, c.2@)) == check_catalogue(),
{
    let r = vec![
        (
            CHECK_SILENT,
            Severity::Critical,
            "Monitors with no notification channels — alerts fire into the void",
        ),
        (
            CHECK_STALE,
            Severity::Warning,
            "Monitors in \"No Data\" state — abandoned or misconfigured data source",
        ),
        (
            CHECK_MUTED,
            Severity::Warning,
            "Monitors muted indefinitely or for >30 days — meant to be temporary",
        ),
        (
            CHECK_UNTAGGED,
            Severity::Warning,
            "Monitors without any tags — can't be filtered, routed, or grouped",
        ),
        (
            CHECK_NO_RECOVERY,
            Severity::Info,
            "Monitors with no critical_recovery threshold — flapping risk",
        ),
        (
            CHECK_FAST_RENOTIFY,
            Severity::Info,
            "Monitors configured with renotify_interval ≤60 min — will spam on-call if they fire",
        ),
        (
            CHECK_PAGER_BURDEN,
            Severity::Warning,
            "Top paging monitors by alert history (30d) — DD On-Call, PagerDuty, OpsGenie, VictorOps",
        ),
    ];
    assert(r@.map_values(|c: (&str, Severity, &str)| (c.0@, c.1, c.2@)) =~= check_catalogue());
    r
}

/// A monitor's overall state, as far as the audit tells states apart.
#[derive(Debug, Clone, Copy, PartialEq, Eq, Structural)]
pub enum MonitorState {
    Alert,
    NoData,
    Other,
}

/// The fields of a monitor that the audit reads.
#[derive(Debug, Clone)]
pub struct MonitorInfo {
    pub id: Option<i64>,
    pub name: Option<String>,
    pub message: Option<String>,
    pub overall_state: Option<MonitorState>,
    pub tags: Option<Vec<String>>,
    /// Expiry (unix seconds) of each muted scope, `None` for one muted indefinitely;
    /// `None` when the monitor has no mute settings.
    pub silenced: Option<Vec<Option<i64>>>,
    /// A critical threshold is set.
    pub has_critical: bool,
    /// A critical recovery threshold is set.
    pub has_critical_recovery: bool,
    /// Re-notification interval in minutes.
    pub renotify_interval: Option<i64>,
}

/// One monitor named by a finding.
#[derive(Debug, Clone)]
pub struct Resource {
    pub id: i64,
    pub name: String,
    pub detail: String,
}

/// The values a resource holds.
pub open spec fn resource_view(r: Resource) -> (i64, Seq<char>, Seq<char>) {
    (r.id, r.name@, r.detail@)
}

/// The values of a list of resources.
pub open spec fn resources_view(rs: Seq<Resource>) -> Seq<(i64, Seq<char>, Seq<char>)> {
    rs.map_values(|r: Resource| resource_view(r))
}

/// The outcome of one check.
#[derive(Debug, Clone)]
pub struct Finding {
    pub check: &'static str,
    pub severity: Severity,
    pub count: usize,
    pub resources: Vec<Resource>,
    pub recommendation: &'static str,
}

/// The checks that look at one monitor at a time.
#[derive(Debug, Clone, Copy, PartialEq, Eq, Structural)]
pub enum MonitorCheck {
    Silent,
    Stale,
    Muted,
    Untagged,
    NoRecovery,
    FastRenotify,
}

/// Seconds in thirty days: a mute that lasts longer is taken as forgotten.
pub const THIRTY_DAYS_SECS: i64 = 2_592_000;

/// The monitor's id, or 0.
pub open spec fn monitor_id(m: MonitorInfo) -> i64 {
    match m.id {
        Some(i) => i,
        None => 0,
    }
}

/// The monitor's name, or "(unnamed)".
pub open spec fn monitor_name(m: MonitorInfo) -> Seq<char> {
    match m.name {
        Some(n) => n@,
        None => "(unnamed)"@,
    }
}

/// The latest expiry among the timed mutes, if any.
pub open spec fn latest_expiry(v: Seq<Option<i64>>) -> Option<i64>
    decreases v.len(),
{
    if v.len() == 0 {
        None
    } else {
        let rest = latest_expiry(v.drop_last());
        match v.last() {
            None => rest,
            Some(x) => match rest {
                None => Some(x),
                Some(y) => Some(
                    if x > y {
                        x
                    } else {
                        y
                    },
                ),
            },
        }
    }
}

/// Why a monitor's mutes look forgotten at time `now`, if they do.
pub open spec fn muted_detail(v: Seq<Option<i64>>, now: int) -> Option<Seq<char>> {
    if v.len() == 0 {
        None
    } else if exists|i: int| 0 <= i < v.len() && v[i] is None {
        Some("muted indefinitely (no expiry set)"@)
    } else {
        let until = match latest_expiry(v) {
            Some(x) => x as int,
            None => 0,
        };
        if until > now + 2_592_000 {
            Some("muted for "@ + decimal(((until - now) / 86400) as nat) + " more days"@)
        } else {
            None
        }
    }
}

/// Why check `c` flags monitor `m` at time `now`, if it does.
pub open spec fn check_detail(c: MonitorCheck, m: MonitorInfo, now: int) -> Option<Seq<char>> {
    match c {
        MonitorCheck::Silent => {
            let msg = match m.message {
                Some(s) => s@,
                None => Seq::empty(),
            };
            if !msg.contains('@') {
                Some("no notification channel (@-mention) in message"@)
            } else {
                None
            }
        },
        MonitorCheck::Stale => if m.overall_state == Some(MonitorState::NoData) {
            Some("monitor is in No Data state"@)
        } else {
            None
        },
        MonitorCheck::Muted => match m.silenced {
            Some(v) => muted_detail(v@, now),
            None => None,
        },
        MonitorCheck::Untagged => {
            let untagged = match m.tags {
                Some(t) => t@.len() == 0,
                None => true,
            };
            if untagged {
                Some("no tags set"@)
            } else {
                None
            }
        },
        MonitorCheck::NoRecovery => if m.has_critical && !m.has_critical_recovery {
            Some("critical threshold set but no critical_recovery threshold"@)
        } else {
            None
        },
        MonitorCheck::FastRenotify => match m.renotify_interval {
            Some(r) => if 0 < r && r <= 60 {
                Some("renotify_interval = "@ + decimal(r as nat) + " min"@)
            } else {
                None
            },
            None => None,
        },
    }
}

/// The resources check `c` reports for `ms` at time `now`, in monitor order.
pub open spec fn flagged(c: MonitorCheck, ms: Seq<MonitorInfo>, now: int) -> Seq<
    (i64, Seq<char>, Seq<char>),
>
    decreases ms.len(),
{
    if ms.len() == 0 {
        Seq::empty()
    } else {
        let prev = flagged(c, ms.drop_last(), now);
        match check_detail(c, ms.last(), now) {
            Some(d) => prev.push((monitor_id(ms.last()), monitor_name(ms.last()), d)),
            None => prev,
        }
    }
}

fn latest(v: &Vec<Option<i64>>) -> (r: Option<i64>)
    ensures
        r == latest_expiry(v@),
{
    let mut best: Option<i64> = None;
    let mut i: usize = 0;
    while i < v.len()
        invariant
            i <= v@.len(),
            best == latest_expiry(v@.subrange(0, i as int)),
        decreases v@.len() - i,
    {
        proof {
            assert(v@.subrange(0, i as int + 1).drop_last() =~= v@.subrange(0, i as int));
        }
        match v[i] {
            Some(x) => {
                best = match best {
                    None => Some(x),
                    Some(y) => Some(
                        if x > y {
                            x
                        } else {
                            y
                        },
                    ),
                };
            },
            None => {},
        }
        i = i + 1;
    }
    assert(v@.subrange(0, v@.len() as int) =~= v@);
    best
}

fn muted_reason(v: &Vec<Option<i64>>, now: i64) -> (r: Option<String>)
    ensures
        opt_string(r) == muted_detail(v@, now as int),
{
    if v.len() == 0 {
        return None;
    }
    let mut i: usize = 0;
    while i < v.len()
        invariant
            i <= v@.len(),
            forall|j: int| 0 <= j < i ==> v@[j] is Some,
        decreases v@.len() - i,
    {
        if v[i].is_none() {
            return Some(String::from_str("muted indefinitely (no expiry set)"));
        }
        i = i + 1;
    }
    let until: i64 = match latest(v) {
        Some(x) => x,
        None => 0,
    };
    if (until as i128) > (now as i128) + (THIRTY_DAYS_SECS as i128) {
        let days = (((until as i128) - (now as i128)) / 86400) as u64;
        let mut out = String::from_str("muted for ");
        push_decimal(&mut out, days);
        out.append(" more days");
        Some(out)
    } else {
        None
    }
}

/// Why check `c` flags monitor `m` at time `now`, if it does.
pub fn detail_for(c: MonitorCheck, m: &MonitorInfo, now: i64) -> (r: Option<String>)
    ensures
        opt_string(r) == check_detail(c, *m, now as int),
{
    match c {
        MonitorCheck::Silent => {
            let flagged = match &m.message {
                Some(s) => !contains_char(s.as_str(), '@'),
                None => true,
            };
            if flagged {
                Some(String::from_str("no notification channel (@-mention) in message"))
            } else {
                None
            }
        },
        MonitorCheck::Stale => match m.overall_state {
            Some(MonitorState::NoData) => Some(String::from_str("monitor is in No Data state")),
            _ => None,
        },
        MonitorCheck::Muted => match &m.silenced {
            Some(v) => muted_reason(v, now),
            None => None,
        },
        MonitorCheck::Untagged => {
            let untagged = match &m.tags {
                Some(t) => t.len() == 0,
                None => true,
            };
            if untagged {
                Some(String::from_str("no tags set"))
            } else {
                None
            }
        },
        MonitorCheck::NoRecovery => {
            if m.has_critical && !m.has_critical_recovery {
                Some(String::from_str("critical threshold set but no critical_recovery threshold"))
            } else {
                None
            }
        },
        MonitorCheck::FastRenotify => match m.renotify_interval {
            Some(r) => {
                if 0 < r && r <= 60 {
                    let mut out = String::from_str("renotify_interval = ");
                    push_decimal(&mut out, r as u64);
                    out.append(" min");
                    Some(out)
                } else {
                    None
                }
            },
            None => None,
        },
    }
}

/// The name of a check.
pub open spec fn check_name(c: MonitorCheck) -> Seq<char> {
    match c {
        MonitorCheck::Silent => "silent-monitors"@,
        MonitorCheck::Stale => "stale-monitors"@,
        MonitorCheck::Muted => "muted-forgotten"@,
        MonitorCheck::Untagged => "untagged-monitors"@,
        MonitorCheck::NoRecovery => "no-recovery-threshold"@,
        MonitorCheck::FastRenotify => "fast-renotify-interval"@,
    }
}

/// The severity of a check's findings.
pub open spec fn check_severity(c: MonitorCheck) -> Severity {
    match c {
        MonitorCheck::Silent => Severity::Critical,
        MonitorCheck::Stale | MonitorCheck::Muted | MonitorCheck::Untagged => Severity::Warning,
        MonitorCheck::NoRecovery | MonitorCheck::FastRenotify => Severity::Info,
    }
}

fn check_header(c: MonitorCheck) -> (r: (&'static str, Severity, &'static str))
    ensures
        r.0@ == check_name(c),
        r.1 == check_severity(c),
{
    match c {
        MonitorCheck::Silent => (
            CHECK_SILENT,
            Severity::Critical,
            "Add @mention or notification channel so alerts reach on-call responders",
        ),
        MonitorCheck::Stale => (
            CHECK_STALE,
            Severity::Warning,
            "Investigate missing data source or delete if the monitor is no longer needed",
        ),
        MonitorCheck::Muted => (
            CHECK_MUTED,
            Severity::Warning,
            "Review and unmute, or delete if the monitor is no longer needed",
        ),
        MonitorCheck::Untagged => (
            CHECK_UNTAGGED,
            Severity::Warning,
            "Add tags (e.g. team:, service:, env:) so monitors can be filtered, routed, and grouped",
        ),
        MonitorCheck::NoRecovery => (
            CHECK_NO_RECOVERY,
            Severity::Info,
            "Set a critical_recovery threshold to add hysteresis and prevent alert flapping",
        ),
        MonitorCheck::FastRenotify => (
            CHECK_FAST_RENOTIFY,
            Severity::Info,
            "Consider raising renotify_interval (>60 min) to avoid notification storms if this monitor fires",
        ),
    }
}

/// Runs one per-monitor check at time `now`: every flagged monitor, in order.
pub fn run_check(c: MonitorCheck, monitors: &Vec<MonitorInfo>, now: i64) -> (r: Finding)
    ensures
        resources_view(r.resources@) == flagged(c, monitors@, now as int),
        r.count == r.resources@.len(),
        r.check@ == check_name(c),
        r.severity == check_severity(c),
{
    let mut resources: Vec<Resource> = Vec::new();
    let mut i: usize = 0;
    while i < monitors.len()
        invariant
            i <= monitors@.len(),
            resources_view(resources@) == flagged(c, monitors@.subrange(0, i as int), now as int),
        decreases monitors@.len() - i,
    {
        let m = &monitors[i];
        proof {
            let sub = monitors@.subrange(0, i as int + 1);
            assert(sub.drop_last() =~= monitors@.subrange(0, i as int));
            assert(sub.last() == *m);
        }
        match detail_for(c, m, now) {
            Some(detail) => {
                let id = match m.id {
                    Some(x) => x,
                    None => 0,
                };
                let name = match &m.name {
                    Some(n) => n.clone(),
                    None => String::from_str("(unnamed)"),
                };
                resources.push(Resource { id, name, detail });
                assert(resources_view(resources@) =~= flagged(
                    c,
                    monitors@.subrange(0, i as int),
                    now as int,
                ).push(resource_view(resources@.last())));
            },
            None => {},
        }
        i = i + 1;
    }
    assert(monitors@.subrange(0, monitors@.len() as int) =~= monitors@);
    let (check, severity, recommendation) = check_header(c);
    let count = resources.len();
    Finding { check, severity, count, resources, recommendation }
}

/// Days of alert history the pager-burden check looks back over.
pub const PAGER_LOOKBACK_DAYS: u32 = 30;

/// The handles that page a person, in order.
pub open spec fn pager_only(hs: Seq<Seq<char>>) -> Seq<Seq<char>>
    decreases hs.len(),
{
    if hs.len() == 0 {
        Seq::empty()
    } else {
        let p = pager_only(hs.drop_last());
        if kind_of(hs.last()) != HandleKind::Other {
            p.push(hs.last())
        } else {
            p
        }
    }
}

/// Alert count of monitor `id`: the first entry for it, or 0.
pub open spec fn count_for(counts: Seq<(i64, u32)>, id: i64) -> u32
    decreases counts.len(),
{
    if counts.len() == 0 {
        0
    } else if counts[0].0 == id {
        counts[0].1
    } else {
        count_for(counts.drop_first(), id)
    }
}

/// The first tag that starts with "team:".
pub open spec fn team_tag(tags: Seq<Seq<char>>) -> Option<Seq<char>>
    decreases tags.len(),
{
    if tags.len() == 0 {
        None
    } else if has_prefix(tags[0], "team:"@) {
        Some(tags[0])
    } else {
        team_tag(tags.drop_first())
    }
}

/// " [team:...]" for a monitor with a team tag, else nothing.
pub open spec fn team_suffix(m: MonitorInfo) -> Seq<char> {
    match m.tags {
        Some(t) => match team_tag(texts(t@)) {
            Some(tag) => " ["@ + tag + "]"@,
            None => Seq::empty(),
        },
        None => Seq::empty(),
    }
}

/// ", re-notifying every <n> min" for a positive interval, else nothing.
pub open spec fn renotify_suffix(m: MonitorInfo) -> Seq<char> {
    match m.renotify_interval {
        Some(r) => if r > 0 {
            ", re-notifying every "@ + decimal(r as nat) + " min"@
        } else {
            Seq::empty()
        },
        None => Seq::empty(),
    }
}

/// The pager handles of a monitor's message.
pub open spec fn monitor_pagers(m: MonitorInfo) -> Seq<Seq<char>> {
    pager_only(
        handles_from(
            match m.message {
                Some(s) => s@,
                None => Seq::empty(),
            },
            0,
        ),
    )
}

/// The pager-burden entry of a monitor: its sort key (twice the page count, plus one
/// when alerting now) and its resource; none for a monitor without pager handles or
/// that neither paged nor alerts now.
pub open spec fn burden_entry(m: MonitorInfo, counts: Seq<(i64, u32)>) -> Option<
    (u64, (i64, Seq<char>, Seq<char>)),
> {
    let pagers = monitor_pagers(m);
    let n = count_for(counts, monitor_id(m));
    let active = m.overall_state == Some(MonitorState::Alert);
    if pagers.len() == 0 || (n == 0 && !active) {
        None
    } else {
        let tail = joined(tool_entries(pagers), ", "@) + renotify_suffix(m) + team_suffix(m);
        let detail = if n == 0 {
            "currently alerting via "@ + tail
        } else if active {
            decimal(n as nat) + " pages (30d), currently alerting via "@ + tail
        } else {
            decimal(n as nat) + " pages (30d) via "@ + tail
        };
        Some(
            (
                (2 * n + if active {
                    1int
                } else {
                    0int
                }) as u64,
                (monitor_id(m), monitor_name(m), detail),
            ),
        )
    }
}

/// The pager-burden entries of `ms`, in monitor order.
pub open spec fn burden_entries(ms: Seq<MonitorInfo>, counts: Seq<(i64, u32)>) -> Seq<
    (u64, (i64, Seq<char>, Seq<char>)),
>
    decreases ms.len(),
{
    if ms.len() == 0 {
        Seq::empty()
    } else {
        let prev = burden_entries(ms.drop_last(), counts);
        match burden_entry(ms.last(), counts) {
            Some(e) => prev.push(e),
            None => prev,
        }
    }
}

/// Inserts `x` after every entry whose key is at least `x`'s.
pub open spec fn insert_desc<T>(sorted: Seq<(u64, T)>, x: (u64, T)) -> Seq<(u64, T)>
    decreases sorted.len(),
{
    if sorted.len() == 0 {
        seq![x]
    } else if sorted.last().0 >= x.0 {
        sorted.push(x)
    } else {
        insert_desc(sorted.drop_last(), x).push(sorted.last())
    }
}

/// Stable sort by key, highest first: equal keys keep their order.
pub open spec fn sort_desc<T>(s: Seq<(u64, T)>) -> Seq<(u64, T)>
    decreases s.len(),
{
    if s.len() == 0 {
        Seq::empty()
    } else {
        insert_desc(sort_desc(s.drop_last()), s.last())
    }
}

proof fn lemma_insert_desc_at<T>(sorted: Seq<(u64, T)>, x: (u64, T), j: int)
    requires
        0 <= j <= sorted.len(),
        forall|k: int| j <= k < sorted.len() ==> #[trigger] sorted[k].0 < x.0,
        j == 0 || sorted[j - 1].0 >= x.0,
    ensures
        insert_desc(sorted, x) == sorted.insert(j, x),
    decreases sorted.len(),
{
    if sorted.len() == 0 {
        assert(sorted.insert(j, x) =~= seq![x]);
    } else if j == sorted.len() {
        assert(sorted.insert(j, x) =~= sorted.push(x));
    } else {
        let d = sorted.drop_last();
        assert(sorted[sorted.len() - 1].0 < x.0);
        assert forall|k: int| j <= k < d.len() implies #[trigger] d[k].0 < x.0 by {
            assert(d[k] == sorted[k]);
        }
        if j > 0 {
            assert(d[j - 1] == sorted[j - 1]);
        }
        lemma_insert_desc_at(d, x, j);
        assert(sorted.insert(j, x) =~= d.insert(j, x).push(sorted.last()));
    }
}

/// The resources of sort entries, keys dropped.
pub open spec fn resources_of(s: Seq<(u64, (i64, Seq<char>, Seq<char>))>) -> Seq<
    (i64, Seq<char>, Seq<char>),
> {
    s.map_values(|e: (u64, (i64, Seq<char>, Seq<char>))| e.1)
}

/// The values of sort entries.
pub open spec fn entries_view(v: Seq<(u64, Resource)>) -> Seq<(u64, (i64, Seq<char>, Seq<char>))> {
    v.map_values(|e: (u64, Resource)| (e.0, resource_view(e.1)))
}

fn insert_sorted(sorted: &mut Vec<(u64, Resource)>, x: (u64, Resource))
    ensures
        entries_view(final(sorted)@) == insert_desc(
            entries_view(old(sorted)@),
            (x.0, resource_view(x.1)),
        ),
{
    let ghost xv = (x.0, resource_view(x.1));
    let mut j = sorted.len();
    while j > 0 && sorted[j - 1].0 < x.0
        invariant
            j <= sorted@.len(),
            forall|k: int| j <= k < sorted@.len() ==> #[trigger] sorted@[k].0 < x.0,
        decreases j,
    {
        j = j - 1;
    }
    proof {
        let v = entries_view(sorted@);
        assert forall|k: int| j <= k < v.len() implies #[trigger] v[k].0 < xv.0 by {
            assert(v[k].0 == sorted@[k].0);
        }
        if j > 0 {
            assert(v[j - 1].0 == sorted@[j - 1].0);
        }
        lemma_insert_desc_at(v, xv, j as int);
    }
    sorted.insert(j, x);
    assert(entries_view(sorted@) =~= entries_view(old(sorted)@).insert(j as int, xv));
}

fn count_of(counts: &Vec<(i64, u32)>, id: i64) -> (r: u32)
    ensures
        r == count_for(counts@, id),
{
    let mut i: usize = 0;
    assert(counts@.subrange(0, counts@.len() as int) =~= counts@);
    while i < counts.len()
        invariant
            i <= counts@.len(),
            count_for(counts@, id) == count_for(counts@.subrange(i as int, counts@.len() as int), id),
        decreases counts@.len() - i,
    {
        let ghost rest = counts@.subrange(i as int, counts@.len() as int);
        assert(rest[0] == counts@[i as int]);
        if counts[i].0 == id {
            return counts[i].1;
        }
        assert(rest.drop_first() =~= counts@.subrange(i as int + 1, counts@.len() as int));
        i = i + 1;
    }
    0
}

fn team_of(m: &MonitorInfo) -> (r: String)
    ensures
        r@ == team_suffix(*m),
{
    match &m.tags {
        None => String::new(),
        Some(tags) => {
            let ghost tv = texts(tags@);
            let mut i: usize = 0;
            assert(tv.subrange(0, tv.len() as int) =~= tv);
            while i < tags.len()
                invariant
                    m.tags == Some(*tags),
                    tv == texts(tags@),
                    i <= tags@.len(),
                    team_tag(tv) == team_tag(tv.subrange(i as int, tv.len() as int)),
                decreases tags@.len() - i,
            {
                let ghost rest = tv.subrange(i as int, tv.len() as int);
                assert(rest.len() > 0);
                assert(rest[0] == tags@[i as int]@);
                if starts_with_text(tags[i].as_str(), "team:") {
                    assert(team_tag(rest) == Some(tags@[i as int]@));
                    let mut out = String::from_str(" [");
                    out.append(tags[i].as_str());
                    out.append("]");
                    return out;
                }
                assert(rest.drop_first() =~= tv.subrange(i as int + 1, tv.len() as int));
                i = i + 1;
            }
            String::new()
        },
    }
}

fn renotify_text(m: &MonitorInfo) -> (r: String)
    ensures
        r@ == renotify_suffix(*m),
{
    match m.renotify_interval {
        Some(r) => {
            if r > 0 {
                let mut out = String::from_str(", re-notifying every ");
                push_decimal(&mut out, r as u64);
                out.append(" min");
                out
            } else {
                String::new()
            }
        },
        None => String::new(),
    }
}

fn pager_handles_of<'a>(msg: &'a str) -> (r: Vec<&'a str>)
    ensures
        r@.map_values(|h: &str| h@) == pager_only(handles_from(msg@, 0)),
{
    let all = extract_handles(msg);
    let ghost hv = all@.map_values(|h: &str| h@);
    let mut out: Vec<&'a str> = Vec::new();
    let mut i: usize = 0;
    while i < all.len()
        invariant
            hv == all@.map_values(|h: &str| h@),
            i <= all@.len(),
            out@.map_values(|h: &str| h@) == pager_only(hv.subrange(0, i as int)),
        decreases all@.len() - i,
    {
        proof {
            assert(hv.subrange(0, i as int + 1).drop_last() =~= hv.subrange(0, i as int));
        }
        let h = all[i];
        if classify_handle(h).is_pager() {
            let ghost before = out@.map_values(|h: &str| h@);
            out.push(h);
            assert(out@.map_values(|h: &str| h@) =~= before.push(h@));
        }
        i = i + 1;
    }
    assert(hv.subrange(0, all@.len() as int) =~= hv);
    out
}

fn burden_of(m: &MonitorInfo, counts: &Vec<(i64, u32)>) -> (r: Option<(u64, Resource)>)
    ensures
        match r {
            Some(e) => burden_entry(*m, counts@) == Some((e.0, resource_view(e.1))),
            None => burden_entry(*m, counts@) is None,
        },
{
    let msg: &str = match &m.message {
        Some(s) => s.as_str(),
        None => "",
    };
    proof {
        reveal_strlit("");
    }
    let pagers = pager_handles_of(msg);
    assert(pagers@.map_values(|h: &str| h@) == monitor_pagers(*m));
    let id = match m.id {
        Some(x) => x,
        None => 0,
    };
    let n = count_of(counts, id);
    let active = match m.overall_state {
        Some(MonitorState::Alert) => true,
        _ => false,
    };
    if pagers.len() == 0 || (n == 0 && !active) {
        return None;
    }
    let mut tail = pager_tools_str(&pagers);
    let renotify = renotify_text(m);
    tail.append(renotify.as_str());
    let team = team_of(m);
    tail.append(team.as_str());
    let mut detail = String::new();
    if n == 0 {
        detail.append("currently alerting via ");
    } else if active {
        push_decimal(&mut detail, n as u64);
        detail.append(" pages (30d), currently alerting via ");
    } else {
        push_decimal(&mut detail, n as u64);
        detail.append(" pages (30d) via ");
    }
    detail.append(tail.as_str());
    let name = match &m.name {
        Some(x) => x.clone(),
        None => String::from_str("(unnamed)"),
    };
    let key: u64 = (n as u64) * 2 + if active {
        1
    } else {
        0
    };
    Some((key, Resource { id, name, detail }))
}

/// The top paging monitors: those with pager handles that paged within the lookback
/// window (per `alert_counts`, by monitor id) or alert now, most pages first, with
/// monitors alerting now ahead of others with as many pages.
pub fn check_pager_burden(monitors: &Vec<MonitorInfo>, alert_counts: &Vec<(i64, u32)>) -> (r:
    Finding)
    ensures
        resources_view(r.resources@) == resources_of(
            sort_desc(burden_entries(monitors@, alert_counts@)),
        ),
        r.count == r.resources@.len(),
        r.check@ == "pager-burden"@,
        r.severity == Severity::Warning,
{
    let mut sorted: Vec<(u64, Resource)> = Vec::new();
    let mut i: usize = 0;
    while i < monitors.len()
        invariant
            i <= monitors@.len(),
            entries_view(sorted@) == sort_desc(
                burden_entries(monitors@.subrange(0, i as int), alert_counts@),
            ),
        decreases monitors@.len() - i,
    {
        let ghost sub = monitors@.subrange(0, i as int + 1);
        proof {
            assert(sub.drop_last() =~= monitors@.subrange(0, i as int));
            assert(sub.last() == monitors@[i as int]);
        }
        let ghost be = burden_entries(monitors@.subrange(0, i as int), alert_counts@);
        match burden_of(&monitors[i], alert_counts) {
            Some(e) => {
                let ghost x = (e.0, resource_view(e.1));
                proof {
                    assert(burden_entries(sub, alert_counts@) == be.push(x));
                    assert(be.push(x).drop_last() =~= be);
                    assert(be.push(x).last() == x);
                    assert(sort_desc(be.push(x)) == insert_desc(sort_desc(be), x));
                }
                insert_sorted(&mut sorted, e);
            },
            None => {
                assert(burden_entries(sub, alert_counts@) == be);
            },
        }
        i = i + 1;
    }
    assert(monitors@.subrange(0, monitors@.len() as int) =~= monitors@);
    let mut resources: Vec<Resource> = Vec::new();
    let mut k: usize = 0;
    while k < sorted.len()
        invariant
            k <= sorted@.len(),
            entries_view(sorted@) == sort_desc(burden_entries(monitors@, alert_counts@)),
            resources_view(resources@) == resources_of(entries_view(sorted@).subrange(0, k as int)),
        decreases sorted@.len() - k,
    {
        let r = &sorted[k].1;
        let ghost before = resources_view(resources@);
        let copy = Resource { id: r.id, name: r.name.clone(), detail: r.detail.clone() };
        resources.push(copy);
        proof {
            let ev = entries_view(sorted@);
            assert(ev[k as int].1 == resource_view(*r));
            assert(resource_view(copy) == resource_view(*r));
            assert(resources_view(resources@) =~= before.push(resource_view(copy)));
            assert(resources_of(ev.subrange(0, k as int + 1)) =~= resources_of(
                ev.subrange(0, k as int),
            ).push(ev[k as int].1));
        }
        k = k + 1;
    }
    assert(entries_view(sorted@).subrange(0, sorted@.len() as int) =~= entries_view(sorted@));
    let count = resources.len();
    Finding {
        check: CHECK_PAGER_BURDEN,
        severity: Severity::Warning,
        count,
        resources,
        recommendation: "Investigate top contributors — Datadog On-Call and PagerDuty pages wake up on-call responders",
    }
}

/// Every audit check.
#[derive(Debug, Clone, Copy, PartialEq, Eq, Structural)]
pub enum AuditCheck {
    Each(MonitorCheck),
    PagerBurden,
}

/// Why an audit could not run.
#[derive(Debug, Clone, PartialEq, Eq)]
pub enum AuditError {
    /// The requested check does not exist.
    UnknownCheck { given: String },
}

/// All checks, in the order they run.
pub open spec fn all_checks() -> Seq<AuditCheck> {
    seq![
        AuditCheck::Each(MonitorCheck::Silent),
        AuditCheck::Each(MonitorCheck::Stale),
        AuditCheck::Each(MonitorCheck::Muted),
        AuditCheck::Each(MonitorCheck::Untagged),
        AuditCheck::Each(MonitorCheck::NoRecovery),
        AuditCheck::Each(MonitorCheck::FastRenotify),
        AuditCheck::PagerBurden,
    ]
}

/// The name of any check.
pub open spec fn audit_name(c: AuditCheck) -> Seq<char> {
    match c {
        AuditCheck::Each(m) => check_name(m),
        AuditCheck::PagerBurden => "pager-burden"@,
    }
}

/// The check with a given name.
pub open spec fn check_named(name: Seq<char>) -> Option<AuditCheck> {
    if name == "silent-monitors"@ {
        Some(AuditCheck::Each(MonitorCheck::Silent))
    } else if name == "stale-monitors"@ {
        Some(AuditCheck::Each(MonitorCheck::Stale))
    } else if name == "muted-forgotten"@ {
        Some(AuditCheck::Each(MonitorCheck::Muted))
    } else if name == "untagged-monitors"@ {
        Some(AuditCheck::Each(MonitorCheck::Untagged))
    } else if name == "no-recovery-threshold"@ {
        Some(AuditCheck::Each(MonitorCheck::NoRecovery))
    } else if name == "fast-renotify-interval"@ {
        Some(AuditCheck::Each(MonitorCheck::FastRenotify))
    } else if name == "pager-burden"@ {
        Some(AuditCheck::PagerBurden)
    } else {
        None
    }
}

fn all_check_list() -> (r: Vec<AuditCheck>)
    ensures
        r@ == all_checks(),
{
    let r = vec![
        AuditCheck::Each(MonitorCheck::Silent),
        AuditCheck::Each(MonitorCheck::Stale),
        AuditCheck::Each(MonitorCheck::Muted),
        AuditCheck::Each(MonitorCheck::Untagged),
        AuditCheck::Each(MonitorCheck::NoRecovery),
        AuditCheck::Each(MonitorCheck::FastRenotify),
        AuditCheck::PagerBurden,
    ];
    assert(r@ =~= all_checks());
    r
}

fn lookup_check(name: &str) -> (r: Option<AuditCheck>)
    ensures
        r == check_named(name@),
{
    if same_text(name, CHECK_SILENT) {
        Some(AuditCheck::Each(MonitorCheck::Silent))
    } else if same_text(name, CHECK_STALE) {
        Some(AuditCheck::Each(MonitorCheck::Stale))
    } else if same_text(name, CHECK_MUTED) {
        Some(AuditCheck::Each(MonitorCheck::Muted))
    } else if same_text(name, CHECK_UNTAGGED) {
        Some(AuditCheck::Each(MonitorCheck::Untagged))
    } else if same_text(name, CHECK_NO_RECOVERY) {
        Some(AuditCheck::Each(MonitorCheck::NoRecovery))
    } else if same_text(name, CHECK_FAST_RENOTIFY) {
        Some(AuditCheck::Each(MonitorCheck::FastRenotify))
    } else if same_text(name, CHECK_PAGER_BURDEN) {
        Some(AuditCheck::PagerBurden)
    } else {
        None
    }
}

/// The checks to run: all of them, or the one named.
pub fn selected_checks(check: Option<&str>) -> (r: Result<Vec<AuditCheck>, AuditError>)
    ensures
        check is None ==> (r matches Ok(v) && v@ == all_checks()),
        check is Some ==> match check_named(check->0@) {
            Some(c) => (r matches Ok(v) && v@ == seq![c]),
            None => (r matches Err(AuditError::UnknownCheck { given }) && given@ == check->0@),
        },
{
    match check {
        None => Ok(all_check_list()),
        Some(name) => match lookup_check(name) {
            Some(c) => {
                let mut v: Vec<AuditCheck> = Vec::new();
                v.push(c);
                assert(v@ =~= seq![c]);
                Ok(v)
            },
            None => Err(AuditError::UnknownCheck { given: String::from_str(name) }),
        },
    }
}

/// Whether the pager-burden check is among the checks, so that alert history is needed.
pub fn needs_alert_history(checks: &Vec<AuditCheck>) -> (r: bool)
    ensures
        r == checks@.contains(AuditCheck::PagerBurden),
{
    let mut i: usize = 0;
    while i < checks.len()
        invariant
            i <= checks@.len(),
            forall|j: int| 0 <= j < i ==> checks@[j] != AuditCheck::PagerBurden,
        decreases checks@.len() - i,
    {
        if checks[i] == AuditCheck::PagerBurden {
            return true;
        }
        i = i + 1;
    }
    false
}

/// The lowest severity a filter keeps: "critical", "warning", or anything else for all.
pub fn min_severity(filter: &str) -> (r: Severity)
    ensures
        r == if filter@ == "critical"@ {
            Severity::Critical
        } else if filter@ == "warning"@ {
            Severity::Warning
        } else {
            Severity::Info
        },
{
    if same_text(filter, "critical") {
        Severity::Critical
    } else if same_text(filter, "warning") {
        Severity::Warning
    } else {
        Severity::Info
    }
}

/// Whether a finding of severity `sev` is reported under the minimum `min`.
pub open spec fn included(min: Option<Severity>, sev: Severity) -> bool {
    match min {
        None => true,
        Some(Severity::Critical) => sev == Severity::Critical,
        Some(Severity::Warning) => sev != Severity::Info,
        Some(Severity::Info) => true,
    }
}

/// The values a finding holds.
pub open spec fn finding_view(f: Finding) -> (Seq<char>, Severity, Seq<(i64, Seq<char>, Seq<char>)>) {
    (f.check@, f.severity, resources_view(f.resources@))
}

/// What check `c` finds.
pub open spec fn finding_of(
    c: AuditCheck,
    ms: Seq<MonitorInfo>,
    counts: Seq<(i64, u32)>,
    now: int,
) -> (Seq<char>, Severity, Seq<(i64, Seq<char>, Seq<char>)>) {
    match c {
        AuditCheck::Each(m) => (check_name(m), check_severity(m), flagged(m, ms, now)),
        AuditCheck::PagerBurden => (
            "pager-burden"@,
            Severity::Warning,
            resources_of(sort_desc(burden_entries(ms, counts))),
        ),
    }
}

/// The reported findings and the names of the checks that passed (nothing found, or
/// filtered out by severity), for the checks in order.
pub open spec fn audit_outcome(
    checks: Seq<AuditCheck>,
    ms: Seq<MonitorInfo>,
    counts: Seq<(i64, u32)>,
    min: Option<Severity>,
    now: int,
) -> (Seq<(Seq<char>, Severity, Seq<(i64, Seq<char>, Seq<char>)>)>, Seq<Seq<char>>)
    decreases checks.len(),
{
    if checks.len() == 0 {
        (Seq::empty(), Seq::empty())
    } else {
        let (fs, ps) = audit_outcome(checks.drop_last(), ms, counts, min, now);
        let f = finding_of(checks.last(), ms, counts, now);
        if f.2.len() > 0 && included(min, f.1) {
            (fs.push(f), ps)
        } else {
            (fs, ps.push(f.0))
        }
    }
}

/// How many findings have severity `sev`.
pub open spec fn count_severity(
    fs: Seq<(Seq<char>, Severity, Seq<(i64, Seq<char>, Seq<char>)>)>,
    sev: Severity,
) -> nat
    decreases fs.len(),
{
    if fs.len() == 0 {
        0
    } else {
        count_severity(fs.drop_last(), sev) + if fs.last().1 == sev {
            1nat
        } else {
            0nat
        }
    }
}

/// The result of an audit.
#[derive(Debug, Clone)]
pub struct VetResult {
    pub findings: Vec<Finding>,
    pub passed: Vec<&'static str>,
    pub critical: usize,
    pub warnings: usize,
    pub infos: usize,
}

/// Runs the given checks over `monitors` at time `now`, with `alert_counts` as paging
/// history. A check that finds nothing, or whose severity is below the filter's
/// minimum, passes; the others are reported, with counts per severity.
pub fn run_checks(
    checks: &Vec<AuditCheck>,
    monitors: &Vec<MonitorInfo>,
    alert_counts: &Vec<(i64, u32)>,
    severity_filter: Option<&str>,
    now: i64,
) -> (r: VetResult)
    ensures
        ({
            let min = match severity_filter {
                Some(f) => Some(
                    if f@ == "critical"@ {
                        Severity::Critical
                    } else if f@ == "warning"@ {
                        Severity::Warning
                    } else {
                        Severity::Info
                    },
                ),
                None => None,
            };
            let (fs, ps) = audit_outcome(checks@, monitors@, alert_counts@, min, now as int);
            &&& r.findings@.map_values(|f: Finding| finding_view(f)) == fs
            &&& r.passed@.map_values(|p: &str| p@) == ps
            &&& r.critical == count_severity(fs, Severity::Critical)
            &&& r.warnings == count_severity(fs, Severity::Warning)
            &&& r.infos == count_severity(fs, Severity::Info)
        }),
{
    let min: Option<Severity> = match severity_filter {
        Some(f) => Some(min_severity(f)),
        None => None,
    };
    let mut findings: Vec<Finding> = Vec::new();
    let mut passed: Vec<&'static str> = Vec::new();
    let mut critical: usize = 0;
    let mut warnings: usize = 0;
    let mut infos: usize = 0;
    let mut i: usize = 0;
    while i < checks.len()
        invariant
            i <= checks@.len(),
            findings@.len() <= i,
            critical + warnings + infos == findings@.len(),
            ({
                let (fs, ps) = audit_outcome(
                    checks@.subrange(0, i as int),
                    monitors@,
                    alert_counts@,
                    min,
                    now as int,
                );
                &&& findings@.map_values(|f: Finding| finding_view(f)) == fs
                &&& passed@.map_values(|p: &str| p@) == ps
                &&& critical == count_severity(fs, Severity::Critical)
                &&& warnings == count_severity(fs, Severity::Warning)
                &&& infos == count_severity(fs, Severity::Info)
            }),
        decreases checks@.len() - i,
    {
        let c = checks[i];
        let ghost prev = audit_outcome(
            checks@.subrange(0, i as int),
            monitors@,
            alert_counts@,
            min,
            now as int,
        );
        proof {
            let sub = checks@.subrange(0, i as int + 1);
            assert(sub.drop_last() =~= checks@.subrange(0, i as int));
            assert(sub.last() == c);
        }
        let finding = match c {
            AuditCheck::Each(m) => run_check(m, monitors, now),
            AuditCheck::PagerBurden => check_pager_burden(monitors, alert_counts),
        };
        assert(finding_view(finding) == finding_of(c, monitors@, alert_counts@, now as int));
        let keep = finding.count > 0 && match min {
            None => true,
            Some(Severity::Critical) => finding.severity == Severity::Critical,
            Some(Severity::Warning) => finding.severity != Severity::Info,
            Some(Severity::Info) => true,
        };
        if keep {
            let ghost before = findings@.map_values(|f: Finding| finding_view(f));
            match finding.severity {
                Severity::Critical => {
                    critical = critical + 1;
                },
                Severity::Warning => {
                    warnings = warnings + 1;
                },
                Severity::Info => {
                    infos = infos + 1;
                },
            }
            findings.push(finding);
            proof {
                let fv = finding_view(findings@.last());
                assert(findings@.map_values(|f: Finding| finding_view(f)) =~= before.push(fv));
                assert(before.push(fv).drop_last() =~= before);
            }
        } else {
            let ghost before = passed@.map_values(|p: &str| p@);
            passed.push(finding.check);
            assert(passed@.map_values(|p: &str| p@) =~= before.push(finding.check@));
        }
        i = i + 1;
    }
    assert(checks@.subrange(0, checks@.len() as int) =~= checks@);
    VetResult { findings, passed, critical, warnings, infos }
}

/// An event of the event stream, as far as paging history needs it.
#[derive(Debug, Clone)]
pub struct AlertEvent {
    pub alert_type: Option<String>,
    pub monitor_id: Option<i64>,
}

/// An event that paged for monitor `id`: an "error" or "warning" alert naming it.
pub open spec fn paged_for(e: AlertEvent, id: i64) -> bool {
    e.monitor_id == Some(id) && match e.alert_type {
        Some(t) => t@ == "error"@ || t@ == "warning"@,
        None => false,
    }
}

/// How many of the events paged for monitor `id`.
pub open spec fn pages_of(events: Seq<AlertEvent>, id: i64) -> nat
    decreases events.len(),
{
    if events.len() == 0 {
        0
    } else {
        pages_of(events.drop_last(), id) + if paged_for(events.last(), id) {
            1nat
        } else {
            0nat
        }
    }
}

/// A count held in a `u32`, stopping at its largest value.
pub open spec fn capped(n: nat) -> u32 {
    if n > u32::MAX {
        u32::MAX
    } else {
        n as u32
    }
}

proof fn lemma_count_for_absent(s: Seq<(i64, u32)>, id: i64)
    requires
        forall|k: int| 0 <= k < s.len() ==> #[trigger] s[k].0 != id,
    ensures
        count_for(s, id) == 0,
    decreases s.len(),
{
    if s.len() > 0 {
        assert forall|k: int| 0 <= k < s.drop_first().len() implies #[trigger] s.drop_first()[k].0
            != id by {
            assert(s.drop_first()[k] == s[k + 1]);
        }
        lemma_count_for_absent(s.drop_first(), id);
    }
}

proof fn lemma_count_for_push(s: Seq<(i64, u32)>, id: i64, other: i64)
    requires
        forall|k: int| 0 <= k < s.len() ==> #[trigger] s[k].0 != id,
    ensures
        count_for(s.push((id, 1)), id) == 1,
        other != id ==> count_for(s.push((id, 1)), other) == count_for(s, other),
    decreases s.len(),
{
    if s.len() == 0 {
        assert(s.push((id, 1))[0] == (id, 1u32));
        assert(s.push((id, 1)).drop_first().len() == 0);
        assert(count_for(s.push((id, 1)).drop_first(), other) == 0);
    } else {
        assert(s.push((id, 1)).drop_first() =~= s.drop_first().push((id, 1)));
        assert forall|k: int| 0 <= k < s.drop_first().len() implies #[trigger] s.drop_first()[k].0
            != id by {
            assert(s.drop_first()[k] == s[k + 1]);
        }
        lemma_count_for_push(s.drop_first(), id, other);
        assert(s.push((id, 1))[0] == s[0]);
    }
}

proof fn lemma_count_for_update(s: Seq<(i64, u32)>, j: int, id: i64, v: u32, other: i64)
    requires
        0 <= j < s.len(),
        s[j].0 == id,
        forall|k: int| 0 <= k < j ==> #[trigger] s[k].0 != id,
    ensures
        count_for(s, id) == s[j].1,
        count_for(s.update(j, (id, v)), id) == v,
        other != id ==> count_for(s.update(j, (id, v)), other) == count_for(s, other),
    decreases s.len(),
{
    let u = s.update(j, (id, v));
    if j > 0 {
        assert(u.drop_first() =~= s.drop_first().update(j - 1, (id, v)));
        assert forall|k: int| 0 <= k < j - 1 implies #[trigger] s.drop_first()[k].0 != id by {
            assert(s.drop_first()[k] == s[k + 1]);
        }
        lemma_count_for_update(s.drop_first(), j - 1, id, v, other);
        assert(u[0] == s[0]);
    } else {
        assert(u.drop_first() =~= s.drop_first());
    }
}

/// Pages per monitor: for every monitor id, how many events paged for it (capped
/// at the largest `u32`). Each id appears once; events without a monitor id, or
/// that are not error or warning alerts, count for nothing.
pub fn tally_alert_events(events: &Vec<AlertEvent>) -> (r: Vec<(i64, u32)>)
    ensures
        forall|id: i64| #[trigger] count_for(r@, id) == capped(pages_of(events@, id)),
{
    let mut out: Vec<(i64, u32)> = Vec::new();
    let mut i: usize = 0;
    proof {
        assert forall|id: i64| #[trigger] count_for(out@, id) == capped(
            pages_of(events@.subrange(0, 0), id),
        ) by {
            lemma_count_for_absent(out@, id);
        }
    }
    while i < events.len()
        invariant
            i <= events@.len(),
            forall|id: i64| #[trigger]
                count_for(out@, id) == capped(pages_of(events@.subrange(0, i as int), id)),
        decreases events@.len() - i,
    {
        let ghost sub = events@.subrange(0, i as int + 1);
        proof {
            assert(sub.drop_last() =~= events@.subrange(0, i as int));
            assert(sub.last() == events@[i as int]);
        }
        let e = &events[i];
        let counts = match (&e.alert_type, e.monitor_id) {
            (Some(t), Some(_)) => same_text(t.as_str(), "error") || same_text(t.as_str(), "warning"),
            _ => false,
        };
        if counts {
            let id = e.monitor_id.unwrap();
            let mut j: usize = 0;
            while j < out.len()
                invariant
                    j <= out@.len(),
                    forall|k: int| 0 <= k < j ==> #[trigger] out@[k].0 != id,
                ensures
                    j <= out@.len(),
                    forall|k: int| 0 <= k < j ==> #[trigger] out@[k].0 != id,
                    j < out@.len() ==> out@[j as int].0 == id,
                decreases out@.len() - j,
            {
                if out[j].0 == id {
                    break;
                }
                j = j + 1;
            }
            let ghost before = out@;
            if j < out.len() {
                let c = out[j].1;
                let next = if c < u32::MAX {
                    c + 1
                } else {
                    c
                };
                out.set(j, (id, next));
                proof {
                    assert forall|x: i64| #[trigger]
                        count_for(out@, x) == capped(pages_of(sub, x)) by {
                        lemma_count_for_update(before, j as int, id, next, x);
                    }
                }
            } else {
                out.push((id, 1));
                proof {
                    assert forall|x: i64| #[trigger]
                        count_for(out@, x) == capped(pages_of(sub, x)) by {
                        lemma_count_for_push(before, id, x);
                        lemma_count_for_absent(before, id);
                    }
                }
            }
        } else {
            proof {
                assert forall|x: i64| #[trigger]
                    count_for(out@, x) == capped(pages_of(sub, x)) by {
                    assert(!paged_for(events@[i as int], x));
                }
            }
        }
        i = i + 1;
    }
    assert(events@.subrange(0, events@.len() as int) =~= events@);
    out
}

} // verus!
