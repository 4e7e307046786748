//! Operational alerts: which are suppressed as duplicates, where the rest
//! are sent, and what the messages say.

use vstd::prelude::*;
use vstd::string::*;
use crate::table::Table;

verus! {

broadcast use vstd::string::group_string_axioms;

/// Repeats of an alert within this many microseconds are dropped.
pub const DEDUP_INTERVAL_MICROS: i64 = 300_000_000;

#[derive(Debug, Clone, Copy, PartialEq, Eq, Structural)]
pub enum AlertSeverity {
    Info,
    Warning,
    Critical,
}

/// `"<source>_<message>"`, the key alerts are deduplicated by.
pub open spec fn dedup_key(source: Seq<char>, message: Seq<char>) -> Seq<char> {
    source + "_"@ + message
}

/// When each alert key was last sent (microseconds since the epoch).
pub struct AlertDeduper {
    last_sent: Table<String, i64>,
}

/// An alert is a repeat when the same key was sent less than the interval
/// before `now`.
pub open spec fn suppressed(last: Map<Seq<char>, i64>, key: Seq<char>, now: i64) -> bool {
    last.contains_key(key) && now - last[key] < DEDUP_INTERVAL_MICROS
}

impl AlertDeduper {
    pub closed spec fn wf(&self) -> bool {
        self.last_sent.wf()
    }

    pub closed spec fn view(&self) -> Map<Seq<char>, i64> {
        self.last_sent.view()
    }

    pub fn new() -> (d: Self)
        ensures
            d.wf(),
            d.view() == Map::<Seq<char>, i64>::empty(),
    {
        AlertDeduper { last_sent: Table::new() }
    }

    /// Whether to send an alert at `now`: repeats are dropped and leave the
    /// record alone; otherwise `now` is recorded for its key.
    pub fn should_send(&mut self, source: &str, message: &str, now: i64) -> (send: bool)
        requires
            old(self).wf(),
        ensures
            final(self).wf(),
            send == !suppressed(old(self).view(), dedup_key(source@, message@), now),
            send ==> final(self).view() == old(self).view().insert(dedup_key(source@, message@), now),
            !send ==> final(self).view() == old(self).view(),
    {
        let mut key = String::from_str(source);
        key.append("_");
        key.append(message);
        if let Some(last) = self.last_sent.get(&key) {
            let diff: i128 = (now as i128) - (*last as i128);
            if diff < DEDUP_INTERVAL_MICROS as i128 {
                return false;
            }
        }
        self.last_sent.insert(key, now);
        true
    }
}

/// A repeat within the interval is dropped: once an alert is admitted at
/// `t`, the same alert at any `t2` with `t <= t2 < t + interval` is not.
pub proof fn law_repeat_suppressed(last: Map<Seq<char>, i64>, key: Seq<char>, t: i64, t2: i64)
    requires
        t <= t2 < t + DEDUP_INTERVAL_MICROS,
    ensures
        suppressed(last.insert(key, t), key, t2),
{
}

/// Alerts are told apart by source as well as message: recording an alert
/// of one source leaves unchanged whether the same message from any other
/// source is a repeat.
pub proof fn law_sources_deduplicated_apart(
    last: Map<Seq<char>, i64>,
    sent_source: Seq<char>,
    source: Seq<char>,
    message: Seq<char>,
    t: i64,
    now: i64,
)
    requires
        sent_source != source,
    ensures
        suppressed(last.insert(dedup_key(sent_source, message), t), dedup_key(source, message), now)
            == suppressed(last, dedup_key(source, message), now),
{
    let a = dedup_key(sent_source, message);
    let b = dedup_key(source, message);
    if a == b {
        assert(a.len() == b.len());
        assert(sent_source =~= a.subrange(0, sent_source.len() as int));
        assert(source =~= b.subrange(0, source.len() as int));
    }
}

/// Where no source holds `_`, distinct (source, message) pairs have
/// distinct keys, so an alert is a repeat only of itself.
pub proof fn law_dedup_key_injective(s1: Seq<char>, m1: Seq<char>, s2: Seq<char>, m2: Seq<char>)
    requires
        !s1.contains('_'),
        !s2.contains('_'),
        dedup_key(s1, m1) == dedup_key(s2, m2),
    ensures
        s1 == s2,
        m1 == m2,
{
    reveal_strlit("_");
    assert("_"@ =~= seq!['_']);
    let x = dedup_key(s1, m1);
    assert(x =~= s1 + seq!['_'] + m1);
    assert(x =~= s2 + seq!['_'] + m2);
    if s1.len() < s2.len() {
        assert(x[s1.len() as int] == '_');
        assert(s2[s1.len() as int] == '_');
        assert(false);
    }
    if s2.len() < s1.len() {
        assert(x[s2.len() as int] == '_');
        assert(s1[s2.len() as int] == '_');
        assert(false);
    }
    assert(s1 =~= x.subrange(0, s1.len() as int));
    assert(s2 =~= x.subrange(0, s1.len() as int));
    assert(m1 =~= x.subrange(s1.len() as int + 1, x.len() as int));
    assert(m2 =~= x.subrange(s1.len() as int + 1, x.len() as int));
}

/// Which channels an alert goes to: Slack for warnings and critical
/// alerts, PagerDuty for critical ones, each when configured.
pub fn alert_channels(severity: AlertSeverity, slack_configured: bool, pagerduty_configured: bool) -> (r: (bool, bool))
    ensures
        r.0 == (slack_configured && (severity == AlertSeverity::Critical || severity == AlertSeverity::Warning)),
        r.1 == (pagerduty_configured && severity == AlertSeverity::Critical),
{
    let slack = slack_configured && (severity == AlertSeverity::Critical || severity
        == AlertSeverity::Warning);
    let pd = pagerduty_configured && severity == AlertSeverity::Critical;
    (slack, pd)
}

pub open spec fn severity_name(s: AlertSeverity) -> Seq<char> {
    match s {
        AlertSeverity::Info => "Info"@,
        AlertSeverity::Warning => "Warning"@,
        AlertSeverity::Critical => "Critical"@,
    }
}

pub open spec fn severity_emoji(s: AlertSeverity) -> Seq<char> {
    match s {
        AlertSeverity::Critical => "🚨"@,
        AlertSeverity::Warning => "⚠️"@,
        AlertSeverity::Info => "ℹ️"@,
    }
}

/// The Slack text of an alert: `"<emoji> *[<Severity> - <source>]*\n<message>"`.
pub fn slack_text(severity: AlertSeverity, source: &str, message: &str) -> (t: String)
    ensures
        t@ == severity_emoji(severity) + " *["@ + severity_name(severity) + " - "@ + source@
            + "]*\n"@ + message@,
{
    let (emoji, name) = match severity {
        AlertSeverity::Critical => ("🚨", "Critical"),
        AlertSeverity::Warning => ("⚠️", "Warning"),
        AlertSeverity::Info => ("ℹ️", "Info"),
    };
    let mut t = String::from_str(emoji);
    t.append(" *[");
    t.append(name);
    t.append(" - ");
    t.append(source);
    t.append("]*\n");
    t.append(message);
    t
}

/// Where PagerDuty events are sent.
pub const PAGERDUTY_EVENTS_URL: &'static str = "https://events.pagerduty.com/v2/enqueue";

} // verus!
