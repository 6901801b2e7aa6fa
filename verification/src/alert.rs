//! Operator alerting: the events worth waking an operator for, how loudly
//! each is delivered, the words each says, the coalescing of failed
//! passphrase attempts, and the book that reports a channel which stops
//! delivering through the other channel.
//!
//! Delivery itself (SMTP, the SMS gateway) happens outside this module: it
//! decides what is sent, by which channel, and what a delivery's outcome
//! owes in turn.

use vstd::prelude::*;
use vstd::string::*;
use crate::text::{
    chars_of, decimal, push_char, push_chars, push_decimal, string_from_chars, to_owned_str, trim_chars,
    trim_spec,
};
use crate::principal::strings_view;

verus! {

/// How often a channel that keeps failing is reported again, in seconds.
pub const CHANNEL_REMIND_SECS: u64 = 86_400;

/// A way this host reaches its operator.
#[derive(Clone, Copy, Debug, PartialEq, Eq, Structural)]
pub enum Channel {
    Mail,
    Sms,
}

impl Channel {
    /// What the alerts on this channel are called in a message about it.
    pub fn alerts(&self) -> (r: &'static str)
        ensures
            r@ == channel_alerts(*self),
    {
        match self {
            Channel::Mail => "alert mail",
            Channel::Sms => "text alerts",
        }
    }

    /// How an alert travels on this channel: "getting through by ...".
    pub fn by(&self) -> (r: &'static str)
        ensures
            r@ == channel_by(*self),
    {
        match self {
            Channel::Mail => "mail",
            Channel::Sms => "text message",
        }
    }
}

pub open spec fn channel_alerts(c: Channel) -> Seq<char> {
    match c {
        Channel::Mail => "alert mail"@,
        Channel::Sms => "text alerts"@,
    }
}

pub open spec fn channel_by(c: Channel) -> Seq<char> {
    match c {
        Channel::Mail => "mail"@,
        Channel::Sms => "text message"@,
    }
}

/// Something worth waking an operator for. Addresses are carried as the text
/// they print as.
#[derive(Debug)]
pub enum AlertEvent {
    SealedStart { db_count: usize },
    Unsealed { admin: String, peer: String },
    FailedUnseals { count: u32, window_secs: u64, last_peer: String },
    PeerDown { peer: String, url: String, failures: u32, down_secs: u64, noticed_by: String },
    PeerRecovered { peer: String, url: String, away_secs: u64, noticed_by: String },
    PeerDistress { peer: String, url: String, classes: String, since_secs: u64, noticed_by: String },
    PeerDistressCleared { peer: String, url: String, were_secs: u64, noticed_by: String },
    Heartbeat { uptime_secs: u64, peers_ok: usize, peers_total: usize },
    ChannelFailing { channel: Channel, reason: String, missed: String, failures: u32, since_secs: u64 },
    ChannelRestored { channel: Channel, lost: u32, were_secs: u64 },
}

/// The mathematical value of an event.
pub enum EventView {
    SealedStart { db_count: usize },
    Unsealed { admin: Seq<char>, peer: Seq<char> },
    FailedUnseals { count: u32, window_secs: u64, last_peer: Seq<char> },
    PeerDown { peer: Seq<char>, url: Seq<char>, failures: u32, down_secs: u64, noticed_by: Seq<char> },
    PeerRecovered { peer: Seq<char>, url: Seq<char>, away_secs: u64, noticed_by: Seq<char> },
    PeerDistress {
        peer: Seq<char>,
        url: Seq<char>,
        classes: Seq<char>,
        since_secs: u64,
        noticed_by: Seq<char>,
    },
    PeerDistressCleared { peer: Seq<char>, url: Seq<char>, were_secs: u64, noticed_by: Seq<char> },
    Heartbeat { uptime_secs: u64, peers_ok: usize, peers_total: usize },
    ChannelFailing {
        channel: Channel,
        reason: Seq<char>,
        missed: Seq<char>,
        failures: u32,
        since_secs: u64,
    },
    ChannelRestored { channel: Channel, lost: u32, were_secs: u64 },
}

impl View for AlertEvent {
    type V = EventView;

    open spec fn view(&self) -> EventView {
        match self {
            AlertEvent::SealedStart { db_count } => EventView::SealedStart { db_count: *db_count },
            AlertEvent::Unsealed { admin, peer } => EventView::Unsealed { admin: admin@, peer: peer@ },
            AlertEvent::FailedUnseals { count, window_secs, last_peer } => EventView::FailedUnseals {
                count: *count,
                window_secs: *window_secs,
                last_peer: last_peer@,
            },
            AlertEvent::PeerDown { peer, url, failures, down_secs, noticed_by } => EventView::PeerDown {
                peer: peer@,
                url: url@,
                failures: *failures,
                down_secs: *down_secs,
                noticed_by: noticed_by@,
            },
            AlertEvent::PeerRecovered { peer, url, away_secs, noticed_by } => EventView::PeerRecovered {
                peer: peer@,
                url: url@,
                away_secs: *away_secs,
                noticed_by: noticed_by@,
            },
            AlertEvent::PeerDistress { peer, url, classes, since_secs, noticed_by } => EventView::PeerDistress {
                peer: peer@,
                url: url@,
                classes: classes@,
                since_secs: *since_secs,
                noticed_by: noticed_by@,
            },
            AlertEvent::PeerDistressCleared { peer, url, were_secs, noticed_by } => EventView::PeerDistressCleared {
                peer: peer@,
                url: url@,
                were_secs: *were_secs,
                noticed_by: noticed_by@,
            },
            AlertEvent::Heartbeat { uptime_secs, peers_ok, peers_total } => EventView::Heartbeat {
                uptime_secs: *uptime_secs,
                peers_ok: *peers_ok,
                peers_total: *peers_total,
            },
            AlertEvent::ChannelFailing { channel, reason, missed, failures, since_secs } => EventView::ChannelFailing {
                channel: *channel,
                reason: reason@,
                missed: missed@,
                failures: *failures,
                since_secs: *since_secs,
            },
            AlertEvent::ChannelRestored { channel, lost, were_secs } => EventView::ChannelRestored {
                channel: *channel,
                lost: *lost,
                were_secs: *were_secs,
            },
        }
    }
}

/// How loudly an event should be delivered.
#[derive(Clone, Copy, Debug, PartialEq, Eq, Structural)]
pub enum Severity {
    /// Every channel, including the ones that cost money and wake somebody.
    Critical,
    /// Worth a record; mail only.
    Notice,
}

/// A peer going down or coming back, the heartbeat, and failing mail are
/// critical; everything else is a notice.
pub open spec fn severity_of(e: EventView) -> Severity {
    match e {
        EventView::PeerDown { .. } => Severity::Critical,
        EventView::PeerRecovered { .. } => Severity::Critical,
        EventView::Heartbeat { .. } => Severity::Critical,
        EventView::ChannelFailing { channel: Channel::Mail, .. } => Severity::Critical,
        _ => Severity::Notice,
    }
}

/// The `[steel:<host>] ` prefix of every subject.
pub open spec fn tag(host: Seq<char>) -> Seq<char> {
    "[steel:"@ + host + "] "@
}

/// Minutes in a span of seconds, rounded down.
pub open spec fn mins(secs: u64) -> Seq<char> {
    decimal((secs / 60) as nat)
}

/// The subject line of an event on `host`.
pub open spec fn subject_of(e: EventView, host: Seq<char>) -> Seq<char> {
    match e {
        EventView::SealedStart { db_count } => tag(host) + "SEALED at start -- "@ + decimal(
            db_count as nat,
        ) + " database(s) shut"@,
        EventView::Unsealed { admin, .. } => tag(host) + "unsealed by '"@ + admin + "'"@,
        EventView::FailedUnseals { count, .. } => tag(host) + decimal(count as nat)
            + " failed admin passphrase attempts"@,
        EventView::PeerDown { peer, down_secs, .. } => tag(host) + peer + " IS DOWN ("@ + mins(
            down_secs,
        ) + "m)"@,
        EventView::PeerRecovered { peer, away_secs, .. } => tag(host) + peer + " recovered after "@
            + mins(away_secs) + "m"@,
        EventView::PeerDistress { peer, classes, .. } => tag(host) + peer + " in distress ("@
            + classes + ")"@,
        EventView::PeerDistressCleared { peer, were_secs, .. } => tag(host) + peer
            + " distress cleared after "@ + mins(were_secs) + "m"@,
        EventView::Heartbeat { peers_ok, peers_total, .. } => tag(host) + "alerting alive, "@
            + decimal(peers_ok as nat) + "/"@ + decimal(peers_total as nat) + " peers answering"@,
        EventView::ChannelFailing { channel, failures, .. } => tag(host) + channel_alerts(channel)
            + " FAILING ("@ + decimal(failures as nat) + " in a row)"@,
        EventView::ChannelRestored { channel, were_secs, .. } => tag(host) + channel_alerts(channel)
            + " working again after "@ + mins(were_secs) + "m"@,
    }
}

/// The one-line form of an event, for a channel that charges by the segment.
pub open spec fn short_of(e: EventView, host: Seq<char>) -> Seq<char> {
    match e {
        EventView::PeerDown { peer, .. } => peer + " is DOWN"@,
        EventView::PeerRecovered { peer, .. } => peer + " is back"@,
        EventView::Heartbeat { peers_ok, peers_total, .. } => host + ": alerting alive, "@
            + decimal(peers_ok as nat) + "/"@ + decimal(peers_total as nat) + " ok"@,
        EventView::ChannelFailing { channel, .. } => host + ": "@ + channel_alerts(channel)
            + " FAILING"@,
        EventView::ChannelRestored { channel, .. } => host + ": "@ + channel_alerts(channel)
            + " working again"@,
        _ => subject_of(e, host),
    }
}

fn app(s: &mut String, t: &str)
    ensures
        final(s)@ == old(s)@ + t@,
{
    s.append(t);
}

fn app_dec(s: &mut String, n: u64)
    ensures
        final(s)@ == old(s)@ + decimal(n as nat),
{
    push_decimal(s, n);
}

fn app_tag(s: &mut String, host: &str)
    ensures
        final(s)@ == old(s)@ + tag(host@),
{
    app(s, "[steel:");
    app(s, host);
    app(s, "] ");
}

impl AlertEvent {
    /// How loudly this event is delivered.
    pub fn severity(&self) -> (r: Severity)
        ensures
            r == severity_of(self@),
    {
        match self {
            AlertEvent::PeerDown { .. } => Severity::Critical,
            AlertEvent::PeerRecovered { .. } => Severity::Critical,
            AlertEvent::Heartbeat { .. } => Severity::Critical,
            AlertEvent::ChannelFailing { channel: Channel::Mail, .. } => Severity::Critical,
            _ => Severity::Notice,
        }
    }

    /// Subject line, prefixed so the operator can filter on it.
    pub fn subject(&self, host: &str) -> (r: String)
        ensures
            r@ == subject_of(self@, host@),
    {
        let mut s = String::new();
        app_tag(&mut s, host);
        match self {
            AlertEvent::SealedStart { db_count } => {
                app(&mut s, "SEALED at start -- ");
                app_dec(&mut s, *db_count as u64);
                app(&mut s, " database(s) shut");
            },
            AlertEvent::Unsealed { admin, .. } => {
                app(&mut s, "unsealed by '");
                app(&mut s, admin.as_str());
                app(&mut s, "'");
            },
            AlertEvent::FailedUnseals { count, .. } => {
                app_dec(&mut s, *count as u64);
                app(&mut s, " failed admin passphrase attempts");
            },
            AlertEvent::PeerDown { peer, down_secs, .. } => {
                app(&mut s, peer.as_str());
                app(&mut s, " IS DOWN (");
                app_dec(&mut s, *down_secs / 60);
                app(&mut s, "m)");
            },
            AlertEvent::PeerRecovered { peer, away_secs, .. } => {
                app(&mut s, peer.as_str());
                app(&mut s, " recovered after ");
                app_dec(&mut s, *away_secs / 60);
                app(&mut s, "m");
            },
            AlertEvent::PeerDistress { peer, classes, .. } => {
                app(&mut s, peer.as_str());
                app(&mut s, " in distress (");
                app(&mut s, classes.as_str());
                app(&mut s, ")");
            },
            AlertEvent::PeerDistressCleared { peer, were_secs, .. } => {
                app(&mut s, peer.as_str());
                app(&mut s, " distress cleared after ");
                app_dec(&mut s, *were_secs / 60);
                app(&mut s, "m");
            },
            AlertEvent::Heartbeat { peers_ok, peers_total, .. } => {
                app(&mut s, "alerting alive, ");
                app_dec(&mut s, *peers_ok as u64);
                app(&mut s, "/");
                app_dec(&mut s, *peers_total as u64);
                app(&mut s, " peers answering");
            },
            AlertEvent::ChannelFailing { channel, failures, .. } => {
                app(&mut s, channel.alerts());
                app(&mut s, " FAILING (");
                app_dec(&mut s, *failures as u64);
                app(&mut s, " in a row)");
            },
            AlertEvent::ChannelRestored { channel, were_secs, .. } => {
                app(&mut s, channel.alerts());
                app(&mut s, " working again after ");
                app_dec(&mut s, *were_secs / 60);
                app(&mut s, "m");
            },
        }
        s
    }

    /// The whole event in one line, leading with the machine and the verdict.
    pub fn short(&self, host: &str) -> (r: String)
        ensures
            r@ == short_of(self@, host@),
    {
        let mut s = String::new();
        match self {
            AlertEvent::PeerDown { peer, .. } => {
                app(&mut s, peer.as_str());
                app(&mut s, " is DOWN");
            },
            AlertEvent::PeerRecovered { peer, .. } => {
                app(&mut s, peer.as_str());
                app(&mut s, " is back");
            },
            AlertEvent::Heartbeat { peers_ok, peers_total, .. } => {
                app(&mut s, host);
                app(&mut s, ": alerting alive, ");
                app_dec(&mut s, *peers_ok as u64);
                app(&mut s, "/");
                app_dec(&mut s, *peers_total as u64);
                app(&mut s, " ok");
            },
            AlertEvent::ChannelFailing { channel, .. } => {
                app(&mut s, host);
                app(&mut s, ": ");
                app(&mut s, channel.alerts());
                app(&mut s, " FAILING");
            },
            AlertEvent::ChannelRestored { channel, .. } => {
                app(&mut s, host);
                app(&mut s, ": ");
                app(&mut s, channel.alerts());
                app(&mut s, " working again");
            },
            _ => {
                return self.subject(host);
            },
        }
        assert(s@ =~= short_of(self@, host@));
        s
    }
}

/// The advice a failing-channel report gives for `c`.
pub open spec fn advice_of(c: Channel) -> Seq<char> {
    match c {
        Channel::Sms => "A text needs a funded account and a working credential with the gateway, and the gateway's own words are above. Until it is fixed, a peer going down reaches you by mail alone, and mail needs the data connection a phone does not always have."@,
        Channel::Mail => "Mail needs a relay or a recipient's server that accepts it, and a working credential where it goes through a relay; the server's own words are above. Until it is fixed, a sealed start, an unseal, a burst of failed passphrases and a peer in distress reach nobody, because they go by mail alone."@,
    }
}

fn advice_for(c: Channel) -> (r: &'static str)
    ensures
        r@ == advice_of(c),
{
    match c {
        Channel::Sms => "A text needs a funded account and a working credential with the gateway, and the gateway's own words are above. Until it is fixed, a peer going down reaches you by mail alone, and mail needs the data connection a phone does not always have.",
        Channel::Mail => "Mail needs a relay or a recipient's server that accepts it, and a working credential where it goes through a relay; the server's own words are above. Until it is fixed, a sealed start, an unseal, a burst of failed passphrases and a peer in distress reach nobody, because they go by mail alone.",
    }
}

/// The body text of an event on `host`. It never carries an authorising link.
pub open spec fn body_of(e: EventView, host: Seq<char>) -> Seq<char> {
    match e {
        EventView::SealedStart { db_count } => "Steel on "@
            + host
            + " started sealed.\n\nThe websites are serving normally -- static vhosts, redirects, proxy routes and certificate renewal are all unaffected. But "@
            + decimal(db_count as nat)
            + " database(s) are shut because no wallet master key has been supplied, and any route that needs one is answering 503.\n\nSign in at https://"@
            + host
            + "/admin with an admin passphrase to unseal. Nothing in this email authorises anything; you will be asked to authenticate there.\n"@,
        EventView::Unsealed { admin, peer } => "Steel on "@
            + host
            + " was unsealed.\n\nAdmin:  "@
            + admin
            + "\nFrom:   "@
            + peer
            + "\n\nThe databases are open. If this was not you, treat the wallet passphrase for '"@
            + admin
            + "' as compromised: rotate it with `admin --passwd`, and review admin-audit.log.\n"@,
        EventView::FailedUnseals { count, window_secs, last_peer } => "Steel on "@
            + host
            + " refused "@
            + decimal(count as nat)
            + " admin passphrase attempt(s) in the last "@
            + decimal((window_secs / 60) as nat)
            + " minute(s).\n\nMost recent from: "@
            + last_peer
            + "\n\nThe dashboard login unwraps the wallet master key, so this form is worth guessing at. Each attempt costs the attacker an Argon2id derivation and is rate limited per address, but a sustained campaign is worth knowing about. Review admin-audit.log, and consider binding the dashboard to localhost via admin_local_port if it does not need to face the internet.\n"@,
        EventView::PeerDown { peer, url, failures, down_secs, noticed_by } => peer
            + " is not answering.\n\nProbed:   "@
            + url
            + "\nFailures: "@
            + decimal(failures as nat)
            + " consecutive\nDown for: "@
            + decimal((down_secs / 60) as nat)
            + " minute(s)\nNoticed by: "@
            + noticed_by
            + "\n\nThis machine is reporting on another one, because a host that has died cannot report its own death. Nothing has been restarted: a watcher that repairs can flap a service in a loop and hide the fault it was built to reveal, and a decision to restart belongs to somebody who has read why it stopped.\n\nIf this is the Daimond gateway, its log is at ~/usr/daimond-gateway/log/, the pane is held open after an exit, and the last lines say what it said on the way out.\n"@,
        EventView::PeerRecovered { peer, url, away_secs, noticed_by } => peer
            + " is answering again after "@
            + decimal((away_secs / 60) as nat)
            + " minute(s).\n\nProbed:   "@
            + url
            + "\nNoticed by: "@
            + noticed_by
            + "\n\nNothing here did that; it came back on its own or somebody fixed it. Worth reading the log for what stopped it, because a fault that cleared itself is a fault that can return.\n"@,
        EventView::PeerDistress { peer, url, classes, since_secs, noticed_by } => peer
            + " is answering but reports itself unwell.\n\nOver threshold: "@
            + classes
            + "\nProbed:   "@
            + url
            + "\nFor:      "@
            + decimal((since_secs / 60) as nat)
            + " minute(s)\nNoticed by: "@
            + noticed_by
            + "\n\nThe box is up and serving; a resource it depends on is short. This is not an outage, which is why it arrives by email and not as a text -- but a box under sustained pressure is one on its way to an outage, and it is cheaper to look now. The figures are read from the box's own health body; nothing here has acted on it.\n"@,
        EventView::PeerDistressCleared { peer, url, were_secs, noticed_by } => peer
            + " is back under its thresholds after "@
            + decimal((were_secs / 60) as nat)
            + " minute(s).\n\nProbed:   "@
            + url
            + "\nNoticed by: "@
            + noticed_by
            + "\n\nThe resource that was short has recovered. Worth a glance at what drove it, because pressure that cleared itself can build again.\n"@,
        EventView::Heartbeat { uptime_secs, peers_ok, peers_total } => "Alerting on "@
            + host
            + " is alive. Nothing is wrong.\n\nUptime:  "@
            + decimal((uptime_secs / 86400) as nat)
            + " day(s)\nPeers:   "@
            + decimal(peers_ok as nat)
            + " of "@
            + decimal(peers_total as nat)
            + " answering\n\nThis message exists to prove the path still works. An alerting route used twice a year is broken when it is needed -- an expired credential, a rotated key, a changed number, a dormant account -- and it is discovered during the incident. If these stop arriving, the alerting is what has failed, not the estate.\n"@,
        EventView::ChannelFailing { channel, reason, missed, failures, since_secs } => "Alerts from "@
            + host
            + " are not getting through by "@
            + channel_by(channel)
            + ".\n\nFailed:    "@
            + decimal(failures as nat)
            + " in a row, over "@
            + decimal((since_secs / 60) as nat)
            + " minute(s)\nLast lost: "@
            + missed
            + "\nWhy:       "@
            + reason
            + "\n\n"@
            + advice_of(channel)
            + "\n\nThis report comes by another channel, because a channel cannot report its own failure. It is repeated once a day while the failures go on, and the first alert that gets through again ends it with a message of its own.\n"@,
        EventView::ChannelRestored { channel, lost, were_secs } => "Alerts from "@
            + host
            + " are getting through by "@
            + channel_by(channel)
            + " again.\n\nLost:  "@
            + decimal(lost as nat)
            + " alert(s) in a row failed on this channel\nOver:  "@
            + decimal((were_secs / 60) as nat)
            + " minute(s)\n\nThose alerts were not sent again. Each is in the log on "@
            + host
            + ", under \"ALERT NOT DELIVERED\".\n"@,
    }
}

impl AlertEvent {
    /// Body text. Plain, short, and it never asks the reader to click anything
    /// that would act on their behalf.
    #[verifier::rlimit(40)]
    pub fn body(&self, host: &str) -> (r: String)
        ensures
            r@ == body_of(self@, host@),
    {
        let mut s = String::new();
        match self {
            AlertEvent::SealedStart { db_count } => {
                app(&mut s, "Steel on ");
                app(&mut s, host);
                app(&mut s, " started sealed.\n\nThe websites are serving normally -- static vhosts, redirects, proxy routes and certificate renewal are all unaffected. But ");
                app_dec(&mut s, *db_count as u64);
                app(&mut s, " database(s) are shut because no wallet master key has been supplied, and any route that needs one is answering 503.\n\nSign in at https://");
                app(&mut s, host);
                app(&mut s, "/admin with an admin passphrase to unseal. Nothing in this email authorises anything; you will be asked to authenticate there.\n");
            },
            AlertEvent::Unsealed { admin, peer } => {
                app(&mut s, "Steel on ");
                app(&mut s, host);
                app(&mut s, " was unsealed.\n\nAdmin:  ");
                app(&mut s, admin.as_str());
                app(&mut s, "\nFrom:   ");
                app(&mut s, peer.as_str());
                app(&mut s, "\n\nThe databases are open. If this was not you, treat the wallet passphrase for '");
                app(&mut s, admin.as_str());
                app(&mut s, "' as compromised: rotate it with `admin --passwd`, and review admin-audit.log.\n");
            },
            AlertEvent::FailedUnseals { count, window_secs, last_peer } => {
                app(&mut s, "Steel on ");
                app(&mut s, host);
                app(&mut s, " refused ");
                app_dec(&mut s, *count as u64);
                app(&mut s, " admin passphrase attempt(s) in the last ");
                app_dec(&mut s, *window_secs / 60);
                app(&mut s, " minute(s).\n\nMost recent from: ");
                app(&mut s, last_peer.as_str());
                app(&mut s, "\n\nThe dashboard login unwraps the wallet master key, so this form is worth guessing at. Each attempt costs the attacker an Argon2id derivation and is rate limited per address, but a sustained campaign is worth knowing about. Review admin-audit.log, and consider binding the dashboard to localhost via admin_local_port if it does not need to face the internet.\n");
            },
            AlertEvent::PeerDown { peer, url, failures, down_secs, noticed_by } => {
                app(&mut s, peer.as_str());
                app(&mut s, " is not answering.\n\nProbed:   ");
                app(&mut s, url.as_str());
                app(&mut s, "\nFailures: ");
                app_dec(&mut s, *failures as u64);
                app(&mut s, " consecutive\nDown for: ");
                app_dec(&mut s, *down_secs / 60);
                app(&mut s, " minute(s)\nNoticed by: ");
                app(&mut s, noticed_by.as_str());
                app(&mut s, "\n\nThis machine is reporting on another one, because a host that has died cannot report its own death. Nothing has been restarted: a watcher that repairs can flap a service in a loop and hide the fault it was built to reveal, and a decision to restart belongs to somebody who has read why it stopped.\n\nIf this is the Daimond gateway, its log is at ~/usr/daimond-gateway/log/, the pane is held open after an exit, and the last lines say what it said on the way out.\n");
            },
            AlertEvent::PeerRecovered { peer, url, away_secs, noticed_by } => {
                app(&mut s, peer.as_str());
                app(&mut s, " is answering again after ");
                app_dec(&mut s, *away_secs / 60);
                app(&mut s, " minute(s).\n\nProbed:   ");
                app(&mut s, url.as_str());
                app(&mut s, "\nNoticed by: ");
                app(&mut s, noticed_by.as_str());
                app(&mut s, "\n\nNothing here did that; it came back on its own or somebody fixed it. Worth reading the log for what stopped it, because a fault that cleared itself is a fault that can return.\n");
            },
            AlertEvent::PeerDistress { peer, url, classes, since_secs, noticed_by } => {
                app(&mut s, peer.as_str());
                app(&mut s, " is answering but reports itself unwell.\n\nOver threshold: ");
                app(&mut s, classes.as_str());
                app(&mut s, "\nProbed:   ");
                app(&mut s, url.as_str());
                app(&mut s, "\nFor:      ");
                app_dec(&mut s, *since_secs / 60);
                app(&mut s, " minute(s)\nNoticed by: ");
                app(&mut s, noticed_by.as_str());
                app(&mut s, "\n\nThe box is up and serving; a resource it depends on is short. This is not an outage, which is why it arrives by email and not as a text -- but a box under sustained pressure is one on its way to an outage, and it is cheaper to look now. The figures are read from the box's own health body; nothing here has acted on it.\n");
            },
            AlertEvent::PeerDistressCleared { peer, url, were_secs, noticed_by } => {
                app(&mut s, peer.as_str());
                app(&mut s, " is back under its thresholds after ");
                app_dec(&mut s, *were_secs / 60);
                app(&mut s, " minute(s).\n\nProbed:   ");
                app(&mut s, url.as_str());
                app(&mut s, "\nNoticed by: ");
                app(&mut s, noticed_by.as_str());
                app(&mut s, "\n\nThe resource that was short has recovered. Worth a glance at what drove it, because pressure that cleared itself can build again.\n");
            },
            AlertEvent::Heartbeat { uptime_secs, peers_ok, peers_total } => {
                app(&mut s, "Alerting on ");
                app(&mut s, host);
                app(&mut s, " is alive. Nothing is wrong.\n\nUptime:  ");
                app_dec(&mut s, *uptime_secs / 86400);
                app(&mut s, " day(s)\nPeers:   ");
                app_dec(&mut s, *peers_ok as u64);
                app(&mut s, " of ");
                app_dec(&mut s, *peers_total as u64);
                app(&mut s, " answering\n\nThis message exists to prove the path still works. An alerting route used twice a year is broken when it is needed -- an expired credential, a rotated key, a changed number, a dormant account -- and it is discovered during the incident. If these stop arriving, the alerting is what has failed, not the estate.\n");
            },
            AlertEvent::ChannelFailing { channel, reason, missed, failures, since_secs } => {
                app(&mut s, "Alerts from ");
                app(&mut s, host);
                app(&mut s, " are not getting through by ");
                app(&mut s, channel.by());
                app(&mut s, ".\n\nFailed:    ");
                app_dec(&mut s, *failures as u64);
                app(&mut s, " in a row, over ");
                app_dec(&mut s, *since_secs / 60);
                app(&mut s, " minute(s)\nLast lost: ");
                app(&mut s, missed.as_str());
                app(&mut s, "\nWhy:       ");
                app(&mut s, reason.as_str());
                app(&mut s, "\n\n");
                app(&mut s, advice_for(*channel));
                app(&mut s, "\n\nThis report comes by another channel, because a channel cannot report its own failure. It is repeated once a day while the failures go on, and the first alert that gets through again ends it with a message of its own.\n");
            },
            AlertEvent::ChannelRestored { channel, lost, were_secs } => {
                app(&mut s, "Alerts from ");
                app(&mut s, host);
                app(&mut s, " are getting through by ");
                app(&mut s, channel.by());
                app(&mut s, " again.\n\nLost:  ");
                app_dec(&mut s, *lost as u64);
                app(&mut s, " alert(s) in a row failed on this channel\nOver:  ");
                app_dec(&mut s, *were_secs / 60);
                app(&mut s, " minute(s)\n\nThose alerts were not sent again. Each is in the log on ");
                app(&mut s, host);
                app(&mut s, ", under \"ALERT NOT DELIVERED\".\n");
            },
        }
        s
    }
}

// ---------------------------------------------------------------------------
// The channel book
// ---------------------------------------------------------------------------

/// A run of failed deliveries on one channel, in seconds of a monotonic clock.
#[derive(Clone, Copy, Debug, PartialEq, Eq, Structural)]
pub struct Failing {
    /// The first failure of the run.
    pub since: u64,
    /// Consecutive failed deliveries.
    pub failures: u32,
    /// When the run was last reported.
    pub told: u64,
}

/// What this alerter has seen of its own channels.
#[derive(Debug)]
pub struct ChannelBook {
    pub mail: Option<Failing>,
    pub sms: Option<Failing>,
}

/// `a - b`, or zero when `b` is later.
pub open spec fn since(a: u64, b: u64) -> u64 {
    if a >= b {
        (a - b) as u64
    } else {
        0
    }
}

/// One more, stopping at the top.
pub open spec fn sat_inc32(x: u32) -> u32 {
    if x == u32::MAX {
        x
    } else {
        (x + 1) as u32
    }
}

/// A channel's run after one delivery's outcome, and the report it owes.
///
/// `failure` is the provider's words for a failed delivery and `None` for a
/// success; `missed` is the subject of the alert concerned. The first failure
/// of a run is reported, then one each [`CHANNEL_REMIND_SECS`] while the run
/// lasts, and the first success after it ends the run with a report of its
/// own.
pub open spec fn note_spec(
    slot: Option<Failing>,
    ch: Channel,
    failure: Option<Seq<char>>,
    missed: Seq<char>,
    now: u64,
) -> (Option<Failing>, Option<EventView>) {
    match failure {
        None => match slot {
            Some(f) => (
                None,
                Some(
                    EventView::ChannelRestored {
                        channel: ch,
                        lost: f.failures,
                        were_secs: since(now, f.since),
                    },
                ),
            ),
            None => (None, None),
        },
        Some(why) => match slot {
            None => (
                Some(Failing { since: now, failures: 1, told: now }),
                Some(
                    EventView::ChannelFailing {
                        channel: ch,
                        reason: why,
                        missed,
                        failures: 1,
                        since_secs: 0,
                    },
                ),
            ),
            Some(f) => {
                let n = sat_inc32(f.failures);
                if since(now, f.told) < CHANNEL_REMIND_SECS {
                    (Some(Failing { since: f.since, failures: n, told: f.told }), None)
                } else {
                    (
                        Some(Failing { since: f.since, failures: n, told: now }),
                        Some(
                            EventView::ChannelFailing {
                                channel: ch,
                                reason: why,
                                missed,
                                failures: n,
                                since_secs: since(now, f.since),
                            },
                        ),
                    )
                }
            },
        },
    }
}

pub open spec fn opt_view(e: Option<AlertEvent>) -> Option<EventView> {
    match e {
        Some(x) => Some(x@),
        None => None,
    }
}

pub open spec fn opt_str_view(s: Option<&str>) -> Option<Seq<char>> {
    match s {
        Some(x) => Some(x@),
        None => None,
    }
}

fn note_slot(slot: &mut Option<Failing>, ch: Channel, failure: Option<&str>, missed: &str, now: u64) -> (r: Option<AlertEvent>)
    ensures
        (*final(slot), opt_view(r)) == note_spec(*old(slot), ch, opt_str_view(failure), missed@, now),
{
    match failure {
        None => match slot.take() {
            Some(f) => Some(
                AlertEvent::ChannelRestored {
                    channel: ch,
                    lost: f.failures,
                    were_secs: now.saturating_sub(f.since),
                },
            ),
            None => None,
        },
        Some(why) => match *slot {
            None => {
                *slot = Some(Failing { since: now, failures: 1, told: now });
                Some(
                    AlertEvent::ChannelFailing {
                        channel: ch,
                        reason: to_owned_str(why),
                        missed: to_owned_str(missed),
                        failures: 1,
                        since_secs: 0,
                    },
                )
            },
            Some(f) => {
                let n = f.failures.saturating_add(1);
                if now.saturating_sub(f.told) < CHANNEL_REMIND_SECS {
                    *slot = Some(Failing { since: f.since, failures: n, told: f.told });
                    None
                } else {
                    *slot = Some(Failing { since: f.since, failures: n, told: now });
                    Some(
                        AlertEvent::ChannelFailing {
                            channel: ch,
                            reason: to_owned_str(why),
                            missed: to_owned_str(missed),
                            failures: n,
                            since_secs: now.saturating_sub(f.since),
                        },
                    )
                }
            },
        },
    }
}

impl ChannelBook {
    /// A book with no run on either channel.
    pub fn new() -> (r: ChannelBook)
        ensures
            r.mail is None,
            r.sms is None,
    {
        ChannelBook { mail: None, sms: None }
    }

    /// Folds one delivery's outcome into the book, returning the report it
    /// is owed, if any. The other channel's run is left as it was.
    pub fn note(&mut self, ch: Channel, failure: Option<&str>, missed: &str, now: u64) -> (r: Option<
        AlertEvent,
    >)
        ensures
            ch == Channel::Mail ==> (final(self).mail, opt_view(r)) == note_spec(
                old(self).mail,
                ch,
                opt_str_view(failure),
                missed@,
                now,
            ) && final(self).sms == old(self).sms,
            ch == Channel::Sms ==> (final(self).sms, opt_view(r)) == note_spec(
                old(self).sms,
                ch,
                opt_str_view(failure),
                missed@,
                now,
            ) && final(self).mail == old(self).mail,
    {
        match ch {
            Channel::Mail => note_slot(&mut self.mail, ch, failure, missed, now),
            Channel::Sms => note_slot(&mut self.sms, ch, failure, missed, now),
        }
    }
}

/// A channel that delivers with no run open owes nothing; the first failure
/// of a run is always reported, as the first of one; a failure within
/// [`CHANNEL_REMIND_SECS`] of the last report is not reported again; and the
/// first success after a run closes it with a report of how much it lost.
pub proof fn lemma_channel_run_reports(
    slot: Option<Failing>,
    ch: Channel,
    why: Seq<char>,
    missed: Seq<char>,
    now: u64,
)
    ensures
        slot is None ==> note_spec(slot, ch, None, missed, now) == (None::<Failing>, None::<EventView>),
        slot is None ==> note_spec(slot, ch, Some(why), missed, now).1 == Some(
            EventView::ChannelFailing { channel: ch, reason: why, missed, failures: 1, since_secs: 0 },
        ),
        slot matches Some(f) && since(now, f.told) < CHANNEL_REMIND_SECS ==> note_spec(
            slot,
            ch,
            Some(why),
            missed,
            now,
        ).1 is None,
        slot matches Some(f) ==> note_spec(slot, ch, None, missed, now) == (
            None::<Failing>,
            Some(
                EventView::ChannelRestored {
                    channel: ch,
                    lost: f.failures,
                    were_secs: since(now, f.since),
                },
            ),
        ),
        note_spec(slot, ch, Some(why), missed, now).0 is Some,
{
}

// ---------------------------------------------------------------------------
// Coalescing failed passphrase attempts
// ---------------------------------------------------------------------------

/// Coalescing state for failed passphrase attempts, in seconds of a monotonic
/// clock.
#[derive(Debug)]
pub struct FailureWindow {
    /// Failures since the window opened.
    pub count: u32,
    /// When the window opened.
    pub opened: u64,
    /// The last address seen.
    pub last: Option<String>,
    /// When the last alert was raised.
    pub sent: Option<u64>,
}

pub struct WindowView {
    pub count: u32,
    pub opened: u64,
    pub last: Option<Seq<char>>,
    pub sent: Option<u64>,
}

impl View for FailureWindow {
    type V = WindowView;

    open spec fn view(&self) -> WindowView {
        WindowView {
            count: self.count,
            opened: self.opened,
            last: match self.last {
                Some(s) => Some(s@),
                None => None,
            },
            sent: self.sent,
        }
    }
}

/// The window after one more failed attempt from `peer` at `now`, and the
/// coalesced alert it raises, if any: a window older than `window` secs
/// starts afresh, and an alert is raised when the count reaches `threshold`
/// and `cooldown` secs have passed since the last one.
pub open spec fn record_failure_spec(
    w: WindowView,
    threshold: u32,
    window: u64,
    cooldown: u64,
    peer: Seq<char>,
    now: u64,
) -> (WindowView, Option<EventView>) {
    let stale = since(now, w.opened) > window;
    let count0: u32 = if stale {
        0
    } else {
        w.count
    };
    let opened0 = if stale {
        now
    } else {
        w.opened
    };
    let count1 = sat_inc32(count0);
    let cooled = match w.sent {
        Some(t) => since(now, t) >= cooldown,
        None => true,
    };
    if count1 >= threshold && cooled {
        (
            WindowView { count: 0, opened: now, last: Some(peer), sent: Some(now) },
            Some(
                EventView::FailedUnseals {
                    count: count1,
                    window_secs: since(now, opened0),
                    last_peer: peer,
                },
            ),
        )
    } else {
        (WindowView { count: count1, opened: opened0, last: Some(peer), sent: w.sent }, None)
    }
}

impl FailureWindow {
    /// An empty window opened at `now`.
    pub fn new(now: u64) -> (r: FailureWindow)
        ensures
            r@ == (WindowView { count: 0, opened: now, last: None, sent: None }),
    {
        FailureWindow { count: 0, opened: now, last: None, sent: None }
    }

    /// Counts one failed attempt, returning the coalesced alert it raises, if
    /// any.
    pub fn record(&mut self, threshold: u32, window: u64, cooldown: u64, peer: &str, now: u64) -> (r:
        Option<AlertEvent>)
        ensures
            (final(self)@, opt_view(r)) == record_failure_spec(
                old(self)@,
                threshold,
                window,
                cooldown,
                peer@,
                now,
            ),
    {
        if now.saturating_sub(self.opened) > window {
            self.count = 0;
            self.opened = now;
        }
        self.count = self.count.saturating_add(1);
        self.last = Some(to_owned_str(peer));
        let cooled = match self.sent {
            Some(t) => now.saturating_sub(t) >= cooldown,
            None => true,
        };
        if self.count >= threshold && cooled {
            let event = AlertEvent::FailedUnseals {
                count: self.count,
                window_secs: now.saturating_sub(self.opened),
                last_peer: to_owned_str(peer),
            };
            self.sent = Some(now);
            self.count = 0;
            self.opened = now;
            return Some(event);
        }
        None
    }
}

/// A burst never alerts twice inside the cooldown: after an alert at `t`, no
/// attempt earlier than `t + cooldown` raises another; and an attempt that
/// leaves the count below the threshold raises nothing.
pub proof fn lemma_failures_coalesce(
    w: WindowView,
    threshold: u32,
    window: u64,
    cooldown: u64,
    peer: Seq<char>,
    now: u64,
)
    ensures
        w.sent matches Some(t) && since(now, t) < cooldown ==> record_failure_spec(
            w,
            threshold,
            window,
            cooldown,
            peer,
            now,
        ).1 is None,
        record_failure_spec(w, threshold, window, cooldown, peer, now).1 is Some
            ==> record_failure_spec(w, threshold, window, cooldown, peer, now).0.sent == Some(now)
            && record_failure_spec(w, threshold, window, cooldown, peer, now).0.count == 0,
        record_failure_spec(w, threshold, window, cooldown, peer, now).1 is None
            ==> record_failure_spec(w, threshold, window, cooldown, peer, now).0.sent == w.sent,
{
}

// ---------------------------------------------------------------------------
// The alerter
// ---------------------------------------------------------------------------

/// The text-message leg of the alert configuration.
#[derive(Debug)]
pub struct SmsAlertConfig {
    pub enabled: bool,
    pub to: Vec<String>,
    pub from: String,
    pub user_env: String,
    pub secret_env: String,
}

/// A relay the alert mail is submitted through.
#[derive(Debug)]
pub struct AlertSubmission {
    pub host: String,
    pub port: u16,
    pub security: String,
    pub user: String,
    pub password: String,
}

/// The `alerts` block of the server configuration.
#[derive(Debug)]
pub struct AlertConfig {
    pub enabled: bool,
    pub from: String,
    pub submission: Option<AlertSubmission>,
    pub to: Vec<String>,
    pub ehlo_hostname: String,
    pub failed_threshold: u32,
    pub failed_window_secs: u64,
    pub failed_cooldown_secs: u64,
    pub sms: Option<SmsAlertConfig>,
}

impl AlertConfig {
    /// An alert configuration with everything off and empty, and the
    /// coalescing thresholds at five attempts in fifteen minutes with an hour's
    /// cooldown.
    pub fn disabled() -> (r: AlertConfig)
        ensures
            !r.enabled,
            r.from@.len() == 0,
            r.to@.len() == 0,
            r.sms is None,
            r.submission is None,
            r.failed_threshold == 5,
            r.failed_window_secs == 900,
            r.failed_cooldown_secs == 3600,
    {
        AlertConfig {
            enabled: false,
            from: String::new(),
            submission: None,
            to: Vec::new(),
            ehlo_hostname: String::new(),
            failed_threshold: 5,
            failed_window_secs: 900,
            failed_cooldown_secs: 3600,
            sms: None,
        }
    }
}

/// The mail leg is usable: a sender and at least one recipient.
pub open spec fn mails_configured(c: AlertConfig) -> bool {
    c.to@.len() != 0 && c.from@.len() != 0
}

/// The text leg is usable: enabled with at least one number.
pub open spec fn texts_configured(c: AlertConfig) -> bool {
    match c.sms {
        Some(s) => s.enabled && s.to@.len() != 0,
        None => false,
    }
}

/// Why an alerter could not be built.
#[derive(Debug, PartialEq, Eq, Structural)]
pub enum AlertError {
    /// Alerting is enabled but has neither a mail recipient nor a number to
    /// text.
    NobodyToTell,
}

/// How the alert relay is reached.
#[derive(Clone, Copy, Debug, PartialEq, Eq, Structural)]
pub enum SubmissionSecurity {
    ImplicitTls,
    Plain,
    StartTls,
}

/// `implicit` and `plain` name their modes; anything else means STARTTLS.
pub fn submission_security(s: &str) -> (r: SubmissionSecurity)
    ensures
        r == (if s@ == "implicit"@ {
            SubmissionSecurity::ImplicitTls
        } else if s@ == "plain"@ {
            SubmissionSecurity::Plain
        } else {
            SubmissionSecurity::StartTls
        }),
{
    if crate::text::str_eq(s, "implicit") {
        SubmissionSecurity::ImplicitTls
    } else if crate::text::str_eq(s, "plain") {
        SubmissionSecurity::Plain
    } else {
        SubmissionSecurity::StartTls
    }
}

/// The channels one event goes by on this host.
#[derive(Clone, Copy, Debug, PartialEq, Eq, Structural)]
pub struct Route {
    pub mail: bool,
    pub sms: bool,
}

impl Route {
    /// No channel at all.
    pub fn is_empty(&self) -> (r: bool)
        ensures
            r == (!self.mail && !self.sms),
    {
        !self.mail && !self.sms
    }
}

/// The route of an event: mail when there is a recipient, a text when the
/// event is critical and there is a gateway, and never the channel whose
/// failure the event reports.
pub open spec fn route_of(mails: bool, texts: bool, e: EventView) -> Route {
    let failing: Option<Channel> = match e {
        EventView::ChannelFailing { channel, .. } => Some(channel),
        _ => None,
    };
    Route {
        mail: mails && failing != Some(Channel::Mail),
        sms: texts && severity_of(e) == Severity::Critical && failing != Some(Channel::Sms),
    }
}

/// What raising an event comes to on this host.
#[derive(Debug)]
pub enum Raise {
    /// Deliver by the channels the route names.
    Deliver(Route),
    /// No channel on this host carries it: log this line as undelivered.
    Undelivered(String),
}

/// Sends alert events by mail and, for the critical ones, by text.
#[derive(Debug)]
pub struct Alerter {
    cfg: AlertConfig,
    host: String,
    failures: FailureWindow,
    channels: ChannelBook,
}

impl Alerter {
    pub closed spec fn config(&self) -> AlertConfig {
        self.cfg
    }

    pub closed spec fn host_view(&self) -> Seq<char> {
        self.host@
    }

    pub closed spec fn window(&self) -> WindowView {
        self.failures@
    }

    pub closed spec fn book_mail(&self) -> Option<Failing> {
        self.channels.mail
    }

    pub closed spec fn book_sms(&self) -> Option<Failing> {
        self.channels.sms
    }

    /// Builds an alerter, or `None` when alerting is disabled. An enabled
    /// alerter with nobody to tell is refused: it looks like cover.
    pub fn new(cfg: AlertConfig, host: String, now: u64) -> (r: Result<Option<Alerter>, AlertError>)
        ensures
            !cfg.enabled ==> r matches Ok(None),
            cfg.enabled && !mails_configured(cfg) && !texts_configured(cfg) ==> r == Err::<
                Option<Alerter>,
                AlertError,
            >(AlertError::NobodyToTell),
            cfg.enabled && (mails_configured(cfg) || texts_configured(cfg)) ==> (r matches Ok(Some(a))
                && a.config() == cfg && a.host_view() == host@ && a.window() == (WindowView {
                count: 0,
                opened: now,
                last: None,
                sent: None,
            }) && a.book_mail() is None && a.book_sms() is None),
    {
        if !cfg.enabled {
            return Ok(None);
        }
        let texts = match &cfg.sms {
            Some(s) => s.enabled && s.to.len() != 0,
            None => false,
        };
        let mails = cfg.to.len() != 0 && !cfg.from.as_str().is_empty();
        if !mails && !texts {
            return Err(AlertError::NobodyToTell);
        }
        Ok(Some(Alerter { cfg, host, failures: FailureWindow::new(now), channels: ChannelBook::new() }))
    }

    /// Whether this alerter has a mail recipient and a sender.
    pub fn sends_mail(&self) -> (r: bool)
        ensures
            r == mails_configured(self.config()),
    {
        self.cfg.to.len() != 0 && !self.cfg.from.as_str().is_empty()
    }

    /// Whether this alerter has a text gateway and a number to text.
    pub fn sends_sms(&self) -> (r: bool)
        ensures
            r == texts_configured(self.config()),
    {
        match &self.cfg.sms {
            Some(s) => s.enabled && s.to.len() != 0,
            None => false,
        }
    }

    /// Whether only the text leg is configured: then the notices, which go by
    /// mail alone, reach nobody, and start-up should warn of it.
    pub fn texts_only(&self) -> (r: bool)
        ensures
            r == (!mails_configured(self.config()) && texts_configured(self.config())),
    {
        !self.sends_mail() && self.sends_sms()
    }

    /// The name this host gives in its SMTP greeting: the configured one, or
    /// the host name when none is configured.
    pub fn ehlo_name(&self) -> (r: String)
        ensures
            r@ == (if self.config().ehlo_hostname@.len() == 0 {
                self.host_view()
            } else {
                self.config().ehlo_hostname@
            }),
    {
        if self.cfg.ehlo_hostname.as_str().is_empty() {
            self.host.clone()
        } else {
            self.cfg.ehlo_hostname.clone()
        }
    }

    /// The channels an event goes by on this host.
    pub fn route(&self, event: &AlertEvent) -> (r: Route)
        ensures
            r == route_of(mails_configured(self.config()), texts_configured(self.config()), event@),
    {
        let failing: Option<Channel> = match event {
            AlertEvent::ChannelFailing { channel, .. } => Some(*channel),
            _ => None,
        };
        let mail_failing = match failing {
            Some(Channel::Mail) => true,
            _ => false,
        };
        let sms_failing = match failing {
            Some(Channel::Sms) => true,
            _ => false,
        };
        let critical = match event.severity() {
            Severity::Critical => true,
            Severity::Notice => false,
        };
        Route { mail: self.sends_mail() && !mail_failing, sms: self.sends_sms() && critical && !sms_failing }
    }

    /// What raising `event` comes to: its route, or, when no channel on this
    /// host carries it, the line that logs it as undelivered.
    pub fn raise(&self, event: &AlertEvent) -> (r: Raise)
        ensures
            !route_of(mails_configured(self.config()), texts_configured(self.config()), event@).mail
                && !route_of(mails_configured(self.config()), texts_configured(self.config()), event@).sms
                ==> (r matches Raise::Undelivered(m) && m@ == undelivered_line(
                mails_configured(self.config()),
                texts_configured(self.config()),
                event@,
                self.host_view(),
            )),
            (route_of(mails_configured(self.config()), texts_configured(self.config()), event@).mail
                || route_of(mails_configured(self.config()), texts_configured(self.config()), event@).sms)
                ==> r == Raise::Deliver(
                route_of(mails_configured(self.config()), texts_configured(self.config()), event@),
            ),
    {
        let route = self.route(event);
        if route.is_empty() {
            let mut s = String::new();
            app(&mut s, "ALERT NOT DELIVERED: no channel on this host carries it. ");
            match event.severity() {
                Severity::Critical => app(&mut s, "A critical alert"),
                Severity::Notice => app(&mut s, "A notice"),
            }
            app(&mut s, " goes by ");
            match event.severity() {
                Severity::Critical => app(&mut s, "mail and text message"),
                Severity::Notice => app(&mut s, "mail alone"),
            }
            app(&mut s, ", and this host has ");
            let m = self.sends_mail();
            let t = self.sends_sms();
            if m && t {
                app(&mut s, "both, one of which is the channel this reports on");
            } else if m {
                app(&mut s, "mail alone, the channel this reports on");
            } else if t {
                app(&mut s, "no mail recipient");
            } else {
                app(&mut s, "neither");
            }
            app(&mut s, ". The event still happened: ");
            let subj = event.subject(self.host.as_str());
            app(&mut s, subj.as_str());
            return Raise::Undelivered(s);
        }
        Raise::Deliver(route)
    }

    /// Records how a channel did with `event` and returns the report it owes:
    /// a channel that has started failing, is still failing a day on, or has
    /// just recovered is told through the other.
    pub fn settle(&mut self, ch: Channel, failure: Option<&str>, event: &AlertEvent, now: u64) -> (r:
        Option<AlertEvent>)
        ensures
            final(self).config() == old(self).config(),
            final(self).host_view() == old(self).host_view(),
            final(self).window() == old(self).window(),
            ch == Channel::Mail ==> (final(self).book_mail(), opt_view(r)) == note_spec(
                old(self).book_mail(),
                ch,
                opt_str_view(failure),
                subject_of(event@, old(self).host_view()),
                now,
            ) && final(self).book_sms() == old(self).book_sms(),
            ch == Channel::Sms ==> (final(self).book_sms(), opt_view(r)) == note_spec(
                old(self).book_sms(),
                ch,
                opt_str_view(failure),
                subject_of(event@, old(self).host_view()),
                now,
            ) && final(self).book_mail() == old(self).book_mail(),
    {
        let subject = event.subject(self.host.as_str());
        self.channels.note(ch, failure, subject.as_str(), now)
    }

    /// Records a failed passphrase attempt from `peer` at `now`, returning the
    /// coalesced alert to raise once the burst crosses the threshold.
    pub fn note_failed_unseal(&mut self, peer: &str, now: u64) -> (r: Option<AlertEvent>)
        ensures
            final(self).config() == old(self).config(),
            final(self).host_view() == old(self).host_view(),
            final(self).book_mail() == old(self).book_mail(),
            final(self).book_sms() == old(self).book_sms(),
            (final(self).window(), opt_view(r)) == record_failure_spec(
                old(self).window(),
                old(self).config().failed_threshold,
                old(self).config().failed_window_secs,
                old(self).config().failed_cooldown_secs,
                peer@,
                now,
            ),
    {
        let threshold = self.cfg.failed_threshold;
        let window = self.cfg.failed_window_secs;
        let cooldown = self.cfg.failed_cooldown_secs;
        self.failures.record(threshold, window, cooldown, peer, now)
    }

    /// The RFC 5322 message for `event`, stamped with `date_secs`.
    pub fn compose(&self, event: &AlertEvent, date_secs: u64) -> (r: String)
        ensures
            r@ == "From: "@ + self.config().from@ + "\r\nTo: "@ + join_spec(
                strings_view(self.config().to@),
                ", "@,
            ) + "\r\nSubject: "@ + subject_of(event@, self.host_view()) + "\r\nX-Steel-Host: "@
                + self.host_view() + "\r\nX-Steel-Unix-Time: "@ + decimal(date_secs as nat)
                + "\r\nContent-Type: text/plain; charset=utf-8\r\n\r\n"@ + crlf(
                body_of(event@, self.host_view()),
            ),
    {
        let mut s = String::new();
        app(&mut s, "From: ");
        app(&mut s, self.cfg.from.as_str());
        app(&mut s, "\r\nTo: ");
        let to = join(&self.cfg.to, ", ");
        app(&mut s, to.as_str());
        app(&mut s, "\r\nSubject: ");
        let subj = event.subject(self.host.as_str());
        app(&mut s, subj.as_str());
        app(&mut s, "\r\nX-Steel-Host: ");
        app(&mut s, self.host.as_str());
        app(&mut s, "\r\nX-Steel-Unix-Time: ");
        app_dec(&mut s, date_secs);
        app(&mut s, "\r\nContent-Type: text/plain; charset=utf-8\r\n\r\n");
        let body = event.body(self.host.as_str());
        let b = to_crlf(body.as_str());
        app(&mut s, b.as_str());
        s
    }
}

/// The line that logs an event no channel on the host carries.
pub open spec fn undelivered_line(mails: bool, texts: bool, e: EventView, host: Seq<char>) -> Seq<char> {
    "ALERT NOT DELIVERED: no channel on this host carries it. "@ + (if severity_of(e)
        == Severity::Critical {
        "A critical alert"@
    } else {
        "A notice"@
    }) + " goes by "@ + (if severity_of(e) == Severity::Critical {
        "mail and text message"@
    } else {
        "mail alone"@
    }) + ", and this host has "@ + (if mails && texts {
        "both, one of which is the channel this reports on"@
    } else if mails {
        "mail alone, the channel this reports on"@
    } else if texts {
        "no mail recipient"@
    } else {
        "neither"@
    }) + ". The event still happened: "@ + subject_of(e, host)
}

/// A peer's recovery is told the way its outage was: it is as critical as
/// a peer going down, so it goes by mail when mail is configured and by
/// text whenever texts are.
pub proof fn lemma_recovery_is_told_like_the_outage(
    mails: bool,
    texts: bool,
    down: EventView,
    back: EventView,
)
    requires
        down is PeerDown,
        back is PeerRecovered,
    ensures
        severity_of(back) == severity_of(down),
        severity_of(back) == Severity::Critical,
        route_of(mails, texts, back) == route_of(mails, texts, down),
        route_of(mails, texts, back) == (Route { mail: mails, sms: texts }),
{
}

/// A failing channel's report never goes by the channel that is failing.
pub proof fn lemma_failure_report_avoids_its_channel(mails: bool, texts: bool, e: EventView)
    ensures
        e matches EventView::ChannelFailing { channel: Channel::Mail, .. } ==> !route_of(
            mails,
            texts,
            e,
        ).mail,
        e matches EventView::ChannelFailing { channel: Channel::Sms, .. } ==> !route_of(
            mails,
            texts,
            e,
        ).sms,
        severity_of(e) == Severity::Notice ==> !route_of(mails, texts, e).sms,
{
}

// ---------------------------------------------------------------------------
// Joining, line endings, and the tally of texts
// ---------------------------------------------------------------------------

/// The elements joined by `sep`.
pub open spec fn join_spec(list: Seq<Seq<char>>, sep: Seq<char>) -> Seq<char>
    decreases list.len(),
{
    if list.len() == 0 {
        seq![]
    } else if list.len() == 1 {
        list[0]
    } else {
        join_spec(list.drop_last(), sep) + sep + list.last()
    }
}

/// The strings joined by `sep`.
pub fn join(list: &Vec<String>, sep: &str) -> (r: String)
    ensures
        r@ == join_spec(strings_view(list@), sep@),
{
    let ghost lv = strings_view(list@);
    let mut s = String::new();
    let mut i: usize = 0;
    while i < list.len()
        invariant
            i <= list.len(),
            lv == strings_view(list@),
            s@ == join_spec(lv.take(i as int), sep@),
        decreases list.len() - i,
    {
        assert(lv.take(i + 1).drop_last() == lv.take(i as int));
        if i != 0 {
            app(&mut s, sep);
        } else {
            assert(lv.take(0) =~= Seq::<Seq<char>>::empty());
        }
        app(&mut s, list[i].as_str());
        assert(lv[i as int] == list@[i as int]@);
        i += 1;
    }
    assert(lv.take(list.len() as int) == lv);
    s
}

/// Every `'\n'` replaced by `"\r\n"`.
pub open spec fn crlf(s: Seq<char>) -> Seq<char>
    decreases s.len(),
{
    if s.len() == 0 {
        seq![]
    } else if s.last() == '\n' {
        crlf(s.drop_last()) + seq!['\r', '\n']
    } else {
        crlf(s.drop_last()).push(s.last())
    }
}

/// `s` with every `'\n'` replaced by `"\r\n"`.
pub fn to_crlf(s: &str) -> (r: String)
    ensures
        r@ == crlf(s@),
{
    let cs = chars_of(s);
    let mut out = String::new();
    let mut i: usize = 0;
    while i < cs.len()
        invariant
            i <= cs.len(),
            out@ == crlf(cs@.take(i as int)),
        decreases cs.len() - i,
    {
        assert(cs@.take(i + 1).drop_last() == cs@.take(i as int));
        if cs[i] == '\n' {
            push_char(&mut out, '\r');
            push_char(&mut out, '\n');
        } else {
            push_char(&mut out, cs[i]);
        }
        i += 1;
    }
    assert(cs@.take(cs.len() as int) == cs@);
    out
}

/// The refusals among a run of texts: each failed number with the
/// provider's words.
pub open spec fn refusals(o: Seq<(Seq<char>, Option<Seq<char>>)>) -> Seq<Seq<char>>
    decreases o.len(),
{
    if o.len() == 0 {
        seq![]
    } else {
        match o.last().1 {
            Some(e) => refusals(o.drop_last()).push(o.last().0 + ": "@ + e),
            None => refusals(o.drop_last()),
        }
    }
}

/// What a run of texts comes to: every accepted text is a success, and a
/// single refusal fails the alert, naming each refused number.
pub open spec fn tally_spec(o: Seq<(Seq<char>, Option<Seq<char>>)>) -> Result<(), Seq<char>> {
    if o.len() == 0 {
        Err("SMS alerting is enabled with no numbers to send to."@)
    } else if refusals(o).len() == 0 {
        Ok(())
    } else {
        Err(decimal(refusals(o).len()) + " of "@ + decimal(o.len()) + " text(s) were not sent. "@
            + join_spec(refusals(o), "; "@))
    }
}

/// One number's outcome: `None` when the gateway took the text, else its
/// words.
pub open spec fn outcomes_view(v: Seq<(String, Option<String>)>) -> Seq<(Seq<char>, Option<Seq<char>>)> {
    Seq::new(
        v.len(),
        |i: int|
            (
                v[i].0@,
                match v[i].1 {
                    Some(e) => Some(e@),
                    None => None,
                },
            ),
    )
}

/// Accounts for one alert's texts: the alert fails when any number's text was
/// refused or not sent, naming each number and the provider's words.
pub fn tally_texts(outcomes: &Vec<(String, Option<String>)>) -> (r: Result<(), String>)
    requires
        outcomes@.len() < u64::MAX,
    ensures
        match r {
            Ok(()) => tally_spec(outcomes_view(outcomes@)) == Ok::<(), Seq<char>>(()),
            Err(m) => tally_spec(outcomes_view(outcomes@)) == Err::<(), Seq<char>>(m@),
        },
{
    let ghost ov = outcomes_view(outcomes@);
    let total = outcomes.len();
    if total == 0 {
        let mut s = String::new();
        app(&mut s, "SMS alerting is enabled with no numbers to send to.");
        return Err(s);
    }
    let mut refused: Vec<String> = Vec::new();
    let mut i: usize = 0;
    while i < total
        invariant
            i <= total,
            total == outcomes@.len(),
            ov == outcomes_view(outcomes@),
            strings_view(refused@) == refusals(ov.take(i as int)),
            refused@.len() <= i,
        decreases total - i,
    {
        assert(ov.take(i + 1).drop_last() == ov.take(i as int));
        assert(ov.take(i + 1).last() == ov[i as int]);
        match &outcomes[i].1 {
            Some(e) => {
                let mut line = String::new();
                app(&mut line, outcomes[i].0.as_str());
                app(&mut line, ": ");
                app(&mut line, e.as_str());
                let ghost before = refused@;
                refused.push(line);
                assert(strings_view(refused@) =~= strings_view(before).push(line@));
            },
            None => {},
        }
        i += 1;
    }
    assert(ov.take(total as int) == ov);
    if refused.len() == 0 {
        return Ok(());
    }
    let mut s = String::new();
    app_dec(&mut s, refused.len() as u64);
    app(&mut s, " of ");
    app_dec(&mut s, total as u64);
    app(&mut s, " text(s) were not sent. ");
    let j = join(&refused, "; ");
    app(&mut s, j.as_str());
    Err(s)
}

/// The host an alert names: the machine's own hostname, trimmed, when it
/// has one, else the first vhost's primary name, else nothing.
pub open spec fn alert_host_spec(machine: Seq<char>, first_vhost: Option<Seq<char>>) -> Seq<char> {
    if trim_spec(machine).len() > 0 {
        trim_spec(machine)
    } else {
        match first_vhost {
            Some(v) => v,
            None => seq![],
        }
    }
}

/// Choose the host an alert names from the kernel's hostname as read and
/// the first configured vhost, if any.
pub fn alert_host(machine: &str, first_vhost: Option<&str>) -> (r: String)
    ensures
        r@ == alert_host_spec(
            machine@,
            match first_vhost {
                Some(v) => Some(v@),
                None => None,
            },
        ),
{
    let t = trim_chars(&chars_of(machine));
    if t.len() > 0 {
        string_from_chars(&t)
    } else {
        match first_vhost {
            Some(v) => to_owned_str(v),
            None => String::new(),
        }
    }
}

} // verus!
