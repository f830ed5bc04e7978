//! Notification messages: verification and unsubscribe links, the emails
//! sent to subscribers, and the cycle that sends one flood alert to every
//! active recipient.
//!
//! A cycle attempts every recipient, one at a time and in store order, and
//! reports what was delivered and what failed, rather than stopping at the
//! first failure: one bad address does not keep later recipients from
//! their alert.

use crate::subscriber::{active_recipients, SubscriberStore, User, UserView};
use crate::tides::{displays, flood_order, get_flood_predictions, FloodDisplay, LocalDateTime, TideArchive, TideRow};
use crate::token::unsubscribe_token_of;
use vstd::prelude::*;

verus! {

/// The link that confirms a signup.
pub open spec fn verification_link_text(base_url: Seq<char>, token: Seq<char>) -> Seq<char> {
    base_url + "/verify?token="@ + token
}

/// The link that unsubscribes `id`, carrying its token.
pub open spec fn unsubscribe_link_text(base_url: Seq<char>, id: Seq<char>, token: Seq<char>) -> Seq<char> {
    base_url + "/unsubscribe?id="@ + id + "&token="@ + token
}

/// The unsubscribe link of a subscriber under a secret.
pub open spec fn subscriber_unsubscribe_link(base_url: Seq<char>, id: Seq<char>, secret: Seq<char>) -> Seq<char> {
    unsubscribe_link_text(base_url, id, unsubscribe_token_of(id, secret))
}

/// The plain-text part of an email: its body, then its unsubscribe link.
pub open spec fn plain_part(body: Seq<char>, unsubscribe_link: Seq<char>) -> Seq<char> {
    body + "\n\nUnsubscribe link:"@ + unsubscribe_link
}

/// The value of the `List-Unsubscribe` header.
pub open spec fn list_unsubscribe_value(unsubscribe_link: Seq<char>) -> Seq<char> {
    "<"@ + unsubscribe_link + ">"@
}

pub open spec fn verification_body(verification_link: Seq<char>) -> Seq<char> {
    "Welcome! Please verify your email address: "@ + verification_link
}

pub open spec fn notification_body(base_url: Seq<char>, unsubscribe_link: Seq<char>) -> Seq<char> {
    "Upcoming potential floods for the MV-Sausalito bike path. Please visit "@ + base_url
        + " for details.\n\nUnsubscribe link: "@ + unsubscribe_link
}

/// What the verification email shows.
#[derive(Debug, Clone)]
pub struct VerifyTemplate {
    pub verification_link: String,
    pub unsubscribe_link: String,
}

/// What a flood alert shows.
#[derive(Debug, Clone)]
pub struct NotificationTemplate {
    pub predictions: Vec<FloodDisplay>,
    pub homepage_url: String,
    pub unsubscribe_link: String,
}

/// An email ready to be rendered and handed to the transport: the HTML part
/// is rendered from `template`.
#[derive(Debug, Clone)]
pub struct OutgoingEmail<T> {
    pub to: String,
    pub subject: String,
    pub plain_text: String,
    pub list_unsubscribe: String,
    pub template: T,
}

/// The link that confirms a signup with `token`.
pub fn verification_link(base_url: &str, token: &str) -> (r: String)
    ensures
        r@ == verification_link_text(base_url@, token@),
{
    let mut out = String::from_str(base_url);
    out.append("/verify?token=");
    out.append(token);
    out
}

/// The unsubscribe link of `user` under `secret`.
pub fn unsubscribe_link(base_url: &str, user: &User, secret: &str) -> (r: String)
    ensures
        r@ == subscriber_unsubscribe_link(base_url@, user.id@, secret@),
{
    let token = user.generate_unsubscribe_token(secret);
    let mut out = String::from_str(base_url);
    out.append("/unsubscribe?id=");
    out.append(user.id.as_str());
    out.append("&token=");
    out.append(token.as_str());
    out
}

fn plain_text_with_link(body: &String, link: &String) -> (r: String)
    ensures
        r@ == plain_part(body@, link@),
{
    let mut out = body.clone();
    out.append("\n\nUnsubscribe link:");
    out.append(link.as_str());
    out
}

fn list_unsubscribe_header(link: &String) -> (r: String)
    ensures
        r@ == list_unsubscribe_value(link@),
{
    let mut out = String::from_str("<");
    out.append(link.as_str());
    out.append(">");
    out
}

/// The email that asks `user` to confirm the address, with its
/// verification and unsubscribe links.
pub fn verification_email(user: &User, base_url: &str, secret: &str) -> (r: OutgoingEmail<VerifyTemplate>)
    ensures
        r.to@ == user.email@,
        r.subject@ == "Please verify your email"@,
        r.template.verification_link@ == verification_link_text(base_url@, user.verification_token@),
        r.template.unsubscribe_link@ == subscriber_unsubscribe_link(base_url@, user.id@, secret@),
        r.plain_text@ == plain_part(verification_body(r.template.verification_link@), r.template.unsubscribe_link@),
        r.list_unsubscribe@ == list_unsubscribe_value(r.template.unsubscribe_link@),
{
    let verify = verification_link(base_url, user.verification_token.as_str());
    let unsubscribe = unsubscribe_link(base_url, user, secret);
    let mut body = String::from_str("Welcome! Please verify your email address: ");
    body.append(verify.as_str());
    let plain_text = plain_text_with_link(&body, &unsubscribe);
    let list_unsubscribe = list_unsubscribe_header(&unsubscribe);
    OutgoingEmail {
        to: user.email.clone(),
        subject: String::from_str("Please verify your email"),
        plain_text,
        list_unsubscribe,
        template: VerifyTemplate { verification_link: verify, unsubscribe_link: unsubscribe },
    }
}

/// The flood alert for one recipient: what `notification_email` holds.
pub open spec fn is_alert_for(
    m: OutgoingEmail<NotificationTemplate>,
    events: Seq<FloodDisplay>,
    recipient: UserView,
    base_url: Seq<char>,
    secret: Seq<char>,
) -> bool {
    let link = subscriber_unsubscribe_link(base_url, recipient.id, secret);
    &&& m.to@ == recipient.email
    &&& m.subject@ == "MV-Sausalito Bike Path Flooding Forecasted"@
    &&& m.template.predictions@ == events
    &&& m.template.homepage_url@ == base_url
    &&& m.template.unsubscribe_link@ == link
    &&& m.plain_text@ == plain_part(notification_body(base_url, link), link)
    &&& m.list_unsubscribe@ == list_unsubscribe_value(link)
}

fn copy_events(events: &Vec<FloodDisplay>) -> (r: Vec<FloodDisplay>)
    ensures
        r@ == events@,
{
    let mut out: Vec<FloodDisplay> = Vec::new();
    let mut i: usize = 0;
    while i < events.len()
        invariant
            i <= events@.len(),
            out@ == events@.subrange(0, i as int),
        decreases events@.len() - i,
    {
        let e = &events[i];
        out.push(FloodDisplay { datetime: e.datetime.clone(), height: e.height.clone() });
        assert(out@ =~= events@.subrange(0, i + 1));
        i = i + 1;
    }
    assert(events@.subrange(0, events@.len() as int) =~= events@);
    out
}

/// The flood alert for `recipient`, listing `events`.
pub fn notification_email(events: &Vec<FloodDisplay>, recipient: &User, base_url: &str, secret: &str) -> (r: OutgoingEmail<NotificationTemplate>)
    ensures
        is_alert_for(r, events@, recipient@, base_url@, secret@),
{
    let link = unsubscribe_link(base_url, recipient, secret);
    let mut body = String::from_str("Upcoming potential floods for the MV-Sausalito bike path. Please visit ");
    body.append(base_url);
    body.append(" for details.\n\nUnsubscribe link: ");
    body.append(link.as_str());
    let plain_text = plain_text_with_link(&body, &link);
    let list_unsubscribe = list_unsubscribe_header(&link);
    OutgoingEmail {
        to: recipient.email.clone(),
        subject: String::from_str("MV-Sausalito Bike Path Flooding Forecasted"),
        plain_text,
        list_unsubscribe,
        template: NotificationTemplate {
            predictions: copy_events(events),
            homepage_url: String::from_str(base_url),
            unsubscribe_link: link,
        },
    }
}

/// One alert per recipient, in recipient order; none when there is no
/// event to report.
pub fn plan_notifications(events: &Vec<FloodDisplay>, recipients: &Vec<User>, base_url: &str, secret: &str) -> (r: Vec<OutgoingEmail<NotificationTemplate>>)
    ensures
        events@.len() == 0 ==> r@.len() == 0,
        events@.len() > 0 ==> r@.len() == recipients@.len(),
        forall|i: int| 0 <= i < r@.len() ==> is_alert_for(#[trigger] r@[i], events@, recipients@[i]@, base_url@, secret@),
{
    let mut out: Vec<OutgoingEmail<NotificationTemplate>> = Vec::new();
    if events.len() == 0 {
        return out;
    }
    let mut i: usize = 0;
    while i < recipients.len()
        invariant
            i <= recipients@.len(),
            out@.len() == i,
            forall|j: int| 0 <= j < i ==> is_alert_for(#[trigger] out@[j], events@, recipients@[j]@, base_url@, secret@),
        decreases recipients@.len() - i,
    {
        out.push(notification_email(events, &recipients[i], base_url, secret));
        i = i + 1;
    }
    out
}

/// `emails` are the alerts of a cycle over `events` and `recipients`: none
/// when there is no event, else one per recipient, in order.
pub open spec fn is_batch(
    emails: Seq<OutgoingEmail<NotificationTemplate>>,
    events: Seq<FloodDisplay>,
    recipients: Seq<UserView>,
    base_url: Seq<char>,
    secret: Seq<char>,
) -> bool {
    &&& events.len() == 0 ==> emails.len() == 0
    &&& events.len() > 0 ==> emails.len() == recipients.len()
    &&& forall|i: int| 0 <= i < emails.len() ==> is_alert_for(#[trigger] emails[i], events, recipients[i], base_url, secret)
}

/// The alerts of one notification cycle at `now`: the flood events of the
/// archive, sent to every active recipient of the store.
pub fn notification_batch(
    archive: &TideArchive,
    store: &SubscriberStore,
    now: LocalDateTime,
    base_url: &str,
    secret: &str,
) -> (r: Vec<OutgoingEmail<NotificationTemplate>>)
    requires
        archive.wf(),
        now.wf(),
    ensures
        exists|rows: Seq<TideRow>, events: Seq<FloodDisplay>|
            flood_order(archive@, now, rows) && displays(events, rows) && is_batch(
                r@,
                events,
                active_recipients(store@),
                base_url@,
                secret@,
            ),
{
    let events = get_flood_predictions(archive, now);
    if events.len() == 0 {
        let r: Vec<OutgoingEmail<NotificationTemplate>> = Vec::new();
        assert(is_batch(r@, events@, active_recipients(store@), base_url@, secret@));
        return r;
    }
    let recipients = store.list_active_recipients();
    let r = plan_notifications(&events, &recipients, base_url, secret);
    assert forall|i: int| 0 <= i < recipients@.len() implies #[trigger] recipients@[i]@ == active_recipients(store@)[i] by {
        assert(recipients@.map_values(|u: User| u@)[i] == recipients@[i]@);
    }
    assert(is_batch(r@, events@, active_recipients(store@), base_url@, secret@));
    r
}

/// What a dispatch cycle has done so far.
pub struct DispatchView {
    pub emails: Seq<OutgoingEmail<NotificationTemplate>>,
    pub next: nat,
    pub delivered: nat,
    pub failed: Seq<Seq<char>>,
}

/// A notification cycle in progress: the alerts are handed to the transport
/// one at a time, in order, and every outcome is recorded.
pub struct DispatchCycle {
    emails: Vec<OutgoingEmail<NotificationTemplate>>,
    next: usize,
    delivered: usize,
    failed: Vec<String>,
}

impl View for DispatchCycle {
    type V = DispatchView;

    closed spec fn view(&self) -> DispatchView {
        DispatchView {
            emails: self.emails@,
            next: self.next as nat,
            delivered: self.delivered as nat,
            failed: self.failed@.map_values(|s: String| s@),
        }
    }
}

impl DispatchCycle {
    /// Every alert before `next` was attempted once and counted once.
    pub open spec fn wf(&self) -> bool {
        &&& self@.next <= self@.emails.len()
        &&& self@.delivered + self@.failed.len() == self@.next
    }

    /// A cycle that has attempted nothing yet.
    pub fn new(emails: Vec<OutgoingEmail<NotificationTemplate>>) -> (r: DispatchCycle)
        ensures
            r.wf(),
            r@.emails == emails@,
            r@.next == 0,
            r@.delivered == 0,
            r@.failed.len() == 0,
    {
        let r = DispatchCycle { emails, next: 0, delivered: 0, failed: Vec::new() };
        assert(r@.failed =~= Seq::<Seq<char>>::empty());
        r
    }

    /// The alert to hand to the transport next, or none when every alert
    /// has been attempted.
    pub fn next_email(&self) -> (r: Option<&OutgoingEmail<NotificationTemplate>>)
        requires
            self.wf(),
        ensures
            r is None <==> self@.next == self@.emails.len(),
            r matches Some(m) ==> *m == self@.emails[self@.next as int],
    {
        if self.next < self.emails.len() {
            Some(&self.emails[self.next])
        } else {
            None
        }
    }

    /// Records whether the transport accepted the current alert, and moves
    /// on to the next one. A refused alert is remembered by its address.
    pub fn record(&mut self, delivered: bool)
        requires
            old(self).wf(),
            old(self)@.next < old(self)@.emails.len(),
        ensures
            final(self).wf(),
            final(self)@.emails == old(self)@.emails,
            final(self)@.next == old(self)@.next + 1,
            delivered ==> final(self)@.delivered == old(self)@.delivered + 1 && final(self)@.failed == old(self)@.failed,
            !delivered ==> final(self)@.delivered == old(self)@.delivered && final(self)@.failed == old(self)@.failed.push(
                old(self)@.emails[old(self)@.next as int].to@,
            ),
    {
        let count = self.emails.len();
        assert(self.next < count && self.delivered <= self.next);
        if delivered {
            self.delivered = self.delivered + 1;
        } else {
            let to = self.emails[self.next].to.clone();
            self.failed.push(to);
            assert(self@.failed =~= old(self)@.failed.push(old(self)@.emails[old(self)@.next as int].to@));
        }
        self.next = self.next + 1;
    }

    /// Whether every alert has been attempted.
    pub fn is_done(&self) -> (r: bool)
        ensures
            r == (self@.next == self@.emails.len()),
    {
        self.next == self.emails.len()
    }

    /// How many alerts the transport accepted.
    pub fn delivered_count(&self) -> (r: usize)
        ensures
            r == self@.delivered,
    {
        self.delivered
    }

    /// How many alerts the transport refused.
    pub fn failed_count(&self) -> (r: usize)
        ensures
            r == self@.failed.len(),
    {
        self.failed.len()
    }

    /// The addresses whose alert the transport refused, in order.
    pub fn failed_recipients(&self) -> (r: Vec<String>)
        ensures
            r@.map_values(|s: String| s@) == self@.failed,
    {
        self.failed.clone()
    }
}

} // verus!
