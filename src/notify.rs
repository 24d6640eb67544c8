//! Notifications: which deliveries a state transition fans out to, and the
//! texts that each channel shows.
use vstd::prelude::*;
use vstd::string::*;

use crate::model::{Environment, Project, Report, ReportEvent};
use crate::reports::ReportStatus;
use crate::text::{decimal, push_decimal};

verus! {

/// A state transition of a report, handed to the dispatcher.
pub struct Notification {
    pub status: Option<ReportStatus>,
    pub project: Project,
    pub event: ReportEvent,
    pub report: Report,
    pub environment: Option<Environment>,
}

/// A member of the project with a notification-settings row.
pub struct Subscriber {
    pub email: String,
    pub pushover_user_key: Option<String>,
    pub notify_email: bool,
    pub notify_pushover: bool,
}

/// One message to send on one channel.
pub enum Delivery {
    Email { to: String, subject: String, template: String },
    Pushover { token: String, user_key: String, message: String },
    SlackApp { token: String, channel: String },
    SlackWebhook { url: String },
    TeamsWebhook { url: String },
    Webhook { url: String },
}

/// A delivery, as values.
pub enum DeliveryView {
    Email { to: Seq<char>, subject: Seq<char>, template: Seq<char> },
    Pushover { token: Seq<char>, user_key: Seq<char>, message: Seq<char> },
    SlackApp { token: Seq<char>, channel: Seq<char> },
    SlackWebhook { url: Seq<char> },
    TeamsWebhook { url: Seq<char> },
    Webhook { url: Seq<char> },
}

impl View for Delivery {
    type V = DeliveryView;

    open spec fn view(&self) -> DeliveryView {
        match self {
            Delivery::Email { to, subject, template } => DeliveryView::Email {
                to: to@,
                subject: subject@,
                template: template@,
            },
            Delivery::Pushover { token, user_key, message } => DeliveryView::Pushover {
                token: token@,
                user_key: user_key@,
                message: message@,
            },
            Delivery::SlackApp { token, channel } => DeliveryView::SlackApp { token: token@, channel: channel@ },
            Delivery::SlackWebhook { url } => DeliveryView::SlackWebhook { url: url@ },
            Delivery::TeamsWebhook { url } => DeliveryView::TeamsWebhook { url: url@ },
            Delivery::Webhook { url } => DeliveryView::Webhook { url: url@ },
        }
    }
}

/// The view of an optional text.
pub open spec fn opt_view(s: Option<String>) -> Option<Seq<char>> {
    match s {
        Some(t) => Some(t@),
        None => None,
    }
}

/// The name of a notification's environment, if it has one.
pub open spec fn env_name(n: Notification) -> Option<Seq<char>> {
    match n.environment {
        Some(e) => Some(e.name@),
        None => None,
    }
}

/// `" in <name>"`, or nothing.
pub open spec fn env_suffix(env: Option<Seq<char>>) -> Seq<char> {
    match env {
        Some(name) => " in "@ + name,
        None => Seq::empty(),
    }
}

/// The link to a report in the web interface.
pub open spec fn report_url_of(scheme: Seq<char>, base_url: Seq<char>, report_id: u32) -> Seq<char> {
    scheme + "://"@ + base_url + "/view-report/"@ + decimal(report_id as nat)
}

/// The one-line text of an email subject and of a push message.
pub open spec fn headline_of(status: ReportStatus, project: Seq<char>, title: Seq<char>, env: Option<Seq<char>>) -> Seq<char> {
    match status {
        ReportStatus::New => "New report on "@ + project + " received '"@ + title + "'"@ + env_suffix(env),
        ReportStatus::Regressed => "Resolved report on "@ + project + " reappeared: '"@ + title + "'"@
            + env_suffix(env),
    }
}

/// The plain text of a chat message.
pub open spec fn chat_text_of(status: ReportStatus, project: Seq<char>, title: Seq<char>, env: Option<Seq<char>>) -> Seq<char> {
    match status {
        ReportStatus::New => ":boom: New report on "@ + project + " received "@ + title + env_suffix(env),
        ReportStatus::Regressed => "Resolved report on "@ + project + " reappeared: "@ + title + env_suffix(env),
    }
}

/// The markdown of a chat message: names in bold.
pub open spec fn chat_markdown_of(status: ReportStatus, project: Seq<char>, title: Seq<char>, env: Option<Seq<char>>) -> Seq<char> {
    let env_part = match env {
        Some(name) => " in *"@ + name + "*"@,
        None => Seq::empty(),
    };
    match status {
        ReportStatus::New => ":boom: New report on *"@ + project + "* received "@ + title + env_part,
        ReportStatus::Regressed => "Resolved report on *"@ + project + "* reappeared: "@ + title + env_part,
    }
}

/// The heading of a card message.
pub open spec fn card_heading_of(status: ReportStatus, project: Seq<char>) -> Seq<char> {
    match status {
        ReportStatus::New => "New report on "@ + project + " received"@,
        ReportStatus::Regressed => "Resolved report on "@ + project + " reappeared"@,
    }
}

/// The email template of a status.
pub open spec fn template_of(status: ReportStatus) -> Seq<char> {
    match status {
        ReportStatus::New => "email/new_report"@,
        ReportStatus::Regressed => "email/regressed_report"@,
    }
}

/// The deliveries to one subscriber: email where enabled, then push where
/// enabled and both the application token and the user's key are known.
pub open spec fn subscriber_deliveries(
    status: ReportStatus,
    headline: Seq<char>,
    s: Subscriber,
    pushover_token: Option<Seq<char>>,
) -> Seq<DeliveryView> {
    let email = if s.notify_email {
        seq![DeliveryView::Email { to: s.email@, subject: headline, template: template_of(status) }]
    } else {
        Seq::empty()
    };
    let push = match (pushover_token, opt_view(s.pushover_user_key)) {
        (Some(token), Some(key)) => if s.notify_pushover {
            seq![DeliveryView::Pushover { token, user_key: key, message: headline }]
        } else {
            Seq::empty()
        },
        _ => Seq::empty(),
    };
    email + push
}

/// The deliveries to all subscribers, in their order.
pub open spec fn subscribers_deliveries(
    status: ReportStatus,
    headline: Seq<char>,
    subs: Seq<Subscriber>,
    pushover_token: Option<Seq<char>>,
) -> Seq<DeliveryView>
    decreases subs.len(),
{
    if subs.len() == 0 {
        Seq::empty()
    } else {
        subscribers_deliveries(status, headline, subs.drop_last(), pushover_token) + subscriber_deliveries(
            status,
            headline,
            subs.last(),
            pushover_token,
        )
    }
}

/// The project-wide channels that are configured: the chat bot (token and
/// channel both set), the chat webhook, the card webhook, the JSON webhook.
pub open spec fn project_deliveries(p: Project) -> Seq<DeliveryView> {
    let bot = match (opt_view(p.slack_bot_token), opt_view(p.slack_channel)) {
        (Some(token), Some(channel)) => seq![DeliveryView::SlackApp { token, channel }],
        _ => Seq::empty(),
    };
    let chat = match opt_view(p.slack_webhook) {
        Some(url) => seq![DeliveryView::SlackWebhook { url }],
        None => Seq::empty(),
    };
    let card = match opt_view(p.teams_webhook) {
        Some(url) => seq![DeliveryView::TeamsWebhook { url }],
        None => Seq::empty(),
    };
    let hook = match opt_view(p.webhook) {
        Some(url) => seq![DeliveryView::Webhook { url }],
        None => Seq::empty(),
    };
    bot + chat + card + hook
}

/// Everything that a notification fans out to; nothing without a status.
pub open spec fn planned_deliveries(
    n: Notification,
    subs: Seq<Subscriber>,
    pushover_token: Option<Seq<char>>,
) -> Seq<DeliveryView> {
    match n.status {
        None => Seq::empty(),
        Some(status) => {
            let headline = headline_of(status, n.project.name@, n.report.title@, env_name(n));
            subscribers_deliveries(status, headline, subs, pushover_token) + project_deliveries(n.project)
        },
    }
}

fn push_env_suffix(s: &mut String, env: &Option<Environment>)
    ensures
        final(s)@ == old(s)@ + env_suffix(
            match env {
                Some(e) => Some(e.name@),
                None => None,
            },
        ),
{
    match env {
        Some(e) => {
            s.append(" in ");
            s.append(e.name.as_str());
        },
        None => {
            assert(old(s)@ + Seq::<char>::empty() =~= old(s)@);
        },
    }
}

/// The link to a report in the web interface.
pub fn report_url(scheme: &str, base_url: &str, report_id: u32) -> (r: String)
    ensures
        r@ == report_url_of(scheme@, base_url@, report_id),
{
    let mut r = scheme.to_owned();
    r.append("://");
    r.append(base_url);
    r.append("/view-report/");
    push_decimal(&mut r, report_id as u64);
    r
}

/// The email subject, also the push message, of a transition.
pub fn headline(status: ReportStatus, project_name: &str, title: &str, env: &Option<Environment>) -> (r: String)
    ensures
        r@ == headline_of(
            status,
            project_name@,
            title@,
            match env {
                Some(e) => Some(e.name@),
                None => None,
            },
        ),
{
    let mut r = match status {
        ReportStatus::New => String::from_str("New report on "),
        ReportStatus::Regressed => String::from_str("Resolved report on "),
    };
    r.append(project_name);
    match status {
        ReportStatus::New => r.append(" received '"),
        ReportStatus::Regressed => r.append(" reappeared: '"),
    }
    r.append(title);
    r.append("'");
    push_env_suffix(&mut r, env);
    r
}

/// The plain text of a chat message about a transition.
pub fn chat_text(status: ReportStatus, project_name: &str, title: &str, env: &Option<Environment>) -> (r: String)
    ensures
        r@ == chat_text_of(
            status,
            project_name@,
            title@,
            match env {
                Some(e) => Some(e.name@),
                None => None,
            },
        ),
{
    let mut r = match status {
        ReportStatus::New => String::from_str(":boom: New report on "),
        ReportStatus::Regressed => String::from_str("Resolved report on "),
    };
    r.append(project_name);
    match status {
        ReportStatus::New => r.append(" received "),
        ReportStatus::Regressed => r.append(" reappeared: "),
    }
    r.append(title);
    push_env_suffix(&mut r, env);
    r
}

/// The markdown of a chat message about a transition.
pub fn chat_markdown(status: ReportStatus, project_name: &str, title: &str, env: &Option<Environment>) -> (r: String)
    ensures
        r@ == chat_markdown_of(
            status,
            project_name@,
            title@,
            match env {
                Some(e) => Some(e.name@),
                None => None,
            },
        ),
{
    let mut r = match status {
        ReportStatus::New => String::from_str(":boom: New report on *"),
        ReportStatus::Regressed => String::from_str("Resolved report on *"),
    };
    r.append(project_name);
    match status {
        ReportStatus::New => r.append("* received "),
        ReportStatus::Regressed => r.append("* reappeared: "),
    }
    r.append(title);
    match env {
        Some(e) => {
            r.append(" in *");
            r.append(e.name.as_str());
            r.append("*");
        },
        None => {},
    }
    r
}

/// The heading of a card message about a transition.
pub fn card_heading(status: ReportStatus, project_name: &str) -> (r: String)
    ensures
        r@ == card_heading_of(status, project_name@),
{
    let mut r = match status {
        ReportStatus::New => String::from_str("New report on "),
        ReportStatus::Regressed => String::from_str("Resolved report on "),
    };
    r.append(project_name);
    match status {
        ReportStatus::New => r.append(" received"),
        ReportStatus::Regressed => r.append(" reappeared"),
    }
    r
}

/// The email template of a transition.
pub fn email_template(status: ReportStatus) -> (r: String)
    ensures
        r@ == template_of(status),
{
    match status {
        ReportStatus::New => String::from_str("email/new_report"),
        ReportStatus::Regressed => String::from_str("email/regressed_report"),
    }
}

/// Lists the deliveries of a notification, in the order in which the
/// dispatcher makes them: per subscriber email then push, then the
/// project's chat bot, chat webhook, card webhook and JSON webhook.
pub fn plan_deliveries(n: &Notification, subscribers: &Vec<Subscriber>, pushover_token: &Option<String>) -> (r: Vec<
    Delivery,
>)
    ensures
        r@.map_values(|d: Delivery| d@) == planned_deliveries(*n, subscribers@, opt_view(*pushover_token)),
{
    let mut r: Vec<Delivery> = Vec::new();
    let status = match n.status {
        None => {
            proof {
                assert(r@.map_values(|d: Delivery| d@) =~= Seq::<DeliveryView>::empty());
            }
            return r;
        },
        Some(s) => s,
    };
    let head = headline(status, n.project.name.as_str(), n.report.title.as_str(), &n.environment);
    let ghost token_view = opt_view(*pushover_token);
    let mut i: usize = 0;
    while i < subscribers.len()
        invariant
            i <= subscribers@.len(),
            token_view == opt_view(*pushover_token),
            r@.map_values(|d: Delivery| d@) == subscribers_deliveries(
                status,
                head@,
                subscribers@.subrange(0, i as int),
                token_view,
            ),
        decreases subscribers@.len() - i,
    {
        let s = &subscribers[i];
        let ghost before = r@.map_values(|d: Delivery| d@);
        if s.notify_email {
            r.push(Delivery::Email { to: s.email.clone(), subject: head.clone(), template: email_template(status) });
        }
        let ghost mid = r@.map_values(|d: Delivery| d@);
        let ghost email_part = if s.notify_email {
            seq![DeliveryView::Email { to: s.email@, subject: head@, template: template_of(status) }]
        } else {
            Seq::empty()
        };
        assert(mid =~= before + email_part);
        match (pushover_token, &s.pushover_user_key) {
            (Some(token), Some(key)) => {
                if s.notify_pushover {
                    r.push(Delivery::Pushover { token: token.clone(), user_key: key.clone(), message: head.clone() });
                    assert(r@.map_values(|d: Delivery| d@) =~= mid.push(
                        DeliveryView::Pushover { token: token@, user_key: key@, message: head@ },
                    ));
                    assert(subscriber_deliveries(status, head@, *s, token_view) =~= email_part + seq![
                        DeliveryView::Pushover { token: token@, user_key: key@, message: head@ },
                    ]);
                } else {
                    assert(r@.map_values(|d: Delivery| d@) =~= mid);
                    assert(subscriber_deliveries(status, head@, *s, token_view) =~= email_part);
                }
            },
            _ => {
                assert(r@.map_values(|d: Delivery| d@) =~= mid);
                assert(opt_view(*pushover_token) is None || opt_view(s.pushover_user_key) is None);
                assert(subscriber_deliveries(status, head@, *s, token_view) =~= email_part);
            },
        }
        proof {
            let subs = subscribers@.subrange(0, i + 1);
            assert(subs.drop_last() =~= subscribers@.subrange(0, i as int));
            assert(subs.last() == *s);
            let one = subscriber_deliveries(status, head@, *s, token_view);
            assert(r@.map_values(|d: Delivery| d@) =~= before + one);
        }
        i = i + 1;
    }
    proof {
        assert(subscribers@.subrange(0, subscribers@.len() as int) =~= subscribers@);
    }
    let ghost users_part = r@.map_values(|d: Delivery| d@);
    let p = &n.project;
    match (&p.slack_bot_token, &p.slack_channel) {
        (Some(token), Some(channel)) => {
            r.push(Delivery::SlackApp { token: token.clone(), channel: channel.clone() });
        },
        _ => {},
    }
    match &p.slack_webhook {
        Some(url) => r.push(Delivery::SlackWebhook { url: url.clone() }),
        None => {},
    }
    match &p.teams_webhook {
        Some(url) => r.push(Delivery::TeamsWebhook { url: url.clone() }),
        None => {},
    }
    match &p.webhook {
        Some(url) => r.push(Delivery::Webhook { url: url.clone() }),
        None => {},
    }
    proof {
        assert(r@.map_values(|d: Delivery| d@) =~= users_part + project_deliveries(*p));
    }
    r
}

} // verus!
