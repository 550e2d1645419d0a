use vstd::prelude::*;
use vstd::string::*;
use crate::db::models::NotificationRow;
use crate::db::store::Database;
use crate::db::tables::{due_rows, with_notifications, RelevanceRow};
use crate::services::email_sender_service::{
    enqueue_email,
    EmailRequest,
    EmailService,
    EmailView,
    EnqueueOutcome,
};
use crate::utils::datetime::{chrono_format, display_date, DISPLAY_FORMAT};

verus! {

/// The schedule of the expiry scan where none is configured: every minute.
pub const DEFAULT_SCHEDULE: &'static str = "0 * * * * *";

/// Milliseconds to wait between two notices, so that the mail transport is
/// not flooded.
pub const EMISSION_DELAY_MS: u64 = 500;

/// The subject of every expiry notice.
pub const NOTICE_SUBJECT: &'static str = "Key Expiration Notification\u{26a0}\u{fe0f}";

/// The type under which expiry notices are recorded.
pub const NOTICE_TYPE: &'static str = "key_expiration";

/// A secret that is due for a notice, with the address of its owner.
#[derive(Clone, Debug, PartialEq, Eq)]
pub struct KeyRelevanceService {
    pub user_id: i32,
    pub email: String,
    pub key_name: String,
    pub key_type: String,
    pub key_description: String,
    pub created_at: i64,
    pub expiration_date: i64,
}

impl View for KeyRelevanceService {
    type V = RelevanceRow;

    open spec fn view(&self) -> RelevanceRow {
        RelevanceRow {
            user_id: self.user_id,
            email: self.email@,
            key_name: self.key_name@,
            key_type: self.key_type@,
            key_description: self.key_description@,
            created_at: self.created_at,
            expiration_date: self.expiration_date,
        }
    }
}

/// A notice for one secret: the mail for its owner, and the record of it
/// for the audit trail.
#[derive(Clone, Debug, PartialEq, Eq)]
pub struct Notice {
    pub email: EmailRequest,
    pub user_id: i32,
    pub message: String,
}

pub struct NoticeView {
    pub email: EmailView,
    pub record: NotificationRow,
}

impl View for Notice {
    type V = NoticeView;

    open spec fn view(&self) -> NoticeView {
        NoticeView {
            email: self.email@,
            record: NotificationRow {
                user_id: self.user_id,
                notification_type: NOTICE_TYPE@,
                message: self.message@,
            },
        }
    }
}

/// The text of a notice, around the two dates as they are shown.
pub open spec fn notice_body(row: RelevanceRow, created: Seq<char>, expires: Seq<char>) -> Seq<char> {
    "Your key '"@ + row.key_name + "'.\nType '"@ + row.key_type + "' \nDescription: '"@
        + row.key_description + "' \nCreated on "@ + created + " has expired on "@ + expires
        + ". \n\nPlease take action to renew or replace it."@
}

/// What the audit trail says of a secret at `now`: that it expired, or
/// that it is about to.
pub open spec fn notice_message(row: RelevanceRow, now: i64) -> Seq<char> {
    if row.expiration_date <= now {
        "Key '"@ + row.key_name + "' expired"@
    } else {
        "Key '"@ + row.key_name + "' is about to expire"@
    }
}

/// The notice for a secret, from `sender` to the owner. There is none
/// where one of the two dates cannot be shown.
pub open spec fn notice_of(row: RelevanceRow, sender: Seq<char>, now: i64) -> Option<NoticeView> {
    match (
        chrono_format(row.created_at, DISPLAY_FORMAT@),
        chrono_format(row.expiration_date, DISPLAY_FORMAT@),
    ) {
        (Some(created), Some(expires)) => Some(
            NoticeView {
                email: EmailView {
                    sender,
                    recipient: row.email,
                    subject: NOTICE_SUBJECT@,
                    body: notice_body(row, created, expires),
                },
                record: NotificationRow {
                    user_id: row.user_id,
                    notification_type: NOTICE_TYPE@,
                    message: notice_message(row, now),
                },
            },
        ),
        _ => None,
    }
}

pub open spec fn notice_view(notice: Option<Notice>) -> Option<NoticeView> {
    match notice {
        Some(n) => Some(n@),
        None => None,
    }
}

/// Builds the notice for one secret.
pub fn build_notice(key: &KeyRelevanceService, smtp_username: &str, now: i64) -> (notice: Option<
    Notice,
>)
    ensures
        notice_view(notice) == notice_of(key@, smtp_username@, now),
{
    let created = match display_date(key.created_at) {
        Some(created) => created,
        None => {
            return None;
        },
    };
    let expires = match display_date(key.expiration_date) {
        Some(expires) => expires,
        None => {
            return None;
        },
    };
    let mut body = "Your key '".to_owned();
    body.append(key.key_name.as_str());
    body.append("'.\nType '");
    body.append(key.key_type.as_str());
    body.append("' \nDescription: '");
    body.append(key.key_description.as_str());
    body.append("' \nCreated on ");
    body.append(created.as_str());
    body.append(" has expired on ");
    body.append(expires.as_str());
    body.append(". \n\nPlease take action to renew or replace it.");
    let mut message = "Key '".to_owned();
    message.append(key.key_name.as_str());
    if key.expiration_date <= now {
        message.append("' expired");
    } else {
        message.append("' is about to expire");
    }
    Some(
        Notice {
            email: EmailRequest {
                sender: smtp_username.to_owned(),
                recipient: key.email.clone(),
                subject: NOTICE_SUBJECT.to_owned(),
                body,
            },
            user_id: key.user_id,
            message,
        },
    )
}

pub open spec fn email_views(emails: Seq<EmailRequest>) -> Seq<EmailView> {
    Seq::new(emails.len(), |i: int| emails[i]@)
}

/// The queue after one scan: the notices for `rows`, in order, behind what
/// waited already. A notice that finds the queue full, or the service not
/// initialized, is dropped.
pub open spec fn queue_after(
    pending: Seq<EmailView>,
    initialized: bool,
    bound: usize,
    rows: Seq<RelevanceRow>,
    sender: Seq<char>,
    now: i64,
) -> Seq<EmailView>
    decreases rows.len(),
{
    if rows.len() == 0 {
        pending
    } else {
        let before = queue_after(pending, initialized, bound, rows.drop_last(), sender, now);
        match notice_of(rows.last(), sender, now) {
            Some(notice) => if initialized && before.len() < bound {
                before.push(notice.email)
            } else {
                before
            },
            None => before,
        }
    }
}

/// The audit records of one scan: one for every notice, whether or not
/// the queue took it.
pub open spec fn records_of(rows: Seq<RelevanceRow>, sender: Seq<char>, now: i64) -> Seq<
    NotificationRow,
>
    decreases rows.len(),
{
    if rows.len() == 0 {
        Seq::empty()
    } else {
        let before = records_of(rows.drop_last(), sender, now);
        match notice_of(rows.last(), sender, now) {
            Some(notice) => before.push(notice.record),
            None => before,
        }
    }
}

/// What one scan did.
#[derive(Clone, Copy, Debug, PartialEq, Eq, Structural)]
pub struct ScanReport {
    /// Secrets that were due for a notice.
    pub due: usize,
    /// Notices that were recorded in the audit trail.
    pub recorded: usize,
    /// Notices that the queue took.
    pub queued: usize,
}

/// One scan for secrets that expired within the last seven days or that
/// still have an expiration date ahead, and are not revoked. For each, a
/// notice to the owner is handed to the queue and recorded in the audit
/// trail. A notice that cannot be queued is still recorded: the scan never
/// fails, and goes on to the next secret.
pub fn check_keys_relevance(
    db: &mut Database,
    mail: &mut EmailService,
    smtp_username: &str,
    now: i64,
) -> (report: ScanReport)
    ensures
        old(db).wf() ==> final(db).wf(),
        old(db).readable() ==> final(db).readable(),
        old(mail).wf() ==> final(mail).wf(),
        final(mail).is_initialized() == old(mail).is_initialized(),
        final(mail).bound() == old(mail).bound(),
        report.due == due_rows(old(db)@, now).len(),
        report.recorded == records_of(due_rows(old(db)@, now), smtp_username@, now).len(),
        report.queued == final(mail).pending().len() - old(mail).pending().len(),
        email_views(final(mail).pending()) == queue_after(
            email_views(old(mail).pending()),
            old(mail).is_initialized(),
            old(mail).bound(),
            due_rows(old(db)@, now),
            smtp_username@,
            now,
        ),
        final(db)@ == with_notifications(
            old(db)@,
            old(db)@.notifications + records_of(due_rows(old(db)@, now), smtp_username@, now),
        ),
{
    let expired_keys = db.keys_for_notice(now);
    let ghost rows = due_rows(old(db)@, now);
    let mut report = ScanReport { due: expired_keys.len(), recorded: 0, queued: 0 };
    let mut i: usize = 0;
    proof {
        assert(rows.take(0) =~= Seq::empty());
        assert(db@.notifications =~= old(db)@.notifications + Seq::<NotificationRow>::empty());
    }
    while i < expired_keys.len()
        invariant
            i <= expired_keys@.len(),
            rows == due_rows(old(db)@, now),
            rows.len() == expired_keys@.len(),
            forall|j: int| 0 <= j < rows.len() ==> (#[trigger] expired_keys@[j])@ == rows[j],
            old(db).wf() ==> db.wf(),
            old(db).readable() ==> db.readable(),
            old(mail).wf() ==> mail.wf(),
            mail.is_initialized() == old(mail).is_initialized(),
            mail.bound() == old(mail).bound(),
            report.due == rows.len(),
            report.recorded == records_of(rows.take(i as int), smtp_username@, now).len(),
            report.recorded <= i,
            report.queued <= i,
            report.queued == mail.pending().len() - old(mail).pending().len(),
            email_views(mail.pending()) == queue_after(
                email_views(old(mail).pending()),
                old(mail).is_initialized(),
                old(mail).bound(),
                rows.take(i as int),
                smtp_username@,
                now,
            ),
            db@ == with_notifications(
                old(db)@,
                old(db)@.notifications + records_of(rows.take(i as int), smtp_username@, now),
            ),
        decreases expired_keys.len() - i,
    {
        proof {
            assert(rows.take(i + 1).drop_last() =~= rows.take(i as int));
            assert(rows.take(i + 1).last() == rows[i as int]);
        }
        match build_notice(&expired_keys[i], smtp_username, now) {
            Some(notice) => {
                let ghost waiting = mail.pending();
                let ghost recorded = db@.notifications;
                let ghost email = notice.email@;
                let queued = enqueue_email(
                    mail,
                    notice.email.sender,
                    notice.email.recipient,
                    notice.email.subject,
                    notice.email.body,
                );
                if queued == EnqueueOutcome::Queued {
                    report.queued = report.queued + 1;
                    proof {
                        assert(email_views(mail.pending()) =~= email_views(waiting).push(email));
                    }
                }
                db.insert_notification(notice.user_id, NOTICE_TYPE.to_owned(), notice.message);
                report.recorded = report.recorded + 1;
                proof {
                    assert(db@.notifications =~= old(db)@.notifications + records_of(
                        rows.take(i + 1),
                        smtp_username@,
                        now,
                    ));
                }
            },
            None => {},
        }
        i += 1;
    }
    proof {
        assert(rows.take(i as int) =~= rows);
    }
    report
}

} // verus!
