use vstd::prelude::*;
use vstd::string::*;
use crate::services::email_sender_service::{EnqueueOutcome, OutgoingMail};
use crate::services::queue::BoundedQueue;

verus! {

/// Jobs the reset-mail queue holds at most. It is the smaller of the two
/// queues, so that a producer is never held up for long.
pub const RESET_QUEUE_CAPACITY: usize = 20;

/// A reset token waiting to be mailed to its user.
#[derive(Clone, Debug, PartialEq, Eq)]
pub struct EmailRequest {
    pub sender: String,
    pub recipient: String,
    pub reset_password: String,
}

pub struct ResetMailView {
    pub sender: Seq<char>,
    pub recipient: Seq<char>,
    pub reset_password: Seq<char>,
}

impl View for EmailRequest {
    type V = ResetMailView;

    open spec fn view(&self) -> ResetMailView {
        ResetMailView {
            sender: self.sender@,
            recipient: self.recipient@,
            reset_password: self.reset_password@,
        }
    }
}

/// The sending half of the reset-mail pipeline.
pub struct ResetMailService {
    queue: Option<BoundedQueue<EmailRequest>>,
}

impl ResetMailService {
    pub closed spec fn is_initialized(&self) -> bool {
        self.queue is Some
    }

    /// The jobs that wait, oldest first.
    pub closed spec fn pending(&self) -> Seq<EmailRequest> {
        match self.queue {
            Some(q) => q@,
            None => Seq::empty(),
        }
    }

    pub closed spec fn bound(&self) -> usize {
        match self.queue {
            Some(q) => q.bound(),
            None => 0,
        }
    }

    /// No more jobs wait than the queue has room for.
    pub open spec fn wf(&self) -> bool {
        self.pending().len() <= self.bound()
    }

    /// A service that has not been initialized yet.
    pub fn new() -> (service: ResetMailService)
        ensures
            !service.is_initialized(),
            service.pending() == Seq::<EmailRequest>::empty(),
            service.wf(),
    {
        ResetMailService { queue: None }
    }

    pub fn initialized(&self) -> (initialized: bool)
        ensures
            initialized == self.is_initialized(),
    {
        self.queue.is_some()
    }

    pub fn pending_len(&self) -> (len: usize)
        ensures
            len == self.pending().len(),
    {
        match &self.queue {
            Some(q) => q.len(),
            None => 0,
        }
    }

    /// The consumer's side: takes the job that has waited longest.
    pub fn next_email(&mut self) -> (job: Option<EmailRequest>)
        ensures
            final(self).is_initialized() == old(self).is_initialized(),
            final(self).bound() == old(self).bound(),
            old(self).wf() ==> final(self).wf(),
            match job {
                Some(email) => old(self).pending().len() > 0 && email == old(self).pending()[0]
                    && final(self).pending() == old(self).pending().skip(1),
                None => old(self).pending().len() == 0 && final(self).pending() == old(self).pending(),
            },
    {
        match &mut self.queue {
            Some(q) => q.dequeue(),
            None => None,
        }
    }
}

/// Initializes the reset-mail service with an empty queue of 20 places. A
/// service is initialized once.
pub fn init_email_reset_password_service(service: &mut ResetMailService)
    requires
        !old(service).is_initialized(),
    ensures
        final(service).is_initialized(),
        final(service).pending() == Seq::<EmailRequest>::empty(),
        final(service).bound() == RESET_QUEUE_CAPACITY,
        final(service).wf(),
{
    service.queue = Some(BoundedQueue::new(RESET_QUEUE_CAPACITY));
}

/// Hands a reset mail to the queue. Where the queue is full, or the service
/// was not initialized, the job is dropped and the outcome says so.
pub fn enqueue_email_reset_password(
    service: &mut ResetMailService,
    sender: String,
    recipient: String,
    reset_password: String,
) -> (outcome: EnqueueOutcome)
    ensures
        final(service).is_initialized() == old(service).is_initialized(),
        final(service).bound() == old(service).bound(),
        old(service).wf() ==> final(service).wf(),
        outcome == if !old(service).is_initialized() {
            EnqueueOutcome::NotInitialized
        } else if old(service).pending().len() >= old(service).bound() {
            EnqueueOutcome::Dropped
        } else {
            EnqueueOutcome::Queued
        },
        final(service).pending() == if outcome == EnqueueOutcome::Queued {
            old(service).pending().push(EmailRequest { sender, recipient, reset_password })
        } else {
            old(service).pending()
        },
{
    let mail_request = EmailRequest { sender, recipient, reset_password };
    match &mut service.queue {
        Some(q) => match q.try_enqueue(mail_request) {
            Ok(()) => EnqueueOutcome::Queued,
            Err(_) => EnqueueOutcome::Dropped,
        },
        None => EnqueueOutcome::NotInitialized,
    }
}

/// The text of a reset mail around its token.
pub open spec fn reset_body(token: Seq<char>) -> Seq<char> {
    "Your secret reset token is: \n"@ + token
        + "\nNow you can reset your password using this token."@
}

/// The message a reset token is delivered as.
pub fn compose(email: &EmailRequest) -> (mail: OutgoingMail)
    ensures
        mail.from@ == "Key Manager <"@ + email.sender@ + ">"@,
        mail.to@ == "Receiver <"@ + email.recipient@ + ">"@,
        mail.subject@ == "Reset Password"@,
        mail.body@ == reset_body(email.reset_password@),
{
    let mut from = "Key Manager <".to_owned();
    from.append(email.sender.as_str());
    from.append(">");
    let mut to = "Receiver <".to_owned();
    to.append(email.recipient.as_str());
    to.append(">");
    let mut body = "Your secret reset token is: \n".to_owned();
    body.append(email.reset_password.as_str());
    body.append("\nNow you can reset your password using this token.");
    OutgoingMail { from, to, subject: "Reset Password".to_owned(), body }
}

} // verus!
