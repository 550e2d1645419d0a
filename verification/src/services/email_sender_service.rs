use vstd::prelude::*;
use vstd::string::*;
use crate::services::queue::BoundedQueue;

verus! {

/// Jobs the notice queue holds at most.
pub const EMAIL_QUEUE_CAPACITY: usize = 100;

/// A notice waiting to be delivered. It lives in memory only.
#[derive(Clone, Debug, PartialEq, Eq)]
pub struct EmailRequest {
    pub sender: String,
    pub recipient: String,
    pub subject: String,
    pub body: String,
}

pub struct EmailView {
    pub sender: Seq<char>,
    pub recipient: Seq<char>,
    pub subject: Seq<char>,
    pub body: Seq<char>,
}

impl View for EmailRequest {
    type V = EmailView;

    open spec fn view(&self) -> EmailView {
        EmailView {
            sender: self.sender@,
            recipient: self.recipient@,
            subject: self.subject@,
            body: self.body@,
        }
    }
}

/// A message as it is handed to the mail transport.
#[derive(Clone, Debug, PartialEq, Eq)]
pub struct OutgoingMail {
    pub from: String,
    pub to: String,
    pub subject: String,
    pub body: String,
}

/// What became of a job that a producer handed in.
#[derive(Clone, Copy, Debug, PartialEq, Eq, Structural)]
pub enum EnqueueOutcome {
    /// The job waits in the queue.
    Queued,
    /// The queue was full: the job was dropped.
    Dropped,
    /// The service was never initialized: the job was dropped.
    NotInitialized,
}

/// The line to log for an outcome, if it is a failure.
pub open spec fn outcome_log(outcome: EnqueueOutcome) -> Option<Seq<char>> {
    match outcome {
        EnqueueOutcome::Queued => None,
        EnqueueOutcome::Dropped => Some("Fail to send email request"@),
        EnqueueOutcome::NotInitialized => Some(
            "Not initialized email service, transmitter does not exist"@,
        ),
    }
}

pub open spec fn log_view(line: Option<&'static str>) -> Option<Seq<char>> {
    match line {
        Some(l) => Some(l@),
        None => None,
    }
}

impl EnqueueOutcome {
    /// A failure to enqueue is never an error for the producer: it is
    /// logged, loudly, and the producer goes on.
    pub fn log_line(self) -> (line: Option<&'static str>)
        ensures
            log_view(line) == outcome_log(self),
    {
        match self {
            EnqueueOutcome::Queued => None,
            EnqueueOutcome::Dropped => Some("Fail to send email request"),
            EnqueueOutcome::NotInitialized => Some(
                "Not initialized email service, transmitter does not exist",
            ),
        }
    }
}

/// The sending half of the notice pipeline. It is made once, at startup,
/// and handed to every producer.
pub struct EmailService {
    queue: Option<BoundedQueue<EmailRequest>>,
}

impl EmailService {
    pub closed spec fn is_initialized(&self) -> bool {
        self.queue is Some
    }

    /// The jobs that wait, oldest first.
    pub closed spec fn pending(&self) -> Seq<EmailRequest> {
        match self.queue {
            Some(q) => q@,
            None => Seq::empty(),
        }
    }

    pub closed spec fn bound(&self) -> usize {
        match self.queue {
            Some(q) => q.bound(),
            None => 0,
        }
    }

    /// No more jobs wait than the queue has room for.
    pub open spec fn wf(&self) -> bool {
        self.pending().len() <= self.bound()
    }

    /// A service that has not been initialized yet.
    pub fn new() -> (service: EmailService)
        ensures
            !service.is_initialized(),
            service.pending() == Seq::<EmailRequest>::empty(),
            service.wf(),
    {
        EmailService { queue: None }
    }

    pub fn initialized(&self) -> (initialized: bool)
        ensures
            initialized == self.is_initialized(),
    {
        self.queue.is_some()
    }

    pub fn pending_len(&self) -> (len: usize)
        ensures
            len == self.pending().len(),
    {
        match &self.queue {
            Some(q) => q.len(),
            None => 0,
        }
    }

    /// The consumer's side: takes the job that has waited longest.
    pub fn next_email(&mut self) -> (job: Option<EmailRequest>)
        ensures
            final(self).is_initialized() == old(self).is_initialized(),
            final(self).bound() == old(self).bound(),
            old(self).wf() ==> final(self).wf(),
            match job {
                Some(email) => old(self).pending().len() > 0 && email == old(self).pending()[0]
                    && final(self).pending() == old(self).pending().skip(1),
                None => old(self).pending().len() == 0 && final(self).pending() == old(self).pending(),
            },
    {
        match &mut self.queue {
            Some(q) => q.dequeue(),
            None => None,
        }
    }
}

/// Initializes the notice service with an empty queue of 100 places. A
/// service is initialized once.
pub fn init_email_service(service: &mut EmailService)
    requires
        !old(service).is_initialized(),
    ensures
        final(service).is_initialized(),
        final(service).pending() == Seq::<EmailRequest>::empty(),
        final(service).bound() == EMAIL_QUEUE_CAPACITY,
        final(service).wf(),
{
    service.queue = Some(BoundedQueue::new(EMAIL_QUEUE_CAPACITY));
}

/// Hands a notice to the queue. The producer is never held up: where the
/// queue is full, or the service was not initialized, the job is dropped
/// and the outcome says so.
pub fn enqueue_email(
    service: &mut EmailService,
    sender: String,
    recipient: String,
    subject: String,
    body: String,
) -> (outcome: EnqueueOutcome)
    ensures
        final(service).is_initialized() == old(service).is_initialized(),
        final(service).bound() == old(service).bound(),
        old(service).wf() ==> final(service).wf(),
        outcome == if !old(service).is_initialized() {
            EnqueueOutcome::NotInitialized
        } else if old(service).pending().len() >= old(service).bound() {
            EnqueueOutcome::Dropped
        } else {
            EnqueueOutcome::Queued
        },
        final(service).pending() == if outcome == EnqueueOutcome::Queued {
            old(service).pending().push(EmailRequest { sender, recipient, subject, body })
        } else {
            old(service).pending()
        },
{
    let mail_request = EmailRequest { sender, recipient, subject, body };
    match &mut service.queue {
        Some(q) => match q.try_enqueue(mail_request) {
            Ok(()) => EnqueueOutcome::Queued,
            Err(_) => EnqueueOutcome::Dropped,
        },
        None => EnqueueOutcome::NotInitialized,
    }
}

/// The message a notice is delivered as.
pub fn compose(email: &EmailRequest) -> (mail: OutgoingMail)
    ensures
        mail.from@ == "Key Manager <"@ + email.sender@ + ">"@,
        mail.to@ == "Receiver <"@ + email.recipient@ + ">"@,
        mail.subject@ == email.subject@,
        mail.body@ == email.body@,
{
    let mut from = "Key Manager <".to_owned();
    from.append(email.sender.as_str());
    from.append(">");
    let mut to = "Receiver <".to_owned();
    to.append(email.recipient.as_str());
    to.append(">");
    OutgoingMail { from, to, subject: email.subject.clone(), body: email.body.clone() }
}

} // verus!
