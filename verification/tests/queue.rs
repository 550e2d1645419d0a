use key_manager::services::email_sender_service::{
    compose, enqueue_email, init_email_service, EmailRequest, EmailService, EnqueueOutcome,
    OutgoingMail, EMAIL_QUEUE_CAPACITY,
};
use key_manager::services::password_reset_service::{
    enqueue_email_reset_password, init_email_reset_password_service, ResetMailService,
    RESET_QUEUE_CAPACITY,
};
use key_manager::services::queue::BoundedQueue;

#[test]
fn a_queue_hands_jobs_out_in_the_order_they_came() {
    let mut queue: BoundedQueue<u32> = BoundedQueue::new(3);
    assert!(queue.is_empty());
    assert_eq!(queue.capacity(), 3);
    assert_eq!(queue.try_enqueue(10), Ok(()));
    assert_eq!(queue.try_enqueue(20), Ok(()));
    assert_eq!(queue.try_enqueue(30), Ok(()));
    assert_eq!(queue.len(), 3);
    assert_eq!(queue.dequeue(), Some(10));
    assert_eq!(queue.dequeue(), Some(20));
    assert_eq!(queue.try_enqueue(40), Ok(()));
    assert_eq!(queue.dequeue(), Some(30));
    assert_eq!(queue.dequeue(), Some(40));
    assert_eq!(queue.dequeue(), None);
    assert!(queue.is_empty());
}

#[test]
fn a_full_queue_hands_the_job_back() {
    let mut queue: BoundedQueue<&str> = BoundedQueue::new(2);
    assert_eq!(queue.try_enqueue("a"), Ok(()));
    assert!(!queue.is_full());
    assert_eq!(queue.try_enqueue("b"), Ok(()));
    assert!(queue.is_full());
    assert_eq!(queue.try_enqueue("c"), Err("c"));
    assert_eq!(queue.len(), 2);
    assert_eq!(queue.dequeue(), Some("a"));
    assert_eq!(queue.try_enqueue("c"), Ok(()));
    assert_eq!(queue.dequeue(), Some("b"));
    assert_eq!(queue.dequeue(), Some("c"));
}

#[test]
fn a_queue_without_room_takes_nothing() {
    let mut queue: BoundedQueue<u8> = BoundedQueue::new(0);
    assert!(queue.is_full());
    assert_eq!(queue.try_enqueue(1), Err(1));
    assert_eq!(queue.dequeue(), None);
}

#[test]
fn enqueueing_before_initialization_is_reported_not_fatal() {
    let mut service = EmailService::new();
    assert!(!service.initialized());
    let outcome = enqueue_email(
        &mut service,
        "from@example.com".to_string(),
        "to@example.com".to_string(),
        "subject".to_string(),
        "body".to_string(),
    );
    assert_eq!(outcome, EnqueueOutcome::NotInitialized);
    assert_eq!(
        outcome.log_line(),
        Some("Not initialized email service, transmitter does not exist")
    );
    assert_eq!(service.pending_len(), 0);
    assert_eq!(service.next_email(), None);
}

#[test]
fn the_notice_queue_has_a_hundred_places() {
    assert_eq!(EMAIL_QUEUE_CAPACITY, 100);
    let mut service = EmailService::new();
    init_email_service(&mut service);
    assert!(service.initialized());
    for i in 0..100 {
        let outcome = enqueue_email(
            &mut service,
            "from@example.com".to_string(),
            format!("to{}@example.com", i),
            "subject".to_string(),
            "body".to_string(),
        );
        assert_eq!(outcome, EnqueueOutcome::Queued);
        assert_eq!(outcome.log_line(), None);
    }
    assert_eq!(service.pending_len(), 100);
    let outcome = enqueue_email(
        &mut service,
        "from@example.com".to_string(),
        "late@example.com".to_string(),
        "subject".to_string(),
        "body".to_string(),
    );
    assert_eq!(outcome, EnqueueOutcome::Dropped);
    assert_eq!(outcome.log_line(), Some("Fail to send email request"));
    assert_eq!(service.pending_len(), 100);
    let first = service.next_email().unwrap();
    assert_eq!(first.recipient, "to0@example.com");
    let second = service.next_email().unwrap();
    assert_eq!(second.recipient, "to1@example.com");
    assert_eq!(service.pending_len(), 98);
}

#[test]
fn a_notice_is_composed_with_named_mailboxes() {
    let email = EmailRequest {
        sender: "vault@example.com".to_string(),
        recipient: "owner@example.com".to_string(),
        subject: "Key Expiration".to_string(),
        body: "Your key expired.".to_string(),
    };
    assert_eq!(
        compose(&email),
        OutgoingMail {
            from: "Key Manager <vault@example.com>".to_string(),
            to: "Receiver <owner@example.com>".to_string(),
            subject: "Key Expiration".to_string(),
            body: "Your key expired.".to_string(),
        }
    );
}

#[test]
fn the_reset_queue_has_twenty_places() {
    assert_eq!(RESET_QUEUE_CAPACITY, 20);
    let mut service = ResetMailService::new();
    assert_eq!(
        enqueue_email_reset_password(
            &mut service,
            "from@example.com".to_string(),
            "to@example.com".to_string(),
            "token".to_string(),
        ),
        EnqueueOutcome::NotInitialized
    );
    init_email_reset_password_service(&mut service);
    for i in 0..20 {
        assert_eq!(
            enqueue_email_reset_password(
                &mut service,
                "from@example.com".to_string(),
                "to@example.com".to_string(),
                format!("token-{}", i),
            ),
            EnqueueOutcome::Queued
        );
    }
    assert_eq!(
        enqueue_email_reset_password(
            &mut service,
            "from@example.com".to_string(),
            "to@example.com".to_string(),
            "token-20".to_string(),
        ),
        EnqueueOutcome::Dropped
    );
    assert_eq!(service.pending_len(), 20);
    assert_eq!(service.next_email().unwrap().reset_password, "token-0");
}

#[test]
fn a_reset_mail_carries_the_token_in_its_body() {
    let email = key_manager::services::password_reset_service::EmailRequest {
        sender: "vault@example.com".to_string(),
        recipient: "owner@example.com".to_string(),
        reset_password: "1234-abcd".to_string(),
    };
    let mail = key_manager::services::password_reset_service::compose(&email);
    assert_eq!(mail.from, "Key Manager <vault@example.com>");
    assert_eq!(mail.to, "Receiver <owner@example.com>");
    assert_eq!(mail.subject, "Reset Password");
    assert_eq!(
        mail.body,
        "Your secret reset token is: \n1234-abcd\nNow you can reset your password using this token."
    );
}
