use yalter_bot::outbound::{
    delete_batches, edit_or_send_new, handle_error, send_pm, Delivery, Rejection,
};

#[test]
fn batch_delete_of_250_is_split_in_three() {
    let ids: Vec<u64> = (1000..1250).collect();
    let batches = delete_batches(&ids);
    assert_eq!(3, batches.len());
    assert_eq!((1000..1100).collect::<Vec<u64>>(), batches[0]);
    assert_eq!((1100..1200).collect::<Vec<u64>>(), batches[1]);
    assert_eq!((1200..1250).collect::<Vec<u64>>(), batches[2]);
}

#[test]
fn batch_sizes_at_the_edges() {
    assert!(delete_batches(&vec![]).is_empty());
    assert_eq!(vec![vec![7u64]], delete_batches(&vec![7]));
    let hundred: Vec<u64> = (0..100).collect();
    assert_eq!(vec![hundred.clone()], delete_batches(&hundred));
    let more: Vec<u64> = (0..101).collect();
    let batches = delete_batches(&more);
    assert_eq!(vec![100, 1], batches.iter().map(|b| b.len()).collect::<Vec<usize>>());
    assert_eq!(vec![100u64], batches[1]);
    let two_hundred: Vec<u64> = (0..200).collect();
    assert_eq!(
        vec![100, 100],
        delete_batches(&two_hundred).iter().map(|b| b.len()).collect::<Vec<usize>>()
    );
}

#[test]
fn batches_keep_every_id_in_order() {
    let ids: Vec<u64> = (0..1234).map(|i| i * 3 + 1).collect();
    let joined: Vec<u64> = delete_batches(&ids).into_iter().flatten().collect();
    assert_eq!(ids, joined);
}

#[test]
fn too_long_rejection_gets_an_apology() {
    let rejection = Rejection {
        status: 400,
        content_complaint: Some("String value is too long.".to_string()),
    };
    assert_eq!(
        Some("I tried sending a message but Discord told me it was too long. :(".to_string()),
        handle_error(Some(&rejection))
    );
}

#[test]
fn other_failures_are_only_logged() {
    assert_eq!(None, handle_error(None));
    let other_status = Rejection {
        status: 403,
        content_complaint: Some("String value is too long.".to_string()),
    };
    assert_eq!(None, handle_error(Some(&other_status)));
    let other_complaint =
        Rejection { status: 400, content_complaint: Some("Something else.".to_string()) };
    assert_eq!(None, handle_error(Some(&other_complaint)));
    let no_complaint = Rejection { status: 400, content_complaint: None };
    assert_eq!(None, handle_error(Some(&no_complaint)));
}

#[test]
fn private_message_goes_to_the_private_channel() {
    let delivery = send_pm(Ok(55), "the text", 10);
    assert_eq!(55, delivery.channel_id);
    assert_eq!("the text", delivery.text);
}

#[test]
fn private_channel_failure_is_reported() {
    let delivery = send_pm(Err("Status(Forbidden)".to_string()), "the text", 10);
    assert_eq!(10, delivery.channel_id);
    assert_eq!("Error creating a private channel: `Status(Forbidden)`.", delivery.text);
}

#[test]
fn earlier_reply_is_edited() {
    assert_eq!(
        Delivery::Edit { channel_id: 3, message_id: 4 },
        edit_or_send_new(10, Some((3, 4)))
    );
    assert_eq!(Delivery::Send { channel_id: 10 }, edit_or_send_new(10, None));
}

#[test]
fn batches_of_many_sizes() {
    for len in [0usize, 1, 99, 100, 101, 199, 200, 201, 250, 999, 1000] {
        let ids: Vec<u64> = (0..len as u64).collect();
        let batches = delete_batches(&ids);
        assert_eq!((len + 99) / 100, batches.len());
        for (k, batch) in batches.iter().enumerate() {
            assert!(!batch.is_empty() && batch.len() <= 100);
            if k + 1 < batches.len() {
                assert_eq!(100, batch.len());
            }
            assert_eq!(ids[k * 100..(k * 100 + batch.len())].to_vec(), *batch);
        }
    }
}
