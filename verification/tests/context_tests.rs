use ic_kit::context::{
    balance, call, call_raw, call_with_payment, caller, data_certificate, delete, get, get_maybe,
    get_mut, id, msg_cycles_accept, msg_cycles_available, msg_cycles_refunded, set_certified_data,
    stable_bytes, stable_grow, stable_read, stable_restore, stable_size, stable_store,
    stable_write, store, take_outgoing_calls, time, CanisterContext, StableMemoryError,
};
use ic_kit::types::CanisterCall;

#[test]
fn ambient_accessors_read_the_context() {
    let mut ctx = CanisterContext::new(12);
    ctx.caller = 34;
    ctx.time = 56;
    ctx.balance = 78;
    ctx.cycles_available = 90;
    ctx.cycles_refunded = 11;
    assert_eq!(id(&ctx), 12);
    assert_eq!(caller(&ctx), 34);
    assert_eq!(time(&ctx), 56);
    assert_eq!(balance(&ctx), 78);
    assert_eq!(msg_cycles_available(&ctx), 90);
    assert_eq!(msg_cycles_refunded(&ctx), 11);
}

#[test]
fn accepting_cycles_moves_them_into_the_balance() {
    let mut ctx = CanisterContext::new(1);
    ctx.balance = 1000;
    ctx.cycles_available = 100;
    assert_eq!(msg_cycles_accept(&mut ctx, 30), 30);
    assert_eq!(ctx.cycles_available, 70);
    assert_eq!(ctx.balance, 1030);
    // Asking for more than is available accepts only what is there.
    assert_eq!(msg_cycles_accept(&mut ctx, 500), 70);
    assert_eq!(ctx.cycles_available, 0);
    assert_eq!(ctx.balance, 1100);
}

#[test]
fn storage_stores_retrieves_and_deletes() {
    let mut ctx = CanisterContext::new(1);
    assert_eq!(get_maybe(&ctx, 7), None);
    store(&mut ctx, 7, vec![1, 2, 3]);
    assert_eq!(get_maybe(&ctx, 7), Some(vec![1, 2, 3]));
    // Storing again replaces.
    store(&mut ctx, 7, vec![9]);
    assert_eq!(get_maybe(&ctx, 7), Some(vec![9]));
    // Other keys are independent.
    store(&mut ctx, 8, vec![4]);
    assert_eq!(get_maybe(&ctx, 7), Some(vec![9]));
    assert_eq!(get_maybe(&ctx, 8), Some(vec![4]));
    // Deleting reports presence and removes.
    assert!(delete(&mut ctx, 7));
    assert_eq!(get_maybe(&ctx, 7), None);
    assert!(!delete(&mut ctx, 7));
    assert_eq!(get_maybe(&ctx, 8), Some(vec![4]));
}

#[test]
fn get_installs_the_empty_default() {
    let mut ctx = CanisterContext::new(1);
    assert_eq!(get(&mut ctx, 5), Vec::<u8>::new());
    // The default is now stored under the key.
    assert_eq!(get_maybe(&ctx, 5), Some(Vec::new()));
    store(&mut ctx, 5, vec![6]);
    assert_eq!(get(&mut ctx, 5), vec![6]);
}

#[test]
fn stable_memory_grows_in_pages_of_zeroes() {
    let mut ctx = CanisterContext::new(1);
    assert_eq!(stable_size(&ctx), 0);
    assert_eq!(stable_grow(&mut ctx, 1), Ok(0));
    assert_eq!(stable_size(&ctx), 1);
    assert_eq!(ctx.stable.len(), 65536);
    assert!(ctx.stable.iter().all(|b| *b == 0));
    assert_eq!(stable_grow(&mut ctx, 2), Ok(1));
    assert_eq!(stable_size(&ctx), 3);
}

#[test]
fn stable_memory_cannot_pass_four_gibibytes() {
    let mut ctx = CanisterContext::new(1);
    // 65537 pages of 64 KiB pass the 4 GiB limit by one page.
    assert_eq!(stable_grow(&mut ctx, 65537), Err(StableMemoryError));
    assert_eq!(stable_size(&ctx), 0);
    assert!(ctx.stable.is_empty());
}

#[test]
fn stable_write_and_read_round_trip() {
    let mut ctx = CanisterContext::new(1);
    stable_grow(&mut ctx, 1).unwrap();
    stable_write(&mut ctx, 10, &vec![5, 6, 7]);
    let mut buf = vec![0u8; 3];
    stable_read(&ctx, 10, &mut buf);
    assert_eq!(buf, vec![5, 6, 7]);
    // Neighbouring bytes are untouched.
    let mut around = vec![0u8; 5];
    stable_read(&ctx, 9, &mut around);
    assert_eq!(around, vec![0, 5, 6, 7, 0]);
    let all = stable_bytes(&ctx);
    assert_eq!(all.len(), 65536);
    assert_eq!(&all[10..13], &[5, 6, 7]);
}

#[test]
fn stable_store_and_restore_round_trip() {
    let mut ctx = CanisterContext::new(1);
    stable_store(&mut ctx, vec![1, 1, 2, 3, 5, 8]);
    assert_eq!(stable_restore(&ctx), vec![1, 1, 2, 3, 5, 8]);
    stable_store(&mut ctx, Vec::new());
    assert_eq!(stable_restore(&ctx), Vec::<u8>::new());
}

#[test]
fn stored_value_and_paged_memory_stay_apart() {
    let mut ctx = CanisterContext::new(1);
    // Storing a value of arbitrary length leaves the paged memory as it
    // was: still zero pages, still exactly size * 64 KiB addressable.
    stable_store(&mut ctx, vec![7; 100]);
    assert_eq!(stable_size(&ctx), 0);
    assert!(stable_bytes(&ctx).is_empty());
    // Growing and writing the paged memory leaves the stored value as it
    // was.
    stable_grow(&mut ctx, 1).unwrap();
    stable_write(&mut ctx, 0, &vec![9, 9]);
    assert_eq!(stable_restore(&ctx), vec![7; 100]);
    assert_eq!(stable_bytes(&ctx).len(), (stable_size(&ctx) as usize) << 16);
}

#[test]
fn certified_data_is_kept_and_certificate_returned() {
    let mut ctx = CanisterContext::new(1);
    assert_eq!(data_certificate(&ctx), None);
    set_certified_data(&mut ctx, &vec![1, 2, 3]);
    assert_eq!(ctx.certified_data, Some(vec![1, 2, 3]));
    ctx.certificate = Some(vec![9, 9]);
    assert_eq!(data_certificate(&ctx), Some(vec![9, 9]));
}

#[test]
fn calls_accumulate_in_issue_order() {
    let mut ctx = CanisterContext::new(1);
    call_raw(&mut ctx, 2, "a".to_string(), vec![1], 10);
    call(&mut ctx, 3, "b".to_string(), vec![2]);
    call_with_payment(&mut ctx, 4, "c".to_string(), vec![3], 30);
    let calls = take_outgoing_calls(&mut ctx);
    assert_eq!(
        calls,
        vec![
            CanisterCall { callee: 2, method_name: "a".to_string(), args: vec![1], cycles: 10 },
            CanisterCall { callee: 3, method_name: "b".to_string(), args: vec![2], cycles: 0 },
            CanisterCall { callee: 4, method_name: "c".to_string(), args: vec![3], cycles: 30 },
        ]
    );
    assert!(ctx.outgoing_calls.is_empty());
}

#[test]
fn get_mut_keeps_changes_made_through_the_borrow() {
    let mut ctx = CanisterContext::new(1);
    // Nothing stored yet: the borrow starts from the empty default.
    let slot = get_mut(&mut ctx, 3);
    assert!(slot.is_empty());
    slot.push(42);
    assert_eq!(get_maybe(&ctx, 3), Some(vec![42]));
    // A second borrow sees and extends the kept value.
    get_mut(&mut ctx, 3).push(43);
    assert_eq!(get_maybe(&ctx, 3), Some(vec![42, 43]));
    // Other keys are untouched.
    assert_eq!(get_maybe(&ctx, 4), None);
}
