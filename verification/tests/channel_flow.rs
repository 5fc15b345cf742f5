use spsc_ring::channel::{Header, Interface, ProducerState, SysTime, CMD_TYPE_PROCESS};

#[test]
fn header_fields_pack_and_unpack() {
    let mut h = Header::new(0);
    assert_eq!(h.cmd_type(), 0);
    assert_eq!(h.cfg_idx(), 0);
    h.set_cmd_type(5);
    assert_eq!(h.cmd_type(), 5);
    h.set_cfg_idx(1);
    assert_eq!(h.cfg_idx(), 1);
    // setting one field leaves the other alone
    assert_eq!(h.cmd_type(), 5);
    h.set_cmd_type(2);
    assert_eq!(h.cfg_idx(), 1);
    // values are truncated to the field width
    h.set_cmd_type(0xff);
    assert_eq!(h.cmd_type(), 7);
    h.set_cfg_idx(2);
    assert_eq!(h.cfg_idx(), 0);
}

#[test]
fn sys_time_fields_pack_and_unpack() {
    let mut t = SysTime::new(0);
    t.set_unit_slot(5);
    t.set_slot(0x55);
    t.set_sfn(0x2aaaa);
    assert_eq!(t.unit_slot(), 5);
    assert_eq!(t.slot(), 0x55);
    assert_eq!(t.sfn(), 0x2aaaa);
    // the packed word is the three fields side by side
    assert_eq!(t.all(), (0x2aaaa << 10) | (0x55 << 3) | 5);
    // a field setter truncates and leaves its neighbours alone
    t.set_slot(0xfff);
    assert_eq!(t.slot(), 0x7f);
    assert_eq!(t.unit_slot(), 5);
    assert_eq!(t.sfn(), 0x2aaaa);
    t.set_all(0);
    assert_eq!(t.all(), 0);
    assert_eq!(t.sfn(), 0);
}

#[test]
fn producer_ping_pongs_until_backpressure() {
    let mut intf = Interface::new();
    let mut state = ProducerState::new();
    assert_eq!(intf.cmd_len(), 0);
    assert!(!intf.payload_is_consumer_owned(0));
    assert!(!intf.payload_is_consumer_owned(1));

    // the first two productions use payload cells 0 and 1
    assert!(intf.producer_step(&mut state));
    assert!(intf.payload_is_consumer_owned(0));
    assert!(intf.producer_step(&mut state));
    assert!(intf.payload_is_consumer_owned(1));
    assert_eq!(intf.cmd_len(), 2);

    // the third production targets cell 0, still consumer-owned: the
    // opportunity is dropped and the command queue stays as it was
    assert!(!intf.producer_step(&mut state));
    assert_eq!(intf.cmd_len(), 2);
    assert!(intf.payload_is_consumer_owned(0));
    assert!(intf.payload_is_consumer_owned(1));

    // draining returns the commands in issuance order with the alternating
    // payload-cell indices, and hands both cells back to the producer
    let drained = intf.consumer_step();
    assert_eq!(drained.len(), 2);
    assert_eq!(drained[0].header.cfg_idx(), 0);
    assert_eq!(drained[1].header.cfg_idx(), 1);
    assert_eq!(drained[0].header.cmd_type(), CMD_TYPE_PROCESS);
    assert_eq!(drained[1].header.cmd_type(), CMD_TYPE_PROCESS);
    assert_eq!(intf.cmd_len(), 0);
    assert!(!intf.payload_is_consumer_owned(0));
    assert!(!intf.payload_is_consumer_owned(1));
}

#[test]
fn producer_timestamps_follow_the_iteration_counter() {
    let mut intf = Interface::new();
    let mut state = ProducerState::new();
    // each successful production advances the counter twice, a dropped
    // opportunity once
    assert!(intf.producer_step(&mut state)); // iteration 0, then 2
    assert!(intf.producer_step(&mut state)); // iteration 2, then 4
    assert!(!intf.producer_step(&mut state)); // dropped, counter 5
    assert_eq!(state.iter_count(), 5);
    let drained = intf.consumer_step();
    assert_eq!(drained.len(), 2);
    assert_eq!(drained[0].sys_time.slot(), 0);
    assert_eq!(drained[1].sys_time.slot(), 2);
    assert_eq!(drained[0].sys_time.sfn(), 0);
    assert_eq!(drained[0].sys_time.unit_slot(), 0);
}

#[test]
fn backpressure_leaves_queue_length_unchanged() {
    let mut intf = Interface::new();
    let mut state = ProducerState::new();
    assert!(intf.producer_step(&mut state));
    assert!(intf.producer_step(&mut state));
    // both payload cells are now consumer-owned and not yet returned
    assert!(intf.payload_is_consumer_owned(0));
    assert!(intf.payload_is_consumer_owned(1));
    let before = intf.cmd_len();
    for _ in 0..4 {
        assert!(!intf.producer_step(&mut state));
        assert_eq!(intf.cmd_len(), before);
    }
}

#[test]
fn consumer_in_the_loop_keeps_the_channel_flowing() {
    let mut intf = Interface::new();
    let mut state = ProducerState::new();

    assert!(intf.producer_step(&mut state)); // cell 0
    let drained = intf.consumer_step();
    assert_eq!(drained.len(), 1);
    assert_eq!(drained[0].header.cfg_idx(), 0);

    // with cell 0 returned, production continues: cell 1, then cell 0
    assert!(intf.producer_step(&mut state));
    assert!(intf.producer_step(&mut state));
    let drained = intf.consumer_step();
    assert_eq!(drained.len(), 2);
    assert_eq!(drained[0].header.cfg_idx(), 1);
    assert_eq!(drained[1].header.cfg_idx(), 0);
    assert!(!intf.payload_is_consumer_owned(0));
    assert!(!intf.payload_is_consumer_owned(1));

    // an empty channel drains to nothing
    assert_eq!(intf.consumer_step().len(), 0);
}
