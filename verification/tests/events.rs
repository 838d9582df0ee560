use airmash_server::event::EventChannel;

#[test]
fn a_reader_sees_what_is_written_after_it_registered() {
    let mut channel: EventChannel<u32> = EventChannel::new();
    channel.single_write(1);
    let reader = channel.register_reader();
    assert_eq!(channel.read(&reader), Vec::<u32>::new());
    channel.single_write(5);
    assert_eq!(channel.read(&reader), vec![5]);
    channel.iter_write(&vec![8, 9]);
    assert_eq!(channel.read(&reader), vec![8, 9]);
}

#[test]
fn every_event_is_seen_once_in_write_order() {
    let mut channel: EventChannel<u32> = EventChannel::new();
    let reader = channel.register_reader();
    for i in 0..100u32 {
        channel.single_write(i);
    }
    let seen = channel.read(&reader);
    assert_eq!(seen, (0..100u32).collect::<Vec<u32>>());
    assert_eq!(channel.read(&reader), Vec::<u32>::new());
    assert_eq!(channel.read(&reader), Vec::<u32>::new());
}

#[test]
fn readers_do_not_take_events_from_each_other() {
    let mut channel: EventChannel<u32> = EventChannel::new();
    let first = channel.register_reader();
    let second = channel.register_reader();
    channel.single_write(1);
    assert_eq!(channel.read(&first), vec![1]);
    channel.single_write(2);
    assert_eq!(channel.read(&first), vec![2]);
    assert_eq!(channel.read(&second), vec![1, 2]);
    channel.single_write(3);
    assert_eq!(channel.read(&first), vec![3]);
    assert_eq!(channel.read(&second), vec![3]);
    assert_eq!(channel.read(&first), Vec::<u32>::new());
    assert_eq!(channel.read(&second), Vec::<u32>::new());
}

#[test]
fn a_late_reader_sees_only_later_events() {
    let mut channel: EventChannel<u32> = EventChannel::new();
    let early = channel.register_reader();
    channel.iter_write(&vec![1, 2, 3]);
    let late = channel.register_reader();
    channel.single_write(4);
    assert_eq!(channel.read(&late), vec![4]);
    assert_eq!(channel.read(&early), vec![1, 2, 3, 4]);
}

#[test]
fn events_seen_by_every_reader_are_dropped() {
    let mut channel: EventChannel<u32> = EventChannel::new();
    channel.iter_write(&vec![1, 2, 3]);
    assert_eq!(channel.len(), 0);
    let slow = channel.register_reader();
    let fast = channel.register_reader();
    channel.iter_write(&vec![4, 5, 6]);
    assert_eq!(channel.len(), 3);
    assert_eq!(channel.read(&fast), vec![4, 5, 6]);
    assert_eq!(channel.len(), 3);
    channel.single_write(7);
    assert_eq!(channel.len(), 4);
    assert_eq!(channel.read(&slow), vec![4, 5, 6, 7]);
    assert_eq!(channel.len(), 1);
    assert_eq!(channel.read(&fast), vec![7]);
    assert_eq!(channel.len(), 0);
}

#[test]
fn an_unregistered_reader_holds_nothing_back() {
    let mut channel: EventChannel<u32> = EventChannel::new();
    let stays = channel.register_reader();
    let leaves = channel.register_reader();
    channel.iter_write(&vec![1, 2]);
    assert_eq!(channel.read(&stays), vec![1, 2]);
    assert_eq!(channel.len(), 2);
    assert!(channel.has_reader(&leaves));
    channel.unregister_reader(leaves);
    assert_eq!(channel.len(), 0);
    channel.single_write(3);
    assert_eq!(channel.read(&stays), vec![3]);
}

#[test]
fn a_freed_reader_slot_is_given_out_again() {
    let mut channel: EventChannel<u32> = EventChannel::new();
    let a = channel.register_reader();
    channel.single_write(1);
    channel.unregister_reader(a);
    let b = channel.register_reader();
    assert!(channel.has_reader(&b));
    assert_eq!(channel.read(&b), Vec::<u32>::new());
    channel.single_write(2);
    assert_eq!(channel.read(&b), vec![2]);
}

#[test]
fn writing_nothing_changes_nothing() {
    let mut channel: EventChannel<u32> = EventChannel::new();
    let reader = channel.register_reader();
    channel.iter_write(&Vec::new());
    assert_eq!(channel.read(&reader), Vec::<u32>::new());
    assert_eq!(channel.len(), 0);
}
