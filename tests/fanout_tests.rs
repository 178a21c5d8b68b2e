use scope_core::fanout::FanOut;

fn drain(ch: &mut FanOut<u32>, id: usize) -> Vec<u32> {
    let mut out = Vec::new();
    while let Some(x) = ch.try_recv(id) {
        out.push(x);
    }
    out
}

#[test]
fn late_consumer_sees_only_later_items() {
    let mut ch: FanOut<u32> = FanOut::new(16);
    let early = ch.new_consumer();
    ch.produce(1);
    ch.produce(2);
    let late = ch.new_consumer();
    ch.produce(3);
    assert_eq!(drain(&mut ch, late), vec![3]);
    assert_eq!(drain(&mut ch, early), vec![1, 2, 3]);
}

#[test]
fn consumers_observe_same_sequence() {
    let mut ch: FanOut<u32> = FanOut::new(8);
    let a = ch.new_consumer();
    let b = ch.new_consumer();
    let mut got_a = Vec::new();
    for i in 0..5 {
        ch.produce(i * 10);
        if let Some(x) = ch.try_recv(a) {
            got_a.push(x);
        }
    }
    got_a.extend(drain(&mut ch, a));
    assert_eq!(got_a, vec![0, 10, 20, 30, 40]);
    assert_eq!(drain(&mut ch, b), got_a);
    assert_eq!(ch.consumer_count(), 2);
}

#[test]
fn empty_channel_has_nothing() {
    let mut ch: FanOut<u32> = FanOut::new(1);
    let id = ch.new_consumer();
    assert_eq!(ch.try_recv(id), None);
}

#[test]
fn slow_consumer_drops_oldest() {
    let mut ch: FanOut<u32> = FanOut::new(3);
    let id = ch.new_consumer();
    for i in 0..10 {
        ch.produce(i);
    }
    assert_eq!(drain(&mut ch, id), vec![7, 8, 9]);
    ch.produce(10);
    assert_eq!(drain(&mut ch, id), vec![10]);
}
