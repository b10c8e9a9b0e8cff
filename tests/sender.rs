use vector::sender::{SendOutcome, Sender, SenderError};
use vector::value::{LogEvent, ObjectMap, Value};

fn event(n: i64) -> LogEvent {
    let mut m = ObjectMap::new();
    m.insert("n".to_string(), Value::Integer(n));
    LogEvent::from_map(m)
}

fn number(ev: &LogEvent) -> i64 {
    match ev.get("n") {
        Some(Value::Integer(i)) => *i,
        _ => panic!("no number"),
    }
}

#[test]
fn full_output_blocks_until_drained() {
    let mut sender = Sender::new(Some(3));
    let out = sender.add_output("logs".to_string(), 2).unwrap();
    assert!(matches!(sender.try_send(event(1)), SendOutcome::Sent));
    assert!(matches!(sender.try_send(event(2)), SendOutcome::Sent));
    let back = match sender.try_send(event(3)) {
        SendOutcome::Blocked(ev) => ev,
        SendOutcome::Sent => panic!("sent into a full output"),
    };
    assert_eq!(number(&back), 3);
    assert_eq!(sender.outputs[out].queue.len(), 2);
    let first = sender.receive(out).unwrap();
    assert_eq!(number(&first), 1);
    assert_eq!(first.batch, Some(3));
    assert!(matches!(sender.try_send(back), SendOutcome::Sent));
    let rest: Vec<i64> = std::iter::from_fn(|| sender.receive(out)).map(|e| number(&e)).collect();
    assert_eq!(rest, vec![2, 3]);
}

#[test]
fn fan_out_reaches_every_output() {
    let mut sender = Sender::new(None);
    let a = sender.add_output("logs".to_string(), 4).unwrap();
    let b = sender.add_output("metrics".to_string(), 1).unwrap();
    assert_eq!(sender.output_index("metrics"), Some(b));
    assert_eq!(sender.output_index("traces"), None);
    assert!(matches!(sender.try_send(event(9)), SendOutcome::Sent));
    assert!(matches!(sender.try_send(event(10)), SendOutcome::Blocked(_)));
    let x = sender.receive(a).unwrap();
    let y = sender.receive(b).unwrap();
    assert_eq!(number(&x), 9);
    assert_eq!(number(&y), 9);
    assert!(sender.receive(b).is_none());
}

#[test]
fn output_registration_errors() {
    let mut sender = Sender::new(None);
    assert_eq!(sender.add_output("logs".to_string(), 1), Ok(0));
    assert_eq!(sender.add_output("logs".to_string(), 1), Err(SenderError::DuplicateName));
    assert_eq!(sender.add_output("other".to_string(), 0), Err(SenderError::ZeroCapacity));
    assert_eq!(sender.outputs.len(), 1);
}

#[test]
fn sending_without_outputs_discards() {
    let mut sender = Sender::new(None);
    assert!(matches!(sender.try_send(event(1)), SendOutcome::Sent));
    assert!(sender.has_room());
}

#[test]
fn attached_batch_is_kept() {
    let mut sender = Sender::new(Some(1));
    let out = sender.add_output("logs".to_string(), 1).unwrap();
    let mut ev = event(1);
    ev.batch = Some(8);
    assert!(matches!(sender.try_send(ev), SendOutcome::Sent));
    assert_eq!(sender.receive(out).unwrap().batch, Some(8));
}

#[test]
fn object_insert_replaces() {
    let mut m = ObjectMap::new();
    m.insert("a".to_string(), Value::Integer(1));
    m.insert("b".to_string(), Value::Boolean(false));
    m.insert("a".to_string(), Value::Integer(2));
    assert_eq!(m.entries.len(), 2);
    assert!(matches!(m.get("a"), Some(Value::Integer(2))));
    assert!(m.get("c").is_none());
    let p = ObjectMap::from_pairs(vec![
        ("x".to_string(), Value::Integer(1)),
        ("y".to_string(), Value::Null),
        ("x".to_string(), Value::Integer(3)),
    ]);
    assert_eq!(p.entries.len(), 2);
    assert!(matches!(p.get("x"), Some(Value::Integer(3))));
    assert!(matches!(p.get("y"), Some(Value::Null)));
}

#[test]
fn send_batch_stops_at_the_first_full_output() {
    let mut sender = Sender::new(Some(2));
    let a = sender.add_output("logs".to_string(), 3).unwrap();
    let b = sender.add_output("archive".to_string(), 2).unwrap();
    let rest = sender.send_batch(vec![event(1), event(2), event(3), event(4)]);
    assert_eq!(rest.iter().map(number).collect::<Vec<_>>(), vec![3, 4]);
    assert_eq!(sender.outputs[a].queue.len(), 2);
    assert_eq!(sender.outputs[b].queue.len(), 2);
    assert_eq!(number(&sender.receive(b).unwrap()), 1);
    let rest = sender.send_batch(rest);
    assert_eq!(rest.iter().map(number).collect::<Vec<_>>(), vec![4]);
    let got: Vec<i64> = std::iter::from_fn(|| sender.receive(a)).map(|e| number(&e)).collect();
    assert_eq!(got, vec![1, 2, 3]);
    let got: Vec<i64> = std::iter::from_fn(|| sender.receive(b)).map(|e| {
        assert_eq!(e.batch, Some(2));
        number(&e)
    }).collect();
    assert_eq!(got, vec![2, 3]);
    assert!(sender.send_batch(rest).is_empty());
}

#[test]
fn send_batch_without_outputs_takes_everything() {
    let mut sender = Sender::new(None);
    assert!(sender.send_batch(vec![event(1), event(2)]).is_empty());
}
