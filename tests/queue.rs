use bitcoin_node_manager::queue::{new_queue, push_line, push_msg, QUEUE_CAPACITY};

#[test]
fn overflow_drops_oldest_first() {
    let mut q = new_queue();
    let n = QUEUE_CAPACITY + 25;
    for i in 0..n {
        push_line(&mut q, format!("line {i}"));
        assert!(q.len() <= QUEUE_CAPACITY);
    }
    assert_eq!(q.len(), QUEUE_CAPACITY);
    let lines = q.drain_all();
    assert_eq!(lines.len(), QUEUE_CAPACITY);
    for (k, l) in lines.iter().enumerate() {
        assert_eq!(*l, format!("line {}", k + 25));
    }
    assert!(q.is_empty());
}

#[test]
fn drain_keeps_insertion_order() {
    let mut q = new_queue();
    push_msg(&mut q, "first");
    push_line(&mut q, "second".to_string());
    push_msg(&mut q, "third");
    assert_eq!(q.len(), 3);
    assert_eq!(q.drain_all(), vec!["first", "second", "third"]);
    assert_eq!(q.drain_all(), Vec::<String>::new());
}

#[test]
fn exactly_full_queue_keeps_everything() {
    let mut q = new_queue();
    for i in 0..QUEUE_CAPACITY {
        push_line(&mut q, i.to_string());
    }
    let lines = q.drain_all();
    assert_eq!(lines.len(), QUEUE_CAPACITY);
    assert_eq!(lines[0], "0");
}
