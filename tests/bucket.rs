use prefixlog::{Bucket, Line};

fn plain(text: &str) -> Line {
    Line::without_prefix(text.to_string())
}

fn flagged(text: &str) -> Line {
    Line::with_prefix("p".to_string(), text.to_string(), true)
}

fn bucket_of(n: usize) -> Bucket {
    let mut b = Bucket::new();
    for i in 0..n {
        b.add_message(plain(&format!("line {}", i)));
    }
    b
}

fn messages(lines: &[Line]) -> Vec<String> {
    lines.iter().map(|l| l.message.clone()).collect()
}

#[test]
fn unread_counts_follow_appends_and_reset_on_read() {
    let mut b = Bucket::new();
    b.add_message(plain("a"));
    b.add_message(flagged("b"));
    b.add_message(plain("c"));
    b.add_message(flagged("d"));
    b.add_message(plain("e"));
    assert_eq!(b.new_messages, 5);
    assert_eq!(b.new_errors, 2);
    let _ = b.get_messages(1);
    assert_eq!(b.new_messages, 0);
    assert_eq!(b.new_errors, 0);
    b.add_message(flagged("f"));
    assert_eq!(b.new_messages, 1);
    assert_eq!(b.new_errors, 1);
    let _ = b.get_messages(0);
    assert_eq!(b.new_messages, 0);
    assert_eq!(b.new_errors, 0);
}

#[test]
fn live_tail_window_shows_newest_lines() {
    let mut b = bucket_of(5);
    assert_eq!(messages(&b.get_messages(2)), vec!["line 3", "line 4"]);
    assert_eq!(messages(&b.get_messages(10)).len(), 5);
    assert_eq!(b.get_messages(0).len(), 0);
}

#[test]
fn empty_bucket_reads_nothing() {
    let mut b = Bucket::new();
    assert!(b.get_messages(3).is_empty());
    assert_eq!(b.get_older(3), 0);
    b.scroll_up(0);
    assert_eq!(b.scroll, None);
}

#[test]
fn scroll_up_is_noop_when_everything_fits() {
    let mut b = bucket_of(3);
    b.scroll_up(3);
    assert_eq!(b.scroll, None);
    b.scroll_up(5);
    assert_eq!(b.scroll, None);
}

#[test]
fn scroll_up_descends_to_zero_and_stays() {
    let mut b = bucket_of(10);
    b.scroll_up(4);
    assert_eq!(b.scroll, Some(5));
    let mut last = 5;
    for _ in 0..5 {
        b.scroll_up(4);
        let now = b.scroll.unwrap();
        assert!(now < last);
        last = now;
    }
    assert_eq!(b.scroll, Some(0));
    b.scroll_up(4);
    assert_eq!(b.scroll, Some(0));
}

#[test]
fn scrolled_window_starts_at_offset() {
    let mut b = bucket_of(10);
    b.scroll_up(4);
    assert_eq!(b.get_older(4), 1);
    assert_eq!(
        messages(&b.get_messages(4)),
        vec!["line 5", "line 6", "line 7", "line 8"]
    );
    b.scroll_up(4);
    b.scroll_up(4);
    assert_eq!(b.scroll, Some(3));
    assert_eq!(b.get_older(4), 3);
}

#[test]
fn scroll_down_snaps_back_to_live_tail() {
    let mut b = bucket_of(10);
    b.scroll = Some(0);
    let mut downs = 0;
    while b.scroll.is_some() {
        let before = b.scroll.unwrap();
        b.scroll_down(4);
        downs += 1;
        if before + 1 + 4 >= 10 {
            assert_eq!(b.scroll, None);
        } else {
            assert_eq!(b.scroll, Some(before + 1));
        }
    }
    assert_eq!(downs, 6);
    b.scroll_down(4);
    assert_eq!(b.scroll, None);
}

#[test]
fn scroll_reset_returns_to_tail() {
    let mut b = bucket_of(10);
    b.scroll_up(2);
    assert!(b.scroll.is_some());
    b.scroll_reset();
    assert_eq!(b.scroll, None);
    assert_eq!(b.get_older(2), 0);
}

#[test]
fn clear_empties_and_zeroes() {
    let mut b = bucket_of(4);
    b.add_message(flagged("x"));
    b.scroll_up(1);
    b.clear_all_messages();
    assert!(b.get_all_messages().is_empty());
    assert_eq!(b.new_messages, 0);
    assert_eq!(b.new_errors, 0);
    assert_eq!(b.scroll, None);
}

#[test]
fn from_messages_starts_acknowledged() {
    let b = Bucket::from_messages(vec![plain("a"), plain("b")]);
    assert_eq!(b.get_all_messages().len(), 2);
    assert_eq!(b.new_messages, 0);
    assert_eq!(b.scroll, None);
}

#[test]
fn render_joins_prefix_and_message() {
    let l = Line::with_prefix("alpha".to_string(), "build ok".to_string(), false);
    assert_eq!(l.render(), "alpha: build ok");
    assert_eq!(plain("bare").render(), "bare");
}

#[test]
fn scroll_down_never_rests_at_last_offset() {
    let mut b = Bucket::from_messages((0..5).map(|i| plain(&format!("{}", i))).collect());
    b.scroll_up(3);
    assert_eq!(b.scroll, Some(1));
    b.scroll_up(3);
    b.scroll_up(3);
    assert_eq!(b.scroll, Some(0));
    b.scroll_down(3);
    assert_eq!(b.scroll, Some(1));
    b.scroll_down(3);
    assert_eq!(b.scroll, None);
}
