use video_dispatch::registry::{AppState, VideoMessage};

fn msg(key: &str) -> VideoMessage {
    VideoMessage {
        bucket: String::from("b"),
        key: String::from(key),
        receipt_handle: String::from("r"),
    }
}

#[test]
fn new_registry_is_empty() {
    let st = AppState::new();
    assert_eq!(st.len(), 0);
    let (jobs, sel) = st.snapshot();
    assert_eq!(jobs.len(), 0);
    assert_eq!(sel, 0);
}

#[test]
fn remove_on_empty_returns_none() {
    let mut st = AppState::new();
    assert!(st.remove_selected().is_none());
    assert_eq!(st.len(), 0);
}

#[test]
fn push_into_empty_selects_first() {
    let mut st = AppState::new();
    st.push_message(msg("a"));
    let (jobs, sel) = st.snapshot();
    assert_eq!(jobs.len(), 1);
    assert_eq!(sel, 0);
}

#[test]
fn push_keeps_arrival_order() {
    let mut st = AppState::new();
    st.push_message(msg("a"));
    st.push_message(msg("b"));
    st.push_message(msg("c"));
    let (jobs, _) = st.snapshot();
    let keys: Vec<&str> = jobs.iter().map(|j| j.key.as_str()).collect();
    assert_eq!(keys, vec!["a", "b", "c"]);
}

#[test]
fn next_clamps_at_last_entry() {
    let mut st = AppState::new();
    st.push_message(msg("a"));
    st.push_message(msg("b"));
    st.next();
    st.next();
    st.next();
    let (_, sel) = st.snapshot();
    assert_eq!(sel, 1);
}

#[test]
fn previous_clamps_at_first_entry() {
    let mut st = AppState::new();
    st.push_message(msg("a"));
    st.push_message(msg("b"));
    st.next();
    st.previous();
    st.previous();
    st.previous();
    let (_, sel) = st.snapshot();
    assert_eq!(sel, 0);
}

#[test]
fn next_and_previous_on_empty_are_no_ops() {
    let mut st = AppState::new();
    st.next();
    st.previous();
    assert_eq!(st.len(), 0);
    let (_, sel) = st.snapshot();
    assert_eq!(sel, 0);
}

#[test]
fn remove_returns_the_selected_job() {
    let mut st = AppState::new();
    st.push_message(msg("a"));
    st.push_message(msg("b"));
    st.push_message(msg("c"));
    st.next();
    let removed = st.remove_selected().unwrap();
    assert_eq!(removed.key, "b");
    let (jobs, sel) = st.snapshot();
    let keys: Vec<&str> = jobs.iter().map(|j| j.key.as_str()).collect();
    assert_eq!(keys, vec!["a", "c"]);
    assert_eq!(sel, 1);
}

#[test]
fn removing_the_last_entry_reclamps_the_cursor() {
    let mut st = AppState::new();
    st.push_message(msg("a"));
    st.push_message(msg("b"));
    st.next();
    let removed = st.remove_selected().unwrap();
    assert_eq!(removed.key, "b");
    let (_, sel) = st.snapshot();
    assert_eq!(sel, 0);
    let removed = st.remove_selected().unwrap();
    assert_eq!(removed.key, "a");
    assert_eq!(st.len(), 0);
}

#[test]
fn cursor_stays_in_range_over_many_operations() {
    let mut st = AppState::new();
    let mut counter = 0usize;
    for step in 0..200usize {
        match step % 7 {
            0 | 3 | 5 => {
                st.push_message(msg(&format!("k{}", counter)));
                counter += 1;
            }
            1 | 6 => st.next(),
            2 => st.previous(),
            _ => {
                st.remove_selected();
            }
        }
        let (jobs, sel) = st.snapshot();
        assert!(jobs.is_empty() || sel < jobs.len());
    }
}

#[test]
fn interleaved_pushes_and_removals_lose_and_duplicate_nothing() {
    // One agent pushes, the other removes; every operation is atomic,
    // so any interleaving is some serial order of the operations.
    let mut st = AppState::new();
    let mut removed: Vec<String> = Vec::new();
    let mut pushed: Vec<String> = Vec::new();
    for round in 0..50usize {
        let key = format!("job{}", round);
        pushed.push(key.clone());
        st.push_message(msg(&key));
        if round % 3 == 0 {
            st.next();
        }
        if round % 2 == 0 {
            if let Some(j) = st.remove_selected() {
                removed.push(j.key);
            }
        }
    }
    let (left, _) = st.snapshot();
    let mut seen: Vec<String> = removed;
    seen.extend(left.iter().map(|j| j.key.clone()));
    seen.sort();
    pushed.sort();
    assert_eq!(seen, pushed);
}
