use reply_agent::workflow::{build_prompt, Action, Event, ItemDetail, Outcome, Workflow};

fn detail(pinned: bool, featured: bool, hotted: bool, authorized: bool) -> ItemDetail {
    ItemDetail {
        id: "101".to_string(),
        title: "T".to_string(),
        content: "<p>C</p>".to_string(),
        pinned,
        featured,
        hotted,
        authorized,
    }
}

fn drive(id: u32, events: Vec<Event>) -> (Workflow, Vec<Action>) {
    let (mut w, first) = Workflow::start(id);
    let mut actions = vec![first];
    for e in events {
        let (next, action) = w.step(e);
        w = next;
        actions.push(action);
    }
    (w, actions)
}

#[test]
fn prompt_text() {
    assert_eq!(
        build_prompt("给我出一道方程题", "<p>2x^2+50=0</p>"),
        "请扮演一位编程社区的用户，根据帖子内容生成对应的回复：\n标题:给我出一道方程题\n内容:<p>2x^2+50=0</p>"
    );
    assert_eq!(
        build_prompt("", ""),
        "请扮演一位编程社区的用户，根据帖子内容生成对应的回复：\n标题:\n内容:"
    );
}

#[test]
fn filter_excludes_any_flag() {
    assert!(!detail(false, false, false, false).is_excluded());
    assert!(detail(true, false, false, false).is_excluded());
    assert!(detail(false, true, false, false).is_excluded());
    assert!(detail(false, false, true, false).is_excluded());
    assert!(detail(false, false, false, true).is_excluded());
    assert!(detail(true, true, true, true).is_excluded());
}

#[test]
fn turn_begins_with_the_fetch() {
    assert_eq!(Workflow::begin(None), None);
    assert_eq!(
        Workflow::begin(Some(5)),
        Some((Workflow::Withdrawn { id: 5 }, Action::FetchDetail { id: 5 }))
    );
    assert_eq!(Workflow::start(5), (Workflow::Withdrawn { id: 5 }, Action::FetchDetail { id: 5 }));
}

#[test]
fn full_run_publishes_once_and_retires() {
    let (w, actions) = drive(
        101,
        vec![
            Event::DetailFetched(Some(detail(false, false, false, false))),
            Event::TextGenerated(Some("hello".to_string())),
            Event::ReplyPublished(Some(1879107)),
            Event::Paced,
        ],
    );
    assert_eq!(w, Workflow::Retired { id: 101, outcome: Outcome::Published(1879107) });
    assert!(w.is_retired());
    assert_eq!(w.id(), 101);
    assert_eq!(
        actions,
        vec![
            Action::FetchDetail { id: 101 },
            Action::Generate { prompt: build_prompt("T", "<p>C</p>") },
            Action::Publish { id: 101, text: "hello".to_string() },
            Action::Pace,
            Action::Retire { id: 101 },
        ]
    );
}

#[test]
fn pinned_item_is_retired_without_generate_or_publish() {
    let (w, actions) = drive(101, vec![Event::DetailFetched(Some(detail(true, false, false, false)))]);
    assert_eq!(w, Workflow::Retired { id: 101, outcome: Outcome::Filtered });
    assert_eq!(actions, vec![Action::FetchDetail { id: 101 }, Action::Retire { id: 101 }]);
}

#[test]
fn every_flag_filters() {
    for flags in [(false, true, false, false), (false, false, true, false), (false, false, false, true)]
    {
        let (w, actions) =
            drive(3, vec![Event::DetailFetched(Some(detail(flags.0, flags.1, flags.2, flags.3)))]);
        assert_eq!(w, Workflow::Retired { id: 3, outcome: Outcome::Filtered });
        assert_eq!(actions[1], Action::Retire { id: 3 });
    }
}

#[test]
fn failed_generation_is_retired_without_publish() {
    let (w, actions) = drive(
        101,
        vec![Event::DetailFetched(Some(detail(false, false, false, false))), Event::TextGenerated(None)],
    );
    assert_eq!(w, Workflow::Retired { id: 101, outcome: Outcome::GenerateFailed });
    assert_eq!(actions.len(), 3);
    assert_eq!(actions[2], Action::Retire { id: 101 });
    assert!(!actions.iter().any(|a| matches!(a, Action::Publish { .. })));
}

#[test]
fn missing_detail_is_retired_at_once() {
    let (w, actions) = drive(8, vec![Event::DetailFetched(None)]);
    assert_eq!(w, Workflow::Retired { id: 8, outcome: Outcome::NoDetail });
    assert_eq!(actions, vec![Action::FetchDetail { id: 8 }, Action::Retire { id: 8 }]);
}

#[test]
fn failed_publication_is_retired_without_pacing() {
    let (w, actions) = drive(
        8,
        vec![
            Event::DetailFetched(Some(detail(false, false, false, false))),
            Event::TextGenerated(Some(String::new())),
            Event::ReplyPublished(None),
        ],
    );
    assert_eq!(w, Workflow::Retired { id: 8, outcome: Outcome::PublishFailed });
    assert_eq!(actions[2], Action::Publish { id: 8, text: String::new() });
    assert_eq!(actions[3], Action::Retire { id: 8 });
}

#[test]
fn unexpected_event_counts_as_failure() {
    let (w, _) = drive(8, vec![Event::Paced]);
    assert_eq!(w, Workflow::Retired { id: 8, outcome: Outcome::NoDetail });
    let (w, _) = drive(
        8,
        vec![Event::DetailFetched(Some(detail(false, false, false, false))), Event::ReplyPublished(Some(1))],
    );
    assert_eq!(w, Workflow::Retired { id: 8, outcome: Outcome::GenerateFailed });
    let (w, _) = drive(
        8,
        vec![
            Event::DetailFetched(Some(detail(false, false, false, false))),
            Event::TextGenerated(Some("x".to_string())),
            Event::TextGenerated(Some("y".to_string())),
        ],
    );
    assert_eq!(w, Workflow::Retired { id: 8, outcome: Outcome::PublishFailed });
}

#[test]
fn ended_workflow_asks_for_nothing() {
    let (w, actions) = drive(
        8,
        vec![
            Event::DetailFetched(None),
            Event::DetailFetched(Some(detail(false, false, false, false))),
            Event::TextGenerated(Some("x".to_string())),
            Event::ReplyPublished(Some(2)),
            Event::Paced,
        ],
    );
    assert_eq!(w, Workflow::Retired { id: 8, outcome: Outcome::NoDetail });
    assert_eq!(actions[1], Action::Retire { id: 8 });
    assert!(actions[2..].iter().all(|a| *a == Action::Halt));
}

#[test]
fn any_four_events_end_the_workflow_with_one_retirement() {
    let choices = |k: usize| -> Event {
        match k {
            0 => Event::DetailFetched(None),
            1 => Event::DetailFetched(Some(detail(false, false, false, false))),
            2 => Event::DetailFetched(Some(detail(false, false, true, false))),
            3 => Event::TextGenerated(None),
            4 => Event::TextGenerated(Some("r".to_string())),
            5 => Event::ReplyPublished(None),
            6 => Event::ReplyPublished(Some(7)),
            _ => Event::Paced,
        }
    };
    for a in 0..8 {
        for b in 0..8 {
            for c in 0..8 {
                for d in 0..8 {
                    let (w, actions) = drive(55, vec![choices(a), choices(b), choices(c), choices(d)]);
                    assert!(w.is_retired());
                    assert_eq!(w.id(), 55);
                    let retires =
                        actions.iter().filter(|x| **x == Action::Retire { id: 55 }).count();
                    let publishes =
                        actions.iter().filter(|x| matches!(x, Action::Publish { .. })).count();
                    assert_eq!(retires, 1);
                    assert!(publishes <= 1);
                }
            }
        }
    }
}
