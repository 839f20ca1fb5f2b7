//! The workflow of one withdrawn item.
//!
//! A worker that has withdrawn an item fetches its detail, leaves out what
//! the filter excludes, has a reply generated, publishes it, waits, and
//! retires the item. Whatever fails on the way, the item is retired. The
//! workflow is a state machine: the caller performs the action it is handed
//! and reports what came of it as the next event.

use vstd::prelude::*;
use vstd::string::StringExecFns;

verus! {

/// What the detail of an item holds.
#[derive(Clone, Debug, PartialEq, Eq)]
pub struct ItemDetail {
    pub id: String,
    pub title: String,
    pub content: String,
    pub pinned: bool,
    pub featured: bool,
    pub hotted: bool,
    pub authorized: bool,
}

/// The mathematical model of an `ItemDetail`.
pub struct ItemDetailView {
    pub id: Seq<char>,
    pub title: Seq<char>,
    pub content: Seq<char>,
    pub pinned: bool,
    pub featured: bool,
    pub hotted: bool,
    pub authorized: bool,
}

impl View for ItemDetail {
    type V = ItemDetailView;

    open spec fn view(&self) -> ItemDetailView {
        ItemDetailView {
            id: self.id@,
            title: self.title@,
            content: self.content@,
            pinned: self.pinned,
            featured: self.featured,
            hotted: self.hotted,
            authorized: self.authorized,
        }
    }
}

impl ItemDetailView {
    /// Whether the filter excludes the item from a reply: it carries at
    /// least one of the four flags.
    pub open spec fn excluded(self) -> bool {
        self.pinned || self.featured || self.hotted || self.authorized
    }
}

impl ItemDetail {
    /// Whether the filter excludes the item from a reply.
    pub fn is_excluded(&self) -> (r: bool)
        ensures
            r == self@.excluded(),
    {
        self.pinned || self.featured || self.hotted || self.authorized
    }
}

/// What the prompt says before the title.
pub open spec fn prompt_opening() -> Seq<char> {
    "请扮演一位编程社区的用户，根据帖子内容生成对应的回复：\n标题:"@
}

/// What the prompt says between the title and the content.
pub open spec fn prompt_joint() -> Seq<char> {
    "\n内容:"@
}

/// The prompt for an item with the given title and content.
pub open spec fn prompt_of(title: Seq<char>, content: Seq<char>) -> Seq<char> {
    prompt_opening() + title + prompt_joint() + content
}

/// Builds the prompt for an item from its title and its content.
pub fn build_prompt(title: &str, content: &str) -> (r: String)
    ensures
        r@ == prompt_of(title@, content@),
{
    let mut prompt = String::from_str(
        "请扮演一位编程社区的用户，根据帖子内容生成对应的回复：\n标题:",
    );
    prompt.append(title);
    prompt.append("\n内容:");
    prompt.append(content);
    prompt
}

/// How the workflow of an item ended.
#[derive(Clone, Copy, Debug, PartialEq, Eq, Structural)]
pub enum Outcome {
    /// The detail could not be fetched.
    NoDetail,
    /// The filter excluded the item.
    Filtered,
    /// No reply could be generated.
    GenerateFailed,
    /// The reply could not be published.
    PublishFailed,
    /// The reply was published under this reply identifier.
    Published(u32),
}

/// The state of the workflow of one item.
#[derive(Clone, Copy, Debug, PartialEq, Eq, Structural)]
pub enum Workflow {
    /// The item was withdrawn; its detail is being fetched.
    Withdrawn { id: u32 },
    /// The detail passed the filter; a reply is being generated.
    Detail { id: u32 },
    /// A reply was generated; it is being published.
    Generated { id: u32 },
    /// The reply was published; the pacing delay runs.
    Published { id: u32, reply: u32 },
    /// The item was handed over for retirement. Nothing follows.
    Retired { id: u32, outcome: Outcome },
}

/// What the caller reports to the workflow.
#[derive(Clone, Debug, PartialEq, Eq)]
pub enum Event {
    /// The fetch of the detail ended, with the detail or without it.
    DetailFetched(Option<ItemDetail>),
    /// The generation ended, with a reply or without one.
    TextGenerated(Option<String>),
    /// The publication ended, with a reply identifier or without one.
    ReplyPublished(Option<u32>),
    /// The pacing delay has passed.
    Paced,
}

/// The mathematical model of an `Event`.
pub enum EventView {
    DetailFetched(Option<ItemDetailView>),
    TextGenerated(Option<Seq<char>>),
    ReplyPublished(Option<u32>),
    Paced,
}

impl View for Event {
    type V = EventView;

    open spec fn view(&self) -> EventView {
        match self {
            Event::DetailFetched(Some(d)) => EventView::DetailFetched(Some(d@)),
            Event::DetailFetched(None) => EventView::DetailFetched(None),
            Event::TextGenerated(Some(t)) => EventView::TextGenerated(Some(t@)),
            Event::TextGenerated(None) => EventView::TextGenerated(None),
            Event::ReplyPublished(r) => EventView::ReplyPublished(*r),
            Event::Paced => EventView::Paced,
        }
    }
}

/// What the workflow asks the caller to do next.
#[derive(Clone, Debug, PartialEq, Eq)]
pub enum Action {
    /// Fetch the detail of the item.
    FetchDetail { id: u32 },
    /// Have a reply generated from the prompt.
    Generate { prompt: String },
    /// Publish the text as a reply to the item.
    Publish { id: u32, text: String },
    /// Wait for the pacing delay.
    Pace,
    /// Retire the item into the cooldown set.
    Retire { id: u32 },
    /// Nothing: the workflow has ended.
    Halt,
}

/// The mathematical model of an `Action`.
pub enum ActionView {
    FetchDetail { id: u32 },
    Generate { prompt: Seq<char> },
    Publish { id: u32, text: Seq<char> },
    Pace,
    Retire { id: u32 },
    Halt,
}

impl View for Action {
    type V = ActionView;

    open spec fn view(&self) -> ActionView {
        match self {
            Action::FetchDetail { id } => ActionView::FetchDetail { id: *id },
            Action::Generate { prompt } => ActionView::Generate { prompt: prompt@ },
            Action::Publish { id, text } => ActionView::Publish { id: *id, text: text@ },
            Action::Pace => ActionView::Pace,
            Action::Retire { id } => ActionView::Retire { id: *id },
            Action::Halt => ActionView::Halt,
        }
    }
}

impl Workflow {
    /// The item that the workflow is about.
    pub open spec fn item(self) -> u32 {
        match self {
            Workflow::Withdrawn { id } => id,
            Workflow::Detail { id } => id,
            Workflow::Generated { id } => id,
            Workflow::Published { id, .. } => id,
            Workflow::Retired { id, .. } => id,
        }
    }

    /// The state and the action that follow on an event. An event that does
    /// not answer the action the workflow waits for counts as the failure of
    /// that action.
    pub open spec fn next(self, event: EventView) -> (Workflow, ActionView) {
        match self {
            Workflow::Withdrawn { id } => match event {
                EventView::DetailFetched(Some(detail)) => if detail.excluded() {
                    (
                        Workflow::Retired { id, outcome: Outcome::Filtered },
                        ActionView::Retire { id },
                    )
                } else {
                    (
                        Workflow::Detail { id },
                        ActionView::Generate { prompt: prompt_of(detail.title, detail.content) },
                    )
                },
                _ => (
                    Workflow::Retired { id, outcome: Outcome::NoDetail },
                    ActionView::Retire { id },
                ),
            },
            Workflow::Detail { id } => match event {
                EventView::TextGenerated(Some(text)) => (
                    Workflow::Generated { id },
                    ActionView::Publish { id, text },
                ),
                _ => (
                    Workflow::Retired { id, outcome: Outcome::GenerateFailed },
                    ActionView::Retire { id },
                ),
            },
            Workflow::Generated { id } => match event {
                EventView::ReplyPublished(Some(reply)) => (
                    Workflow::Published { id, reply },
                    ActionView::Pace,
                ),
                _ => (
                    Workflow::Retired { id, outcome: Outcome::PublishFailed },
                    ActionView::Retire { id },
                ),
            },
            Workflow::Published { id, reply } => (
                Workflow::Retired { id, outcome: Outcome::Published(reply) },
                ActionView::Retire { id },
            ),
            Workflow::Retired { .. } => (self, ActionView::Halt),
        }
    }

    /// The start of a worker's turn, from what the withdrawal returned: the
    /// workflow of the withdrawn item and its first action, or `None` where
    /// nothing was pending and the turn is over.
    pub fn begin(withdrawn: Option<u32>) -> (r: Option<(Workflow, Action)>)
        ensures
            match r {
                Some(begun) => {
                    &&& withdrawn is Some
                    &&& begun.0 == (Workflow::Withdrawn { id: withdrawn->0 })
                    &&& begun.1@ == (ActionView::FetchDetail { id: withdrawn->0 })
                },
                None => withdrawn is None,
            },
    {
        match withdrawn {
            Some(id) => Some(Workflow::start(id)),
            None => None,
        }
    }

    /// The workflow of a freshly withdrawn item, and its first action.
    pub fn start(id: u32) -> (r: (Workflow, Action))
        ensures
            r.0 == (Workflow::Withdrawn { id }),
            r.1@ == (ActionView::FetchDetail { id }),
    {
        (Workflow::Withdrawn { id }, Action::FetchDetail { id })
    }

    /// The item that the workflow is about.
    pub fn id(&self) -> (r: u32)
        ensures
            r == self.item(),
    {
        match self {
            Workflow::Withdrawn { id } => *id,
            Workflow::Detail { id } => *id,
            Workflow::Generated { id } => *id,
            Workflow::Published { id, .. } => *id,
            Workflow::Retired { id, .. } => *id,
        }
    }

    /// Whether the workflow has ended.
    pub fn is_retired(&self) -> (r: bool)
        ensures
            r == (self is Retired),
    {
        match self {
            Workflow::Retired { .. } => true,
            _ => false,
        }
    }

    /// Takes one step: from this state and the event that the caller
    /// reports to the next state and the action to perform.
    pub fn step(self, event: Event) -> (r: (Workflow, Action))
        ensures
            r.0 == self.next(event@).0,
            r.1@ == self.next(event@).1,
    {
        match self {
            Workflow::Withdrawn { id } => match event {
                Event::DetailFetched(Some(detail)) => {
                    if detail.is_excluded() {
                        (Workflow::Retired { id, outcome: Outcome::Filtered }, Action::Retire { id })
                    } else {
                        let prompt = build_prompt(detail.title.as_str(), detail.content.as_str());
                        (Workflow::Detail { id }, Action::Generate { prompt })
                    }
                },
                _ => (Workflow::Retired { id, outcome: Outcome::NoDetail }, Action::Retire { id }),
            },
            Workflow::Detail { id } => match event {
                Event::TextGenerated(Some(text)) => (
                    Workflow::Generated { id },
                    Action::Publish { id, text },
                ),
                _ => (
                    Workflow::Retired { id, outcome: Outcome::GenerateFailed },
                    Action::Retire { id },
                ),
            },
            Workflow::Generated { id } => match event {
                Event::ReplyPublished(Some(reply)) => (
                    Workflow::Published { id, reply },
                    Action::Pace,
                ),
                _ => (
                    Workflow::Retired { id, outcome: Outcome::PublishFailed },
                    Action::Retire { id },
                ),
            },
            Workflow::Published { id, reply } => (
                Workflow::Retired { id, outcome: Outcome::Published(reply) },
                Action::Retire { id },
            ),
            Workflow::Retired { id, outcome } => (Workflow::Retired { id, outcome }, Action::Halt),
        }
    }
}

} // verus!
