use std::collections::HashMap;
use vstd::prelude::*;

verus! {

/// A user's intent, produced by a page from a line of input and carried out by the navigator.
#[derive(Clone, Copy, Debug, PartialEq, Eq, Structural)]
pub enum Action {
    NavigateToEpicDetail { epic_id: u32 },
    NavigateToStoryDetail { epic_id: u32, story_id: u32 },
    NavigateToPreviousPage,
    CreateEpic,
    UpdateEpicStatus { epic_id: u32 },
    DeleteEpic { epic_id: u32 },
    CreateStory { epic_id: u32 },
    UpdateStoryStatus { story_id: u32 },
    DeleteStory { epic_id: u32, story_id: u32 },
    Exit,
}

/// Lifecycle stage of an epic or a story; any stage may follow any other.
#[derive(Clone, Copy, Debug, PartialEq, Eq, Structural)]
pub enum Status {
    Open,
    Inprogress,
    Resolved,
    Closed,
}

impl Status {
    pub open spec fn label(self) -> Seq<char> {
        match self {
            Status::Open => seq!['O', 'P', 'E', 'N'],
            Status::Inprogress => seq!['I', 'N', ' ', 'P', 'R', 'O', 'G', 'R', 'E', 'S', 'S'],
            Status::Resolved => seq!['R', 'E', 'S', 'O', 'L', 'V', 'E', 'D'],
            Status::Closed => seq!['C', 'L', 'O', 'S', 'E', 'D'],
        }
    }

    /// The text under which the status is displayed.
    pub fn to_string(&self) -> (r: String)
        ensures
            r@ == self.label(),
    {
        let r = match self {
            Status::Open => "OPEN".to_string(),
            Status::Inprogress => "IN PROGRESS".to_string(),
            Status::Resolved => "RESOLVED".to_string(),
            Status::Closed => "CLOSED".to_string(),
        };
        proof {
            reveal_strlit("OPEN");
            reveal_strlit("IN PROGRESS");
            reveal_strlit("RESOLVED");
            reveal_strlit("CLOSED");
        }
        r
    }
}

/// A top-level work item; `stories` lists the ids of the stories it owns, in order.
#[derive(Clone, Debug, PartialEq, Eq)]
pub struct Epic {
    pub name: String,
    pub description: String,
    pub status: Status,
    pub stories: Vec<u32>,
}

impl Epic {
    pub fn new(name: String, description: String) -> (r: Epic)
        ensures
            r.name == name,
            r.description == description,
            r.status == Status::Open,
            r.stories@ == Seq::<u32>::empty(),
    {
        Epic { name, description, status: Status::Open, stories: Vec::new() }
    }
}

/// A leaf work item.
#[derive(Clone, Debug, PartialEq, Eq)]
pub struct Story {
    pub name: String,
    pub description: String,
    pub status: Status,
}

impl Story {
    pub fn new(name: String, description: String) -> (r: Story)
        ensures
            r.name == name,
            r.description == description,
            r.status == Status::Open,
    {
        Story { name, description, status: Status::Open }
    }
}

/// The whole stored world at one instant: the id counter, the epics and the stories.
#[derive(Clone, Debug, PartialEq, Eq)]
pub struct DBState {
    pub last_item_id: u32,
    pub epics: HashMap<u32, Epic>,
    pub stories: HashMap<u32, Story>,
}

/// What a `DBState` holds, as mathematical values.
pub struct StateModel {
    pub last_item_id: u32,
    pub epics: Map<u32, Epic>,
    pub stories: Map<u32, Story>,
}

impl View for DBState {
    type V = StateModel;

    open spec fn view(&self) -> StateModel {
        StateModel { last_item_id: self.last_item_id, epics: self.epics@, stories: self.stories@ }
    }
}

impl StateModel {
    /// No id in use exceeds the counter, every story an epic lists is stored, and no story
    /// is listed by two epics.
    pub open spec fn well_formed(self) -> bool {
        &&& forall|id: u32| #[trigger] self.epics.contains_key(id) ==> id <= self.last_item_id
        &&& forall|id: u32| #[trigger] self.stories.contains_key(id) ==> id <= self.last_item_id
        &&& forall|e: u32, i: int|
            self.epics.contains_key(e) && 0 <= i < self.epics[e].stories@.len()
                ==> #[trigger] self.stories.contains_key(self.epics[e].stories@[i])
        &&& forall|e1: u32, e2: u32, i: int, j: int|
            self.epics.contains_key(e1) && self.epics.contains_key(e2) && e1 != e2
                && 0 <= i < self.epics[e1].stories@.len() && 0 <= j < self.epics[e2].stories@.len()
                ==> #[trigger] self.epics[e1].stories@[i] != #[trigger] self.epics[e2].stories@[j]
    }
}

impl DBState {
    /// An empty store: no epics, no stories, counter at zero.
    pub fn empty() -> (r: DBState)
        ensures
            r@.last_item_id == 0,
            r@.epics == Map::<u32, Epic>::empty(),
            r@.stories == Map::<u32, Story>::empty(),
    {
        DBState { last_item_id: 0, epics: HashMap::new(), stories: HashMap::new() }
    }

    /// A copy holding the same counter, epics and stories.
    pub fn duplicate(&self) -> (r: DBState)
        ensures
            r@ == self@,
    {
        DBState {
            last_item_id: self.last_item_id,
            epics: self.epics.clone(),
            stories: self.stories.clone(),
        }
    }
}

} // verus!
