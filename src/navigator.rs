use vstd::prelude::*;
use crate::db::{epic_deleted, story_created, story_deleted, epic_created, DbError, JiraDatabase};
use crate::models::{Action, Epic, StateModel, Status, Story};
use crate::pages::{EpicDetail, HomePage, Page, StoryDetail};

verus! {

/// The question that must be put to the user before an action can be carried out.
#[derive(Clone, Copy, Debug, PartialEq, Eq, Structural)]
pub enum Prompt {
    Nothing,
    NewEpic,
    NewStory,
    ConfirmDeleteEpic,
    ConfirmDeleteStory,
    PickStatus,
}

/// What the user answered to a `Prompt`.
#[derive(Clone, Debug, PartialEq, Eq)]
pub enum Reply {
    Nothing,
    NewEpic(Epic),
    NewStory(Story),
    Confirmed(bool),
    PickedStatus(Option<Status>),
}

/// The prompt that `action` calls for.
pub open spec fn prompt_of(action: Action) -> Prompt {
    match action {
        Action::CreateEpic => Prompt::NewEpic,
        Action::CreateStory { .. } => Prompt::NewStory,
        Action::DeleteEpic { .. } => Prompt::ConfirmDeleteEpic,
        Action::DeleteStory { .. } => Prompt::ConfirmDeleteStory,
        Action::UpdateEpicStatus { .. } => Prompt::PickStatus,
        Action::UpdateStoryStatus { .. } => Prompt::PickStatus,
        _ => Prompt::Nothing,
    }
}

/// Whether `reply` answers `prompt`.
pub open spec fn answers(prompt: Prompt, reply: Reply) -> bool {
    match prompt {
        Prompt::Nothing => true,
        Prompt::NewEpic => reply is NewEpic,
        Prompt::NewStory => reply is NewStory,
        Prompt::ConfirmDeleteEpic => reply is Confirmed,
        Prompt::ConfirmDeleteStory => reply is Confirmed,
        Prompt::PickStatus => reply is PickedStatus,
    }
}

/// The page stack after `action`.
pub open spec fn pages_after(pages: Seq<Page>, action: Action) -> Seq<Page> {
    match action {
        Action::NavigateToEpicDetail { epic_id } => pages.push(Page::Epic(EpicDetail { epic_id })),
        Action::NavigateToStoryDetail { epic_id, story_id } => pages.push(
            Page::Story(StoryDetail { epic_id, story_id }),
        ),
        Action::NavigateToPreviousPage => if pages.len() == 0 {
            pages
        } else {
            pages.drop_last()
        },
        Action::Exit => Seq::<Page>::empty(),
        _ => pages,
    }
}

/// Whether `reply` leaves the store alone: a declined deletion or an unchanged status.
pub open spec fn declined(reply: Reply) -> bool {
    reply == Reply::Confirmed(false) || reply == Reply::PickedStatus(None)
}

/// Whether `action`, answered by `reply`, applies to the store in state `m` without `NotFound`.
pub open spec fn target_exists(m: StateModel, action: Action) -> bool {
    match action {
        Action::CreateStory { epic_id } => m.epics.contains_key(epic_id),
        Action::DeleteEpic { epic_id } => m.epics.contains_key(epic_id),
        Action::UpdateEpicStatus { epic_id } => m.epics.contains_key(epic_id),
        Action::UpdateStoryStatus { story_id } => m.stories.contains_key(story_id),
        Action::DeleteStory { epic_id, story_id } => m.epics.contains_key(epic_id)
            && m.epics[epic_id].stories@.contains(story_id),
        _ => true,
    }
}

/// Whether `action` still has an identifier to hand out, when it creates something.
pub open spec fn id_available(m: StateModel, action: Action) -> bool {
    match action {
        Action::CreateEpic => m.last_item_id < u32::MAX,
        Action::CreateStory { .. } => m.last_item_id < u32::MAX,
        _ => true,
    }
}

/// The status that an answer to the status prompt picks: `1` to `4`, the whole answer.
pub open spec fn chosen_status(input: Seq<char>) -> Option<Status> {
    if input.len() != 1 {
        None
    } else if input[0] == '1' {
        Some(Status::Open)
    } else if input[0] == '2' {
        Some(Status::Inprogress)
    } else if input[0] == '3' {
        Some(Status::Resolved)
    } else if input[0] == '4' {
        Some(Status::Closed)
    } else {
        None
    }
}

/// Whether an answer to a deletion prompt confirms it: exactly `Y`.
pub fn confirms(input: &str) -> (r: bool)
    ensures
        r == (input@.len() == 1 && input@[0] == 'Y'),
{
    input.unicode_len() == 1 && input.get_char(0) == 'Y'
}

/// The status that an answer to the status prompt picks; anything else leaves the status
/// as it is.
pub fn status_choice(input: &str) -> (r: Option<Status>)
    ensures
        r == chosen_status(input@),
{
    if input.unicode_len() != 1 {
        return None;
    }
    let c = input.get_char(0);
    if c == '1' {
        Some(Status::Open)
    } else if c == '2' {
        Some(Status::Inprogress)
    } else if c == '3' {
        Some(Status::Resolved)
    } else if c == '4' {
        Some(Status::Closed)
    } else {
        None
    }
}

/// The ordered stack of open pages, over the store they show.
pub struct Navigator {
    pages: Vec<Page>,
    db: JiraDatabase,
}

impl Navigator {
    pub closed spec fn pages(&self) -> Seq<Page> {
        self.pages@
    }

    pub closed spec fn store(&self) -> StateModel {
        self.db@
    }

    /// A navigator showing the home page over `db`.
    pub fn new(db: JiraDatabase) -> (r: Navigator)
        ensures
            r.pages() == seq![Page::Home(HomePage {})],
            r.store() == db@,
    {
        let mut pages: Vec<Page> = Vec::new();
        pages.push(Page::Home(HomePage {}));
        Navigator { pages, db }
    }

    /// The page on top of the stack, if any.
    pub fn get_current_page(&self) -> (r: Option<&Page>)
        ensures
            self.pages().len() == 0 ==> r is None,
            self.pages().len() > 0 ==> r == Some(&self.pages().last()),
    {
        self.pages.last()
    }

    /// How many pages are open.
    pub fn get_page_count(&self) -> (r: usize)
        ensures
            r == self.pages().len(),
    {
        self.pages.len()
    }

    /// The store the pages show.
    pub fn get_db(&self) -> (r: &JiraDatabase)
        ensures
            r@ == self.store(),
    {
        &self.db
    }

    /// Puts `db`, freshly loaded, under the open pages.
    pub fn set_db(&mut self, db: JiraDatabase)
        ensures
            final(self).store() == db@,
            final(self).pages() == old(self).pages(),
    {
        self.db = db;
    }

    /// The prompt that the user must answer before `action` is handled.
    pub fn prompt_for(action: &Action) -> (r: Prompt)
        ensures
            r == prompt_of(*action),
    {
        match action {
            Action::CreateEpic => Prompt::NewEpic,
            Action::CreateStory { .. } => Prompt::NewStory,
            Action::DeleteEpic { .. } => Prompt::ConfirmDeleteEpic,
            Action::DeleteStory { .. } => Prompt::ConfirmDeleteStory,
            Action::UpdateEpicStatus { .. } => Prompt::PickStatus,
            Action::UpdateStoryStatus { .. } => Prompt::PickStatus,
            _ => Prompt::Nothing,
        }
    }

    /// Carries out `action`, with `reply` the user's answer to its prompt: moves between
    /// pages, or changes the store. Pages stay as they are when the store is changed.
    pub fn handle_action(&mut self, action: Action, reply: Reply) -> (r: Result<(), DbError>)
        ensures
            final(self).pages() == pages_after(old(self).pages(), action),
            !answers(prompt_of(action), reply) ==> r == Err::<(), DbError>(DbError::InvalidInput),
            r is Err ==> final(self).store() == old(self).store(),
            answers(prompt_of(action), reply) && !declined(reply) && !target_exists(old(self).store(), action)
                ==> r == Err::<(), DbError>(DbError::NotFound),
            r == Err::<(), DbError>(DbError::NotFound) ==> !target_exists(old(self).store(), action),
            answers(prompt_of(action), reply) && target_exists(old(self).store(), action) && id_available(
                old(self).store(),
                action,
            ) ==> r is Ok,
            answers(prompt_of(action), reply) && target_exists(old(self).store(), action)
                && !id_available(old(self).store(), action) ==> r == Err::<(), DbError>(
                DbError::IdsExhausted,
            ),
            declined(reply) && answers(prompt_of(action), reply) ==> r is Ok && final(self).store()
                == old(self).store(),
            prompt_of(action) == Prompt::Nothing ==> r is Ok && final(self).store() == old(self).store(),
            r is Ok ==> match action {
                Action::CreateEpic => epic_created(
                    old(self).store(),
                    final(self).store(),
                    reply->NewEpic_0,
                    (old(self).store().last_item_id + 1) as u32,
                ),
                Action::CreateStory { epic_id } => story_created(
                    old(self).store(),
                    final(self).store(),
                    reply->NewStory_0,
                    epic_id,
                    (old(self).store().last_item_id + 1) as u32,
                ),
                Action::DeleteEpic { epic_id } => !declined(reply) ==> epic_deleted(
                    old(self).store(),
                    final(self).store(),
                    epic_id,
                ),
                Action::DeleteStory { epic_id, story_id } => !declined(reply) ==> story_deleted(
                    old(self).store(),
                    final(self).store(),
                    epic_id,
                    story_id,
                ),
                Action::UpdateEpicStatus { epic_id } => !declined(reply) ==> {
                    &&& final(self).store().last_item_id == old(self).store().last_item_id
                    &&& final(self).store().stories == old(self).store().stories
                    &&& final(self).store().epics == old(self).store().epics.insert(
                        epic_id,
                        Epic { status: reply->PickedStatus_0->Some_0, ..old(self).store().epics[epic_id] },
                    )
                },
                Action::UpdateStoryStatus { story_id } => !declined(reply) ==> {
                    &&& final(self).store().last_item_id == old(self).store().last_item_id
                    &&& final(self).store().epics == old(self).store().epics
                    &&& final(self).store().stories == old(self).store().stories.insert(
                        story_id,
                        Story { status: reply->PickedStatus_0->Some_0, ..old(self).store().stories[story_id] },
                    )
                },
                _ => true,
            },
    {
        match action {
            Action::NavigateToEpicDetail { epic_id } => {
                self.pages.push(Page::Epic(EpicDetail { epic_id }));
                Ok(())
            },
            Action::NavigateToStoryDetail { epic_id, story_id } => {
                self.pages.push(Page::Story(StoryDetail { epic_id, story_id }));
                Ok(())
            },
            Action::NavigateToPreviousPage => {
                if self.pages.len() > 0 {
                    self.pages.pop();
                }
                Ok(())
            },
            Action::Exit => {
                self.pages.clear();
                Ok(())
            },
            Action::CreateEpic => match reply {
                Reply::NewEpic(epic) => {
                    match self.db.create_epic(epic) {
                        Ok(_) => Ok(()),
                        Err(e) => Err(e),
                    }
                },
                _ => Err(DbError::InvalidInput),
            },
            Action::CreateStory { epic_id } => match reply {
                Reply::NewStory(story) => {
                    match self.db.create_story(story, epic_id) {
                        Ok(_) => Ok(()),
                        Err(e) => Err(e),
                    }
                },
                _ => Err(DbError::InvalidInput),
            },
            Action::DeleteEpic { epic_id } => match reply {
                Reply::Confirmed(true) => self.db.delete_epic(epic_id),
                Reply::Confirmed(false) => Ok(()),
                _ => Err(DbError::InvalidInput),
            },
            Action::DeleteStory { epic_id, story_id } => match reply {
                Reply::Confirmed(true) => self.db.delete_story(epic_id, story_id),
                Reply::Confirmed(false) => Ok(()),
                _ => Err(DbError::InvalidInput),
            },
            Action::UpdateEpicStatus { epic_id } => match reply {
                Reply::PickedStatus(Some(status)) => self.db.update_epic_status(epic_id, status),
                Reply::PickedStatus(None) => Ok(()),
                _ => Err(DbError::InvalidInput),
            },
            Action::UpdateStoryStatus { story_id } => match reply {
                Reply::PickedStatus(Some(status)) => self.db.update_story_status(story_id, status),
                Reply::PickedStatus(None) => Ok(()),
                _ => Err(DbError::InvalidInput),
            },
        }
    }
}

} // verus!
