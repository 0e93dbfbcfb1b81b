use std::collections::HashMap;
use vstd::prelude::*;
use crate::models::{DBState, Epic, StateModel, Status, Story};

verus! {

broadcast use vstd::std_specs::hash::group_hash_axioms, vstd::seq_lib::group_filter_ensures;

/// Why a store operation did not go through.
#[derive(Clone, Copy, Debug, PartialEq, Eq, Structural)]
pub enum DbError {
    /// The epic or story named does not exist, or the story is not owned by the epic named.
    NotFound,
    /// The stored document could not be read.
    ReadError,
    /// The stored document is not a valid state.
    ParseError,
    /// The state could not be written back.
    WriteError,
    /// A prompt's answer does not fit the action it was asked for.
    InvalidInput,
    /// Every identifier has been handed out.
    IdsExhausted,
}

/// An in-memory store: holds the state that was last written to it.
pub struct MockDB {
    last_written_state: DBState,
}

impl View for MockDB {
    type V = StateModel;

    closed spec fn view(&self) -> StateModel {
        self.last_written_state@
    }
}

impl MockDB {
    /// A store holding the empty state.
    pub fn new() -> (r: MockDB)
        ensures
            r@.last_item_id == 0,
            r@.epics == Map::<u32, Epic>::empty(),
            r@.stories == Map::<u32, Story>::empty(),
    {
        MockDB { last_written_state: DBState::empty() }
    }

    /// A store holding `state`, as loaded from durable storage.
    pub fn from_state(state: DBState) -> (r: MockDB)
        ensures
            r@ == state@,
    {
        MockDB { last_written_state: state }
    }

    pub fn read_db(&self) -> (r: Result<DBState, DbError>)
        ensures
            r matches Ok(s) && s@ == self@,
    {
        Ok(self.last_written_state.duplicate())
    }

    pub fn write_db(&mut self, state: &DBState) -> (r: Result<(), DbError>)
        ensures
            r is Ok,
            final(self)@ == state@,
    {
        self.last_written_state = state.duplicate();
        Ok(())
    }
}

/// `b` follows `a` by one store operation: the counter stays, or rises by one when
/// something is created.
pub open spec fn counter_step(a: StateModel, b: StateModel) -> bool {
    b.last_item_id == a.last_item_id || b.last_item_id == a.last_item_id + 1
}

/// `b` follows `a` by a creation, which hands out `b`'s counter as the new identifier.
pub open spec fn creation_step(a: StateModel, b: StateModel) -> bool {
    b.last_item_id == a.last_item_id + 1
}

/// `n` is `m` after `epic` was stored under `id`, owning no stories yet.
pub open spec fn epic_created(m: StateModel, n: StateModel, epic: Epic, id: u32) -> bool {
    &&& n.last_item_id == id
    &&& n.stories == m.stories
    &&& n.epics.dom() == m.epics.dom().insert(id)
    &&& forall|k: u32| #[trigger] m.epics.contains_key(k) && k != id ==> n.epics[k] == m.epics[k]
    &&& epic_with_stories(epic, n.epics[id], Seq::<u32>::empty())
}

/// `b` is `a` with its story list replaced by `ids`.
pub open spec fn epic_with_stories(a: Epic, b: Epic, ids: Seq<u32>) -> bool {
    &&& b.name == a.name
    &&& b.description == a.description
    &&& b.status == a.status
    &&& b.stories@ == ids
}

/// The epics of `new` are those of `old`; only the one under `id` may differ.
pub open spec fn others_kept(old: Map<u32, Epic>, new: Map<u32, Epic>, id: u32) -> bool {
    &&& new.dom() == old.dom()
    &&& forall|k: u32| #[trigger] old.contains_key(k) && k != id ==> new[k] == old[k]
}

/// `ids` with every occurrence of `x` taken out, order kept.
pub open spec fn without(ids: Seq<u32>, x: u32) -> Seq<u32> {
    ids.filter(other_than(x))
}

/// Holds of every id but `x`.
pub open spec fn other_than(x: u32) -> spec_fn(u32) -> bool {
    |y: u32| y != x
}

/// The story ids that epic `e` owns, as a set.
pub open spec fn owned(m: StateModel, e: u32) -> Set<u32> {
    m.epics[e].stories@.to_set()
}

/// `n` is `m` after `story` was stored under `id` and appended to epic `epic_id`.
pub open spec fn story_created(m: StateModel, n: StateModel, story: Story, epic_id: u32, id: u32) -> bool {
    &&& n.last_item_id == id
    &&& n.stories == m.stories.insert(id, story)
    &&& others_kept(m.epics, n.epics, epic_id)
    &&& epic_with_stories(m.epics[epic_id], n.epics[epic_id], m.epics[epic_id].stories@.push(id))
}

/// `n` is `m` without epic `epic_id` and without the stories it owned.
pub open spec fn epic_deleted(m: StateModel, n: StateModel, epic_id: u32) -> bool {
    &&& n.last_item_id == m.last_item_id
    &&& n.epics == m.epics.remove(epic_id)
    &&& n.stories == m.stories.remove_keys(owned(m, epic_id))
}

/// `n` is `m` without story `story_id`, which epic `epic_id` no longer lists.
pub open spec fn story_deleted(m: StateModel, n: StateModel, epic_id: u32, story_id: u32) -> bool {
    &&& n.last_item_id == m.last_item_id
    &&& n.stories == m.stories.remove(story_id)
    &&& others_kept(m.epics, n.epics, epic_id)
    &&& epic_with_stories(m.epics[epic_id], n.epics[epic_id], without(m.epics[epic_id].stories@, story_id))
}

/// Copies `ids` leaving out every `x`.
fn remove_id(ids: &Vec<u32>, x: u32) -> (r: Vec<u32>)
    ensures
        r@ == without(ids@, x),
{
    let mut out: Vec<u32> = Vec::new();
    let mut i: usize = 0;
    while i < ids.len()
        invariant
            i <= ids@.len(),
            out@ == without(ids@.take(i as int), x),
        decreases ids@.len() - i,
    {
        let y = ids[i];
        proof {
            let f = other_than(x);
            assert(ids@.take(i as int + 1) =~= ids@.take(i as int) + seq![y]);
            Seq::filter_distributes_over_add(ids@.take(i as int), seq![y], f);
            reveal_with_fuel(Seq::filter, 2);
        }
        if y != x {
            out.push(y);
        }
        i = i + 1;
    }
    assert(ids@.take(ids@.len() as int) =~= ids@);
    out
}

/// Whether `x` occurs in `ids`.
pub(crate) fn holds_id(ids: &Vec<u32>, x: u32) -> (r: bool)
    ensures
        r == ids@.contains(x),
{
    let mut i: usize = 0;
    while i < ids.len()
        invariant
            i <= ids@.len(),
            forall|j: int| 0 <= j < i ==> ids@[j] != x,
        decreases ids@.len() - i,
    {
        if ids[i] == x {
            return true;
        }
        i = i + 1;
    }
    false
}

/// The data access layer: every operation reads the stored state, changes it, and writes it back.
pub struct JiraDatabase {
    database: MockDB,
}

impl View for JiraDatabase {
    type V = StateModel;

    closed spec fn view(&self) -> StateModel {
        self.database@
    }
}

impl JiraDatabase {
    /// A data access layer over `database`.
    pub fn new(database: MockDB) -> (r: JiraDatabase)
        ensures
            r@ == database@,
    {
        JiraDatabase { database }
    }

    /// The stored state.
    pub fn read_db(&self) -> (r: Result<DBState, DbError>)
        ensures
            r matches Ok(s) && s@ == self@,
    {
        self.database.read_db()
    }

    /// Adds `epic` under the next identifier and returns that identifier. The new epic
    /// owns no stories, whatever list `epic` carried.
    pub fn create_epic(&mut self, epic: Epic) -> (r: Result<u32, DbError>)
        ensures
            counter_step(old(self)@, final(self)@),
            old(self)@.last_item_id == u32::MAX <==> r is Err,
            r is Err ==> r == Err::<u32, DbError>(DbError::IdsExhausted) && final(self)@ == old(self)@,
            r matches Ok(id) ==> id == old(self)@.last_item_id + 1
                && epic_created(old(self)@, final(self)@, epic, id),
    {
        let mut parsed = self.database.read_db()?;
        if parsed.last_item_id == u32::MAX {
            return Err(DbError::IdsExhausted);
        }
        let new_id = parsed.last_item_id + 1;
        parsed.last_item_id = new_id;
        parsed.epics.insert(
            new_id,
            Epic { name: epic.name, description: epic.description, status: epic.status, stories: Vec::new() },
        );
        self.database.write_db(&parsed)?;
        Ok(new_id)
    }

    /// Adds `story` under the next identifier, appends that identifier to epic `epic_id`,
    /// and returns it.
    pub fn create_story(&mut self, story: Story, epic_id: u32) -> (r: Result<u32, DbError>)
        ensures
            counter_step(old(self)@, final(self)@),
            !old(self)@.epics.contains_key(epic_id) <==> r == Err::<u32, DbError>(DbError::NotFound),
            old(self)@.epics.contains_key(epic_id) && old(self)@.last_item_id == u32::MAX
                <==> r == Err::<u32, DbError>(DbError::IdsExhausted),
            r is Err ==> final(self)@ == old(self)@ && (r == Err::<u32, DbError>(DbError::NotFound)
                || r == Err::<u32, DbError>(DbError::IdsExhausted)),
            r matches Ok(id) ==> id == old(self)@.last_item_id + 1
                && story_created(old(self)@, final(self)@, story, epic_id, id),
    {
        let mut parsed = self.database.read_db()?;
        let epic = match parsed.epics.remove(&epic_id) {
            Some(e) => e,
            None => return Err(DbError::NotFound),
        };
        if parsed.last_item_id == u32::MAX {
            return Err(DbError::IdsExhausted);
        }
        let new_id = parsed.last_item_id + 1;
        parsed.last_item_id = new_id;
        parsed.stories.insert(new_id, story);
        let mut ids = epic.stories;
        ids.push(new_id);
        parsed.epics.insert(
            epic_id,
            Epic { name: epic.name, description: epic.description, status: epic.status, stories: ids },
        );
        self.database.write_db(&parsed)?;
        Ok(new_id)
    }

    /// Removes epic `epic_id` together with every story it owns.
    pub fn delete_epic(&mut self, epic_id: u32) -> (r: Result<(), DbError>)
        ensures
            counter_step(old(self)@, final(self)@),
            !old(self)@.epics.contains_key(epic_id) <==> r is Err,
            r is Err ==> r == Err::<(), DbError>(DbError::NotFound) && final(self)@ == old(self)@,
            r is Ok ==> epic_deleted(old(self)@, final(self)@, epic_id),
    {
        let mut parsed = self.database.read_db()?;
        let epic = match parsed.epics.remove(&epic_id) {
            Some(e) => e,
            None => return Err(DbError::NotFound),
        };
        let ids = epic.stories;
        let ghost before = parsed.stories@;
        assert(parsed.epics@ =~= old(self)@.epics.remove(epic_id));
        let mut i: usize = 0;
        while i < ids.len()
            invariant
                i <= ids@.len(),
                parsed.epics@ == old(self)@.epics.remove(epic_id),
                parsed.last_item_id == old(self)@.last_item_id,
                parsed.stories@ == before.remove_keys(ids@.take(i as int).to_set()),
            decreases ids@.len() - i,
        {
            parsed.stories.remove(&ids[i]);
            proof {
                assert(ids@.take(i as int + 1) =~= ids@.take(i as int).push(ids@[i as int]));
                ids@.take(i as int).lemma_push_to_set_commute(ids@[i as int]);
                assert(parsed.stories@ =~= before.remove_keys(ids@.take(i as int + 1).to_set()));
            }
            i = i + 1;
        }
        assert(ids@.take(ids@.len() as int) =~= ids@);
        assert(parsed.stories@ =~= old(self)@.stories.remove_keys(owned(old(self)@, epic_id)));
        self.database.write_db(&parsed)?;
        Ok(())
    }

    /// Removes story `story_id` from the stories and from the list of epic `epic_id`.
    pub fn delete_story(&mut self, epic_id: u32, story_id: u32) -> (r: Result<(), DbError>)
        ensures
            counter_step(old(self)@, final(self)@),
            !(old(self)@.epics.contains_key(epic_id)
                && old(self)@.epics[epic_id].stories@.contains(story_id)) <==> r is Err,
            r is Err ==> r == Err::<(), DbError>(DbError::NotFound) && final(self)@ == old(self)@,
            r is Ok ==> story_deleted(old(self)@, final(self)@, epic_id, story_id),
    {
        let mut parsed = self.database.read_db()?;
        let epic = match parsed.epics.remove(&epic_id) {
            Some(e) => e,
            None => return Err(DbError::NotFound),
        };
        if !holds_id(&epic.stories, story_id) {
            return Err(DbError::NotFound);
        }
        let ids = remove_id(&epic.stories, story_id);
        parsed.stories.remove(&story_id);
        parsed.epics.insert(
            epic_id,
            Epic { name: epic.name, description: epic.description, status: epic.status, stories: ids },
        );
        self.database.write_db(&parsed)?;
        Ok(())
    }

    /// Sets the status of epic `epic_id`.
    pub fn update_epic_status(&mut self, epic_id: u32, status: Status) -> (r: Result<(), DbError>)
        ensures
            counter_step(old(self)@, final(self)@),
            !old(self)@.epics.contains_key(epic_id) <==> r is Err,
            r is Err ==> r == Err::<(), DbError>(DbError::NotFound) && final(self)@ == old(self)@,
            r is Ok ==> {
                &&& final(self)@.last_item_id == old(self)@.last_item_id
                &&& final(self)@.stories == old(self)@.stories
                &&& final(self)@.epics == old(self)@.epics.insert(
                    epic_id,
                    Epic { status, ..old(self)@.epics[epic_id] },
                )
            },
    {
        let mut parsed = self.database.read_db()?;
        let epic = match parsed.epics.remove(&epic_id) {
            Some(e) => e,
            None => return Err(DbError::NotFound),
        };
        parsed.epics.insert(epic_id, Epic { status, ..epic });
        self.database.write_db(&parsed)?;
        Ok(())
    }

    /// Sets the status of story `story_id`.
    pub fn update_story_status(&mut self, story_id: u32, status: Status) -> (r: Result<(), DbError>)
        ensures
            counter_step(old(self)@, final(self)@),
            !old(self)@.stories.contains_key(story_id) <==> r is Err,
            r is Err ==> r == Err::<(), DbError>(DbError::NotFound) && final(self)@ == old(self)@,
            r is Ok ==> {
                &&& final(self)@.last_item_id == old(self)@.last_item_id
                &&& final(self)@.epics == old(self)@.epics
                &&& final(self)@.stories == old(self)@.stories.insert(
                    story_id,
                    Story { status, ..old(self)@.stories[story_id] },
                )
            },
    {
        let mut parsed = self.database.read_db()?;
        let story = match parsed.stories.remove(&story_id) {
            Some(s) => s,
            None => return Err(DbError::NotFound),
        };
        parsed.stories.insert(story_id, Story { status, ..story });
        self.database.write_db(&parsed)?;
        Ok(())
    }
}

/// Each identifier handed out is above the counter, held by no epic or story yet, and
/// becomes the new counter; creating keeps a well-formed store well-formed. So across any
/// sequence of creations the identifiers strictly increase and never repeat.
pub proof fn lemma_fresh_identifiers(
    m: StateModel,
    epic: Epic,
    e: StateModel,
    story: Story,
    epic_id: u32,
    n: StateModel,
)
    requires
        m.well_formed(),
        m.last_item_id < u32::MAX,
        epic_created(m, e, epic, (m.last_item_id + 1) as u32),
        m.epics.contains_key(epic_id),
        story_created(m, n, story, epic_id, (m.last_item_id + 1) as u32),
    ensures
        ({
            let id = (m.last_item_id + 1) as u32;
            &&& id > m.last_item_id
            &&& !m.epics.contains_key(id)
            &&& !m.stories.contains_key(id)
            &&& e.last_item_id == id
            &&& e.well_formed()
            &&& n.last_item_id == id
            &&& n.well_formed()
        }),
{
    let id = (m.last_item_id + 1) as u32;
    assert forall|k: u32| #[trigger] e.epics.contains_key(k) implies k <= e.last_item_id by {
        if k != id {
            assert(m.epics.contains_key(k));
        }
    }
    assert forall|k: u32| #[trigger] e.stories.contains_key(k) implies k <= e.last_item_id by {
        assert(m.stories.contains_key(k));
    }
    assert forall|k: u32, i: int|
        e.epics.contains_key(k) && 0 <= i < e.epics[k].stories@.len()
            implies #[trigger] e.stories.contains_key(e.epics[k].stories@[i]) by {
        assert(k != id);
        assert(m.stories.contains_key(m.epics[k].stories@[i]));
    }
    assert forall|e1: u32, e2: u32, i: int, j: int|
        e.epics.contains_key(e1) && e.epics.contains_key(e2) && e1 != e2
            && 0 <= i < e.epics[e1].stories@.len() && 0 <= j < e.epics[e2].stories@.len()
            implies #[trigger] e.epics[e1].stories@[i] != #[trigger] e.epics[e2].stories@[j] by {
        assert(e1 != id && e2 != id);
        assert(m.epics[e1].stories@[i] != m.epics[e2].stories@[j]);
    }
    assert forall|k: u32, i: int|
        n.epics.contains_key(k) && 0 <= i < n.epics[k].stories@.len()
            implies #[trigger] n.stories.contains_key(n.epics[k].stories@[i]) by {
        if k != epic_id {
            assert(m.stories.contains_key(m.epics[k].stories@[i]));
        } else if i < m.epics[k].stories@.len() {
            assert(n.epics[k].stories@[i] == m.epics[k].stories@[i]);
            assert(m.stories.contains_key(m.epics[k].stories@[i]));
        }
    }
    assert forall|k: u32| #[trigger] n.epics.contains_key(k) implies k <= n.last_item_id by {
        assert(m.epics.contains_key(k));
    }
    assert forall|k: u32| #[trigger] n.stories.contains_key(k) implies k <= n.last_item_id by {
        if k != id {
            assert(m.stories.contains_key(k));
        }
    }
    assert forall|e1: u32, e2: u32, i: int, j: int|
        n.epics.contains_key(e1) && n.epics.contains_key(e2) && e1 != e2
            && 0 <= i < n.epics[e1].stories@.len() && 0 <= j < n.epics[e2].stories@.len()
            implies #[trigger] n.epics[e1].stories@[i] != #[trigger] n.epics[e2].stories@[j] by {
        let l1 = m.epics[e1].stories@.len();
        let l2 = m.epics[e2].stories@.len();
        if e1 == epic_id && i == l1 {
            assert(m.stories.contains_key(m.epics[e2].stories@[j]));
        } else if e2 == epic_id && j == l2 {
            assert(m.stories.contains_key(m.epics[e1].stories@[i]));
        } else {
            assert(n.epics[e1].stories@[i] == m.epics[e1].stories@[i]);
            assert(n.epics[e2].stories@[j] == m.epics[e2].stories@[j]);
            assert(m.epics[e1].stories@[i] != m.epics[e2].stories@[j]);
        }
    }
}

/// After a story is created its identifier is stored and listed by its epic; after an epic
/// is deleted none of the stories it listed remain; after a story is deleted it is neither
/// stored nor listed by its epic.
pub proof fn lemma_referential_integrity(
    m: StateModel,
    created: StateModel,
    story: Story,
    epic_id: u32,
    id: u32,
    epic_gone: StateModel,
    story_gone: StateModel,
    story_id: u32,
)
    requires
        m.epics.contains_key(epic_id),
        story_created(m, created, story, epic_id, id),
        epic_deleted(m, epic_gone, epic_id),
        story_deleted(m, story_gone, epic_id, story_id),
    ensures
        created.stories.contains_key(id),
        created.epics[epic_id].stories@.contains(id),
        forall|i: int| 0 <= i < m.epics[epic_id].stories@.len()
            ==> !epic_gone.stories.contains_key(#[trigger] m.epics[epic_id].stories@[i]),
        !story_gone.stories.contains_key(story_id),
        !story_gone.epics[epic_id].stories@.contains(story_id),
{
    let ids = m.epics[epic_id].stories@;
    assert(created.epics[epic_id].stories@[ids.len() as int] == id);
    assert forall|i: int| 0 <= i < ids.len() implies !epic_gone.stories.contains_key(#[trigger] ids[i]) by {
        assert(ids.to_set().contains(ids[i]));
    }
}

/// Deleting an epic, deleting a story, and setting a status keep a well-formed store
/// well-formed.
pub proof fn lemma_changes_keep_well_formed(
    m: StateModel,
    epic_id: u32,
    story_id: u32,
    epic_gone: StateModel,
    story_gone: StateModel,
    status: Status,
)
    requires
        m.well_formed(),
        m.epics.contains_key(epic_id),
        m.epics[epic_id].stories@.contains(story_id),
        epic_deleted(m, epic_gone, epic_id),
        story_deleted(m, story_gone, epic_id, story_id),
    ensures
        epic_gone.well_formed(),
        story_gone.well_formed(),
        (StateModel { epics: m.epics.insert(epic_id, Epic { status, ..m.epics[epic_id] }), ..m }).well_formed(),
        m.stories.contains_key(story_id) ==> (StateModel {
            stories: m.stories.insert(story_id, Story { status, ..m.stories[story_id] }),
            ..m
        }).well_formed(),
{
    let ids = m.epics[epic_id].stories@;
    assert forall|e: u32, i: int|
        epic_gone.epics.contains_key(e) && 0 <= i < epic_gone.epics[e].stories@.len()
            implies #[trigger] epic_gone.stories.contains_key(epic_gone.epics[e].stories@[i]) by {
        let x = m.epics[e].stories@[i];
        assert(m.stories.contains_key(x));
        if ids.to_set().contains(x) {
            let j = choose|j: int| 0 <= j < ids.len() && ids[j] == x;
            assert(m.epics[e].stories@[i] != m.epics[epic_id].stories@[j]);
        }
    }
    let f = other_than(story_id);
    let kept = without(ids, story_id);
    assert forall|i: int| 0 <= i < kept.len() implies ids.contains(#[trigger] kept[i]) by {
        assert(kept.contains(kept[i]));
        ids.lemma_filter_contains_rev(f, kept[i]);
    }
    assert forall|e: u32, i: int|
        story_gone.epics.contains_key(e) && 0 <= i < story_gone.epics[e].stories@.len()
            implies #[trigger] story_gone.stories.contains_key(story_gone.epics[e].stories@[i]) by {
        if e == epic_id {
            let x = kept[i];
            assert(ids.contains(x));
            assert(x != story_id);
            let j = choose|j: int| 0 <= j < ids.len() && ids[j] == x;
            assert(m.stories.contains_key(ids[j]));
        } else {
            assert(m.stories.contains_key(m.epics[e].stories@[i]));
            if m.epics[e].stories@[i] == story_id {
                let j = choose|j: int| 0 <= j < ids.len() && ids[j] == story_id;
                assert(m.epics[e].stories@[i] != m.epics[epic_id].stories@[j]);
            }
        }
    }
    assert forall|e1: u32, e2: u32, i: int, j: int|
        story_gone.epics.contains_key(e1) && story_gone.epics.contains_key(e2) && e1 != e2
            && 0 <= i < story_gone.epics[e1].stories@.len() && 0 <= j < story_gone.epics[e2].stories@.len()
            implies #[trigger] story_gone.epics[e1].stories@[i] != #[trigger] story_gone.epics[e2].stories@[j] by {
        if e1 == epic_id {
            assert(ids.contains(kept[i]));
            let k = choose|k: int| 0 <= k < ids.len() && ids[k] == kept[i];
            assert(m.epics[e1].stories@[k] != m.epics[e2].stories@[j]);
        } else if e2 == epic_id {
            assert(ids.contains(kept[j]));
            let k = choose|k: int| 0 <= k < ids.len() && ids[k] == kept[j];
            assert(m.epics[e1].stories@[i] != m.epics[e2].stories@[k]);
        } else {
            assert(m.epics[e1].stories@[i] != m.epics[e2].stories@[j]);
        }
    }
}

/// Along a run of store operations the counter never goes down.
proof fn lemma_counter_monotone(run: Seq<StateModel>, a: int, b: int)
    requires
        forall|k: int| 0 <= k < run.len() - 1 ==> #[trigger] counter_step(run[k], run[k + 1]),
        0 <= a <= b < run.len(),
    ensures
        run[a].last_item_id <= run[b].last_item_id,
    decreases b - a,
{
    if a < b {
        lemma_counter_monotone(run, a, b - 1);
        let k = b - 1;
        assert(counter_step(run[k], run[k + 1]));
    }
}

/// Along any run of store operations (each a `counter_step`, as every operation's contract
/// states), the identifiers that creations hand out strictly increase, so none repeats, and
/// when no creation follows the last one the counter equals the identifier it handed out.
pub proof fn lemma_ids_increase_along_run(run: Seq<StateModel>, i: int, j: int)
    requires
        forall|k: int| 0 <= k < run.len() - 1 ==> #[trigger] counter_step(run[k], run[k + 1]),
        0 <= i < j < run.len() - 1,
        creation_step(run[i], run[i + 1]),
        creation_step(run[j], run[j + 1]),
    ensures
        run[i + 1].last_item_id < run[j + 1].last_item_id,
        (forall|k: int| j < k < run.len() - 1 ==> !#[trigger] creation_step(run[k], run[k + 1]))
            ==> run.last().last_item_id == run[j + 1].last_item_id,
{
    lemma_counter_monotone(run, i + 1, j);
    if forall|k: int| j < k < run.len() - 1 ==> !#[trigger] creation_step(run[k], run[k + 1]) {
        lemma_counter_kept(run, j + 1, run.len() - 1);
    }
}

/// Along a run with no creation between `a` and `b`, the counter stays as it is.
proof fn lemma_counter_kept(run: Seq<StateModel>, a: int, b: int)
    requires
        forall|k: int| 0 <= k < run.len() - 1 ==> #[trigger] counter_step(run[k], run[k + 1]),
        0 <= a <= b < run.len(),
        forall|k: int| a <= k < b ==> !#[trigger] creation_step(run[k], run[k + 1]),
    ensures
        run[b].last_item_id == run[a].last_item_id,
    decreases b - a,
{
    if a < b {
        lemma_counter_kept(run, a, b - 1);
        let k = b - 1;
        assert(counter_step(run[k], run[k + 1]));
        assert(!creation_step(run[k], run[k + 1]));
    }
}

} // verus!
