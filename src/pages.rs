use std::collections::HashMap;
use itertools::Itertools;
use vstd::prelude::*;
use crate::db::{holds_id, DbError, JiraDatabase};
use crate::models::{Action, Epic, StateModel, Status, Story};
use crate::page_helpers::{column, get_column_string};

verus! {

broadcast use vstd::std_specs::hash::group_hash_axioms;

/// Whether every character of `d` is an ASCII digit.
pub open spec fn all_digits(d: Seq<char>) -> bool {
    forall|i: int| 0 <= i < d.len() ==> '0' <= #[trigger] d[i] <= '9'
}

/// The number that the decimal digits `d` spell.
pub open spec fn digits_value(d: Seq<char>) -> int
    decreases d.len(),
{
    if d.len() == 0 {
        0
    } else {
        digits_value(d.drop_last()) * 10 + (d.last() as int - '0' as int)
    }
}

/// What `str::parse::<u32>` reads from `s`: an optional `+`, then one or more ASCII digits
/// whose value fits in a `u32`.
pub open spec fn parsed_u32(s: Seq<char>) -> Option<u32> {
    let d = if s.len() > 0 && s[0] == '+' {
        s.drop_first()
    } else {
        s
    };
    if d.len() > 0 && all_digits(d) && digits_value(d) <= u32::MAX {
        Some(digits_value(d) as u32)
    } else {
        None
    }
}

/// The ASCII digit for `d`, which is below ten.
pub open spec fn digit_char(d: nat) -> char {
    ((d + '0' as nat) as u8) as char
}

/// The decimal text of `n`, without leading zeros.
pub open spec fn decimal(n: nat) -> Seq<char>
    decreases n,
{
    if n < 10 {
        seq![digit_char(n)]
    } else {
        decimal(n / 10).push(digit_char(n % 10))
    }
}

/// Relies on `str::parse::<u32>`: the whole of `s` must be an optional `+` and decimal
/// digits whose value fits in a `u32`.
#[verifier::external_body]
fn parse_id(s: &str) -> (r: Option<u32>)
    ensures
        r == parsed_u32(s@),
{
    s.parse::<u32>().ok()
}

/// Relies on `u32::to_string`: the decimal digits of `n`, with no sign and no leading zeros.
#[verifier::external_body]
fn id_text(n: u32) -> (r: String)
    ensures
        r@ == decimal(n as nat),
{
    n.to_string()
}

/// Relies on `HashMap::keys`: every key of `m`, once each, in the map's own order.
#[verifier::external_body]
fn key_list<V>(m: &HashMap<u32, V>) -> (r: Vec<u32>)
    ensures
        r@.to_set() == m@.dom(),
        r@.no_duplicates(),
{
    m.keys().copied().collect()
}

/// Relies on itertools' `sorted`: the items of `v` in ascending order.
#[verifier::external_body]
fn sorted_ids(v: &Vec<u32>) -> (r: Vec<u32>)
    ensures
        r@.to_multiset() == v@.to_multiset(),
        nondecreasing(r@),
{
    v.iter().copied().sorted().collect()
}

/// The home page: every epic.
#[derive(Clone, Copy, Debug, PartialEq, Eq, Structural)]
pub struct HomePage {}

/// One epic and the stories it owns.
#[derive(Clone, Copy, Debug, PartialEq, Eq, Structural)]
pub struct EpicDetail {
    pub epic_id: u32,
}

/// One story of an epic.
#[derive(Clone, Copy, Debug, PartialEq, Eq, Structural)]
pub struct StoryDetail {
    pub epic_id: u32,
    pub story_id: u32,
}

/// A page of the tracker, bound to the identifiers it shows.
#[derive(Clone, Copy, Debug, PartialEq, Eq, Structural)]
pub enum Page {
    Home(HomePage),
    Epic(EpicDetail),
    Story(StoryDetail),
}

/// Whether `input` is exactly the one character `c`.
pub open spec fn is_key(input: Seq<char>, c: char) -> bool {
    input.len() == 1 && input[0] == c
}

/// The action that a line of input asks for on `page`, when the store holds `m`.
pub open spec fn action_for(page: Page, m: StateModel, input: Seq<char>) -> Option<Action> {
    match page {
        Page::Home(_) => if is_key(input, 'q') {
            Some(Action::Exit)
        } else if is_key(input, 'c') {
            Some(Action::CreateEpic)
        } else {
            match parsed_u32(input) {
                Some(id) => if m.epics.contains_key(id) {
                    Some(Action::NavigateToEpicDetail { epic_id: id })
                } else {
                    None
                },
                None => None,
            }
        },
        Page::Epic(p) => if is_key(input, 'p') {
            Some(Action::NavigateToPreviousPage)
        } else if is_key(input, 'u') {
            Some(Action::UpdateEpicStatus { epic_id: p.epic_id })
        } else if is_key(input, 'd') {
            Some(Action::DeleteEpic { epic_id: p.epic_id })
        } else if is_key(input, 'c') {
            Some(Action::CreateStory { epic_id: p.epic_id })
        } else {
            match parsed_u32(input) {
                Some(id) => if m.epics.contains_key(p.epic_id) && m.epics[p.epic_id].stories@.contains(id) {
                    Some(Action::NavigateToStoryDetail { epic_id: p.epic_id, story_id: id })
                } else {
                    None
                },
                None => None,
            }
        },
        Page::Story(p) => if is_key(input, 'p') {
            Some(Action::NavigateToPreviousPage)
        } else if is_key(input, 'u') {
            Some(Action::UpdateStoryStatus { story_id: p.story_id })
        } else if is_key(input, 'd') {
            Some(Action::DeleteStory { epic_id: p.epic_id, story_id: p.story_id })
        } else {
            None
        },
    }
}

/// Whether the entities that `page` is bound to exist in `m`.
pub open spec fn can_render(page: Page, m: StateModel) -> bool {
    match page {
        Page::Home(_) => true,
        Page::Epic(p) => m.epics.contains_key(p.epic_id),
        Page::Story(p) => m.stories.contains_key(p.story_id),
    }
}

/// Whether `input` is exactly the one character `c`.
fn key_is(input: &str, c: char) -> (r: bool)
    ensures
        r == is_key(input@, c),
{
    if input.unicode_len() == 1 {
        input.get_char(0) == c
    } else {
        false
    }
}

/// `id | name | status`, as one line of a listing.
pub open spec fn listing_line(id: u32, name: Seq<char>, status: Status) -> Seq<char> {
    column(decimal(id as nat), 11) + " | "@ + column(name, 32) + " | "@ + column(status.label(), 17) + "\n"@
}

/// `id | name | description | status`, as the head line of a detail page.
pub open spec fn detail_line(id: u32, name: Seq<char>, description: Seq<char>, status: Status) -> Seq<char> {
    column(decimal(id as nat), 5) + " | "@ + column(name, 12) + " | "@ + column(description, 27) + " | "@
        + column(status.label(), 13)
}

/// One listing line for each id of `ids` that `epics` holds, in the order of `ids`.
pub open spec fn epic_rows(ids: Seq<u32>, epics: Map<u32, Epic>) -> Seq<char>
    decreases ids.len(),
{
    if ids.len() == 0 {
        Seq::empty()
    } else {
        let id = ids.last();
        if epics.contains_key(id) {
            epic_rows(ids.drop_last(), epics) + listing_line(id, epics[id].name@, epics[id].status)
        } else {
            epic_rows(ids.drop_last(), epics)
        }
    }
}

/// One listing line for each id of `ids` that `stories` holds, in the order of `ids`.
pub open spec fn story_rows(ids: Seq<u32>, stories: Map<u32, Story>) -> Seq<char>
    decreases ids.len(),
{
    if ids.len() == 0 {
        Seq::empty()
    } else {
        let id = ids.last();
        if stories.contains_key(id) {
            story_rows(ids.drop_last(), stories) + listing_line(id, stories[id].name@, stories[id].status)
        } else {
            story_rows(ids.drop_last(), stories)
        }
    }
}

/// Whether `ids` is in strictly ascending order.
pub open spec fn ascending(ids: Seq<u32>) -> bool {
    forall|i: int, j: int| 0 <= i < j < ids.len() ==> ids[i] < ids[j]
}

/// Whether `ids` is in ascending order, repeats allowed.
pub open spec fn nondecreasing(ids: Seq<u32>) -> bool {
    forall|i: int, j: int| 0 <= i < j < ids.len() ==> ids[i] <= ids[j]
}

/// Two sequences in ascending order (repeats allowed) with the same items are equal.
pub proof fn lemma_sorted_unique(a: Seq<u32>, b: Seq<u32>)
    requires
        nondecreasing(a),
        nondecreasing(b),
        a.to_multiset() == b.to_multiset(),
    ensures
        a == b,
    decreases a.len(),
{
    a.to_multiset_ensures();
    b.to_multiset_ensures();
    if a.len() == 0 {
        assert(a =~= b);
    } else {
        let n = a.len() - 1;
        assert(a.contains(a[n]));
        assert(a.to_multiset().count(a[n]) > 0);
        assert(b.contains(a[n]));
        assert(b.contains(b[n]));
        assert(b.to_multiset().count(b[n]) > 0);
        assert(a.contains(b[n]));
        let i = choose|i: int| 0 <= i < b.len() && b[i] == a[n];
        let j = choose|j: int| 0 <= j < a.len() && a[j] == b[n];
        assert(a[n] == b[n]);
        assert(a.remove(n) =~= a.drop_last());
        assert(b.remove(n) =~= b.drop_last());
        lemma_sorted_unique(a.drop_last(), b.drop_last());
        assert(a =~= b.drop_last().push(b[n]));
        assert(b =~= b.drop_last().push(b[n]));
    }
}

/// Two sequences in strictly ascending order with the same items are equal.
pub proof fn lemma_ascending_unique(a: Seq<u32>, b: Seq<u32>)
    requires
        ascending(a),
        ascending(b),
        a.to_set() == b.to_set(),
    ensures
        a == b,
{
    a.to_multiset_ensures();
    b.to_multiset_ensures();
    a.lemma_multiset_has_no_duplicates();
    b.lemma_multiset_has_no_duplicates();
    assert forall|x: u32| a.to_multiset().count(x) == b.to_multiset().count(x) by {
        assert(a.contains(x) <==> a.to_set().contains(x));
        assert(b.contains(x) <==> b.to_set().contains(x));
        if a.contains(x) {
            assert(a.to_multiset().contains(x));
            assert(b.to_multiset().contains(x));
        }
    }
    assert(a.to_multiset() =~= b.to_multiset());
    lemma_sorted_unique(a, b);
}

/// The ids of the epics of `m` in ascending order.
pub open spec fn epic_order(m: StateModel) -> Seq<u32> {
    choose|ids: Seq<u32>| ascending(ids) && ids.to_set() == m.epics.dom()
}

/// The items of `list` in ascending order.
pub open spec fn in_order(list: Seq<u32>) -> Seq<u32> {
    choose|ids: Seq<u32>| nondecreasing(ids) && ids.to_multiset() == list.to_multiset()
}

/// The text of `page` when the store holds `m`.
pub open spec fn page_text(page: Page, m: StateModel) -> Seq<char> {
    match page {
        Page::Home(_) => home_text(epic_order(m), m),
        Page::Epic(p) => epic_text(p.epic_id, in_order(m.epics[p.epic_id].stories@), m),
        Page::Story(p) => story_text(p.story_id, m),
    }
}

/// The home page, listing the epics of `m` in the order of `ids`.
pub open spec fn home_text(ids: Seq<u32>, m: StateModel) -> Seq<char> {
    "----------------------------- EPICS ------------------------------\n"@
        + "     id     |               name               |      status      \n"@
        + epic_rows(ids, m.epics)
        + "\n\n[q] quit | [c] create epic | [:id:] navigate to epic\n"@
}

/// The page of epic `epic_id`, listing its stories in the order of `ids`.
pub open spec fn epic_text(epic_id: u32, ids: Seq<u32>, m: StateModel) -> Seq<char> {
    let e = m.epics[epic_id];
    "------------------------------ EPIC ------------------------------\n"@
        + "  id  |     name     |         description         |    status    \n"@
        + detail_line(epic_id, e.name@, e.description@, e.status)
        + "\n\n---------------------------- STORIES -----------------------------\n"@
        + "     id     |               name               |      status      \n"@
        + story_rows(ids, m.stories)
        + "\n\n[p] previous | [u] update epic | [d] delete epic | [c] create story | [:id:] navigate to story\n"@
}

/// The page of story `story_id`.
pub open spec fn story_text(story_id: u32, m: StateModel) -> Seq<char> {
    let st = m.stories[story_id];
    "------------------------------ STORY ------------------------------\n"@
        + "  id  |     name     |         description         |    status    \n"@
        + detail_line(story_id, st.name@, st.description@, st.status)
        + "\n\n[p] previous | [u] update story | [d] delete story\n"@
}

fn listing_row(id: u32, name: &str, status: Status) -> (r: String)
    ensures
        r@ == listing_line(id, name@, status),
{
    let mut row = get_column_string(id_text(id).as_str(), 11);
    row.append(" | ");
    row.append(get_column_string(name, 32).as_str());
    row.append(" | ");
    row.append(get_column_string(status.to_string().as_str(), 17).as_str());
    row.append("\n");
    row
}

fn detail_row(id: u32, name: &str, description: &str, status: Status) -> (r: String)
    ensures
        r@ == detail_line(id, name@, description@, status),
{
    let mut row = get_column_string(id_text(id).as_str(), 5);
    row.append(" | ");
    row.append(get_column_string(name, 12).as_str());
    row.append(" | ");
    row.append(get_column_string(description, 27).as_str());
    row.append(" | ");
    row.append(get_column_string(status.to_string().as_str(), 13).as_str());
    row
}

/// The listing lines of the epics named by `ids`.
fn epic_listing(ids: &Vec<u32>, epics: &HashMap<u32, Epic>) -> (r: String)
    ensures
        r@ == epic_rows(ids@, epics@),
{
    let mut text = String::new();
    let mut i: usize = 0;
    while i < ids.len()
        invariant
            i <= ids@.len(),
            text@ == epic_rows(ids@.take(i as int), epics@),
        decreases ids@.len() - i,
    {
        assert(ids@.take(i as int + 1).drop_last() =~= ids@.take(i as int));
        if let Some(epic) = epics.get(&ids[i]) {
            text.append(listing_row(ids[i], epic.name.as_str(), epic.status).as_str());
        }
        i = i + 1;
    }
    assert(ids@.take(ids@.len() as int) =~= ids@);
    text
}

/// The listing lines of the stories named by `ids`.
fn story_listing(ids: &Vec<u32>, stories: &HashMap<u32, Story>) -> (r: String)
    ensures
        r@ == story_rows(ids@, stories@),
{
    let mut text = String::new();
    let mut i: usize = 0;
    while i < ids.len()
        invariant
            i <= ids@.len(),
            text@ == story_rows(ids@.take(i as int), stories@),
        decreases ids@.len() - i,
    {
        assert(ids@.take(i as int + 1).drop_last() =~= ids@.take(i as int));
        if let Some(story) = stories.get(&ids[i]) {
            text.append(listing_row(ids[i], story.name.as_str(), story.status).as_str());
        }
        i = i + 1;
    }
    assert(ids@.take(ids@.len() as int) =~= ids@);
    text
}

/// Sorting the keys of a map, each held once, gives them in strictly ascending order.
proof fn lemma_sorted_keys(keys: Seq<u32>, ids: Seq<u32>, dom: Set<u32>)
    requires
        keys.to_set() == dom,
        keys.no_duplicates(),
        ids.to_multiset() == keys.to_multiset(),
        nondecreasing(ids),
    ensures
        ascending(ids),
        ids.to_set() == dom,
{
    keys.to_multiset_ensures();
    ids.to_multiset_ensures();
    keys.lemma_multiset_has_no_duplicates();
    ids.lemma_multiset_has_no_duplicates_conv();
    assert forall|x: u32| ids.to_set().contains(x) <==> dom.contains(x) by {
        assert(ids.contains(x) <==> ids.to_multiset().count(x) > 0);
        assert(keys.contains(x) <==> keys.to_multiset().count(x) > 0);
    }
    assert(ids.to_set() =~= dom);
}

impl Page {
    /// The text of the page; fails with `NotFound` when the epic or story it shows is gone.
    /// The home page lists every epic in ascending order of id; an epic's page lists the
    /// stories it owns in ascending order of id.
    pub fn draw_page(&self, db: &JiraDatabase) -> (r: Result<String, DbError>)
        ensures
            r is Ok <==> can_render(*self, db@),
            r is Err ==> r == Err::<String, DbError>(DbError::NotFound),
            r matches Ok(t) ==> t@ == page_text(*self, db@),
    {
        let state = db.read_db()?;
        match self {
            Page::Home(_) => {
                let keys = key_list(&state.epics);
                let ids = sorted_ids(&keys);
                proof {
                    lemma_sorted_keys(keys@, ids@, state.epics@.dom());
                    lemma_ascending_unique(ids@, epic_order(db@));
                }
                let mut text = "----------------------------- EPICS ------------------------------\n".to_string();
                text.append("     id     |               name               |      status      \n");
                text.append(epic_listing(&ids, &state.epics).as_str());
                text.append("\n\n[q] quit | [c] create epic | [:id:] navigate to epic\n");
                assert(text@ == home_text(ids@, db@));
                Ok(text)
            },
            Page::Epic(p) => {
                let epic = match state.epics.get(&p.epic_id) {
                    Some(e) => e,
                    None => return Err(DbError::NotFound),
                };
                let mut text = "------------------------------ EPIC ------------------------------\n".to_string();
                text.append("  id  |     name     |         description         |    status    \n");
                text.append(
                    detail_row(p.epic_id, epic.name.as_str(), epic.description.as_str(), epic.status).as_str(),
                );
                text.append("\n\n---------------------------- STORIES -----------------------------\n");
                text.append("     id     |               name               |      status      \n");
                let ids = sorted_ids(&epic.stories);
                proof {
                    lemma_sorted_unique(ids@, in_order(epic.stories@));
                }
                text.append(story_listing(&ids, &state.stories).as_str());
                text.append("\n\n[p] previous | [u] update epic | [d] delete epic | [c] create story | [:id:] navigate to story\n");
                assert(text@ == epic_text(p.epic_id, ids@, db@));
                Ok(text)
            },
            Page::Story(p) => {
                let story = match state.stories.get(&p.story_id) {
                    Some(s) => s,
                    None => return Err(DbError::NotFound),
                };
                let mut text = "------------------------------ STORY ------------------------------\n".to_string();
                text.append("  id  |     name     |         description         |    status    \n");
                text.append(
                    detail_row(p.story_id, story.name.as_str(), story.description.as_str(), story.status).as_str(),
                );
                text.append("\n\n[p] previous | [u] update story | [d] delete story\n");
                Ok(text)
            },
        }
    }

    /// The action that `input` asks for, matched literally: no trimming, whole input only.
    pub fn handle_input(&self, db: &JiraDatabase, input: &str) -> (r: Result<Option<Action>, DbError>)
        ensures
            r matches Ok(a) && a == action_for(*self, db@, input@),
    {
        let state = db.read_db()?;
        match self {
            Page::Home(_) => {
                if key_is(input, 'q') {
                    Ok(Some(Action::Exit))
                } else if key_is(input, 'c') {
                    Ok(Some(Action::CreateEpic))
                } else {
                    match parse_id(input) {
                        Some(epic_id) => if state.epics.contains_key(&epic_id) {
                            Ok(Some(Action::NavigateToEpicDetail { epic_id }))
                        } else {
                            Ok(None)
                        },
                        None => Ok(None),
                    }
                }
            },
            Page::Epic(p) => {
                let epic_id = p.epic_id;
                if key_is(input, 'p') {
                    Ok(Some(Action::NavigateToPreviousPage))
                } else if key_is(input, 'u') {
                    Ok(Some(Action::UpdateEpicStatus { epic_id }))
                } else if key_is(input, 'd') {
                    Ok(Some(Action::DeleteEpic { epic_id }))
                } else if key_is(input, 'c') {
                    Ok(Some(Action::CreateStory { epic_id }))
                } else {
                    match parse_id(input) {
                        Some(story_id) => match state.epics.get(&epic_id) {
                            Some(epic) => if holds_id(&epic.stories, story_id) {
                                Ok(Some(Action::NavigateToStoryDetail { epic_id, story_id }))
                            } else {
                                Ok(None)
                            },
                            None => Ok(None),
                        },
                        None => Ok(None),
                    }
                }
            },
            Page::Story(p) => {
                if key_is(input, 'p') {
                    Ok(Some(Action::NavigateToPreviousPage))
                } else if key_is(input, 'u') {
                    Ok(Some(Action::UpdateStoryStatus { story_id: p.story_id }))
                } else if key_is(input, 'd') {
                    Ok(Some(Action::DeleteStory { epic_id: p.epic_id, story_id: p.story_id }))
                } else {
                    Ok(None)
                }
            },
        }
    }
}

} // verus!
