use jira_cli::db::{DbError, JiraDatabase, MockDB};
use jira_cli::models::{Action, Epic, Status, Story};
use jira_cli::navigator::{confirms, status_choice, Navigator, Prompt, Reply};
use jira_cli::page_helpers::get_column_string;
use jira_cli::pages::{EpicDetail, HomePage, Page, StoryDetail};

fn fresh_db() -> JiraDatabase {
    JiraDatabase::new(MockDB::new())
}

#[test]
fn should_start_on_home_page() {
    let nav = Navigator::new(fresh_db());
    assert_eq!(nav.get_page_count(), 1);

    let home_page = nav.get_current_page().unwrap();
    assert_eq!(matches!(home_page, Page::Home(_)), true);
}

#[test]
fn handle_action_should_navigate_pages() {
    let mut nav = Navigator::new(fresh_db());

    nav.handle_action(Action::NavigateToEpicDetail { epic_id: 1 }, Reply::Nothing).unwrap();
    assert_eq!(nav.get_page_count(), 2);
    assert_eq!(matches!(nav.get_current_page().unwrap(), Page::Epic(_)), true);

    nav.handle_action(Action::NavigateToStoryDetail { epic_id: 1, story_id: 2 }, Reply::Nothing)
        .unwrap();
    assert_eq!(nav.get_page_count(), 3);
    assert_eq!(matches!(nav.get_current_page().unwrap(), Page::Story(_)), true);

    nav.handle_action(Action::NavigateToPreviousPage, Reply::Nothing).unwrap();
    assert_eq!(nav.get_page_count(), 2);
    assert_eq!(matches!(nav.get_current_page().unwrap(), Page::Epic(_)), true);

    nav.handle_action(Action::NavigateToPreviousPage, Reply::Nothing).unwrap();
    assert_eq!(nav.get_page_count(), 1);
    assert_eq!(matches!(nav.get_current_page().unwrap(), Page::Home(_)), true);

    nav.handle_action(Action::NavigateToPreviousPage, Reply::Nothing).unwrap();
    assert_eq!(nav.get_page_count(), 0);

    nav.handle_action(Action::NavigateToPreviousPage, Reply::Nothing).unwrap();
    assert_eq!(nav.get_page_count(), 0);
}

#[test]
fn exit_empties_the_stack() {
    let mut nav = Navigator::new(fresh_db());
    nav.handle_action(Action::NavigateToEpicDetail { epic_id: 1 }, Reply::Nothing).unwrap();
    nav.handle_action(Action::Exit, Reply::Nothing).unwrap();
    assert_eq!(nav.get_page_count(), 0);
    assert!(nav.get_current_page().is_none());
}

#[test]
fn navigator_changes_the_store() {
    let mut nav = Navigator::new(fresh_db());
    assert_eq!(Navigator::prompt_for(&Action::CreateEpic), Prompt::NewEpic);
    nav.handle_action(Action::CreateEpic, Reply::NewEpic(Epic::new("E".to_string(), "D".to_string())))
        .unwrap();
    nav.handle_action(
        Action::CreateStory { epic_id: 1 },
        Reply::NewStory(Story::new("S".to_string(), "D".to_string())),
    )
    .unwrap();
    nav.handle_action(Action::UpdateStoryStatus { story_id: 2 }, Reply::PickedStatus(Some(Status::Closed)))
        .unwrap();
    nav.handle_action(Action::UpdateEpicStatus { epic_id: 1 }, Reply::PickedStatus(None)).unwrap();
    nav.handle_action(Action::DeleteEpic { epic_id: 1 }, Reply::Confirmed(false)).unwrap();
    let state = nav.get_db().read_db().unwrap();
    assert_eq!(state.stories.get(&2).unwrap().status, Status::Closed);
    assert_eq!(state.epics.get(&1).unwrap().status, Status::Open);
    assert_eq!(
        nav.handle_action(Action::DeleteEpic { epic_id: 9 }, Reply::Confirmed(true)),
        Err(DbError::NotFound)
    );
    assert_eq!(
        nav.handle_action(Action::CreateEpic, Reply::Confirmed(true)),
        Err(DbError::InvalidInput)
    );
    nav.handle_action(Action::DeleteStory { epic_id: 1, story_id: 2 }, Reply::Confirmed(true)).unwrap();
    nav.handle_action(Action::DeleteEpic { epic_id: 1 }, Reply::Confirmed(true)).unwrap();
    let state = nav.get_db().read_db().unwrap();
    assert!(state.epics.is_empty());
    assert!(state.stories.is_empty());
    assert_eq!(nav.get_page_count(), 1);
}

#[test]
fn mod_draw_page_should_not_throw_error() {
    let db = fresh_db();
    let page = Page::Home(HomePage {});

    assert_eq!(page.draw_page(&db).is_ok(), true);
}

#[test]
fn mod_handle_input_should_not_throw_error() {
    let db = fresh_db();
    let page = Page::Home(HomePage {});

    assert_eq!(page.handle_input(&db, "").is_ok(), true);
}

#[test]
fn mod_handle_input_should_return_the_correct_actions() {
    let mut db = fresh_db();
    let epic_id = db.create_epic(Epic::new("".to_string(), "".to_string())).unwrap();
    let page = Page::Home(HomePage {});

    let q = "q";
    let c = "c";
    let valid_epic_id = epic_id.to_string();
    let invalid_epic_id = "999";
    let junck_input = "junckinput";
    let junck_input_with_valid_prefix = "qjunckinput";
    let input_with_trailing_white_spaces = "q\n";

    assert_eq!(page.handle_input(&db, q).unwrap(), Some(Action::Exit));
    assert_eq!(page.handle_input(&db, c).unwrap(), Some(Action::CreateEpic));
    assert_eq!(
        page.handle_input(&db, &valid_epic_id).unwrap(),
        Some(Action::NavigateToEpicDetail { epic_id: 1 })
    );
    assert_eq!(page.handle_input(&db, invalid_epic_id).unwrap(), None);
    assert_eq!(page.handle_input(&db, junck_input).unwrap(), None);
    assert_eq!(page.handle_input(&db, junck_input_with_valid_prefix).unwrap(), None);
    assert_eq!(page.handle_input(&db, input_with_trailing_white_spaces).unwrap(), None);
}

#[test]
fn draw_page_should_throw_error_for_invalid_epic_id() {
    let invalid_epic_id = 999;
    let db = fresh_db();
    let page = Page::Epic(EpicDetail { epic_id: invalid_epic_id });

    assert_eq!(page.draw_page(&db).is_err(), true);
}

#[test]
fn epic_detail_draw_page_should_not_throw_error() {
    let mut db = fresh_db();
    let page = Page::Epic(EpicDetail {
        epic_id: db.create_epic(Epic::new("".to_string(), "".to_string())).unwrap(),
    });

    assert_eq!(page.draw_page(&db).is_ok(), true);
}

#[test]
fn epic_detail_handle_input_should_not_throw_error() {
    let mut db = fresh_db();
    let page = Page::Epic(EpicDetail {
        epic_id: db.create_epic(Epic::new("".to_string(), "".to_string())).unwrap(),
    });

    assert_eq!(page.handle_input(&db, "").is_ok(), true);
}

#[test]
fn epic_detail_handle_input_should_return_the_correct_actions() {
    let mut db = fresh_db();
    let epic_id = db.create_epic(Epic::new("".to_string(), "".to_string())).unwrap();
    let story_id = db.create_story(Story::new("".to_string(), "".to_string()), epic_id).unwrap();
    let page = Page::Epic(EpicDetail { epic_id });

    let p = "p";
    let u = "u";
    let d = "d";
    let c = "c";
    let invalid_input = "999";
    let junk_input: &str = "junkinput";
    let junk_input_with_valid_prefix = "pjunkinput";
    let input_with_trailing_white_spaces = "p\n";
    let epic_id = 1;

    assert_eq!(page.handle_input(&db, p).unwrap(), Some(Action::NavigateToPreviousPage));
    assert_eq!(page.handle_input(&db, u).unwrap(), Some(Action::UpdateEpicStatus { epic_id }));
    assert_eq!(page.handle_input(&db, d).unwrap(), Some(Action::DeleteEpic { epic_id }));
    assert_eq!(page.handle_input(&db, c).unwrap(), Some(Action::CreateStory { epic_id }));
    assert_eq!(
        page.handle_input(&db, &story_id.to_string()).unwrap(),
        Some(Action::NavigateToStoryDetail { epic_id, story_id: 2 })
    );
    assert_eq!(page.handle_input(&db, invalid_input).unwrap(), None);
    assert_eq!(page.handle_input(&db, junk_input).unwrap(), None);
    assert_eq!(page.handle_input(&db, junk_input_with_valid_prefix).unwrap(), None);
    assert_eq!(page.handle_input(&db, input_with_trailing_white_spaces).unwrap(), None);
}

#[test]
fn draw_page_should_throw_error_for_invalid_story_id() {
    let invalid_story_id = 999;
    let mut db = fresh_db();
    let page = Page::Story(StoryDetail {
        epic_id: db.create_epic(Epic::new("".to_string(), "".to_string())).unwrap(),
        story_id: invalid_story_id,
    });
    assert_eq!(page.draw_page(&db).is_err(), true);
}

#[test]
fn story_detail_input_and_render() {
    let mut db = fresh_db();
    let e = db.create_epic(Epic::new("E".to_string(), "D".to_string())).unwrap();
    let s = db.create_story(Story::new("Story".to_string(), "Desc".to_string()), e).unwrap();
    let page = Page::Story(StoryDetail { epic_id: e, story_id: s });
    assert_eq!(page.handle_input(&db, "p").unwrap(), Some(Action::NavigateToPreviousPage));
    assert_eq!(page.handle_input(&db, "u").unwrap(), Some(Action::UpdateStoryStatus { story_id: s }));
    assert_eq!(
        page.handle_input(&db, "d").unwrap(),
        Some(Action::DeleteStory { epic_id: e, story_id: s })
    );
    assert_eq!(page.handle_input(&db, "c").unwrap(), None);
    assert_eq!(page.handle_input(&db, "2").unwrap(), None);
    let text = page.draw_page(&db).unwrap();
    assert!(text.contains("2     | Story        | Desc                        | OPEN         "));
}

#[test]
fn home_page_lists_epics_sorted() {
    let mut db = fresh_db();
    db.create_epic(Epic::new("first".to_string(), "D".to_string())).unwrap();
    db.create_epic(Epic::new("second".to_string(), "D".to_string())).unwrap();
    db.update_epic_status(2, Status::Inprogress).unwrap();
    let text = Page::Home(HomePage {}).draw_page(&db).unwrap();
    let one = text.find("1           | first").unwrap();
    let two = text.find("2           | second                           | IN PROGRESS      ").unwrap();
    assert!(one < two);
}

#[test]
fn epic_page_lists_only_its_stories() {
    let mut db = fresh_db();
    let e1 = db.create_epic(Epic::new("E1".to_string(), "D".to_string())).unwrap();
    let e2 = db.create_epic(Epic::new("E2".to_string(), "D".to_string())).unwrap();
    let s = db.create_story(Story::new("other".to_string(), "D".to_string()), e2).unwrap();
    let page = Page::Epic(EpicDetail { epic_id: e1 });
    assert_eq!(page.handle_input(&db, &s.to_string()).unwrap(), None);
    assert!(!page.draw_page(&db).unwrap().contains("other"));
}

#[test]
fn status_labels() {
    assert_eq!(Status::Open.to_string(), "OPEN");
    assert_eq!(Status::Inprogress.to_string(), "IN PROGRESS");
    assert_eq!(Status::Resolved.to_string(), "RESOLVED");
    assert_eq!(Status::Closed.to_string(), "CLOSED");
}

#[test]
fn test_get_column_string() {
    let text1 = "";
    let text2 = "test";
    let text3 = "testme";
    let text4 = "testmetest";

    let width = 0;
    assert_eq!(get_column_string(text4, width), "".to_string());

    let width = 1;
    assert_eq!(get_column_string(text4, width), ".".to_string());

    let width = 2;
    assert_eq!(get_column_string(text4, width), "..".to_string());

    let width = 3;
    assert_eq!(get_column_string(text4, width), "...".to_string());

    let width = 4;
    assert_eq!(get_column_string(text4, width), "t...".to_string());

    let width = 6;
    assert_eq!(get_column_string(text1, width), "      ".to_string());
    assert_eq!(get_column_string(text2, width), "test  ".to_string());
    assert_eq!(get_column_string(text3, width), "testme".to_string());
    assert_eq!(get_column_string(text4, width), "tes...".to_string());
}

#[test]
fn prompt_answers() {
    assert!(confirms("Y"));
    assert!(!confirms("y"));
    assert!(!confirms("Yes"));
    assert!(!confirms(""));
    assert_eq!(status_choice("1"), Some(Status::Open));
    assert_eq!(status_choice("2"), Some(Status::Inprogress));
    assert_eq!(status_choice("3"), Some(Status::Resolved));
    assert_eq!(status_choice("4"), Some(Status::Closed));
    assert_eq!(status_choice("5"), None);
    assert_eq!(status_choice("11"), None);
}

#[test]
fn set_db_keeps_pages() {
    let mut nav = Navigator::new(fresh_db());
    nav.handle_action(Action::NavigateToEpicDetail { epic_id: 1 }, Reply::Nothing).unwrap();
    let mut other = fresh_db();
    other.create_epic(Epic::new("E".to_string(), "D".to_string())).unwrap();
    nav.set_db(other);
    assert_eq!(nav.get_page_count(), 2);
    assert!(nav.get_db().read_db().unwrap().epics.contains_key(&1));
}

#[test]
fn navigator_reports_exhausted_ids() {
    let mut state = jira_cli::models::DBState::empty();
    state.last_item_id = u32::MAX;
    let mut nav = Navigator::new(JiraDatabase::new(MockDB::from_state(state)));
    assert_eq!(
        nav.handle_action(Action::CreateEpic, Reply::NewEpic(Epic::new("E".to_string(), "D".to_string()))),
        Err(DbError::IdsExhausted)
    );
    assert_eq!(nav.get_db().read_db().unwrap().last_item_id, u32::MAX);
}

#[test]
fn home_input_number_forms() {
    let mut db = fresh_db();
    db.create_epic(Epic::new("E".to_string(), "D".to_string())).unwrap();
    let page = Page::Home(HomePage {});
    let go = Some(Action::NavigateToEpicDetail { epic_id: 1 });
    assert_eq!(page.handle_input(&db, "+1").unwrap(), go);
    assert_eq!(page.handle_input(&db, "001").unwrap(), go);
    assert_eq!(page.handle_input(&db, "-1").unwrap(), None);
    assert_eq!(page.handle_input(&db, " 1").unwrap(), None);
    assert_eq!(page.handle_input(&db, "4294967297").unwrap(), None);
}

#[test]
fn epic_page_lists_stories_ascending() {
    let mut db = fresh_db();
    let e = db.create_epic(Epic::new("Epic".to_string(), "About".to_string())).unwrap();
    for name in ["s2", "s3", "s4", "s5", "s6", "s7", "s8", "s9", "s10", "s11"] {
        db.create_story(Story::new(name.to_string(), "D".to_string()), e).unwrap();
    }
    let text = Page::Epic(EpicDetail { epic_id: e }).draw_page(&db).unwrap();
    assert!(text.contains("1     | Epic         | About                       | OPEN         "));
    let nine = text.find("9           | s9 ").unwrap();
    let ten = text.find("10          | s10 ").unwrap();
    let eleven = text.find("11          | s11 ").unwrap();
    assert!(nine < ten && ten < eleven);
}
