use nodash::browser::{
    is_visible, query_hits, visible_projects, Action, Browser, Key, Mode,
};
use nodash::project::{Project, Timestamp};

fn project(name: &str, path: &str) -> Project {
    Project { name: name.to_string(), path: path.to_string(), last_opened: None, node_version: None }
}

fn registry() -> Vec<Project> {
    vec![
        project("Website", "/home/me/work/site"),
        project("api-server", "/srv/API"),
        project("notes", "/home/me/notes"),
        Project {
            name: "Ünïcode".to_string(),
            path: "/data/ÉCOLE".to_string(),
            last_opened: Some(Timestamp { secs: 1, nanos: 0 }),
            node_version: Some("18".to_string()),
        },
    ]
}

fn chars(s: &str) -> Vec<char> {
    s.chars().collect()
}

fn state(mode: Mode, query: &str, selected: usize) -> Browser {
    Browser { mode, query: chars(query), selected }
}

fn snapshot(b: &Browser) -> (Mode, String, usize) {
    (b.mode, b.query.iter().collect(), b.selected)
}

#[test]
fn new_browser_browses_from_the_top() {
    let b = Browser::new();
    assert_eq!(snapshot(&b), (Mode::Browse, String::new(), 0));
}

#[test]
fn empty_query_shows_everything() {
    let list = registry();
    assert_eq!(visible_projects(&list, &chars("")), vec![0, 1, 2, 3]);
    assert_eq!(visible_projects(&Vec::new(), &chars("")), Vec::<usize>::new());
}

#[test]
fn query_matches_names_without_regard_to_case() {
    let list = registry();
    assert_eq!(visible_projects(&list, &chars("web")), vec![0]);
    assert_eq!(visible_projects(&list, &chars("WEB")), vec![0]);
    assert_eq!(visible_projects(&list, &chars("Api-S")), vec![1]);
}

#[test]
fn query_matches_paths_without_regard_to_case() {
    let list = registry();
    assert_eq!(visible_projects(&list, &chars("/srv/api")), vec![1]);
    assert_eq!(visible_projects(&list, &chars("HOME/ME")), vec![0, 2]);
    assert_eq!(visible_projects(&list, &chars("école")), vec![3]);
}

#[test]
fn query_matching_name_or_path_keeps_registry_order() {
    let list = registry();
    assert_eq!(visible_projects(&list, &chars("e")), vec![0, 1, 2, 3]);
    assert_eq!(visible_projects(&list, &chars("s")), vec![0, 1, 2]);
    assert_eq!(visible_projects(&list, &chars("no")), vec![2]);
}

#[test]
fn query_matching_nothing_shows_nothing_and_changes_nothing() {
    let list = registry();
    assert_eq!(visible_projects(&list, &chars("zzz")), Vec::<usize>::new());
    assert_eq!(list.len(), 4);
    assert_eq!(list[0].name, "Website");
    assert_eq!(list[3].path, "/data/ÉCOLE");
    assert_eq!(visible_projects(&list, &chars("")), vec![0, 1, 2, 3]);
}

#[test]
fn query_is_matched_as_a_whole() {
    let list = registry();
    assert_eq!(visible_projects(&list, &chars("web site")), Vec::<usize>::new());
    assert_eq!(visible_projects(&list, &chars("site")), vec![0]);
    assert_eq!(visible_projects(&list, &chars(" ")), Vec::<usize>::new());
}

#[test]
fn is_visible_agrees_with_std_lowercase_contains() {
    let list = registry();
    for q in ["", "a", "A", "me", "ME/", "ï", "Ü", "É", "server", "x", "/", "18"] {
        for p in &list {
            let expected = q.is_empty()
                || p.name.to_lowercase().contains(&q.to_lowercase())
                || p.path.to_lowercase().contains(&q.to_lowercase());
            assert_eq!(is_visible(p, &chars(q)), expected, "for {:?} in {:?}", q, p.name);
        }
    }
}

#[test]
fn query_hits_looks_in_name_and_path() {
    assert!(query_hits(&chars("eb"), &chars("website"), &chars("/x")));
    assert!(query_hits(&chars("/x"), &chars("website"), &chars("/x")));
    assert!(query_hits(&chars(""), &chars(""), &chars("")));
    assert!(!query_hits(&chars("EB"), &chars("website"), &chars("/x")));
    assert!(!query_hits(&chars("websites"), &chars("website"), &chars("/x")));
}

#[test]
fn clamp_pulls_the_selection_back_to_the_last_row() {
    let mut b = state(Mode::Search, "x", 7);
    b.clamp_selection(3);
    assert_eq!(snapshot(&b), (Mode::Search, "x".to_string(), 2));
    b.clamp_selection(10);
    assert_eq!(b.selected, 2);
    b.clamp_selection(1);
    assert_eq!(b.selected, 0);
}

#[test]
fn clamp_leaves_the_selection_when_nothing_is_visible() {
    let mut b = state(Mode::Browse, "", 5);
    b.clamp_selection(0);
    assert_eq!(b.selected, 5);
}

#[test]
fn slash_starts_a_search() {
    let mut b = state(Mode::Browse, "old", 2);
    let action = b.handle_key(&vec![0, 1, 2], Key::Char('/'));
    assert_eq!(action, Action::Stay);
    assert_eq!(snapshot(&b), (Mode::Search, String::new(), 0));
}

#[test]
fn escape_ends_a_search() {
    let mut b = state(Mode::Search, "web", 1);
    let action = b.handle_key(&vec![0, 1], Key::Esc);
    assert_eq!(action, Action::Stay);
    assert_eq!(snapshot(&b), (Mode::Browse, String::new(), 0));
}

#[test]
fn escape_does_nothing_while_browsing() {
    let mut b = state(Mode::Browse, "", 1);
    let action = b.handle_key(&vec![0, 1], Key::Esc);
    assert_eq!(action, Action::Stay);
    assert_eq!(snapshot(&b), (Mode::Browse, String::new(), 1));
}

#[test]
fn q_quits_only_while_browsing() {
    let mut b = state(Mode::Browse, "", 1);
    assert_eq!(b.handle_key(&vec![0, 1], Key::Char('q')), Action::Quit);
    assert_eq!(snapshot(&b), (Mode::Browse, String::new(), 1));
    let mut b = state(Mode::Search, "a", 1);
    assert_eq!(b.handle_key(&vec![0, 1], Key::Char('q')), Action::Stay);
    assert_eq!(snapshot(&b), (Mode::Search, "aq".to_string(), 0));
}

#[test]
fn a_opens_the_dialog_while_browsing() {
    let mut b = state(Mode::Browse, "", 2);
    assert_eq!(b.handle_key(&vec![0, 1, 2], Key::Char('a')), Action::PromptAdd);
    assert_eq!(snapshot(&b), (Mode::AddProject, String::new(), 2));
    assert_eq!(b.handle_key(&vec![0, 1, 2], Key::Char('q')), Action::Stay);
    assert_eq!(b.handle_key(&vec![0, 1, 2], Key::Enter), Action::Stay);
    assert_eq!(b.handle_key(&vec![0, 1, 2], Key::Down), Action::Stay);
    assert_eq!(snapshot(&b), (Mode::AddProject, String::new(), 2));
    b.finish_add();
    assert_eq!(snapshot(&b), (Mode::Browse, String::new(), 0));
}

#[test]
fn other_characters_do_nothing_while_browsing() {
    let mut b = state(Mode::Browse, "", 1);
    assert_eq!(b.handle_key(&vec![0, 1], Key::Char('x')), Action::Stay);
    assert_eq!(b.handle_key(&vec![0, 1], Key::Char('Q')), Action::Stay);
    assert_eq!(b.handle_key(&vec![0, 1], Key::Backspace), Action::Stay);
    assert_eq!(b.handle_key(&vec![0, 1], Key::Other), Action::Stay);
    assert_eq!(snapshot(&b), (Mode::Browse, String::new(), 1));
}

#[test]
fn typing_extends_the_query_and_resets_the_selection() {
    let mut b = state(Mode::Search, "", 0);
    for c in "We/a".chars() {
        b.selected = 3;
        assert_eq!(b.handle_key(&vec![0, 1, 2, 3], Key::Char(c)), Action::Stay);
        assert_eq!(b.selected, 0);
    }
    assert_eq!(snapshot(&b), (Mode::Search, "We/a".to_string(), 0));
}

#[test]
fn backspace_shortens_the_query_and_resets_the_selection() {
    let mut b = state(Mode::Search, "ab", 1);
    assert_eq!(b.handle_key(&vec![0, 1], Key::Backspace), Action::Stay);
    assert_eq!(snapshot(&b), (Mode::Search, "a".to_string(), 0));
    b.handle_key(&vec![0, 1], Key::Backspace);
    assert_eq!(snapshot(&b), (Mode::Search, String::new(), 0));
    b.selected = 1;
    b.handle_key(&vec![0, 1], Key::Backspace);
    assert_eq!(snapshot(&b), (Mode::Search, String::new(), 0));
}

#[test]
fn down_stops_at_the_last_row() {
    for mode in [Mode::Browse, Mode::Search] {
        let mut b = state(mode, "", 0);
        let visible = vec![4, 6, 9];
        assert_eq!(b.handle_key(&visible, Key::Down), Action::Stay);
        assert_eq!(b.selected, 1);
        b.handle_key(&visible, Key::Down);
        assert_eq!(b.selected, 2);
        b.handle_key(&visible, Key::Down);
        assert_eq!(b.selected, 2);
        b.selected = usize::MAX;
        b.handle_key(&visible, Key::Down);
        assert_eq!(b.selected, 2);
    }
}

#[test]
fn down_does_nothing_in_an_empty_list() {
    let mut b = state(Mode::Browse, "", 0);
    b.handle_key(&Vec::new(), Key::Down);
    assert_eq!(b.selected, 0);
    b.selected = 4;
    b.handle_key(&Vec::new(), Key::Down);
    assert_eq!(b.selected, 4);
}

#[test]
fn up_stops_at_the_first_row() {
    for mode in [Mode::Browse, Mode::Search] {
        let mut b = state(mode, "", 2);
        let visible = vec![4, 6, 9];
        assert_eq!(b.handle_key(&visible, Key::Up), Action::Stay);
        assert_eq!(b.selected, 1);
        b.handle_key(&visible, Key::Up);
        assert_eq!(b.selected, 0);
        b.handle_key(&visible, Key::Up);
        assert_eq!(b.selected, 0);
    }
}

#[test]
fn enter_opens_the_selected_visible_project() {
    for mode in [Mode::Browse, Mode::Search] {
        let mut b = state(mode, "x", 1);
        let action = b.handle_key(&vec![4, 6, 9], Key::Enter);
        assert_eq!(action, Action::Open(6));
        assert_eq!(snapshot(&b), (mode, "x".to_string(), 0));
    }
}

#[test]
fn enter_does_nothing_without_a_selected_row() {
    for mode in [Mode::Browse, Mode::Search] {
        let mut b = state(mode, "x", 0);
        assert_eq!(b.handle_key(&Vec::new(), Key::Enter), Action::Stay);
        assert_eq!(snapshot(&b), (mode, "x".to_string(), 0));
        let mut b = state(mode, "x", 3);
        assert_eq!(b.handle_key(&vec![4, 6, 9], Key::Enter), Action::Stay);
        assert_eq!(snapshot(&b), (mode, "x".to_string(), 3));
    }
}

#[test]
fn a_search_session_narrows_and_opens() {
    let list = registry();
    let mut b = Browser::new();
    let visible = visible_projects(&list, &b.query);
    b.clamp_selection(visible.len());
    b.handle_key(&visible, Key::Down);
    b.handle_key(&visible, Key::Char('/'));
    for c in "NOT".chars() {
        let visible = visible_projects(&list, &b.query);
        b.clamp_selection(visible.len());
        b.handle_key(&visible, Key::Char(c));
    }
    let visible = visible_projects(&list, &b.query);
    assert_eq!(visible, vec![2]);
    b.clamp_selection(visible.len());
    assert_eq!(b.handle_key(&visible, Key::Enter), Action::Open(2));
    b.handle_key(&visible, Key::Esc);
    let visible = visible_projects(&list, &b.query);
    assert_eq!(visible, vec![0, 1, 2, 3]);
}

#[test]
fn title_of_an_empty_registry() {
    let b = state(Mode::Browse, "", 0);
    assert_eq!(b.list_title(0, 0), " Projects (No projects yet) ");
    let b = state(Mode::Search, "x", 0);
    assert_eq!(b.list_title(0, 0), " Projects (No projects yet) ");
}

#[test]
fn title_counts_while_a_query_narrows() {
    let b = state(Mode::Search, "web", 0);
    assert_eq!(b.list_title(12, 3), " Projects (3/12) ");
    assert_eq!(b.list_title(4, 0), " Projects (0/4) ");
    assert_eq!(b.list_title(1000, 100), " Projects (100/1000) ");
}

#[test]
fn title_is_plain_otherwise() {
    let b = state(Mode::Browse, "", 0);
    assert_eq!(b.list_title(4, 4), " Projects ");
    let b = state(Mode::Search, "", 0);
    assert_eq!(b.list_title(4, 4), " Projects ");
    let b = state(Mode::Browse, "web", 0);
    assert_eq!(b.list_title(4, 1), " Projects ");
    let b = state(Mode::AddProject, "web", 0);
    assert_eq!(b.list_title(4, 1), " Projects ");
}
