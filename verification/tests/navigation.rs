use typist::app::App;
use typist::dict::{Language, LoadError, WordLists};
use typist::event::{Event, KeyCode, KeyEvent, KeyEventKind, KeyModifiers};
use typist::screens::list::ListState;
use typist::screens::select_dict::SelectDictScreen;
use typist::screens::typing::TypingScreen;
use typist::screens::Screen;

fn lists() -> WordLists {
    WordLists::new(
        "one\ntwo\nthree\nfour\nfive\nsix\nseven\neight\nnine\nten\neleven\ntwelve\n".to_string(),
        "один\nдва\nтри\nчетыре\nпять\nшесть\nсемь\nвосемь\nдевять\nдесять\n".to_string(),
    )
}

fn english() -> Vec<String> {
    lists().get(Language::English).lines().map(|l| l.to_string()).collect()
}

fn russian() -> Vec<String> {
    lists().get(Language::Russian).lines().map(|l| l.to_string()).collect()
}

fn words_of(phrase: &str) -> Vec<String> {
    phrase.split(' ').map(|w| w.to_string()).collect()
}

#[test]
fn list_starts_at_the_first_row() {
    let state = ListState::new(4);
    assert_eq!(state.selected(), 0);
    assert_eq!(state.len(), 4);
}

#[test]
fn list_moves_down_and_wraps() {
    let mut state = ListState::new(3);
    state.select_next();
    assert_eq!(state.selected(), 1);
    state.select_next();
    assert_eq!(state.selected(), 2);
    state.select_next();
    assert_eq!(state.selected(), 0);
}

#[test]
fn list_moves_up_and_wraps() {
    let mut state = ListState::new(3);
    state.select_previous();
    assert_eq!(state.selected(), 2);
    state.select_previous();
    assert_eq!(state.selected(), 1);
    state.select_previous();
    assert_eq!(state.selected(), 0);
}

#[test]
fn list_of_one_row_stays() {
    let mut state = ListState::new(1);
    state.select_next();
    assert_eq!(state.selected(), 0);
    state.select_previous();
    assert_eq!(state.selected(), 0);
}

#[test]
fn empty_list_stays() {
    let mut state = ListState::new(0);
    state.select_next();
    assert_eq!(state.selected(), 0);
    state.select_previous();
    assert_eq!(state.selected(), 0);
    assert_eq!(state.len(), 0);
}

#[test]
fn key_builders() {
    assert_eq!(
        KeyEvent::press(KeyCode::Enter),
        KeyEvent { code: KeyCode::Enter, modifiers: KeyModifiers::Plain, kind: KeyEventKind::Press }
    );
    assert_eq!(
        KeyEvent::control('q'),
        KeyEvent { code: KeyCode::Char('q'), modifiers: KeyModifiers::Control, kind: KeyEventKind::Press }
    );
}

#[test]
fn action_lists() {
    assert_eq!(
        TypingScreen::actions(),
        vec![("<C-r>", "New random words"), ("<C-d>", "Select Dict"), ("<C-f>", "Difficulty")]
    );
    assert_eq!(SelectDictScreen::actions(), vec![("Esc", "Back"), ("▲ ▼", "Move"), ("Enter", "Select")]);
}

#[test]
fn app_starts_on_the_typing_screen_in_english() {
    let app = App::new(lists()).unwrap();
    assert_eq!(app.screen(), Screen::Typing);
    assert_eq!(app.dict().current(), Language::English);
    assert_eq!(app.dict().len(), 12);
    assert_eq!(app.select_dict_screen().selected(), 0);
    assert_eq!(app.typing_screen().current_pos(), 0);
    assert!(!app.typing_screen().wpm().is_started());
    for w in words_of(app.typing_screen().current_str()) {
        assert!(english().contains(&w));
    }
}

#[test]
fn app_fails_when_a_language_has_no_words() {
    let no_english = WordLists::new(String::new(), "кот".to_string());
    assert_eq!(App::new(no_english).err(), Some(LoadError::NoWords(Language::English)));
    let no_russian = WordLists::new("cat".to_string(), String::new());
    assert_eq!(App::new(no_russian).err(), Some(LoadError::NoWords(Language::Russian)));
}

#[test]
fn app_ignores_what_is_no_press() {
    let mut app = App::new(lists()).unwrap();
    let phrase = app.typing_screen().current_str().to_string();
    let first = phrase.chars().next().unwrap();
    let release = KeyEvent { code: KeyCode::Char(first), modifiers: KeyModifiers::Plain, kind: KeyEventKind::Other };
    assert_eq!(app.handle_key(release), Event::DoNothing);
    assert_eq!(app.typing_screen().current_pos(), 0);
    let quit_release =
        KeyEvent { code: KeyCode::Char('q'), modifiers: KeyModifiers::Control, kind: KeyEventKind::Other };
    assert_eq!(app.handle_key(quit_release), Event::DoNothing);
}

#[test]
fn app_quits_on_control_q_from_both_screens() {
    let mut app = App::new(lists()).unwrap();
    assert_eq!(app.handle_key(KeyEvent::control('q')), Event::Quit);
    assert!(!app.dispatch(Event::Quit));
    let event = app.handle_key(KeyEvent::control('d'));
    assert!(app.dispatch(event));
    assert_eq!(app.screen(), Screen::Dicts);
    assert_eq!(app.handle_key(KeyEvent::control('q')), Event::Quit);
}

#[test]
fn plain_q_is_typed_not_quit() {
    let mut app = App::new(lists()).unwrap();
    assert_eq!(app.handle_key(KeyEvent::press(KeyCode::Char('q'))), Event::DoNothing);
}

#[test]
fn app_does_nothing_goes_on() {
    let mut app = App::new(lists()).unwrap();
    let phrase = app.typing_screen().current_str().to_string();
    assert!(app.dispatch(Event::DoNothing));
    assert_eq!(app.screen(), Screen::Typing);
    assert_eq!(app.typing_screen().current_str(), phrase);
}

#[test]
fn app_routes_typing_keys_to_the_typing_screen() {
    let mut app = App::new(lists()).unwrap();
    let phrase = app.typing_screen().current_str().to_string();
    let first = phrase.chars().next().unwrap();
    assert_eq!(app.handle_key(KeyEvent::press(KeyCode::Char(first))), Event::DoNothing);
    assert_eq!(app.typing_screen().current_pos(), 1);
    assert_eq!(app.typing_screen().user_string(), &vec![first]);
    assert_eq!(app.select_dict_screen().selected(), 0);
}

#[test]
fn app_switches_to_the_dictionary_list_and_back() {
    let mut app = App::new(lists()).unwrap();
    let next = app.typing_screen().next_str().to_string();
    let event = app.handle_key(KeyEvent::control('d'));
    assert_eq!(event, Event::Switch(Screen::Dicts));
    assert!(app.dispatch(event));
    assert_eq!(app.screen(), Screen::Dicts);
    assert_eq!(app.typing_screen().next_str(), next);
    let event = app.handle_key(KeyEvent::press(KeyCode::Esc));
    assert_eq!(event, Event::Switch(Screen::Typing));
    assert!(app.dispatch(event));
    assert_eq!(app.screen(), Screen::Typing);
    // Coming back to the typing screen brings up the next phrase.
    assert_eq!(app.typing_screen().current_str(), next);
    assert_eq!(app.dict().len(), 12);
}

#[test]
fn dictionary_list_keys_do_not_reach_the_typing_screen() {
    let mut app = App::new(lists()).unwrap();
    let phrase = app.typing_screen().current_str().to_string();
    let first = phrase.chars().next().unwrap();
    let event = app.handle_key(KeyEvent::control('d'));
    app.dispatch(event);
    assert_eq!(app.handle_key(KeyEvent::press(KeyCode::Char(first))), Event::DoNothing);
    assert_eq!(app.typing_screen().current_pos(), 0);
    assert_eq!(app.typing_screen().current_str(), phrase);
}

#[test]
fn dictionary_list_wraps_both_ways() {
    let mut app = App::new(lists()).unwrap();
    let event = app.handle_key(KeyEvent::control('d'));
    app.dispatch(event);
    assert_eq!(app.handle_key(KeyEvent::press(KeyCode::Down)), Event::DoNothing);
    assert_eq!(app.select_dict_screen().selected(), 1);
    app.handle_key(KeyEvent::press(KeyCode::Down));
    assert_eq!(app.select_dict_screen().selected(), 0);
    app.handle_key(KeyEvent::press(KeyCode::Up));
    assert_eq!(app.select_dict_screen().selected(), 1);
    app.handle_key(KeyEvent::press(KeyCode::Up));
    assert_eq!(app.select_dict_screen().selected(), 0);
}

#[test]
fn enter_loads_the_highlighted_language() {
    let mut app = App::new(lists()).unwrap();
    let event = app.handle_key(KeyEvent::control('d'));
    app.dispatch(event);
    app.handle_key(KeyEvent::press(KeyCode::Down));
    let event = app.handle_key(KeyEvent::press(KeyCode::Enter));
    assert_eq!(event, Event::Switch(Screen::Typing));
    assert_eq!(app.dict().len(), 10);
    assert_eq!(app.dict().current(), Language::English);
    app.dispatch(event);
    assert_eq!(app.screen(), Screen::Typing);
    for w in words_of(app.typing_screen().next_str()) {
        assert!(russian().contains(&w), "{}", w);
    }
}

#[test]
fn select_screen_lists_every_language() {
    let screen = SelectDictScreen::new();
    assert_eq!(screen.languages(), &vec![Language::English, Language::Russian]);
    assert_eq!(screen.selected(), 0);
}

#[test]
fn bottom_bar_starts_with_quit_and_follows_the_screen() {
    let mut app = App::new(lists()).unwrap();
    assert_eq!(
        app.actions(),
        vec![("<C-q>", "Quit"), ("<C-r>", "New random words"), ("<C-d>", "Select Dict"), ("<C-f>", "Difficulty")]
    );
    let event = app.handle_key(KeyEvent::control('d'));
    app.dispatch(event);
    assert_eq!(
        app.actions(),
        vec![("<C-q>", "Quit"), ("Esc", "Back"), ("▲ ▼", "Move"), ("Enter", "Select")]
    );
}
