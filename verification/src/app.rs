//! The application: which screen is shown, and where each key goes.

use vstd::prelude::*;
use crate::dict::{Dictionary, Language, LoadError, WordLists};
use crate::event::{Event, KeyCode, KeyEvent, KeyEventKind, KeyModifiers};
use crate::screens::select_dict::{selection_handled, SelectDictScreen};
use crate::screens::typing::{begun, handled, randomized, SessionState, TypingScreen};
use crate::screens::Screen;
use crate::text::lines_of;

verus! {

/// What the application holds.
pub struct AppState {
    /// The screen that is shown.
    pub screen: Screen,
    /// The word lists of all languages.
    pub lists: WordLists,
    /// The dictionary that phrases are drawn from.
    pub dict: Dictionary,
    /// The typing session.
    pub typing: SessionState,
    /// The highlighted row of the dictionary list.
    pub language_row: nat,
}

/// `post` and `event` are what a key does to the application `pre`. Only a
/// key press counts. Control with `q` asks to quit. Any other key goes to the
/// screen that is shown.
pub open spec fn key_handled(pre: AppState, key: KeyEvent, post: AppState, event: Event) -> bool {
    if key.kind != KeyEventKind::Press {
        event == Event::DoNothing && post == pre
    } else if key.is_control('q') {
        event == Event::Quit && post == pre
    } else {
        match pre.screen {
            Screen::Typing => {
                &&& handled(pre.typing, key, post.typing, event, pre.dict.words())
                &&& post == AppState { typing: post.typing, ..pre }
            },
            Screen::Dicts => {
                &&& selection_handled(
                    pre.language_row,
                    key,
                    post.language_row,
                    event,
                    pre.dict,
                    post.dict,
                    pre.lists,
                )
                &&& post == AppState { language_row: post.language_row, dict: post.dict, ..pre }
            },
        }
    }
}

/// `post` is the application `pre` after it has acted on `event`, and
/// `running` says whether it goes on. A switch shows the screen asked for,
/// and brings up new phrases where that is the typing screen.
pub open spec fn dispatched(pre: AppState, event: Event, post: AppState, running: bool) -> bool {
    match event {
        Event::DoNothing => running && post == pre,
        Event::Quit => !running && post == pre,
        Event::Switch(to) => {
            &&& running
            &&& post == AppState { screen: to, typing: post.typing, ..pre }
            &&& if to == Screen::Typing {
                randomized(pre.typing, post.typing, pre.dict.words())
            } else {
                post.typing == pre.typing
            }
        },
    }
}

/// The application.
#[derive(Debug)]
pub struct App {
    screen: Screen,
    lists: WordLists,
    dict: Dictionary,
    typing_screen: TypingScreen,
    select_dict_screen: SelectDictScreen,
}

impl View for App {
    type V = AppState;

    closed spec fn view(&self) -> AppState {
        AppState {
            screen: self.screen,
            lists: self.lists,
            dict: self.dict,
            typing: self.typing_screen@,
            language_row: self.select_dict_screen.highlighted(),
        }
    }
}

impl App {
    /// Every language has words, the dictionary has words, and both screens
    /// are well formed.
    pub closed spec fn wf(&self) -> bool {
        &&& self.lists.complete()
        &&& self.dict.wf()
        &&& self.typing_screen.wf()
        &&& self.select_dict_screen.wf()
    }

    /// What follows from `wf` for the state of the application.
    pub proof fn lemma_wf(&self)
        requires
            self.wf(),
        ensures
            self@.lists.complete(),
            self@.dict.wf(),
            self@.typing.inv(),
    {
        self.typing_screen.lemma_wf_inv();
    }

    /// The application on the typing screen, with the English dictionary.
    /// Fails when a language has no words, and names the first such language.
    pub fn new(lists: WordLists) -> (made: Result<App, LoadError>)
        ensures
            match made {
                Ok(app) => {
                    &&& lists.complete()
                    &&& app.wf()
                    &&& app@.screen == Screen::Typing
                    &&& app@.lists == lists
                    &&& app@.dict.language() == Language::English
                    &&& app@.dict.words() == lines_of(lists.text(Language::English))
                    &&& app@.language_row == 0
                    &&& begun(app@.typing, app@.dict.words())
                },
                Err(e) => lists.first_empty() == Some(e->NoWords_0),
            },
    {
        match lists.check() {
            Err(e) => Err(e),
            Ok(_) => {
                match Dictionary::new(Language::English, &lists) {
                    Err(e) => Err(e),
                    Ok(dict) => {
                        let typing_screen = TypingScreen::new(&dict);
                        let select_dict_screen = SelectDictScreen::new();
                        Ok(
                            App {
                                screen: Screen::Typing,
                                lists,
                                dict,
                                typing_screen,
                                select_dict_screen,
                            },
                        )
                    },
                }
            },
        }
    }

    /// Takes one key: ignores what is no press, asks to quit on control with
    /// `q`, and hands any other key to the screen that is shown.
    pub fn handle_key(&mut self, key: KeyEvent) -> (event: Event)
        requires
            old(self).wf(),
            old(self)@.typing.counter.chars < u64::MAX,
        ensures
            final(self).wf(),
            key_handled(old(self)@, key, final(self)@, event),
    {
        if key.kind != KeyEventKind::Press {
            return Event::DoNothing;
        }
        if key.modifiers == KeyModifiers::Control && key.code == KeyCode::Char('q') {
            return Event::Quit;
        }
        match self.screen {
            Screen::Typing => self.typing_screen.handle_key(key, &self.dict),
            Screen::Dicts => self.select_dict_screen.handle_key(key, &mut self.dict, &self.lists),
        }
    }

    /// Acts on what a key asked for, and says whether the application goes
    /// on.
    pub fn dispatch(&mut self, event: Event) -> (running: bool)
        requires
            old(self).wf(),
        ensures
            final(self).wf(),
            dispatched(old(self)@, event, final(self)@, running),
    {
        match event {
            Event::DoNothing => true,
            Event::Quit => false,
            Event::Switch(to) => {
                if to == Screen::Typing {
                    self.typing_screen.randomize_input(&self.dict);
                }
                self.screen = to;
                true
            },
        }
    }

    /// The key bindings for the bar at the bottom: the one that quits, then
    /// those of the screen that is shown.
    pub fn actions(&self) -> (list: Vec<(&'static str, &'static str)>)
        ensures
            list@.len() == 4,
            list@[0].0@ == "<C-q>"@ && list@[0].1@ == "Quit"@,
            list@.skip(1) == match self@.screen {
                Screen::Typing => TypingScreen::actions_spec(),
                Screen::Dicts => SelectDictScreen::actions_spec(),
            },
    {
        let mut list: Vec<(&'static str, &'static str)> = Vec::new();
        list.push(("<C-q>", "Quit"));
        let mut more = match self.screen {
            Screen::Typing => TypingScreen::actions(),
            Screen::Dicts => SelectDictScreen::actions(),
        };
        let ghost added = more@;
        list.append(&mut more);
        assert(list@.skip(1) == added);
        list
    }

    /// The screen that is shown.
    pub fn screen(&self) -> (screen: Screen)
        ensures
            screen == self@.screen,
    {
        self.screen
    }

    /// The typing screen.
    pub fn typing_screen(&self) -> (screen: &TypingScreen)
        ensures
            screen@ == self@.typing,
            self.wf() ==> screen.wf(),
    {
        &self.typing_screen
    }

    /// The screen that lists the dictionaries.
    pub fn select_dict_screen(&self) -> (screen: &SelectDictScreen)
        ensures
            screen.highlighted() == self@.language_row,
            self.wf() ==> screen.wf(),
    {
        &self.select_dict_screen
    }

    /// The dictionary that phrases are drawn from.
    pub fn dict(&self) -> (dict: &Dictionary)
        ensures
            *dict == self@.dict,
    {
        &self.dict
    }
}

} // verus!
