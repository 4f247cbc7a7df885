//! The list of dictionaries: one row for each language.

use vstd::prelude::*;
use crate::dict::{Dictionary, Language, WordLists};
use crate::event::{Event, KeyCode, KeyEvent};
use crate::screens::list::{ListState, ListView};
use crate::screens::Screen;
use crate::text::lines_of;

verus! {

/// The highlighted row of the dictionary list seen as a list of
/// `Language::every().len()` rows.
pub open spec fn language_list(highlighted: nat) -> ListView {
    ListView { selected: highlighted, len: Language::every().len() }
}

/// `after` is the dictionary `before` with the words of `lang` loaded from
/// `lists`. The language it was made for stays.
pub open spec fn reloaded(before: Dictionary, after: Dictionary, lang: Language, lists: WordLists) -> bool {
    &&& after.words() == lines_of(lists.text(lang))
    &&& after.language() == before.language()
    &&& after.wf()
}

/// What a key does on the dictionary list, from the highlighted row `pre` to
/// the row `post`. The arrows move the highlight, wrapping round at both
/// ends. Escape asks for the typing screen. Enter loads the highlighted
/// language and asks for the typing screen. Any other key does nothing.
pub open spec fn selection_handled(
    pre: nat,
    key: KeyEvent,
    post: nat,
    event: Event,
    before: Dictionary,
    after: Dictionary,
    lists: WordLists,
) -> bool {
    match key.code {
        KeyCode::Up => {
            &&& event == Event::DoNothing
            &&& post == language_list(pre).previous().selected
            &&& after == before
        },
        KeyCode::Down => {
            &&& event == Event::DoNothing
            &&& post == language_list(pre).next().selected
            &&& after == before
        },
        KeyCode::Esc => event == Event::Switch(Screen::Typing) && post == pre && after == before,
        KeyCode::Enter => {
            &&& event == Event::Switch(Screen::Typing)
            &&& post == pre
            &&& reloaded(before, after, Language::at_row(pre), lists)
        },
        _ => event == Event::DoNothing && post == pre && after == before,
    }
}

/// The screen that lists the dictionaries.
#[derive(Debug)]
pub struct SelectDictScreen {
    languages: Vec<Language>,
    state: ListState,
}

impl SelectDictScreen {
    /// The highlighted row.
    pub closed spec fn highlighted(&self) -> nat {
        self.state@.selected
    }

    /// The screen lists every language and highlights one of them.
    pub closed spec fn wf(&self) -> bool {
        &&& self.languages@ == Language::every()
        &&& self.state@.len == self.languages@.len()
        &&& self.state@.selected < self.languages@.len()
    }

    /// The list of every language with the first one highlighted.
    pub fn new() -> (screen: SelectDictScreen)
        ensures
            screen.wf(),
            screen.highlighted() == 0,
    {
        let languages = Language::all();
        let state = ListState::new(languages.len());
        SelectDictScreen { languages, state }
    }

    /// Handles one key. Loading a language takes its word list from `lists`,
    /// which must hold words for every language.
    pub fn handle_key(&mut self, key: KeyEvent, dict: &mut Dictionary, lists: &WordLists) -> (event:
        Event)
        requires
            old(self).wf(),
            lists.complete(),
        ensures
            final(self).wf(),
            selection_handled(
                old(self).highlighted(),
                key,
                final(self).highlighted(),
                event,
                *old(dict),
                *final(dict),
                *lists,
            ),
    {
        match key.code {
            KeyCode::Up => {
                self.state.select_previous();
            },
            KeyCode::Down => {
                self.state.select_next();
            },
            KeyCode::Esc => {
                return Event::Switch(Screen::Typing);
            },
            KeyCode::Enter => {
                self.change_dict(dict, lists);
                return Event::Switch(Screen::Typing);
            },
            _ => {},
        }
        Event::DoNothing
    }

    /// Loads the highlighted language into `dict`.
    fn change_dict(&self, dict: &mut Dictionary, lists: &WordLists)
        requires
            self.wf(),
            lists.complete(),
        ensures
            reloaded(*old(dict), *final(dict), Language::at_row(self.highlighted()), *lists),
    {
        let row = self.state.selected();
        let lang = if row < self.languages.len() {
            self.languages[row]
        } else {
            Language::English
        };
        assert(lists.text(lang).len() > 0);
        let _ = dict.load(lang, lists);
    }

    /// The languages of the list, in its order.
    pub fn languages(&self) -> (languages: &Vec<Language>)
        requires
            self.wf(),
        ensures
            languages@ == Language::every(),
    {
        &self.languages
    }

    /// The highlighted row.
    pub fn selected(&self) -> (row: usize)
        ensures
            row == self.highlighted(),
    {
        self.state.selected()
    }

    /// The key bindings of this screen: each key with what it does.
    pub open spec fn actions_spec() -> Seq<(&'static str, &'static str)> {
        seq![("Esc", "Back"), ("▲ ▼", "Move"), ("Enter", "Select")]
    }

    /// The key bindings of this screen: each key with what it does.
    pub fn actions() -> (list: Vec<(&'static str, &'static str)>)
        ensures
            list@ == Self::actions_spec(),
    {
        let mut list: Vec<(&'static str, &'static str)> = Vec::new();
        list.push(("Esc", "Back"));
        list.push(("▲ ▼", "Move"));
        list.push(("Enter", "Select"));
        list
    }
}

} // verus!
