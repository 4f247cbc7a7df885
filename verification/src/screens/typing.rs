//! The typing exercise: the phrase on screen, what has been typed of it, and
//! the keys that drive it.

use vstd::prelude::*;
use crate::dict::{eligible, lemma_draw_avoids_excluded, Dictionary};
use crate::event::{Event, KeyCode, KeyEvent, KeyModifiers};
use crate::sample::drawn;
use crate::screens::list::{ListState, ListView};
use crate::screens::Screen;
use crate::text::{join_words, joined};
use crate::typer::{classified, classify, InputResult, InputResultType};
use crate::wpm::{CounterState, WpmCounter};

verus! {

/// The number of words in a phrase.
pub const PHRASE_WORDS: usize = 5;

/// The classification of the last key.
#[derive(Clone, Copy, Debug, PartialEq, Eq, Structural)]
pub enum UserInput {
    /// No character was typed, or the one that was has been accepted.
    Pass,
    /// The character typed was not the expected one.
    Miss(char),
    /// The character typed was the expected one and waits to be accepted.
    Hit(char),
}

impl UserInput {
    /// What a classification stands for as the last input.
    pub open spec fn of(result: InputResult) -> UserInput {
        match result.typ {
            InputResultType::Hit => UserInput::Hit(result.c),
            InputResultType::Miss => UserInput::Miss(result.c),
        }
    }

    /// The input without a hit that waits: the hit is dropped, a miss stays.
    pub open spec fn without_hit(self) -> UserInput {
        match self {
            UserInput::Hit(_) => UserInput::Pass,
            other => other,
        }
    }

    pub fn from_result(result: InputResult) -> (input: UserInput)
        ensures
            input == UserInput::of(result),
    {
        match result.typ {
            InputResultType::Hit => UserInput::Hit(result.c),
            InputResultType::Miss => UserInput::Miss(result.c),
        }
    }
}

impl Default for UserInput {
    fn default() -> (input: UserInput)
        ensures
            input == UserInput::Pass,
    {
        UserInput::Pass
    }
}

/// How large a part of the dictionary phrases are drawn from.
#[derive(Debug, Clone, Copy, PartialEq, Eq, Structural)]
pub enum Difficulty {
    Easy,
    Medium,
    Hard,
    VeryHard,
}

impl Difficulty {
    /// The name of the level as shown in the difficulty picker.
    pub open spec fn name(self) -> Seq<char> {
        match self {
            Difficulty::Easy => "Easy"@,
            Difficulty::Medium => "Medium"@,
            Difficulty::Hard => "Hard"@,
            Difficulty::VeryHard => "Very hard"@,
        }
    }

    /// The number of leading words of the dictionary that are drawn from.
    pub open spec fn pool_size(self) -> nat {
        match self {
            Difficulty::Easy => 1_000,
            Difficulty::Medium => 3_000,
            Difficulty::Hard => 5_000,
            Difficulty::VeryHard => 10_000,
        }
    }

    /// Every level, in the order of the difficulty picker.
    pub open spec fn every() -> Seq<Difficulty> {
        seq![Difficulty::Easy, Difficulty::Medium, Difficulty::Hard, Difficulty::VeryHard]
    }

    /// The level in row `row` of the difficulty picker, and the easiest one
    /// where there is no such row.
    pub open spec fn at_row(row: nat) -> Difficulty {
        if row < Self::every().len() {
            Self::every()[row as int]
        } else {
            Difficulty::Easy
        }
    }

    pub fn as_str(&self) -> (name: &'static str)
        ensures
            name@ == self.name(),
    {
        match self {
            Difficulty::Easy => "Easy",
            Difficulty::Medium => "Medium",
            Difficulty::Hard => "Hard",
            Difficulty::VeryHard => "Very hard",
        }
    }

    pub fn batch_size(&self) -> (size: usize)
        ensures
            size == self.pool_size(),
    {
        match self {
            Difficulty::Easy => 1_000,
            Difficulty::Medium => 3_000,
            Difficulty::Hard => 5_000,
            Difficulty::VeryHard => 10_000,
        }
    }

    /// Every level, in the order of the difficulty picker.
    pub fn all() -> (levels: Vec<Difficulty>)
        ensures
            levels@ == Self::every(),
    {
        let mut levels: Vec<Difficulty> = Vec::new();
        levels.push(Difficulty::Easy);
        levels.push(Difficulty::Medium);
        levels.push(Difficulty::Hard);
        levels.push(Difficulty::VeryHard);
        levels
    }
}

impl Default for Difficulty {
    fn default() -> (level: Difficulty)
        ensures
            level == Difficulty::Easy,
    {
        Difficulty::Easy
    }
}

/// No word of `a` equals a word of `b`.
pub open spec fn share_no_word(a: Seq<Seq<char>>, b: Seq<Seq<char>>) -> bool {
    forall|i: int, j: int| 0 <= i < a.len() && 0 <= j < b.len() ==> #[trigger] a[i] != #[trigger] b[j]
}

/// `phrase` holds `PHRASE_WORDS` words drawn from the first `pool_size` words
/// of `dict` that equal no entry of `exclude`, or all of those where they are
/// fewer.
pub open spec fn drawn_phrase(
    phrase: Seq<Seq<char>>,
    dict: Seq<Seq<char>>,
    pool_size: nat,
    exclude: Seq<Seq<char>>,
) -> bool {
    drawn(phrase, eligible(dict, pool_size, exclude), PHRASE_WORDS as nat)
}

/// What a typing session holds.
pub struct SessionState {
    /// The words of the phrase to type.
    pub current_words: Seq<Seq<char>>,
    /// The words of the phrase that comes after it.
    pub next_words: Seq<Seq<char>>,
    /// The characters accepted so far.
    pub typed: Seq<char>,
    /// The position in the phrase of the character expected next.
    pub cursor: nat,
    /// The classification of the last key.
    pub last: UserInput,
    /// Whether the difficulty picker is open.
    pub popup: bool,
    /// The level that phrases are drawn at.
    pub difficulty: Difficulty,
    /// The highlighted row of the difficulty picker.
    pub highlighted: nat,
    /// The speed counter.
    pub counter: CounterState,
}

impl SessionState {
    /// The phrase to type: its words joined by single spaces.
    pub open spec fn current_phrase(self) -> Seq<char> {
        joined(self.current_words)
    }

    /// The phrase that comes after it.
    pub open spec fn next_phrase(self) -> Seq<char> {
        joined(self.next_words)
    }

    /// The character expected next, if the phrase has one at the cursor.
    pub open spec fn expected(self) -> Option<char> {
        if self.cursor < self.current_phrase().len() {
            Some(self.current_phrase()[self.cursor as int])
        } else {
            None
        }
    }

    /// What holds of a session at every moment.
    pub open spec fn inv(self) -> bool {
        &&& self.cursor == self.typed.len()
        &&& self.cursor <= self.current_phrase().len()
        &&& self.typed == self.current_phrase().take(self.cursor as int)
        &&& (self.last matches UserInput::Hit(c) ==> self.expected() == Some(c))
        &&& share_no_word(self.current_words, self.next_words)
        &&& self.highlighted < Difficulty::every().len()
        &&& self.counter.started == (self.counter.chars > 0)
    }

    /// The session after the character `c` was typed and classified. Nothing
    /// but the last input changes.
    pub open spec fn classify(self, c: char) -> SessionState {
        SessionState { last: UserInput::of(classified(self.expected(), c)), ..self }
    }

    /// The session after a hit that waited was accepted, with `counter` as the
    /// speed counter afterwards.
    pub open spec fn accept(self, counter: CounterState) -> SessionState {
        match self.last {
            UserInput::Hit(c) => SessionState {
                typed: self.typed.push(c),
                cursor: self.cursor + 1,
                last: UserInput::Pass,
                counter,
                ..self
            },
            _ => self,
        }
    }

    /// The difficulty picker with its highlighted row.
    pub open spec fn picker(self) -> ListView {
        ListView { selected: self.highlighted, len: Difficulty::every().len() }
    }

    /// The session without its phrases, without anything typed and without
    /// a hit that waits.
    pub open spec fn cleared(self) -> SessionState {
        SessionState {
            current_words: Seq::empty(),
            next_words: Seq::empty(),
            typed: Seq::empty(),
            cursor: 0,
            last: self.last.without_hit(),
            ..self
        }
    }
}

/// `post` is the speed counter `pre` after one more character `c`: started,
/// at the time it was started at if it was, with one character more and one
/// word more if `c` is a space.
pub open spec fn ticked(pre: CounterState, post: CounterState, c: char) -> bool {
    &&& post.started
    &&& pre.started ==> post.started_at == pre.started_at
    &&& post.chars == pre.chars + 1
    &&& post.words == pre.words + if c == ' ' {
        1nat
    } else {
        0nat
    }
}

/// `post` is the session `pre` with new phrases drawn from `dict`. Where
/// `pre` has a phrase, the phrase after it takes its place; where it has
/// none, a phrase is drawn. The phrase after the new one is drawn without the
/// words of the new one. Nothing is typed yet, and a hit that waited is
/// dropped.
pub open spec fn randomized(pre: SessionState, post: SessionState, dict: Seq<Seq<char>>) -> bool {
    &&& if pre.current_words.len() == 0 {
        drawn_phrase(post.current_words, dict, pre.difficulty.pool_size(), Seq::empty())
    } else {
        post.current_words == pre.next_words
    }
    &&& drawn_phrase(post.next_words, dict, pre.difficulty.pool_size(), post.current_words)
    &&& post == SessionState {
        current_words: post.current_words,
        next_words: post.next_words,
        typed: Seq::empty(),
        cursor: 0,
        last: pre.last.without_hit(),
        ..pre
    }
}

/// `post` is the session `pre` after its commit step. A hit that waited is
/// accepted: its character joins what was typed, the cursor moves on, the
/// speed counter counts it, and the last input is spent. Then, where the
/// cursor has reached the end of the phrase, new phrases come up.
pub open spec fn committed(pre: SessionState, post: SessionState, dict: Seq<Seq<char>>) -> bool {
    let accepted = pre.accept(post.counter);
    &&& match pre.last {
        UserInput::Hit(c) => ticked(pre.counter, post.counter, c),
        _ => post.counter == pre.counter,
    }
    &&& if accepted.cursor >= accepted.current_phrase().len() {
        randomized(accepted, post, dict)
    } else {
        post == accepted
    }
}

/// `post` and `event` are what a key does to the session `pre` while the
/// difficulty picker is closed. Control with `d` asks for the dictionary
/// list. Control with `r` brings up new phrases and clears the last input.
/// Control with `f` opens the picker, and any other character is classified;
/// after both the session commits. A key that is none of these is ignored.
pub open spec fn input_handled(
    pre: SessionState,
    key: KeyEvent,
    post: SessionState,
    event: Event,
    dict: Seq<Seq<char>>,
) -> bool {
    if key.is_control('d') {
        event == Event::Switch(Screen::Dicts) && post == pre
    } else if key.is_control('r') {
        &&& event == Event::DoNothing
        &&& post.last == UserInput::Pass
        &&& randomized(pre, SessionState { last: pre.last.without_hit(), ..post }, dict)
    } else if key.is_control('f') {
        event == Event::DoNothing && committed(SessionState { popup: true, ..pre }, post, dict)
    } else {
        match key.code {
            KeyCode::Char(c) => event == Event::DoNothing && committed(pre.classify(c), post, dict),
            _ => event == Event::DoNothing && post == pre,
        }
    }
}

/// `post` and `event` are what a key does to the session `pre` while the
/// difficulty picker is open. The arrows move the highlight, wrapping round
/// at both ends. Escape closes the picker and asks for the typing screen.
/// Enter sets the highlighted level, closes the picker and draws new phrases
/// at that level. Any other key does nothing.
pub open spec fn popup_handled(
    pre: SessionState,
    key: KeyEvent,
    post: SessionState,
    event: Event,
    dict: Seq<Seq<char>>,
) -> bool {
    match key.code {
        KeyCode::Up => event == Event::DoNothing && post == SessionState {
            highlighted: pre.picker().previous().selected,
            ..pre
        },
        KeyCode::Down => event == Event::DoNothing && post == SessionState {
            highlighted: pre.picker().next().selected,
            ..pre
        },
        KeyCode::Esc => event == Event::Switch(Screen::Typing) && post == SessionState {
            popup: false,
            ..pre
        },
        KeyCode::Enter => event == Event::DoNothing && randomized(
            SessionState {
                popup: false,
                difficulty: Difficulty::at_row(pre.highlighted),
                ..pre
            }.cleared(),
            post,
            dict,
        ),
        _ => event == Event::DoNothing && post == pre,
    }
}

/// `post` and `event` are what a key does to the session `pre`.
pub open spec fn handled(
    pre: SessionState,
    key: KeyEvent,
    post: SessionState,
    event: Event,
    dict: Seq<Seq<char>>,
) -> bool {
    if pre.popup {
        popup_handled(pre, key, post, event, dict)
    } else {
        input_handled(pre, key, post, event, dict)
    }
}

/// `state` is a session at its beginning, with phrases drawn from `dict` at
/// the easiest level: nothing typed, no last input, the picker closed on its
/// first row, and the speed counter at nought and not started.
pub open spec fn begun(state: SessionState, dict: Seq<Seq<char>>) -> bool {
    randomized(
        SessionState {
            current_words: Seq::empty(),
            next_words: Seq::empty(),
            typed: Seq::empty(),
            cursor: 0,
            last: UserInput::Pass,
            popup: false,
            difficulty: Difficulty::Easy,
            highlighted: 0,
            counter: CounterState {
                started: false,
                started_at: state.counter.started_at,
                chars: 0,
                words: 0,
            },
        },
        state,
        dict,
    )
}

/// New phrases keep the invariant of the session, and the phrase that comes
/// up shares no word with the phrase before it.
pub proof fn lemma_randomized(pre: SessionState, post: SessionState, dict: Seq<Seq<char>>)
    requires
        pre.inv(),
        randomized(pre, post, dict),
    ensures
        post.inv(),
        share_no_word(post.current_words, pre.current_words),
        post.cursor == 0 && post.typed.len() == 0,
{
    lemma_draw_avoids_excluded(
        post.next_words,
        dict,
        pre.difficulty.pool_size(),
        post.current_words,
    );
    assert forall|i: int, j: int|
        0 <= i < post.current_words.len() && 0 <= j < post.next_words.len() implies (
    #[trigger] post.current_words[i]) != (#[trigger] post.next_words[j]) by {
        assert(!post.current_words.contains(post.next_words[j]));
    }
    assert(post.typed == post.current_phrase().take(0));
}

/// The commit step keeps the invariant of the session: afterwards the cursor
/// still equals the number of characters typed. A hit that it accepts adds one
/// to the characters counted, and one to the words counted exactly when the
/// character is a space; without a hit the counts stay.
pub proof fn lemma_committed(pre: SessionState, post: SessionState, dict: Seq<Seq<char>>)
    requires
        pre.inv(),
        committed(pre, post, dict),
    ensures
        post.inv(),
        post.cursor == post.typed.len(),
        match pre.last {
            UserInput::Hit(c) => {
                &&& post.counter.chars == pre.counter.chars + 1
                &&& post.counter.words == pre.counter.words + if c == ' ' {
                    1nat
                } else {
                    0nat
                }
            },
            _ => post.counter == pre.counter,
        },
{
    let accepted = pre.accept(post.counter);
    if let UserInput::Hit(c) = pre.last {
        let phrase = pre.current_phrase();
        assert(phrase.take(pre.cursor as int + 1) == phrase.take(pre.cursor as int).push(c));
    }
    assert(accepted.inv());
    if accepted.cursor >= accepted.current_phrase().len() {
        lemma_randomized(accepted, post, dict);
    }
}

/// When the commit step completes a phrase, the phrase that comes up shares
/// no word with the one just typed.
pub proof fn lemma_completion_shares_no_word(
    pre: SessionState,
    post: SessionState,
    dict: Seq<Seq<char>>,
)
    requires
        pre.inv(),
        committed(pre, post, dict),
        pre.accept(post.counter).cursor >= pre.current_phrase().len(),
    ensures
        share_no_word(post.current_words, pre.current_words),
{
    let accepted = pre.accept(post.counter);
    if let UserInput::Hit(c) = pre.last {
        let phrase = pre.current_phrase();
        assert(phrase.take(pre.cursor as int + 1) == phrase.take(pre.cursor as int).push(c));
    }
    lemma_randomized(accepted, post, dict);
}

/// Every key keeps the invariant of the session: whatever was pressed, the
/// cursor equals the number of characters typed afterwards.
pub proof fn lemma_handled(
    pre: SessionState,
    key: KeyEvent,
    post: SessionState,
    event: Event,
    dict: Seq<Seq<char>>,
)
    requires
        pre.inv(),
        handled(pre, key, post, event, dict),
    ensures
        post.inv(),
        post.cursor == post.typed.len(),
{
    if pre.popup {
        match key.code {
            KeyCode::Enter => {
                let start = SessionState {
                    popup: false,
                    difficulty: Difficulty::at_row(pre.highlighted),
                    ..pre
                }.cleared();
                assert(start.typed == start.current_phrase().take(0));
                lemma_randomized(start, post, dict);
            },
            _ => {},
        }
    } else if key.is_control('d') {
    } else if key.is_control('r') {
        let drawn = SessionState { last: pre.last.without_hit(), ..post };
        lemma_randomized(pre, drawn, dict);
    } else if key.is_control('f') {
        lemma_committed(SessionState { popup: true, ..pre }, post, dict);
    } else {
        match key.code {
            KeyCode::Char(c) => {
                lemma_committed(pre.classify(c), post, dict);
            },
            _ => {},
        }
    }
}

/// The typing screen.
#[derive(Debug)]
pub struct TypingScreen {
    current_words: Vec<String>,
    next_words: Vec<String>,
    current_str: String,
    next_str: String,
    user_string: Vec<char>,
    current_pos: usize,
    last: UserInput,
    show_diff_popup: bool,
    curr_diff: Difficulty,
    difficulties: Vec<Difficulty>,
    diff_state: ListState,
    wpm: WpmCounter,
}

impl View for TypingScreen {
    type V = SessionState;

    closed spec fn view(&self) -> SessionState {
        SessionState {
            current_words: self.current_words.deep_view(),
            next_words: self.next_words.deep_view(),
            typed: self.user_string@,
            cursor: self.current_pos as nat,
            last: self.last,
            popup: self.show_diff_popup,
            difficulty: self.curr_diff,
            highlighted: self.diff_state@.selected,
            counter: self.wpm@,
        }
    }
}

impl TypingScreen {
    /// The screen is well formed: its strings are its words joined, its
    /// picker lists every level, and its state meets `SessionState::inv`.
    pub closed spec fn wf(&self) -> bool {
        &&& self.current_str@ == joined(self.current_words.deep_view())
        &&& self.next_str@ == joined(self.next_words.deep_view())
        &&& self.difficulties@ == Difficulty::every()
        &&& self.diff_state@.len == self.difficulties@.len()
        &&& self@.inv()
    }

    /// A well-formed screen meets the invariant of its state.
    pub proof fn lemma_wf_inv(&self)
        requires
            self.wf(),
        ensures
            self@.inv(),
    {
    }

    /// At every moment the cursor stands after what has been typed: it equals
    /// the number of characters typed, and those are the characters of the
    /// phrase before it.
    pub proof fn lemma_cursor_is_typed_len(&self)
        requires
            self.wf(),
        ensures
            self@.cursor == self@.typed.len(),
            self@.typed == self@.current_phrase().take(self@.cursor as int),
    {
    }

    /// Brings up the next phrase. Where the screen has a phrase, the phrase
    /// after it takes its place; where it has none, one is drawn. The phrase
    /// after the new one is drawn without the words of the new one, so that
    /// two phrases in a row share no word.
    pub fn randomize_input(&mut self, dict: &Dictionary)
        requires
            old(self).wf(),
        ensures
            final(self).wf(),
            randomized(old(self)@, final(self)@, dict.words()),
            share_no_word(final(self)@.current_words, old(self)@.current_words),
    {
        let batch_size = self.curr_diff.batch_size();
        if self.current_words.len() == 0 {
            self.current_words = dict.random_words(batch_size, PHRASE_WORDS);
        } else {
            core::mem::swap(&mut self.current_words, &mut self.next_words);
        }
        let exclude = self.current_words.as_slice();
        assert(exclude.deep_view() == self.current_words.deep_view());
        let next_words = dict.random_words_exclude(batch_size, PHRASE_WORDS, exclude);
        self.next_words = next_words;
        proof {
            let current = self.current_words.deep_view();
            let next = self.next_words.deep_view();
            lemma_draw_avoids_excluded(next, dict.words(), batch_size as nat, current);
            assert forall|i: int, j: int|
                0 <= i < current.len() && 0 <= j < next.len() implies #[trigger] current[i]
                != #[trigger] next[j] by {
                assert(!current.contains(next[j]));
            }
        }
        self.current_str = join_words(&self.current_words);
        self.next_str = join_words(&self.next_words);
        self.user_string.clear();
        self.current_pos = 0;
        if let UserInput::Hit(_) = self.last {
            self.last = UserInput::Pass;
        }
        proof {
            assert(self@.typed == self@.current_phrase().take(0));
        }
    }

    /// Drops both phrases and what was typed, and draws new phrases at the
    /// level that is set.
    pub fn reset_input(&mut self, dict: &Dictionary)
        requires
            old(self).wf(),
        ensures
            final(self).wf(),
            randomized(old(self)@.cleared(), final(self)@, dict.words()),
    {
        self.current_words = Vec::new();
        self.next_words = Vec::new();
        self.current_str = String::new();
        self.next_str = String::new();
        self.user_string.clear();
        self.current_pos = 0;
        if let UserInput::Hit(_) = self.last {
            self.last = UserInput::Pass;
        }
        proof {
            assert(self.current_words.deep_view() == Seq::<Seq<char>>::empty());
            assert(self.next_words.deep_view() == Seq::<Seq<char>>::empty());
            assert(self@.typed == self@.current_phrase().take(0));
            assert(self@ == old(self)@.cleared());
        }
        self.randomize_input(dict);
    }

    /// A screen with phrases drawn from `dict` at the easiest level, nothing
    /// typed, the picker closed and the speed counter not started.
    pub fn new(dict: &Dictionary) -> (screen: TypingScreen)
        ensures
            screen.wf(),
            begun(screen@, dict.words()),
    {
        let difficulties = Difficulty::all();
        let diff_state = ListState::new(difficulties.len());
        let mut screen = TypingScreen {
            current_words: Vec::new(),
            next_words: Vec::new(),
            current_str: String::new(),
            next_str: String::new(),
            user_string: Vec::new(),
            current_pos: 0,
            last: UserInput::Pass,
            show_diff_popup: false,
            curr_diff: Difficulty::Easy,
            difficulties,
            diff_state,
            wpm: WpmCounter::new(),
        };
        proof {
            assert(screen.current_words.deep_view() == Seq::<Seq<char>>::empty());
            assert(screen.next_words.deep_view() == Seq::<Seq<char>>::empty());
            assert(screen@.typed == screen@.current_phrase().take(0));
        }
        screen.randomize_input(dict);
        screen
    }

    /// Classifies the typed character `c` against the character of the phrase
    /// at the cursor: a hit when they are equal, a miss when they differ or
    /// when the cursor is past the phrase. Only the last input changes.
    pub fn classify(&mut self, c: char)
        requires
            old(self).wf(),
        ensures
            final(self).wf(),
            final(self)@ == old(self)@.classify(c),
    {
        let len = self.current_str.as_str().unicode_len();
        let next_char = if self.current_pos < len {
            Some(self.current_str.as_str().get_char(self.current_pos))
        } else {
            None
        };
        self.last = UserInput::from_result(classify(next_char, c));
    }

    /// Accepts a hit that waits, then brings up new phrases where the cursor
    /// has reached the end of the phrase. The first hit accepted starts the
    /// speed counter.
    pub fn commit(&mut self, dict: &Dictionary)
        requires
            old(self).wf(),
            old(self)@.counter.chars < u64::MAX,
        ensures
            final(self).wf(),
            committed(old(self)@, final(self)@, dict.words()),
    {
        let len = self.current_str.as_str().unicode_len();
        if let UserInput::Hit(c) = self.last {
            self.user_string.push(c);
            self.current_pos += 1;
            self.wpm.start();
            self.wpm.tick_char(&c);
            self.last = UserInput::Pass;
            proof {
                let phrase = self@.current_phrase();
                assert(phrase.take(self@.cursor as int) == phrase.take(self@.cursor - 1).push(c));
            }
        }
        if self.current_pos >= len {
            self.randomize_input(dict);
        }
    }

    /// Handles a key while the difficulty picker is closed.
    fn handle_input_key(&mut self, key: KeyEvent, dict: &Dictionary) -> (event: Event)
        requires
            old(self).wf(),
            old(self)@.counter.chars < u64::MAX,
        ensures
            final(self).wf(),
            input_handled(old(self)@, key, final(self)@, event, dict.words()),
    {
        let control = key.modifiers == KeyModifiers::Control;
        match key.code {
            KeyCode::Char('d') if control => {
                return Event::Switch(Screen::Dicts);
            },
            KeyCode::Char('f') if control => {
                self.show_diff_popup = true;
            },
            KeyCode::Char('r') if control => {
                self.randomize_input(dict);
                self.last = UserInput::Pass;
                return Event::DoNothing;
            },
            KeyCode::Char(c) => {
                self.classify(c);
            },
            _ => {
                return Event::DoNothing;
            },
        }
        self.commit(dict);
        Event::DoNothing
    }

    /// Handles a key while the difficulty picker is open.
    fn handle_popup_key(&mut self, key: KeyEvent, dict: &Dictionary) -> (event: Event)
        requires
            old(self).wf(),
        ensures
            final(self).wf(),
            popup_handled(old(self)@, key, final(self)@, event, dict.words()),
    {
        match key.code {
            KeyCode::Up => {
                self.diff_state.select_previous();
            },
            KeyCode::Down => {
                self.diff_state.select_next();
            },
            KeyCode::Esc => {
                self.show_diff_popup = false;
                return Event::Switch(Screen::Typing);
            },
            KeyCode::Enter => {
                let row = self.diff_state.selected();
                self.curr_diff = if row < self.difficulties.len() {
                    self.difficulties[row]
                } else {
                    Difficulty::Easy
                };
                self.show_diff_popup = false;
                self.reset_input(dict);
            },
            _ => {},
        }
        Event::DoNothing
    }

    /// Handles one key: in the difficulty picker while it is open, in the
    /// exercise otherwise.
    pub fn handle_key(&mut self, key: KeyEvent, dict: &Dictionary) -> (event: Event)
        requires
            old(self).wf(),
            old(self)@.counter.chars < u64::MAX,
        ensures
            final(self).wf(),
            handled(old(self)@, key, final(self)@, event, dict.words()),
    {
        if self.show_diff_popup {
            self.handle_popup_key(key, dict)
        } else {
            self.handle_input_key(key, dict)
        }
    }

    /// The phrase to type.
    pub fn current_str(&self) -> (phrase: &str)
        requires
            self.wf(),
        ensures
            phrase@ == self@.current_phrase(),
    {
        self.current_str.as_str()
    }

    /// The phrase that comes after it.
    pub fn next_str(&self) -> (phrase: &str)
        requires
            self.wf(),
        ensures
            phrase@ == self@.next_phrase(),
    {
        self.next_str.as_str()
    }

    /// The words of the phrase to type.
    pub fn current_words(&self) -> (words: &Vec<String>)
        ensures
            words.deep_view() == self@.current_words,
    {
        &self.current_words
    }

    /// The words of the phrase that comes after it.
    pub fn next_words(&self) -> (words: &Vec<String>)
        ensures
            words.deep_view() == self@.next_words,
    {
        &self.next_words
    }

    /// The characters accepted so far.
    pub fn user_string(&self) -> (typed: &Vec<char>)
        ensures
            typed@ == self@.typed,
    {
        &self.user_string
    }

    /// The position in the phrase of the character expected next.
    pub fn current_pos(&self) -> (cursor: usize)
        ensures
            cursor == self@.cursor,
    {
        self.current_pos
    }

    /// The classification of the last key.
    pub fn last(&self) -> (last: UserInput)
        ensures
            last == self@.last,
    {
        self.last
    }

    /// Whether the difficulty picker is open.
    pub fn show_diff_popup(&self) -> (open: bool)
        ensures
            open == self@.popup,
    {
        self.show_diff_popup
    }

    /// The level that phrases are drawn at.
    pub fn curr_diff(&self) -> (level: Difficulty)
        ensures
            level == self@.difficulty,
    {
        self.curr_diff
    }

    /// The levels of the difficulty picker, in its order.
    pub fn difficulties(&self) -> (levels: &Vec<Difficulty>)
        requires
            self.wf(),
        ensures
            levels@ == Difficulty::every(),
    {
        &self.difficulties
    }

    /// The highlighted row of the difficulty picker.
    pub fn highlighted(&self) -> (row: usize)
        ensures
            row == self@.highlighted,
    {
        self.diff_state.selected()
    }

    /// The speed counter.
    pub fn wpm(&self) -> (counter: &WpmCounter)
        ensures
            counter@ == self@.counter,
    {
        &self.wpm
    }

    /// The key bindings of this screen: each key with what it does.
    pub open spec fn actions_spec() -> Seq<(&'static str, &'static str)> {
        seq![("<C-r>", "New random words"), ("<C-d>", "Select Dict"), ("<C-f>", "Difficulty")]
    }

    /// The key bindings of this screen: each key with what it does.
    pub fn actions() -> (list: Vec<(&'static str, &'static str)>)
        ensures
            list@ == Self::actions_spec(),
    {
        let mut list: Vec<(&'static str, &'static str)> = Vec::new();
        list.push(("<C-r>", "New random words"));
        list.push(("<C-d>", "Select Dict"));
        list.push(("<C-f>", "Difficulty"));
        list
    }
}

} // verus!
