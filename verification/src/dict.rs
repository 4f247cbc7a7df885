//! The word source: the languages on offer, their word lists, and the
//! dictionary that phrases are drawn from.

use vstd::prelude::*;
use crate::sample::{choose_positions, distinct_positions, drawn, drawn_at, is_draw, lemma_draw_within_pool};
use crate::text::{lines_of, split_lines};

verus! {

/// A language for which a word list exists.
#[derive(Debug, Clone, Copy, PartialEq, Eq, Structural)]
pub enum Language {
    English,
    Russian,
}

impl Language {
    /// The name of the language as shown in the dictionary picker.
    pub open spec fn name(self) -> Seq<char> {
        match self {
            Language::English => "English"@,
            Language::Russian => "Russian"@,
        }
    }

    pub fn as_str(&self) -> (name: &'static str)
        ensures
            name@ == self.name(),
    {
        match self {
            Language::English => "English",
            Language::Russian => "Russian",
        }
    }

    /// Every language, in the order of the dictionary picker.
    pub open spec fn every() -> Seq<Language> {
        seq![Language::English, Language::Russian]
    }

    /// The language in row `row` of the dictionary picker, and English where
    /// there is no such row.
    pub open spec fn at_row(row: nat) -> Language {
        if row < Self::every().len() {
            Self::every()[row as int]
        } else {
            Language::English
        }
    }

    /// Every language, in the order of the dictionary picker.
    pub fn all() -> (languages: Vec<Language>)
        ensures
            languages@ == Self::every(),
    {
        let mut languages: Vec<Language> = Vec::new();
        languages.push(Language::English);
        languages.push(Language::Russian);
        languages
    }
}

impl Default for Language {
    fn default() -> (lang: Language)
        ensures
            lang == Language::English,
    {
        Language::English
    }
}

/// Why a dictionary could not be loaded.
#[derive(Debug, Clone, Copy, PartialEq, Eq, Structural)]
pub enum LoadError {
    /// The word list of the language holds no word.
    NoWords(Language),
}

/// The word lists of all languages as plain text, one word on each line.
#[derive(Debug)]
pub struct WordLists {
    english: String,
    russian: String,
}

impl WordLists {
    /// The text of the word list of `lang`.
    pub closed spec fn text(&self, lang: Language) -> Seq<char> {
        match lang {
            Language::English => self.english@,
            Language::Russian => self.russian@,
        }
    }

    /// Every language has a word list with at least one word.
    pub open spec fn complete(&self) -> bool {
        forall|lang: Language| (#[trigger] self.text(lang)).len() > 0
    }

    pub fn new(english: String, russian: String) -> (lists: WordLists)
        ensures
            lists.text(Language::English) == english@,
            lists.text(Language::Russian) == russian@,
    {
        WordLists { english, russian }
    }

    /// The text of the word list of `lang`.
    pub fn get(&self, lang: Language) -> (text: &str)
        ensures
            text@ == self.text(lang),
    {
        match lang {
            Language::English => self.english.as_str(),
            Language::Russian => self.russian.as_str(),
        }
    }

    /// The first language, in the order of the dictionary picker, whose word
    /// list holds no word.
    pub open spec fn first_empty(&self) -> Option<Language> {
        if self.text(Language::English).len() == 0 {
            Some(Language::English)
        } else if self.text(Language::Russian).len() == 0 {
            Some(Language::Russian)
        } else {
            None
        }
    }

    /// Succeeds when every language has a word list with at least one word,
    /// and names the first language that has none otherwise.
    pub fn check(&self) -> (checked: Result<(), LoadError>)
        ensures
            checked is Ok <==> self.complete(),
            match checked {
                Ok(_) => self.first_empty() is None,
                Err(e) => self.first_empty() == Some(e->NoWords_0),
            },
    {
        let checked = if self.english.as_str().unicode_len() == 0 {
            Err(LoadError::NoWords(Language::English))
        } else if self.russian.as_str().unicode_len() == 0 {
            Err(LoadError::NoWords(Language::Russian))
        } else {
            Ok(())
        };
        proof {
            if checked is Ok {
                assert forall|lang: Language| (#[trigger] self.text(lang)).len() > 0 by {
                    match lang {
                        Language::English => {},
                        Language::Russian => {},
                    }
                }
            } else {
                assert(self.text(Language::English).len() == 0 || self.text(
                    Language::Russian,
                ).len() == 0);
            }
        }
        checked
    }

    /// Whether every language has a word list with at least one word.
    pub fn is_complete(&self) -> (complete: bool)
        ensures
            complete == self.complete(),
    {
        self.check().is_ok()
    }
}

/// The number of leading words that can be drawn from: `pool_size`, or the
/// length of the list where that is less.
pub open spec fn pool_len(words: Seq<Seq<char>>, pool_size: nat) -> nat {
    if pool_size < words.len() {
        pool_size
    } else {
        words.len()
    }
}

/// The test that keeps a word out of a draw: it equals an entry of `exclude`.
pub open spec fn allowed(exclude: Seq<Seq<char>>) -> spec_fn(Seq<char>) -> bool {
    |word: Seq<char>| !exclude.contains(word)
}

/// The words that a draw may return: the first `pool_size` words of the list
/// without those that equal an entry of `exclude`, in the order of the list.
pub open spec fn eligible(words: Seq<Seq<char>>, pool_size: nat, exclude: Seq<Seq<char>>) -> Seq<
    Seq<char>,
> {
    words.take(pool_len(words, pool_size) as int).filter(allowed(exclude))
}

/// A text has a line exactly when it is not empty.
pub proof fn lemma_lines_of_empty(text: Seq<char>)
    ensures
        lines_of(text).len() > 0 <==> text.len() > 0,
{
}

/// Whether `word` equals an entry of `exclude`.
pub fn is_excluded(word: &String, exclude: &[String]) -> (found: bool)
    ensures
        found == exclude.deep_view().contains(word@),
{
    let mut j: usize = 0;
    while j < exclude.len()
        invariant
            j <= exclude.len(),
            forall|k: int| 0 <= k < j ==> exclude.deep_view()[k] != word@,
        decreases exclude.len() - j,
    {
        if exclude[j] == *word {
            assert(exclude.deep_view()[j as int] == word@);
            return true;
        }
        j += 1;
    }
    false
}

/// An ordered list of words in one language.
#[derive(Debug)]
pub struct Dictionary {
    current: Language,
    words: Vec<String>,
}

impl Dictionary {
    /// The words of the dictionary, in order.
    pub closed spec fn words(&self) -> Seq<Seq<char>> {
        self.words.deep_view()
    }

    /// The language that the dictionary was made for.
    pub closed spec fn language(&self) -> Language {
        self.current
    }

    /// A dictionary is usable when it holds at least one word.
    pub open spec fn wf(&self) -> bool {
        self.words().len() > 0
    }

    /// The dictionary of `lang`, with the lines of its word list as words.
    /// Fails when the word list holds no word.
    pub fn new(lang: Language, lists: &WordLists) -> (made: Result<Dictionary, LoadError>)
        ensures
            match made {
                Ok(dict) => {
                    &&& lists.text(lang).len() > 0
                    &&& dict.language() == lang
                    &&& dict.words() == lines_of(lists.text(lang))
                    &&& dict.wf()
                },
                Err(e) => lists.text(lang).len() == 0 && e == LoadError::NoWords(lang),
            },
    {
        let words = split_lines(lists.get(lang));
        proof {
            lemma_lines_of_empty(lists.text(lang));
            assert(words.deep_view().len() == words.len());
        }
        if words.len() == 0 {
            Err(LoadError::NoWords(lang))
        } else {
            Ok(Dictionary { current: lang, words })
        }
    }

    /// Replaces the words by the lines of the word list of `lang`. Fails, and
    /// leaves the dictionary as it was, when that list holds no word.
    pub fn load(&mut self, lang: Language, lists: &WordLists) -> (done: Result<(), LoadError>)
        ensures
            final(self).language() == old(self).language(),
            match done {
                Ok(_) => {
                    &&& lists.text(lang).len() > 0
                    &&& final(self).words() == lines_of(lists.text(lang))
                    &&& final(self).wf()
                },
                Err(e) => {
                    &&& lists.text(lang).len() == 0
                    &&& e == LoadError::NoWords(lang)
                    &&& *final(self) == *old(self)
                },
            },
    {
        let words = split_lines(lists.get(lang));
        proof {
            lemma_lines_of_empty(lists.text(lang));
            assert(words.deep_view().len() == words.len());
        }
        if words.len() == 0 {
            Err(LoadError::NoWords(lang))
        } else {
            self.words = words;
            Ok(())
        }
    }

    pub fn current(&self) -> (lang: Language)
        ensures
            lang == self.language(),
    {
        self.current
    }

    /// The number of words.
    pub fn len(&self) -> (n: usize)
        ensures
            n == self.words().len(),
    {
        self.words.len()
    }

    /// The positions of the words that a draw may return, in the order of
    /// the list.
    fn eligible_positions(&self, batch_size: usize, exclude: &[String]) -> (pool: Vec<usize>)
        ensures
            pool@.len() == eligible(self.words(), batch_size as nat, exclude.deep_view()).len(),
            forall|k: int|
                0 <= k < pool@.len() ==> (#[trigger] pool@[k]) < self.words().len()
                    && self.words()[pool@[k] as int] == eligible(
                    self.words(),
                    batch_size as nat,
                    exclude.deep_view(),
                )[k],
    {
        let limit = if batch_size < self.words.len() {
            batch_size
        } else {
            self.words.len()
        };
        let ghost words = self.words();
        let ghost keep = allowed(exclude.deep_view());
        let mut pool: Vec<usize> = Vec::new();
        let mut i: usize = 0;
        proof {
            reveal(Seq::filter);
            assert(words.take(0).filter(keep).len() == 0);
        }
        while i < limit
            invariant
                i <= limit <= self.words.len(),
                limit == pool_len(self.words(), batch_size as nat),
                words == self.words(),
                keep == allowed(exclude.deep_view()),
                pool@.len() == words.take(i as int).filter(keep).len(),
                forall|k: int|
                    0 <= k < pool@.len() ==> (#[trigger] pool@[k]) < i && words[pool@[k] as int]
                        == words.take(i as int).filter(keep)[k],
            decreases limit - i,
        {
            let excluded = is_excluded(&self.words[i], exclude);
            proof {
                let word = words[i as int];
                assert(word == self.words@[i as int]@);
                assert(words.take(i + 1) == words.take(i as int).push(word));
                words.take(i as int).lemma_filter_push(word, keep);
                assert(keep(word) == !excluded);
            }
            if !excluded {
                pool.push(i);
            }
            i += 1;
        }
        pool
    }

    /// Up to `n` words drawn at random, without repetition, from the first
    /// `batch_size` words. Fewer than `n` come back only when the dictionary
    /// holds fewer, and then all of them.
    pub fn random_words(&self, batch_size: usize, n: usize) -> (picked: Vec<String>)
        ensures
            drawn(
                picked.deep_view(),
                eligible(self.words(), batch_size as nat, Seq::empty()),
                n as nat,
            ),
    {
        let none: Vec<String> = Vec::new();
        let nothing = none.as_slice();
        assert(nothing.deep_view() == Seq::<Seq<char>>::empty());
        self.random_words_exclude(batch_size, n, nothing)
    }

    /// Up to `n` words drawn at random, without repetition, from those of the
    /// first `batch_size` words that equal no entry of `exclude`. Fewer than
    /// `n` come back only when fewer are eligible, and then all of those.
    pub fn random_words_exclude(&self, batch_size: usize, n: usize, exclude: &[String]) -> (picked:
        Vec<String>)
        ensures
            drawn(
                picked.deep_view(),
                eligible(self.words(), batch_size as nat, exclude.deep_view()),
                n as nat,
            ),
    {
        let pool = self.eligible_positions(batch_size, exclude);
        let amount = if n < pool.len() {
            n
        } else {
            pool.len()
        };
        let at = choose_positions(pool.len(), amount);
        let ghost from = eligible(self.words(), batch_size as nat, exclude.deep_view());
        let mut picked: Vec<String> = Vec::new();
        let mut k: usize = 0;
        while k < at.len()
            invariant
                k <= at.len(),
                picked.len() == k,
                pool@.len() == from.len(),
                distinct_positions(at@, pool@.len() as nat),
                forall|j: int|
                    0 <= j < pool@.len() ==> (#[trigger] pool@[j]) < self.words().len()
                        && self.words()[pool@[j] as int] == from[j],
                forall|j: int| 0 <= j < k ==> #[trigger] picked.deep_view()[j] == from[at@[j] as int],
            decreases at.len() - k,
        {
            let p = pool[at[k]];
            let word = self.words[p].clone();
            assert(word@ == from[at@[k as int] as int]) by {
                assert(self.words()[p as int] == self.words@[p as int]@);
            }
            let ghost before = picked.deep_view();
            picked.push(word);
            assert(picked.deep_view() == before.push(word@));
            k += 1;
        }
        assert(drawn_at(picked.deep_view(), from, at@));
        picked
    }
}

/// With nothing to exclude, every one of the first `pool_size` words is
/// eligible.
pub proof fn lemma_eligible_without_exclusion(words: Seq<Seq<char>>, pool_size: nat)
    ensures
        eligible(words, pool_size, Seq::empty()) == words.take(pool_len(words, pool_size) as int),
{
    let pool = words.take(pool_len(words, pool_size) as int);
    let keep = allowed(Seq::empty());
    assert forall|k: int| 0 <= k < pool.len() implies keep(#[trigger] pool[k]) by {}
    lemma_filter_keeps_all(pool, keep);
}

/// A draw returns only words that stand among the first `pool_size` words of
/// the list, and none that equals an entry of `exclude`.
pub proof fn lemma_draw_avoids_excluded(
    picked: Seq<Seq<char>>,
    words: Seq<Seq<char>>,
    pool_size: nat,
    exclude: Seq<Seq<char>>,
)
    requires
        is_draw(picked, eligible(words, pool_size, exclude)),
    ensures
        forall|i: int|
            0 <= i < picked.len() ==> !exclude.contains(#[trigger] picked[i]) && words.take(
                pool_len(words, pool_size) as int,
            ).contains(picked[i]),
{
    let pool = words.take(pool_len(words, pool_size) as int);
    let from = eligible(words, pool_size, exclude);
    lemma_draw_within_pool(picked, from);
    assert forall|i: int| 0 <= i < picked.len() implies !exclude.contains(#[trigger] picked[i])
        && pool.contains(picked[i]) by {
        assert(from.contains(picked[i]));
        let k = choose|k: int| 0 <= k < from.len() && from[k] == picked[i];
        pool.lemma_filter_pred(allowed(exclude), k);
        pool.lemma_filter_contains_rev(allowed(exclude), picked[i]);
    }
}

/// A filter that every item passes keeps the whole sequence.
pub proof fn lemma_filter_keeps_all<A>(s: Seq<A>, keep: spec_fn(A) -> bool)
    requires
        forall|k: int| 0 <= k < s.len() ==> keep(#[trigger] s[k]),
    ensures
        s.filter(keep) == s,
    decreases s.len(),
{
    reveal(Seq::filter);
    if s.len() > 0 {
        let front = s.drop_last();
        assert forall|k: int| 0 <= k < front.len() implies keep(#[trigger] front[k]) by {
            assert(front[k] == s[k]);
        }
        lemma_filter_keeps_all(front, keep);
        assert(front.push(s.last()) == s);
    }
}

} // verus!
