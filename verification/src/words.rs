//! A plain word list: lines of a text, drawn from without any pool or
//! exclusion.

use vstd::prelude::*;
use crate::sample::{choose_positions, drawn, drawn_at, lemma_draw_within_pool, words_at};
use crate::text::{lines_of, split_lines};

verus! {

/// A list of words.
#[derive(Debug)]
pub struct Dictionary {
    words: Vec<String>,
}

impl Dictionary {
    /// The words of the list, in order.
    pub closed spec fn words(&self) -> Seq<Seq<char>> {
        self.words.deep_view()
    }

    /// A list without words.
    pub fn new() -> (dict: Dictionary)
        ensures
            dict.words() == Seq::<Seq<char>>::empty(),
    {
        let dict = Dictionary { words: Vec::new() };
        assert(dict.words.deep_view() == Seq::<Seq<char>>::empty());
        dict
    }

    /// The number of words.
    pub fn len(&self) -> (n: usize)
        ensures
            n == self.words().len(),
    {
        self.words.len()
    }

    /// Takes the words from `text`, the content of a dictionary file, in
    /// which each line is a word: they replace the words held before.
    pub fn load_dict_file(&mut self, text: &str)
        ensures
            final(self).words() == lines_of(text@),
    {
        self.words = split_lines(text);
    }

    /// Up to `n` words drawn at random, without repetition. Fewer than `n`
    /// come back only when the list holds fewer, and then all of them.
    pub fn random_words(&self, n: u32) -> (picked: Vec<String>)
        ensures
            drawn(picked.deep_view(), self.words(), n as nat),
    {
        let amount = if (n as usize) < self.words.len() {
            n as usize
        } else {
            self.words.len()
        };
        let at = choose_positions(self.words.len(), amount);
        let picked = words_at(&self.words, &at);
        assert(drawn_at(picked.deep_view(), self.words(), at@));
        picked
    }

    /// One word of the list, drawn at random. The list must hold a word.
    pub fn random_word(self) -> (word: String)
        requires
            self.words().len() > 0,
        ensures
            self.words().contains(word@),
    {
        let picked = self.random_words(1);
        proof {
            lemma_draw_within_pool(picked.deep_view(), self.words());
            assert(picked.deep_view()[0] == picked@[0]@);
        }
        picked[0].clone()
    }
}

} // verus!
