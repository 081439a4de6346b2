//! Drawing text fragments from the corpora under a sourcing policy.

use vstd::prelude::*;

use crate::corpus::{
    checked_views, default_poetry, default_poetry_raw, default_words, default_words_raw, in_lines,
    matches_views, wf_entry, wf_lines,
};
use crate::random::{pick, random_chance};

verus! {

/// The sourcing policy: which corpus each fragment slot draws from.
#[derive(Clone, Copy, Debug)]
pub enum Source {
    /// Poetry lines.
    Poetry,
    /// Words list.
    Words,
    /// Mixed single draw: words with probability 7/10, poetry otherwise.
    Mixed,
    /// Front: words, back: poetry.
    WordsPoetry,
    /// Front: poetry, back: words.
    PoetryWords,
    /// Front: words, back: words.
    WordsWords,
    /// Front: poetry, back: poetry.
    PoetryPoetry,
}

/// A fragment provider: a policy together with the two corpora it draws
/// from.
pub struct Provider {
    pub source: Source,
    pub poetry: Vec<String>,
    pub words: Vec<String>,
}

impl Provider {
    /// Both corpora are usable: non-empty, with usable lines only.
    pub open spec fn wf(self) -> bool {
        wf_lines(self.poetry@) && wf_lines(self.words@)
    }

    /// The corpus that the front slot of a two-slot policy draws from, and
    /// that `get` draws from under a one-corpus policy.
    pub open spec fn front_ok(self, s: Seq<char>) -> bool {
        match self.source {
            Source::Poetry => in_lines(s, self.poetry@),
            Source::Words => in_lines(s, self.words@),
            Source::Mixed => in_lines(s, self.poetry@) || in_lines(s, self.words@),
            Source::WordsPoetry | Source::WordsWords => in_lines(s, self.words@),
            Source::PoetryWords | Source::PoetryPoetry => in_lines(s, self.poetry@),
        }
    }

    /// The corpus that the back slot draws from.
    pub open spec fn back_ok(self, s: Seq<char>) -> bool {
        match self.source {
            Source::WordsPoetry | Source::PoetryPoetry => in_lines(s, self.poetry@),
            Source::PoetryWords | Source::WordsWords => in_lines(s, self.words@),
            Source::Poetry | Source::Words | Source::Mixed => in_lines(s, self.poetry@),
        }
    }

    /// A provider over the built-in corpora.
    pub fn new(source: Source) -> (p: Provider)
        ensures
            p.wf(),
            p.source == source,
            matches_views(p.poetry@, checked_views(default_poetry_raw())),
            matches_views(p.words@, checked_views(default_words_raw())),
    {
        Provider { source, poetry: default_poetry(), words: default_words() }
    }

    /// One draw under a one-corpus policy: uniform from the policy's
    /// corpus; for `Mixed`, from words with probability 7/10, else poetry.
    fn draw_single(&self) -> (r: String)
        requires
            self.wf(),
            self.source is Poetry || self.source is Words || self.source is Mixed,
        ensures
            wf_entry(r@),
            self.front_ok(r@),
    {
        let r = match self.source {
            Source::Poetry => pick(&self.poetry),
            Source::Words => pick(&self.words),
            _ => {
                if random_chance(7, 10) {
                    pick(&self.words)
                } else {
                    pick(&self.poetry)
                }
            },
        };
        proof {
            lemma_member_wf(r@, self.poetry@, self.words@);
        }
        r
    }

    /// One fragment under the policy; a two-slot policy draws its front
    /// slot.
    pub fn get(&self) -> (r: String)
        requires
            self.wf(),
        ensures
            wf_entry(r@),
            self.front_ok(r@),
    {
        let r = match self.source {
            Source::WordsPoetry | Source::WordsWords => pick(&self.words),
            Source::PoetryWords | Source::PoetryPoetry => pick(&self.poetry),
            _ => self.draw_single(),
        };
        proof {
            lemma_member_wf(r@, self.poetry@, self.words@);
        }
        r
    }

    /// The front fragment of a two-slot policy; a one-corpus policy draws
    /// as `get` does.
    pub fn get_front(&self) -> (r: String)
        requires
            self.wf(),
        ensures
            wf_entry(r@),
            self.front_ok(r@),
    {
        let r = match self.source {
            Source::WordsPoetry | Source::WordsWords => pick(&self.words),
            Source::PoetryWords | Source::PoetryPoetry => pick(&self.poetry),
            _ => self.draw_single(),
        };
        proof {
            lemma_member_wf(r@, self.poetry@, self.words@);
        }
        r
    }

    /// The back fragment of a two-slot policy; a one-corpus policy falls
    /// back to poetry.
    pub fn get_back(&self) -> (r: String)
        requires
            self.wf(),
        ensures
            wf_entry(r@),
            self.back_ok(r@),
    {
        let r = match self.source {
            Source::WordsPoetry | Source::PoetryPoetry => pick(&self.poetry),
            Source::PoetryWords | Source::WordsWords => pick(&self.words),
            _ => pick(&self.poetry),
        };
        proof {
            lemma_member_wf(r@, self.poetry@, self.words@);
        }
        r
    }

    /// A uniform draw from the poetry corpus, whatever the policy.
    pub fn get_poetry(&self) -> (r: String)
        requires
            self.wf(),
        ensures
            wf_entry(r@),
            in_lines(r@, self.poetry@),
    {
        let r = pick(&self.poetry);
        proof {
            lemma_member_wf(r@, self.poetry@, self.words@);
        }
        r
    }
}

/// A member of a usable corpus is itself usable.
proof fn lemma_member_wf(s: Seq<char>, poetry: Seq<String>, words: Seq<String>)
    requires
        in_lines(s, poetry) ==> wf_lines(poetry),
        in_lines(s, words) ==> wf_lines(words),
    ensures
        in_lines(s, poetry) || in_lines(s, words) ==> wf_entry(s),
{
    if in_lines(s, poetry) {
        let i = choose|i: int| 0 <= i < poetry.len() && s == poetry[i]@;
        assert(wf_entry(poetry[i]@));
    } else if in_lines(s, words) {
        let i = choose|i: int| 0 <= i < words.len() && s == words[i]@;
        assert(wf_entry(words[i]@));
    }
}

} // verus!
