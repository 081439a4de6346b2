//! Composing a passphrase: draw two fragments, render them, join them,
//! and optionally append a numeric suffix and capitalize a few letters.

use vstd::prelude::*;

use crate::corpus::{
    checked_or_fallback, checked_views, default_poetry, default_poetry_raw, default_words,
    default_words_raw, in_lines, lemma_member_readings, lines_readings_letters, matches_views,
    wf_entry, wf_lines, MAX_LINE_CHARS,
};
use crate::provider::{Provider, Source};
use crate::random::random_in_range;
use crate::text::{
    ascii_char, ascii_letter, ascii_seq, clone_lines, contains_at, contains_seq, contains_usize,
    digits4, has_ascii_letter, has_wide_char, lemma_ascii_concat, lemma_digits4_ascii,
    letter_free, push_char, push_digits4, to_upper_char, upper_of, wide_char,
};
use crate::transform::{
    lemma_initials_len, lemma_transform_ascii, mode_at, readings_letters, spec_transform,
    transform_with_mode, DualMode, Mode, TransformMode,
};

verus! {

/// A passphrase generator: a sourcing policy, a transform mode, the
/// composition options, and the two corpora it draws from.
pub struct Generator {
    pub source: Source,
    pub mode: TransformMode,
    pub separator: String,
    pub add_number: bool,
    pub random_capitalize: bool,
    pub poetry: Vec<String>,
    pub words: Vec<String>,
}

/// The generator's corpora hold exactly the checked views of the
/// embedded data.
pub open spec fn default_corpora(g: Generator) -> bool {
    matches_views(g.poetry@, checked_views(default_poetry_raw())) && matches_views(
        g.words@,
        checked_views(default_words_raw()),
    )
}

/// Every reading in both corpora is made of lowercase ASCII letters: a
/// pinyin rendering of any drawn fragment is then ASCII.
pub open spec fn corpora_pinyin_safe(g: Generator) -> bool {
    lines_readings_letters(g.poetry@) && lines_readings_letters(g.words@)
}

/// The corpus the front slot draws from under the policy; under `Mixed`
/// the weighted draw may take either corpus.
pub open spec fn front_drawn(g: Generator, s: Seq<char>) -> bool {
    match g.source {
        Source::Poetry => in_lines(s, g.poetry@),
        Source::Words => in_lines(s, g.words@),
        Source::Mixed => in_lines(s, g.poetry@) || in_lines(s, g.words@),
        Source::WordsPoetry | Source::WordsWords => in_lines(s, g.words@),
        Source::PoetryWords | Source::PoetryPoetry => in_lines(s, g.poetry@),
    }
}

/// The corpus the back slot draws from under the policy; under `Mixed`
/// the back slot comes from poetry alone, bypassing the weighted draw.
pub open spec fn back_drawn(g: Generator, s: Seq<char>) -> bool {
    match g.source {
        Source::Poetry => in_lines(s, g.poetry@),
        Source::Words => in_lines(s, g.words@),
        Source::Mixed => in_lines(s, g.poetry@),
        Source::WordsPoetry | Source::PoetryPoetry => in_lines(s, g.poetry@),
        Source::PoetryWords | Source::WordsWords => in_lines(s, g.words@),
    }
}

/// The default configuration: mixed sources, full pinyin, `-` separator,
/// numeric suffix on, capitalization off.
pub open spec fn is_default_config(g: Generator) -> bool {
    &&& g.source is Mixed
    &&& g.mode == TransformMode::Single(Mode::PinyinFull)
    &&& g.separator@ == "-"@
    &&& g.add_number
    &&& !g.random_capitalize
}

/// What follows the joined fragments: the separator and a four-digit
/// number when the suffix is on, nothing otherwise.
pub open spec fn suffix_of(g: Generator, n: int) -> Seq<char> {
    if g.add_number {
        g.separator@ + digits4(n)
    } else {
        Seq::<char>::empty()
    }
}

/// The password before capitalization: the two rendered fragments joined
/// by the separator, then the suffix.
pub open spec fn plain_password(g: Generator, p0: Seq<char>, p1: Seq<char>, n: int) -> Seq<char> {
    spec_transform(p0, mode_at(g.mode, 0)) + g.separator@ + spec_transform(p1, mode_at(g.mode, 1))
        + suffix_of(g, n)
}

/// The changed positions of one capitalization pass: one to three
/// distinct ASCII-letter positions, each raised to upper case, with every
/// position outside the selection untouched.
pub open spec fn caps_selection(a: Seq<char>, b: Seq<char>, sel: Seq<int>) -> bool {
    &&& 1 <= sel.len() <= 3
    &&& forall|k1: int, k2: int|
        #![trigger sel[k1], sel[k2]]
        0 <= k1 < k2 < sel.len() ==> sel[k1] != sel[k2]
    &&& forall|k: int|
        0 <= k < sel.len() ==> 0 <= #[trigger] sel[k] < a.len() && ascii_letter(a[sel[k]])
            && upper_of(a[sel[k]], b[sel[k]])
    &&& forall|i: int| 0 <= i < a.len() && !sel.contains(i) ==> #[trigger] b[i] == a[i]
}

/// `b` is `a` with one to three distinct ASCII letters raised to upper
/// case and every other position untouched; a string without letters
/// comes back unchanged.
pub open spec fn caps_rewrite(a: Seq<char>, b: Seq<char>) -> bool {
    &&& b.len() == a.len()
    &&& !has_ascii_letter(a) ==> b == a
    &&& has_ascii_letter(a) ==> exists|sel: Seq<int>| caps_selection(a, b, sel)
}

/// A capitalization touches only ASCII-letter positions.
pub proof fn lemma_caps_unchanged_at(a: Seq<char>, b: Seq<char>, i: int)
    requires
        caps_rewrite(a, b),
        0 <= i < a.len(),
        !ascii_letter(a[i]),
    ensures
        b[i] == a[i],
{
    if has_ascii_letter(a) {
        let sel = choose|sel: Seq<int>| caps_selection(a, b, sel);
        if sel.contains(i) {
            let k = choose|k: int| 0 <= k < sel.len() && sel[k] == i;
            assert(ascii_letter(a[sel[k]]));
            assert(false);
        }
    }
}

/// A capitalization of an ASCII string is ASCII.
pub proof fn lemma_caps_ascii(a: Seq<char>, b: Seq<char>)
    requires
        caps_rewrite(a, b),
        ascii_seq(a),
    ensures
        ascii_seq(b),
{
    assert forall|i: int| 0 <= i < b.len() implies ascii_char(#[trigger] b[i]) by {
        if has_ascii_letter(a) {
            let sel = choose|sel: Seq<int>| caps_selection(a, b, sel);
            if sel.contains(i) {
                let k = choose|k: int| 0 <= k < sel.len() && sel[k] == i;
                assert(upper_of(a[i], b[i]));
                assert(ascii_char(a[i]));
            } else {
                assert(b[i] == a[i]);
            }
        } else {
            assert(b[i] == a[i]);
        }
    }
}

/// The output is the plain password of the drawn fragments and number,
/// capitalized when the configuration asks for it.
pub open spec fn generated_from(
    g: Generator,
    p0: Seq<char>,
    p1: Seq<char>,
    n: int,
    out: Seq<char>,
) -> bool {
    if g.random_capitalize {
        caps_rewrite(plain_password(g, p0, p1, n), out)
    } else {
        out == plain_password(g, p0, p1, n)
    }
}

/// The output arose from two usable corpus fragments and a four-digit
/// number under the given configuration.
pub open spec fn generated_by(g: Generator, out: Seq<char>) -> bool {
    exists|p0: Seq<char>, p1: Seq<char>, n: int|
        wf_entry(p0) && wf_entry(p1) && front_drawn(g, p0) && back_drawn(g, p1) && 1000 <= n
            < 10000 && #[trigger] generated_from(g, p0, p1, n, out)
}

/// The password and the source string arose from the same two fragments:
/// the source is the fragments joined untransformed, the password their
/// rendering under the configuration.
pub open spec fn generated_with_source(g: Generator, pw: Seq<char>, src: Seq<char>) -> bool {
    exists|p0: Seq<char>, p1: Seq<char>, n: int|
        wf_entry(p0) && wf_entry(p1) && front_drawn(g, p0) && back_drawn(g, p1) && 1000 <= n
            < 10000 && src == p0 + g.separator@ + p1 && #[trigger] generated_from(g, p0, p1, n, pw)
}

impl Generator {
    /// Both corpora are usable: non-empty, every line usable.
    pub open spec fn wf(self) -> bool {
        wf_lines(self.poetry@) && wf_lines(self.words@)
    }

    /// A generator with the default configuration over the built-in
    /// corpora.
    pub fn new() -> (r: Generator)
        ensures
            is_default_config(r),
            r.wf(),
            default_corpora(r),
            checked_or_fallback(r.poetry@),
            checked_or_fallback(r.words@),
    {
        Generator {
            source: Source::Mixed,
            mode: TransformMode::Single(Mode::PinyinFull),
            separator: "-".to_owned(),
            add_number: true,
            random_capitalize: false,
            poetry: default_poetry(),
            words: default_words(),
        }
    }

    /// Render every fragment as pinyin initials.
    pub fn initials(self) -> (r: Self)
        ensures
            r == (Generator { mode: TransformMode::Single(Mode::PinyinInit), ..self }),
    {
        Generator { mode: TransformMode::Single(Mode::PinyinInit), ..self }
    }

    /// Render every fragment as full pinyin.
    pub fn full_pinyin(self) -> (r: Self)
        ensures
            r == (Generator { mode: TransformMode::Single(Mode::PinyinFull), ..self }),
    {
        Generator { mode: TransformMode::Single(Mode::PinyinFull), ..self }
    }

    /// Keep every fragment as the original Chinese.
    pub fn chinese(self) -> (r: Self)
        ensures
            r == (Generator { mode: TransformMode::Single(Mode::Chinese), ..self }),
    {
        Generator { mode: TransformMode::Single(Mode::Chinese), ..self }
    }

    /// Use one mode for the front fragment and another for the back one.
    pub fn dual_mode(self, front: Mode, back: Mode) -> (r: Self)
        ensures
            r == (Generator { mode: TransformMode::Dual(DualMode { front, back }), ..self }),
    {
        Generator { mode: TransformMode::Dual(DualMode { front, back }), ..self }
    }

    /// Front full pinyin, back initials.
    pub fn front_full_back_init(self) -> (r: Self)
        ensures
            r == (Generator {
                mode: TransformMode::Dual(
                    DualMode { front: Mode::PinyinFull, back: Mode::PinyinInit },
                ),
                ..self
            }),
    {
        Generator {
            mode: TransformMode::Dual(DualMode { front: Mode::PinyinFull, back: Mode::PinyinInit }),
            ..self
        }
    }

    /// Front initials, back full pinyin.
    pub fn front_init_back_full(self) -> (r: Self)
        ensures
            r == (Generator {
                mode: TransformMode::Dual(
                    DualMode { front: Mode::PinyinInit, back: Mode::PinyinFull },
                ),
                ..self
            }),
    {
        Generator {
            mode: TransformMode::Dual(DualMode { front: Mode::PinyinInit, back: Mode::PinyinFull }),
            ..self
        }
    }

    /// Draw every fragment from the poetry corpus.
    pub fn poetry_only(self) -> (r: Self)
        ensures
            r == (Generator { source: Source::Poetry, ..self }),
    {
        Generator { source: Source::Poetry, ..self }
    }

    /// Draw every fragment from the words corpus.
    pub fn words_only(self) -> (r: Self)
        ensures
            r == (Generator { source: Source::Words, ..self }),
    {
        Generator { source: Source::Words, ..self }
    }

    /// Front from words, back from poetry.
    pub fn words_poetry(self) -> (r: Self)
        ensures
            r == (Generator { source: Source::WordsPoetry, ..self }),
    {
        Generator { source: Source::WordsPoetry, ..self }
    }

    /// Front from poetry, back from words.
    pub fn poetry_words(self) -> (r: Self)
        ensures
            r == (Generator { source: Source::PoetryWords, ..self }),
    {
        Generator { source: Source::PoetryWords, ..self }
    }

    /// Both fragments from words.
    pub fn words_words(self) -> (r: Self)
        ensures
            r == (Generator { source: Source::WordsWords, ..self }),
    {
        Generator { source: Source::WordsWords, ..self }
    }

    /// Both fragments from poetry.
    pub fn poetry_poetry(self) -> (r: Self)
        ensures
            r == (Generator { source: Source::PoetryPoetry, ..self }),
    {
        Generator { source: Source::PoetryPoetry, ..self }
    }

    /// Use the given separator between the parts.
    pub fn separator(self, sep: &str) -> (r: Self)
        ensures
            r.separator@ == sep@,
            r.source == self.source,
            r.mode == self.mode,
            r.add_number == self.add_number,
            r.random_capitalize == self.random_capitalize,
            r.poetry == self.poetry,
            r.words == self.words,
    {
        Generator { separator: sep.to_owned(), ..self }
    }

    /// Leave the numeric suffix off.
    pub fn no_number(self) -> (r: Self)
        ensures
            r == (Generator { add_number: false, ..self }),
    {
        Generator { add_number: false, ..self }
    }

    /// Uppercase a few randomly chosen letters of the password.
    pub fn random_capitalize(self) -> (r: Self)
        ensures
            r == (Generator { random_capitalize: true, ..self }),
    {
        Generator { random_capitalize: true, ..self }
    }

    /// Uppercase one to three randomly chosen distinct ASCII letters of
    /// the password; a password without letters comes back unchanged.
    pub fn apply_random_capitalization(password: &str) -> (r: String)
        ensures
            caps_rewrite(password@, r@),
    {
        let n = password.unicode_len();
        let mut letter_positions: Vec<usize> = Vec::new();
        let mut i: usize = 0;
        while i < n
            invariant
                i <= n,
                n == password@.len(),
                forall|k: int|
                    0 <= k < letter_positions@.len() ==> #[trigger] letter_positions@[k] < i
                        && ascii_letter(password@[letter_positions@[k] as int]),
                forall|k1: int, k2: int|
                    #![trigger letter_positions@[k1], letter_positions@[k2]]
                    0 <= k1 < k2 < letter_positions@.len() ==> letter_positions@[k1]
                        != letter_positions@[k2],
                (letter_positions@.len() == 0) == !has_ascii_letter(password@.take(i as int)),
            decreases n - i,
        {
            let c = password.get_char(i);
            let u = c as u32;
            let is_letter = (65 <= u && u <= 90) || (97 <= u && u <= 122);
            let ghost old_lp = letter_positions@;
            if is_letter {
                letter_positions.push(i);
            }
            proof {
                let t = password@;
                assert(t.take(i + 1) =~= t.take(i as int).push(t[i as int]));
                if is_letter {
                    assert(t.take(i + 1)[i as int] == t[i as int]);
                    assert(has_ascii_letter(t.take(i + 1)));
                    assert forall|k1: int, k2: int|
                        #![trigger letter_positions@[k1], letter_positions@[k2]]
                        0 <= k1 < k2 < letter_positions@.len() implies letter_positions@[k1]
                        != letter_positions@[k2] by {
                        if k2 < old_lp.len() {
                            assert(letter_positions@[k1] == old_lp[k1]);
                            assert(letter_positions@[k2] == old_lp[k2]);
                        } else {
                            assert(letter_positions@[k2] == i);
                            assert(letter_positions@[k1] == old_lp[k1] && old_lp[k1] < i);
                        }
                    }
                } else {
                    if letter_positions@.len() == 0 {
                        assert forall|j: int| 0 <= j < i + 1 implies !ascii_letter(
                            #[trigger] t.take(i + 1)[j],
                        ) by {
                            if j < i {
                                assert(t.take(i + 1)[j] == t.take(i as int)[j]);
                            }
                        }
                    } else {
                        let w = choose|j: int|
                            0 <= j < t.take(i as int).len() && ascii_letter(t.take(i as int)[j]);
                        assert(t.take(i + 1)[w] == t.take(i as int)[w]);
                        assert(has_ascii_letter(t.take(i + 1)));
                    }
                }
            }
            i = i + 1;
        }
        proof {
            assert(password@.take(n as int) =~= password@);
        }
        if letter_positions.len() == 0 {
            return password.to_owned();
        }
        let lp_len = letter_positions.len();
        let k_max = if lp_len < 3 {
            lp_len
        } else {
            3
        };
        let num = random_in_range(1, k_max + 1);
        let mut pool = letter_positions;
        let mut selected: Vec<usize> = Vec::new();
        let mut t: usize = 0;
        while t < num
            invariant
                t <= num,
                selected@.len() == t,
                num <= pool@.len() + t,
                n == password@.len(),
                forall|k: int|
                    0 <= k < pool@.len() ==> #[trigger] pool@[k] < n && ascii_letter(
                        password@[pool@[k] as int],
                    ),
                forall|k: int|
                    0 <= k < selected@.len() ==> #[trigger] selected@[k] < n && ascii_letter(
                        password@[selected@[k] as int],
                    ),
                forall|k1: int, k2: int|
                    #![trigger pool@[k1], pool@[k2]]
                    0 <= k1 < k2 < pool@.len() ==> pool@[k1] != pool@[k2],
                forall|k1: int, k2: int|
                    #![trigger selected@[k1], selected@[k2]]
                    0 <= k1 < k2 < selected@.len() ==> selected@[k1] != selected@[k2],
                forall|k1: int, k2: int|
                    #![trigger pool@[k1], selected@[k2]]
                    0 <= k1 < pool@.len() && 0 <= k2 < selected@.len() ==> pool@[k1]
                        != selected@[k2],
            decreases num - t,
        {
            let j = random_in_range(0, pool.len());
            let ghost old_pool = pool@;
            let ghost old_sel = selected@;
            let pos = pool.remove(j);
            selected.push(pos);
            proof {
                assert forall|k: int| 0 <= k < pool@.len() implies (#[trigger] pool@[k] < n
                    && ascii_letter(password@[pool@[k] as int]) && exists|m: int|
                    0 <= m < old_pool.len() && m != j && pool@[k] == #[trigger] old_pool[m]) by {
                    if k < j {
                        assert(pool@[k] == old_pool[k]);
                    } else {
                        assert(pool@[k] == old_pool[k + 1]);
                    }
                }
                assert forall|k1: int, k2: int|
                    #![trigger pool@[k1], pool@[k2]]
                    0 <= k1 < k2 < pool@.len() implies pool@[k1] != pool@[k2] by {
                    if k2 < j {
                        assert(pool@[k1] == old_pool[k1] && pool@[k2] == old_pool[k2]);
                    } else if k1 < j {
                        assert(pool@[k1] == old_pool[k1] && pool@[k2] == old_pool[k2 + 1]);
                    } else {
                        assert(pool@[k1] == old_pool[k1 + 1] && pool@[k2] == old_pool[k2 + 1]);
                    }
                }
                assert forall|k1: int, k2: int|
                    #![trigger selected@[k1], selected@[k2]]
                    0 <= k1 < k2 < selected@.len() implies selected@[k1] != selected@[k2] by {
                    if k2 < old_sel.len() {
                        assert(selected@[k1] == old_sel[k1] && selected@[k2] == old_sel[k2]);
                    } else {
                        assert(selected@[k2] == pos && pos == old_pool[j as int]);
                        assert(selected@[k1] == old_sel[k1]);
                    }
                }
                assert forall|k1: int, k2: int|
                    #![trigger pool@[k1], selected@[k2]]
                    0 <= k1 < pool@.len() && 0 <= k2 < selected@.len() implies pool@[k1]
                    != selected@[k2] by {
                    let m = choose|m: int|
                        0 <= m < old_pool.len() && m != j && pool@[k1] == old_pool[m];
                    if k2 < old_sel.len() {
                        assert(selected@[k2] == old_sel[k2]);
                    } else {
                        assert(selected@[k2] == old_pool[j as int]);
                        assert(old_pool[m] != old_pool[j as int]);
                    }
                }
            }
            t = t + 1;
        }
        let mut out = String::new();
        let mut i2: usize = 0;
        while i2 < n
            invariant
                i2 <= n,
                n == password@.len(),
                out@.len() == i2,
                forall|k: int|
                    0 <= k < selected@.len() ==> #[trigger] selected@[k] < n && ascii_letter(
                        password@[selected@[k] as int],
                    ),
                forall|j: int|
                    0 <= j < i2 ==> if selected@.contains(j as usize) {
                        ascii_letter(password@[j]) && upper_of(password@[j], #[trigger] out@[j])
                    } else {
                        out@[j] == password@[j]
                    },
            decreases n - i2,
        {
            let c = password.get_char(i2);
            if contains_usize(&selected, i2) {
                let up = to_upper_char(c);
                push_char(&mut out, up);
            } else {
                push_char(&mut out, c);
            }
            i2 = i2 + 1;
        }
        proof {
            let a = password@;
            let b = out@;
            let gsel = selected@.map_values(|x: usize| x as int);
            assert(1 <= gsel.len() <= 3);
            assert forall|k1: int, k2: int|
                #![trigger gsel[k1], gsel[k2]]
                0 <= k1 < k2 < gsel.len() implies gsel[k1] != gsel[k2] by {
                assert(selected@[k1] != selected@[k2]);
            }
            assert forall|k: int| 0 <= k < gsel.len() implies 0 <= #[trigger] gsel[k] < a.len()
                && ascii_letter(a[gsel[k]]) && upper_of(a[gsel[k]], b[gsel[k]]) by {
                let p = selected@[k];
                assert(gsel[k] == p as int);
                assert(selected@.contains(p));
                assert(ascii_letter(a[p as int]) && upper_of(a[p as int], b[p as int]));
            }
            assert forall|i3: int|
                0 <= i3 < a.len() && !gsel.contains(i3) implies #[trigger] b[i3] == a[i3] by {
                if selected@.contains(i3 as usize) {
                    let k = choose|k: int|
                        0 <= k < selected@.len() && selected@[k] == i3 as usize;
                    assert(gsel[k] == selected@[k] as int);
                    assert(gsel.contains(i3));
                    assert(false);
                }
                assert(b[i3] == a[i3]);
            }
            assert(caps_selection(a, b, gsel));
            assert(has_ascii_letter(a));
            assert(caps_rewrite(a, b));
        }
        out
    }

    /// Generate one passphrase under this configuration.
    #[verifier::rlimit(100)]
    pub fn generate(&self) -> (r: String)
        requires
            self.wf(),
        ensures
            generated_by(*self, r@),
            self.mode == TransformMode::Single(Mode::Chinese) ==> has_wide_char(r@),
            self.add_number && !self.random_capitalize ==> exists|pre: Seq<char>, n: int|
                1000 <= n < 10000 && r@ == #[trigger] (pre + self.separator@ + digits4(n)),
            self.add_number ==> r@.len() >= 4 && exists|n: int|
                1000 <= n < 10000 && r@.subrange(r@.len() - 4, r@.len() as int) == #[trigger] digits4(
                    n,
                ),
            !self.random_capitalize ==> contains_seq(r@, self.separator@),
            (corpora_pinyin_safe(*self) && !(mode_at(self.mode, 0) is Chinese) && !(mode_at(
                self.mode,
                1,
            ) is Chinese) && ascii_seq(self.separator@)) ==> ascii_seq(r@),
            (self.add_number && letter_free(self.separator@)) ==> exists|
                pre: Seq<char>,
                n: int,
            |
                1000 <= n < 10000 && r@ == #[trigger] (pre + self.separator@ + digits4(n)),
            (mode_at(self.mode, 0) is PinyinInit && !self.random_capitalize) ==> exists|
                t0: Seq<char>,
                rest: Seq<char>,
            |
                t0.len() <= MAX_LINE_CHARS && r@ == #[trigger] (t0 + self.separator@ + rest),
    {
        let provider = Provider {
            source: self.source,
            poetry: clone_lines(&self.poetry),
            words: clone_lines(&self.words),
        };
        let (part0, part1) = match self.source {
            Source::Mixed => {
                let a = provider.get();
                let b = provider.get_poetry();
                (a, b)
            },
            Source::WordsPoetry | Source::PoetryWords | Source::WordsWords
                | Source::PoetryPoetry => {
                let a = provider.get_front();
                let b = provider.get_back();
                (a, b)
            },
            _ => {
                let a = provider.get();
                let b = provider.get();
                (a, b)
            },
        };
        let ghost gp0 = part0@;
        let ghost gp1 = part1@;
        proof {
            assert(front_drawn(*self, gp0));
            assert(back_drawn(*self, gp1));
        }
        let mut parts: Vec<String> = Vec::new();
        parts.push(part0);
        parts.push(part1);
        let transformed = transform_with_mode(&parts, &self.mode);
        let mut result = transformed[0].clone();
        result.append(self.separator.as_str());
        result.append(transformed[1].as_str());
        let ghost mut gn: int = 1000;
        if self.add_number {
            let num = random_in_range(1000, 10000);
            proof {
                gn = num as int;
            }
            result.append(self.separator.as_str());
            push_digits4(&mut result, num);
        }
        proof {
            assert(result@ =~= plain_password(*self, gp0, gp1, gn));
        }
        let ghost pre = result@;
        if self.random_capitalize {
            result = Generator::apply_random_capitalization(result.as_str());
        }
        proof {
            assert(generated_from(*self, gp0, gp1, gn, result@));
            assert(generated_by(*self, result@));
            let t0 = spec_transform(gp0, mode_at(self.mode, 0));
            let t1 = spec_transform(gp1, mode_at(self.mode, 1));
            if self.mode == TransformMode::Single(Mode::Chinese) {
                let w = choose|i: int| 0 <= i < gp0.len() && wide_char(gp0[i]);
                assert(pre[w] == gp0[w]);
                if self.random_capitalize {
                    assert(!ascii_letter(pre[w]));
                    lemma_caps_unchanged_at(pre, result@, w);
                }
                assert(wide_char(result@[w]));
            }
            if self.add_number && !self.random_capitalize {
                let prefix = t0 + self.separator@ + t1;
                assert(result@ =~= prefix + self.separator@ + digits4(gn));
            }
            if self.add_number {
                assert(pre.subrange(pre.len() - 4, pre.len() as int) =~= digits4(gn));
                if self.random_capitalize {
                    assert forall|j: int| 0 <= j < 4 implies result@[result@.len() - 4 + j]
                        == digits4(gn)[j] by {
                        assert(pre[pre.len() - 4 + j] == digits4(gn)[j]);
                        assert(!ascii_letter(digits4(gn)[j]));
                        lemma_caps_unchanged_at(pre, result@, pre.len() - 4 + j);
                    }
                }
                assert(result@.subrange(result@.len() - 4, result@.len() as int) =~= digits4(gn));
            }
            if !self.random_capitalize {
                let sep = self.separator@;
                assert(result@.subrange(t0.len() as int, t0.len() + sep.len() as int) =~= sep);
                assert(contains_at(result@, sep, t0.len() as int));
                assert(result@ =~= t0 + sep + (t1 + suffix_of(*self, gn)));
                if mode_at(self.mode, 0) is PinyinInit {
                    lemma_initials_len(gp0);
                }
            }
            if self.add_number && letter_free(self.separator@) && self.random_capitalize {
                let sep = self.separator@;
                let x = t0 + sep + t1;
                assert(pre =~= x + sep + digits4(gn));
                assert forall|j: int| x.len() <= j < pre.len() implies result@[j] == pre[j] by {
                    if j < x.len() + sep.len() {
                        assert(pre[j] == sep[j - x.len()]);
                        assert(!ascii_letter(pre[j]));
                    } else {
                        assert(pre[j] == digits4(gn)[j - x.len() - sep.len()]);
                        assert(!ascii_letter(pre[j]));
                    }
                    lemma_caps_unchanged_at(pre, result@, j);
                }
                let prefix2 = result@.subrange(0, x.len() as int);
                assert(result@ =~= prefix2 + sep + digits4(gn));
            }
            if corpora_pinyin_safe(*self) && !(mode_at(self.mode, 0) is Chinese) && !(mode_at(
                self.mode,
                1,
            ) is Chinese) && ascii_seq(self.separator@) {
                if in_lines(gp0, self.poetry@) {
                    lemma_member_readings(gp0, self.poetry@);
                } else {
                    lemma_member_readings(gp0, self.words@);
                }
                if in_lines(gp1, self.poetry@) {
                    lemma_member_readings(gp1, self.poetry@);
                } else {
                    lemma_member_readings(gp1, self.words@);
                }
                lemma_pinyin_password_ascii(*self, gp0, gp1, gn, result@);
            }
        }
        result
    }

    /// Generate `count` independent passphrases.
    pub fn generate_multiple(&self, count: usize) -> (r: Vec<String>)
        requires
            self.wf(),
        ensures
            r@.len() == count,
            forall|k: int| 0 <= k < count ==> generated_by(*self, #[trigger] r@[k]@),
    {
        let mut out: Vec<String> = Vec::new();
        let mut i: usize = 0;
        while i < count
            invariant
                self.wf(),
                i <= count,
                out@.len() == i,
                forall|k: int| 0 <= k < i ==> generated_by(*self, #[trigger] out@[k]@),
            decreases count - i,
        {
            let s = self.generate();
            let ghost old_out = out@;
            out.push(s);
            proof {
                assert forall|k: int| 0 <= k < i + 1 implies generated_by(
                    *self,
                    #[trigger] out@[k]@,
                ) by {
                    if k < i {
                        assert(out@[k] == old_out[k]);
                    } else {
                        assert(out@[k] == s);
                    }
                }
            }
            i = i + 1;
        }
        out
    }

    /// Generate one passphrase together with the untransformed source: the
    /// drawn fragments joined by the separator, with no number and no
    /// capitalization applied.
    pub fn generate_with_source(&self) -> (r: (String, String))
        requires
            self.wf(),
        ensures
            generated_with_source(*self, r.0@, r.1@),
            (self.mode == TransformMode::Single(Mode::Chinese) && !self.add_number
                && !self.random_capitalize) ==> r.0@ == r.1@,
    {
        let provider = Provider {
            source: self.source,
            poetry: clone_lines(&self.poetry),
            words: clone_lines(&self.words),
        };
        let (part0, part1) = match self.source {
            Source::Mixed => {
                let a = provider.get();
                let b = provider.get_poetry();
                (a, b)
            },
            Source::WordsPoetry | Source::PoetryWords | Source::WordsWords
                | Source::PoetryPoetry => {
                let a = provider.get_front();
                let b = provider.get_back();
                (a, b)
            },
            _ => {
                let a = provider.get();
                let b = provider.get();
                (a, b)
            },
        };
        let ghost gp0 = part0@;
        let ghost gp1 = part1@;
        proof {
            assert(front_drawn(*self, gp0));
            assert(back_drawn(*self, gp1));
        }
        let mut parts: Vec<String> = Vec::new();
        parts.push(part0);
        parts.push(part1);
        let mut source_str = parts[0].clone();
        source_str.append(self.separator.as_str());
        source_str.append(parts[1].as_str());
        let transformed = transform_with_mode(&parts, &self.mode);
        let mut password = transformed[0].clone();
        password.append(self.separator.as_str());
        password.append(transformed[1].as_str());
        let ghost mut gn: int = 1000;
        if self.add_number {
            let num = random_in_range(1000, 10000);
            proof {
                gn = num as int;
            }
            password.append(self.separator.as_str());
            push_digits4(&mut password, num);
        }
        proof {
            assert(password@ =~= plain_password(*self, gp0, gp1, gn));
        }
        if self.random_capitalize {
            password = Generator::apply_random_capitalization(password.as_str());
        }
        proof {
            assert(generated_from(*self, gp0, gp1, gn, password@));
            assert(source_str@ == gp0 + self.separator@ + gp1);
            assert(generated_with_source(*self, password@, source_str@));
            if self.mode == TransformMode::Single(Mode::Chinese) && !self.add_number
                && !self.random_capitalize {
                assert(password@ =~= source_str@);
            }
        }
        (password, source_str)
    }
}

/// With both slots rendered as pinyin, an ASCII separator, and fragments
/// whose readings are all lowercase letters, a generated password is ASCII
/// throughout.
pub proof fn lemma_pinyin_password_ascii(
    g: Generator,
    p0: Seq<char>,
    p1: Seq<char>,
    n: int,
    out: Seq<char>,
)
    requires
        generated_from(g, p0, p1, n, out),
        !(mode_at(g.mode, 0) is Chinese),
        !(mode_at(g.mode, 1) is Chinese),
        ascii_seq(g.separator@),
        readings_letters(p0),
        readings_letters(p1),
    ensures
        ascii_seq(out),
{
    lemma_transform_ascii(p0, mode_at(g.mode, 0));
    lemma_transform_ascii(p1, mode_at(g.mode, 1));
    let t0 = spec_transform(p0, mode_at(g.mode, 0));
    let t1 = spec_transform(p1, mode_at(g.mode, 1));
    lemma_digits4_ascii(n);
    if g.add_number {
        lemma_ascii_concat(g.separator@, digits4(n));
    }
    assert(ascii_seq(suffix_of(g, n)));
    lemma_ascii_concat(t0, g.separator@);
    lemma_ascii_concat(t0 + g.separator@, t1);
    lemma_ascii_concat(t0 + g.separator@ + t1, suffix_of(g, n));
    let pre = plain_password(g, p0, p1, n);
    assert(ascii_seq(pre));
    if g.random_capitalize {
        lemma_caps_ascii(pre, out);
    }
}

} // verus!
