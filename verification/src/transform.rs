//! Rendering a Chinese text fragment as full pinyin, pinyin initials, or
//! the untouched original.

use vstd::prelude::*;

use pinyin::ToPinyin;

use crate::text::{ascii_char, ascii_seq, letters_seq, lower_letter, push_char};

verus! {

/// How a single text fragment is rendered.
#[derive(Clone, Copy, Debug)]
pub enum Mode {
    PinyinFull,
    PinyinInit,
    Chinese,
}

impl Default for Mode {
    fn default() -> (r: Self)
        ensures
            r == Mode::PinyinFull,
    {
        Mode::PinyinFull
    }
}

/// A pair of modes: one for the front fragment, one for the back one.
#[derive(Clone, Copy, Debug)]
pub struct DualMode {
    pub front: Mode,
    pub back: Mode,
}

/// Either one mode applied to every fragment, or one mode per slot.
#[derive(Clone, Copy, Debug)]
pub enum TransformMode {
    Single(Mode),
    Dual(DualMode),
}

impl Default for TransformMode {
    fn default() -> (r: Self)
        ensures
            r == TransformMode::Single(Mode::PinyinFull),
    {
        TransformMode::Single(Mode::PinyinFull)
    }
}

/// The tone-free pinyin reading of a character, if the table has one.
pub uninterp spec fn pinyin_plain(c: char) -> Option<Seq<char>>;

/// Relies on pinyin::ToPinyin for char and pinyin::Pinyin::plain: the
/// tone-free reading is a table lookup, a function of the character alone.
#[verifier::external_body]
pub(crate) fn char_pinyin_plain(c: char) -> (r: Option<String>)
    ensures
        r matches Some(s) ==> pinyin_plain(c) == Some(s@),
        r is None ==> pinyin_plain(c) is None,
{
    c.to_pinyin().map(|p| p.plain().to_owned())
}

/// Every character of the fragment that has a reading has one made of
/// lowercase ASCII letters alone.
pub open spec fn readings_letters(s: Seq<char>) -> bool {
    forall|i: int|
        0 <= i < s.len() ==> (pinyin_plain(#[trigger] s[i]) matches Some(p) ==> letters_seq(p))
}

/// Full pinyin of a fragment: the readings concatenated in order, with the
/// characters that have no reading dropped.
pub open spec fn full_of(s: Seq<char>) -> Seq<char>
    decreases s.len(),
{
    if s.len() == 0 {
        Seq::empty()
    } else {
        full_of(s.drop_last()) + (match pinyin_plain(s.last()) {
            Some(p) => p,
            None => Seq::empty(),
        })
    }
}

/// The contribution of one character under initials mode: the first letter
/// of its reading, `?` if the reading is empty, nothing if it has none.
pub open spec fn init_char_of(c: char) -> Seq<char> {
    match pinyin_plain(c) {
        Some(p) => if p.len() > 0 {
            seq![p[0]]
        } else {
            seq!['?']
        },
        None => Seq::empty(),
    }
}

/// Pinyin initials of a fragment.
pub open spec fn init_of(s: Seq<char>) -> Seq<char>
    decreases s.len(),
{
    if s.len() == 0 {
        Seq::empty()
    } else {
        init_of(s.drop_last()) + init_char_of(s.last())
    }
}

/// What `transform` returns for a fragment under a mode.
pub open spec fn spec_transform(s: Seq<char>, m: Mode) -> Seq<char> {
    match m {
        Mode::Chinese => s,
        Mode::PinyinFull => full_of(s),
        Mode::PinyinInit => init_of(s),
    }
}

/// The mode that applies to slot `i` of a fragment pair.
pub open spec fn mode_at(m: TransformMode, i: int) -> Mode {
    match m {
        TransformMode::Single(mo) => mo,
        TransformMode::Dual(d) => if i == 0 {
            d.front
        } else {
            d.back
        },
    }
}

/// Render one fragment under the given mode.
pub fn transform(text: &str, mode: &Mode) -> (r: String)
    ensures
        r@ == spec_transform(text@, *mode),
{
    match mode {
        Mode::Chinese => text.to_owned(),
        Mode::PinyinFull => {
            let n = text.unicode_len();
            let mut out = String::new();
            let mut i: usize = 0;
            while i < n
                invariant
                    i <= n,
                    n == text@.len(),
                    out@ == full_of(text@.take(i as int)),
                decreases n - i,
            {
                let c = text.get_char(i);
                match char_pinyin_plain(c) {
                    Some(py) => out.append(py.as_str()),
                    None => {},
                }
                proof {
                    let t = text@;
                    assert(t.take(i + 1).drop_last() =~= t.take(i as int));
                    assert(t.take(i + 1).last() == t[i as int]);
                    assert(out@ =~= full_of(t.take(i + 1)));
                }
                i = i + 1;
            }
            proof {
                assert(text@.take(n as int) =~= text@);
            }
            out
        },
        Mode::PinyinInit => {
            let n = text.unicode_len();
            let mut out = String::new();
            let mut i: usize = 0;
            while i < n
                invariant
                    i <= n,
                    n == text@.len(),
                    out@ == init_of(text@.take(i as int)),
                decreases n - i,
            {
                let c = text.get_char(i);
                match char_pinyin_plain(c) {
                    Some(py) => {
                        if py.as_str().unicode_len() > 0 {
                            let c0 = py.as_str().get_char(0);
                            push_char(&mut out, c0);
                        } else {
                            push_char(&mut out, '?');
                        }
                    },
                    None => {},
                }
                proof {
                    let t = text@;
                    assert(t.take(i + 1).drop_last() =~= t.take(i as int));
                    assert(t.take(i + 1).last() == t[i as int]);
                    assert(out@ =~= init_of(t.take(i + 1)));
                }
                i = i + 1;
            }
            proof {
                assert(text@.take(n as int) =~= text@);
            }
            out
        },
    }
}

/// Render a pair of fragments, the front one under `dual_mode.front` and
/// the back one under `dual_mode.back`.
pub fn transform_dual(parts: &Vec<String>, dual_mode: &DualMode) -> (r: Vec<String>)
    ensures
        r@.len() == parts@.len(),
        forall|i: int|
            0 <= i < parts@.len() ==> #[trigger] r@[i]@ == spec_transform(
                parts@[i]@,
                if i == 0 {
                    dual_mode.front
                } else {
                    dual_mode.back
                },
            ),
{
    let n = parts.len();
    let mut out: Vec<String> = Vec::new();
    let mut i: usize = 0;
    while i < n
        invariant
            i <= n,
            n == parts@.len(),
            out@.len() == i,
            forall|k: int|
                0 <= k < i ==> #[trigger] out@[k]@ == spec_transform(
                    parts@[k]@,
                    if k == 0 {
                        dual_mode.front
                    } else {
                        dual_mode.back
                    },
                ),
        decreases n - i,
    {
        let m = if i == 0 {
            dual_mode.front
        } else {
            dual_mode.back
        };
        out.push(transform(parts[i].as_str(), &m));
        i = i + 1;
    }
    out
}

/// Render a pair of fragments under a transform mode: slot `i` gets
/// `mode_at(mode, i)`.
pub fn transform_with_mode(parts: &Vec<String>, transform_mode: &TransformMode) -> (r: Vec<
    String,
>)
    ensures
        r@.len() == parts@.len(),
        forall|i: int|
            0 <= i < parts@.len() ==> #[trigger] r@[i]@ == spec_transform(
                parts@[i]@,
                mode_at(*transform_mode, i),
            ),
{
    match transform_mode {
        TransformMode::Single(mode) => {
            let n = parts.len();
            let mut out: Vec<String> = Vec::new();
            let mut i: usize = 0;
            while i < n
                invariant
                    i <= n,
                    n == parts@.len(),
                    out@.len() == i,
                    forall|k: int|
                        0 <= k < i ==> #[trigger] out@[k]@ == spec_transform(parts@[k]@, *mode),
                decreases n - i,
            {
                out.push(transform(parts[i].as_str(), mode));
                i = i + 1;
            }
            out
        },
        TransformMode::Dual(dual_mode) => transform_dual(parts, dual_mode),
    }
}

/// Under initials mode a fragment never grows: each character contributes
/// at most one letter, and dropped characters contribute none.
pub proof fn lemma_initials_len(s: Seq<char>)
    ensures
        init_of(s).len() <= s.len(),
    decreases s.len(),
{
    if s.len() > 0 {
        lemma_initials_len(s.drop_last());
    }
}

/// A fragment whose readings are all lowercase letters renders to an
/// ASCII string under either pinyin mode.
pub proof fn lemma_transform_ascii(s: Seq<char>, m: Mode)
    requires
        readings_letters(s),
        !(m is Chinese),
    ensures
        ascii_seq(spec_transform(s, m)),
    decreases s.len(),
{
    if s.len() > 0 {
        assert forall|i: int| 0 <= i < s.drop_last().len() implies (pinyin_plain(
            #[trigger] s.drop_last()[i],
        ) matches Some(p) ==> letters_seq(p)) by {
            assert(s.drop_last()[i] == s[i]);
        }
        lemma_transform_ascii(s.drop_last(), m);
        let c = s.last();
        assert(pinyin_plain(c) matches Some(p) ==> letters_seq(p));
        match m {
            Mode::PinyinFull => {
                let head = full_of(s.drop_last());
                let tail = match pinyin_plain(c) {
                    Some(p) => p,
                    None => Seq::<char>::empty(),
                };
                assert forall|i: int| 0 <= i < full_of(s).len() implies ascii_char(
                    #[trigger] full_of(s)[i],
                ) by {
                    if i < head.len() {
                        assert(full_of(s)[i] == head[i]);
                    } else {
                        assert(full_of(s)[i] == tail[i - head.len()]);
                    }
                }
            },
            Mode::PinyinInit => {
                let head = init_of(s.drop_last());
                let tail = init_char_of(c);
                assert(ascii_seq(tail)) by {
                    assert('?' as u32 == 63);
                }
                assert forall|i: int| 0 <= i < init_of(s).len() implies ascii_char(
                    #[trigger] init_of(s)[i],
                ) by {
                    if i < head.len() {
                        assert(init_of(s)[i] == head[i]);
                    } else {
                        assert(init_of(s)[i] == tail[i - head.len()]);
                    }
                }
            },
            Mode::Chinese => {},
        }
    }
}

} // verus!
