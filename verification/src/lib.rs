pub mod corpus;
pub mod generator;
pub mod provider;
pub mod text;
pub mod transform;

mod random;

pub use generator::Generator;
pub use provider::Source;
pub use transform::{DualMode, Mode, TransformMode};

use vstd::prelude::*;

verus! {

use crate::corpus::checked_or_fallback;
use crate::generator::{corpora_pinyin_safe, default_corpora, generated_by, is_default_config};
use crate::text::{ascii_seq, digits4, has_wide_char};

/// Generate one passphrase with the default configuration: mixed sources,
/// full pinyin, `-` separator, a numeric suffix, no capitalization.
#[verifier::rlimit(100)]
pub fn generate() -> (r: String)
    ensures
        exists|g: Generator|
            is_default_config(g) && g.wf() && default_corpora(g) && checked_or_fallback(g.poetry@)
                && checked_or_fallback(g.words@) && (corpora_pinyin_safe(g) ==> ascii_seq(r@))
                && #[trigger] generated_by(g, r@),
        exists|pre: Seq<char>, n: int|
            1000 <= n < 10000 && r@ == #[trigger] (pre + "-"@ + digits4(n)),
        r@.len() > 0,
{
    let g = Generator::new();
    let r = g.generate();
    proof {
        assert(ascii_seq(g.separator@)) by {
            reveal_strlit("-");
            assert(g.separator@.len() == 1 && g.separator@[0] == '-');
        }
        assert(is_default_config(g) && g.wf() && default_corpora(g) && checked_or_fallback(
            g.poetry@,
        ) && checked_or_fallback(g.words@) && (corpora_pinyin_safe(g) ==> ascii_seq(r@))
            && generated_by(g, r@));
        let (pre, n) = choose|pre: Seq<char>, n: int|
            1000 <= n < 10000 && r@ == pre + g.separator@ + digits4(n);
        assert(r@ == pre + "-"@ + digits4(n));
        assert(r@.len() == pre.len() + "-"@.len() + 4);
    }
    r
}

/// Generate one passphrase that keeps the Chinese fragments untransformed.
pub fn generate_chinese() -> (r: String)
    ensures
        has_wide_char(r@),
        exists|g: Generator|
            g.source is Mixed && g.mode == TransformMode::Single(Mode::Chinese) && g.separator@
                == "-"@ && g.add_number && !g.random_capitalize && g.wf() && default_corpora(g)
                && #[trigger] generated_by(g, r@),
{
    let g = Generator::new().chinese();
    let r = g.generate();
    proof {
        assert(g.wf() && default_corpora(g) && generated_by(g, r@));
    }
    r
}

} // verus!
