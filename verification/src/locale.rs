//! Terminal languages and the choice between a Chinese and an English message.
use vstd::prelude::*;

use crate::text::{
    ascii_lower_seq, chars_of, eq_lit, has_prefix, starts_with_lit, to_ascii_lower, trim, trim_end,
    trim_start, trimmed,
};

verus! {

#[derive(Debug, Clone, Copy, PartialEq, Eq, Structural)]
pub enum Lang {
    ZhCn,
    En,
}

/// `s` names English: `en`, or `en-` followed by a region, in any ASCII case,
/// with surrounding whitespace ignored.
pub open spec fn names_english(s: Seq<char>) -> bool {
    let l = ascii_lower_seq(trimmed(s));
    l == "en"@ || has_prefix(l, "en-"@)
}

impl Lang {
    pub open spec fn parsed(s: Seq<char>) -> Lang {
        if names_english(s) {
            Lang::En
        } else {
            Lang::ZhCn
        }
    }

    pub open spec fn config_view(self) -> Seq<char> {
        match self {
            Lang::ZhCn => "zh-CN"@,
            Lang::En => "en"@,
        }
    }

    /// English for `en` / `en-*` (any case), Chinese for anything else.
    pub fn parse(s: &str) -> (l: Lang)
        ensures
            l == Lang::parsed(s@),
    {
        let v = chars_of(s);
        let t = trim(v.as_slice());
        let lower = to_ascii_lower(t.as_slice());
        if eq_lit(lower.as_slice(), "en") || starts_with_lit(lower.as_slice(), "en-") {
            Lang::En
        } else {
            Lang::ZhCn
        }
    }

    /// The value written to `language` in the config files.
    pub fn as_config_str(self) -> (s: &'static str)
        ensures
            s@ == self.config_view(),
    {
        match self {
            Lang::ZhCn => "zh-CN",
            Lang::En => "en",
        }
    }
}

/// The language written by `as_config_str` is read back as the same language.
pub proof fn law_language_round_trip(l: Lang)
    ensures
        Lang::parsed(l.config_view()) == l,
{
    reveal_strlit("zh-CN");
    reveal_strlit("en");
    reveal_strlit("en-");
    let s = l.config_view();
    assert(trim_start(s) == s);
    assert(trim_end(s) == s);
    let lower = ascii_lower_seq(trimmed(s));
    match l {
        Lang::ZhCn => {
            assert(lower[0] == 'z');
            assert("en"@[0] == 'e');
            assert(lower != "en"@);
            assert(!has_prefix(lower, "en-"@)) by {
                if has_prefix(lower, "en-"@) {
                    assert(lower.subrange(0, 3)[0] == 'e');
                }
            }
        },
        Lang::En => {
            assert(lower =~= "en"@);
        },
    }
}

/// Picks the message in the current language.
pub fn t(lang: Lang, zh: &'static str, en: &'static str) -> (s: &'static str)
    ensures
        s == (match lang {
            Lang::ZhCn => zh,
            Lang::En => en,
        }),
{
    match lang {
        Lang::ZhCn => zh,
        Lang::En => en,
    }
}

/// Builds only the message of the current language.
pub fn tf<Z: FnOnce() -> String, E: FnOnce() -> String>(lang: Lang, zh: Z, en: E) -> (s: String)
    requires
        zh.requires(()),
        en.requires(()),
    ensures
        lang == Lang::ZhCn ==> zh.ensures((), s),
        lang == Lang::En ==> en.ensures((), s),
{
    match lang {
        Lang::ZhCn => zh(),
        Lang::En => en(),
    }
}

} // verus!
