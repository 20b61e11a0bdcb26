//! The two languages of the native user interface.

use vstd::prelude::*;

use crate::text::same_text;

verus! {

/// A language of the native user interface.
#[derive(Clone, Copy, Debug, PartialEq, Eq, Structural)]
pub enum NativeLocale {
    Zh,
    En,
}

impl NativeLocale {
    /// The one of two values that belongs to this language.
    pub open spec fn pick<T>(self, zh: T, en: T) -> T {
        match self {
            NativeLocale::Zh => zh,
            NativeLocale::En => en,
        }
    }

    /// The language that a preference names.
    pub open spec fn named(value: Seq<char>) -> Option<NativeLocale> {
        if value == "zh"@ {
            Some(NativeLocale::Zh)
        } else if value == "en"@ {
            Some(NativeLocale::En)
        } else {
            None
        }
    }

    /// Reads a language preference: `zh` and `en` are supported.
    pub fn parse(value: &str) -> (locale: Option<NativeLocale>)
        ensures
            locale == NativeLocale::named(value@),
    {
        if same_text(value, "zh") {
            Some(NativeLocale::Zh)
        } else if same_text(value, "en") {
            Some(NativeLocale::En)
        } else {
            None
        }
    }

    /// The text of this language.
    pub fn text(self, zh: &'static str, en: &'static str) -> (text: &'static str)
        ensures
            text == self.pick(zh, en),
            text@ == self.pick(zh@, en@),
    {
        match self {
            NativeLocale::Zh => zh,
            NativeLocale::En => en,
        }
    }
}

/// The language to start with, given what the operating system reports where it
/// reports one: 1 stands for English, everything else for Chinese.
pub fn preferred_native_locale(reported: Option<i32>) -> (locale: NativeLocale)
    ensures
        locale == (if reported == Some(1i32) {
            NativeLocale::En
        } else {
            NativeLocale::Zh
        }),
{
    match reported {
        Some(1) => NativeLocale::En,
        _ => NativeLocale::Zh,
    }
}

/// Two texts of the native interface are told apart by the language: the first
/// belongs to Chinese, the second to English, and no other preference is known.
pub proof fn law_languages<T>(zh: T, en: T, value: Seq<char>)
    ensures
        NativeLocale::Zh.pick(zh, en) == zh,
        NativeLocale::En.pick(zh, en) == en,
        NativeLocale::named("zh"@) == Some(NativeLocale::Zh),
        NativeLocale::named("en"@) == Some(NativeLocale::En),
        NativeLocale::named(value) is Some ==> value == "zh"@ || value == "en"@,
{
    reveal_strlit("zh");
    reveal_strlit("en");
    assert("zh"@[0] == 'z' && "en"@[0] == 'e');
}

/// Only `zh` and `en` are read, each as its own language; the operating system's 1
/// stands for English and everything else for Chinese.
pub proof fn law_read_languages(
    value: &str,
    locale: Option<NativeLocale>,
    reported: Option<i32>,
    preferred: NativeLocale,
)
    ensures
        call_ensures(NativeLocale::parse, (value,), locale) ==> {
            &&& value@ == "zh"@ ==> locale == Some(NativeLocale::Zh)
            &&& value@ == "en"@ ==> locale == Some(NativeLocale::En)
            &&& value@ != "zh"@ && value@ != "en"@ ==> locale is None
        },
        call_ensures(preferred_native_locale, (reported,), preferred) ==> (preferred
            == NativeLocale::En) == (reported is Some && reported->0 == 1),
{
    law_languages(0int, 0int, value@);
}

} // verus!
