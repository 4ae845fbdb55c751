use vstd::prelude::*;

use crate::text::str_eq;

verus! {

/// A user-interface language.
#[derive(Clone, Copy, Debug, PartialEq, Eq, Structural)]
pub enum LanguageId {
    English,
    Dutch,
    Spanish,
    French,
    German,
    Japanese,
    Korean,
    SimplifiedChinese,
    TraditionalChinese,
    Russian,
    PortugueseBrazil,
}

/// The settings code of a language.
pub open spec fn language_code(l: LanguageId) -> Seq<char> {
    match l {
        LanguageId::English => "en"@,
        LanguageId::Dutch => "nl"@,
        LanguageId::Spanish => "es"@,
        LanguageId::French => "fr"@,
        LanguageId::German => "de"@,
        LanguageId::Japanese => "ja"@,
        LanguageId::Korean => "ko"@,
        LanguageId::SimplifiedChinese => "zh-CN"@,
        LanguageId::TraditionalChinese => "zh-TW"@,
        LanguageId::Russian => "ru"@,
        LanguageId::PortugueseBrazil => "pt-BR"@,
    }
}

/// The languages in menu order.
pub open spec fn all_languages() -> Seq<LanguageId> {
    seq![
        LanguageId::English,
        LanguageId::Dutch,
        LanguageId::Spanish,
        LanguageId::French,
        LanguageId::German,
        LanguageId::Japanese,
        LanguageId::Korean,
        LanguageId::SimplifiedChinese,
        LanguageId::TraditionalChinese,
        LanguageId::Russian,
        LanguageId::PortugueseBrazil,
    ]
}

/// `code` is the settings code of some language.
pub open spec fn is_language_code(code: Seq<char>) -> bool {
    exists|l: LanguageId| language_code(l) == code
}

impl LanguageId {
    /// The languages in menu order.
    pub fn all() -> (v: Vec<LanguageId>)
        ensures
            v@ == all_languages(),
    {
        let v = vec![
            LanguageId::English,
            LanguageId::Dutch,
            LanguageId::Spanish,
            LanguageId::French,
            LanguageId::German,
            LanguageId::Japanese,
            LanguageId::Korean,
            LanguageId::SimplifiedChinese,
            LanguageId::TraditionalChinese,
            LanguageId::Russian,
            LanguageId::PortugueseBrazil,
        ];
        assert(v@ =~= all_languages());
        v
    }

    /// The settings code of the language.
    pub fn code(self) -> (c: &'static str)
        ensures
            c@ == language_code(self),
    {
        match self {
            LanguageId::English => "en",
            LanguageId::Dutch => "nl",
            LanguageId::Spanish => "es",
            LanguageId::French => "fr",
            LanguageId::German => "de",
            LanguageId::Japanese => "ja",
            LanguageId::Korean => "ko",
            LanguageId::SimplifiedChinese => "zh-CN",
            LanguageId::TraditionalChinese => "zh-TW",
            LanguageId::Russian => "ru",
            LanguageId::PortugueseBrazil => "pt-BR",
        }
    }
}

/// Whether `code` is the settings code of one of the languages.
pub fn is_supported_language_code(code: &str) -> (b: bool)
    ensures
        b == is_language_code(code@),
{
    let all = LanguageId::all();
    let mut i: usize = 0;
    while i < all.len()
        invariant
            i <= all.len(),
            all@ == all_languages(),
            forall|k: int| 0 <= k < i ==> language_code(#[trigger] all@[k]) != code@,
        decreases all.len() - i,
    {
        if str_eq(all[i].code(), code) {
            return true;
        }
        i = i + 1;
    }
    proof {
        assert forall|l: LanguageId| language_code(l) != code@ by {
            assert(all_languages().contains(l)) by {
                match l {
                    LanguageId::English => assert(all_languages()[0] == l),
                    LanguageId::Dutch => assert(all_languages()[1] == l),
                    LanguageId::Spanish => assert(all_languages()[2] == l),
                    LanguageId::French => assert(all_languages()[3] == l),
                    LanguageId::German => assert(all_languages()[4] == l),
                    LanguageId::Japanese => assert(all_languages()[5] == l),
                    LanguageId::Korean => assert(all_languages()[6] == l),
                    LanguageId::SimplifiedChinese => assert(all_languages()[7] == l),
                    LanguageId::TraditionalChinese => assert(all_languages()[8] == l),
                    LanguageId::Russian => assert(all_languages()[9] == l),
                    LanguageId::PortugueseBrazil => assert(all_languages()[10] == l),
                }
            }
        }
    }
    false
}

} // verus!
