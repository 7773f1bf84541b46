use vstd::prelude::*;
use vstd::string::StringExecFns;
use crate::error::Error;
use crate::strings::str_eq;

pub mod deepl;

verus! {

/// The closed set of language tags the pipeline understands. The variants
/// cover regional spellings where the backend distinguishes them.
#[derive(Clone, Copy, Debug, PartialEq, Eq, Structural)]
pub enum Language {
    /// Bulgarian
    BG,
    /// Czech
    CS,
    /// Danish
    DA,
    /// German
    DE,
    /// Greek
    EL,
    /// English (British)
    EnGb,
    /// English (American)
    EnUs,
    /// English (unspecified variant)
    EN,
    /// Spanish
    ES,
    /// Estonian
    ET,
    /// Finnish
    FI,
    /// French
    FR,
    /// Hungarian
    HU,
    /// Italian
    IT,
    /// Japanese
    JA,
    /// Lithuanian
    LT,
    /// Latvian
    LV,
    /// Dutch
    NL,
    /// Polish
    PL,
    /// Portuguese (European)
    PtPt,
    /// Portuguese (Brazilian)
    PtBr,
    /// Portuguese (unspecified variant)
    PT,
    /// Romanian
    RO,
    /// Russian
    RU,
    /// Slovak
    SK,
    /// Slovenian
    SL,
    /// Swedish
    SV,
    /// Chinese
    ZH,
}

/// The canonical lower-case display form of each language tag.
pub open spec fn display_spec(lang: Language) -> Seq<char> {
    match lang {
        Language::BG => "bg"@,
        Language::CS => "cs"@,
        Language::DA => "da"@,
        Language::DE => "de"@,
        Language::EL => "el"@,
        Language::EnGb => "en-gb"@,
        Language::EnUs => "en-us"@,
        Language::EN => "en"@,
        Language::ES => "es"@,
        Language::ET => "et"@,
        Language::FI => "fi"@,
        Language::FR => "fr"@,
        Language::HU => "hu"@,
        Language::IT => "it"@,
        Language::JA => "ja"@,
        Language::LT => "lt"@,
        Language::LV => "lv"@,
        Language::NL => "nl"@,
        Language::PL => "pl"@,
        Language::PtPt => "pt-pt"@,
        Language::PtBr => "pt-br"@,
        Language::PT => "pt"@,
        Language::RO => "ro"@,
        Language::RU => "ru"@,
        Language::SK => "sk"@,
        Language::SL => "sl"@,
        Language::SV => "sv"@,
        Language::ZH => "zh"@,
    }
}

impl Language {
    /// The canonical lower-case display form of the tag, as it appears in
    /// output file names and resolved source-language reports.
    pub fn display_name(&self) -> (r: String)
        ensures
            r@ == display_spec(*self),
    {
        match self {
            Language::BG => String::from_str("bg"),
            Language::CS => String::from_str("cs"),
            Language::DA => String::from_str("da"),
            Language::DE => String::from_str("de"),
            Language::EL => String::from_str("el"),
            Language::EnGb => String::from_str("en-gb"),
            Language::EnUs => String::from_str("en-us"),
            Language::EN => String::from_str("en"),
            Language::ES => String::from_str("es"),
            Language::ET => String::from_str("et"),
            Language::FI => String::from_str("fi"),
            Language::FR => String::from_str("fr"),
            Language::HU => String::from_str("hu"),
            Language::IT => String::from_str("it"),
            Language::JA => String::from_str("ja"),
            Language::LT => String::from_str("lt"),
            Language::LV => String::from_str("lv"),
            Language::NL => String::from_str("nl"),
            Language::PL => String::from_str("pl"),
            Language::PtPt => String::from_str("pt-pt"),
            Language::PtBr => String::from_str("pt-br"),
            Language::PT => String::from_str("pt"),
            Language::RO => String::from_str("ro"),
            Language::RU => String::from_str("ru"),
            Language::SK => String::from_str("sk"),
            Language::SL => String::from_str("sl"),
            Language::SV => String::from_str("sv"),
            Language::ZH => String::from_str("zh"),
        }
    }
}

/// One translation request: an order-significant list of texts, an optional
/// declared source language, and the required target language.
pub struct Param {
    pub texts: Vec<String>,
    pub source_lang: Option<Language>,
    pub target_lang: Language,
}

/// One translation response: the backend's detected (or echoed) source
/// language and the translated texts, in request order.
pub struct Response {
    pub source_lang: String,
    pub texts: Vec<String>,
}

/// The capability a concrete translation backend provides. A failure of any
/// kind is reported through `Error`, never by panicking.
pub trait Translator {
    fn translate(&self, param: Param) -> Result<Response, Error>;
}

/// How many members of `s` read as `x`.
pub open spec fn occ(s: Seq<String>, x: Seq<char>) -> nat
    decreases s.len(),
{
    if s.len() == 0 {
        0
    } else {
        occ(s.drop_last(), x) + if s.last()@ == x {
            1nat
        } else {
            0nat
        }
    }
}

/// Counts the members of `langs` that read as `x`.
fn count_occurrences(langs: &Vec<String>, x: &String) -> (c: usize)
    ensures
        c == occ(langs@, x@),
{
    let n = langs.len();
    let mut c: usize = 0;
    let mut j: usize = 0;
    while j < n
        invariant
            n == langs@.len(),
            j <= n,
            c <= j,
            c == occ(langs@.take(j as int), x@),
        decreases n - j,
    {
        proof {
            assert(langs@.take(j + 1).drop_last() =~= langs@.take(j as int));
            assert(langs@.take(j + 1).last() == langs@[j as int]);
        }
        if str_eq(langs[j].as_str(), x.as_str()) {
            c += 1;
        }
        j += 1;
    }
    proof {
        assert(langs@.take(n as int) =~= langs@);
    }
    c
}

/// `b` is the index of the first value in `langs` whose number of
/// occurrences is the maximum over the whole list.
pub open spec fn is_first_majority(langs: Seq<String>, b: int) -> bool {
    &&& 0 <= b < langs.len()
    &&& forall|j: int|
        0 <= j < langs.len() ==> occ(langs, langs[j]@) <= occ(langs, langs[b]@)
    &&& forall|j: int| 0 <= j < b ==> occ(langs, langs[j]@) < occ(langs, langs[b]@)
}

/// Resolves one language value out of many reported ones: the most frequent
/// value wins, and a tie goes to the value whose first report came earliest.
pub fn majority_vote(langs: &Vec<String>) -> (r: Option<String>)
    ensures
        (r is Some) <==> langs@.len() > 0,
        r matches Some(l) ==> exists|b: int| is_first_majority(langs@, b) && l@ == langs@[b]@,
{
    let n = langs.len();
    if n == 0 {
        return None;
    }
    let mut best_i: usize = 0;
    let mut best_c: usize = count_occurrences(langs, &langs[0]);
    let mut i: usize = 1;
    while i < n
        invariant
            n == langs@.len(),
            1 <= i <= n,
            best_i < i,
            best_c == occ(langs@, langs@[best_i as int]@),
            forall|j: int| 0 <= j < i ==> occ(langs@, langs@[j]@) <= best_c,
            forall|j: int| 0 <= j < best_i ==> occ(langs@, langs@[j]@) < best_c,
        decreases n - i,
    {
        let c = count_occurrences(langs, &langs[i]);
        if c > best_c {
            best_i = i;
            best_c = c;
        }
        i += 1;
    }
    proof {
        assert(is_first_majority(langs@, best_i as int));
    }
    Some(langs[best_i].clone())
}

/// A backend that hands every text back unchanged and reports the declared
/// target language as the detected source language. It exercises the
/// pipeline without any remote service.
pub struct EchoTranslator;

/// The response the echoing backend gives: the texts unchanged, in order,
/// and the target language's display form as the detected language.
pub fn echo_translate(param: &Param) -> (r: Response)
    ensures
        r.texts@.len() == param.texts@.len(),
        forall|i: int| 0 <= i < r.texts@.len() ==> r.texts@[i]@ == param.texts@[i]@,
        r.source_lang@ == display_spec(param.target_lang),
{
    let n = param.texts.len();
    let mut texts: Vec<String> = Vec::new();
    let mut i: usize = 0;
    while i < n
        invariant
            n == param.texts@.len(),
            i <= n,
            texts@.len() == i,
            forall|j: int| 0 <= j < i ==> texts@[j]@ == param.texts@[j]@,
        decreases n - i,
    {
        texts.push(param.texts[i].clone());
        i += 1;
    }
    Response { source_lang: param.target_lang.display_name(), texts }
}

impl Translator for EchoTranslator {
    fn translate(&self, param: Param) -> Result<Response, Error> {
        Ok(echo_translate(&param))
    }
}

} // verus!
