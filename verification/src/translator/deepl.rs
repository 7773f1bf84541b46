use vstd::prelude::*;
use vstd::string::StrSliceExecFns;
use vstd::string::StringExecFns;
use crate::translator::{is_first_majority, Language, Param, Response};

verus! {

/// The DeepL backend: holds the opaque credential and owns every
/// backend-specific concern (endpoint choice, parameter encoding).
pub struct DeepL {
    auth_key: String,
}

/// The backend's own string form of each language tag.
pub open spec fn deepl_str_spec(lang: Language) -> Seq<char> {
    match lang {
        Language::BG => "BG"@,
        Language::CS => "CS"@,
        Language::DA => "DA"@,
        Language::DE => "DE"@,
        Language::EL => "EL"@,
        Language::EnGb => "EN-GB"@,
        Language::EnUs => "EN-US"@,
        Language::EN => "EN"@,
        Language::ES => "ES"@,
        Language::ET => "ET"@,
        Language::FI => "FI"@,
        Language::FR => "FR"@,
        Language::HU => "HU"@,
        Language::IT => "IT"@,
        Language::JA => "JA"@,
        Language::LT => "LT"@,
        Language::LV => "LV"@,
        Language::NL => "NL"@,
        Language::PL => "PL"@,
        Language::PtPt => "PT-PT"@,
        Language::PtBr => "PT-BR"@,
        Language::PT => "PT"@,
        Language::RO => "RO"@,
        Language::RU => "RU"@,
        Language::SK => "SK"@,
        Language::SL => "SL"@,
        Language::SV => "SV"@,
        Language::ZH => "ZH"@,
    }
}

/// The backend's own string form of a language tag; the mapping is total
/// over the enumerated set.
pub fn language_to_deepl_str(lang: Language) -> (r: String)
    ensures
        r@ == deepl_str_spec(lang),
{
    match lang {
        Language::BG => String::from_str("BG"),
        Language::CS => String::from_str("CS"),
        Language::DA => String::from_str("DA"),
        Language::DE => String::from_str("DE"),
        Language::EL => String::from_str("EL"),
        Language::EnGb => String::from_str("EN-GB"),
        Language::EnUs => String::from_str("EN-US"),
        Language::EN => String::from_str("EN"),
        Language::ES => String::from_str("ES"),
        Language::ET => String::from_str("ET"),
        Language::FI => String::from_str("FI"),
        Language::FR => String::from_str("FR"),
        Language::HU => String::from_str("HU"),
        Language::IT => String::from_str("IT"),
        Language::JA => String::from_str("JA"),
        Language::LT => String::from_str("LT"),
        Language::LV => String::from_str("LV"),
        Language::NL => String::from_str("NL"),
        Language::PL => String::from_str("PL"),
        Language::PtPt => String::from_str("PT-PT"),
        Language::PtBr => String::from_str("PT-BR"),
        Language::PT => String::from_str("PT"),
        Language::RO => String::from_str("RO"),
        Language::RU => String::from_str("RU"),
        Language::SK => String::from_str("SK"),
        Language::SL => String::from_str("SL"),
        Language::SV => String::from_str("SV"),
        Language::ZH => String::from_str("ZH"),
    }
}

/// A credential that ends in `:fx` belongs to the free tier, which lives on
/// its own host.
pub open spec fn is_free_tier_key(k: Seq<char>) -> bool {
    k.len() >= 3 && k.subrange(k.len() - 3, k.len() as int) == seq![':', 'f', 'x']
}

/// The endpoint the backend must be called on, as a pure function of the
/// credential's shape.
pub open spec fn endpoint_spec(k: Seq<char>) -> Seq<char> {
    if is_free_tier_key(k) {
        "https://api-free.deepl.com/v2/translate"@
    } else {
        "https://api.deepl.com/v2/translate"@
    }
}

impl DeepL {
    /// The credential this backend was created with.
    pub closed spec fn key(self) -> Seq<char> {
        self.auth_key@
    }

    pub fn new(auth_key: String) -> (r: Self)
        ensures
            r.key() == auth_key@,
    {
        Self { auth_key }
    }

    /// Which endpoint the backend's requests must go to, decided by the
    /// credential's shape alone.
    pub fn endpoint_url(&self) -> (r: String)
        ensures
            r@ == endpoint_spec(self.key()),
    {
        let n = self.auth_key.as_str().unicode_len();
        let free = if n >= 3 {
            let c0 = self.auth_key.as_str().get_char(n - 3);
            let c1 = self.auth_key.as_str().get_char(n - 2);
            let c2 = self.auth_key.as_str().get_char(n - 1);
            proof {
                let tail = self.auth_key@.subrange(n - 3, n as int);
                assert(tail.len() == 3);
                assert(tail[0] == self.auth_key@[n - 3]);
                assert(tail[1] == self.auth_key@[n - 2]);
                assert(tail[2] == self.auth_key@[n - 1]);
                if c0 == ':' && c1 == 'f' && c2 == 'x' {
                    assert(tail =~= seq![':', 'f', 'x']);
                }
            }
            c0 == ':' && c1 == 'f' && c2 == 'x'
        } else {
            false
        };
        if free {
            String::from_str("https://api-free.deepl.com/v2/translate")
        } else {
            String::from_str("https://api.deepl.com/v2/translate")
        }
    }

    /// The full, ordered query-parameter list of one request: the
    /// credential, the optional source-language hint, the target language,
    /// one `text` pair per submitted text, and the switch that keeps the
    /// backend from splitting sentences (so line parity with the input is
    /// preserved).
    pub fn build_query(&self, param: &Param) -> (q: Vec<(String, String)>)
        ensures
            query_model(q@) == query_spec(
                self.key(),
                param.source_lang,
                param.target_lang,
                param.texts@,
            ),
    {
        let ghost head = query_spec_head(self.key(), param.source_lang, param.target_lang);
        let mut q: Vec<(String, String)> = Vec::new();
        q.push((String::from_str("auth_key"), self.auth_key.clone()));
        match param.source_lang {
            Some(lang) => {
                q.push((String::from_str("source_lang"), language_to_deepl_str(lang)));
                proof {
                    assert(query_model(q@) =~= head);
                }
            },
            None => {
                proof {
                    assert(query_model(q@) =~= head);
                }
            },
        }
        q.push((String::from_str("target_lang"), language_to_deepl_str(param.target_lang)));
        let ghost prefix = query_model(q@);
        proof {
            assert(prefix =~= head.push(("target_lang"@, deepl_str_spec(param.target_lang))));
        }
        let n = param.texts.len();
        let mut i: usize = 0;
        while i < n
            invariant
                n == param.texts@.len(),
                i <= n,
                query_model(q@) == prefix + text_pairs(param.texts@.take(i as int)),
            decreases n - i,
        {
            let ghost qpre = q@;
            q.push((String::from_str("text"), param.texts[i].clone()));
            proof {
                assert(q@ =~= qpre.push((q@.last().0, q@.last().1)));
                assert(query_model(q@) =~= query_model(qpre).push(
                    ("text"@, param.texts@[i as int]@),
                ));
                assert(param.texts@.take(i + 1).drop_last() =~= param.texts@.take(i as int));
                assert(text_pairs(param.texts@.take(i + 1)) =~= text_pairs(
                    param.texts@.take(i as int),
                ).push(("text"@, param.texts@[i as int]@)));
                assert(query_model(q@) =~= prefix + text_pairs(param.texts@.take(i + 1)));
            }
            i += 1;
        }
        let ghost qmid = q@;
        q.push((String::from_str("split_sentences"), String::from_str("0")));
        proof {
            assert(param.texts@.take(n as int) =~= param.texts@);
            assert(q@ =~= qmid.push((q@.last().0, q@.last().1)));
            assert(query_model(q@) =~= query_model(qmid).push(("split_sentences"@, "0"@)));
            assert(query_model(q@) =~= query_spec(
                self.key(),
                param.source_lang,
                param.target_lang,
                param.texts@,
            ));
        }
        q
    }
}

/// The views of a list of name/value pairs.
pub open spec fn query_model(q: Seq<(String, String)>) -> Seq<(Seq<char>, Seq<char>)> {
    q.map_values(|p: (String, String)| (p.0@, p.1@))
}

/// One `text` pair per submitted text, in order.
pub open spec fn text_pairs(texts: Seq<String>) -> Seq<(Seq<char>, Seq<char>)> {
    texts.map_values(|t: String| ("text"@, t@))
}

/// The leading query parameters: the credential and, when one was declared,
/// the source-language hint.
pub open spec fn query_spec_head(
    key: Seq<char>,
    source_lang: Option<Language>,
    target_lang: Language,
) -> Seq<(Seq<char>, Seq<char>)> {
    seq![("auth_key"@, key)] + (match source_lang {
        Some(l) => seq![("source_lang"@, deepl_str_spec(l))],
        None => Seq::<(Seq<char>, Seq<char>)>::empty(),
    })
}

/// The query-parameter list a request for `texts` must carry.
pub open spec fn query_spec(
    key: Seq<char>,
    source_lang: Option<Language>,
    target_lang: Language,
    texts: Seq<String>,
) -> Seq<(Seq<char>, Seq<char>)> {
    seq![("auth_key"@, key)] + (match source_lang {
        Some(l) => seq![("source_lang"@, deepl_str_spec(l))],
        None => Seq::<(Seq<char>, Seq<char>)>::empty(),
    }) + seq![("target_lang"@, deepl_str_spec(target_lang))] + text_pairs(texts) + seq![
        ("split_sentences"@, "0"@),
    ]
}

/// The first components of a list of pairs.
pub open spec fn detected_langs(items: Seq<(String, String)>) -> Seq<String> {
    items.map_values(|p: (String, String)| p.0)
}

/// Folds one backend response's per-text records, each a detected source
/// language beside a translated text, into one `Response`: the texts in
/// order, under the most frequently detected language (a tie goes to the
/// language detected earliest). An empty record list yields an empty
/// language tag.
pub fn response_from_translations(items: &Vec<(String, String)>) -> (r: Response)
    ensures
        r.texts@.len() == items@.len(),
        forall|i: int| 0 <= i < items@.len() ==> r.texts@[i]@ == items@[i].1@,
        items@.len() == 0 ==> r.source_lang@ == Seq::<char>::empty(),
        items@.len() > 0 ==> exists|b: int|
            is_first_majority(detected_langs(items@), b) && r.source_lang@ == detected_langs(
                items@,
            )[b]@,
{
    let n = items.len();
    let mut langs: Vec<String> = Vec::new();
    let mut texts: Vec<String> = Vec::new();
    let mut i: usize = 0;
    while i < n
        invariant
            n == items@.len(),
            i <= n,
            texts@.len() == i,
            forall|j: int| 0 <= j < i ==> texts@[j]@ == items@[j].1@,
            langs@ == detected_langs(items@.take(i as int)),
        decreases n - i,
    {
        langs.push(items[i].0.clone());
        texts.push(items[i].1.clone());
        proof {
            assert(items@.take(i + 1).drop_last() =~= items@.take(i as int));
            assert(langs@ =~= detected_langs(items@.take(i + 1)));
        }
        i += 1;
    }
    proof {
        assert(items@.take(n as int) =~= items@);
    }
    let source_lang = match crate::translator::majority_vote(&langs) {
        Some(l) => l,
        None => String::new(),
    };
    Response { source_lang, texts }
}

} // verus!
