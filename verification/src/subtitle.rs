use vstd::prelude::*;
use vstd::string::StringExecFns;
use crate::error::Error;
use crate::srt;
use crate::strings::{strip_newlines, without_newlines};
use crate::translator::{
    display_spec, is_first_majority, Language, Param, Response, Translator,
};

verus! {

/// A start/end pair of timestamps, in milliseconds, marking when a subtitle
/// entry is shown.
#[derive(Clone, Copy, PartialEq, Eq, Structural, Debug)]
pub struct TimeSpan {
    pub start: u64,
    pub end: u64,
}

/// One timed line of a subtitle document.
pub struct SubtitleEntry {
    pub timespan: TimeSpan,
    pub line: Option<String>,
}

/// The mathematical shape of one entry: the two timestamps and the text, if
/// any.
pub ghost struct EntryModel {
    pub start: u64,
    pub end: u64,
    pub line: Option<Seq<char>>,
}

impl View for SubtitleEntry {
    type V = EntryModel;

    open spec fn view(&self) -> EntryModel {
        EntryModel {
            start: self.timespan.start,
            end: self.timespan.end,
            line: match self.line {
                Some(s) => Some(s@),
                None => None,
            },
        }
    }
}

/// The text an entry contributes to a translation request: its line, or the
/// empty text when it has none.
pub open spec fn line_text(m: EntryModel) -> Seq<char> {
    match m.line {
        Some(t) => t,
        None => Seq::empty(),
    }
}

/// The models of a list of entries.
pub open spec fn models_of(s: Seq<SubtitleEntry>) -> Seq<EntryModel> {
    s.map_values(|e: SubtitleEntry| e@)
}

/// An ordered sequence of timed entries: one subtitle document.
pub struct Subtitle {
    pub entries: Vec<SubtitleEntry>,
}

impl View for Subtitle {
    type V = Seq<EntryModel>;

    open spec fn view(&self) -> Seq<EntryModel> {
        models_of(self.entries@)
    }
}

/// The bilingual text of one output entry: the original line first, then
/// the translated line; the translated line alone when the original was
/// empty.
pub open spec fn bilingual_spec(orig: Seq<char>, translated: Seq<char>) -> Seq<char> {
    if orig.len() == 0 {
        translated
    } else {
        orig + seq!['\n'] + translated
    }
}

/// The document that merging a translated text list onto the original
/// entries produces: the original time spans, index for index, each over
/// the bilingual text.
pub open spec fn merged_model(d: Seq<EntryModel>, tr: Seq<Seq<char>>) -> Seq<EntryModel> {
    Seq::new(
        d.len(),
        |i: int| EntryModel {
            start: d[i].start,
            end: d[i].end,
            line: Some(bilingual_spec(line_text(d[i]), tr[i])),
        },
    )
}

/// The views of a list of strings.
pub open spec fn str_views(s: Seq<String>) -> Seq<Seq<char>> {
    s.map_values(|t: String| t@)
}

/// How many backend calls a document of `n` texts takes, at thirty texts
/// per request.
pub open spec fn chunk_count(n: nat) -> nat
    decreases n,
{
    if n == 0 {
        0
    } else if n <= 30 {
        1
    } else {
        1 + chunk_count((n - 30) as nat)
    }
}

/// What the resolved document-level source language may be: the declared
/// language's display form when one was declared, otherwise the first
/// majority among the chunk-level reports, or English when there was no
/// report at all.
pub open spec fn resolved_lang_ok(
    explicit: Option<Language>,
    langs: Seq<String>,
    out: Seq<char>,
) -> bool {
    match explicit {
        Some(l) => out == display_spec(l),
        None => if langs.len() == 0 {
            out == display_spec(Language::EN)
        } else {
            exists|b: int| is_first_majority(langs, b) && out == langs[b]@
        },
    }
}

/// What a successful translation run guarantees: some text list of the
/// right length came back from the backend, chunk by chunk, the output
/// bytes serialize the merge of that list onto the original entries, and
/// the reported language was resolved from the chunk reports.
pub open spec fn translate_ok(
    d: Seq<EntryModel>,
    explicit: Option<Language>,
    out_lang: Seq<char>,
    out_bytes: Seq<u8>,
) -> bool {
    exists|tr: Seq<Seq<char>>, langs: Seq<String>|
        {
            &&& tr.len() == d.len()
            &&& langs.len() == chunk_count(d.len())
            &&& out_bytes == srt::utf8_bytes_of(srt::render_doc(merged_model(d, tr)))
            &&& resolved_lang_ok(explicit, langs, out_lang)
        }
}

/// Order preservation and count parity of the merge: the merged document
/// has exactly as many entries as the original, and the time span at every
/// index is the original one, unchanged.
pub proof fn lemma_merge_preserves_timeline(d: Seq<EntryModel>, tr: Seq<Seq<char>>)
    requires
        tr.len() == d.len(),
    ensures
        merged_model(d, tr).len() == d.len(),
        forall|i: int|
            0 <= i < d.len() ==> merged_model(d, tr)[i].start == d[i].start && merged_model(
                d,
                tr,
            )[i].end == d[i].end,
{
}

/// Chunking is invisible in the merged result: for a backend that treats
/// each text independently, translating the texts split into consecutive
/// chunks and concatenating the answers gives the same list as translating
/// them all at once.
pub proof fn lemma_chunking_transparent(
    chunks: Seq<Seq<Seq<char>>>,
    texts: Seq<Seq<char>>,
    f: spec_fn(Seq<char>) -> Seq<char>,
)
    requires
        chunks.flatten() == texts,
    ensures
        chunks.map_values(|c: Seq<Seq<char>>| c.map_values(f)).flatten() == texts.map_values(f),
    decreases chunks.len(),
{
    let g = |c: Seq<Seq<char>>| c.map_values(f);
    if chunks.len() == 0 {
        assert(chunks.map_values(g).flatten() =~= texts.map_values(f));
    } else {
        let first = chunks.first();
        let rest = chunks.drop_first();
        lemma_chunking_transparent(rest, rest.flatten(), f);
        assert(chunks.map_values(g).drop_first() =~= rest.map_values(g));
        assert(chunks.map_values(g).flatten() == g(first) + rest.map_values(g).flatten());
        assert((first + rest.flatten()).map_values(f) =~= first.map_values(f) + rest.flatten()
            .map_values(f));
        assert(texts == first + rest.flatten());
        assert(chunks.map_values(g).flatten() =~= texts.map_values(f));
    }
}

/// Builds the texts of one request: the texts `from` up to `to`, each with
/// its embedded line breaks removed so that the backend cannot split one
/// subtitle line into several.
pub fn request_texts(texts: &Vec<String>, from: usize, to: usize) -> (r: Vec<String>)
    requires
        from <= to <= texts@.len(),
    ensures
        r@.len() == to - from,
        forall|k: int| 0 <= k < to - from ==> r@[k]@ == without_newlines(texts@[from + k]@),
{
    let mut r: Vec<String> = Vec::new();
    let mut k = from;
    while k < to
        invariant
            from <= k <= to <= texts@.len(),
            r@.len() == k - from,
            forall|t: int| 0 <= t < k - from ==> r@[t]@ == without_newlines(texts@[from + t]@),
        decreases to - k,
    {
        r.push(strip_newlines(texts[k].as_str()));
        k += 1;
    }
    r
}

/// The end of the request chunk that starts at `i` in a list of `n`
/// texts: thirty texts onward, or the end of the list, whichever comes
/// first. Every request therefore carries at most thirty texts, safely
/// below the backend's documented cap of fifty.
pub fn chunk_end(i: usize, n: usize) -> (end: usize)
    requires
        i < n,
    ensures
        i < end <= n,
        end - i <= 30,
        end == (if n - i < 30 {
            n as int
        } else {
            i + 30
        }),
{
    if n - i < 30 {
        n
    } else {
        i + 30
    }
}

/// Accepts one backend response against the request that produced it:
/// when the response answers the request text for text, hands back
/// exactly its detected language and its texts; when the count differs,
/// reports the contract violation with both counts — never a truncated
/// or padded list.
pub fn accept_response(resp: Response, expected: usize) -> (r: Result<
    (String, Vec<String>),
    Error,
>)
    ensures
        (r is Ok) <==> resp.texts@.len() == expected,
        r matches Ok(p) ==> p.0 == resp.source_lang && p.1 == resp.texts,
        r matches Err(e) ==> e == (Error::ResponseLengthMismatch {
            expected,
            actual: resp.texts@.len() as usize,
        }),
{
    let actual = resp.texts.len();
    if actual == expected {
        Ok((resp.source_lang, resp.texts))
    } else {
        Err(Error::ResponseLengthMismatch { expected, actual })
    }
}

/// Resolves the document-level source language: the declared language's
/// display form when one was declared, otherwise the majority among the
/// chunk reports, or English when there was none.
pub fn resolve_source_lang(explicit: Option<Language>, chunk_langs: &Vec<String>) -> (r: String)
    ensures
        resolved_lang_ok(explicit, chunk_langs@, r@),
{
    match explicit {
        Some(l) => l.display_name(),
        None => match crate::translator::majority_vote(chunk_langs) {
            Some(l) => l,
            None => Language::EN.display_name(),
        },
    }
}

impl Subtitle {
    /// Parses raw bytes under the format the file-extension hint declares.
    /// Succeeds exactly when the hint declares SubRip, the bytes are valid
    /// for the text encoding, and the decoded text is a SubRip document.
    /// A recognized other format, an unknown hint, byte content invalid
    /// for the text encoding, and text that is no SubRip document are each
    /// refused with a decode error.
    pub fn new(raw: Vec<u8>, extension: Option<&str>) -> (r: Result<Subtitle, Error>)
        ensures
            (r is Ok) <==> {
                &&& ext_format(extension) == Some(srt::SubtitleFormat::SubRip)
                &&& srt::utf8_valid(raw@)
                &&& srt::parse_doc_spec(srt::utf8_chars_of(raw@)) is Some
            },
            r matches Ok(sub) ==> srt::parse_doc_spec(srt::utf8_chars_of(raw@)) == Some(sub@),
            r matches Err(e) ==> e is SubtitleDecodeError,
    {
        let fmt = match extension {
            Some(e) => srt::format_of_extension(e),
            None => None,
        };
        match fmt {
            Some(srt::SubtitleFormat::SubRip) => match srt::decode_utf8(raw) {
                Some(s) => Subtitle::from_srt_text(s.as_str()),
                None => Err(
                    Error::SubtitleDecodeError(
                        String::from_str("the content is not valid text under the expected encoding"),
                    ),
                ),
            },
            Some(_) => Err(
                Error::SubtitleDecodeError(
                    String::from_str("the format is recognized but not supported"),
                ),
            ),
            None => Err(
                Error::SubtitleDecodeError(String::from_str("unrecognized subtitle format")),
            ),
        }
    }

    /// Parses SubRip text into a document; succeeds exactly on text that
    /// the SubRip grammar admits.
    pub fn from_srt_text(s: &str) -> (r: Result<Subtitle, Error>)
        ensures
            (r is Ok) <==> (srt::parse_doc_spec(s@) is Some),
            r matches Ok(sub) ==> srt::parse_doc_spec(s@) == Some(sub@),
            r matches Err(e) ==> e is SubtitleDecodeError,
    {
        let chars = srt::chars_vec(s);
        let lines = srt::split_lines(&chars);
        match srt::parse_blocks_exec(&lines, 0) {
            Some(entries) => Ok(Subtitle { entries }),
            None => Err(
                Error::SubtitleDecodeError(
                    String::from_str("the text is not a SubRip document"),
                ),
            ),
        }
    }

    /// Builds a document from a list of timed entries, kept in the given
    /// order.
    pub fn build(entries: Vec<SubtitleEntry>) -> (r: Subtitle)
        ensures
            r@ == models_of(entries@),
    {
        Subtitle { entries }
    }

    /// Serializes the document back to bytes.
    pub fn serialize(&self) -> (r: Vec<u8>)
        ensures
            r@ == srt::utf8_bytes_of(srt::render_doc(self@)),
    {
        srt::encode_utf8(srt::serialize_entries(&self.entries))
    }

    /// The texts of the entries, in document order; an entry with no text
    /// contributes an empty string so that positions stay aligned with the
    /// time spans.
    pub fn texts_of(&self) -> (r: Vec<String>)
        ensures
            r@.len() == self@.len(),
            forall|i: int| 0 <= i < self@.len() ==> r@[i]@ == line_text(self@[i]),
    {
        let n = self.entries.len();
        let mut r: Vec<String> = Vec::new();
        let mut i: usize = 0;
        while i < n
            invariant
                n == self.entries@.len(),
                i <= n,
                r@.len() == i,
                forall|j: int| 0 <= j < i ==> r@[j]@ == line_text(self@[j]),
            decreases n - i,
        {
            proof {
                assert(self@[i as int] == self.entries@[i as int]@);
            }
            let t = match &self.entries[i].line {
                Some(u) => u.clone(),
                None => String::new(),
            };
            r.push(t);
            i += 1;
        }
        r
    }

    /// Merges a translated text list onto the original entries, index for
    /// index: every time span is kept unchanged, and each output line is
    /// the original text, a line break, and the translated text — or the
    /// translated text alone where the original was empty.
    pub fn merge_bilingual(&self, translated: &Vec<String>) -> (out: Subtitle)
        requires
            translated@.len() == self.entries@.len(),
        ensures
            out@ == merged_model(self@, str_views(translated@)),
    {
        let ghost d = self@;
        let ghost tr = str_views(translated@);
        let n = self.entries.len();
        let mut out: Vec<SubtitleEntry> = Vec::new();
        let mut i: usize = 0;
        while i < n
            invariant
                d == self@,
                tr == str_views(translated@),
                n == self.entries@.len(),
                n == translated@.len(),
                i <= n,
                out@.len() == i,
                forall|j: int| 0 <= j < i ==> out@[j]@ == merged_model(d, tr)[j],
            decreases n - i,
        {
            proof {
                assert(d[i as int] == self.entries@[i as int]@);
                assert(tr[i as int] == translated@[i as int]@);
            }
            let mut text = String::new();
            match &self.entries[i].line {
                Some(u) => {
                    if !u.as_str().is_empty() {
                        text.append(u.as_str());
                        crate::strings::push_char(&mut text, '\n');
                    }
                },
                None => {},
            }
            text.append(translated[i].as_str());
            proof {
                assert(text@ =~= bilingual_spec(line_text(d[i as int]), tr[i as int]));
            }
            out.push(SubtitleEntry { timespan: self.entries[i].timespan, line: Some(text) });
            i += 1;
        }
        let merged = Subtitle { entries: out };
        proof {
            assert(merged@ =~= merged_model(d, tr));
        }
        merged
    }

    /// Translates the document: extracts the texts in order, submits them
    /// in consecutive chunks of at most thirty (the backend takes up to
    /// fifty texts per request; thirty leaves headroom), checks that every
    /// response answers its request text for text, merges the answers back
    /// onto the unchanged time spans, and serializes the result. A failed
    /// chunk call aborts the whole run; a response of the wrong length is
    /// a contract violation and is surfaced, never papered over.
    pub fn translate<T: Translator>(
        &self,
        svc: &T,
        source_lang: Option<Language>,
        target_lang: Language,
    ) -> (r: Result<(String, Vec<u8>), Error>)
        ensures
            self@.len() == 0 ==> r is Ok,
            r matches Ok(p) ==> translate_ok(self@, source_lang, p.0@, p.1@),
    {
        let texts = self.texts_of();
        let n = texts.len();
        let mut translated: Vec<String> = Vec::new();
        let mut chunk_langs: Vec<String> = Vec::new();
        let mut i: usize = 0;
        while i < n
            invariant
                n == texts@.len(),
                n == self@.len(),
                i <= n,
                translated@.len() == i,
                chunk_langs@.len() + chunk_count((n - i) as nat) == chunk_count(n as nat),
            decreases n - i,
        {
            let end = chunk_end(i, n);
            let chunk = request_texts(&texts, i, end);
            let param = Param { texts: chunk, source_lang, target_lang };
            match svc.translate(param) {
                Ok(resp) => match accept_response(resp, end - i) {
                    Ok((detected, mut answer)) => {
                        chunk_langs.push(detected);
                        translated.append(&mut answer);
                        i = end;
                    },
                    Err(e) => {
                        return Err(e);
                    },
                },
                Err(e) => {
                    return Err(e);
                },
            }
        }
        let merged = self.merge_bilingual(&translated);
        let bytes = merged.serialize();
        let lang = resolve_source_lang(source_lang, &chunk_langs);
        proof {
            let tr = str_views(translated@);
            let langs = chunk_langs@;
            assert(tr.len() == self@.len());
            assert(langs.len() == chunk_count(self@.len()));
            assert(bytes@ == srt::utf8_bytes_of(srt::render_doc(merged_model(self@, tr))));
            assert(translate_ok(self@, source_lang, lang@, bytes@));
        }
        Ok((lang, bytes))
    }
}

/// The format an optional file-extension hint declares.
pub open spec fn ext_format(extension: Option<&str>) -> Option<srt::SubtitleFormat> {
    match extension {
        Some(e) => srt::format_of_ext(e@),
        None => None,
    }
}

} // verus!
