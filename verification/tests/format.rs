use subtrans::error::Error;
use subtrans::srt::{format_of_extension, SubtitleFormat};
use subtrans::subtitle::{Subtitle, SubtitleEntry, TimeSpan};
use subtrans::translator::deepl::{language_to_deepl_str, response_from_translations, DeepL};
use subtrans::translator::{Language, Param};

fn entry(start: u64, end: u64, line: Option<&str>) -> SubtitleEntry {
    SubtitleEntry { timespan: TimeSpan { start, end }, line: line.map(String::from) }
}

#[test]
fn parses_a_simple_document() {
    let text = "1\n00:00:01,000 --> 00:00:02,000\nHello\n\n";
    let sub = Subtitle::from_srt_text(text).unwrap();
    assert_eq!(sub.entries.len(), 1);
    assert_eq!(sub.entries[0].timespan, TimeSpan { start: 1000, end: 2000 });
    assert_eq!(sub.entries[0].line.as_deref(), Some("Hello"));
}

#[test]
fn parses_timestamp_arithmetic() {
    let text = "12\n01:59:59,999 --> 02:00:00,042\nx\n\n";
    let sub = Subtitle::from_srt_text(text).unwrap();
    assert_eq!(sub.entries[0].timespan.start, 1 * 3600000 + 59 * 60000 + 59 * 1000 + 999);
    assert_eq!(sub.entries[0].timespan.end, 2 * 3600000 + 42);
}

#[test]
fn parses_multi_line_text_and_crlf() {
    let text = "1\r\n00:00:00,100 --> 00:00:00,200\r\nfirst\r\nsecond\r\n\r\n";
    let sub = Subtitle::from_srt_text(text).unwrap();
    assert_eq!(sub.entries[0].line.as_deref(), Some("first\nsecond"));
}

#[test]
fn entry_without_text_round_trips_as_empty() {
    let text = "1\n00:00:00,000 --> 00:00:01,000\n\n\n";
    let sub = Subtitle::from_srt_text(text).unwrap();
    assert_eq!(sub.entries.len(), 1);
    assert_eq!(sub.entries[0].line, None);
}

#[test]
fn tolerates_leading_blanks_and_missing_final_newline() {
    let text = "\n\n1\n00:00:00,000 --> 00:00:01,000\nA";
    let sub = Subtitle::from_srt_text(text).unwrap();
    assert_eq!(sub.entries.len(), 1);
    assert_eq!(sub.entries[0].line.as_deref(), Some("A"));

    let text = "1\n00:00:00,000 --> 00:00:01,000\nA\n\n\n\n2\n00:00:02,000 --> 00:00:03,000\nB\n\n";
    let sub = Subtitle::from_srt_text(text).unwrap();
    assert_eq!(sub.entries.len(), 2);
    assert_eq!(sub.entries[1].line.as_deref(), Some("B"));
}

#[test]
fn empty_input_is_an_empty_document() {
    let sub = Subtitle::from_srt_text("").unwrap();
    assert!(sub.entries.is_empty());
    assert!(sub.serialize().is_empty());
}

#[test]
fn rejects_malformed_timing_lines() {
    // The arrow must be spaced exactly, and both timestamps fully formed.
    assert!(Subtitle::from_srt_text("1\n00:00:00,000-->00:00:01,000\nA\n\n").is_err());
    assert!(Subtitle::from_srt_text("1\n00:00:00,000 --> 00:00:01,00\nA\n\n").is_err());
    assert!(Subtitle::from_srt_text("1\n0:00:00,000 --> 0:00:01,000\nA\n\n").is_err());
}

#[test]
fn rejects_text_that_is_no_subrip_document() {
    assert!(matches!(
        Subtitle::from_srt_text("not a subtitle"),
        Err(Error::SubtitleDecodeError(_))
    ));
    assert!(matches!(
        Subtitle::from_srt_text("1\n00:00:00,000 -> 00:00:01,000\nbad arrow\n\n"),
        Err(Error::SubtitleDecodeError(_))
    ));
    assert!(matches!(
        Subtitle::from_srt_text("1\n00:00:0a,000 --> 00:00:01,000\nbad digit\n\n"),
        Err(Error::SubtitleDecodeError(_))
    ));
}

#[test]
fn recognizes_extensions() {
    assert_eq!(format_of_extension("srt"), Some(SubtitleFormat::SubRip));
    assert_eq!(format_of_extension("ssa"), Some(SubtitleFormat::SubStationAlpha));
    assert_eq!(format_of_extension("ass"), Some(SubtitleFormat::SubStationAlpha));
    assert_eq!(format_of_extension("idx"), Some(SubtitleFormat::VobSubIdx));
    assert_eq!(format_of_extension("sub"), Some(SubtitleFormat::MicroDVD));
    assert_eq!(format_of_extension("txt"), None);
}

#[test]
fn refuses_other_formats_and_unknown_extensions() {
    let bytes = b"anything".to_vec();
    assert!(matches!(
        Subtitle::new(bytes.clone(), Some("ssa")),
        Err(Error::SubtitleDecodeError(_))
    ));
    assert!(matches!(
        Subtitle::new(bytes.clone(), Some("txt")),
        Err(Error::SubtitleDecodeError(_))
    ));
    assert!(matches!(Subtitle::new(bytes, None), Err(Error::SubtitleDecodeError(_))));
}

#[test]
fn refuses_bytes_that_are_not_valid_text() {
    let bytes = vec![0xff, 0xfe, 0x00];
    assert!(matches!(
        Subtitle::new(bytes, Some("srt")),
        Err(Error::SubtitleDecodeError(_))
    ));
}

#[test]
fn serializes_exact_bytes() {
    let sub = Subtitle {
        entries: vec![
            entry(0, 1000, Some("Hello")),
            entry(3723004, 3723456, Some("two\nlines")),
            entry(5000, 6000, None),
        ],
    };
    let bytes = sub.serialize();
    let expected = "1\n00:00:00,000 --> 00:00:01,000\nHello\n\n\
                    2\n01:02:03,004 --> 01:02:03,456\ntwo\nlines\n\n\
                    3\n00:00:05,000 --> 00:00:06,000\n\n\n";
    assert_eq!(String::from_utf8(bytes).unwrap(), expected);
}

#[test]
fn serialized_documents_parse_back() {
    let sub = Subtitle {
        entries: vec![entry(1234, 5678, Some("a")), entry(90000, 95500, Some("b\nc"))],
    };
    let bytes = sub.serialize();
    let back = Subtitle::from_srt_text(&String::from_utf8(bytes).unwrap()).unwrap();
    assert_eq!(back.entries.len(), 2);
    assert_eq!(back.entries[0].timespan, TimeSpan { start: 1234, end: 5678 });
    assert_eq!(back.entries[0].line.as_deref(), Some("a"));
    assert_eq!(back.entries[1].timespan, TimeSpan { start: 90000, end: 95500 });
    assert_eq!(back.entries[1].line.as_deref(), Some("b\nc"));
}

#[test]
fn language_names_and_backend_strings() {
    assert_eq!(Language::EnGb.display_name(), "en-gb");
    assert_eq!(Language::PtBr.display_name(), "pt-br");
    assert_eq!(Language::EN.display_name(), "en");
    assert_eq!(language_to_deepl_str(Language::EnGb), "EN-GB");
    assert_eq!(language_to_deepl_str(Language::PtPt), "PT-PT");
    assert_eq!(language_to_deepl_str(Language::ZH), "ZH");
}

#[test]
fn endpoint_follows_credential_shape() {
    let free = DeepL::new(String::from("0123:fx"));
    assert_eq!(free.endpoint_url(), "https://api-free.deepl.com/v2/translate");
    let paid = DeepL::new(String::from("0123"));
    assert_eq!(paid.endpoint_url(), "https://api.deepl.com/v2/translate");
    let short = DeepL::new(String::from("fx"));
    assert_eq!(short.endpoint_url(), "https://api.deepl.com/v2/translate");
}

#[test]
fn query_lists_every_parameter_in_order() {
    let svc = DeepL::new(String::from("key"));
    let param = Param {
        texts: vec![String::from("a"), String::from("b")],
        source_lang: Some(Language::DE),
        target_lang: Language::EnUs,
    };
    let q = svc.build_query(&param);
    let expected: Vec<(String, String)> = vec![
        (String::from("auth_key"), String::from("key")),
        (String::from("source_lang"), String::from("DE")),
        (String::from("target_lang"), String::from("EN-US")),
        (String::from("text"), String::from("a")),
        (String::from("text"), String::from("b")),
        (String::from("split_sentences"), String::from("0")),
    ];
    assert_eq!(q, expected);

    let no_hint = Param { texts: Vec::new(), source_lang: None, target_lang: Language::JA };
    let q = svc.build_query(&no_hint);
    let expected: Vec<(String, String)> = vec![
        (String::from("auth_key"), String::from("key")),
        (String::from("target_lang"), String::from("JA")),
        (String::from("split_sentences"), String::from("0")),
    ];
    assert_eq!(q, expected);
}

#[test]
fn response_aggregation_votes_per_text() {
    let items = vec![
        (String::from("DE"), String::from("one")),
        (String::from("EN"), String::from("two")),
        (String::from("DE"), String::from("three")),
    ];
    let r = response_from_translations(&items);
    assert_eq!(r.source_lang, "DE");
    assert_eq!(r.texts, vec![
        String::from("one"),
        String::from("two"),
        String::from("three"),
    ]);

    let empty = response_from_translations(&Vec::new());
    assert_eq!(empty.source_lang, "");
    assert!(empty.texts.is_empty());
}
