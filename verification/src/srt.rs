use vstd::prelude::*;
use vstd::string::StrSliceExecFns;
use crate::strings::{dec_str, push_char, push_u64};
use crate::subtitle::{line_text, models_of, EntryModel, SubtitleEntry, TimeSpan};

verus! {

/// Whether a byte sequence is valid under the one universal text encoding
/// the pipeline assumes.
pub uninterp spec fn utf8_valid(bytes: Seq<u8>) -> bool;

/// The characters that a valid byte sequence decodes to under that
/// encoding.
pub uninterp spec fn utf8_chars_of(bytes: Seq<u8>) -> Seq<char>;

/// The bytes that a character sequence encodes to under the same encoding.
pub uninterp spec fn utf8_bytes_of(chars: Seq<char>) -> Seq<u8>;

/// Relies on `String::from_utf8`: returns the string made of the given
/// bytes exactly when they are valid for the encoding, and an error
/// otherwise.
#[verifier::external_body]
pub(crate) fn decode_utf8(bytes: Vec<u8>) -> (r: Option<String>)
    ensures
        (r is Some) <==> utf8_valid(bytes@),
        r matches Some(s) ==> s@ == utf8_chars_of(bytes@),
{
    match String::from_utf8(bytes) {
        Ok(s) => Some(s),
        Err(_) => None,
    }
}

/// Relies on `String::into_bytes`: returns the byte encoding of the string's
/// characters.
#[verifier::external_body]
pub(crate) fn encode_utf8(s: String) -> (r: Vec<u8>)
    ensures
        r@ == utf8_bytes_of(s@),
{
    s.into_bytes()
}

/// Collects the characters of a string slice.
pub(crate) fn chars_vec(s: &str) -> (r: Vec<char>)
    ensures
        r@ == s@,
{
    let n = s.unicode_len();
    let mut r: Vec<char> = Vec::new();
    let mut i: usize = 0;
    while i < n
        invariant
            n == s@.len(),
            i <= n,
            r@ == s@.take(i as int),
        decreases n - i,
    {
        r.push(s.get_char(i));
        proof {
            assert(r@ =~= s@.take(i + 1));
        }
        i += 1;
    }
    proof {
        assert(s@.take(n as int) =~= s@);
    }
    r
}

/// The position of the first line break at or after `i`, or the length of
/// `s` when there is none.
pub open spec fn find_nl(s: Seq<char>, i: int) -> int
    decreases s.len() - i,
{
    if i >= s.len() {
        s.len() as int
    } else if s[i] == '\n' {
        i
    } else {
        find_nl(s, i + 1)
    }
}

proof fn lemma_find_nl(s: Seq<char>, i: int)
    requires
        0 <= i <= s.len(),
    ensures
        i <= find_nl(s, i) <= s.len(),
        find_nl(s, i) < s.len() ==> s[find_nl(s, i)] == '\n',
    decreases s.len() - i,
{
    if i < s.len() && s[i] != '\n' {
        lemma_find_nl(s, i + 1);
    }
}

/// A line with one trailing carriage return removed, so that files with
/// either line-ending convention read the same.
pub open spec fn strip_cr(l: Seq<char>) -> Seq<char> {
    if l.len() > 0 && l.last() == '\r' {
        l.drop_last()
    } else {
        l
    }
}

/// The lines of `s` from position `start` on, split at every line break.
pub open spec fn lines_from(s: Seq<char>, start: int) -> Seq<Seq<char>>
    decreases s.len() - start,
    when 0 <= start <= s.len()
    via lines_from_decreases
{
    let j = find_nl(s, start);
    if j >= s.len() {
        seq![strip_cr(s.subrange(start, s.len() as int))]
    } else {
        seq![strip_cr(s.subrange(start, j))] + lines_from(s, j + 1)
    }
}

#[via_fn]
proof fn lines_from_decreases(s: Seq<char>, start: int) {
    lemma_find_nl(s, start);
}

/// The lines of a whole text.
pub open spec fn lines_of(s: Seq<char>) -> Seq<Seq<char>> {
    lines_from(s, 0)
}

/// The views of a list of character vectors.
pub open spec fn views_of(s: Seq<Vec<char>>) -> Seq<Seq<char>> {
    s.map_values(|l: Vec<char>| l@)
}

/// Finds the first line break at or after `start`.
fn find_newline(v: &Vec<char>, start: usize) -> (j: usize)
    requires
        start <= v@.len(),
    ensures
        j == find_nl(v@, start as int),
        start <= j <= v@.len(),
{
    proof {
        lemma_find_nl(v@, start as int);
    }
    let n = v.len();
    let mut j = start;
    while j < n
        invariant
            n == v@.len(),
            start <= j <= n,
            find_nl(v@, start as int) == find_nl(v@, j as int),
        decreases n - j,
    {
        if v[j] == '\n' {
            return j;
        }
        j += 1;
    }
    j
}

/// Splits the text from `start` on into lines, appending them to `out`.
fn split_from(v: &Vec<char>, start: usize, out: &mut Vec<Vec<char>>)
    requires
        start <= v@.len(),
    ensures
        views_of(final(out)@) == views_of(old(out)@) + lines_from(v@, start as int),
    decreases v@.len() - start,
{
    let j = find_newline(v, start);
    let mut line: Vec<char> = Vec::new();
    let mut k = start;
    while k < j
        invariant
            start <= k <= j <= v@.len(),
            line@ == v@.subrange(start as int, k as int),
        decreases j - k,
    {
        line.push(v[k]);
        proof {
            assert(line@ =~= v@.subrange(start as int, k + 1));
        }
        k += 1;
    }
    if line.len() > 0 && line[line.len() - 1] == '\r' {
        line.pop();
    }
    proof {
        assert(line@ == strip_cr(v@.subrange(start as int, j as int)));
    }
    let ghost mid = out@;
    out.push(line);
    proof {
        assert(views_of(out@) =~= views_of(mid).push(
            strip_cr(v@.subrange(start as int, j as int)),
        ));
    }
    if j < v.len() {
        split_from(v, j + 1, out);
        proof {
            assert(views_of(out@) =~= views_of(old(out)@) + lines_from(v@, start as int));
        }
    } else {
        proof {
            assert(views_of(out@) =~= views_of(old(out)@) + lines_from(v@, start as int));
        }
    }
}

/// Splits a text into its lines.
pub(crate) fn split_lines(v: &Vec<char>) -> (r: Vec<Vec<char>>)
    ensures
        views_of(r@) == lines_of(v@),
{
    let mut r: Vec<Vec<char>> = Vec::new();
    split_from(v, 0, &mut r);
    proof {
        assert(views_of(r@) =~= lines_of(v@));
    }
    r
}

pub open spec fn is_digit(c: char) -> bool {
    c == '0' || c == '1' || c == '2' || c == '3' || c == '4' || c == '5' || c == '6' || c == '7'
        || c == '8' || c == '9'
}

/// The value of a decimal digit character.
pub open spec fn digit_val(c: char) -> nat {
    if c == '0' {
        0
    } else if c == '1' {
        1
    } else if c == '2' {
        2
    } else if c == '3' {
        3
    } else if c == '4' {
        4
    } else if c == '5' {
        5
    } else if c == '6' {
        6
    } else if c == '7' {
        7
    } else if c == '8' {
        8
    } else {
        9
    }
}

/// A timestamp of the shape `hh:mm:ss,mmm` stands at position `off` of `l`.
pub open spec fn ts_valid_at(l: Seq<char>, off: int) -> bool {
    &&& 0 <= off
    &&& off + 12 <= l.len()
    &&& is_digit(l[off])
    &&& is_digit(l[off + 1])
    &&& l[off + 2] == ':'
    &&& is_digit(l[off + 3])
    &&& is_digit(l[off + 4])
    &&& l[off + 5] == ':'
    &&& is_digit(l[off + 6])
    &&& is_digit(l[off + 7])
    &&& l[off + 8] == ','
    &&& is_digit(l[off + 9])
    &&& is_digit(l[off + 10])
    &&& is_digit(l[off + 11])
}

/// The milliseconds a timestamp at position `off` of `l` denotes.
pub open spec fn ts_value_at(l: Seq<char>, off: int) -> nat {
    ((digit_val(l[off]) * 10 + digit_val(l[off + 1])) * 3600 + (digit_val(l[off + 3]) * 10
        + digit_val(l[off + 4])) * 60 + (digit_val(l[off + 6]) * 10 + digit_val(l[off + 7])))
        * 1000 + digit_val(l[off + 9]) * 100 + digit_val(l[off + 10]) * 10 + digit_val(
        l[off + 11],
    )
}

/// A timing line: two timestamps joined by an arrow.
pub open spec fn time_line_valid(l: Seq<char>) -> bool {
    &&& l.len() == 29
    &&& ts_valid_at(l, 0)
    &&& l[12] == ' '
    &&& l[13] == '-'
    &&& l[14] == '-'
    &&& l[15] == '>'
    &&& l[16] == ' '
    &&& ts_valid_at(l, 17)
}

/// A non-empty line of decimal digits: the entry counter above each block.
pub open spec fn is_digits(l: Seq<char>) -> bool {
    l.len() > 0 && forall|k: int| 0 <= k < l.len() ==> is_digit(l[k])
}

/// The position of the first empty line at or after `j`, or the number of
/// lines when there is none.
pub open spec fn text_end(ls: Seq<Seq<char>>, j: int) -> int
    decreases ls.len() - j,
{
    if j >= ls.len() {
        ls.len() as int
    } else if ls[j].len() == 0 {
        j
    } else {
        text_end(ls, j + 1)
    }
}

proof fn lemma_text_end(ls: Seq<Seq<char>>, j: int)
    requires
        0 <= j <= ls.len(),
    ensures
        j <= text_end(ls, j) <= ls.len(),
        text_end(ls, j) < ls.len() ==> ls[text_end(ls, j)].len() == 0,
    decreases ls.len() - j,
{
    if j < ls.len() && ls[j].len() != 0 {
        lemma_text_end(ls, j + 1);
    }
}

/// The text lines `from` up to `to`, joined by single line breaks.
pub open spec fn join_lines(ls: Seq<Seq<char>>, from: int, to: int) -> Seq<char>
    decreases to - from,
{
    if from + 1 >= to {
        if from < to {
            ls[from]
        } else {
            Seq::empty()
        }
    } else {
        ls[from] + seq!['\n'] + join_lines(ls, from + 1, to)
    }
}

proof fn lemma_join_snoc(ls: Seq<Seq<char>>, from: int, k: int)
    requires
        from <= k,
    ensures
        join_lines(ls, from, k + 1) == if k == from {
            ls[k]
        } else {
            (join_lines(ls, from, k) + seq!['\n'] + ls[k])
        },
    decreases k - from,
{
    if k > from {
        lemma_join_snoc(ls, from + 1, k);
        if k == from + 1 {
            assert(join_lines(ls, from, k) == ls[from]);
        } else {
            assert(join_lines(ls, from, k + 1) =~= (join_lines(ls, from, k) + seq!['\n']
                + ls[k]));
        }
    }
}

/// The entries encoded by the lines from `i` on: each block is a counter
/// line, a timing line, and the following non-empty lines as its text; empty
/// lines separate blocks. `None` when the lines fit no such reading.
pub open spec fn parse_blocks(ls: Seq<Seq<char>>, i: int) -> Option<Seq<EntryModel>>
    decreases ls.len() - i,
    when 0 <= i <= ls.len()
    via parse_blocks_decreases
{
    if i >= ls.len() {
        Some(Seq::empty())
    } else if ls[i].len() == 0 {
        parse_blocks(ls, i + 1)
    } else if !is_digits(ls[i]) {
        None
    } else if i + 1 >= ls.len() || !time_line_valid(ls[i + 1]) {
        None
    } else {
        let te = text_end(ls, i + 2);
        let entry = EntryModel {
            start: ts_value_at(ls[i + 1], 0) as u64,
            end: ts_value_at(ls[i + 1], 17) as u64,
            line: if te == i + 2 {
                None
            } else {
                Some(join_lines(ls, i + 2, te))
            },
        };
        match parse_blocks(ls, te) {
            Some(rest) => Some(seq![entry] + rest),
            None => None,
        }
    }
}

#[via_fn]
proof fn parse_blocks_decreases(ls: Seq<Seq<char>>, i: int) {
    if 0 <= i && i < ls.len() {
        if i + 2 <= ls.len() {
            lemma_text_end(ls, i + 2);
        } else {
            lemma_text_end(ls, ls.len() as int);
        }
    }
}

/// The document encoded by a whole text.
pub open spec fn parse_doc_spec(s: Seq<char>) -> Option<Seq<EntryModel>> {
    parse_blocks(lines_of(s), 0)
}

fn is_digit_char(c: char) -> (r: bool)
    ensures
        r == is_digit(c),
{
    c == '0' || c == '1' || c == '2' || c == '3' || c == '4' || c == '5' || c == '6' || c == '7'
        || c == '8' || c == '9'
}

fn digit_value(c: char) -> (r: u64)
    requires
        is_digit(c),
    ensures
        r == digit_val(c),
{
    if c == '0' {
        0
    } else if c == '1' {
        1
    } else if c == '2' {
        2
    } else if c == '3' {
        3
    } else if c == '4' {
        4
    } else if c == '5' {
        5
    } else if c == '6' {
        6
    } else if c == '7' {
        7
    } else if c == '8' {
        8
    } else {
        9
    }
}

/// Reads the `hh:mm:ss,mmm` timestamp at position `off` of `l`.
fn parse_timestamp_at(l: &Vec<char>, off: usize) -> (r: Option<u64>)
    requires
        off + 12 <= usize::MAX,
    ensures
        (r is Some) <==> ts_valid_at(l@, off as int),
        r matches Some(v) ==> v == ts_value_at(l@, off as int),
{
    if off + 12 > l.len() {
        return None;
    }
    let ok = is_digit_char(l[off]) && is_digit_char(l[off + 1]) && l[off + 2] == ':'
        && is_digit_char(l[off + 3]) && is_digit_char(l[off + 4]) && l[off + 5] == ':'
        && is_digit_char(l[off + 6]) && is_digit_char(l[off + 7]) && l[off + 8] == ','
        && is_digit_char(l[off + 9]) && is_digit_char(l[off + 10]) && is_digit_char(
        l[off + 11],
    );
    if !ok {
        return None;
    }
    let h = digit_value(l[off]) * 10 + digit_value(l[off + 1]);
    let m = digit_value(l[off + 3]) * 10 + digit_value(l[off + 4]);
    let s = digit_value(l[off + 6]) * 10 + digit_value(l[off + 7]);
    let mil = digit_value(l[off + 9]) * 100 + digit_value(l[off + 10]) * 10 + digit_value(
        l[off + 11],
    );
    Some((h * 3600 + m * 60 + s) * 1000 + mil)
}

/// Reads a timing line: two timestamps joined by an arrow.
fn parse_time_line(l: &Vec<char>) -> (r: Option<(u64, u64)>)
    ensures
        (r is Some) <==> time_line_valid(l@),
        r matches Some(v) ==> v.0 == ts_value_at(l@, 0) && v.1 == ts_value_at(l@, 17),
{
    if l.len() != 29 {
        return None;
    }
    if !(l[12] == ' ' && l[13] == '-' && l[14] == '-' && l[15] == '>' && l[16] == ' ') {
        return None;
    }
    let start = match parse_timestamp_at(l, 0) {
        Some(v) => v,
        None => {
            return None;
        },
    };
    let end = match parse_timestamp_at(l, 17) {
        Some(v) => v,
        None => {
            return None;
        },
    };
    Some((start, end))
}

/// Scans for the first empty line at or after `j`.
fn scan_text_end(ls: &Vec<Vec<char>>, j: usize) -> (r: usize)
    requires
        j <= ls@.len(),
    ensures
        r == text_end(views_of(ls@), j as int),
        j <= r <= ls@.len(),
{
    proof {
        lemma_text_end(views_of(ls@), j as int);
    }
    let n = ls.len();
    let mut k = j;
    while k < n
        invariant
            n == ls@.len(),
            j <= k <= n,
            text_end(views_of(ls@), j as int) == text_end(views_of(ls@), k as int),
        decreases n - k,
    {
        if ls[k].len() == 0 {
            return k;
        }
        k += 1;
    }
    k
}

/// Joins the lines `from` up to `to` with single line breaks.
fn join_text(ls: &Vec<Vec<char>>, from: usize, to: usize) -> (r: String)
    requires
        from < to <= ls@.len(),
    ensures
        r@ == join_lines(views_of(ls@), from as int, to as int),
{
    let mut r = String::new();
    let mut k = from;
    while k < to
        invariant
            from <= k <= to <= ls@.len(),
            k > from ==> r@ == join_lines(views_of(ls@), from as int, k as int),
            k == from ==> r@ == Seq::<char>::empty(),
        decreases to - k,
    {
        if k > from {
            crate::strings::push_char(&mut r, '\n');
        }
        let line = &ls[k];
        let m = line.len();
        let ghost pre = r@;
        let mut p: usize = 0;
        while p < m
            invariant
                m == line@.len(),
                p <= m,
                r@ == pre + line@.take(p as int),
            decreases m - p,
        {
            crate::strings::push_char(&mut r, line[p]);
            proof {
                assert(r@ =~= pre + line@.take(p + 1));
            }
            p += 1;
        }
        proof {
            assert(line@.take(m as int) =~= line@);
            lemma_join_snoc(views_of(ls@), from as int, k as int);
            if k == from {
                assert(r@ =~= views_of(ls@)[k as int]);
            } else {
                assert(r@ =~= (join_lines(views_of(ls@), from as int, k as int) + seq!['\n']
                    + views_of(ls@)[k as int]));
            }
        }
        k += 1;
    }
    r
}

/// Reads the entries encoded by the lines from `i` on, mirroring
/// `parse_blocks`.
pub(crate) fn parse_blocks_exec(ls: &Vec<Vec<char>>, i: usize) -> (r: Option<
    Vec<SubtitleEntry>,
>)
    requires
        i <= ls@.len(),
    ensures
        (r is Some) <==> (parse_blocks(views_of(ls@), i as int) is Some),
        r matches Some(v) ==> parse_blocks(views_of(ls@), i as int) == Some(models_of(v@)),
    decreases ls@.len() - i,
{
    let ghost lsv = views_of(ls@);
    if i == ls.len() {
        let out: Vec<SubtitleEntry> = Vec::new();
        proof {
            assert(models_of(out@) =~= Seq::<EntryModel>::empty());
        }
        return Some(out);
    }
    if ls[i].len() == 0 {
        return parse_blocks_exec(ls, i + 1);
    }
    let counter = &ls[i];
    let cn = counter.len();
    let mut k: usize = 0;
    while k < cn
        invariant
            lsv == views_of(ls@),
            i < ls@.len(),
            counter@ == ls@[i as int]@,
            cn == counter@.len(),
            k <= cn,
            forall|t: int| 0 <= t < k ==> is_digit(counter@[t]),
        decreases cn - k,
    {
        if !is_digit_char(counter[k]) {
            proof {
                assert(lsv[i as int] == ls@[i as int]@);
                assert(!is_digit(lsv[i as int][k as int]));
                assert(!is_digits(lsv[i as int]));
            }
            return None;
        }
        k += 1;
    }
    proof {
        assert(lsv[i as int] == ls@[i as int]@);
        assert(is_digits(lsv[i as int]));
    }
    if i + 1 == ls.len() {
        return None;
    }
    let (start, end) = match parse_time_line(&ls[i + 1]) {
        Some(v) => v,
        None => {
            return None;
        },
    };
    let te = scan_text_end(ls, i + 2);
    let line = if te == i + 2 {
        None
    } else {
        Some(join_text(ls, i + 2, te))
    };
    let entry = SubtitleEntry { timespan: TimeSpan { start, end }, line };
    match parse_blocks_exec(ls, te) {
        Some(mut rest) => {
            let ghost restv = rest@;
            let mut out: Vec<SubtitleEntry> = Vec::new();
            out.push(entry);
            out.append(&mut rest);
            proof {
                assert(models_of(out@) =~= seq![entry@] + models_of(restv));
                assert(parse_blocks(lsv, i as int) == Some(models_of(out@)));
            }
            Some(out)
        },
        None => None,
    }
}

/// A number padded with zeroes on the left to at least two digits.
pub open spec fn pad2(n: nat) -> Seq<char> {
    if n < 10 {
        seq!['0'] + dec_str(n)
    } else {
        dec_str(n)
    }
}

/// A number padded with zeroes on the left to at least three digits.
pub open spec fn pad3(n: nat) -> Seq<char> {
    if n < 10 {
        seq!['0', '0'] + dec_str(n)
    } else if n < 100 {
        seq!['0'] + dec_str(n)
    } else {
        dec_str(n)
    }
}

/// The `hh:mm:ss,mmm` rendering of a count of milliseconds.
pub open spec fn ts_str(ms: u64) -> Seq<char> {
    pad2((ms as nat) / 3600000) + seq![':'] + pad2(((ms as nat) / 60000) % 60) + seq![':']
        + pad2(((ms as nat) / 1000) % 60) + seq![','] + pad3((ms as nat) % 1000)
}

/// The timing line of one entry.
pub open spec fn time_line_str(m: EntryModel) -> Seq<char> {
    ts_str(m.start) + seq![' ', '-', '-', '>', ' '] + ts_str(m.end)
}

/// One block of the serialized document: the counter, the timing line, the
/// text, and the empty separator line.
pub open spec fn block_str(idx: nat, m: EntryModel) -> Seq<char> {
    dec_str(idx) + seq!['\n'] + time_line_str(m) + seq!['\n'] + line_text(m) + seq!['\n', '\n']
}

/// The serialized form of the entries from `i` on, counted from one.
pub open spec fn render_from(d: Seq<EntryModel>, i: int) -> Seq<char>
    decreases d.len() - i,
{
    if i < 0 || i >= d.len() {
        Seq::empty()
    } else {
        block_str((i + 1) as nat, d[i]) + render_from(d, i + 1)
    }
}

/// The serialized form of a whole document.
pub open spec fn render_doc(d: Seq<EntryModel>) -> Seq<char> {
    render_from(d, 0)
}

/// Appends a number padded to at least two digits.
fn push_pad2(s: &mut String, n: u64)
    ensures
        final(s)@ == old(s)@ + pad2(n as nat),
{
    if n < 10 {
        push_char(s, '0');
    }
    push_u64(s, n);
    proof {
        assert(s@ =~= old(s)@ + pad2(n as nat));
    }
}

/// Appends a number padded to at least three digits.
fn push_pad3(s: &mut String, n: u64)
    ensures
        final(s)@ == old(s)@ + pad3(n as nat),
{
    if n < 10 {
        push_char(s, '0');
        push_char(s, '0');
    } else if n < 100 {
        push_char(s, '0');
    }
    push_u64(s, n);
    proof {
        assert(s@ =~= old(s)@ + pad3(n as nat));
    }
}

/// Appends the `hh:mm:ss,mmm` rendering of `ms`.
fn push_timestamp(s: &mut String, ms: u64)
    ensures
        final(s)@ == old(s)@ + ts_str(ms),
{
    push_pad2(s, ms / 3600000);
    push_char(s, ':');
    push_pad2(s, (ms / 60000) % 60);
    push_char(s, ':');
    push_pad2(s, (ms / 1000) % 60);
    push_char(s, ',');
    push_pad3(s, ms % 1000);
    proof {
        assert(s@ =~= old(s)@ + ts_str(ms));
    }
}

/// Builds one serialized block.
#[verifier::rlimit(50)]
fn block_string(e: &SubtitleEntry, idx: u64) -> (s: String)
    ensures
        s@ == block_str(idx as nat, e@),
{
    let mut s = String::new();
    push_u64(&mut s, idx);
    push_char(&mut s, '\n');
    push_timestamp(&mut s, e.timespan.start);
    let ghost g1 = s@;
    push_char(&mut s, ' ');
    push_char(&mut s, '-');
    push_char(&mut s, '-');
    push_char(&mut s, '>');
    push_char(&mut s, ' ');
    proof {
        assert(s@ =~= g1 + seq![' ', '-', '-', '>', ' ']);
    }
    push_timestamp(&mut s, e.timespan.end);
    push_char(&mut s, '\n');
    match &e.line {
        Some(u) => {
            s.append(u.as_str());
        },
        None => {},
    }
    push_char(&mut s, '\n');
    push_char(&mut s, '\n');
    proof {
        assert(s@ =~= block_str(idx as nat, e@));
    }
    s
}

/// Serializes the entries from `i` on, blocks counted from `i + 1`.
fn serialize_from(entries: &Vec<SubtitleEntry>, i: usize) -> (s: String)
    requires
        i <= entries@.len(),
    ensures
        s@ == render_from(models_of(entries@), i as int),
    decreases entries@.len() - i,
{
    let ghost d = models_of(entries@);
    if i == entries.len() {
        let s = String::new();
        return s;
    }
    let mut s = block_string(&entries[i], (i + 1) as u64);
    let rest = serialize_from(entries, i + 1);
    s.append(rest.as_str());
    proof {
        assert(d[i as int] == entries@[i as int]@);
        assert(s@ =~= render_from(d, i as int));
    }
    s
}

/// Serializes a list of entries, blocks counted from one.
pub(crate) fn serialize_entries(entries: &Vec<SubtitleEntry>) -> (s: String)
    ensures
        s@ == render_doc(models_of(entries@)),
{
    serialize_from(entries, 0)
}

/// The recognized on-disk subtitle formats. Only `SubRip` is implemented
/// end to end; the others are recognized so that they can be refused with a
/// clear error instead of being misread.
#[derive(Clone, Copy, PartialEq, Eq, Structural, Debug)]
pub enum SubtitleFormat {
    SubRip,
    SubStationAlpha,
    VobSubIdx,
    VobSubSub,
    MicroDVD,
}

/// Which format a file-extension hint declares.
pub open spec fn format_of_ext(e: Seq<char>) -> Option<SubtitleFormat> {
    if e == "srt"@ {
        Some(SubtitleFormat::SubRip)
    } else if e == "ssa"@ || e == "ass"@ {
        Some(SubtitleFormat::SubStationAlpha)
    } else if e == "idx"@ {
        Some(SubtitleFormat::VobSubIdx)
    } else if e == "sub"@ {
        Some(SubtitleFormat::MicroDVD)
    } else {
        None
    }
}

/// Picks the declared subtitle format from a file-extension hint.
pub fn format_of_extension(e: &str) -> (r: Option<SubtitleFormat>)
    ensures
        r == format_of_ext(e@),
{
    if crate::strings::str_eq(e, "srt") {
        Some(SubtitleFormat::SubRip)
    } else if crate::strings::str_eq(e, "ssa") || crate::strings::str_eq(e, "ass") {
        Some(SubtitleFormat::SubStationAlpha)
    } else if crate::strings::str_eq(e, "idx") {
        Some(SubtitleFormat::VobSubIdx)
    } else if crate::strings::str_eq(e, "sub") {
        Some(SubtitleFormat::MicroDVD)
    } else {
        None
    }
}

} // verus!
