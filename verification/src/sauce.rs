//! SAUCE/COMNT metadata: locating the record marker from the end of the
//! buffer, decoding the fixed 128-byte layout and the 64-byte comment
//! lines through the CP437 table, and rendering the `Key: Value` lines.

use vstd::prelude::*;
use vstd::slice::slice_subrange;
use vstd::string::{StringExecFns, StrSliceExecFns};
use crate::cp437::{cp437_char, cp437_to_unicode};
use crate::numfmt::{dec_chars, dec_digits};
use crate::text::{push_char, push_chars};

verus! {

/// The seven-byte record marker, "SAUCE" plus the version digits.
pub open spec fn sauce_marker() -> Seq<u8> {
    seq![0x53u8, 0x41u8, 0x55u8, 0x43u8, 0x45u8, 0x30u8, 0x30u8]
}

/// The five-byte prefix a record is validated against.
pub open spec fn sauce_prefix() -> Seq<u8> {
    seq![0x53u8, 0x41u8, 0x55u8, 0x43u8, 0x45u8]
}

/// The five-byte comment-block marker.
pub open spec fn comnt_marker() -> Seq<u8> {
    seq![0x43u8, 0x4Fu8, 0x4Du8, 0x4Eu8, 0x54u8]
}

pub open spec fn is_sauce_at(data: Seq<u8>, i: int) -> bool {
    0 <= i && i + 7 <= data.len() && data.subrange(i, i + 7) == sauce_marker()
}

pub open spec fn is_comnt_at(data: Seq<u8>, i: int) -> bool {
    0 <= i && i + 5 <= data.len() && data.subrange(i, i + 5) == comnt_marker()
}

/// The largest index at most `i` where the record marker starts.
pub open spec fn rfind_sauce_from(data: Seq<u8>, i: int) -> Option<int>
    decreases i + 1,
{
    if i < 0 {
        None
    } else if is_sauce_at(data, i) {
        Some(i)
    } else {
        rfind_sauce_from(data, i - 1)
    }
}

/// The start of the last record marker in the buffer, if any.
pub open spec fn find_sauce_mark(data: Seq<u8>) -> Option<int> {
    rfind_sauce_from(data, data.len() - 7)
}

/// The largest index in `[lo, i]` where the comment marker starts.
pub open spec fn rfind_comnt_from(data: Seq<u8>, lo: int, i: int) -> Option<int>
    decreases i - lo + 1,
{
    if i < lo {
        None
    } else if is_comnt_at(data, i) {
        Some(i)
    } else {
        rfind_comnt_from(data, lo, i - 1)
    }
}

/// A found record marker lies within the searched range.
pub proof fn lemma_rfind_sauce_range(data: Seq<u8>, i: int)
    ensures
        match rfind_sauce_from(data, i) {
            Some(j) => 0 <= j <= i && is_sauce_at(data, j),
            None => true,
        },
    decreases i + 1,
{
    if i >= 0 && !is_sauce_at(data, i) {
        lemma_rfind_sauce_range(data, i - 1);
    }
}

/// A found comment marker lies within the searched range.
pub proof fn lemma_rfind_comnt_range(data: Seq<u8>, lo: int, i: int)
    ensures
        match rfind_comnt_from(data, lo, i) {
            Some(j) => lo <= j <= i && is_comnt_at(data, j),
            None => true,
        },
    decreases i - lo + 1,
{
    if i >= lo && !is_comnt_at(data, i) {
        lemma_rfind_comnt_range(data, lo, i - 1);
    }
}

/// How far before the record marker the comment-block search reaches: the
/// marker plus the largest comment block, 255 lines of 64 bytes.
pub open spec fn comnt_lookback() -> int {
    (64 * 256 + 5) as int
}

/// The record and comment-block positions, as the converter uses them: the
/// comment block is searched only when a record marker was found, within a
/// bounded lookback window before it.
pub open spec fn find_positions_spec(data: Seq<u8>) -> (Option<int>, Option<int>) {
    match find_sauce_mark(data) {
        Some(pos) => {
            let lo = if pos >= comnt_lookback() { pos - comnt_lookback() } else { 0 };
            (Some(pos), rfind_comnt_from(data, lo, pos - 5))
        },
        None => (None, None),
    }
}

/// The first SUB (0x1A) byte at or after `i`.
pub open spec fn find_sub_from(data: Seq<u8>, i: int) -> Option<int>
    decreases data.len() - i,
{
    if i < 0 || i >= data.len() {
        None
    } else if data[i] == 0x1A {
        Some(i)
    } else {
        find_sub_from(data, i + 1)
    }
}

pub open spec fn find_sub(data: Seq<u8>) -> Option<int> {
    find_sub_from(data, 0)
}

/// A found SUB byte lies within the buffer.
pub proof fn lemma_find_sub_range(data: Seq<u8>, i: int)
    ensures
        match find_sub_from(data, i) {
            Some(j) => i <= j < data.len() && data[j] == 0x1A,
            None => true,
        },
    decreases data.len() - i,
{
    if 0 <= i && i < data.len() && data[i] != 0x1A {
        lemma_find_sub_range(data, i + 1);
    }
}

/// A byte field decoded through the CP437 table.
pub open spec fn field_chars(bytes: Seq<u8>) -> Seq<char> {
    bytes.map(|i: int, b: u8| cp437_char(b))
}

/// Trailing spaces and NUL characters are trimmed from every text field.
pub open spec fn trim_trailing(s: Seq<char>) -> Seq<char>
    decreases s.len(),
{
    if s.len() > 0 && (s.last() == ' ' || s.last() == '\0') {
        trim_trailing(s.drop_last())
    } else {
        s
    }
}

/// A text field: CP437-decoded, then trimmed.
pub open spec fn decode_field_spec(bytes: Seq<u8>) -> Seq<char> {
    trim_trailing(field_chars(bytes))
}

/// The comment lines of a comment block body: one 64-byte chunk per line
/// (the last chunk may be shorter), decoded and trimmed like any field,
/// dropped when empty.
pub open spec fn comment_lines(bytes: Seq<u8>) -> Seq<Seq<char>>
    decreases bytes.len(),
{
    if bytes.len() == 0 {
        Seq::empty()
    } else {
        let n: int = if bytes.len() >= 64 { 64 } else { bytes.len() as int };
        let line = decode_field_spec(bytes.take(n));
        let rest = comment_lines(bytes.skip(n));
        if line.len() > 0 {
            seq![line] + rest
        } else {
            rest
        }
    }
}

/// A decoded SAUCE record.
#[verifier::ext_equal]
pub ghost struct SauceData {
    pub title: Seq<char>,
    pub author: Seq<char>,
    pub group: Seq<char>,
    pub date: Seq<char>,
    pub width: u16,
    pub height: u16,
    pub font: Seq<char>,
    pub comments: Seq<Seq<char>>,
}

/// Decode a record from the bytes starting at the marker, with the bytes
/// of a preceding comment block when one was found. A record needs at
/// least 128 bytes and the "SAUCE" prefix; a comment block contributes
/// lines only when it carries the "COMNT" marker.
pub open spec fn parse_sauce_spec(data: Seq<u8>, comnt: Option<Seq<u8>>) -> Option<SauceData> {
    if data.len() < 128 || data.take(5) != sauce_prefix() {
        None
    } else {
        Some(SauceData {
            title: decode_field_spec(data.subrange(7, 42)),
            author: decode_field_spec(data.subrange(42, 62)),
            group: decode_field_spec(data.subrange(62, 82)),
            date: decode_field_spec(data.subrange(82, 90)),
            width: (data[96] + data[97] * 256) as u16,
            height: (data[98] + data[99] * 256) as u16,
            font: decode_field_spec(data.subrange(106, 128)),
            comments: match comnt {
                Some(c) => if c.len() >= 5 && c.take(5) == comnt_marker() {
                    comment_lines(c.skip(5))
                } else {
                    Seq::empty()
                },
                None => Seq::empty(),
            },
        })
    }
}

pub open spec fn all_digit_chars(s: Seq<char>) -> bool {
    forall|i: int| 0 <= i < s.len() ==> ('0' <= #[trigger] s[i] && s[i] <= '9')
}

/// The date line: an eight-digit CCYYMMDD date is reformatted with dashes,
/// anything else passes through raw; an empty date yields no line.
pub open spec fn date_text(date: Seq<char>) -> Seq<char> {
    if date.len() == 0 {
        Seq::empty()
    } else if date.len() == 8 && all_digit_chars(date) {
        "Date: "@ + date.take(4) + "-"@ + date.subrange(4, 6) + "-"@ + date.subrange(6, 8)
            + "\n"@
    } else {
        "Date: "@ + date + "\n"@
    }
}

/// One `Comment:` line per comment, in order.
pub open spec fn comments_text(cs: Seq<Seq<char>>) -> Seq<char>
    decreases cs.len(),
{
    if cs.len() == 0 {
        Seq::empty()
    } else {
        comments_text(cs.drop_last()) + "Comment: "@ + cs.last() + "\n"@
    }
}

/// The metadata rendering: one newline-terminated `Key: Value` line per
/// present field, the size line only when a dimension is nonzero.
pub open spec fn format_sauce(r: SauceData) -> Seq<char> {
    (if r.title.len() > 0 { "Title: "@ + r.title + "\n"@ } else { Seq::empty() })
    + (if r.author.len() > 0 { "Author: "@ + r.author + "\n"@ } else { Seq::empty() })
    + (if r.group.len() > 0 { "Group: "@ + r.group + "\n"@ } else { Seq::empty() })
    + date_text(r.date)
    + (if r.width > 0 || r.height > 0 {
        "Size: "@ + dec_chars(r.width as nat) + "x"@ + dec_chars(r.height as nat) + "\n"@
    } else { Seq::empty() })
    + (if r.font.len() > 0 { "Font: "@ + r.font + "\n"@ } else { Seq::empty() })
    + comments_text(r.comments)
}

/// A decoded SAUCE record: the text fields are CP437-decoded and trimmed,
/// width and height come from the little-endian info words.
pub struct SauceRecord {
    pub title: String,
    pub author: String,
    pub group: String,
    pub date: String,
    pub width: u16,
    pub height: u16,
    pub font: String,
    pub comments: Vec<String>,
}

impl View for SauceRecord {
    type V = SauceData;

    open spec fn view(&self) -> SauceData {
        SauceData {
            title: self.title@,
            author: self.author@,
            group: self.group@,
            date: self.date@,
            width: self.width,
            height: self.height,
            font: self.font@,
            comments: self.comments.deep_view(),
        }
    }
}

/// Decode and trim one text field.
fn decode_field(bytes: &[u8]) -> (r: String)
    ensures
        r@ == decode_field_spec(bytes@),
{
    let mut k: usize = bytes.len();
    proof {
        assert(bytes@.take(k as int) =~= bytes@);
    }
    loop
        invariant_except_break
            0 <= k <= bytes@.len(),
            trim_trailing(field_chars(bytes@)) == trim_trailing(field_chars(bytes@.take(k as int))),
        ensures
            0 <= k <= bytes@.len(),
            trim_trailing(field_chars(bytes@)) == field_chars(bytes@.take(k as int)),
        decreases k,
    {
        if k == 0 {
            proof {
                assert(field_chars(bytes@.take(0)) =~= Seq::<char>::empty());
            }
            break;
        }
        let c = cp437_to_unicode(bytes[k - 1]);
        proof {
            let s = field_chars(bytes@.take(k as int));
            assert(s.last() == cp437_char(bytes@[k - 1]));
            assert(s.drop_last() =~= field_chars(bytes@.take(k - 1)));
        }
        if c == ' ' || c == '\0' {
            k = k - 1;
        } else {
            break;
        }
    }
    let mut r = String::new();
    let mut i: usize = 0;
    while i < k
        invariant
            0 <= i <= k <= bytes@.len(),
            r@ == field_chars(bytes@.take(i as int)),
        decreases k - i,
    {
        let c = cp437_to_unicode(bytes[i]);
        push_char(&mut r, c);
        proof {
            assert(field_chars(bytes@.take(i + 1)) =~= field_chars(bytes@.take(i as int))
                + seq![cp437_char(bytes@[i as int])]);
        }
        i = i + 1;
    }
    r
}

/// Whether an option holds exactly the given mathematical position.
pub open spec fn pos_eq(a: Option<usize>, b: Option<int>) -> bool {
    match (a, b) {
        (Some(x), Some(y)) => x == y,
        (None, None) => true,
        _ => false,
    }
}

fn is_sauce00_at(data: &[u8], i: usize) -> (r: bool)
    requires
        i + 7 <= data@.len(),
    ensures
        r == is_sauce_at(data@, i as int),
{
    let r = data[i] == 0x53 && data[i + 1] == 0x41 && data[i + 2] == 0x55 && data[i + 3] == 0x43
        && data[i + 4] == 0x45 && data[i + 5] == 0x30 && data[i + 6] == 0x30;
    proof {
        let sub = data@.subrange(i as int, i + 7);
        if r {
            assert(sub =~= sauce_marker());
        } else {
            if is_sauce_at(data@, i as int) {
                assert(data@[i as int] == sub[0]);
                assert(data@[i + 1] == sub[1]);
                assert(data@[i + 2] == sub[2]);
                assert(data@[i + 3] == sub[3]);
                assert(data@[i + 4] == sub[4]);
                assert(data@[i + 5] == sub[5]);
                assert(data@[i + 6] == sub[6]);
            }
        }
    }
    r
}

fn is_comnt_marker_at(data: &[u8], i: usize) -> (r: bool)
    requires
        i + 5 <= data@.len(),
    ensures
        r == is_comnt_at(data@, i as int),
{
    let r = data[i] == 0x43 && data[i + 1] == 0x4F && data[i + 2] == 0x4D && data[i + 3] == 0x4E
        && data[i + 4] == 0x54;
    proof {
        let sub = data@.subrange(i as int, i + 5);
        if r {
            assert(sub =~= comnt_marker());
        } else {
            if is_comnt_at(data@, i as int) {
                assert(data@[i as int] == sub[0]);
                assert(data@[i + 1] == sub[1]);
                assert(data@[i + 2] == sub[2]);
                assert(data@[i + 3] == sub[3]);
                assert(data@[i + 4] == sub[4]);
            }
        }
    }
    r
}

/// Locate the last record marker and the comment block before it.
pub fn find_sauce_positions(data: &[u8]) -> (r: (Option<usize>, Option<usize>))
    ensures
        pos_eq(r.0, find_positions_spec(data@).0),
        pos_eq(r.1, find_positions_spec(data@).1),
        r.0 is Some ==> r.0.unwrap() + 7 <= data@.len(),
{
    let sauce_pos = rfind_sauce(data);
    match sauce_pos {
        None => (None, None),
        Some(pos) => {
            let lookback: usize = 64 * 256 + 5;
            let lo: usize = if pos >= lookback { pos - lookback } else { 0 };
            let comnt = rfind_comnt(data, lo, pos);
            (Some(pos), comnt)
        },
    }
}

fn rfind_sauce(data: &[u8]) -> (r: Option<usize>)
    ensures
        pos_eq(r, find_sauce_mark(data@)),
        r is Some ==> r.unwrap() + 7 <= data@.len(),
{
    if data.len() < 7 {
        proof {
            assert(find_sauce_mark(data@) is None);
        }
        return None;
    }
    let mut i: usize = data.len() - 7;
    loop
        invariant_except_break
            0 <= i,
            i + 7 <= data@.len(),
            rfind_sauce_from(data@, data@.len() - 7) == rfind_sauce_from(data@, i as int),
        decreases i,
    {
        if is_sauce00_at(data, i) {
            return Some(i);
        }
        if i == 0 {
            return None;
        }
        i = i - 1;
    }
}

fn rfind_comnt(data: &[u8], lo: usize, pos: usize) -> (r: Option<usize>)
    requires
        lo <= pos,
        pos + 7 <= data@.len(),
    ensures
        pos_eq(r, rfind_comnt_from(data@, lo as int, pos - 5)),
{
    if pos - lo < 5 {
        proof {
            assert(rfind_comnt_from(data@, lo as int, pos - 5) is None);
        }
        return None;
    }
    let mut i: usize = pos - 5;
    loop
        invariant_except_break
            lo <= i,
            i + 5 <= data@.len(),
            rfind_comnt_from(data@, lo as int, pos - 5) == rfind_comnt_from(data@, lo as int, i as int),
        decreases i,
    {
        if is_comnt_marker_at(data, i) {
            return Some(i);
        }
        if i == lo {
            return None;
        }
        i = i - 1;
    }
}

/// The first SUB byte of the buffer, if any.
pub fn find_sub_pos(data: &[u8]) -> (r: Option<usize>)
    ensures
        pos_eq(r, find_sub(data@)),
{
    let mut i: usize = 0;
    while i < data.len()
        invariant
            0 <= i <= data@.len(),
            find_sub(data@) == find_sub_from(data@, i as int),
        decreases data@.len() - i,
    {
        if data[i] == 0x1A {
            return Some(i);
        }
        i = i + 1;
    }
    None
}

impl SauceRecord {
    /// Decode a record from the bytes starting at the marker.
    pub fn parse(data: &[u8], comnt_data: Option<&[u8]>) -> (r: Option<SauceRecord>)
        ensures
            ({
                let cspec = match comnt_data {
                    Some(c) => Some(c@),
                    None => None::<Seq<u8>>,
                };
                match r {
                    Some(rec) => parse_sauce_spec(data@, cspec) == Some(rec@),
                    None => parse_sauce_spec(data@, cspec) is None,
                }
            }),
    {
        if data.len() < 128 {
            return None;
        }
        if !(data[0] == 0x53 && data[1] == 0x41 && data[2] == 0x55 && data[3] == 0x43
            && data[4] == 0x45) {
            proof {
                let t = data@.take(5);
                if t == sauce_prefix() {
                    assert(data@[0] == t[0]);
                    assert(data@[1] == t[1]);
                    assert(data@[2] == t[2]);
                    assert(data@[3] == t[3]);
                    assert(data@[4] == t[4]);
                }
            }
            return None;
        }
        proof {
            assert(data@.take(5) =~= sauce_prefix());
        }
        let title = decode_field(slice_subrange(data, 7, 42));
        let author = decode_field(slice_subrange(data, 42, 62));
        let group = decode_field(slice_subrange(data, 62, 82));
        let date = decode_field(slice_subrange(data, 82, 90));
        let width: u16 = data[96] as u16 + data[97] as u16 * 256;
        let height: u16 = data[98] as u16 + data[99] as u16 * 256;
        let font = decode_field(slice_subrange(data, 106, 128));
        let mut comments: Vec<String> = Vec::new();
        match comnt_data {
            Some(c) => {
                if c.len() >= 5 && is_comnt_marker_at(c, 0) {
                    let cb = slice_subrange(c, 5, c.len());
                    proof {
                        assert(cb@ =~= c@.skip(5));
                    }
                    let mut j: usize = 0;
                    proof {
                        assert(cb@.skip(0) =~= cb@);
                        assert(comments.deep_view() + comment_lines(cb@) =~~= comment_lines(cb@));
                    }
                    while j < cb.len()
                        invariant
                            0 <= j <= cb@.len(),
                            comments.deep_view() + comment_lines(cb@.skip(j as int))
                                =~~= comment_lines(cb@),
                        decreases cb@.len() - j,
                    {
                        let ghost old_dv = comments.deep_view();
                        let end: usize = if cb.len() - j >= 64 { j + 64 } else { cb.len() };
                        let line = decode_field(slice_subrange(cb, j, end));
                        proof {
                            let rem = cb@.skip(j as int);
                            let n: int = if rem.len() >= 64 { 64 } else { rem.len() as int };
                            assert(rem.take(n) =~= cb@.subrange(j as int, end as int));
                            assert(rem.skip(n) =~= cb@.skip(end as int));
                        }
                        if !line.as_str().is_empty() {
                            comments.push(line);
                            proof {
                                assert(comments.deep_view() =~~= old_dv.push(line@));
                                assert(old_dv.push(line@) =~~= old_dv + seq![line@]);
                            }
                        }
                        j = end;
                    }
                    proof {
                        assert(cb@.skip(j as int) =~= Seq::<u8>::empty());
                        assert(comments.deep_view() + Seq::<Seq<char>>::empty()
                            =~~= comments.deep_view());
                    }
                } else {
                    proof {
                        if c@.len() >= 5 && c@.take(5) == comnt_marker() {
                            let t = c@.take(5);
                            assert(is_comnt_at(c@, 0)) by {
                                assert(c@.subrange(0, 5) =~= t);
                            }
                        }
                    }
                }
            },
            None => {},
        }
        let rec = SauceRecord { title, author, group, date, width, height, font, comments };
        proof {
            let cspec = match comnt_data {
                Some(c) => Some(c@),
                None => None::<Seq<u8>>,
            };
            assert(parse_sauce_spec(data@, cspec) == Some(rec@)) by {
                assert(parse_sauce_spec(data@, cspec).unwrap() =~~= rec@);
            }
        }
        Some(rec)
    }

    /// Render the record as newline-terminated `Key: Value` lines, absent
    /// fields contributing nothing.
    pub fn format_output(&self) -> (r: String)
        ensures
            r@ == format_sauce(self@),
    {
        let mut out = String::new();
        push_field_line(&mut out, "Title: ", &self.title);
        let ghost t1 = out@;
        push_field_line(&mut out, "Author: ", &self.author);
        let ghost t2 = out@;
        push_field_line(&mut out, "Group: ", &self.group);
        let ghost t3 = out@;
        push_date_line(&mut out, &self.date);
        let ghost t4 = out@;
        push_size_line(&mut out, self.width, self.height);
        let ghost t5 = out@;
        push_field_line(&mut out, "Font: ", &self.font);
        let ghost t6 = out@;
        push_comment_lines(&mut out, &self.comments);
        proof {
            assert(out@ =~= format_sauce(self@));
        }
        out
    }
}

/// Append one `Key: Value` line when the value is non-empty.
fn push_field_line(out: &mut String, key: &str, value: &String)
    ensures
        final(out)@ == old(out)@ + (if value@.len() > 0 { key@ + value@ + "\n"@ } else {
            Seq::<char>::empty()
        }),
{
    if !value.as_str().is_empty() {
        out.append(key);
        out.append(value.as_str());
        out.append("\n");
    }
    proof {
        assert(final(out)@ =~= old(out)@ + (if value@.len() > 0 { key@ + value@ + "\n"@ } else {
            Seq::<char>::empty()
        }));
    }
}

/// Append the date line, reformatting an eight-digit date with dashes.
fn push_date_line(out: &mut String, date: &String)
    ensures
        final(out)@ == old(out)@ + date_text(date@),
{
    if !date.as_str().is_empty() {
        let d = date.as_str();
        if is_eight_digits(d) {
            out.append("Date: ");
            out.append(d.substring_char(0, 4));
            out.append("-");
            out.append(d.substring_char(4, 6));
            out.append("-");
            out.append(d.substring_char(6, 8));
            out.append("\n");
        } else {
            out.append("Date: ");
            out.append(d);
            out.append("\n");
        }
    }
    proof {
        assert(final(out)@ =~= old(out)@ + date_text(date@));
    }
}

/// Append the size line when either dimension is nonzero.
fn push_size_line(out: &mut String, width: u16, height: u16)
    ensures
        final(out)@ == old(out)@ + (if width > 0 || height > 0 {
            "Size: "@ + dec_chars(width as nat) + "x"@ + dec_chars(height as nat) + "\n"@
        } else {
            Seq::<char>::empty()
        }),
{
    if width > 0 || height > 0 {
        out.append("Size: ");
        let wd = dec_digits(width as u32);
        push_chars(out, &wd);
        out.append("x");
        let hd = dec_digits(height as u32);
        push_chars(out, &hd);
        out.append("\n");
    }
    proof {
        assert(final(out)@ =~= old(out)@ + (if width > 0 || height > 0 {
            "Size: "@ + dec_chars(width as nat) + "x"@ + dec_chars(height as nat) + "\n"@
        } else {
            Seq::<char>::empty()
        }));
    }
}

/// Append one `Comment:` line per comment.
fn push_comment_lines(out: &mut String, comments: &Vec<String>)
    ensures
        final(out)@ == old(out)@ + comments_text(comments.deep_view()),
{
    let mut i: usize = 0;
    proof {
        assert(comments.deep_view().take(0) =~= Seq::<Seq<char>>::empty());
    }
    while i < comments.len()
        invariant
            0 <= i <= comments@.len(),
            out@ =~= old(out)@ + comments_text(comments.deep_view().take(i as int)),
        decreases comments@.len() - i,
    {
        out.append("Comment: ");
        out.append(comments[i].as_str());
        out.append("\n");
        proof {
            let dv = comments.deep_view();
            assert(dv.take(i + 1).drop_last() =~~= dv.take(i as int));
            assert(dv.take(i + 1).last() == dv[i as int]);
            assert(dv[i as int] == comments@[i as int]@);
            assert(out@ =~= old(out)@ + comments_text(dv.take(i + 1)));
        }
        i = i + 1;
    }
    proof {
        let dv = comments.deep_view();
        assert(dv.take(i as int) =~~= dv);
    }
}

fn is_eight_digits(s: &str) -> (r: bool)
    ensures
        r == (s@.len() == 8 && all_digit_chars(s@)),
{
    let n = s.unicode_len();
    if n != 8 {
        return false;
    }
    let mut i: usize = 0;
    while i < 8
        invariant
            s@.len() == 8,
            0 <= i <= 8,
            forall|j: int| 0 <= j < i ==> ('0' <= #[trigger] s@[j] && s@[j] <= '9'),
        decreases 8 - i,
    {
        let c = s.get_char(i);
        if !('0' <= c && c <= '9') {
            return false;
        }
        i = i + 1;
    }
    true
}

} // verus!
