//! The text work around a LilyPond render: naming the job directory, merging the
//! command's output streams, and reading page dimensions from the SVG it writes.
use vstd::prelude::*;
use vstd::string::*;

use crate::text::{
    chars_of, decimal, decimal_string, fields, find, find_spec, is_digit, nth_field, text_eq, trim,
    trimmed,
};

verus! {

// ---------------------------------------------------------------------------------------
// The job directory
// ---------------------------------------------------------------------------------------

/// The decimal numeral of `n`, padded with leading zeros to at least four characters.
pub open spec fn padded4(n: nat) -> Seq<char> {
    let d = decimal(n);
    if d.len() < 4 {
        Seq::new((4 - d.len()) as nat, |_i: int| '0') + d
    } else {
        d
    }
}

/// The name of the directory of render job `job_id`: `render-` and the job number written
/// with at least four digits.
pub open spec fn job_dir_name_spec(job_id: u64) -> Seq<char> {
    "render-"@ + padded4(job_id as nat)
}

/// The name of the directory of render job `job_id`.
pub fn job_dir_name(job_id: u64) -> (name: String)
    ensures
        name@ == job_dir_name_spec(job_id),
{
    let digits = decimal_string(job_id);
    let mut name = String::from_str("render-");
    let count = digits.as_str().unicode_len();
    let mut pad: usize = count;
    let ghost zeros: Seq<char> = Seq::empty();
    proof {
        reveal_strlit("0");
    }
    while pad < 4
        invariant
            count == decimal(job_id as nat).len(),
            count <= pad <= 4 || (count > 4 && pad == count),
            zeros.len() == pad - count,
            forall|k: int| 0 <= k < zeros.len() ==> zeros[k] == '0',
            name@ == "render-"@ + zeros,
        decreases 4 - pad,
    {
        proof {
            reveal_strlit("0");
        }
        name.append("0");
        proof {
            zeros = zeros.push('0');
        }
        pad = pad + 1;
    }
    name.append(digits.as_str());
    proof {
        let d = decimal(job_id as nat);
        if d.len() < 4 {
            assert(zeros =~= Seq::new((4 - d.len()) as nat, |_i: int| '0'));
        } else {
            assert(zeros =~= Seq::<char>::empty());
        }
        assert(name@ =~= job_dir_name_spec(job_id));
    }
    name
}

// ---------------------------------------------------------------------------------------
// The command's output
// ---------------------------------------------------------------------------------------

/// What `String::from_utf8_lossy` makes of `bytes`: their UTF-8 decoding, with each invalid
/// sequence replaced by U+FFFD.
pub uninterp spec fn utf8_lossy(bytes: Seq<u8>) -> Seq<char>;

/// Calls `String::from_utf8_lossy` and takes ownership of its result. The contract names the
/// result and states nothing of the replacement rules.
#[verifier::external_body]
fn decode_lossy(bytes: &[u8]) -> (s: String)
    ensures
        s@ == utf8_lossy(bytes@),
{
    String::from_utf8_lossy(bytes).into_owned()
}

/// The log of a run from its two output texts: each trimmed, the non-empty ones kept, and
/// joined by a newline when both are present.
pub open spec fn combined_spec(stdout: Seq<char>, stderr: Seq<char>) -> Seq<char> {
    let out = trimmed(stdout);
    let err = trimmed(stderr);
    if out.len() == 0 {
        err
    } else if err.len() == 0 {
        out
    } else {
        out + seq!['\n'] + err
    }
}

/// The log of a run from its two output texts.
pub fn combine_streams(stdout: &str, stderr: &str) -> (log: String)
    ensures
        log@ == combined_spec(stdout@, stderr@),
        trimmed(stdout@).len() == 0 ==> log@ == trimmed(stderr@),
        trimmed(stdout@).len() > 0 && trimmed(stderr@).len() == 0 ==> log@ == trimmed(stdout@),
        trimmed(stdout@).len() > 0 && trimmed(stderr@).len() > 0 ==> log@ == trimmed(stdout@)
            + seq!['\n'] + trimmed(stderr@),
{
    let out = trim(stdout);
    let err = trim(stderr);
    if out.is_empty() {
        String::from_str(err)
    } else if err.is_empty() {
        String::from_str(out)
    } else {
        let mut log = String::from_str(out);
        proof {
            reveal_strlit("\n");
        }
        log.append("\n");
        log.append(err);
        log
    }
}

/// The log of a run keeps each stream's whole trimmed text: the trimmed error output alone
/// when the standard output is blank, the trimmed standard output alone when the error
/// output is blank, and otherwise both, in that order, joined by one newline.
pub proof fn lemma_log_keeps_both_streams(stdout: Seq<char>, stderr: Seq<char>)
    ensures
        trimmed(stdout).len() == 0 ==> combined_spec(stdout, stderr) == trimmed(stderr),
        trimmed(stdout).len() > 0 && trimmed(stderr).len() == 0 ==> combined_spec(stdout, stderr)
            == trimmed(stdout),
        trimmed(stdout).len() > 0 && trimmed(stderr).len() > 0 ==> combined_spec(stdout, stderr)
            == trimmed(stdout) + seq!['\n'] + trimmed(stderr),
        combined_spec(stdout, stderr).len() == if trimmed(stdout).len() > 0 && trimmed(stderr).len() > 0 {
            trimmed(stdout).len() + 1 + trimmed(stderr).len()
        } else {
            trimmed(stdout).len() + trimmed(stderr).len()
        },
{
}

/// The log of a run from the bytes it wrote to standard output and standard error.
pub fn combined_output(stdout: &[u8], stderr: &[u8]) -> (log: String)
    ensures
        log@ == combined_spec(utf8_lossy(stdout@), utf8_lossy(stderr@)),
{
    let out = decode_lossy(stdout);
    let err = decode_lossy(stderr);
    combine_streams(out.as_str(), err.as_str())
}

/// What a failed run reports: its log, or when the log is empty, the exit status.
pub open spec fn failure_detail_spec(log: Seq<char>, status: Seq<char>) -> Seq<char> {
    if log.len() == 0 {
        "lilypond exited with status "@ + status
    } else {
        log
    }
}

/// What a failed run reports, from its log and the text of its exit status.
pub fn failure_detail(log: String, status: &str) -> (detail: String)
    ensures
        detail@ == failure_detail_spec(log@, status@),
{
    if log.as_str().is_empty() {
        let mut detail = String::from_str("lilypond exited with status ");
        detail.append(status);
        detail
    } else {
        log
    }
}

/// The error of a run that succeeded but wrote no page.
pub const NO_PAGES_MESSAGE: &'static str = "lilypond completed, but no SVG pages were produced";

/// The outcome of a successful run from the pages found and its log: an error when no page
/// was produced.
pub fn collected_outcome<P>(pages: Vec<P>, log: String) -> (r: Result<(Vec<P>, String), String>)
    ensures
        pages@.len() == 0 ==> (r matches Err(m) && m@ == NO_PAGES_MESSAGE@),
        pages@.len() > 0 ==> (r matches Ok((p, l)) && p@ == pages@ && l@ == log@),
{
    if pages.len() == 0 {
        Err(String::from_str(NO_PAGES_MESSAGE))
    } else {
        Ok((pages, log))
    }
}

// ---------------------------------------------------------------------------------------
// Page dimensions in the SVG
// ---------------------------------------------------------------------------------------

/// The opening tag of the `<svg>` element: the text from the first `<svg` up to, and not
/// including, the next `>`. Whatever precedes it, such as an XML declaration, is skipped.
pub open spec fn open_tag_spec(contents: Seq<char>) -> Option<Seq<char>> {
    match find_spec(contents, "<svg"@) {
        Some(start) => {
            let rest = contents.skip(start);
            match find_spec(rest, seq!['>']) {
                Some(end) => Some(rest.take(end)),
                None => None,
            }
        },
        None => None,
    }
}

/// The opening tag of the document's `<svg>` element, if it has one.
pub fn svg_open_tag(contents: &str) -> (tag: Option<&str>)
    ensures
        tag matches Some(t) ==> open_tag_spec(contents@) == Some(t@),
        tag is None ==> open_tag_spec(contents@) is None,
{
    let v = chars_of(contents);
    let needle = chars_of("<svg");
    let start = match find(v.as_slice(), needle.as_slice()) {
        Some(s) => s,
        None => return None,
    };
    let (_, rest) = v.as_slice().split_at(start);
    assert(rest@ == contents@.skip(start as int));
    let close = vec!['>'];
    assert(close@ == seq!['>']);
    match find(rest, close.as_slice()) {
        Some(end) => {
            let n = v.len();
            assert(start + end <= n);
            Some(contents.substring_char(start, start + end))
        },
        None => None,
    }
}

/// The value of the first `attribute="..."` in `tag`: what stands between the first
/// occurrence of `attribute="` and the next `"`.
pub open spec fn attribute_spec(tag: Seq<char>, attribute: Seq<char>) -> Option<Seq<char>> {
    let needle = attribute + seq!['=', '"'];
    match find_spec(tag, needle) {
        Some(start) => {
            let rest = tag.skip(start + needle.len());
            match find_spec(rest, seq!['"']) {
                Some(end) => Some(rest.take(end)),
                None => None,
            }
        },
        None => None,
    }
}

/// The value of attribute `attribute` in the tag `tag`, if it is written there.
pub fn attribute_value<'a>(tag: &'a str, attribute: &str) -> (value: Option<&'a str>)
    ensures
        value matches Some(v) ==> attribute_spec(tag@, attribute@) == Some(v@),
        value is None ==> attribute_spec(tag@, attribute@) is None,
{
    let v = chars_of(tag);
    let mut needle = chars_of(attribute);
    needle.push('=');
    needle.push('"');
    assert(needle@ == attribute@ + seq!['=', '"']);
    let start = match find(v.as_slice(), needle.as_slice()) {
        Some(s) => s,
        None => return None,
    };
    let n = v.len();
    assert(start + needle@.len() <= n);
    let from = start + needle.len();
    let (_, rest) = v.as_slice().split_at(from);
    assert(rest@ == tag@.skip(from as int));
    let quote = vec!['"'];
    assert(quote@ == seq!['"']);
    match find(rest, quote.as_slice()) {
        Some(end) => {
            assert(from + end <= n);
            Some(tag.substring_char(from, from + end))
        },
        None => None,
    }
}

/// Field `index` of the whitespace-separated numbers of the tag's `viewBox` attribute.
pub open spec fn view_box_field_spec(tag: Seq<char>, index: nat) -> Option<Seq<char>> {
    match attribute_spec(tag, "viewBox"@) {
        Some(value) => if index < fields(value).len() {
            Some(fields(value)[index as int])
        } else {
            None
        },
        None => None,
    }
}

/// Field `index` of the tag's `viewBox` attribute (2 is the width, 3 the height).
pub fn view_box_field<'a>(tag: &'a str, index: usize) -> (field: Option<&'a str>)
    ensures
        field matches Some(f) ==> view_box_field_spec(tag@, index as nat) == Some(f@),
        field is None ==> view_box_field_spec(tag@, index as nat) is None,
{
    match attribute_value(tag, "viewBox") {
        Some(value) => nth_field(value, index),
        None => None,
    }
}

/// A length unit that a page dimension may carry.
#[derive(Clone, Copy, Debug, PartialEq, Eq, Structural)]
pub enum LengthUnit {
    /// CSS pixels, also the reading of a bare number.
    Px,
    /// Points, 72 to the inch.
    Pt,
    /// Picas, 12 points.
    Pc,
    /// Millimetres.
    Mm,
    /// Centimetres.
    Cm,
    /// Inches.
    In,
}

/// The unit that a unit suffix names; none for an unknown suffix.
pub open spec fn unit_spec(unit: Seq<char>) -> Option<LengthUnit> {
    if unit == ""@ || unit == "px"@ {
        Some(LengthUnit::Px)
    } else if unit == "pt"@ {
        Some(LengthUnit::Pt)
    } else if unit == "pc"@ {
        Some(LengthUnit::Pc)
    } else if unit == "mm"@ {
        Some(LengthUnit::Mm)
    } else if unit == "cm"@ {
        Some(LengthUnit::Cm)
    } else if unit == "in"@ {
        Some(LengthUnit::In)
    } else {
        None
    }
}

/// The unit named by `unit`.
pub fn length_unit(unit: &str) -> (u: Option<LengthUnit>)
    ensures
        u == unit_spec(unit@),
{
    if text_eq(unit, "") || text_eq(unit, "px") {
        Some(LengthUnit::Px)
    } else if text_eq(unit, "pt") {
        Some(LengthUnit::Pt)
    } else if text_eq(unit, "pc") {
        Some(LengthUnit::Pc)
    } else if text_eq(unit, "mm") {
        Some(LengthUnit::Mm)
    } else if text_eq(unit, "cm") {
        Some(LengthUnit::Cm)
    } else if text_eq(unit, "in") {
        Some(LengthUnit::In)
    } else {
        None
    }
}

/// A character of the numeric part of a dimension: an ASCII digit or `.`.
pub open spec fn is_numeric_char(c: char) -> bool {
    is_digit(c) || c == '.'
}

/// The first position at or after `i` that holds no numeric character, or the length.
pub open spec fn numeric_end_from(s: Seq<char>, i: int) -> int
    decreases s.len() - i,
{
    if i < 0 || i >= s.len() {
        s.len() as int
    } else if !is_numeric_char(s[i]) {
        i
    } else {
        numeric_end_from(s, i + 1)
    }
}

/// Whether `c` belongs to the numeric part of a dimension.
fn numeric_char(c: char) -> (b: bool)
    ensures
        b == is_numeric_char(c),
{
    ('0' <= c && c <= '9') || c == '.'
}

/// A dimension split into its numeric text and its unit: the trimmed text up to the first
/// character that is neither a digit nor `.`, and the trimmed rest, which must name a unit.
pub open spec fn dimension_spec(raw: Seq<char>) -> Option<(Seq<char>, LengthUnit)> {
    let t = trimmed(raw);
    let end = numeric_end_from(t, 0);
    match unit_spec(trimmed(t.skip(end))) {
        Some(u) => Some((t.take(end), u)),
        None => None,
    }
}

/// Splits a dimension such as `210.00mm` into its numeric text and its unit.
pub fn split_dimension(raw: &str) -> (r: Option<(&str, LengthUnit)>)
    ensures
        r matches Some((n, u)) ==> dimension_spec(raw@) == Some((n@, u)),
        r is None ==> dimension_spec(raw@) is None,
{
    let t = trim(raw);
    let v = chars_of(t);
    let mut end: usize = 0;
    while end < v.len() && numeric_char(v[end])
        invariant
            v@ == t@,
            end <= v@.len(),
            numeric_end_from(t@, 0) == numeric_end_from(t@, end as int),
        decreases v.len() - end,
    {
        end = end + 1;
    }
    assert(numeric_end_from(t@, end as int) == end);
    let number = t.substring_char(0, end);
    let unit_text = t.substring_char(end, v.len());
    assert(unit_text@ == t@.skip(end as int));
    let unit = trim(unit_text);
    match length_unit(unit) {
        Some(u) => Some((number, u)),
        None => None,
    }
}

} // verus!
