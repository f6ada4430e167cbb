//! Output formatters: pure, stateless renderings of result records.
//!
//! Each format's text is pinned down exactly by a specification over the
//! records' models.  Confidence is rendered from thousandths the way the
//! shortest decimal rendering would show it.

use vstd::prelude::*;
use crate::textutil::{dec_of, dec_int_of, dec_digit, append_str, append_i32_dec, append_u64_dec,
    string_from_chars};
use crate::point_views;
use crate::error::OcrError;

verus! {

/// One record to render: source file, recognized text, confidence in
/// thousandths, and an optional bounding polygon.
#[derive(Clone)]
pub struct OcrOutput {
    pub file: String,
    pub text: String,
    pub confidence_milli: u32,
    pub bbox: Option<Vec<Vec<i32>>>,
}

/// The mathematical model of one record.
pub struct OcrOutputV {
    pub file: Seq<char>,
    pub text: Seq<char>,
    pub confidence_milli: u32,
    pub bbox: Option<Seq<Seq<i32>>>,
}

impl View for OcrOutput {
    type V = OcrOutputV;

    open spec fn view(&self) -> OcrOutputV {
        OcrOutputV {
            file: self.file@,
            text: self.text@,
            confidence_milli: self.confidence_milli,
            bbox: match self.bbox {
                Some(b) => Some(point_views(b@)),
                None => None,
            },
        }
    }
}

/// The models of a record list.
pub open spec fn output_views(v: Seq<OcrOutput>) -> Seq<OcrOutputV> {
    v.map_values(|o: OcrOutput| o@)
}

/// What rendering reads of a polygon: every point has both coordinates,
/// and a non-empty polygon has at least three points (a four-point
/// polygon, the data model's shape, satisfies this).
pub open spec fn polygon_wf(o: OcrOutputV) -> bool {
    match o.bbox {
        Some(b) => (forall|j: int| 0 <= j < b.len() ==> (#[trigger] b[j]).len() >= 2) && (b.len()
            == 0 || b.len() >= 3),
        None => true,
    }
}

/// The confidence's fraction in thousandths, trailing zeros trimmed.
pub open spec fn frac_trimmed(f: int) -> Seq<char>
    recommends
        0 < f < 1000,
{
    if f % 10 != 0 {
        seq![dec_digit(f / 100), dec_digit((f / 10) % 10), dec_digit(f % 10)]
    } else if f % 100 != 0 {
        seq![dec_digit(f / 100), dec_digit((f / 10) % 10)]
    } else {
        seq![dec_digit(f / 100)]
    }
}

/// A confidence in thousandths, rendered as its shortest decimal: a whole
/// number bare, otherwise with the trimmed fraction.
pub open spec fn conf_display(m: int) -> Seq<char> {
    if m % 1000 == 0 {
        dec_of(m / 1000)
    } else {
        dec_of(m / 1000) + seq!['.'] + frac_trimmed(m % 1000)
    }
}

/// Appends the shortest decimal rendering of a confidence in thousandths.
pub fn append_conf(out: &mut Vec<char>, m: u32)
    ensures
        final(out)@ == old(out)@ + conf_display(m as int),
{
    if m % 1000 == 0 {
        append_u64_dec(out, (m / 1000) as u64);
    } else {
        append_u64_dec(out, (m / 1000) as u64);
        out.push('.');
        let f = m % 1000;
        if f % 10 != 0 {
            out.push((48 + (f / 100) as u8) as char);
            out.push((48 + ((f / 10) % 10) as u8) as char);
            out.push((48 + (f % 10) as u8) as char);
        } else if f % 100 != 0 {
            out.push((48 + (f / 100) as u8) as char);
            out.push((48 + ((f / 10) % 10) as u8) as char);
        } else {
            out.push((48 + (f / 100) as u8) as char);
        }
        proof {
            assert(out@ =~= old(out)@ + conf_display(m as int));
        }
    }
}

/// A confidence in thousandths as a percentage with two decimals, as the
/// detailed rendering shows it.
pub open spec fn percent_text(m: int) -> Seq<char> {
    dec_of(m / 10) + seq!['.', dec_digit(m % 10), '0']
}

/// Appends the two-decimal percentage rendering of a confidence.
pub fn append_percent(out: &mut Vec<char>, m: u32)
    ensures
        final(out)@ == old(out)@ + percent_text(m as int),
{
    append_u64_dec(out, (m / 10) as u64);
    out.push('.');
    out.push((48 + (m % 10) as u8) as char);
    out.push('0');
    proof {
        assert(out@ =~= old(out)@ + percent_text(m as int));
    }
}

/// The text with every double quote doubled, as a CSV field wants it.
pub open spec fn dq(s: Seq<char>) -> Seq<char>
    decreases s.len(),
{
    if s.len() == 0 {
        Seq::empty()
    } else {
        dq(s.drop_last()) + (if s.last() == '"' {
            seq!['"', '"']
        } else {
            seq![s.last()]
        })
    }
}

/// Appends the text with every double quote doubled.
#[verifier::loop_isolation(false)]
pub fn append_dq(out: &mut Vec<char>, s: &str)
    ensures
        final(out)@ == old(out)@ + dq(s@),
{
    let len = s.unicode_len();
    let mut i: usize = 0;
    while i < len
        invariant
            i <= len,
            len == s@.len(),
            out@ == old(out)@ + dq(s@.take(i as int)),
        decreases len - i,
    {
        let c = s.get_char(i);
        if c == '"' {
            out.push('"');
            out.push('"');
        } else {
            out.push(c);
        }
        proof {
            assert(s@.take(i + 1).drop_last() =~= s@.take(i as int));
            assert(s@.take(i + 1).last() == s@[i as int]);
            assert(out@ =~= old(out)@ + dq(s@.take(i + 1)));
        }
        i += 1;
    }
    proof {
        assert(s@.take(len as int) =~= s@);
    }
}

/// The bounding-box cells of a CSV row: the first and third points'
/// coordinates, or four bare commas when there is no polygon.
pub open spec fn csv_bbox(o: OcrOutputV) -> Seq<char> {
    match o.bbox {
        Some(b) => if b.len() > 0 {
            dec_int_of(b[0][0] as int) + seq![','] + dec_int_of(b[0][1] as int) + seq![',']
                + dec_int_of(b[2][0] as int) + seq![','] + dec_int_of(b[2][1] as int)
        } else {
            ",,,,"@
        },
        None => ",,,,"@,
    }
}

/// One CSV row: quoted file, quoted text with doubled quotes, confidence,
/// bounding-box cells.
pub open spec fn csv_row(o: OcrOutputV) -> Seq<char> {
    "\""@ + o.file + "\",\""@ + dq(o.text) + "\","@ + conf_display(o.confidence_milli as int)
        + ","@ + csv_bbox(o) + "\n"@
}

/// The whole CSV rendering: a header line, then one row per record.
pub open spec fn csv_spec(rs: Seq<OcrOutputV>) -> Seq<char>
    decreases rs.len(),
{
    if rs.len() == 0 {
        "file,text,confidence,bbox_x1,bbox_y1,bbox_x2,bbox_y2\n"@
    } else {
        csv_spec(rs.drop_last()) + csv_row(rs.last())
    }
}

/// Renders the records as CSV.
#[verifier::loop_isolation(false)]
#[verifier::rlimit(100)]
pub fn format_csv(results: &Vec<OcrOutput>) -> (r: Result<String, OcrError>)
    requires
        forall|k: int| 0 <= k < results@.len() ==> polygon_wf(#[trigger] results@[k]@),
    ensures
        r matches Ok(s) && s@ == csv_spec(output_views(results@)),
{
    let ghost vs = output_views(results@);
    let mut out: Vec<char> = Vec::new();
    append_str(&mut out, "file,text,confidence,bbox_x1,bbox_y1,bbox_x2,bbox_y2\n");
    let mut k: usize = 0;
    while k < results.len()
        invariant
            k <= results@.len(),
            vs.len() == results@.len(),
            out@ == csv_spec(vs.take(k as int)),
        decreases results@.len() - k,
    {
        let o = &results[k];
        proof {
            assert(vs[k as int] == results@[k as int]@);
            assert(polygon_wf(vs[k as int]));
        }
        append_str(&mut out, "\"");
        append_str(&mut out, o.file.as_str());
        append_str(&mut out, "\",\"");
        append_dq(&mut out, o.text.as_str());
        append_str(&mut out, "\",");
        append_conf(&mut out, o.confidence_milli);
        append_str(&mut out, ",");
        match &o.bbox {
            Some(b) => {
                if b.len() > 0 {
                    proof {
                        assert(point_views(b@)[0] == b@[0]@);
                        assert(point_views(b@)[2] == b@[2]@);
                    }
                    append_i32_dec(&mut out, b[0][0]);
                    out.push(',');
                    append_i32_dec(&mut out, b[0][1]);
                    out.push(',');
                    append_i32_dec(&mut out, b[2][0]);
                    out.push(',');
                    append_i32_dec(&mut out, b[2][1]);
                } else {
                    append_str(&mut out, ",,,,");
                }
            },
            None => {
                append_str(&mut out, ",,,,");
            },
        }
        append_str(&mut out, "\n");
        proof {
            assert(vs.take(k + 1).drop_last() =~= vs.take(k as int));
            assert(vs.take(k + 1).last() == vs[k as int]);
            assert(out@ =~= csv_spec(vs.take(k as int)) + csv_row(vs[k as int]));
        }
        k += 1;
    }
    proof {
        assert(vs.take(vs.len() as int) =~= vs);
    }
    Ok(string_from_chars(&out))
}

} // verus!

verus! {

/// The XML text escape of one character: the three markup characters
/// become named entities, everything else stands as itself.
pub open spec fn xml_esc_char(c: char) -> Seq<char> {
    if c == '&' {
        seq!['&', 'a', 'm', 'p', ';']
    } else if c == '<' {
        seq!['&', 'l', 't', ';']
    } else if c == '>' {
        seq!['&', 'g', 't', ';']
    } else {
        seq![c]
    }
}

/// The XML text escape of a whole string.
pub open spec fn xml_escaped(s: Seq<char>) -> Seq<char>
    decreases s.len(),
{
    if s.len() == 0 {
        Seq::empty()
    } else {
        xml_escaped(s.drop_last()) + xml_esc_char(s.last())
    }
}

/// Relies on html_escape::encode_text: it escapes `&` as `&amp;`, `<` as
/// `&lt;` and `>` as `&gt;`, and nothing else.
#[verifier::external_body]
fn xml_escape_text(s: &String) -> (r: String)
    ensures
        r@ == xml_escaped(s@),
{
    String::from(html_escape::encode_text(s.as_str()))
}

/// One point line of an XML bounding box, numbered from one.
pub open spec fn xml_point(pt: Seq<i32>, idx: int) -> Seq<char> {
    "      <point"@ + dec_of(idx) + " x=\""@ + dec_int_of(pt[0] as int) + "\" y=\""@ + dec_int_of(
        pt[1] as int,
    ) + "\"/>\n"@
}

/// The point lines of an XML bounding box.
pub open spec fn xml_points(b: Seq<Seq<i32>>) -> Seq<char>
    decreases b.len(),
{
    if b.len() == 0 {
        Seq::empty()
    } else {
        xml_points(b.drop_last()) + xml_point(b.last(), b.len() as int)
    }
}

/// The bounding-box block of an XML record, when there is a polygon.
pub open spec fn xml_bbox(o: OcrOutputV) -> Seq<char> {
    match o.bbox {
        Some(b) => "    <bbox>\n"@ + xml_points(b) + "    </bbox>\n"@,
        None => Seq::empty(),
    }
}

/// One XML record.
pub open spec fn xml_row(o: OcrOutputV) -> Seq<char> {
    "  <result>\n"@ + "    <file>"@ + o.file + "</file>\n"@ + "    <text>"@ + xml_escaped(o.text)
        + "</text>\n"@ + "    <confidence>"@ + conf_display(o.confidence_milli as int)
        + "</confidence>\n"@ + xml_bbox(o) + "  </result>\n"@
}

/// The whole XML rendering.
pub open spec fn xml_spec(rs: Seq<OcrOutputV>) -> Seq<char>
    decreases rs.len(),
{
    if rs.len() == 0 {
        "<?xml version=\"1.0\" encoding=\"UTF-8\"?>\n<ocr_results>\n"@
    } else {
        xml_spec(rs.drop_last()) + xml_row(rs.last())
    }
}

/// Appends the bounding-box block of one XML record.
#[verifier::loop_isolation(false)]
#[verifier::rlimit(100)]
fn append_xml_bbox(out: &mut Vec<char>, o: &OcrOutput)
    requires
        polygon_wf(o@),
    ensures
        final(out)@ == old(out)@ + xml_bbox(o@),
{
    match &o.bbox {
        Some(b) => {
            append_str(out, "    <bbox>\n");
            let ghost pv = point_views(b@);
            let ghost base = out@;
            let mut j: usize = 0;
            while j < b.len()
                invariant
                    j <= b@.len(),
                    pv.len() == b@.len(),
                    out@ == base + xml_points(pv.take(j as int)),
                decreases b@.len() - j,
            {
                proof {
                    assert(pv[j as int] == b@[j as int]@);
                    assert(pv.take(j + 1).drop_last() =~= pv.take(j as int));
                    assert(pv.take(j + 1).last() == pv[j as int]);
                }
                append_str(out, "      <point");
                append_u64_dec(out, (j + 1) as u64);
                append_str(out, " x=\"");
                append_i32_dec(out, b[j][0]);
                append_str(out, "\" y=\"");
                append_i32_dec(out, b[j][1]);
                append_str(out, "\"/>\n");
                proof {
                    assert(out@ =~= base + xml_points(pv.take(j + 1)));
                }
                j += 1;
            }
            proof {
                assert(pv.take(pv.len() as int) =~= pv);
            }
            append_str(out, "    </bbox>\n");
            proof {
                assert(out@ =~= old(out)@ + xml_bbox(o@));
            }
        },
        None => {
            proof {
                assert(out@ =~= old(out)@ + xml_bbox(o@));
            }
        },
    }
}

/// Appends one XML record.
#[verifier::loop_isolation(false)]
#[verifier::rlimit(100)]
fn append_xml_row(out: &mut Vec<char>, o: &OcrOutput)
    requires
        polygon_wf(o@),
    ensures
        final(out)@ == old(out)@ + xml_row(o@),
{
    append_str(out, "  <result>\n");
    append_str(out, "    <file>");
    append_str(out, o.file.as_str());
    append_str(out, "</file>\n");
    append_str(out, "    <text>");
    let esc = xml_escape_text(&o.text);
    append_str(out, esc.as_str());
    append_str(out, "</text>\n");
    append_str(out, "    <confidence>");
    append_conf(out, o.confidence_milli);
    append_str(out, "</confidence>\n");
    append_xml_bbox(out, o);
    append_str(out, "  </result>\n");
    proof {
        assert(out@ =~= old(out)@ + xml_row(o@));
    }
}

/// Renders the records as XML; the closing tag follows the rows.
#[verifier::loop_isolation(false)]
#[verifier::rlimit(50)]
pub fn format_xml(results: &Vec<OcrOutput>) -> (r: Result<String, OcrError>)
    requires
        forall|k: int| 0 <= k < results@.len() ==> polygon_wf(#[trigger] results@[k]@),
    ensures
        r matches Ok(s) && s@ == xml_spec(output_views(results@)) + "</ocr_results>\n"@,
{
    let ghost vs = output_views(results@);
    let mut out: Vec<char> = Vec::new();
    append_str(&mut out, "<?xml version=\"1.0\" encoding=\"UTF-8\"?>\n<ocr_results>\n");
    let mut k: usize = 0;
    while k < results.len()
        invariant
            k <= results@.len(),
            vs.len() == results@.len(),
            out@ == xml_spec(vs.take(k as int)),
        decreases results@.len() - k,
    {
        let o = &results[k];
        proof {
            assert(vs[k as int] == results@[k as int]@);
            assert(polygon_wf(vs[k as int]));
        }
        append_xml_row(&mut out, o);
        proof {
            assert(vs.take(k + 1).drop_last() =~= vs.take(k as int));
            assert(vs.take(k + 1).last() == vs[k as int]);
            assert(out@ =~= xml_spec(vs.take(k as int)) + xml_row(vs[k as int]));
        }
        k += 1;
    }
    proof {
        assert(vs.take(vs.len() as int) =~= vs);
    }
    append_str(&mut out, "</ocr_results>\n");
    Ok(string_from_chars(&out))
}

/// One point line of a Markdown bounding-box list, numbered from one.
pub open spec fn md_point(pt: Seq<i32>, idx: int) -> Seq<char> {
    "- Point "@ + dec_of(idx) + ": ("@ + dec_int_of(pt[0] as int) + ", "@ + dec_int_of(
        pt[1] as int,
    ) + ")\n"@
}

/// The point lines of a Markdown bounding-box list.
pub open spec fn md_points(b: Seq<Seq<i32>>) -> Seq<char>
    decreases b.len(),
{
    if b.len() == 0 {
        Seq::empty()
    } else {
        md_points(b.drop_last()) + md_point(b.last(), b.len() as int)
    }
}

/// The bounding-box block of a Markdown record, when there is a polygon.
pub open spec fn md_bbox(o: OcrOutputV) -> Seq<char> {
    match o.bbox {
        Some(b) => "**Bounding Box:**\n"@ + md_points(b) + "\n"@,
        None => Seq::empty(),
    }
}

/// One Markdown record, numbered from one.
pub open spec fn md_row(o: OcrOutputV, idx: int) -> Seq<char> {
    "## Result "@ + dec_of(idx) + "\n\n"@ + "**File:** `"@ + o.file + "`\n\n"@
        + "**Text:**\n```\n"@ + o.text + "\n```\n\n"@ + "**Confidence:** "@ + percent_text(
        o.confidence_milli as int,
    ) + "%\n\n"@ + md_bbox(o) + "---\n\n"@
}

/// The whole Markdown rendering.
pub open spec fn md_spec(rs: Seq<OcrOutputV>) -> Seq<char>
    decreases rs.len(),
{
    if rs.len() == 0 {
        "# OCR Results\n\n"@
    } else {
        md_spec(rs.drop_last()) + md_row(rs.last(), rs.len() as int)
    }
}

/// Appends the bounding-box block of one Markdown record.
#[verifier::loop_isolation(false)]
#[verifier::rlimit(100)]
fn append_md_bbox(out: &mut Vec<char>, o: &OcrOutput)
    requires
        polygon_wf(o@),
    ensures
        final(out)@ == old(out)@ + md_bbox(o@),
{
    match &o.bbox {
        Some(b) => {
            append_str(out, "**Bounding Box:**\n");
            let ghost pv = point_views(b@);
            let ghost base = out@;
            let mut j: usize = 0;
            while j < b.len()
                invariant
                    j <= b@.len(),
                    pv.len() == b@.len(),
                    out@ == base + md_points(pv.take(j as int)),
                decreases b@.len() - j,
            {
                proof {
                    assert(pv[j as int] == b@[j as int]@);
                    assert(pv.take(j + 1).drop_last() =~= pv.take(j as int));
                    assert(pv.take(j + 1).last() == pv[j as int]);
                }
                append_str(out, "- Point ");
                append_u64_dec(out, (j + 1) as u64);
                append_str(out, ": (");
                append_i32_dec(out, b[j][0]);
                append_str(out, ", ");
                append_i32_dec(out, b[j][1]);
                append_str(out, ")\n");
                proof {
                    assert(out@ =~= base + md_points(pv.take(j + 1)));
                }
                j += 1;
            }
            proof {
                assert(pv.take(pv.len() as int) =~= pv);
            }
            append_str(out, "\n");
            proof {
                assert(out@ =~= old(out)@ + md_bbox(o@));
            }
        },
        None => {
            proof {
                assert(out@ =~= old(out)@ + md_bbox(o@));
            }
        },
    }
}

/// Appends one Markdown record, numbered from one.
#[verifier::loop_isolation(false)]
#[verifier::rlimit(100)]
fn append_md_row(out: &mut Vec<char>, o: &OcrOutput, idx: u64)
    requires
        polygon_wf(o@),
    ensures
        final(out)@ == old(out)@ + md_row(o@, idx as int),
{
    append_str(out, "## Result ");
    append_u64_dec(out, idx);
    append_str(out, "\n\n");
    append_str(out, "**File:** `");
    append_str(out, o.file.as_str());
    append_str(out, "`\n\n");
    append_str(out, "**Text:**\n```\n");
    append_str(out, o.text.as_str());
    append_str(out, "\n```\n\n");
    append_str(out, "**Confidence:** ");
    append_percent(out, o.confidence_milli);
    append_str(out, "%\n\n");
    append_md_bbox(out, o);
    append_str(out, "---\n\n");
    proof {
        assert(out@ =~= old(out)@ + md_row(o@, idx as int));
    }
}

/// Renders the records as Markdown.
#[verifier::loop_isolation(false)]
#[verifier::rlimit(50)]
pub fn format_markdown(results: &Vec<OcrOutput>) -> (r: Result<String, OcrError>)
    requires
        forall|k: int| 0 <= k < results@.len() ==> polygon_wf(#[trigger] results@[k]@),
    ensures
        r matches Ok(s) && s@ == md_spec(output_views(results@)),
{
    let ghost vs = output_views(results@);
    let mut out: Vec<char> = Vec::new();
    append_str(&mut out, "# OCR Results\n\n");
    let mut k: usize = 0;
    while k < results.len()
        invariant
            k <= results@.len(),
            vs.len() == results@.len(),
            out@ == md_spec(vs.take(k as int)),
        decreases results@.len() - k,
    {
        let o = &results[k];
        proof {
            assert(vs[k as int] == results@[k as int]@);
            assert(polygon_wf(vs[k as int]));
        }
        append_md_row(&mut out, o, (k + 1) as u64);
        proof {
            assert(vs.take(k + 1).drop_last() =~= vs.take(k as int));
            assert(vs.take(k + 1).last() == vs[k as int]);
            assert(out@ =~= md_spec(vs.take(k as int)) + md_row(vs[k as int], k + 1));
        }
        k += 1;
    }
    proof {
        assert(vs.take(vs.len() as int) =~= vs);
    }
    Ok(string_from_chars(&out))
}

} // verus!
