use vstd::prelude::*;

use crate::errors::Error;
use crate::timecode::{
    is_number_byte, parseable_number, parse_timestamp, Timestamp,
};

verus! {

/// One detected marker segment, in seconds: where it starts, where it ends,
/// and how long it lasts, exactly as the detection tool printed them.
#[derive(Debug)]
pub struct MarkerInterval {
    pub start: Timestamp,
    pub end: Timestamp,
    pub duration: Timestamp,
}

impl MarkerInterval {
    pub open spec fn wf(self) -> bool {
        self.start.wf() && self.end.wf() && self.duration.wf()
    }
}

/// The label introducing the first numeric field of a detection line.
pub open spec fn start_label() -> Seq<u8> {
    seq![98u8, 108u8, 97u8, 99u8, 107u8, 95u8, 115u8, 116u8, 97u8, 114u8, 116u8, 58u8]
}

/// The label introducing the second numeric field.
pub open spec fn end_label() -> Seq<u8> {
    seq![98u8, 108u8, 97u8, 99u8, 107u8, 95u8, 101u8, 110u8, 100u8, 58u8]
}

/// The label introducing the third numeric field.
pub open spec fn duration_label() -> Seq<u8> {
    seq![98u8, 108u8, 97u8, 99u8, 107u8, 95u8, 100u8, 117u8, 114u8, 97u8, 116u8, 105u8, 111u8, 110u8, 58u8]
}

/// Whitespace as it may separate the fields of a diagnostic line.
pub open spec fn is_space_byte(b: u8) -> bool {
    b == 32 || b == 9 || b == 10 || b == 11 || b == 12 || b == 13
}

/// `lit` occurs in `s` starting at position `p`.
pub open spec fn lit_at(s: Seq<u8>, p: int, lit: Seq<u8>) -> bool {
    &&& 0 <= p
    &&& p + lit.len() <= s.len()
    &&& s.subrange(p, p + lit.len() as int) == lit
}

/// End (exclusive) of the run of number bytes starting at `i`.
pub open spec fn num_run_end(s: Seq<u8>, i: int) -> int
    decreases s.len() - i when 0 <= i <= s.len()
{
    if i == s.len() {
        i
    } else if is_number_byte(s[i]) {
        num_run_end(s, i + 1)
    } else {
        i
    }
}

/// End (exclusive) of the run of whitespace bytes starting at `i`.
pub open spec fn space_run_end(s: Seq<u8>, i: int) -> int
    decreases s.len() - i when 0 <= i <= s.len()
{
    if i == s.len() {
        i
    } else if is_space_byte(s[i]) {
        space_run_end(s, i + 1)
    } else {
        i
    }
}

proof fn lemma_num_run_range(s: Seq<u8>, i: int)
    requires
        0 <= i <= s.len(),
    ensures
        i <= num_run_end(s, i) <= s.len(),
    decreases s.len() - i,
{
    if i < s.len() && is_number_byte(s[i]) {
        lemma_num_run_range(s, i + 1);
    }
}

proof fn lemma_space_run_range(s: Seq<u8>, i: int)
    requires
        0 <= i <= s.len(),
    ensures
        i <= space_run_end(s, i) <= s.len(),
    decreases s.len() - i,
{
    if i < s.len() && is_space_byte(s[i]) {
        lemma_space_run_range(s, i + 1);
    }
}

/// The three numeric field texts of a detection report read from position
/// `p`: the start label, a run of number bytes, whitespace, the end label,
/// a run, whitespace, the duration label and a final run. `None` when the
/// text at `p` is not of that shape.
pub open spec fn fields_at(s: Seq<u8>, p: int) -> Option<(Seq<u8>, Seq<u8>, Seq<u8>)>
    recommends
        0 <= p <= s.len(),
{
    if !lit_at(s, p, start_label()) {
        None
    } else {
        let a0 = p + start_label().len() as int;
        let a1 = num_run_end(s, a0);
        if a1 == a0 {
            None
        } else {
            let w1 = space_run_end(s, a1);
            if w1 == a1 || !lit_at(s, w1, end_label()) {
                None
            } else {
                let b0 = w1 + end_label().len() as int;
                let b1 = num_run_end(s, b0);
                if b1 == b0 {
                    None
                } else {
                    let w2 = space_run_end(s, b1);
                    if w2 == b1 || !lit_at(s, w2, duration_label()) {
                        None
                    } else {
                        let c0 = w2 + duration_label().len() as int;
                        let c1 = num_run_end(s, c0);
                        if c1 == c0 {
                            None
                        } else {
                            Some(
                                (
                                    s.subrange(a0, a1),
                                    s.subrange(b0, b1),
                                    s.subrange(c0, c1),
                                ),
                            )
                        }
                    }
                }
            }
        }
    }
}

/// The first position in `s`, at or after `from`, where the detection
/// pattern matches.
pub open spec fn match_pos(s: Seq<u8>, from: int) -> Option<int>
    decreases s.len() - from when 0 <= from <= s.len()
{
    if from == s.len() {
        None
    } else if fields_at(s, from) is Some {
        Some(from)
    } else {
        match_pos(s, from + 1)
    }
}

/// The field texts of the leftmost detection report in the line, if any.
pub open spec fn line_fields(s: Seq<u8>) -> Option<(Seq<u8>, Seq<u8>, Seq<u8>)> {
    match match_pos(s, 0) {
        Some(p) => fields_at(s, p),
        None => None,
    }
}

/// The line carries a detection report.
pub open spec fn line_is_marker(s: Seq<u8>) -> bool {
    line_fields(s) is Some
}

/// Either the line carries no report, or all three of its numeric fields
/// parse.
pub open spec fn line_ok(s: Seq<u8>) -> bool {
    match line_fields(s) {
        Some(f) => parseable_number(f.0) && parseable_number(f.1) && parseable_number(f.2),
        None => true,
    }
}

/// `iv` holds exactly the three numbers the line's detection report spells
/// out.
pub open spec fn interval_matches_line(iv: MarkerInterval, s: Seq<u8>) -> bool {
    match line_fields(s) {
        Some(f) => {
            &&& iv.start.matches_text(f.0)
            &&& iv.end.matches_text(f.1)
            &&& iv.duration.matches_text(f.2)
        },
        None => false,
    }
}

/// `lit` occurs in `s` at position `p` (executable form of [`lit_at`]).
fn has_bytes_at(s: &Vec<u8>, p: usize, lit: &Vec<u8>) -> (r: bool)
    requires
        p <= s@.len(),
    ensures
        r == lit_at(s@, p as int, lit@),
{
    let n = s.len();
    let m = lit.len();
    if n - p < m {
        return false;
    }
    let mut j: usize = 0;
    while j < m
        invariant
            0 <= j <= m,
            m == lit@.len(),
            n == s@.len(),
            p + m <= n,
            forall|k: int| 0 <= k < j ==> s@[p + k] == lit@[k],
        decreases lit@.len() - j,
    {
        if s[p + j] != lit[j] {
            proof {
                if lit_at(s@, p as int, lit@) {
                    assert(s@.subrange(p as int, p + lit@.len() as int)[j as int] == s@[p + j]);
                }
            }
            return false;
        }
        j = j + 1;
    }
    proof {
        assert(s@.subrange(p as int, p + lit@.len() as int) =~= lit@);
    }
    true
}

/// Scans the run of number bytes starting at `from`.
fn scan_num_run(s: &Vec<u8>, from: usize) -> (r: usize)
    requires
        from <= s@.len(),
    ensures
        r == num_run_end(s@, from as int),
        from <= r <= s@.len(),
{
    proof {
        lemma_num_run_range(s@, from as int);
    }
    let mut i: usize = from;
    loop
        invariant
            from <= i <= s@.len(),
            num_run_end(s@, from as int) == num_run_end(s@, i as int),
        decreases s@.len() - i,
    {
        if i == s.len() {
            return i;
        }
        let b = s[i];
        if !(48 <= b && b <= 57 || b == 46) {
            proof {
                assert(!is_number_byte(s@[i as int]));
            }
            return i;
        }
        i = i + 1;
    }
}

/// Scans the run of whitespace bytes starting at `from`.
fn scan_space_run(s: &Vec<u8>, from: usize) -> (r: usize)
    requires
        from <= s@.len(),
    ensures
        r == space_run_end(s@, from as int),
        from <= r <= s@.len(),
{
    proof {
        lemma_space_run_range(s@, from as int);
    }
    let mut i: usize = from;
    loop
        invariant
            from <= i <= s@.len(),
            space_run_end(s@, from as int) == space_run_end(s@, i as int),
        decreases s@.len() - i,
    {
        if i == s.len() {
            return i;
        }
        let b = s[i];
        if !(b == 32 || b == 9 || b == 10 || b == 11 || b == 12 || b == 13) {
            proof {
                assert(!is_space_byte(s@[i as int]));
            }
            return i;
        }
        i = i + 1;
    }
}

/// Tries to read the detection pattern at position `p` of the line,
/// returning the three field texts.
fn try_fields_at(s: &Vec<u8>, p: usize) -> (r: Option<(Vec<u8>, Vec<u8>, Vec<u8>)>)
    requires
        p <= s@.len(),
    ensures
        match r {
            Some(f) => fields_at(s@, p as int) == Some((f.0@, f.1@, f.2@)),
            None => fields_at(s@, p as int) is None,
        },
{
    let label_start: Vec<u8> = vec![
        98u8, 108u8, 97u8, 99u8, 107u8, 95u8, 115u8, 116u8, 97u8, 114u8, 116u8, 58u8,
    ];
    let label_end: Vec<u8> = vec![98u8, 108u8, 97u8, 99u8, 107u8, 95u8, 101u8, 110u8, 100u8, 58u8];
    let label_duration: Vec<u8> = vec![
        98u8, 108u8, 97u8, 99u8, 107u8, 95u8, 100u8, 117u8, 114u8, 97u8, 116u8, 105u8, 111u8, 110u8, 58u8,
    ];
    proof {
        assert(label_start@ =~= start_label());
        assert(label_end@ =~= end_label());
        assert(label_duration@ =~= duration_label());
    }
    if !has_bytes_at(s, p, &label_start) {
        return None;
    }
    let n = s.len();
    proof {
        assert(p + label_start@.len() <= n);
    }
    let a0 = p + label_start.len();
    let a1 = scan_num_run(s, a0);
    if a1 == a0 {
        return None;
    }
    let w1 = scan_space_run(s, a1);
    if w1 == a1 || !has_bytes_at(s, w1, &label_end) {
        return None;
    }
    proof {
        assert(w1 + label_end@.len() <= n);
    }
    let b0 = w1 + label_end.len();
    let b1 = scan_num_run(s, b0);
    if b1 == b0 {
        return None;
    }
    let w2 = scan_space_run(s, b1);
    if w2 == b1 || !has_bytes_at(s, w2, &label_duration) {
        return None;
    }
    proof {
        assert(w2 + label_duration@.len() <= n);
    }
    let c0 = w2 + label_duration.len();
    let c1 = scan_num_run(s, c0);
    if c1 == c0 {
        return None;
    }
    let fa = crate::timecode::copy_range(s, a0, a1);
    let fb = crate::timecode::copy_range(s, b0, b1);
    let fc = crate::timecode::copy_range(s, c0, c1);
    Some((fa, fb, fc))
}

/// The field texts of the leftmost detection report in the line
/// (executable form of [`line_fields`]).
fn find_marker_fields(line: &Vec<u8>) -> (r: Option<(Vec<u8>, Vec<u8>, Vec<u8>)>)
    ensures
        match r {
            Some(f) => line_fields(line@) == Some((f.0@, f.1@, f.2@)),
            None => line_fields(line@) is None,
        },
{
    let mut p: usize = 0;
    loop
        invariant
            0 <= p <= line@.len(),
            match_pos(line@, 0) == match_pos(line@, p as int),
        decreases line@.len() - p,
    {
        if p == line.len() {
            return None;
        }
        let f = try_fields_at(line, p);
        if f.is_some() {
            proof {
                assert(match_pos(line@, p as int) == Some(p as int));
            }
            return f;
        }
        p = p + 1;
    }
}

/// Reads one line of the detection tool's diagnostic output.
///
/// Ordinary chatter (`Ok(None)`) is told apart from a detection report with
/// all three numeric fields intact (`Ok(Some(..))`) and from a report whose
/// numbers cannot be read, which is a hard failure rather than a skip.
pub fn parse_marker_line(line: &Vec<u8>) -> (r: Result<Option<MarkerInterval>, Error>)
    ensures
        match r {
            Ok(Some(iv)) => line_is_marker(line@) && line_ok(line@) && interval_matches_line(
                iv,
                line@,
            ) && iv.wf(),
            Ok(None) => !line_is_marker(line@),
            Err(e) => e == Error::MalformedMarkerLine && line_is_marker(line@) && !line_ok(line@),
        },
{
    match find_marker_fields(line) {
        None => Ok(None),
        Some((fa, fb, fc)) => {
            let start = parse_timestamp(&fa);
            let end = parse_timestamp(&fb);
            let duration = parse_timestamp(&fc);
            match (start, end, duration) {
                (Some(start), Some(end), Some(duration)) => Ok(
                    Some(MarkerInterval { start, end, duration }),
                ),
                _ => Err(Error::MalformedMarkerLine),
            }
        },
    }
}

/// The view of a list of byte lines as a sequence of byte sequences.
pub open spec fn lines_view(lines: Seq<Vec<u8>>) -> Seq<Seq<u8>> {
    lines.map_values(|l: Vec<u8>| l@)
}

/// Every detection report among the lines has readable numbers.
pub open spec fn all_lines_ok(lines: Seq<Seq<u8>>) -> bool {
    forall|i: int| 0 <= i < lines.len() ==> line_ok(lines[i])
}

/// `ivs` holds exactly one interval per detection report among `lines`, in
/// line order, each spelling out its line's three numbers.
pub open spec fn intervals_match_lines(ivs: Seq<MarkerInterval>, lines: Seq<Seq<u8>>) -> bool
    decreases lines.len(),
{
    if lines.len() == 0 {
        ivs.len() == 0
    } else if line_is_marker(lines.last()) {
        &&& ivs.len() > 0
        &&& interval_matches_line(ivs.last(), lines.last())
        &&& intervals_match_lines(ivs.drop_last(), lines.drop_last())
    } else {
        intervals_match_lines(ivs, lines.drop_last())
    }
}

/// Two intervals carrying the same three numbers.
pub open spec fn same_interval(a: MarkerInterval, b: MarkerInterval) -> bool {
    &&& a.start.whole == b.start.whole
    &&& a.start.frac@ == b.start.frac@
    &&& a.end.whole == b.end.whole
    &&& a.end.frac@ == b.end.frac@
    &&& a.duration.whole == b.duration.whole
    &&& a.duration.frac@ == b.duration.frac@
}

/// Parsing is a pure function of the diagnostic text, idempotent and
/// order-preserving: any two interval lists that match the same lines agree
/// element by element, so parsing the same text again can only reproduce the
/// same intervals in the same order.
pub proof fn lemma_parse_deterministic(
    a: Seq<MarkerInterval>,
    b: Seq<MarkerInterval>,
    lines: Seq<Seq<u8>>,
)
    requires
        intervals_match_lines(a, lines),
        intervals_match_lines(b, lines),
    ensures
        a.len() == b.len(),
        forall|k: int| 0 <= k < a.len() ==> same_interval(a[k], b[k]),
    decreases lines.len(),
{
    if lines.len() == 0 {
    } else if line_is_marker(lines.last()) {
        lemma_parse_deterministic(a.drop_last(), b.drop_last(), lines.drop_last());
        assert(same_interval(a.last(), b.last()));
        assert forall|k: int| 0 <= k < a.len() implies same_interval(a[k], b[k]) by {
            if k < a.len() - 1 {
                assert(a.drop_last()[k] == a[k]);
                assert(b.drop_last()[k] == b[k]);
            }
        }
    } else {
        lemma_parse_deterministic(a, b, lines.drop_last());
    }
}

/// Parses the detection tool's whole diagnostic output into the ordered list
/// of marker intervals, ignoring chatter and failing on a report whose
/// numbers cannot be read.
pub fn parse_detect_output(lines: &Vec<Vec<u8>>) -> (r: Result<Vec<MarkerInterval>, Error>)
    ensures
        match r {
            Ok(ivs) => {
                &&& all_lines_ok(lines_view(lines@))
                &&& intervals_match_lines(ivs@, lines_view(lines@))
                &&& forall|k: int| 0 <= k < ivs@.len() ==> ivs@[k].wf()
            },
            Err(e) => e == Error::MalformedMarkerLine && !all_lines_ok(lines_view(lines@)),
        },
{
    let ghost lv = lines_view(lines@);
    let mut out: Vec<MarkerInterval> = Vec::new();
    let mut i: usize = 0;
    while i < lines.len()
        invariant
            0 <= i <= lines@.len(),
            lv == lines_view(lines@),
            lv.len() == lines@.len(),
            intervals_match_lines(out@, lv.take(i as int)),
            forall|j: int| 0 <= j < i ==> line_ok(lv[j]),
            forall|k: int| 0 <= k < out@.len() ==> out@[k].wf(),
        decreases lines@.len() - i,
    {
        let line = &lines[i];
        proof {
            assert(lv[i as int] == line@);
        }
        match parse_marker_line(line) {
            Err(e) => {
                proof {
                    assert(!line_ok(lv[i as int]));
                }
                return Err(e);
            },
            Ok(None) => {
                proof {
                    assert(lv.take(i + 1).drop_last() =~= lv.take(i as int));
                    assert(lv.take(i + 1).last() == lv[i as int]);
                }
            },
            Ok(Some(iv)) => {
                let ghost prev = out@;
                out.push(iv);
                proof {
                    assert(lv.take(i + 1).drop_last() =~= lv.take(i as int));
                    assert(lv.take(i + 1).last() == lv[i as int]);
                    assert(out@.drop_last() =~= prev);
                    assert(out@.last() == iv);
                }
            },
        }
        i = i + 1;
    }
    proof {
        assert(lv.take(lines@.len() as int) =~= lv);
    }
    Ok(out)
}

} // verus!
