//! The metadata scanner: a small state machine over the source lines.
//!
//! Outside the metadata block, lines pass through untouched (an `<h1>`
//! may donate the title on the way); the block's delimiters and every
//! line between them are consumed. Line indices are never renumbered, so
//! provenance survives for diagnostics.

use vstd::prelude::*;

use crate::date::Date;
use crate::diagnostics::{Diagnostic, DiagnosticV};
use crate::record::{empty_meta, opt_str_view, spec_add, Metadata, MetaV};
use crate::strutil::{
    contains, contains_sub, find_char, find_char_spec, find_sub, find_sub_spec, is_blank,
    is_blank_seq, lemma_find_char_props, lemma_find_sub_props, match_at, starts_with_str, sub_at,
    trim_start, trim_start_seq,
};

verus! {

/// One source line, with its 1-based index.
#[derive(Debug)]
pub struct Line {
    pub index: u32,
    pub text: String,
}

/// The mathematical shape of a `Line`.
pub struct LineV {
    pub index: u32,
    pub text: Seq<char>,
}

impl View for Line {
    type V = LineV;

    open spec fn view(&self) -> LineV {
        LineV { index: self.index, text: self.text@ }
    }
}

impl Line {
    pub fn new(index: u32, text: String) -> (r: Line)
        ensures
            r@ == (LineV { index, text: text@ }),
    {
        Line { index, text }
    }

    /// A copy with the same index and text.
    pub fn duplicate(&self) -> (r: Line)
        ensures
            r@ == self@,
    {
        Line { index: self.index, text: self.text.clone() }
    }
}

pub open spec fn lines_view(s: Seq<Line>) -> Seq<LineV> {
    s.map_values(|l: Line| l@)
}

/// Which closing tag ends the metadata block.
#[derive(Clone, Copy, PartialEq, Eq, Structural, Debug)]
pub enum Term {
    Pre,
    Xmp,
}

pub open spec fn end_pat(term: Term) -> Seq<char> {
    match term {
        Term::Pre => "</pre>"@,
        Term::Xmp => "</xmp>"@,
    }
}

/// A line ends the block when the closing tag occurs anywhere in it.
pub open spec fn is_end_tag(s: Seq<char>, term: Term) -> bool {
    contains_sub(s, end_pat(term))
}

fn term_str(term: &Term) -> (r: &'static str)
    ensures
        r@ == end_pat(*term),
{
    match term {
        Term::Pre => "</pre>",
        Term::Xmp => "</xmp>",
    }
}

/// The opening-tag window starting at `i` (just past `<pre ` / `<xmp `)
/// runs to the first `>`, and holds `class=` followed by `metadata`.
pub open spec fn begin_window_ok(s: Seq<char>, i: int) -> bool {
    match find_char_spec(s, '>', i + 5) {
        Some(m) => exists|j: int, k: int|
            i + 5 <= j && #[trigger] sub_at(s, j, "class="@) && j + 6 <= k && #[trigger] sub_at(
                s,
                k,
                "metadata"@,
            ) && k + 8 <= m,
        None => false,
    }
}

/// An opening metadata tag starts at `i`: `<pre ` or `<xmp `, then a run
/// of characters up to the tag's `>` holding `class=` and then
/// `metadata`.
pub open spec fn begin_match_at(s: Seq<char>, i: int) -> bool {
    (sub_at(s, i, "<pre "@) || sub_at(s, i, "<xmp "@)) && begin_window_ok(s, i)
}

/// A line opens the metadata block when an opening tag starts anywhere in
/// it.
pub open spec fn is_begin_tag(s: Seq<char>) -> bool {
    exists|i: int| #[trigger] begin_match_at(s, i)
}

fn begin_window_ok_exec(s: &str, i: usize) -> (r: bool)
    requires
        i + 5 <= s@.len(),
    ensures
        r == begin_window_ok(s@, i as int),
{
    let slen = s.unicode_len();
    proof {
        reveal_strlit("class=");
        reveal_strlit("metadata");
        lemma_find_char_props(s@, '>', i + 5);
    }
    match find_char(s, '>', i + 5) {
        None => false,
        Some(m) => {
            proof {
                lemma_find_sub_props(s@, "class="@, i + 5);
            }
            match find_sub(s, "class=", i + 5) {
                None => false,
                Some(j) => {
                    proof {
                        lemma_find_sub_props(s@, "metadata"@, j + 6);
                    }
                    match find_sub(s, "metadata", j + 6) {
                        None => false,
                        Some(k) => k + 8 <= m,
                    }
                },
            }
        },
    }
}

pub fn is_begin_tag_exec(s: &str) -> (r: bool)
    ensures
        r == is_begin_tag(s@),
{
    let slen = s.unicode_len();
    let mut pos: usize = 0;
    while pos < slen
        invariant
            pos <= slen,
            slen == s@.len(),
            forall|p: int| 0 <= p < pos ==> !begin_match_at(s@, p),
        decreases slen - pos,
    {
        if match_at(s, pos, "<pre ") || match_at(s, pos, "<xmp ") {
            proof {
                reveal_strlit("<pre ");
                reveal_strlit("<xmp ");
            }
            if begin_window_ok_exec(s, pos) {
                assert(begin_match_at(s@, pos as int));
                return true;
            }
        }
        pos += 1;
    }
    assert forall|i: int| !begin_match_at(s@, i) by {
        if i >= s@.len() || i < 0 {
            assert(!sub_at(s@, i, "<pre "@) && !sub_at(s@, i, "<xmp "@)) by {
                reveal_strlit("<pre ");
                reveal_strlit("<xmp ");
            }
        }
    }
    false
}

/// The `<h1>` title: the first `<h1`, its tag closed at the next `>`, and
/// the inner text up to the next `</h1>`.
pub open spec fn title_parse(s: Seq<char>) -> Option<Seq<char>> {
    match find_sub_spec(s, "<h1"@, 0) {
        None => None,
        Some(i) => match find_char_spec(s, '>', i + 3) {
            None => None,
            Some(m) => match find_sub_spec(s, "</h1>"@, m + 1) {
                None => None,
                Some(k) => Some(s.subrange(m + 1, k)),
            },
        },
    }
}

fn title_parse_exec<'a>(s: &'a str) -> (r: Option<&'a str>)
    ensures
        match r {
            Some(cap) => title_parse(s@) == Some(cap@),
            None => title_parse(s@) is None,
        },
{
    let slen = s.unicode_len();
    proof {
        reveal_strlit("<h1");
        lemma_find_sub_props(s@, "<h1"@, 0);
    }
    match find_sub(s, "<h1", 0) {
        None => None,
        Some(i) => {
            proof {
                lemma_find_char_props(s@, '>', i + 3);
            }
            match find_char(s, '>', i + 3) {
                None => None,
                Some(m) => {
                    proof {
                        lemma_find_sub_props(s@, "</h1>"@, m + 1);
                    }
                    match find_sub(s, "</h1>", m + 1) {
                        None => None,
                        Some(k) => Some(s.substring_char(m + 1, k)),
                    }
                },
            }
        },
    }
}

/// A `Key: Value` pair: the first `:` splits the line, and may not stand
/// first; the value loses its leading whitespace.
pub open spec fn pair_split(s: Seq<char>) -> Option<(Seq<char>, Seq<char>)> {
    match find_char_spec(s, ':', 0) {
        Some(j) => if j >= 1 {
            Some((s.take(j), trim_start_seq(s.skip(j + 1))))
        } else {
            None
        },
        None => None,
    }
}

fn pair_split_exec<'a>(s: &'a str) -> (r: Option<(&'a str, &'a str)>)
    ensures
        match r {
            Some(kv) => pair_split(s@) == Some((kv.0@, kv.1@)),
            None => pair_split(s@) is None,
        },
{
    proof {
        lemma_find_char_props(s@, ':', 0);
    }
    match find_char(s, ':', 0) {
        Some(j) => {
            if j >= 1 {
                let key = s.substring_char(0, j);
                let slen = s.unicode_len();
                let rest = s.substring_char(j + 1, slen);
                let val = trim_start(rest);
                proof {
                    assert(s@.subrange(0, j as int) =~= s@.take(j as int));
                    assert(s@.subrange(j + 1, slen as int) =~= s@.skip(j + 1));
                }
                Some((key, val))
            } else {
                None
            }
        },
        None => None,
    }
}

/// The scanner's state: whether it stands inside the block (and which tag
/// ends it), the last metadata key seen, the record built so far, and the
/// lines that survive.
pub struct ScanStV {
    pub inside: Option<Term>,
    pub last: Option<Seq<char>>,
    pub md: MetaV,
    pub out: Seq<LineV>,
}

pub open spec fn init_scan() -> ScanStV {
    ScanStV { inside: None, last: None, md: empty_meta(), out: Seq::empty() }
}

/// One step of the scanner on one line.
pub open spec fn scan_step(st: ScanStV, l: LineV, today: Date) -> Result<ScanStV, DiagnosticV> {
    if st.inside is None && is_begin_tag(l.text) {
        Ok(
            ScanStV {
                inside: Some(
                    if sub_at(l.text, 0, "<pre"@) {
                        Term::Pre
                    } else {
                        Term::Xmp
                    },
                ),
                md: MetaV { has_keys: true, ..st.md },
                ..st
            },
        )
    } else if st.inside matches Some(term) && is_end_tag(l.text, term) {
        Ok(ScanStV { inside: None, ..st })
    } else if st.inside is Some {
        if st.last is Some && is_blank_seq(l.text) {
            match spec_add(st.md, st.last.unwrap(), l.text, Some(l.index), today) {
                Ok(md2) => Ok(ScanStV { md: md2, ..st }),
                Err(e) => Err(e),
            }
        } else {
            match pair_split(l.text) {
                Some(kv) => match spec_add(st.md, kv.0, kv.1, Some(l.index), today) {
                    Ok(md2) => Ok(ScanStV { md: md2, last: Some(kv.0), ..st }),
                    Err(e) => Err(e),
                },
                None => Err(DiagnosticV::MalformedMetadataLine { line: l.index }),
            }
        }
    } else {
        match title_parse(l.text) {
            Some(cap) => if st.md.title is None {
                match spec_add(st.md, "Title"@, cap, Some(l.index), today) {
                    Ok(md2) => Ok(ScanStV { md: md2, out: st.out.push(l), ..st }),
                    Err(e) => Err(e),
                }
            } else {
                Ok(ScanStV { out: st.out.push(l), ..st })
            },
            None => Ok(ScanStV { out: st.out.push(l), ..st }),
        }
    }
}

/// The scanner folded over a line sequence.
pub open spec fn scan_lines(st: ScanStV, lines: Seq<LineV>, today: Date) -> Result<
    ScanStV,
    DiagnosticV,
> {
    scan_lines_rec(st, lines, today)
}

pub open spec fn scan_lines_rec(st: ScanStV, lines: Seq<LineV>, today: Date) -> Result<
    ScanStV,
    DiagnosticV,
>
    decreases lines.len(),
{
    if lines.len() == 0 {
        Ok(st)
    } else {
        match scan_step(st, lines[0], today) {
            Ok(st2) => scan_lines_rec(st2, lines.skip(1), today),
            Err(e) => Err(e),
        }
    }
}

/// The scanner, with the date that `Date: now` resolves to given
/// explicitly.
pub fn parse_metadata_with_today(lines: &Vec<Line>, today: Date) -> (r: Result<
    (Metadata, Vec<Line>),
    Diagnostic,
>)
    requires
        today.wf(),
    ensures
        match scan_lines(init_scan(), lines_view(lines@), today) {
            Ok(st) => r matches Ok(ok) && ok.0@ == st.md && lines_view(ok.1@) == st.out,
            Err(e) => r matches Err(d) && d@ == e,
        },
{
    let mut md = Metadata::new();
    let mut new_lines: Vec<Line> = Vec::new();
    let mut inside: Option<Term> = None;
    let mut last_key: Option<String> = None;
    let ghost all = lines_view(lines@);
    proof {
        assert(lines_view(new_lines@) =~= Seq::<LineV>::empty());
        assert(all.skip(0) =~= all);
    }
    let n = lines.len();
    let mut idx: usize = 0;
    while idx < n
        invariant
            idx <= n,
            n == lines.len(),
            today.wf(),
            all == lines_view(lines@),
            scan_lines_rec(
                ScanStV {
                    inside,
                    last: opt_str_view(last_key),
                    md: md@,
                    out: lines_view(new_lines@),
                },
                all.skip(idx as int),
                today,
            ) == scan_lines_rec(init_scan(), all, today),
        decreases n - idx,
    {
        let ghost st = ScanStV {
            inside,
            last: opt_str_view(last_key),
            md: md@,
            out: lines_view(new_lines@),
        };
        let ghost lv = all[idx as int];
        proof {
            assert(all.skip(idx as int)[0] == lv);
            assert(all.skip(idx as int).skip(1) =~= all.skip(idx + 1));
        }
        let line = &lines[idx];
        let text = line.text.as_str();
        assert(lv == line@);
        let is_inside = inside.is_some();
        if !is_inside && is_begin_tag_exec(text) {
            if starts_with_str(text, "<pre") {
                inside = Some(Term::Pre);
            } else {
                inside = Some(Term::Xmp);
            }
            md.has_keys = true;
            proof {
                assert(scan_step(st, lv, today) == Ok::<ScanStV, DiagnosticV>(
                    ScanStV {
                        inside,
                        last: opt_str_view(last_key),
                        md: md@,
                        out: lines_view(new_lines@),
                    },
                ));
            }
        } else if is_inside {
            let term = match &inside {
                Some(t) => *t,
                None => Term::Pre,
            };
            if contains(text, term_str(&term)) {
                inside = None;
                proof {
                    assert(scan_step(st, lv, today) == Ok::<ScanStV, DiagnosticV>(
                        ScanStV {
                            inside: None,
                            last: opt_str_view(last_key),
                            md: md@,
                            out: lines_view(new_lines@),
                        },
                    ));
                }
            } else {
                let blank = is_blank(text);
                let has_last = last_key.is_some();
                if has_last && blank {
                    let k_owned = match &last_key {
                        Some(k) => k.clone(),
                        None => String::new(),
                    };
                    match md.add_data_with_today(k_owned.as_str(), text, Some(line.index), today) {
                        Ok(_) => {},
                        Err(d) => {
                            return Err(d);
                        },
                    }
                } else {
                    match pair_split_exec(text) {
                        Some((k, v)) => {
                            match md.add_data_with_today(k, v, Some(line.index), today) {
                                Ok(_) => {},
                                Err(d) => {
                                    return Err(d);
                                },
                            }
                            last_key = Some(String::from_str(k));
                        },
                        None => {
                            return Err(Diagnostic::MalformedMetadataLine { line: line.index });
                        },
                    }
                }
            }
        } else {
            match title_parse_exec(text) {
                Some(cap) => {
                    if md.title.is_none() {
                        match md.add_data_with_today("Title", cap, Some(line.index), today) {
                            Ok(_) => {},
                            Err(d) => {
                                return Err(d);
                            },
                        }
                    }
                    new_lines.push(line.duplicate());
                },
                None => {
                    new_lines.push(line.duplicate());
                },
            }
            proof {
                assert(lines_view(new_lines@) =~= st.out.push(lv));
            }
        }
        proof {
            assert(scan_step(st, lv, today) == Ok::<ScanStV, DiagnosticV>(
                ScanStV {
                    inside,
                    last: opt_str_view(last_key),
                    md: md@,
                    out: lines_view(new_lines@),
                },
            ));
        }
        idx += 1;
    }
    proof {
        assert(all.skip(n as int) =~= Seq::<LineV>::empty());
    }
    Ok((md, new_lines))
}

/// The scanner's fold splits at any point of the line sequence.
proof fn lemma_scan_decompose(st: ScanStV, a: Seq<LineV>, b: Seq<LineV>, today: Date)
    ensures
        scan_lines(st, a + b, today) == (match scan_lines(st, a, today) {
            Ok(m) => scan_lines(m, b, today),
            Err(e) => Err(e),
        }),
    decreases a.len(),
{
    if a.len() == 0 {
        assert(a + b =~= b);
    } else {
        assert((a + b)[0] == a[0]);
        assert((a + b).skip(1) =~= a.skip(1) + b);
        match scan_step(st, a[0], today) {
            Ok(st2) => {
                lemma_scan_decompose(st2, a.skip(1), b, today);
            },
            Err(_) => {},
        }
    }
}

/// `a` is a subsequence of `b`: its elements occur in `b`, in order.
pub open spec fn is_subseq_of(a: Seq<LineV>, b: Seq<LineV>) -> bool
    decreases a.len() + b.len(),
{
    if a.len() == 0 {
        true
    } else if b.len() == 0 {
        false
    } else {
        (a[0] == b[0] && is_subseq_of(a.skip(1), b.skip(1))) || is_subseq_of(a, b.skip(1))
    }
}

proof fn lemma_subseq_weaken(a: Seq<LineV>, b: Seq<LineV>)
    requires
        b.len() >= 1,
        is_subseq_of(a, b.skip(1)),
    ensures
        is_subseq_of(a, b),
{
}

proof fn lemma_subseq_cons(a: Seq<LineV>, b: Seq<LineV>)
    requires
        a.len() >= 1,
        b.len() >= 1,
        a[0] == b[0],
        is_subseq_of(a.skip(1), b.skip(1)),
    ensures
        is_subseq_of(a, b),
{
}

/// What one scan pass adds to the surviving lines is a subsequence of
/// the lines it walked.
proof fn lemma_scan_out_subseq(st: ScanStV, lines: Seq<LineV>, today: Date)
    ensures
        scan_lines(st, lines, today) matches Ok(fin) ==> fin.out.len() >= st.out.len()
            && fin.out.take(st.out.len() as int) == st.out && is_subseq_of(
            fin.out.skip(st.out.len() as int),
            lines,
        ),
    decreases lines.len(),
{
    if lines.len() == 0 {
        assert(st.out.take(st.out.len() as int) =~= st.out);
        assert(st.out.skip(st.out.len() as int) =~= Seq::<LineV>::empty());
    } else {
        match scan_step(st, lines[0], today) {
            Ok(st2) => {
                lemma_scan_out_subseq(st2, lines.skip(1), today);
                match scan_lines(st2, lines.skip(1), today) {
                    Ok(fin) => {
                        let extra2 = fin.out.skip(st2.out.len() as int);
                        if st2.out == st.out {
                            lemma_subseq_weaken(extra2, lines);
                            assert(fin.out.take(st.out.len() as int) == st.out);
                        } else {
                            assert(st2.out == st.out.push(lines[0]));
                            let extra = fin.out.skip(st.out.len() as int);
                            assert(fin.out.take(st2.out.len() as int) == st2.out);
                            assert(extra[0] == fin.out[st.out.len() as int]);
                            assert(fin.out[st.out.len() as int] == st2.out[st.out.len() as int]);
                            assert(extra[0] == lines[0]);
                            assert(extra.skip(1) =~= extra2);
                            lemma_subseq_cons(extra, lines);
                            assert(fin.out.take(st.out.len() as int) =~= st.out);
                        }
                    },
                    Err(_) => {},
                }
            },
            Err(_) => {},
        }
    }
}

/// Provenance: every line surviving the scanner is a line of the source,
/// with its original index and text, and the survivors keep the source
/// order — they form a subsequence of the input.
pub proof fn lemma_scanner_provenance(lines: Seq<LineV>, today: Date)
    ensures
        scan_lines(init_scan(), lines, today) matches Ok(fin) ==> is_subseq_of(fin.out, lines),
{
    lemma_scan_out_subseq(init_scan(), lines, today);
    match scan_lines(init_scan(), lines, today) {
        Ok(fin) => {
            assert(fin.out.skip(0) =~= fin.out);
        },
        Err(_) => {},
    }
}

/// The state of the scanner just before it processes line `k`.
pub open spec fn scan_prefix(lines: Seq<LineV>, today: Date, k: int) -> Result<
    ScanStV,
    DiagnosticV,
> {
    scan_lines(init_scan(), lines.take(k), today)
}

/// Line `k` belongs to the metadata block: the scanner stands inside the
/// block when it reaches the line, or the line itself opens the block.
/// The opening and closing tag lines both fall under this.
pub open spec fn line_in_block(lines: Seq<LineV>, today: Date, k: int) -> bool {
    match scan_prefix(lines, today, k) {
        Ok(st) => st.inside is Some || is_begin_tag(lines[k].text),
        Err(_) => false,
    }
}

/// The scanner reaches line `p` outside the block, and the line does not
/// open it: the line survives.
pub open spec fn kept_at(st: ScanStV, lines: Seq<LineV>, today: Date, p: int) -> bool {
    match scan_lines(st, lines.take(p), today) {
        Ok(sp) => sp.inside is None && !is_begin_tag(lines[p].text),
        Err(_) => false,
    }
}

/// The line is one the pass walked, at a position it reached outside
/// the block.
pub open spec fn out_member_ok(st: ScanStV, lines: Seq<LineV>, today: Date, l: LineV) -> bool {
    exists|p: int|
        0 <= p < lines.len() && #[trigger] kept_at(st, lines, today, p) && l == lines[p]
}

/// Every line a scan pass adds to the survivors is one of the lines it
/// walked, taken at a position it reached outside the block.
#[verifier::rlimit(50)]
proof fn lemma_scan_out_members(st: ScanStV, lines: Seq<LineV>, today: Date)
    ensures
        scan_lines(st, lines, today) matches Ok(fin) ==> forall|m: int|
            st.out.len() <= m < fin.out.len() ==> #[trigger] out_member_ok(
                st,
                lines,
                today,
                fin.out[m],
            ),
    decreases lines.len(),
{
    if lines.len() > 0 {
        match scan_step(st, lines[0], today) {
            Ok(st2) => {
                lemma_scan_out_subseq(st2, lines.skip(1), today);
                lemma_scan_out_members(st2, lines.skip(1), today);
                match scan_lines(st2, lines.skip(1), today) {
                    Err(_) => {},
                    Ok(fin) => {
                        assert(scan_lines(st, seq![lines[0]], today) == Ok::<
                            ScanStV,
                            DiagnosticV,
                        >(st2)) by {
                            assert(seq![lines[0]].skip(1) =~= Seq::<LineV>::empty());
                            assert(seq![lines[0]][0] == lines[0]);
                            assert(scan_lines_rec(st2, seq![lines[0]].skip(1), today) == Ok::<
                                ScanStV,
                                DiagnosticV,
                            >(st2));
                        }
                        assert forall|m: int| st.out.len() <= m < fin.out.len() implies #[trigger] out_member_ok(
                            st,
                            lines,
                            today,
                            fin.out[m],
                        ) by {
                            if m < st2.out.len() {
                                // the step itself pushed this line
                                assert(st2.out == st.out.push(lines[0]));
                                assert(st.inside is None && !is_begin_tag(lines[0].text));
                                assert(lines.take(0) =~= Seq::<LineV>::empty());
                                assert(kept_at(st, lines, today, 0));
                                assert(fin.out.take(st2.out.len() as int) == st2.out);
                                assert(fin.out[m] == st2.out[m]);
                                assert(fin.out[m] == lines[0]);
                            } else {
                                assert(out_member_ok(st2, lines.skip(1), today, fin.out[m]));
                                let p2 = choose|p2: int|
                                    0 <= p2 < lines.skip(1).len() && #[trigger] kept_at(
                                        st2,
                                        lines.skip(1),
                                        today,
                                        p2,
                                    ) && fin.out[m] == lines.skip(1)[p2];
                                let p = p2 + 1;
                                lemma_scan_decompose(
                                    st,
                                    seq![lines[0]],
                                    lines.skip(1).take(p2),
                                    today,
                                );
                                assert(seq![lines[0]] + lines.skip(1).take(p2) =~= lines.take(p));
                                assert(lines.skip(1)[p2] == lines[p]);
                                assert(kept_at(st, lines, today, p));
                            }
                        }
                    },
                }
            },
            Err(_) => {},
        }
    }
}

/// Metadata-block opacity: no line of the block — the opening and
/// closing tags included — reaches the body that goes on to macro
/// expansion. Stated for sources whose line indices are distinct, as the
/// reader yields them.
pub proof fn lemma_block_opacity(lines: Seq<LineV>, today: Date, k: int)
    requires
        scan_lines(init_scan(), lines, today) is Ok,
        0 <= k < lines.len(),
        line_in_block(lines, today, k),
        forall|i: int, j: int| 0 <= i < j < lines.len() ==> lines[i].index != lines[j].index,
    ensures
        forall|m: int|
            #![trigger scan_lines(init_scan(), lines, today)->Ok_0.out[m]]
            0 <= m < scan_lines(init_scan(), lines, today)->Ok_0.out.len() ==> scan_lines(
                init_scan(),
                lines,
                today,
            )->Ok_0.out[m].index != lines[k].index,
{
    lemma_scan_out_members(init_scan(), lines, today);
    let fin = scan_lines(init_scan(), lines, today)->Ok_0;
    assert forall|m: int| 0 <= m < fin.out.len() implies fin.out[m].index != lines[k].index by {
        assert(out_member_ok(init_scan(), lines, today, fin.out[m]));
        let p = choose|p: int|
            0 <= p < lines.len() && #[trigger] kept_at(init_scan(), lines, today, p) && fin.out[m]
                == lines[p];
        if fin.out[m].index == lines[k].index {
            if p < k {
                assert(lines[p].index != lines[k].index);
            } else if k < p {
                assert(lines[k].index != lines[p].index);
            } else {
                assert(kept_at(init_scan(), lines, today, k));
                assert(false);
            }
        }
    }
}

/// No `Key: Value` line anywhere normalizes to the `Title` key.
pub open spec fn no_title_pairs(lines: Seq<LineV>) -> bool {
    forall|p: int|
        0 <= p < lines.len() ==> match #[trigger] pair_split(lines[p].text) {
            Some(kv) => crate::record::normalize_key(kv.0) != "Title"@,
            None => true,
        }
}

/// The remembered continuation key does not normalize to `Title`.
pub open spec fn last_ok(st: ScanStV) -> bool {
    st.last matches Some(k) ==> crate::record::normalize_key(k) != "Title"@
}

/// Once the title is set, a scan over title-free pairs and `<h1>`-free
/// lines keeps it.
proof fn lemma_scan_title_stable(st: ScanStV, lines: Seq<LineV>, today: Date, v: Seq<char>)
    requires
        st.md.title == Some(v),
        st.md.has_keys,
        last_ok(st),
        no_title_pairs(lines),
    ensures
        scan_lines(st, lines, today) matches Ok(fin) ==> fin.md.title == Some(v)
            && fin.md.has_keys,
    decreases lines.len(),
{
    if lines.len() > 0 {
        let l = lines[0];
        match scan_step(st, l, today) {
            Ok(st2) => {
                assert(st2.md.title == Some(v) && st2.md.has_keys && last_ok(st2)) by {
                    if st.inside is Some && !(st.inside matches Some(term) && is_end_tag(
                        l.text,
                        term,
                    )) {
                        if st.last is Some && is_blank_seq(l.text) {
                            crate::record::lemma_add_preserves_title(
                                st.md,
                                st.last.unwrap(),
                                l.text,
                                Some(l.index),
                                today,
                            );
                        } else {
                            match pair_split(l.text) {
                                Some(kv) => {
                                    crate::record::lemma_add_preserves_title(
                                        st.md,
                                        kv.0,
                                        kv.1,
                                        Some(l.index),
                                        today,
                                    );
                                },
                                None => {},
                            }
                        }
                    }
                }
                lemma_scan_title_stable(st2, lines.skip(1), today, v);
            },
            Err(_) => {},
        }
    }
}

/// Up to the single `<h1>` line, nothing can set the title; at it, the
/// title becomes the captured inner text; after it, it stays.
proof fn lemma_scan_title_sets(st: ScanStV, lines: Seq<LineV>, today: Date, k: int)
    requires
        st.md.title is None,
        last_ok(st),
        no_title_pairs(lines),
        0 <= k < lines.len(),
        title_parse(lines[k].text) is Some,
        forall|p: int|
            0 <= p < lines.len() && p != k ==> #[trigger] title_parse(lines[p].text) is None,
        kept_at(st, lines, today, k),
    ensures
        scan_lines(st, lines, today) matches Ok(fin) ==> fin.md.title == Some(
            title_parse(lines[k].text).unwrap(),
        ) && fin.md.has_keys,
    decreases lines.len(),
{
    let l = lines[0];
    if k == 0 {
        assert(lines.take(0) =~= Seq::<LineV>::empty());
        assert(st.inside is None && !is_begin_tag(l.text));
        let cap = title_parse(l.text).unwrap();
        crate::record::lemma_add_title(st.md, cap, Some(l.index), today);
        match scan_step(st, l, today) {
            Ok(st2) => {
                assert(st2.md.title == Some(cap) && st2.md.has_keys && last_ok(st2));
                lemma_scan_title_stable(st2, lines.skip(1), today, cap);
                assert forall|p: int| 0 <= p < lines.skip(1).len() implies match #[trigger] pair_split(
                    lines.skip(1)[p].text,
                ) {
                    Some(kv) => crate::record::normalize_key(kv.0) != "Title"@,
                    None => true,
                } by {
                    assert(lines.skip(1)[p] == lines[p + 1]);
                    assert(match pair_split(lines[p + 1].text) {
                        Some(kv) => crate::record::normalize_key(kv.0) != "Title"@,
                        None => true,
                    });
                }
            },
            Err(_) => {},
        }
    } else {
        match scan_step(st, l, today) {
            Ok(st2) => {
                assert(st2.md.title is None && last_ok(st2)) by {
                    if st.inside is None && is_begin_tag(l.text) {
                    } else if st.inside matches Some(term) && is_end_tag(l.text, term) {
                    } else if st.inside is Some {
                        if st.last is Some && is_blank_seq(l.text) {
                            crate::record::lemma_add_preserves_title(
                                st.md,
                                st.last.unwrap(),
                                l.text,
                                Some(l.index),
                                today,
                            );
                        } else {
                            match pair_split(l.text) {
                                Some(kv) => {
                                    crate::record::lemma_add_preserves_title(
                                        st.md,
                                        kv.0,
                                        kv.1,
                                        Some(l.index),
                                        today,
                                    );
                                },
                                None => {},
                            }
                        }
                    } else {
                        assert(title_parse(l.text) is None);
                    }
                }
                assert(kept_at(st2, lines.skip(1), today, k - 1)) by {
                    lemma_scan_decompose(st, seq![l], lines.skip(1).take(k - 1), today);
                    assert(seq![l] + lines.skip(1).take(k - 1) =~= lines.take(k));
                    assert(scan_lines(st, seq![l], today) == Ok::<ScanStV, DiagnosticV>(st2)) by {
                        assert(seq![l].skip(1) =~= Seq::<LineV>::empty());
                        assert(seq![l][0] == l);
                        assert(scan_lines_rec(st2, seq![l].skip(1), today) == Ok::<
                            ScanStV,
                            DiagnosticV,
                        >(st2));
                    }
                    assert(lines.skip(1)[k - 1] == lines[k]);
                }
                assert forall|p: int| 0 <= p < lines.skip(1).len() implies match #[trigger] pair_split(
                    lines.skip(1)[p].text,
                ) {
                    Some(kv) => crate::record::normalize_key(kv.0) != "Title"@,
                    None => true,
                } by {
                    assert(lines.skip(1)[p] == lines[p + 1]);
                    assert(match pair_split(lines[p + 1].text) {
                        Some(kv) => crate::record::normalize_key(kv.0) != "Title"@,
                        None => true,
                    });
                }
                assert forall|p: int|
                    0 <= p < lines.skip(1).len() && p != k - 1 implies #[trigger] title_parse(
                    lines.skip(1)[p].text,
                ) is None by {
                    assert(lines.skip(1)[p] == lines[p + 1]);
                }
                assert(lines.skip(1)[k - 1] == lines[k]);
                lemma_scan_title_sets(st2, lines.skip(1), today, k - 1);
            },
            Err(_) => {},
        }
    }
}

/// Title idempotence at the scanner: when the source holds exactly one
/// complete `<h1>` element, reached outside the metadata block, and no
/// `Key: Value` line normalizes to `Title`, the scanned record's title is
/// the `<h1>` inner text.
pub proof fn lemma_title_from_h1(lines: Seq<LineV>, today: Date, k: int)
    requires
        scan_lines(init_scan(), lines, today) is Ok,
        0 <= k < lines.len(),
        title_parse(lines[k].text) is Some,
        forall|p: int|
            0 <= p < lines.len() && p != k ==> #[trigger] title_parse(lines[p].text) is None,
        no_title_pairs(lines),
        !line_in_block(lines, today, k),
    ensures
        scan_lines(init_scan(), lines, today)->Ok_0.md.title == Some(
            title_parse(lines[k].text).unwrap(),
        ),
        scan_lines(init_scan(), lines, today)->Ok_0.md.has_keys,
{
    assert(kept_at(init_scan(), lines, today, k)) by {
        lemma_scan_decompose(init_scan(), lines.take(k), lines.skip(k), today);
        assert(lines.take(k) + lines.skip(k) =~= lines);
    }
    lemma_scan_title_sets(init_scan(), lines, today, k);
}

/// Title idempotence through the merge: with the scanner's conditions,
/// and no title on the baseline or command-line record, the merged
/// record's title is the `<h1>` inner text.
pub proof fn lemma_title_idempotence(
    lines: Seq<LineV>,
    today: Date,
    k: int,
    b: MetaV,
    c: MetaV,
)
    requires
        scan_lines(init_scan(), lines, today) is Ok,
        0 <= k < lines.len(),
        title_parse(lines[k].text) is Some,
        forall|p: int|
            0 <= p < lines.len() && p != k ==> #[trigger] title_parse(lines[p].text) is None,
        no_title_pairs(lines),
        !line_in_block(lines, today, k),
        b.title is None,
        c.title is None,
    ensures
        crate::manager::spec_merge(b, scan_lines(init_scan(), lines, today)->Ok_0.md, c).title
            == Some(title_parse(lines[k].text).unwrap()),
{
    lemma_title_from_h1(lines, today, k);
}

/// The scanner only ever stores a real calendar date in the record.
pub proof fn lemma_scan_date_wf(st: ScanStV, lines: Seq<LineV>, today: Date)
    requires
        today.wf(),
        crate::record::date_wf(st.md),
    ensures
        scan_lines(st, lines, today) matches Ok(st2) ==> crate::record::date_wf(st2.md),
    decreases lines.len(),
{
    if lines.len() > 0 {
        match scan_step(st, lines[0], today) {
            Ok(st2) => {
                assert(crate::record::date_wf(st2.md)) by {
                    if st.inside is None && is_begin_tag(lines[0].text) {
                    } else if st.inside matches Some(term) && is_end_tag(lines[0].text, term) {
                    } else if st.inside is Some {
                        if st.last is Some && is_blank_seq(lines[0].text) {
                            crate::record::lemma_add_date_wf(
                                st.md,
                                st.last.unwrap(),
                                lines[0].text,
                                Some(lines[0].index),
                                today,
                            );
                        } else {
                            match pair_split(lines[0].text) {
                                Some(kv) => {
                                    crate::record::lemma_add_date_wf(
                                        st.md,
                                        kv.0,
                                        kv.1,
                                        Some(lines[0].index),
                                        today,
                                    );
                                },
                                None => {},
                            }
                        }
                    } else {
                        match title_parse(lines[0].text) {
                            Some(cap) => {
                                crate::record::lemma_add_date_wf(
                                    st.md,
                                    "Title"@,
                                    cap,
                                    Some(lines[0].index),
                                    today,
                                );
                            },
                            None => {},
                        }
                    }
                }
                lemma_scan_date_wf(st2, lines.skip(1), today);
            },
            Err(_) => {},
        }
    }
}

/// The scanner; `Date: now` inside the block resolves against the clock.
pub fn parse_metadata(lines: &Vec<Line>) -> (r: Result<(Metadata, Vec<Line>), Diagnostic>)
    ensures
        exists|t: Date|
            #[trigger] t.wf() && match scan_lines(init_scan(), lines_view(lines@), t) {
                Ok(st) => r matches Ok(ok) && ok.0@ == st.md && lines_view(ok.1@) == st.out,
                Err(e) => r matches Err(d) && d@ == e,
            },
{
    let today = Date::today();
    let r = parse_metadata_with_today(lines, today);
    proof {
        assert(today.wf());
    }
    r
}

} // verus!
