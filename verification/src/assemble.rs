//! The document assembler: scan, merge, fill macros, join the surviving
//! lines, splice boilerplate, expand macros — and the output-name rule.

use vstd::prelude::*;

use crate::boilerplate::{add_header_footer, spec_splice};
use crate::date::Date;
use crate::diagnostics::{Diagnostic, DiagnosticV};
use crate::macros::{empty_table, spec_expand, spec_fill, MacroTable, TableV};
use crate::manager::{spec_merge, MetadataManager};
use crate::record::{date_wf, Metadata, MetaV};
use crate::scanner::{init_scan, lines_view, scan_lines, Line, LineV};
use crate::strutil::{ends_with_seq, ends_with_str, push_char};

verus! {

/// The texts of the lines, joined with a newline between each pair.
pub open spec fn spec_join_lines(ls: Seq<LineV>) -> Seq<char>
    decreases ls.len(),
{
    if ls.len() == 0 {
        Seq::empty()
    } else if ls.len() == 1 {
        ls[0].text
    } else {
        ls[0].text + seq!['\n'] + spec_join_lines(ls.skip(1))
    }
}

/// Joining distributes over splitting the lines anywhere in the middle.
proof fn lemma_join_lines_split(a: Seq<LineV>, b: Seq<LineV>)
    requires
        a.len() >= 1,
        b.len() >= 1,
    ensures
        spec_join_lines(a + b) == spec_join_lines(a) + seq!['\n'] + spec_join_lines(b),
    decreases a.len(),
{
    if a.len() == 1 {
        assert((a + b).len() == 1 + b.len());
        assert((a + b)[0] == a[0]);
        assert((a + b).skip(1) =~= b);
        if b.len() >= 1 {
            assert(spec_join_lines(a + b) == a[0].text + seq!['\n'] + spec_join_lines(b));
        }
        assert(spec_join_lines(a) == a[0].text);
    } else {
        lemma_join_lines_split(a.skip(1), b);
        assert((a + b).skip(1) =~= a.skip(1) + b);
        assert((a + b)[0] == a[0]);
        assert(spec_join_lines(a + b) == a[0].text + seq!['\n'] + spec_join_lines(a.skip(1) + b));
        assert(a[0].text + seq!['\n'] + (spec_join_lines(a.skip(1)) + seq!['\n']
            + spec_join_lines(b)) =~= (a[0].text + seq!['\n'] + spec_join_lines(a.skip(1)))
            + seq!['\n'] + spec_join_lines(b));
    }
}

/// Join the surviving lines into the raw body text.
pub fn join_lines(lines: &Vec<Line>) -> (r: String)
    ensures
        r@ == spec_join_lines(lines_view(lines@)),
{
    let ghost lsv = lines_view(lines@);
    let n = lines.len();
    let mut out = String::new();
    let mut i: usize = 0;
    while i < n
        invariant
            i <= n,
            n == lines.len(),
            lsv == lines_view(lines@),
            i == 0 ==> out@ == Seq::<char>::empty(),
            i >= 1 ==> out@ == spec_join_lines(lsv.take(i as int)),
        decreases n - i,
    {
        let ghost pre = out@;
        if i > 0 {
            push_char(&mut out, '\n');
        }
        out.append(lines[i].text.as_str());
        proof {
            assert(lsv[i as int] == lines@[i as int]@);
            if i == 0 {
                assert(lsv.take(1) =~= seq![lsv[0]]);
                assert(out@ =~= spec_join_lines(lsv.take(1)));
            } else {
                lemma_join_lines_split(lsv.take(i as int), seq![lsv[i as int]]);
                assert(lsv.take(i as int) + seq![lsv[i as int]] =~= lsv.take(i + 1));
                assert(out@ =~= spec_join_lines(lsv.take(i as int)) + seq!['\n'] + spec_join_lines(
                    seq![lsv[i as int]],
                ));
            }
        }
        i += 1;
    }
    proof {
        if n == 0 {
            assert(spec_join_lines(lsv) == Seq::<char>::empty());
        } else {
            assert(lsv.take(n as int) =~= lsv);
        }
    }
    out
}

/// The assembled document: the merged record, the macro table, the final
/// text, and the surviving body lines.
#[derive(Debug)]
pub struct AssembledSpec {
    pub metadata: Metadata,
    pub macros: MacroTable,
    pub html: String,
    pub lines: Vec<Line>,
}

/// The mathematical shape of an `AssembledSpec`.
pub struct AssembledV {
    pub metadata: MetaV,
    pub macros: TableV,
    pub html: Seq<char>,
    pub lines: Seq<LineV>,
}

impl View for AssembledSpec {
    type V = AssembledV;

    open spec fn view(&self) -> AssembledV {
        AssembledV {
            metadata: self.metadata@,
            macros: self.macros@,
            html: self.html@,
            lines: lines_view(self.lines@),
        }
    }
}

/// The whole pipeline: scan the document, merge by precedence, demand
/// some metadata, fill the macro table, join the surviving lines, splice
/// the boilerplate and expand the macros.
pub open spec fn spec_assemble(
    lines: Seq<LineV>,
    base: MetaV,
    cmd: MetaV,
    header: Seq<char>,
    footer: Seq<char>,
    today: Date,
) -> Result<AssembledV, DiagnosticV> {
    match scan_lines(init_scan(), lines, today) {
        Err(e) => Err(e),
        Ok(st) => {
            let merged = spec_merge(base, st.md, cmd);
            if !merged.has_keys {
                Err(DiagnosticV::NoMetadata {})
            } else {
                let filled = spec_fill(empty_table(), merged);
                match filled.1 {
                    Some(e) => Err(e),
                    None => Ok(
                        AssembledV {
                            metadata: merged,
                            macros: filled.0,
                            html: spec_expand(
                                spec_splice(header, spec_join_lines(st.out), footer),
                                filled.0,
                            ),
                            lines: st.out,
                        },
                    ),
                }
            }
        },
    }
}

/// The assembler, with the date that `Date: now` resolves to given
/// explicitly.
pub fn assemble_document_with_today(
    lines: &Vec<Line>,
    baseline: &Metadata,
    command_line: &Metadata,
    header: &str,
    footer: &str,
    today: Date,
) -> (r: Result<AssembledSpec, Diagnostic>)
    requires
        today.wf(),
        date_wf(baseline@),
        date_wf(command_line@),
    ensures
        match spec_assemble(lines_view(lines@), baseline@, command_line@, header@, footer@, today) {
            Ok(v) => r matches Ok(a) && a@.metadata == v.metadata && a@.macros == v.macros
                && a@.html == v.html && a@.lines == v.lines,
            Err(e) => r matches Err(d) && d@ == e,
        },
{
    proof {
        crate::scanner::lemma_scan_date_wf(init_scan(), lines_view(lines@), today);
    }
    let scanned = crate::scanner::parse_metadata_with_today(lines, today);
    match scanned {
        Err(d) => Err(d),
        Ok((doc_md, surviving)) => {
            let mgr = MetadataManager {
                baseline: baseline.duplicate(),
                document: doc_md,
                command_line: command_line.duplicate(),
            };
            match mgr.join_all() {
                Err(d) => Err(d),
                Ok(merged) => {
                    let mut table = MacroTable::new();
                    match merged.fill_macros(&mut table) {
                        Err(d) => Err(d),
                        Ok(_) => {
                            let mut html = join_lines(&surviving);
                            add_header_footer(&mut html, header, footer);
                            let expanded = crate::macros::replace_macros(html.as_str(), &table);
                            Ok(
                                AssembledSpec {
                                    metadata: merged,
                                    macros: table,
                                    html: expanded,
                                    lines: surviving,
                                },
                            )
                        },
                    }
                },
            }
        },
    }
}

/// The assembler; `Date: now` resolves against the clock.
pub fn assemble_document(
    lines: &Vec<Line>,
    baseline: &Metadata,
    command_line: &Metadata,
    header: &str,
    footer: &str,
) -> (r: Result<AssembledSpec, Diagnostic>)
    requires
        date_wf(baseline@),
        date_wf(command_line@),
    ensures
        exists|t: Date|
            #[trigger] t.wf() && match spec_assemble(
                lines_view(lines@),
                baseline@,
                command_line@,
                header@,
                footer@,
                t,
            ) {
                Ok(v) => r matches Ok(a) && a@.metadata == v.metadata && a@.macros == v.macros
                    && a@.html == v.html && a@.lines == v.lines,
                Err(e) => r matches Err(d) && d@ == e,
            },
{
    let today = Date::today();
    let r = assemble_document_with_today(lines, baseline, command_line, header, footer, today);
    proof {
        assert(today.wf());
    }
    r
}

pub open spec fn opt_strref_view(o: Option<&str>) -> Option<Seq<char>> {
    match o {
        Some(s) => Some(s@),
        None => None,
    }
}

/// The output name: the one given; else the source name with a
/// recognized extension replaced by `.html`; else `-` for standard
/// output.
pub open spec fn spec_outfile(infile: Seq<char>, outfile: Option<Seq<char>>) -> Seq<char> {
    match outfile {
        Some(o) => o,
        None => if ends_with_seq(infile, ".bs"@) {
            infile.take(infile.len() - 3) + ".html"@
        } else if ends_with_seq(infile, ".src.html"@) {
            infile.take(infile.len() - 9) + ".html"@
        } else {
            "-"@
        },
    }
}

/// Derive the output file name from the input file name.
pub fn handle_oufile(infile: &str, outfile: Option<&str>) -> (r: String)
    ensures
        r@ == spec_outfile(infile@, opt_strref_view(outfile)),
{
    match outfile {
        Some(o) => String::from_str(o),
        None => {
            let bs = ends_with_str(infile, ".bs");
            let srchtml = ends_with_str(infile, ".src.html");
            let ilen = infile.unicode_len();
            if bs {
                proof {
                    reveal_strlit(".bs");
                }
                let stem = infile.substring_char(0, ilen - 3);
                let mut out = String::from_str(stem);
                out.append(".html");
                proof {
                    assert(infile@.subrange(0, ilen - 3) =~= infile@.take(ilen - 3));
                }
                out
            } else if srchtml {
                proof {
                    reveal_strlit(".src.html");
                }
                let stem = infile.substring_char(0, ilen - 9);
                let mut out = String::from_str(stem);
                out.append(".html");
                proof {
                    assert(infile@.subrange(0, ilen - 9) =~= infile@.take(ilen - 9));
                }
                out
            } else {
                String::from_str("-")
            }
        },
    }
}

} // verus!
