//! The metadata manager: the three input records — baseline, document,
//! command line — and their precedence-directed merge.

use vstd::prelude::*;

use crate::date::Date;
use crate::diagnostics::{Diagnostic, DiagnosticV};
use crate::record::{
    empty_meta, meta_wf, spec_add, spec_compute_implicit, spec_join, Metadata, MetaV,
};

verus! {

/// The three metadata records a run merges, lowest precedence first.
#[derive(Debug)]
pub struct MetadataManager {
    pub baseline: Metadata,
    pub document: Metadata,
    pub command_line: Metadata,
}

/// The merged record: baseline, then document, then command line, joined
/// in that order into an empty record, with the implicit fields filled.
pub open spec fn spec_merge(b: MetaV, d: MetaV, c: MetaV) -> MetaV {
    spec_compute_implicit(spec_join(spec_join(spec_join(empty_meta(), b), d), c))
}

impl MetadataManager {
    pub fn new() -> (r: MetadataManager)
        ensures
            r.baseline@ == empty_meta(),
            r.document@ == empty_meta(),
            r.command_line@ == empty_meta(),
    {
        MetadataManager {
            baseline: Metadata::new(),
            document: Metadata::new(),
            command_line: Metadata::new(),
        }
    }

    /// Record a key/value pair handed in on the command line, the
    /// highest-precedence source.
    pub fn add_data(&mut self, key: &String, val: &String, line_num: u32) -> (r: Result<
        (),
        Diagnostic,
    >)
        ensures
            final(self).baseline == old(self).baseline,
            final(self).document == old(self).document,
            exists|t: Date|
                #[trigger] t.wf() && match r {
                    Ok(_) => spec_add(
                        old(self).command_line@,
                        key@,
                        val@,
                        Some(line_num),
                        t,
                    ) == Ok::<MetaV, DiagnosticV>(final(self).command_line@),
                    Err(d) => spec_add(
                        old(self).command_line@,
                        key@,
                        val@,
                        Some(line_num),
                        t,
                    ) == Err::<MetaV, DiagnosticV>(d@) && final(self).command_line@ == old(
                        self,
                    ).command_line@,
                },
    {
        self.command_line.add_data(key.as_str(), val.as_str(), Some(line_num))
    }

    /// Merge the three records by precedence, fill the implicit fields,
    /// and demand that some metadata was provided at all.
    pub fn join_all(&self) -> (r: Result<Metadata, Diagnostic>)
        ensures
            match r {
                Ok(m) => m@ == spec_merge(self.baseline@, self.document@, self.command_line@)
                    && m@.has_keys,
                Err(d) => d@ == (DiagnosticV::NoMetadata {}) && !spec_merge(
                    self.baseline@,
                    self.document@,
                    self.command_line@,
                ).has_keys,
            },
    {
        let mut m = Metadata::new();
        m.join(self.baseline.duplicate());
        m.join(self.document.duplicate());
        m.join(self.command_line.duplicate());
        m.compute_implicit_metadata();
        match m.validate() {
            Ok(_) => Ok(m),
            Err(d) => Err(d),
        }
    }
}

/// Merge precedence for the scalar fields: the merged value is the
/// command-line value if set, else the document value if set, else the
/// baseline value if set, else unset.
pub proof fn lemma_merge_precedence(b: MetaV, d: MetaV, c: MetaV)
    requires
        meta_wf(b),
        meta_wf(d),
        meta_wf(c),
    ensures
        spec_merge_scalar(spec_join(spec_join(spec_join(empty_meta(), b), d), c).canonical_url, b.canonical_url, d.canonical_url, c.canonical_url),
        spec_merge_scalar_date(spec_join(spec_join(spec_join(empty_meta(), b), d), c).date, b.date, d.date, c.date),
        spec_merge_scalar(spec_join(spec_join(spec_join(empty_meta(), b), d), c).ed, b.ed, d.ed, c.ed),
        spec_merge_scalar(spec_join(spec_join(spec_join(empty_meta(), b), d), c).group, b.group, d.group, c.group),
        spec_merge_scalar(spec_join(spec_join(spec_join(empty_meta(), b), d), c).level, b.level, d.level, c.level),
        spec_merge_scalar(spec_join(spec_join(spec_join(empty_meta(), b), d), c).shortname, b.shortname, d.shortname, c.shortname),
        spec_merge_scalar(spec_join(spec_join(spec_join(empty_meta(), b), d), c).raw_status, b.raw_status, d.raw_status, c.raw_status),
        spec_merge_scalar(spec_join(spec_join(spec_join(empty_meta(), b), d), c).title, b.title, d.title, c.title),
{
}

/// The merged scalar equals the highest-precedence value that is set.
pub open spec fn spec_merge_scalar(
    m: Option<Seq<char>>,
    b: Option<Seq<char>>,
    d: Option<Seq<char>>,
    c: Option<Seq<char>>,
) -> bool {
    m == if c is Some {
        c
    } else if d is Some {
        d
    } else if b is Some {
        b
    } else {
        None
    }
}

pub open spec fn spec_merge_scalar_date(
    m: Option<Date>,
    b: Option<Date>,
    d: Option<Date>,
    c: Option<Date>,
) -> bool {
    m == if c is Some {
        c
    } else if d is Some {
        d
    } else if b is Some {
        b
    } else {
        None
    }
}

/// List accumulation: the merged list is the concatenation of the
/// baseline, document and command-line contributions, in that order.
pub proof fn lemma_merge_lists(b: MetaV, d: MetaV, c: MetaV)
    requires
        meta_wf(b),
        meta_wf(d),
        meta_wf(c),
    ensures
        spec_join(spec_join(spec_join(empty_meta(), b), d), c).abs =~= b.abs + d.abs + c.abs,
        spec_join(spec_join(spec_join(empty_meta(), b), d), c).editors =~= b.editors + d.editors
            + c.editors,
{
    let s1 = spec_join(empty_meta(), b);
    let s2 = spec_join(s1, d);
    let s3 = spec_join(s2, c);
    assert(s1.abs =~= b.abs);
    assert(s2.abs =~= b.abs + d.abs);
    assert(s3.abs =~= b.abs + d.abs + c.abs);
    assert(s1.editors =~= b.editors);
    assert(s2.editors =~= b.editors + d.editors);
    assert(s3.editors =~= b.editors + d.editors + c.editors);
}

/// Joining a record without keys into any record is a no-op.
pub proof fn lemma_join_empty_right(m: MetaV, e: MetaV)
    requires
        !e.has_keys,
    ensures
        spec_join(m, e) == m,
{
}

/// Joining any record into the empty record preserves it exactly.
pub proof fn lemma_join_empty_left(m: MetaV)
    requires
        meta_wf(m),
    ensures
        spec_join(empty_meta(), m) == m,
{
    if m.has_keys {
        assert(spec_join(empty_meta(), m) =~= m);
    } else {
        assert(m.abs =~= Seq::empty());
        assert(m.editors =~= Seq::empty());
        assert(spec_join(empty_meta(), m) =~= m);
    }
}

} // verus!
