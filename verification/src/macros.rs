//! The macro table and the `[NAME]` expander.
//!
//! The table is populated only from the merged metadata record. Expansion
//! is a single left-to-right pass: a token `[NAME]` whose lower-cased name
//! is populated is replaced by the table's text, verbatim; everything
//! else, unknown names included, passes through untouched. Inserted text
//! is never rescanned, so expansion cannot recurse.

use vstd::prelude::*;

use crate::date::{human_of, iso_of};
use crate::diagnostics::{Diagnostic, DiagnosticV};
use crate::record::{Metadata, MetaV};
use crate::status::{long_status, long_status_of};
use crate::strutil::{find_char, find_char_spec, lower_seq, push_char, str_eq, to_lower};

verus! {

/// The rendered text for each macro the pipeline defines.
#[derive(Debug)]
pub struct MacroTable {
    pub date: Option<String>,
    pub isodate: Option<String>,
    pub level: Option<String>,
    pub shortname: Option<String>,
    pub longstatus: Option<String>,
    pub title: Option<String>,
    pub spectitle: Option<String>,
}

/// The mathematical shape of a `MacroTable`.
pub struct TableV {
    pub date: Option<Seq<char>>,
    pub isodate: Option<Seq<char>>,
    pub level: Option<Seq<char>>,
    pub shortname: Option<Seq<char>>,
    pub longstatus: Option<Seq<char>>,
    pub title: Option<Seq<char>>,
    pub spectitle: Option<Seq<char>>,
}

impl View for MacroTable {
    type V = TableV;

    open spec fn view(&self) -> TableV {
        TableV {
            date: crate::record::opt_str_view(self.date),
            isodate: crate::record::opt_str_view(self.isodate),
            level: crate::record::opt_str_view(self.level),
            shortname: crate::record::opt_str_view(self.shortname),
            longstatus: crate::record::opt_str_view(self.longstatus),
            title: crate::record::opt_str_view(self.title),
            spectitle: crate::record::opt_str_view(self.spectitle),
        }
    }
}

pub open spec fn empty_table() -> TableV {
    TableV {
        date: None,
        isodate: None,
        level: None,
        shortname: None,
        longstatus: None,
        title: None,
        spectitle: None,
    }
}

impl MacroTable {
    pub fn new() -> (r: MacroTable)
        ensures
            r@ == empty_table(),
    {
        MacroTable {
            date: None,
            isodate: None,
            level: None,
            shortname: None,
            longstatus: None,
            title: None,
            spectitle: None,
        }
    }
}

/// The table's entry for a (lower-case) macro name.
pub open spec fn lookup_macro(t: TableV, name: Seq<char>) -> Option<Seq<char>> {
    if name == "date"@ {
        t.date
    } else if name == "isodate"@ {
        t.isodate
    } else if name == "level"@ {
        t.level
    } else if name == "shortname"@ {
        t.shortname
    } else if name == "longstatus"@ {
        t.longstatus
    } else if name == "title"@ {
        t.title
    } else if name == "spectitle"@ {
        t.spectitle
    } else {
        None
    }
}

fn lookup_macro_exec<'a>(t: &'a MacroTable, name: &str) -> (r: Option<&'a String>)
    ensures
        match r {
            Some(s) => lookup_macro(t@, name@) == Some(s@),
            None => lookup_macro(t@, name@) is None,
        },
{
    if str_eq(name, "date") {
        t.date.as_ref()
    } else if str_eq(name, "isodate") {
        t.isodate.as_ref()
    } else if str_eq(name, "level") {
        t.level.as_ref()
    } else if str_eq(name, "shortname") {
        t.shortname.as_ref()
    } else if str_eq(name, "longstatus") {
        t.longstatus.as_ref()
    } else if str_eq(name, "title") {
        t.title.as_ref()
    } else if str_eq(name, "spectitle") {
        t.spectitle.as_ref()
    } else {
        None
    }
}

/// Filling the title macros: `title` and its alias `spectitle`.
pub open spec fn spec_fill_title(t: TableV, m: MetaV) -> TableV {
    if m.title is Some {
        TableV { title: m.title, spectitle: m.title, ..t }
    } else {
        t
    }
}

/// What `fill_macros` computes from the merged record: the table it
/// leaves behind, and the diagnostic when the status code is unknown.
pub open spec fn spec_fill(t: TableV, m: MetaV) -> (TableV, Option<DiagnosticV>) {
    let t1 = if m.date is Some {
        TableV {
            date: Some(human_of(m.date.unwrap())),
            isodate: Some(iso_of(m.date.unwrap())),
            ..t
        }
    } else {
        t
    };
    let t2 = if m.level matches Some(l) && l.len() > 0 {
        TableV { level: m.level, ..t1 }
    } else {
        t1
    };
    let t3 = if m.shortname is Some {
        TableV { shortname: m.shortname, ..t2 }
    } else {
        t2
    };
    match m.raw_status {
        Some(code) => match long_status_of(code) {
            Some(ls) => (
                spec_fill_title(TableV { longstatus: Some(ls), ..t3 }, m),
                None,
            ),
            None => (t3, Some(DiagnosticV::UnknownStatus { code })),
        },
        None => (spec_fill_title(t3, m), None),
    }
}

impl Metadata {
    /// Populate the macro table from the fields that are set; an unknown
    /// status code is fatal.
    pub fn fill_macros(&self, macros: &mut MacroTable) -> (r: Result<(), Diagnostic>)
        requires
            self@.date matches Some(d) ==> d.wf(),
        ensures
            final(macros)@ == spec_fill(old(macros)@, self@).0,
            match r {
                Ok(_) => spec_fill(old(macros)@, self@).1 is None,
                Err(d) => spec_fill(old(macros)@, self@).1 == Some(d@),
            },
    {
        if let Some(d) = &self.date {
            macros.date = Some(d.format_human());
            macros.isodate = Some(d.format_iso());
        }
        if let Some(level) = &self.level {
            if level.unicode_len() > 0 {
                macros.level = Some(level.clone());
            }
        }
        if let Some(shortname) = &self.shortname {
            macros.shortname = Some(shortname.clone());
        }
        if let Some(code) = &self.raw_status {
            match long_status(code.as_str()) {
                Some(ls) => {
                    macros.longstatus = Some(String::from_str(ls));
                },
                None => {
                    return Err(Diagnostic::UnknownStatus { code: code.clone() });
                },
            }
        }
        if let Some(title) = &self.title {
            macros.title = Some(title.clone());
            macros.spectitle = Some(title.clone());
        }
        Ok(())
    }
}

/// No `[` occurs at or after position `i`.
pub open spec fn no_open_from(s: Seq<char>, i: int) -> bool {
    forall|k: int| i <= k < s.len() ==> s[k] != '['
}

/// No `[` occurs in positions `a..b`.
pub open spec fn no_open_between(s: Seq<char>, a: int, b: int) -> bool {
    forall|k: int| a <= k < b ==> s[k] != '['
}

/// Single-pass expansion of the text from position `i` on.
pub open spec fn spec_expand_from(s: Seq<char>, t: TableV, i: int) -> Seq<char>
    decreases s.len() - i,
{
    if i < 0 || i >= s.len() {
        Seq::empty()
    } else if s[i] == '[' {
        match find_char_spec(s, ']', i + 1) {
            Some(j) => {
                if i + 1 <= j && j < s.len() && no_open_between(s, i + 1, j) && lookup_macro(
                    t,
                    lower_seq(s.subrange(i + 1, j)),
                ) is Some {
                    lookup_macro(t, lower_seq(s.subrange(i + 1, j))).unwrap() + spec_expand_from(
                        s,
                        t,
                        j + 1,
                    )
                } else {
                    seq!['['] + spec_expand_from(s, t, i + 1)
                }
            },
            None => seq!['['] + spec_expand_from(s, t, i + 1),
        }
    } else {
        seq![s[i]] + spec_expand_from(s, t, i + 1)
    }
}

/// The expansion of the whole text.
pub open spec fn spec_expand(s: Seq<char>, t: TableV) -> Seq<char> {
    spec_expand_from(s, t, 0)
}

/// Substitute `[NAME]` tokens in `text` from the table, in one pass,
/// case-insensitively on the name; unknown names are left untouched.
pub fn replace_macros(text: &str, table: &MacroTable) -> (r: String)
    ensures
        r@ == spec_expand(text@, table@),
{
    let n = text.unicode_len();
    let mut out = String::new();
    let mut i: usize = 0;
    while i < n
        invariant
            i <= n,
            n == text@.len(),
            out@ + spec_expand_from(text@, table@, i as int) == spec_expand(text@, table@),
        decreases n - i,
    {
        let ghost pre = out@;
        let c = text.get_char(i);
        let mut plain = true;
        if c == '[' {
            if let Some(j) = find_char(text, ']', i + 1) {
                proof {
                    crate::strutil::lemma_find_char_props(text@, ']', i + 1);
                }
                let open_inside = match find_char(text, '[', i + 1) {
                    Some(k) => {
                        proof {
                            crate::strutil::lemma_find_char_props(text@, '[', i + 1);
                        }
                        k < j
                    },
                    None => {
                        proof {
                            crate::strutil::lemma_find_char_props(text@, '[', i + 1);
                        }
                        false
                    },
                };
                if !open_inside {
                    assert(no_open_between(text@, i + 1, j as int));
                    let name = text.substring_char(i + 1, j);
                    let lname = to_lower(name);
                    if let Some(v) = lookup_macro_exec(table, lname.as_str()) {
                        out.append(v.as_str());
                        proof {
                            assert(spec_expand_from(text@, table@, i as int) == v@
                                + spec_expand_from(text@, table@, j + 1));
                            assert((pre + v@) + spec_expand_from(text@, table@, j + 1) =~= pre + (
                            v@ + spec_expand_from(text@, table@, j + 1)));
                        }
                        i = j + 1;
                        plain = false;
                    }
                }
            }
        }
        if plain {
            push_char(&mut out, c);
            proof {
                assert(spec_expand_from(text@, table@, i as int) == seq![text@[i as int]]
                    + spec_expand_from(text@, table@, i + 1));
                assert((pre + seq![text@[i as int]]) + spec_expand_from(text@, table@, i + 1) =~= pre
                    + (seq![text@[i as int]] + spec_expand_from(text@, table@, i + 1)));
            }
            i = i + 1;
        }
    }
    proof {
        assert(out@ + spec_expand_from(text@, table@, n as int) =~= out@);
    }
    out
}

/// Text without `[` from position `i` on expands to itself.
proof fn lemma_expand_no_open(s: Seq<char>, t: TableV, i: int)
    requires
        0 <= i <= s.len(),
        no_open_from(s, i),
    ensures
        spec_expand_from(s, t, i) == s.skip(i),
    decreases s.len() - i,
{
    if i >= s.len() {
        assert(s.skip(i) =~= Seq::empty());
    } else {
        lemma_expand_no_open(s, t, i + 1);
        assert(seq![s[i]] + s.skip(i + 1) =~= s.skip(i));
    }
}

/// Expansion inserts a populated macro's value verbatim: the expansion of
/// exactly one token is the table's text for it, whatever that text holds
/// — tokens inside an inserted value are not themselves expanded.
pub proof fn lemma_expand_single_token(name: Seq<char>, t: TableV, v: Seq<char>)
    requires
        forall|k: int| 0 <= k < name.len() ==> name[k] != '[' && name[k] != ']',
        lookup_macro(t, lower_seq(name)) == Some(v),
    ensures
        spec_expand(seq!['['] + name + seq![']'], t) == v,
{
    let s = seq!['['] + name + seq![']'];
    let j = name.len() as int + 1;
    assert(s[0] == '[');
    assert(s[j] == ']');
    assert(forall|p: int| 1 <= p < j ==> s[p] == name[p - 1] && s[p] != ']');
    crate::strutil::lemma_find_char_from_witness(s, ']', 1, j);
    assert(no_open_between(s, 1, j));
    assert(s.subrange(1, j) =~= name);
    assert(spec_expand_from(s, t, j + 1) =~= Seq::empty());
    assert(spec_expand(s, t) =~= v);
}

/// A bracketed name the table does not hold passes through verbatim.
pub proof fn lemma_unknown_macro_passes_through(name: Seq<char>, t: TableV)
    requires
        forall|k: int| 0 <= k < name.len() ==> name[k] != '[' && name[k] != ']',
        lookup_macro(t, lower_seq(name)) is None,
    ensures
        spec_expand(seq!['['] + name + seq![']'], t) == seq!['['] + name + seq![']'],
{
    let s = seq!['['] + name + seq![']'];
    let j = name.len() as int + 1;
    assert(s[0] == '[');
    assert(s[j] == ']');
    assert(forall|p: int| 1 <= p < j ==> s[p] == name[p - 1] && s[p] != ']');
    crate::strutil::lemma_find_char_from_witness(s, ']', 1, j);
    assert(s.subrange(1, j) =~= name);
    assert(no_open_from(s, 1));
    lemma_expand_no_open(s, t, 1);
    assert(seq!['['] + s.skip(1) =~= s);
}

} // verus!
