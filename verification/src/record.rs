//! The typed metadata record: the fixed set of recognized fields, the key
//! normalization rule, the `add` dispatcher and the precedence-directed
//! `join`.

use vstd::prelude::*;

use crate::date::Date;
use crate::diagnostics::{Diagnostic, DiagnosticV};
use crate::parse::{parse_level, parse_vec, spec_parse_level, spec_parse_vec};
use crate::strutil::{str_eq, strs_view, trim, trim_seq};

verus! {

/// What `titlecase::titlecase` returns; the result depends on the input
/// characters alone.
pub uninterp spec fn title_cased(s: Seq<char>) -> Seq<char>;

/// Relies on `titlecase::titlecase`: Gruber-style title-casing, a pure
/// function of its input.
#[verifier::external_body]
fn title_case(s: &str) -> (r: String)
    ensures
        r@ == title_cased(s@),
{
    titlecase::titlecase(s)
}

/// The canonical key names of the recognized metadata fields.
pub open spec fn is_canonical_key(k: Seq<char>) -> bool {
    ||| k == "Abstract"@
    ||| k == "Canonical Url"@
    ||| k == "Date"@
    ||| k == "ED"@
    ||| k == "Editor"@
    ||| k == "Group"@
    ||| k == "Level"@
    ||| k == "Shortname"@
    ||| k == "Status"@
    ||| k == "Title"@
}

fn is_canonical_key_exec(k: &str) -> (r: bool)
    ensures
        r == is_canonical_key(k@),
{
    str_eq(k, "Abstract") || str_eq(k, "Canonical Url") || str_eq(k, "Date") || str_eq(k, "ED")
        || str_eq(k, "Editor") || str_eq(k, "Group") || str_eq(k, "Level") || str_eq(
        k,
        "Shortname",
    ) || str_eq(k, "Status") || str_eq(k, "Title")
}

/// Key normalization: trim; keep `ED`, `TR` and `URL` as they stand;
/// otherwise title-case. A key already in canonical form is its own
/// title-casing, so the table lookup can use it directly.
pub open spec fn normalize_key(k: Seq<char>) -> Seq<char> {
    let t = trim_seq(k);
    if t == "ED"@ || t == "TR"@ || t == "URL"@ {
        t
    } else if is_canonical_key(t) {
        t
    } else {
        title_cased(t)
    }
}

fn normalize_key_exec(key: &str) -> (r: String)
    ensures
        r@ == normalize_key(key@),
{
    let t = trim(key);
    if str_eq(t, "ED") || str_eq(t, "TR") || str_eq(t, "URL") {
        String::from_str(t)
    } else if is_canonical_key_exec(t) {
        String::from_str(t)
    } else {
        title_case(t)
    }
}

fn clone_string_vec(v: &Vec<String>) -> (r: Vec<String>)
    ensures
        strs_view(r@) == strs_view(v@),
{
    let mut out: Vec<String> = Vec::new();
    let n = v.len();
    let mut i: usize = 0;
    while i < n
        invariant
            i <= n,
            n == v@.len(),
            strs_view(out@) == strs_view(v@).take(i as int),
        decreases n - i,
    {
        let ghost prev = out@;
        let c = v[i].clone();
        assert(c@ == v@[i as int]@);
        proof {
            assert(strs_view(prev).len() == prev.len());
            assert(strs_view(v@).take(i as int).len() == i);
            assert(prev.len() == i);
        }
        out.push(c);
        proof {
            assert(out@ == prev.push(c));
            assert(out@.len() == i + 1);
            assert forall|k: int| 0 <= k < i + 1 implies strs_view(out@)[k] == strs_view(v@).take(
                i + 1,
            )[k] by {
                if k < i {
                    assert(strs_view(prev)[k] == strs_view(v@).take(i as int)[k]);
                    assert(strs_view(prev)[k] == prev[k]@);
                }
                assert(strs_view(out@)[k] == out@[k]@);
            }
            assert(strs_view(out@) =~= strs_view(v@).take(i + 1));
        }
        i += 1;
    }
    proof {
        assert(strs_view(v@).take(n as int) =~= strs_view(v@));
    }
    out
}

fn clone_string_opt(o: &Option<String>) -> (r: Option<String>)
    ensures
        opt_str_view(r) == opt_str_view(*o),
{
    match o {
        Some(s) => Some(s.clone()),
        None => None,
    }
}

/// A typed metadata record.
#[derive(Debug)]
pub struct Metadata {
    pub has_keys: bool,
    pub abs: Vec<String>,
    pub canonical_url: Option<String>,
    pub date: Option<Date>,
    pub ed: Option<String>,
    pub editors: Vec<String>,
    pub group: Option<String>,
    pub level: Option<String>,
    pub shortname: Option<String>,
    pub raw_status: Option<String>,
    pub title: Option<String>,
}

/// The mathematical shape of a `Metadata` record.
#[verifier::ext_equal]
pub struct MetaV {
    pub has_keys: bool,
    pub abs: Seq<Seq<char>>,
    pub canonical_url: Option<Seq<char>>,
    pub date: Option<Date>,
    pub ed: Option<Seq<char>>,
    pub editors: Seq<Seq<char>>,
    pub group: Option<Seq<char>>,
    pub level: Option<Seq<char>>,
    pub shortname: Option<Seq<char>>,
    pub raw_status: Option<Seq<char>>,
    pub title: Option<Seq<char>>,
}

pub open spec fn opt_str_view(o: Option<String>) -> Option<Seq<char>> {
    match o {
        Some(s) => Some(s@),
        None => None,
    }
}

impl View for Metadata {
    type V = MetaV;

    open spec fn view(&self) -> MetaV {
        MetaV {
            has_keys: self.has_keys,
            abs: strs_view(self.abs@),
            canonical_url: opt_str_view(self.canonical_url),
            date: self.date,
            ed: opt_str_view(self.ed),
            editors: strs_view(self.editors@),
            group: opt_str_view(self.group),
            level: opt_str_view(self.level),
            shortname: opt_str_view(self.shortname),
            raw_status: opt_str_view(self.raw_status),
            title: opt_str_view(self.title),
        }
    }
}

/// The empty record: nothing set, `has_keys` false.
pub open spec fn empty_meta() -> MetaV {
    MetaV {
        has_keys: false,
        abs: Seq::empty(),
        canonical_url: None,
        date: None,
        ed: None,
        editors: Seq::empty(),
        group: None,
        level: None,
        shortname: None,
        raw_status: None,
        title: None,
    }
}

/// `has_keys` covers every set field: a record that carries a value also
/// carries the flag. Constructors establish this and `add`/`join` keep it.
pub open spec fn meta_wf(m: MetaV) -> bool {
    (m.abs.len() > 0 || m.canonical_url is Some || m.date is Some || m.ed is Some
        || m.editors.len() > 0 || m.group is Some || m.level is Some || m.shortname is Some
        || m.raw_status is Some || m.title is Some) ==> m.has_keys
}

/// The record's date, if set, is a real calendar date.
pub open spec fn date_wf(m: MetaV) -> bool {
    m.date matches Some(d) ==> d.wf()
}

/// `add` only ever stores a real calendar date.
pub proof fn lemma_add_date_wf(
    m: MetaV,
    key: Seq<char>,
    val: Seq<char>,
    line: Option<u32>,
    today: Date,
)
    requires
        today.wf(),
        date_wf(m),
    ensures
        spec_add(m, key, val, line, today) matches Ok(m2) ==> date_wf(m2),
{
}

/// What `add` does: normalize the key, parse the value with the field's
/// parser, then store or append it per the field's join discipline.
pub open spec fn spec_add(
    m: MetaV,
    key: Seq<char>,
    val: Seq<char>,
    line: Option<u32>,
    today: Date,
) -> Result<MetaV, DiagnosticV> {
    let k = normalize_key(key);
    if k == "Abstract"@ {
        Ok(MetaV { has_keys: true, abs: m.abs + spec_parse_vec(val), ..m })
    } else if k == "Canonical Url"@ {
        Ok(MetaV { has_keys: true, canonical_url: Some(val), ..m })
    } else if k == "Date"@ {
        match crate::date::spec_parse_date(val, today) {
            Some(d) => Ok(MetaV { has_keys: true, date: Some(d), ..m }),
            None => Err(DiagnosticV::BadDate { line }),
        }
    } else if k == "ED"@ {
        Ok(MetaV { has_keys: true, ed: Some(val), ..m })
    } else if k == "Editor"@ {
        Ok(MetaV { has_keys: true, editors: m.editors + spec_parse_vec(val), ..m })
    } else if k == "Group"@ {
        Ok(MetaV { has_keys: true, group: Some(val), ..m })
    } else if k == "Level"@ {
        Ok(MetaV { has_keys: true, level: Some(spec_parse_level(val)), ..m })
    } else if k == "Shortname"@ {
        Ok(MetaV { has_keys: true, shortname: Some(val), ..m })
    } else if k == "Status"@ {
        Ok(MetaV { has_keys: true, raw_status: Some(val), ..m })
    } else if k == "Title"@ {
        Ok(MetaV { has_keys: true, title: Some(val), ..m })
    } else {
        Err(DiagnosticV::UnknownKey { key: k, line })
    }
}

/// `add` under any key other than `Title` leaves the title alone, and
/// never clears `has_keys`.
pub proof fn lemma_add_preserves_title(
    m: MetaV,
    key: Seq<char>,
    val: Seq<char>,
    line: Option<u32>,
    today: Date,
)
    requires
        normalize_key(key) != "Title"@,
    ensures
        spec_add(m, key, val, line, today) matches Ok(m2) ==> m2.title == m.title && (m.has_keys
            ==> m2.has_keys),
{
}

/// `add` under the canonical key `Title` sets exactly the title.
pub proof fn lemma_add_title(m: MetaV, val: Seq<char>, line: Option<u32>, today: Date)
    ensures
        spec_add(m, "Title"@, val, line, today) == Ok::<MetaV, DiagnosticV>(
            MetaV { has_keys: true, title: Some(val), ..m },
        ),
{
    reveal_strlit("Title");
    reveal_strlit("ED");
    reveal_strlit("TR");
    reveal_strlit("URL");
    reveal_strlit("Abstract");
    reveal_strlit("Canonical Url");
    reveal_strlit("Date");
    reveal_strlit("Editor");
    reveal_strlit("Group");
    reveal_strlit("Level");
    reveal_strlit("Shortname");
    reveal_strlit("Status");
    let t = trim_seq("Title"@);
    assert(!crate::strutil::is_space_c("Title"@[0]));
    assert(crate::strutil::trim_start_seq("Title"@) == "Title"@);
    assert(!crate::strutil::is_space_c("Title"@[4]));
    assert(crate::strutil::trim_end_seq("Title"@) == "Title"@);
    assert(t == "Title"@);
    assert(is_canonical_key(t));
    assert(t != "ED"@ && t != "TR"@ && t != "URL"@);
    assert(normalize_key("Title"@) == "Title"@);
    assert("Title"@ != "Abstract"@ && "Title"@ != "Canonical Url"@ && "Title"@ != "Date"@
        && "Title"@ != "ED"@ && "Title"@ != "Editor"@ && "Title"@ != "Group"@ && "Title"@
        != "Level"@ && "Title"@ != "Shortname"@ && "Title"@ != "Status"@);
}

/// Merging `other` into `m`: a no-op unless `other` carries keys; list
/// fields extend, scalar fields are overwritten by any value set on
/// `other`.
pub open spec fn spec_join(m: MetaV, other: MetaV) -> MetaV {
    if !other.has_keys {
        m
    } else {
        MetaV {
            has_keys: true,
            abs: m.abs + other.abs,
            canonical_url: if other.canonical_url is Some {
                other.canonical_url
            } else {
                m.canonical_url
            },
            date: if other.date is Some {
                other.date
            } else {
                m.date
            },
            ed: if other.ed is Some {
                other.ed
            } else {
                m.ed
            },
            editors: m.editors + other.editors,
            group: if other.group is Some {
                other.group
            } else {
                m.group
            },
            level: if other.level is Some {
                other.level
            } else {
                m.level
            },
            shortname: if other.shortname is Some {
                other.shortname
            } else {
                m.shortname
            },
            raw_status: if other.raw_status is Some {
                other.raw_status
            } else {
                m.raw_status
            },
            title: if other.title is Some {
                other.title
            } else {
                m.title
            },
        }
    }
}

/// If `Canonical Url` is unset or holds the literal `ED`, it takes the
/// value of `ED`.
pub open spec fn spec_compute_implicit(m: MetaV) -> MetaV {
    if m.canonical_url is None || m.canonical_url == Some("ED"@) {
        MetaV { canonical_url: m.ed, ..m }
    } else {
        m
    }
}

impl Metadata {
    pub fn new() -> (r: Metadata)
        ensures
            r@ == empty_meta(),
    {
        let r = Metadata {
            has_keys: false,
            abs: Vec::new(),
            canonical_url: None,
            date: None,
            ed: None,
            editors: Vec::new(),
            group: None,
            level: None,
            shortname: None,
            raw_status: None,
            title: None,
        };
        proof {
            assert(r@.abs =~= empty_meta().abs);
            assert(r@.editors =~= empty_meta().editors);
        }
        r
    }

    /// `add` with the date the sentinel `now` resolves to given
    /// explicitly, so that the outcome is a function of its arguments.
    pub fn add_data_with_today(
        &mut self,
        key: &str,
        val: &str,
        line_num: Option<u32>,
        today: Date,
    ) -> (r: Result<(), Diagnostic>)
        requires
            today.wf(),
        ensures
            match r {
                Ok(_) => spec_add(old(self)@, key@, val@, line_num, today) == Ok::<
                    MetaV,
                    DiagnosticV,
                >(final(self)@),
                Err(d) => spec_add(old(self)@, key@, val@, line_num, today) == Err::<
                    MetaV,
                    DiagnosticV,
                >(d@) && final(self)@ == old(self)@,
            },
            meta_wf(old(self)@) && r is Ok ==> meta_wf(final(self)@),
    {
        let k = normalize_key_exec(key);
        let vs = val.to_owned();
        if str_eq(k.as_str(), "Abstract") {
            let mut v = parse_vec(&vs);
            self.abs.append(&mut v);
            self.has_keys = true;
            proof {
                assert(self@.abs =~= old(self)@.abs + spec_parse_vec(val@));
            }
            Ok(())
        } else if str_eq(k.as_str(), "Canonical Url") {
            self.canonical_url = Some(vs);
            self.has_keys = true;
            Ok(())
        } else if str_eq(k.as_str(), "Date") {
            match crate::date::parse_date_with_today(val, today) {
                Some(d) => {
                    self.date = Some(d);
                    self.has_keys = true;
                    Ok(())
                },
                None => Err(Diagnostic::BadDate { line: line_num }),
            }
        } else if str_eq(k.as_str(), "ED") {
            self.ed = Some(vs);
            self.has_keys = true;
            Ok(())
        } else if str_eq(k.as_str(), "Editor") {
            let mut v = parse_vec(&vs);
            self.editors.append(&mut v);
            self.has_keys = true;
            proof {
                assert(self@.editors =~= old(self)@.editors + spec_parse_vec(val@));
            }
            Ok(())
        } else if str_eq(k.as_str(), "Group") {
            self.group = Some(vs);
            self.has_keys = true;
            Ok(())
        } else if str_eq(k.as_str(), "Level") {
            self.level = Some(parse_level(&vs));
            self.has_keys = true;
            Ok(())
        } else if str_eq(k.as_str(), "Shortname") {
            self.shortname = Some(vs);
            self.has_keys = true;
            Ok(())
        } else if str_eq(k.as_str(), "Status") {
            self.raw_status = Some(vs);
            self.has_keys = true;
            Ok(())
        } else if str_eq(k.as_str(), "Title") {
            self.title = Some(vs);
            self.has_keys = true;
            Ok(())
        } else {
            Err(Diagnostic::UnknownKey { key: k, line: line_num })
        }
    }

    /// Normalize the key, parse the value and store it; unknown keys and
    /// malformed dates are fatal. The sentinel `now` resolves against the
    /// clock.
    pub fn add_data(&mut self, key: &str, val: &str, line_num: Option<u32>) -> (r: Result<
        (),
        Diagnostic,
    >)
        ensures
            exists|t: Date|
                #[trigger] t.wf() && match r {
                    Ok(_) => spec_add(old(self)@, key@, val@, line_num, t) == Ok::<
                        MetaV,
                        DiagnosticV,
                    >(final(self)@),
                    Err(d) => spec_add(old(self)@, key@, val@, line_num, t) == Err::<
                        MetaV,
                        DiagnosticV,
                    >(d@) && final(self)@ == old(self)@,
                },
            meta_wf(old(self)@) && r is Ok ==> meta_wf(final(self)@),
    {
        let today = Date::today();
        let r = self.add_data_with_today(key, val, line_num, today);
        proof {
            assert(today.wf());
        }
        r
    }

    /// Merge `other` into `self`: list fields extend, scalar fields are
    /// overwritten by any value present on `other`; a record without keys
    /// joins as a no-op.
    pub fn join(&mut self, other: Metadata)
        ensures
            final(self)@ == spec_join(old(self)@, other@),
    {
        if !other.has_keys {
            return ;
        }
        self.has_keys = true;
        let Metadata {
            has_keys: _,
            abs: mut o_abs,
            canonical_url: o_canonical_url,
            date: o_date,
            ed: o_ed,
            editors: mut o_editors,
            group: o_group,
            level: o_level,
            shortname: o_shortname,
            raw_status: o_raw_status,
            title: o_title,
        } = other;
        self.abs.append(&mut o_abs);
        self.editors.append(&mut o_editors);
        if o_canonical_url.is_some() {
            self.canonical_url = o_canonical_url;
        }
        if o_date.is_some() {
            self.date = o_date;
        }
        if o_ed.is_some() {
            self.ed = o_ed;
        }
        if o_group.is_some() {
            self.group = o_group;
        }
        if o_level.is_some() {
            self.level = o_level;
        }
        if o_shortname.is_some() {
            self.shortname = o_shortname;
        }
        if o_raw_status.is_some() {
            self.raw_status = o_raw_status;
        }
        if o_title.is_some() {
            self.title = o_title;
        }
        proof {
            assert(self@.abs =~= spec_join(old(self)@, other@).abs);
            assert(self@.editors =~= spec_join(old(self)@, other@).editors);
        }
    }

    /// Fill the derived fields: `Canonical Url` falls back to `ED` when it
    /// is unset or holds the literal `ED`.
    pub fn compute_implicit_metadata(&mut self)
        ensures
            final(self)@ == spec_compute_implicit(old(self)@),
    {
        let is_ed_sentinel = match &self.canonical_url {
            Some(url) => str_eq(url.as_str(), "ED"),
            None => true,
        };
        if is_ed_sentinel {
            self.canonical_url = match &self.ed {
                Some(s) => Some(s.clone()),
                None => None,
            };
        }
    }

    /// Whether the date field, if set, names a real calendar date.
    pub fn date_ok(&self) -> (r: bool)
        ensures
            r == date_wf(self@),
    {
        match &self.date {
            Some(d) => d.is_valid(),
            None => true,
        }
    }

    /// A copy with the same fields.
    pub fn duplicate(&self) -> (r: Metadata)
        ensures
            r@ == self@,
    {
        let r = Metadata {
            has_keys: self.has_keys,
            abs: clone_string_vec(&self.abs),
            canonical_url: clone_string_opt(&self.canonical_url),
            date: self.date,
            ed: clone_string_opt(&self.ed),
            editors: clone_string_vec(&self.editors),
            group: clone_string_opt(&self.group),
            level: clone_string_opt(&self.level),
            shortname: clone_string_opt(&self.shortname),
            raw_status: clone_string_opt(&self.raw_status),
            title: clone_string_opt(&self.title),
        };
        proof {
            assert(r@ =~= self@);
        }
        r
    }

    /// A record with no recognized key at all is fatal.
    pub fn validate(&self) -> (r: Result<(), Diagnostic>)
        ensures
            self@.has_keys <==> r is Ok,
            r matches Err(d) ==> d@ == (DiagnosticV::NoMetadata {}),
    {
        if self.has_keys {
            Ok(())
        } else {
            Err(Diagnostic::NoMetadata)
        }
    }
}

} // verus!
