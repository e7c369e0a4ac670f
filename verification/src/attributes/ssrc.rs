//! The `a=ssrc:` and `a=ssrc-group:` grammars.

use vstd::prelude::*;

use crate::parsers::{at_end, clone_numbers, dec_str, match_lit, occurs_at, read_as_numbers,
    read_non_colon_string, read_verbatim, skip_wsp, skip_ws, spec_num_list, spec_read_num,
    token_end, u32_to_string, u64_to_string, StopAt};

verus! {

// ---------------------------------------------------------------------------
// ssrc
// ---------------------------------------------------------------------------

/// Source-level attribute, `a=ssrc:3570614608 cname:4TOk42mSjXCkVIa6`.
#[derive(Clone, PartialEq, Eq, Debug)]
pub struct Ssrc {
    pub id: u64,
    pub attribute: String,
    pub value: String,
}

/// Spec model of [`Ssrc`].
pub ghost struct SsrcV {
    pub id: u64,
    pub attribute: Seq<char>,
    pub value: Seq<char>,
}

impl DeepView for Ssrc {
    type V = SsrcV;

    open spec fn deep_view(&self) -> SsrcV {
        SsrcV { id: self.id, attribute: self.attribute@, value: self.value@ }
    }
}

/// A whole `a=ssrc:` line: id, attribute name, `:`, and the value — the rest
/// of the line after leading whitespace, kept verbatim and non-empty.
pub open spec fn spec_ssrc_line(s: Seq<char>) -> Option<SsrcV> {
    if occurs_at(s, 0, "a=ssrc:"@) {
        let i = skip_wsp(s, "a=ssrc:"@.len() as int);
        match spec_read_num(s, i, u64::MAX as int) {
            None => None,
            Some((j, id)) => {
                let k = skip_wsp(s, j);
                let j2 = token_end(s, k, StopAt::Colon);
                if j2 > k && occurs_at(s, j2, ":"@) {
                    let v = skip_wsp(s, j2 + ":"@.len());
                    if v < s.len() {
                        match crate::parsers::spec_rest_of_line(s, v) {
                            Some(t) => Some(
                                (SsrcV { id: id as u64, attribute: s.subrange(k, j2), value: t }),
                            ),
                            None => None,
                        }
                    } else {
                        None
                    }
                } else {
                    None
                }
            },
        }
    } else {
        None
    }
}

/// Parse an `a=ssrc:` line.
pub fn ssrc_line(input: &str) -> (r: Option<Ssrc>)
    ensures
        r.deep_view() == spec_ssrc_line(input@),
{
    if !match_lit(input, 0, "a=ssrc:") {
        return None;
    }
    let n = input.unicode_len();
    let m = "a=ssrc:".unicode_len();
    assert(m <= n);
    let i = skip_ws(input, m);
    let id = match crate::parsers::read_big_number(input, i) {
        Some(x) => x,
        None => {
            return None;
        },
    };
    let k = skip_ws(input, id.0);
    let attr = match read_non_colon_string(input, k) {
        Some(x) => x,
        None => {
            return None;
        },
    };
    if !match_lit(input, attr.0, ":") {
        return None;
    }
    let mc = ":".unicode_len();
    assert(attr.0 + mc <= n);
    let v = skip_ws(input, attr.0 + mc);
    if v < n {
        match read_verbatim(input, v) {
            Some(t) => Some(Ssrc { id: id.1, attribute: attr.1, value: t }),
            None => None,
        }
    } else {
        None
    }
}

pub open spec fn spec_render_ssrc(v: SsrcV) -> Seq<char> {
    "a=ssrc:"@ + dec_str(v.id as int) + " "@ + v.attribute + ":"@ + v.value
}

impl Ssrc {
    /// Render as `a=ssrc:<id> <attribute>:<value>`.
    pub fn to_string(&self) -> (r: String)
        ensures
            r@ == spec_render_ssrc(self.deep_view()),
    {
        let mut out = "a=ssrc:".to_owned();
        out.append(u64_to_string(self.id).as_str());
        out.append(" ");
        out.append(self.attribute.as_str());
        out.append(":");
        out.append(self.value.as_str());
        out
    }

    /// Detach the attribute into independently owned storage.
    pub fn into_owned(&self) -> (r: Ssrc)
        ensures
            r.deep_view() == self.deep_view(),
    {
        Ssrc { id: self.id, attribute: self.attribute.clone(), value: self.value.clone() }
    }
}

// ---------------------------------------------------------------------------
// ssrc-group
// ---------------------------------------------------------------------------

/// Group semantics tag of an `a=ssrc-group:` line.
#[derive(Clone, Copy, PartialEq, Eq, Structural, Debug)]
pub enum SsrcSemantic {
    FID,
    FEC,
}

/// Source grouping, `a=ssrc-group:FID 2231627014 632943048`.
#[derive(Clone, PartialEq, Eq, Debug)]
pub struct SsrcGroup {
    pub semantic: SsrcSemantic,
    pub ids: Vec<u32>,
}

/// Spec model of [`SsrcGroup`].
pub ghost struct SsrcGroupV {
    pub semantic: SsrcSemantic,
    pub ids: Seq<u32>,
}

impl DeepView for SsrcGroup {
    type V = SsrcGroupV;

    open spec fn deep_view(&self) -> SsrcGroupV {
        SsrcGroupV { semantic: self.semantic, ids: self.ids@ }
    }
}

/// The group body at `i`: a semantics tag and then numeric ids.
pub open spec fn spec_ssrc_group(s: Seq<char>, i: int) -> Option<(int, SsrcGroupV)> {
    let sem: Option<(int, SsrcSemantic)> = if occurs_at(s, i, "FID"@) {
        Some((i + "FID"@.len(), SsrcSemantic::FID))
    } else if occurs_at(s, i, "FEC"@) {
        Some((i + "FEC"@.len(), SsrcSemantic::FEC))
    } else {
        None
    };
    match sem {
        None => None,
        Some((j, semantic)) => {
            let k = skip_wsp(s, j);
            let (e, ids) = spec_num_list(s, k);
            Some((e, SsrcGroupV { semantic, ids }))
        },
    }
}

/// Read a group body at `i`.
pub fn ssrc_group(input: &str, i: usize) -> (r: Option<(usize, SsrcGroup)>)
    requires
        i <= input@.len(),
    ensures
        match r {
            Some((j, v)) => {
                &&& spec_ssrc_group(input@, i as int) matches Some((je, ve)) && je == j as int
                    && ve == v.deep_view()
                &&& i <= j <= input@.len()
            },
            None => spec_ssrc_group(input@, i as int) is None,
        },
{
    let n = input.unicode_len();
    let sem: Option<(usize, SsrcSemantic)> = if match_lit(input, i, "FID") {
        let m = "FID".unicode_len();
        assert(i + m <= n);
        Some((i + m, SsrcSemantic::FID))
    } else if match_lit(input, i, "FEC") {
        let m = "FEC".unicode_len();
        assert(i + m <= n);
        Some((i + m, SsrcSemantic::FEC))
    } else {
        None
    };
    match sem {
        None => None,
        Some((j, semantic)) => {
            let k = skip_ws(input, j);
            let ids = read_as_numbers(input, k);
            Some((ids.0, SsrcGroup { semantic, ids: ids.1 }))
        },
    }
}

pub open spec fn spec_ssrc_group_line(s: Seq<char>) -> Option<SsrcGroupV> {
    if occurs_at(s, 0, "a=ssrc-group:"@) {
        match spec_ssrc_group(s, "a=ssrc-group:"@.len() as int) {
            Some((e, v)) => {
                if skip_wsp(s, e) == s.len() {
                    Some(v)
                } else {
                    None
                }
            },
            None => None,
        }
    } else {
        None
    }
}

/// Parse an `a=ssrc-group:` line.
pub fn ssrc_group_line(input: &str) -> (r: Option<SsrcGroup>)
    ensures
        r.deep_view() == spec_ssrc_group_line(input@),
{
    if !match_lit(input, 0, "a=ssrc-group:") {
        return None;
    }
    let n = input.unicode_len();
    let m = "a=ssrc-group:".unicode_len();
    assert(m <= n);
    match ssrc_group(input, m) {
        Some((e, v)) => {
            if at_end(input, e) {
                Some(v)
            } else {
                None
            }
        },
        None => None,
    }
}

pub open spec fn spec_render_ssrc_semantic(v: SsrcSemantic) -> Seq<char> {
    match v {
        SsrcSemantic::FID => "FID"@,
        SsrcSemantic::FEC => "FEC"@,
    }
}

/// The ids each preceded by one space.
pub open spec fn spec_render_ids(ids: Seq<u32>) -> Seq<char>
    decreases ids.len(),
{
    if ids.len() == 0 {
        Seq::empty()
    } else {
        spec_render_ids(ids.drop_last()) + " "@ + dec_str(ids.last() as int)
    }
}

pub open spec fn spec_render_ssrc_group(v: SsrcGroupV) -> Seq<char> {
    "a=ssrc-group:"@ + spec_render_ssrc_semantic(v.semantic) + spec_render_ids(v.ids)
}

impl SsrcGroup {
    /// Render as `a=ssrc-group:<semantic> <id> ...`.
    pub fn to_string(&self) -> (r: String)
        ensures
            r@ == spec_render_ssrc_group(self.deep_view()),
    {
        let mut out = "a=ssrc-group:".to_owned();
        match self.semantic {
            SsrcSemantic::FID => out.append("FID"),
            SsrcSemantic::FEC => out.append("FEC"),
        }
        let mut k: usize = 0;
        while k < self.ids.len()
            invariant
                0 <= k <= self.ids@.len(),
                out@ == "a=ssrc-group:"@ + spec_render_ssrc_semantic(self.semantic)
                    + spec_render_ids(self.ids@.take(k as int)),
            decreases self.ids@.len() - k,
        {
            out.append(" ");
            out.append(u32_to_string(self.ids[k]).as_str());
            proof {
                assert(self.ids@.take(k + 1).drop_last() =~= self.ids@.take(k as int));
                assert(self.ids@.take(k + 1).last() == self.ids@[k as int]);
            }
            k += 1;
        }
        proof {
            assert(self.ids@.take(self.ids@.len() as int) =~= self.ids@);
        }
        out
    }

    /// Detach the group into independently owned storage.
    pub fn into_owned(&self) -> (r: SsrcGroup)
        ensures
            r.deep_view() == self.deep_view(),
    {
        SsrcGroup { semantic: self.semantic, ids: clone_numbers(&self.ids) }
    }
}

} // verus!
