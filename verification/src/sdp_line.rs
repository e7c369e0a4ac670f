//! The per-line dispatcher and the splitting of raw SDP text into lines.

use vstd::prelude::*;

use crate::attributes::{attribute_line, spec_attribute_line, spec_render_attribute_line,
    AttributeLine, AttributeLineV};
use crate::lines::media::spec_media_line;
use crate::lines::connection::spec_connection_line;
use crate::lines::origin::spec_origin_line;
use crate::lines::{comment_line, session_line, spec_bandwidth_line, spec_comment_line,
    spec_description_line, spec_email_address_line, spec_name_line, spec_phone_number_line,
    spec_render_session_line, spec_session_line, spec_timing_line, spec_uri_line,
    spec_version_line, SessionLine, SessionLineV};
use crate::parsers::occurs_at;
use crate::parsers::{scan, skip_ws, substring, token_end, StopAt};

verus! {

/// One parsed line of SDP text.
#[derive(Clone, PartialEq, Debug)]
pub enum SdpLine {
    Session(SessionLine),
    Attribute(AttributeLine),
    Comment(String),
}

/// Spec model of [`SdpLine`].
pub ghost enum SdpLineV {
    Session(SessionLineV),
    Attribute(AttributeLineV),
    Comment(Seq<char>),
}

impl DeepView for SdpLine {
    type V = SdpLineV;

    open spec fn deep_view(&self) -> SdpLineV {
        match self {
            SdpLine::Session(x) => SdpLineV::Session(x.deep_view()),
            SdpLine::Attribute(x) => SdpLineV::Attribute(x.deep_view()),
            SdpLine::Comment(x) => SdpLineV::Comment(x@),
        }
    }
}

/// One line dispatched to the session-line grammars, then the attribute
/// grammars, then the comment grammar.
pub open spec fn spec_sdp_line(s: Seq<char>) -> Option<SdpLineV> {
    if spec_session_line(s) is Some {
        Some(SdpLineV::Session(spec_session_line(s).unwrap()))
    } else if spec_attribute_line(s) is Some {
        Some(SdpLineV::Attribute(spec_attribute_line(s).unwrap()))
    } else if spec_comment_line(s) is Some {
        Some(SdpLineV::Comment(spec_comment_line(s).unwrap()))
    } else {
        None
    }
}

/// Parse one line of SDP text.
pub fn sdp_line(input: &str) -> (r: Option<SdpLine>)
    ensures
        r.deep_view() == spec_sdp_line(input@),
{
    if let Some(v) = session_line(input) {
        Some(SdpLine::Session(v))
    } else if let Some(v) = attribute_line(input) {
        Some(SdpLine::Attribute(v))
    } else if let Some(v) = comment_line(input) {
        Some(SdpLine::Comment(v))
    } else {
        None
    }
}

/// What a parsed line serializes back to; comments are dropped.
pub open spec fn spec_render_sdp_line(v: SdpLineV) -> Seq<char> {
    match v {
        SdpLineV::Session(x) => spec_render_session_line(x),
        SdpLineV::Attribute(x) => spec_render_attribute_line(x),
        SdpLineV::Comment(_) => Seq::empty(),
    }
}

impl SdpLine {
    /// Render the line in its canonical form; a comment renders as nothing.
    pub fn to_string(&self) -> (r: String)
        ensures
            r@ == spec_render_sdp_line(self.deep_view()),
    {
        match self {
            SdpLine::Session(x) => x.to_string(),
            SdpLine::Attribute(x) => x.to_string(),
            SdpLine::Comment(_) => String::new(),
        }
    }

    /// Detach the line into independently owned storage.
    pub fn into_owned(&self) -> (r: SdpLine)
        ensures
            r.deep_view() == self.deep_view(),
    {
        match self {
            SdpLine::Session(x) => SdpLine::Session(x.into_owned()),
            SdpLine::Attribute(x) => SdpLine::Attribute(x.into_owned()),
            SdpLine::Comment(x) => SdpLine::Comment(x.clone()),
        }
    }
}


/// The media grammar and the dispatcher agree: a line parses as a media
/// descriptor exactly when the media grammar accepts it, because every other
/// grammar demands a different line tag.
pub proof fn spec_media_line_dispatch(l: Seq<char>)
    ensures
        (spec_sdp_line(l) matches Some(SdpLineV::Session(SessionLineV::Media(_))))
            <==> spec_media_line(l) is Some,
{
    reveal_strlit("v=");
    reveal_strlit("s=");
    reveal_strlit("i=");
    reveal_strlit("b=");
    reveal_strlit("u=");
    reveal_strlit("t=");
    reveal_strlit("p=");
    reveal_strlit("e=");
    reveal_strlit("o=");
    reveal_strlit("c=");
    reveal_strlit("m=");
    if spec_media_line(l) is Some {
        assert(occurs_at(l, 0, "m="@));
        assert(l[0] == 'm') by {
            assert(l.subrange(0, "m="@.len() as int)[0] == l[0]);
        }
        assert(!occurs_at(l, 0, "v="@)) by {
            if occurs_at(l, 0, "v="@) {
                assert(l.subrange(0, "v="@.len() as int)[0] == l[0]);
            }
        }
        assert(!occurs_at(l, 0, "s="@)) by {
            if occurs_at(l, 0, "s="@) {
                assert(l.subrange(0, "s="@.len() as int)[0] == l[0]);
            }
        }
        assert(!occurs_at(l, 0, "i="@)) by {
            if occurs_at(l, 0, "i="@) {
                assert(l.subrange(0, "i="@.len() as int)[0] == l[0]);
            }
        }
        assert(!occurs_at(l, 0, "b="@)) by {
            if occurs_at(l, 0, "b="@) {
                assert(l.subrange(0, "b="@.len() as int)[0] == l[0]);
            }
        }
        assert(!occurs_at(l, 0, "u="@)) by {
            if occurs_at(l, 0, "u="@) {
                assert(l.subrange(0, "u="@.len() as int)[0] == l[0]);
            }
        }
        assert(!occurs_at(l, 0, "t="@)) by {
            if occurs_at(l, 0, "t="@) {
                assert(l.subrange(0, "t="@.len() as int)[0] == l[0]);
            }
        }
        assert(!occurs_at(l, 0, "p="@)) by {
            if occurs_at(l, 0, "p="@) {
                assert(l.subrange(0, "p="@.len() as int)[0] == l[0]);
            }
        }
        assert(!occurs_at(l, 0, "e="@)) by {
            if occurs_at(l, 0, "e="@) {
                assert(l.subrange(0, "e="@.len() as int)[0] == l[0]);
            }
        }
        assert(!occurs_at(l, 0, "o="@)) by {
            if occurs_at(l, 0, "o="@) {
                assert(l.subrange(0, "o="@.len() as int)[0] == l[0]);
            }
        }
        assert(!occurs_at(l, 0, "c="@)) by {
            if occurs_at(l, 0, "c="@) {
                assert(l.subrange(0, "c="@.len() as int)[0] == l[0]);
            }
        }
        assert(spec_version_line(l) is None);
        assert(spec_name_line(l) is None);
        assert(spec_description_line(l) is None);
        assert(spec_bandwidth_line(l) is None);
        assert(spec_uri_line(l) is None);
        assert(spec_timing_line(l) is None);
        assert(spec_phone_number_line(l) is None);
        assert(spec_email_address_line(l) is None);
        assert(spec_origin_line(l) is None);
        assert(spec_connection_line(l) is None);
        assert(spec_session_line(l) == Some(SessionLineV::Media(spec_media_line(l).unwrap())));
    }
}

// ---------------------------------------------------------------------------
// splitting text into lines
// ---------------------------------------------------------------------------

/// One line's content, with a single trailing carriage return removed.
pub open spec fn strip_cr(t: Seq<char>) -> Seq<char> {
    if t.len() > 0 && t.last() == '\r' {
        t.drop_last()
    } else {
        t
    }
}

/// The lines of `s` from `i` on: segments between line feeds, each with one
/// trailing carriage return removed, without a final empty segment.
pub open spec fn spec_split_lines(s: Seq<char>, i: int) -> Seq<Seq<char>>
    decreases s.len() - i,
    when 0 <= i <= s.len()
    via spec_split_lines_dec
{
    if i == s.len() {
        Seq::empty()
    } else {
        let j = token_end(s, i, StopAt::Line);
        let line = strip_cr(s.subrange(i, j));
        if j < s.len() {
            seq![line] + spec_split_lines(s, j + 1)
        } else {
            seq![line]
        }
    }
}

#[via_fn]
proof fn spec_split_lines_dec(s: Seq<char>, i: int) {
    crate::parsers::lemma_token_end_bounds(s, i, StopAt::Line);
}

/// Split raw SDP text into lines.
pub fn split_lines(input: &str) -> (r: Vec<String>)
    ensures
        r.deep_view() == spec_split_lines(input@, 0),
{
    let n = input.unicode_len();
    let mut acc: Vec<String> = Vec::new();
    let mut cur: usize = 0;
    loop
        invariant
            0 <= cur <= n,
            n == input@.len(),
            spec_split_lines(input@, 0) == acc.deep_view() + spec_split_lines(input@, cur as int),
        ensures
            acc.deep_view() == spec_split_lines(input@, 0),
        decreases n - cur,
    {
        if cur == n {
            proof {
                assert(acc.deep_view() + spec_split_lines(input@, cur as int) =~= acc.deep_view());
            }
            break;
        }
        let j = scan(input, cur, StopAt::Line);
        let line = if j > cur && input.get_char(j - 1) == '\r' {
            substring(input, cur, j - 1)
        } else {
            substring(input, cur, j)
        };
        proof {
            let t = input@.subrange(cur as int, j as int);
            if j > cur && input@[j - 1] == '\r' {
                assert(t.last() == input@[j - 1]);
                assert(t.drop_last() =~= input@.subrange(cur as int, j - 1));
            }
            assert(line@ == strip_cr(t));
        }
        let ghost prev = acc.deep_view();
        acc.push(line);
        proof {
            assert(acc.deep_view() =~= prev.push(line@));
        }
        if j < n {
            proof {
                let rest = spec_split_lines(input@, j + 1);
                assert(prev + (seq![line@] + rest) =~= prev.push(line@) + rest);
            }
            cur = j + 1;
        } else {
            proof {
                assert(prev + seq![line@] =~= prev.push(line@));
                assert(spec_split_lines(input@, 0) =~= acc.deep_view() + spec_split_lines(
                    input@,
                    n as int,
                ));
            }
            cur = n;
        }
    }
    acc
}

/// Parse every line of `sdp`, keeping the lines that some grammar accepts.
pub open spec fn spec_sdp_lines(lines: Seq<Seq<char>>) -> Seq<SdpLineV>
    decreases lines.len(),
{
    if lines.len() == 0 {
        Seq::empty()
    } else {
        let rest = spec_sdp_lines(lines.drop_last());
        match spec_sdp_line(lines.last()) {
            Some(v) => rest.push(v),
            None => rest,
        }
    }
}

/// Parse every line of `sdp`, dropping the lines that no grammar accepts.
pub fn sdp_lines(sdp: &str) -> (r: Vec<SdpLine>)
    ensures
        r.deep_view() == spec_sdp_lines(spec_split_lines(sdp@, 0)),
{
    let lines = split_lines(sdp);
    let mut acc: Vec<SdpLine> = Vec::new();
    let mut k: usize = 0;
    while k < lines.len()
        invariant
            0 <= k <= lines@.len(),
            lines.deep_view() == spec_split_lines(sdp@, 0),
            acc.deep_view() == spec_sdp_lines(lines.deep_view().take(k as int)),
        decreases lines@.len() - k,
    {
        proof {
            assert(lines.deep_view().take(k + 1).drop_last() =~= lines.deep_view().take(k as int));
            assert(lines.deep_view().take(k + 1).last() == lines@[k as int]@);
        }
        match sdp_line(lines[k].as_str()) {
            Some(v) => {
                let ghost prev = acc.deep_view();
                acc.push(v);
                proof {
                    assert(acc.deep_view() =~= prev.push(v.deep_view()));
                }
            },
            None => {},
        }
        k += 1;
    }
    proof {
        assert(lines.deep_view().take(lines@.len() as int) =~= lines.deep_view());
    }
    acc
}

/// Parse every line of `sdp`, keeping one entry per line: the parsed value,
/// or `None` for a line that no grammar accepts.
pub fn sdp_lines_all(sdp: &str) -> (r: Vec<Option<SdpLine>>)
    ensures
        ({
            let lines = spec_split_lines(sdp@, 0);
            r.deep_view().len() == lines.len() && forall|k: int|
                0 <= k < lines.len() ==> r.deep_view()[k] == spec_sdp_line(#[trigger] lines[k])
        }),
{
    let lines = split_lines(sdp);
    let mut acc: Vec<Option<SdpLine>> = Vec::new();
    let mut k: usize = 0;
    while k < lines.len()
        invariant
            0 <= k <= lines@.len(),
            lines.deep_view() == spec_split_lines(sdp@, 0),
            acc.deep_view().len() == k,
            forall|q: int|
                0 <= q < k ==> acc.deep_view()[q] == spec_sdp_line(
                    #[trigger] lines.deep_view()[q],
                ),
        decreases lines@.len() - k,
    {
        acc.push(sdp_line(lines[k].as_str()));
        k += 1;
    }
    acc
}

} // verus!
