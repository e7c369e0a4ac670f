//! The order-preserving document model: instead of bucketing lines by kind,
//! each scope stores its parsed lines exactly in input order, so
//! serialization reproduces the line order of the input.

use vstd::prelude::*;

use crate::lines::media::{spec_render_media, Media, MediaV};
use crate::lines::{SessionLine, SessionLineV};
use crate::sdp_line::{sdp_line, spec_render_sdp_line, spec_sdp_line, spec_split_lines,
    split_lines, SdpLine, SdpLineV};
use crate::session::{SdpError, SdpErrorV};

verus! {

/// One media section of the order-preserving model: the descriptor and the
/// parsed lines that follow it, in input order.
#[derive(Clone, PartialEq, Debug)]
pub struct LazyMediaSection {
    pub mline: Media,
    pub lines: Vec<SdpLine>,
}

/// Spec model of [`LazyMediaSection`].
#[verifier::ext_equal]
pub ghost struct LazyMediaSectionV {
    pub mline: MediaV,
    pub lines: Seq<SdpLineV>,
}

impl DeepView for LazyMediaSection {
    type V = LazyMediaSectionV;

    open spec fn deep_view(&self) -> LazyMediaSectionV {
        LazyMediaSectionV { mline: self.mline.deep_view(), lines: self.lines.deep_view() }
    }
}

/// The order-preserving document: the pre-section lines and the sections,
/// all in input order.
#[derive(Clone, PartialEq, Debug)]
pub struct LazySession {
    pub lines: Vec<SdpLine>,
    pub media: Vec<LazyMediaSection>,
}

/// Spec model of [`LazySession`].
#[verifier::ext_equal]
pub ghost struct LazySessionV {
    pub lines: Seq<SdpLineV>,
    pub media: Seq<LazyMediaSectionV>,
}

impl DeepView for LazySession {
    type V = LazySessionV;

    open spec fn deep_view(&self) -> LazySessionV {
        LazySessionV { lines: self.lines.deep_view(), media: self.media.deep_view() }
    }
}

// ---------------------------------------------------------------------------
// assembling
// ---------------------------------------------------------------------------

/// The fold state: closed scopes and the open section, if any.
pub ghost struct LazyState {
    pub lines: Seq<SdpLineV>,
    pub media: Seq<LazyMediaSectionV>,
    pub cur: Option<LazyMediaSectionV>,
}

pub open spec fn spec_lazy_init() -> LazyState {
    LazyState { lines: Seq::empty(), media: Seq::empty(), cur: None }
}

pub open spec fn spec_lazy_finish(st: LazyState) -> LazySessionV {
    match st.cur {
        Some(m) => LazySessionV { lines: st.lines, media: st.media.push(m) },
        None => LazySessionV { lines: st.lines, media: st.media },
    }
}

/// Fold the lines from `idx` on, keeping every parsed line in its scope in
/// input order.  Only a per-line dispatch failure can be surfaced (strict)
/// or skipped (lenient); nothing else is ever rejected.
pub open spec fn spec_lazy_assemble(
    lines: Seq<Seq<char>>,
    idx: int,
    st: LazyState,
    strict: bool,
) -> Result<LazySessionV, SdpErrorV>
    decreases lines.len() - idx,
    when 0 <= idx <= lines.len()
{
    if idx == lines.len() {
        Ok(spec_lazy_finish(st))
    } else {
        match spec_sdp_line(lines[idx]) {
            None => if strict {
                Err(SdpErrorV::ParseFailed { line_number: idx, text: lines[idx] })
            } else {
                spec_lazy_assemble(lines, idx + 1, st, strict)
            },
            Some(SdpLineV::Session(SessionLineV::Media(m))) => {
                let closed = match st.cur {
                    Some(c) => st.media.push(c),
                    None => st.media,
                };
                spec_lazy_assemble(
                    lines,
                    idx + 1,
                    LazyState {
                        lines: st.lines,
                        media: closed,
                        cur: Some(LazyMediaSectionV { mline: m, lines: Seq::empty() }),
                    },
                    strict,
                )
            },
            Some(l) => match st.cur {
                Some(c) => spec_lazy_assemble(
                    lines,
                    idx + 1,
                    LazyState {
                        cur: Some(LazyMediaSectionV { lines: c.lines.push(l), ..c }),
                        ..st
                    },
                    strict,
                ),
                None => spec_lazy_assemble(
                    lines,
                    idx + 1,
                    LazyState { lines: st.lines.push(l), ..st },
                    strict,
                ),
            },
        }
    }
}

pub open spec fn spec_lazy_parse(s: Seq<char>, strict: bool) -> Result<LazySessionV, SdpErrorV> {
    spec_lazy_assemble(spec_split_lines(s, 0), 0, spec_lazy_init(), strict)
}

/// Under the lenient policy the lazy assembler always produces a document.
pub proof fn lemma_lazy_lenient_always_ok(lines: Seq<Seq<char>>, idx: int, st: LazyState)
    requires
        0 <= idx <= lines.len(),
    ensures
        spec_lazy_assemble(lines, idx, st, false) is Ok,
    decreases lines.len() - idx,
{
    if idx < lines.len() {
        match spec_sdp_line(lines[idx]) {
            None => lemma_lazy_lenient_always_ok(lines, idx + 1, st),
            Some(SdpLineV::Session(SessionLineV::Media(m))) => {
                let closed = match st.cur {
                    Some(c) => st.media.push(c),
                    None => st.media,
                };
                lemma_lazy_lenient_always_ok(
                    lines,
                    idx + 1,
                    LazyState {
                        lines: st.lines,
                        media: closed,
                        cur: Some(LazyMediaSectionV { mline: m, lines: Seq::empty() }),
                    },
                );
            },
            Some(l) => match st.cur {
                Some(c) => lemma_lazy_lenient_always_ok(
                    lines,
                    idx + 1,
                    LazyState {
                        cur: Some(LazyMediaSectionV { lines: c.lines.push(l), ..c }),
                        ..st
                    },
                ),
                None => lemma_lazy_lenient_always_ok(
                    lines,
                    idx + 1,
                    LazyState { lines: st.lines.push(l), ..st },
                ),
            },
        }
    }
}

fn lazy_assemble(lines: &Vec<String>, strict: bool) -> (r: Result<LazySession, SdpError>)
    ensures
        match r {
            Ok(s) => spec_lazy_assemble(lines.deep_view(), 0, spec_lazy_init(), strict) == Ok::<
                LazySessionV,
                SdpErrorV,
            >(s.deep_view()),
            Err(e) => spec_lazy_assemble(lines.deep_view(), 0, spec_lazy_init(), strict) == Err::<
                LazySessionV,
                SdpErrorV,
            >(e.deep_view()),
        },
{
    let mut top: Vec<SdpLine> = Vec::new();
    let mut media: Vec<LazyMediaSection> = Vec::new();
    let mut cur: Option<LazyMediaSection> = None;
    let mut idx: usize = 0;
    proof {
        assert(top.deep_view() =~= Seq::<SdpLineV>::empty());
        assert(media.deep_view() =~= Seq::<LazyMediaSectionV>::empty());
    }
    loop
        invariant
            0 <= idx <= lines@.len(),
            spec_lazy_assemble(lines.deep_view(), 0, spec_lazy_init(), strict)
                == spec_lazy_assemble(
                lines.deep_view(),
                idx as int,
                LazyState {
                    lines: top.deep_view(),
                    media: media.deep_view(),
                    cur: cur.deep_view(),
                },
                strict,
            ),
        ensures
            idx == lines@.len(),
            spec_lazy_assemble(lines.deep_view(), 0, spec_lazy_init(), strict)
                == spec_lazy_assemble(
                lines.deep_view(),
                idx as int,
                LazyState {
                    lines: top.deep_view(),
                    media: media.deep_view(),
                    cur: cur.deep_view(),
                },
                strict,
            ),
        decreases lines@.len() - idx,
    {
        if idx == lines.len() {
            break;
        }
        proof {
            assert(lines.deep_view()[idx as int] == lines@[idx as int]@);
        }
        match sdp_line(lines[idx].as_str()) {
            None => {
                if strict {
                    return Err(
                        SdpError::ParseFailed { line_number: idx, text: lines[idx].clone() },
                    );
                }
            },
            Some(SdpLine::Session(SessionLine::Media(m))) => {
                let prev_cur = cur;
                match prev_cur {
                    Some(c) => {
                        let ghost pm = media.deep_view();
                        let ghost cv = c.deep_view();
                        media.push(c);
                        proof {
                            assert(media.deep_view() =~= pm.push(cv));
                        }
                    },
                    None => {},
                }
                let fresh: Vec<SdpLine> = Vec::new();
                proof {
                    assert(fresh.deep_view() =~= Seq::<SdpLineV>::empty());
                }
                cur = Some(LazyMediaSection { mline: m, lines: fresh });
            },
            Some(other) => {
                let ghost lv = other.deep_view();
                match &mut cur {
                    Some(c) => {
                        let ghost pl = c.lines.deep_view();
                        c.lines.push(other);
                        proof {
                            assert(c.lines.deep_view() =~= pl.push(lv));
                        }
                    },
                    None => {
                        let ghost pl = top.deep_view();
                        top.push(other);
                        proof {
                            assert(top.deep_view() =~= pl.push(lv));
                        }
                    },
                }
            },
        }
        idx += 1;
    }
    let prev_cur = cur;
    match prev_cur {
        Some(c) => {
            let ghost pm = media.deep_view();
            let ghost cv = c.deep_view();
            media.push(c);
            proof {
                assert(media.deep_view() =~= pm.push(cv));
            }
        },
        None => {},
    }
    Ok(LazySession { lines: top, media })
}

impl LazySession {
    /// Parse under the strict policy.
    pub fn try_from_str(sdp: &str) -> (r: Result<LazySession, SdpError>)
        ensures
            match r {
                Ok(s) => spec_lazy_parse(sdp@, true) == Ok::<LazySessionV, SdpErrorV>(
                    s.deep_view(),
                ),
                Err(e) => spec_lazy_parse(sdp@, true) == Err::<LazySessionV, SdpErrorV>(
                    e.deep_view(),
                ),
            },
    {
        let lines = split_lines(sdp);
        lazy_assemble(&lines, true)
    }

    /// Parse under the lenient policy.
    pub fn read_str(sdp: &str) -> (r: LazySession)
        ensures
            spec_lazy_parse(sdp@, false) == Ok::<LazySessionV, SdpErrorV>(r.deep_view()),
    {
        let lines = split_lines(sdp);
        proof {
            lemma_lazy_lenient_always_ok(lines.deep_view(), 0, spec_lazy_init());
        }
        match lazy_assemble(&lines, false) {
            Ok(s) => s,
            Err(_) => {
                proof {
                    assert(false);
                }
                LazySession { lines: Vec::new(), media: Vec::new() }
            },
        }
    }
}

// ---------------------------------------------------------------------------
// the line-ownership invariant
// ---------------------------------------------------------------------------

/// Whether a parsed line is a media descriptor.
pub open spec fn spec_is_media(l: SdpLineV) -> bool {
    l matches SdpLineV::Session(SessionLineV::Media(_))
}

/// The lines of `s` that some grammar accepts, in input order.
pub open spec fn spec_parsed_lines(lines: Seq<Seq<char>>, idx: int) -> Seq<SdpLineV>
    decreases lines.len() - idx,
    when 0 <= idx <= lines.len()
{
    if idx == lines.len() {
        Seq::empty()
    } else {
        match spec_sdp_line(lines[idx]) {
            Some(l) => seq![l] + spec_parsed_lines(lines, idx + 1),
            None => spec_parsed_lines(lines, idx + 1),
        }
    }
}

/// One section flattened back into a line stream: its descriptor line and
/// then its own lines.
pub open spec fn spec_section_flat(m: LazyMediaSectionV) -> Seq<SdpLineV> {
    seq![SdpLineV::Session(SessionLineV::Media(m.mline))] + m.lines
}

pub open spec fn spec_sections_flat(ms: Seq<LazyMediaSectionV>) -> Seq<SdpLineV>
    decreases ms.len(),
{
    if ms.len() == 0 {
        Seq::empty()
    } else {
        spec_sections_flat(ms.drop_last()) + spec_section_flat(ms.last())
    }
}

/// The whole document flattened back into a line stream.
pub open spec fn spec_lazy_flatten(s: LazySessionV) -> Seq<SdpLineV> {
    s.lines + spec_sections_flat(s.media)
}

/// No media descriptor hides in the stored line lists.
pub open spec fn spec_no_media_inside(s: LazySessionV) -> bool {
    &&& forall|k: int| 0 <= k < s.lines.len() ==> !spec_is_media(#[trigger] s.lines[k])
    &&& forall|j: int, k: int|
        0 <= j < s.media.len() && 0 <= k < s.media[j].lines.len() ==> !spec_is_media(
            #[trigger] s.media[j].lines[k],
        )
}

pub open spec fn spec_state_flat(st: LazyState) -> Seq<SdpLineV> {
    st.lines + spec_sections_flat(st.media) + (match st.cur {
        Some(c) => spec_section_flat(c),
        None => Seq::<SdpLineV>::empty(),
    })
}

pub open spec fn spec_state_no_media(st: LazyState) -> bool {
    &&& forall|k: int| 0 <= k < st.lines.len() ==> !spec_is_media(#[trigger] st.lines[k])
    &&& forall|j: int, k: int|
        0 <= j < st.media.len() && 0 <= k < st.media[j].lines.len() ==> !spec_is_media(
            #[trigger] st.media[j].lines[k],
        )
    &&& match st.cur {
        Some(c) => forall|k: int| 0 <= k < c.lines.len() ==> !spec_is_media(#[trigger] c.lines[k]),
        None => true,
    }
}

/// Folding keeps every parsed line, in order, in exactly one scope: the
/// document flattens back to the parsed line stream, and only descriptor
/// lines separate the scopes.
#[verifier::rlimit(100)]
pub proof fn lemma_lazy_line_ownership(lines: Seq<Seq<char>>, idx: int, st: LazyState)
    requires
        0 <= idx <= lines.len(),
        spec_state_no_media(st),
        st.cur is None ==> st.media.len() == 0,
    ensures
        spec_lazy_assemble(lines, idx, st, false) matches Ok(lz) ==> {
            &&& spec_lazy_flatten(lz) == spec_state_flat(st) + spec_parsed_lines(lines, idx)
            &&& spec_no_media_inside(lz)
        },
    decreases lines.len() - idx,
{
    if idx == lines.len() {
        let lz = spec_lazy_finish(st);
        match st.cur {
            Some(c) => {
                assert(st.media.push(c).drop_last() =~= st.media);
                assert(st.media.push(c).last() == c);
                assert(spec_sections_flat(st.media.push(c)) == spec_sections_flat(st.media)
                    + spec_section_flat(c));
                assert(spec_lazy_flatten(lz) =~= spec_state_flat(st) + spec_parsed_lines(
                    lines,
                    idx,
                ));
                assert forall|j: int, k: int|
                    0 <= j < lz.media.len() && 0 <= k < lz.media[j].lines.len() implies !spec_is_media(
                    #[trigger] lz.media[j].lines[k],
                ) by {
                    if j < st.media.len() {
                        assert(lz.media[j] == st.media[j]);
                    } else {
                        assert(lz.media[j] == c);
                    }
                }
            },
            None => {
                assert(spec_lazy_flatten(lz) =~= spec_state_flat(st) + spec_parsed_lines(
                    lines,
                    idx,
                ));
            },
        }
    } else {
        match spec_sdp_line(lines[idx]) {
            None => {
                lemma_lazy_line_ownership(lines, idx + 1, st);
            },
            Some(SdpLineV::Session(SessionLineV::Media(m))) => {
                let closed = match st.cur {
                    Some(c) => st.media.push(c),
                    None => st.media,
                };
                let sec = LazyMediaSectionV { mline: m, lines: Seq::empty() };
                let st2 = LazyState { lines: st.lines, media: closed, cur: Some(sec) };
                assert(spec_state_no_media(st2)) by {
                    match st.cur {
                        Some(c) => {
                            assert forall|j: int, k: int|
                                0 <= j < closed.len() && 0 <= k < closed[j].lines.len() implies !spec_is_media(
                                #[trigger] closed[j].lines[k],
                            ) by {
                                if j < st.media.len() {
                                    assert(closed[j] == st.media[j]);
                                } else {
                                    assert(closed[j] == c);
                                }
                            }
                        },
                        None => {},
                    }
                }
                lemma_lazy_line_ownership(lines, idx + 1, st2);
                let res = spec_lazy_assemble(lines, idx, st, false);
                if res is Ok {
                    let lz = res->Ok_0;
                    match st.cur {
                        Some(c) => {
                            assert(st.media.push(c).drop_last() =~= st.media);
                            assert(spec_sections_flat(st.media.push(c)) == spec_sections_flat(
                                st.media,
                            ) + spec_section_flat(c));
                        },
                        None => {},
                    }
                    assert(spec_section_flat(sec) =~= seq![
                        SdpLineV::Session(SessionLineV::Media(m)),
                    ]);
                    assert(spec_state_flat(st2) =~= spec_state_flat(st) + seq![
                        SdpLineV::Session(SessionLineV::Media(m)),
                    ]);
                    assert(spec_parsed_lines(lines, idx) =~= seq![
                        SdpLineV::Session(SessionLineV::Media(m)),
                    ] + spec_parsed_lines(lines, idx + 1));
                    assert(spec_lazy_flatten(lz) =~= spec_state_flat(st) + spec_parsed_lines(
                        lines,
                        idx,
                    ));
                }
            },
            Some(l) => {
                match st.cur {
                    Some(c) => {
                        let c2 = LazyMediaSectionV { lines: c.lines.push(l), ..c };
                        let st2 = LazyState { cur: Some(c2), ..st };
                        assert(spec_state_no_media(st2)) by {
                            assert forall|k: int|
                                0 <= k < c2.lines.len() implies !spec_is_media(
                                #[trigger] c2.lines[k],
                            ) by {
                                if k < c.lines.len() {
                                    assert(c2.lines[k] == c.lines[k]);
                                } else {
                                    assert(c2.lines[k] == l);
                                }
                            }
                        }
                        lemma_lazy_line_ownership(lines, idx + 1, st2);
                        let res = spec_lazy_assemble(lines, idx, st, false);
                        if res is Ok {
                            assert(spec_section_flat(c2) =~= spec_section_flat(c).push(l));
                            assert(spec_state_flat(st2) =~= st.lines + spec_sections_flat(st.media)
                                + spec_section_flat(c).push(l));
                            assert(st.lines + spec_sections_flat(st.media) + spec_section_flat(
                                c,
                            ).push(l) =~= spec_state_flat(st).push(l));
                            assert(spec_state_flat(st2) == spec_state_flat(st).push(l));
                            assert(spec_parsed_lines(lines, idx) =~= seq![l] + spec_parsed_lines(
                                lines,
                                idx + 1,
                            ));
                            assert(spec_state_flat(st).push(l) + spec_parsed_lines(lines, idx + 1)
                                =~= spec_state_flat(st) + spec_parsed_lines(lines, idx));
                        }
                    },
                    None => {
                        let st2 = LazyState { lines: st.lines.push(l), ..st };
                        assert(spec_state_no_media(st2)) by {
                            assert forall|k: int|
                                0 <= k < st2.lines.len() implies !spec_is_media(
                                #[trigger] st2.lines[k],
                            ) by {
                                if k < st.lines.len() {
                                    assert(st2.lines[k] == st.lines[k]);
                                } else {
                                    assert(st2.lines[k] == l);
                                }
                            }
                        }
                        lemma_lazy_line_ownership(lines, idx + 1, st2);
                        let res = spec_lazy_assemble(lines, idx, st, false);
                        if res is Ok {
                            assert(spec_sections_flat(st.media) =~= Seq::<SdpLineV>::empty());
                            assert(spec_state_flat(st2) =~= spec_state_flat(st).push(l));
                            assert(spec_parsed_lines(lines, idx) =~= seq![l] + spec_parsed_lines(
                                lines,
                                idx + 1,
                            ));
                            assert(spec_state_flat(st).push(l) + spec_parsed_lines(lines, idx + 1)
                                =~= spec_state_flat(st) + spec_parsed_lines(lines, idx));
                        }
                    },
                }
            },
        }
    }
}

/// The line-ownership invariant: in a leniently parsed order-preserving
/// document, every parsed line stands in exactly one scope — the lines
/// before the first descriptor in the session, every line between two
/// descriptors in exactly the section the first of them opened — and the
/// document flattens back to the parsed line stream in input order.
pub proof fn lemma_line_ownership(sdp: Seq<char>)
    ensures
        spec_lazy_parse(sdp, false) matches Ok(lz) ==> {
            &&& spec_lazy_flatten(lz) == spec_parsed_lines(spec_split_lines(sdp, 0), 0)
            &&& spec_no_media_inside(lz)
        },
{
    lemma_lazy_line_ownership(spec_split_lines(sdp, 0), 0, spec_lazy_init());
    if spec_lazy_parse(sdp, false) matches Ok(lz) {
        assert(spec_state_flat(spec_lazy_init()) + spec_parsed_lines(spec_split_lines(sdp, 0), 0)
            =~= spec_parsed_lines(spec_split_lines(sdp, 0), 0));
    }
}

/// Rendering distributes over concatenation of line streams.
proof fn lemma_render_line_seq_concat(a: Seq<SdpLineV>, b: Seq<SdpLineV>)
    ensures
        spec_render_line_seq(a + b) == spec_render_line_seq(a) + spec_render_line_seq(b),
    decreases b.len(),
{
    if b.len() == 0 {
        assert(a + b =~= a);
        assert(spec_render_line_seq(a) + spec_render_line_seq(b) =~= spec_render_line_seq(a));
    } else {
        lemma_render_line_seq_concat(a, b.drop_last());
        assert((a + b).drop_last() =~= a + b.drop_last());
        assert((a + b).last() == b.last());
        match b.last() {
            SdpLineV::Comment(_) => {
                assert(spec_render_line_seq(a + b) =~= spec_render_line_seq(a)
                    + spec_render_line_seq(b));
            },
            _ => {
                assert(spec_render_line_seq(a + b) =~= spec_render_line_seq(a)
                    + spec_render_line_seq(b));
            },
        }
    }
}

proof fn lemma_render_sections_flat(ms: Seq<LazyMediaSectionV>)
    ensures
        spec_render_lazy_sections(ms) == spec_render_line_seq(spec_sections_flat(ms)),
    decreases ms.len(),
{
    if ms.len() > 0 {
        lemma_render_sections_flat(ms.drop_last());
        let c = ms.last();
        lemma_render_line_seq_concat(spec_sections_flat(ms.drop_last()), spec_section_flat(c));
        lemma_render_line_seq_concat(
            seq![SdpLineV::Session(SessionLineV::Media(c.mline))],
            c.lines,
        );
        let one = seq![SdpLineV::Session(SessionLineV::Media(c.mline))];
        assert(one.last() == SdpLineV::Session(SessionLineV::Media(c.mline)));
        assert(one.drop_last() =~= Seq::<SdpLineV>::empty());
        assert(spec_render_line_seq(one.drop_last()) =~= Seq::<char>::empty());
        assert(spec_render_sdp_line(one.last()) == spec_render_media(c.mline));
        assert(spec_render_line_seq(one) =~= spec_render_media(c.mline) + "\n"@);
        assert(spec_render_lazy_section(c) =~= spec_render_line_seq(spec_section_flat(c)));
    }
}

/// Serializing the order-preserving document is exactly rendering its
/// flattened line stream: nothing is reordered, added or dropped but
/// comments.
pub proof fn lemma_lazy_render_is_flatten(lz: LazySessionV)
    ensures
        spec_render_lazy_session(lz) == spec_render_line_seq(spec_lazy_flatten(lz)),
{
    lemma_render_sections_flat(lz.media);
    lemma_render_line_seq_concat(lz.lines, spec_sections_flat(lz.media));
}

/// Serializing a leniently parsed order-preserving document renders exactly
/// the parsed lines of the input, in input order.
pub proof fn lemma_lazy_serialization_order(sdp: Seq<char>)
    ensures
        spec_lazy_parse(sdp, false) matches Ok(lz) ==> spec_render_lazy_session(lz)
            == spec_render_line_seq(spec_parsed_lines(spec_split_lines(sdp, 0), 0)),
{
    lemma_line_ownership(sdp);
    let r = spec_lazy_parse(sdp, false);
    if r is Ok {
        lemma_lazy_render_is_flatten(r->Ok_0);
    }
}

// ---------------------------------------------------------------------------
// serialization and detachment
// ---------------------------------------------------------------------------

/// A stored line stream rendered back, one line per entry; comments render
/// as nothing.
pub open spec fn spec_render_line_seq(ls: Seq<SdpLineV>) -> Seq<char>
    decreases ls.len(),
{
    if ls.len() == 0 {
        Seq::empty()
    } else {
        spec_render_line_seq(ls.drop_last()) + (match ls.last() {
            SdpLineV::Comment(_) => Seq::<char>::empty(),
            other => spec_render_sdp_line(other) + "\n"@,
        })
    }
}

pub open spec fn spec_render_lazy_section(m: LazyMediaSectionV) -> Seq<char> {
    spec_render_media(m.mline) + "\n"@ + spec_render_line_seq(m.lines)
}

pub open spec fn spec_render_lazy_sections(ms: Seq<LazyMediaSectionV>) -> Seq<char>
    decreases ms.len(),
{
    if ms.len() == 0 {
        Seq::empty()
    } else {
        spec_render_lazy_sections(ms.drop_last()) + spec_render_lazy_section(ms.last())
    }
}

/// The whole order-preserving document rendered: exactly the stored lines,
/// in order.
pub open spec fn spec_render_lazy_session(s: LazySessionV) -> Seq<char> {
    spec_render_line_seq(s.lines) + spec_render_lazy_sections(s.media)
}

/// Append a stored line stream to `out`.
fn append_line_seq(out: &mut String, items: &Vec<SdpLine>)
    ensures
        final(out)@ == old(out)@ + spec_render_line_seq(items.deep_view()),
{
    let ghost base = out@;
    let mut k: usize = 0;
    while k < items.len()
        invariant
            0 <= k <= items@.len(),
            out@ == base + spec_render_line_seq(items.deep_view().take(k as int)),
        decreases items@.len() - k,
    {
        proof {
            let iv = items.deep_view();
            assert(iv.take(k + 1).drop_last() =~= iv.take(k as int));
            assert(iv.take(k + 1).last() == items@[k as int].deep_view());
        }
        match &items[k] {
            SdpLine::Comment(_) => {
                proof {
                    assert(out@ =~= base + spec_render_line_seq(
                        items.deep_view().take(k + 1),
                    ));
                }
            },
            other => {
                out.append(other.to_string().as_str());
                out.append("\n");
                proof {
                    assert(out@ =~= base + spec_render_line_seq(
                        items.deep_view().take(k + 1),
                    ));
                }
            },
        }
        k += 1;
    }
    proof {
        assert(items.deep_view().take(items@.len() as int) =~= items.deep_view());
    }
}

impl LazyMediaSection {
    /// Render the section: its descriptor and then its lines, in order.
    pub fn to_string(&self) -> (r: String)
        ensures
            r@ == spec_render_lazy_section(self.deep_view()),
    {
        let mut out = self.mline.to_string();
        out.append("\n");
        append_line_seq(&mut out, &self.lines);
        out
    }

    /// Detach the section into independently owned storage.
    pub fn into_owned(&self) -> (r: LazyMediaSection)
        ensures
            r.deep_view() == self.deep_view(),
    {
        let mut lines: Vec<SdpLine> = Vec::new();
        let mut k: usize = 0;
        while k < self.lines.len()
            invariant
                0 <= k <= self.lines@.len(),
                lines.deep_view() =~= self.lines.deep_view().take(k as int),
            decreases self.lines@.len() - k,
        {
            let ghost prev = lines.deep_view();
            let item = self.lines[k].into_owned();
            lines.push(item);
            proof {
                assert(lines.deep_view() =~= prev.push(self.lines.deep_view()[k as int]));
                assert(prev.push(self.lines.deep_view()[k as int]) =~= self.lines.deep_view().take(
                    k + 1,
                ));
            }
            k += 1;
        }
        proof {
            assert(self.lines.deep_view().take(self.lines@.len() as int)
                =~= self.lines.deep_view());
        }
        let r = LazyMediaSection { mline: self.mline.into_owned(), lines };
        proof {
            assert(r.deep_view() =~= self.deep_view());
        }
        r
    }
}

impl LazySession {
    /// Render the whole document: exactly the stored lines, in order.
    pub fn to_string(&self) -> (r: String)
        ensures
            r@ == spec_render_lazy_session(self.deep_view()),
    {
        let mut out = String::new();
        append_line_seq(&mut out, &self.lines);
        let ghost head = out@;
        let mut k: usize = 0;
        while k < self.media.len()
            invariant
                0 <= k <= self.media@.len(),
                out@ == head + spec_render_lazy_sections(self.media.deep_view().take(k as int)),
            decreases self.media@.len() - k,
        {
            out.append(self.media[k].to_string().as_str());
            proof {
                let mv = self.media.deep_view();
                assert(mv.take(k + 1).drop_last() =~= mv.take(k as int));
                assert(mv.take(k + 1).last() == mv[k as int]);
                assert(out@ =~= head + spec_render_lazy_sections(mv.take(k + 1)));
            }
            k += 1;
        }
        proof {
            assert(self.media.deep_view().take(self.media@.len() as int)
                =~= self.media.deep_view());
            assert(out@ =~= spec_render_lazy_session(self.deep_view()));
        }
        out
    }

    /// Detach the whole document into independently owned storage.
    pub fn into_owned(&self) -> (r: LazySession)
        ensures
            r.deep_view() == self.deep_view(),
    {
        let mut lines: Vec<SdpLine> = Vec::new();
        let mut k: usize = 0;
        while k < self.lines.len()
            invariant
                0 <= k <= self.lines@.len(),
                lines.deep_view() =~= self.lines.deep_view().take(k as int),
            decreases self.lines@.len() - k,
        {
            let ghost prev = lines.deep_view();
            let item = self.lines[k].into_owned();
            lines.push(item);
            proof {
                assert(lines.deep_view() =~= prev.push(self.lines.deep_view()[k as int]));
                assert(prev.push(self.lines.deep_view()[k as int]) =~= self.lines.deep_view().take(
                    k + 1,
                ));
            }
            k += 1;
        }
        let mut media: Vec<LazyMediaSection> = Vec::new();
        let mut k: usize = 0;
        while k < self.media.len()
            invariant
                0 <= k <= self.media@.len(),
                media.deep_view() =~= self.media.deep_view().take(k as int),
            decreases self.media@.len() - k,
        {
            let ghost prev = media.deep_view();
            let item = self.media[k].into_owned();
            media.push(item);
            proof {
                assert(media.deep_view() =~= prev.push(self.media.deep_view()[k as int]));
                assert(prev.push(self.media.deep_view()[k as int]) =~= self.media.deep_view().take(
                    k + 1,
                ));
            }
            k += 1;
        }
        proof {
            assert(self.lines.deep_view().take(self.lines@.len() as int)
                =~= self.lines.deep_view());
            assert(self.media.deep_view().take(self.media@.len() as int)
                =~= self.media.deep_view());
        }
        let r = LazySession { lines, media };
        proof {
            assert(r.deep_view() =~= self.deep_view());
        }
        r
    }
}

} // verus!
