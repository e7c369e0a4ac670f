//! The field-bucketed document model and the assembler that folds a line
//! stream into it.
//!
//! The assembler walks the lines once.  A media descriptor always opens a new
//! section; every other line goes to the current scope.  A per-line dispatch
//! failure, a second occurrence of a singleton field, and a misplaced
//! session-level line are surfaced under the strict policy and skipped under
//! the lenient one; a recognized line is never silently overwritten.

use vstd::prelude::*;

use crate::attributes::candidate::{Candidate, CandidateProtocol, CandidateV};
use crate::attributes::{AttributeLine, AttributeLineV};
use crate::lines::connection::{spec_render_connection, Connection, ConnectionV};
use crate::lines::media::MediaV;
use crate::lines::origin::{spec_render_origin, Origin, OriginV};
use crate::lines::{spec_render_bandwidth, spec_render_description,
    spec_render_email, spec_render_name, spec_render_phone,
    spec_render_timing, spec_render_uri, spec_render_version, BandWidth, EmailAddress,
    PhoneNumber, SessionInformation, SessionLine, SessionLineV, SessionName, Timing, Uri, Version};
use crate::media_section::{append_attribute_lines, spec_add_media_line, spec_attribute_lines,
    spec_render_media_section, spec_section_of, MediaSection, MediaSectionV};
use crate::sdp_line::{sdp_line, spec_media_line_dispatch, spec_sdp_line, spec_split_lines,
    split_lines, SdpLine, SdpLineV};

verus! {

// ---------------------------------------------------------------------------
// the document root
// ---------------------------------------------------------------------------

/// The root document: one optional slot per singleton session-line kind, the
/// ordered session-scoped attributes, and the ordered media sections.
#[derive(Clone, PartialEq, Debug)]
pub struct Session {
    pub version: Option<Version>,
    pub name: Option<SessionName>,
    pub timing: Option<Timing>,
    pub origin: Option<Origin>,
    pub band_width: Option<BandWidth>,
    pub uri: Option<Uri>,
    pub phone_number: Option<PhoneNumber>,
    pub email_address: Option<EmailAddress>,
    pub connection: Option<Connection>,
    pub description: Option<SessionInformation>,
    pub attributes: Vec<AttributeLine>,
    pub media: Vec<MediaSection>,
}

/// Spec model of [`Session`].
#[verifier::ext_equal]
pub ghost struct SessionV {
    pub version: Option<Version>,
    pub name: Option<Seq<char>>,
    pub timing: Option<Timing>,
    pub origin: Option<OriginV>,
    pub band_width: Option<BandWidth>,
    pub uri: Option<Seq<char>>,
    pub phone_number: Option<Seq<char>>,
    pub email_address: Option<Seq<char>>,
    pub connection: Option<ConnectionV>,
    pub description: Option<Seq<char>>,
    pub attributes: Seq<AttributeLineV>,
    pub media: Seq<MediaSectionV>,
}

impl DeepView for Session {
    type V = SessionV;

    open spec fn deep_view(&self) -> SessionV {
        SessionV {
            version: self.version.deep_view(),
            name: self.name.deep_view(),
            timing: self.timing.deep_view(),
            origin: self.origin.deep_view(),
            band_width: self.band_width,
            uri: self.uri.deep_view(),
            phone_number: self.phone_number.deep_view(),
            email_address: self.email_address.deep_view(),
            connection: self.connection.deep_view(),
            description: self.description.deep_view(),
            attributes: self.attributes.deep_view(),
            media: self.media.deep_view(),
        }
    }
}

/// The document the assembler starts from.
pub open spec fn spec_empty_session() -> SessionV {
    SessionV {
        version: None,
        name: None,
        timing: None,
        origin: None,
        band_width: None,
        uri: None,
        phone_number: None,
        email_address: None,
        connection: None,
        description: None,
        attributes: Seq::empty(),
        media: Seq::empty(),
    }
}

/// Route one parsed line into the session scope.  `None` stands for a line
/// the scope must reject: a second occurrence of a singleton field, or a
/// media descriptor (the assembler handles those itself).
pub open spec fn spec_add_session_line(s: SessionV, l: SdpLineV) -> Option<SessionV> {
    match l {
        SdpLineV::Comment(_) => Some(s),
        SdpLineV::Attribute(a) => Some((SessionV { attributes: s.attributes.push(a), ..s })),
        SdpLineV::Session(sl) => match sl {
            SessionLineV::Version(v) => if s.version is None {
                Some(SessionV { version: Some(v), ..s })
            } else {
                None
            },
            SessionLineV::Name(v) => if s.name is None {
                Some(SessionV { name: Some(v), ..s })
            } else {
                None
            },
            SessionLineV::Timing(v) => if s.timing is None {
                Some(SessionV { timing: Some(v), ..s })
            } else {
                None
            },
            SessionLineV::Origin(v) => if s.origin is None {
                Some(SessionV { origin: Some(v), ..s })
            } else {
                None
            },
            SessionLineV::BandWidth(v) => if s.band_width is None {
                Some(SessionV { band_width: Some(v), ..s })
            } else {
                None
            },
            SessionLineV::Uri(v) => if s.uri is None {
                Some(SessionV { uri: Some(v), ..s })
            } else {
                None
            },
            SessionLineV::PhoneNumber(v) => if s.phone_number is None {
                Some(SessionV { phone_number: Some(v), ..s })
            } else {
                None
            },
            SessionLineV::EmailAddress(v) => if s.email_address is None {
                Some(SessionV { email_address: Some(v), ..s })
            } else {
                None
            },
            SessionLineV::Connection(v) => if s.connection is None {
                Some(SessionV { connection: Some(v), ..s })
            } else {
                None
            },
            SessionLineV::Description(v) => if s.description is None {
                Some(SessionV { description: Some(v), ..s })
            } else {
                None
            },
            SessionLineV::Media(_) => None,
        },
    }
}

impl Session {
    /// The empty document.
    pub fn new() -> (r: Session)
        ensures
            r.deep_view() == spec_empty_session(),
    {
        let r = Session {
            version: None,
            name: None,
            timing: None,
            origin: None,
            band_width: None,
            uri: None,
            phone_number: None,
            email_address: None,
            connection: None,
            description: None,
            attributes: Vec::new(),
            media: Vec::new(),
        };
        proof {
            assert(r.deep_view() =~= spec_empty_session());
        }
        r
    }

    /// Route one parsed line into the session scope; `Err` hands the line
    /// back when the scope must reject it.
    pub fn add_line(&mut self, l: SdpLine) -> (r: Result<(), SdpLine>)
        ensures
            match r {
                Ok(()) => spec_add_session_line(old(self).deep_view(), l.deep_view()) == Some(
                    final(self).deep_view(),
                ),
                Err(back) => {
                    &&& spec_add_session_line(old(self).deep_view(), l.deep_view()) is None
                    &&& final(self).deep_view() == old(self).deep_view()
                    &&& back.deep_view() == l.deep_view()
                },
            },
    {
        match l {
            SdpLine::Comment(_) => Ok(()),
            SdpLine::Attribute(a) => {
                let ghost prev = self.attributes.deep_view();
                let ghost av = a.deep_view();
                self.attributes.push(a);
                proof {
                    assert(self.attributes.deep_view() =~= prev.push(av));
                }
                Ok(())
            },
            SdpLine::Session(sl) => match sl {
                SessionLine::Version(v) => {
                    if self.version.is_none() {
                        self.version = Some(v);
                        Ok(())
                    } else {
                        Err(SdpLine::Session(SessionLine::Version(v)))
                    }
                },
                SessionLine::Name(v) => {
                    if self.name.is_none() {
                        self.name = Some(v);
                        Ok(())
                    } else {
                        Err(SdpLine::Session(SessionLine::Name(v)))
                    }
                },
                SessionLine::Timing(v) => {
                    if self.timing.is_none() {
                        self.timing = Some(v);
                        Ok(())
                    } else {
                        Err(SdpLine::Session(SessionLine::Timing(v)))
                    }
                },
                SessionLine::Origin(v) => {
                    if self.origin.is_none() {
                        self.origin = Some(v);
                        Ok(())
                    } else {
                        Err(SdpLine::Session(SessionLine::Origin(v)))
                    }
                },
                SessionLine::BandWidth(v) => {
                    if self.band_width.is_none() {
                        self.band_width = Some(v);
                        Ok(())
                    } else {
                        Err(SdpLine::Session(SessionLine::BandWidth(v)))
                    }
                },
                SessionLine::Uri(v) => {
                    if self.uri.is_none() {
                        self.uri = Some(v);
                        Ok(())
                    } else {
                        Err(SdpLine::Session(SessionLine::Uri(v)))
                    }
                },
                SessionLine::PhoneNumber(v) => {
                    if self.phone_number.is_none() {
                        self.phone_number = Some(v);
                        Ok(())
                    } else {
                        Err(SdpLine::Session(SessionLine::PhoneNumber(v)))
                    }
                },
                SessionLine::EmailAddress(v) => {
                    if self.email_address.is_none() {
                        self.email_address = Some(v);
                        Ok(())
                    } else {
                        Err(SdpLine::Session(SessionLine::EmailAddress(v)))
                    }
                },
                SessionLine::Connection(v) => {
                    if self.connection.is_none() {
                        self.connection = Some(v);
                        Ok(())
                    } else {
                        Err(SdpLine::Session(SessionLine::Connection(v)))
                    }
                },
                SessionLine::Description(v) => {
                    if self.description.is_none() {
                        self.description = Some(v);
                        Ok(())
                    } else {
                        Err(SdpLine::Session(SessionLine::Description(v)))
                    }
                },
                SessionLine::Media(m) => Err(SdpLine::Session(SessionLine::Media(m))),
            },
        }
    }
}

// ---------------------------------------------------------------------------
// errors
// ---------------------------------------------------------------------------

/// A structured parse or assembly error carrying the offending line.
#[derive(Clone, PartialEq, Debug)]
pub enum SdpError {
    /// No grammar accepted the line.
    ParseFailed { line_number: usize, text: String },
    /// The line parsed, but the document rejects it here: a second
    /// occurrence of a singleton field, or a misplaced session-level line.
    AssemblyFailed { line_number: usize, text: String },
}

/// Spec model of [`SdpError`].
pub ghost enum SdpErrorV {
    ParseFailed { line_number: int, text: Seq<char> },
    AssemblyFailed { line_number: int, text: Seq<char> },
}

impl DeepView for SdpError {
    type V = SdpErrorV;

    open spec fn deep_view(&self) -> SdpErrorV {
        match self {
            SdpError::ParseFailed { line_number, text } => SdpErrorV::ParseFailed {
                line_number: *line_number as int,
                text: text@,
            },
            SdpError::AssemblyFailed { line_number, text } => SdpErrorV::AssemblyFailed {
                line_number: *line_number as int,
                text: text@,
            },
        }
    }
}

impl SdpError {
    /// A short description naming the offending line.
    pub fn message(&self) -> (r: String)
        ensures
            match self.deep_view() {
                SdpErrorV::ParseFailed { line_number, text } => r@ == "no grammar accepts line: "@
                    + text,
                SdpErrorV::AssemblyFailed { line_number, text } => r@
                    == "line rejected by the document here: "@ + text,
            },
    {
        match self {
            SdpError::ParseFailed { line_number, text } => {
                let mut out = "no grammar accepts line: ".to_owned();
                out.append(text.as_str());
                out
            },
            SdpError::AssemblyFailed { line_number, text } => {
                let mut out = "line rejected by the document here: ".to_owned();
                out.append(text.as_str());
                out
            },
        }
    }
}

// ---------------------------------------------------------------------------
// the assembler
// ---------------------------------------------------------------------------

/// The assembler's fold state: the session built so far and the open media
/// section, if any.
pub ghost struct AsmState {
    pub sess: SessionV,
    pub cur: Option<MediaSectionV>,
}

/// Close the open section, if any.
pub open spec fn spec_finish(st: AsmState) -> SessionV {
    match st.cur {
        Some(m) => SessionV { media: st.sess.media.push(m), ..st.sess },
        None => st.sess,
    }
}

/// The assembler's starting state.
pub open spec fn spec_init_state() -> AsmState {
    AsmState { sess: spec_empty_session(), cur: None }
}

/// Fold the lines from `idx` on into the document.  Under the strict policy
/// the first rejected line aborts with a structured error naming it; under
/// the lenient policy rejected lines are skipped.
pub open spec fn spec_assemble(
    lines: Seq<Seq<char>>,
    idx: int,
    st: AsmState,
    strict: bool,
) -> Result<SessionV, SdpErrorV>
    decreases lines.len() - idx,
    when 0 <= idx <= lines.len()
{
    if idx == lines.len() {
        Ok(spec_finish(st))
    } else {
        match spec_sdp_line(lines[idx]) {
            None => if strict {
                Err(SdpErrorV::ParseFailed { line_number: idx, text: lines[idx] })
            } else {
                spec_assemble(lines, idx + 1, st, strict)
            },
            Some(SdpLineV::Session(SessionLineV::Media(m))) => spec_assemble(
                lines,
                idx + 1,
                AsmState { sess: spec_finish(st), cur: Some(spec_section_of(m)) },
                strict,
            ),
            Some(l) => match st.cur {
                Some(cm) => match spec_add_media_line(cm, l) {
                    Some(cm2) => spec_assemble(
                        lines,
                        idx + 1,
                        AsmState { cur: Some(cm2), ..st },
                        strict,
                    ),
                    None => if strict {
                        Err(SdpErrorV::AssemblyFailed { line_number: idx, text: lines[idx] })
                    } else {
                        spec_assemble(lines, idx + 1, st, strict)
                    },
                },
                None => match spec_add_session_line(st.sess, l) {
                    Some(s2) => spec_assemble(
                        lines,
                        idx + 1,
                        AsmState { sess: s2, ..st },
                        strict,
                    ),
                    None => if strict {
                        Err(SdpErrorV::AssemblyFailed { line_number: idx, text: lines[idx] })
                    } else {
                        spec_assemble(lines, idx + 1, st, strict)
                    },
                },
            },
        }
    }
}

/// The whole parse: split into lines and fold.
pub open spec fn spec_parse(s: Seq<char>, strict: bool) -> Result<SessionV, SdpErrorV> {
    spec_assemble(spec_split_lines(s, 0), 0, spec_init_state(), strict)
}

/// Under the lenient policy the assembler always produces a document.
pub proof fn lemma_lenient_always_ok(lines: Seq<Seq<char>>, idx: int, st: AsmState)
    requires
        0 <= idx <= lines.len(),
    ensures
        spec_assemble(lines, idx, st, false) is Ok,
    decreases lines.len() - idx,
{
    if idx < lines.len() {
        match spec_sdp_line(lines[idx]) {
            None => lemma_lenient_always_ok(lines, idx + 1, st),
            Some(SdpLineV::Session(SessionLineV::Media(m))) => lemma_lenient_always_ok(
                lines,
                idx + 1,
                AsmState { sess: spec_finish(st), cur: Some(spec_section_of(m)) },
            ),
            Some(l) => match st.cur {
                Some(cm) => match spec_add_media_line(cm, l) {
                    Some(cm2) => lemma_lenient_always_ok(
                        lines,
                        idx + 1,
                        AsmState { cur: Some(cm2), ..st },
                    ),
                    None => lemma_lenient_always_ok(lines, idx + 1, st),
                },
                None => match spec_add_session_line(st.sess, l) {
                    Some(s2) => lemma_lenient_always_ok(
                        lines,
                        idx + 1,
                        AsmState { sess: s2, ..st },
                    ),
                    None => lemma_lenient_always_ok(lines, idx + 1, st),
                },
            },
        }
    }
}

fn assemble(lines: &Vec<String>, strict: bool) -> (r: Result<Session, SdpError>)
    ensures
        match r {
            Ok(s) => spec_assemble(lines.deep_view(), 0, spec_init_state(), strict) == Ok::<
                SessionV,
                SdpErrorV,
            >(s.deep_view()),
            Err(e) => spec_assemble(lines.deep_view(), 0, spec_init_state(), strict) == Err::<
                SessionV,
                SdpErrorV,
            >(e.deep_view()),
        },
{
    let mut session = Session::new();
    let mut cur: Option<MediaSection> = None;
    let mut idx: usize = 0;
    proof {
        assert(session.deep_view() =~= spec_empty_session());
    }
    loop
        invariant
            0 <= idx <= lines@.len(),
            spec_assemble(lines.deep_view(), 0, spec_init_state(), strict) == spec_assemble(
                lines.deep_view(),
                idx as int,
                AsmState { sess: session.deep_view(), cur: cur.deep_view() },
                strict,
            ),
        ensures
            idx == lines@.len(),
            spec_assemble(lines.deep_view(), 0, spec_init_state(), strict) == spec_assemble(
                lines.deep_view(),
                idx as int,
                AsmState { sess: session.deep_view(), cur: cur.deep_view() },
                strict,
            ),
        decreases lines@.len() - idx,
    {
        if idx == lines.len() {
            break;
        }
        let ghost st = AsmState { sess: session.deep_view(), cur: cur.deep_view() };
        proof {
            assert(lines.deep_view()[idx as int] == lines@[idx as int]@);
        }
        match sdp_line(lines[idx].as_str()) {
            None => {
                if strict {
                    return Err(
                        SdpError::ParseFailed { line_number: idx, text: lines[idx].clone() },
                    );
                }
            },
            Some(SdpLine::Session(SessionLine::Media(m))) => {
                let prev_cur = cur;
                match prev_cur {
                    Some(cm) => {
                        let ghost pm = session.media.deep_view();
                        let ghost cmv = cm.deep_view();
                        session.media.push(cm);
                        proof {
                            assert(session.media.deep_view() =~= pm.push(cmv));
                            assert(session.deep_view() =~= spec_finish(st));
                        }
                    },
                    None => {
                        proof {
                            assert(session.deep_view() =~= spec_finish(st));
                        }
                    },
                }
                cur = Some(MediaSection::from_media(m));
            },
            Some(other) => {
                let ghost lv = other.deep_view();
                let is_media_section = cur.is_some();
                if is_media_section {
                    let cm = cur.as_mut().unwrap();
                    match cm.add_line(other) {
                        Ok(()) => {},
                        Err(_) => {
                            if strict {
                                return Err(
                                    SdpError::AssemblyFailed {
                                        line_number: idx,
                                        text: lines[idx].clone(),
                                    },
                                );
                            }
                        },
                    }
                } else {
                    match session.add_line(other) {
                        Ok(()) => {},
                        Err(_) => {
                            if strict {
                                return Err(
                                    SdpError::AssemblyFailed {
                                        line_number: idx,
                                        text: lines[idx].clone(),
                                    },
                                );
                            }
                        },
                    }
                }
            },
        }
        idx += 1;
    }
    let prev_cur = cur;
    let ghost st = AsmState { sess: session.deep_view(), cur: prev_cur.deep_view() };
    match prev_cur {
        Some(cm) => {
            let ghost pm = session.media.deep_view();
            let ghost cmv = cm.deep_view();
            session.media.push(cm);
            proof {
                assert(session.media.deep_view() =~= pm.push(cmv));
                assert(session.deep_view() =~= spec_finish(st));
            }
        },
        None => {},
    }
    Ok(session)
}

impl Session {
    /// Parse under the strict policy: the first rejected line aborts with a
    /// structured error naming the line and its position.
    pub fn parse_strict(sdp: &str) -> (r: Result<Session, SdpError>)
        ensures
            match r {
                Ok(s) => spec_parse(sdp@, true) == Ok::<SessionV, SdpErrorV>(s.deep_view()),
                Err(e) => spec_parse(sdp@, true) == Err::<SessionV, SdpErrorV>(e.deep_view()),
            },
    {
        let lines = split_lines(sdp);
        assemble(&lines, true)
    }

    /// Parse under the lenient policy: rejected lines are skipped and a
    /// complete document always comes back.
    pub fn parse_lenient(sdp: &str) -> (r: Session)
        ensures
            spec_parse(sdp@, false) == Ok::<SessionV, SdpErrorV>(r.deep_view()),
    {
        let lines = split_lines(sdp);
        proof {
            lemma_lenient_always_ok(lines.deep_view(), 0, spec_init_state());
        }
        match assemble(&lines, false) {
            Ok(s) => s,
            Err(_) => {
                proof {
                    assert(false);
                }
                Session::new()
            },
        }
    }

    /// Parse leniently; a short-named alias for reading a document in.
    pub fn read_str(sdp: &str) -> (r: Session)
        ensures
            spec_parse(sdp@, false) == Ok::<SessionV, SdpErrorV>(r.deep_view()),
    {
        Session::parse_lenient(sdp)
    }
}

// ---------------------------------------------------------------------------
// the media-section count invariant
// ---------------------------------------------------------------------------

/// How many lines from `idx` on parse as media descriptors.
pub open spec fn spec_count_media_lines(lines: Seq<Seq<char>>, idx: int) -> int
    decreases lines.len() - idx,
    when 0 <= idx <= lines.len()
{
    if idx == lines.len() {
        0
    } else {
        (if spec_sdp_line(lines[idx]) matches Some(SdpLineV::Session(SessionLineV::Media(_))) {
            1int
        } else {
            0int
        }) + spec_count_media_lines(lines, idx + 1)
    }
}

/// Folding never loses or invents a media section: the document holds
/// exactly one section per media-descriptor line.
pub proof fn lemma_assemble_media_count(
    lines: Seq<Seq<char>>,
    idx: int,
    st: AsmState,
    strict: bool,
)
    requires
        0 <= idx <= lines.len(),
    ensures
        spec_assemble(lines, idx, st, strict) matches Ok(sess) ==> sess.media.len()
            == st.sess.media.len() + (if st.cur is Some {
            1int
        } else {
            0int
        }) + spec_count_media_lines(lines, idx),
    decreases lines.len() - idx,
{
    if idx < lines.len() {
        match spec_sdp_line(lines[idx]) {
            None => {
                if !strict {
                    lemma_assemble_media_count(lines, idx + 1, st, strict);
                }
            },
            Some(SdpLineV::Session(SessionLineV::Media(m))) => {
                lemma_assemble_media_count(
                    lines,
                    idx + 1,
                    AsmState { sess: spec_finish(st), cur: Some(spec_section_of(m)) },
                    strict,
                );
            },
            Some(l) => match st.cur {
                Some(cm) => match spec_add_media_line(cm, l) {
                    Some(cm2) => lemma_assemble_media_count(
                        lines,
                        idx + 1,
                        AsmState { cur: Some(cm2), ..st },
                        strict,
                    ),
                    None => {
                        if !strict {
                            lemma_assemble_media_count(lines, idx + 1, st, strict);
                        }
                    },
                },
                None => match spec_add_session_line(st.sess, l) {
                    Some(s2) => lemma_assemble_media_count(
                        lines,
                        idx + 1,
                        AsmState { sess: s2, ..st },
                        strict,
                    ),
                    None => {
                        if !strict {
                            lemma_assemble_media_count(lines, idx + 1, st, strict);
                        }
                    },
                },
            },
        }
    }
}

/// The media-section count invariant: under either policy, a parsed document
/// holds exactly as many media sections as the input holds lines that parse
/// as media descriptors.
pub proof fn lemma_media_section_count(sdp: Seq<char>, strict: bool)
    ensures
        spec_parse(sdp, strict) matches Ok(sess) ==> sess.media.len() == spec_count_media_lines(
            spec_split_lines(sdp, 0),
            0,
        ),
{
    lemma_assemble_media_count(spec_split_lines(sdp, 0), 0, spec_init_state(), strict);
}

/// A line parses as a media descriptor exactly when the media grammar
/// accepts it: no other grammar claims an `m=` line.
pub proof fn lemma_media_count_is_media_grammar(lines: Seq<Seq<char>>, idx: int)
    requires
        0 <= idx <= lines.len(),
    ensures
        forall|k: int|
            idx <= k < lines.len() ==> ((spec_sdp_line(#[trigger] lines[k]) matches Some(
                SdpLineV::Session(SessionLineV::Media(_)),
            )) <==> crate::lines::media::spec_media_line(lines[k]) is Some),
{
    assert forall|k: int| idx <= k < lines.len() implies ((spec_sdp_line(
        #[trigger] lines[k],
    ) matches Some(SdpLineV::Session(SessionLineV::Media(_)))) <==> crate::lines::media::spec_media_line(
        lines[k],
    ) is Some) by {
        spec_media_line_dispatch(lines[k]);
    }
}

// ---------------------------------------------------------------------------
// transformations over the immutable collections
// ---------------------------------------------------------------------------

/// The candidates of `cs` whose transport is `p`, in order.
pub open spec fn spec_cands_with(cs: Seq<CandidateV>, p: CandidateProtocol) -> Seq<CandidateV>
    decreases cs.len(),
{
    if cs.len() == 0 {
        Seq::empty()
    } else {
        let rest = spec_cands_with(cs.drop_last(), p);
        if cs.last().protocol == p {
            rest.push(cs.last())
        } else {
            rest
        }
    }
}

/// Keep only the candidates whose transport is `p`.
pub open spec fn spec_filter_candidates(m: MediaSectionV, p: CandidateProtocol) -> MediaSectionV {
    MediaSectionV { candidates: spec_cands_with(m.candidates, p), ..m }
}

impl MediaSection {
    /// Keep only the candidates whose transport is `p`; everything else is
    /// untouched.
    pub fn retain_candidates_with_protocol(&mut self, p: CandidateProtocol)
        ensures
            final(self).deep_view() == spec_filter_candidates(old(self).deep_view(), p),
    {
        let mut kept: Vec<Candidate> = Vec::new();
        let mut k: usize = 0;
        while k < self.candidates.len()
            invariant
                0 <= k <= self.candidates@.len(),
                kept.deep_view() == spec_cands_with(
                    self.candidates.deep_view().take(k as int),
                    p,
                ),
            decreases self.candidates@.len() - k,
        {
            proof {
                let cv = self.candidates.deep_view();
                assert(cv.take(k + 1).drop_last() =~= cv.take(k as int));
                assert(cv.take(k + 1).last() == cv[k as int]);
            }
            let ghost pre = kept.deep_view();
            let keep = match self.candidates[k].protocol {
                CandidateProtocol::Tcp => p == CandidateProtocol::Tcp,
                CandidateProtocol::Udp => p == CandidateProtocol::Udp,
                CandidateProtocol::Dccp => p == CandidateProtocol::Dccp,
            };
            if keep {
                kept.push(self.candidates[k].into_owned());
                proof {
                    assert(kept.deep_view() =~= pre.push(
                        self.candidates.deep_view()[k as int],
                    ));
                }
            }
            k += 1;
        }
        proof {
            assert(self.candidates.deep_view().take(self.candidates@.len() as int)
                =~= self.candidates.deep_view());
        }
        self.candidates = kept;
        proof {
            assert(self.deep_view() =~= spec_filter_candidates(old(self).deep_view(), p));
        }
    }
}

impl Session {
    /// Keep, in every media section, only the candidates whose transport is
    /// TCP, as a tool that strips direct UDP connectivity would.
    pub fn remove_direct_tcp_candidates(&mut self)
        ensures
            final(self).deep_view().media.len() == old(self).deep_view().media.len(),
            forall|k: int|
                0 <= k < old(self).deep_view().media.len() ==> final(self).deep_view().media[k]
                    == spec_filter_candidates(
                    #[trigger] old(self).deep_view().media[k],
                    CandidateProtocol::Tcp,
                ),
            final(self).deep_view() == (SessionV {
                media: final(self).deep_view().media,
                ..old(self).deep_view()
            }),
    {
        let mut k: usize = 0;
        while k < self.media.len()
            invariant
                0 <= k <= self.media@.len(),
                self.media@.len() == old(self).media@.len(),
                forall|q: int|
                    0 <= q < k ==> self.media.deep_view()[q] == spec_filter_candidates(
                        #[trigger] old(self).media.deep_view()[q],
                        CandidateProtocol::Tcp,
                    ),
                forall|q: int|
                    k <= q < self.media@.len() ==> self.media.deep_view()[q] == old(
                        self,
                    ).media.deep_view()[q],
                self.deep_view() == (SessionV {
                    media: self.media.deep_view(),
                    ..old(self).deep_view()
                }),
            decreases self.media@.len() - k,
        {
            let section = &mut self.media[k];
            section.retain_candidates_with_protocol(CandidateProtocol::Tcp);
            k += 1;
        }
        proof {
            assert(self.deep_view() =~= (SessionV {
                media: self.media.deep_view(),
                ..old(self).deep_view()
            }));
        }
    }
}

// ---------------------------------------------------------------------------
// serialization and detachment
// ---------------------------------------------------------------------------

/// The media sections rendered in order.
pub open spec fn spec_media_section_texts(ms: Seq<MediaSectionV>) -> Seq<char>
    decreases ms.len(),
{
    if ms.len() == 0 {
        Seq::empty()
    } else {
        spec_media_section_texts(ms.drop_last()) + spec_render_media_section(ms.last())
    }
}

/// The whole document rendered: the singleton lines in the order
/// `v o s i u p e c b t`, then the session attributes, then the sections.
pub open spec fn spec_render_session(s: SessionV) -> Seq<char> {
    let s1 = match s.version {
        Some(x) => spec_render_version(x) + "\n"@,
        None => Seq::<char>::empty(),
    };
    let s2 = match s.origin {
        Some(x) => s1 + spec_render_origin(x) + "\n"@,
        None => s1,
    };
    let s3 = match s.name {
        Some(x) => s2 + spec_render_name(x) + "\n"@,
        None => s2,
    };
    let s4 = match s.description {
        Some(x) => s3 + spec_render_description(x) + "\n"@,
        None => s3,
    };
    let s5 = match s.uri {
        Some(x) => s4 + spec_render_uri(x) + "\n"@,
        None => s4,
    };
    let s6 = match s.phone_number {
        Some(x) => s5 + spec_render_phone(x) + "\n"@,
        None => s5,
    };
    let s7 = match s.email_address {
        Some(x) => s6 + spec_render_email(x) + "\n"@,
        None => s6,
    };
    let s8 = match s.connection {
        Some(x) => s7 + spec_render_connection(x) + "\n"@,
        None => s7,
    };
    let s9 = match s.band_width {
        Some(x) => s8 + spec_render_bandwidth(x) + "\n"@,
        None => s8,
    };
    let s10 = match s.timing {
        Some(x) => s9 + spec_render_timing(x) + "\n"@,
        None => s9,
    };
    let s11 = s10 + spec_attribute_lines(s.attributes);
    s11 + spec_media_section_texts(s.media)
}

impl Session {
    /// Render the whole document; every line ends with a line feed.
    #[verifier::rlimit(100)]
    pub fn to_string(&self) -> (r: String)
        ensures
            r@ == spec_render_session(self.deep_view()),
    {
        let mut out = String::new();
        match &self.version {
            Some(x) => {
                out.append(x.to_string().as_str());
                out.append("\n");
            },
            None => {},
        }
        match &self.origin {
            Some(x) => {
                out.append(x.to_string().as_str());
                out.append("\n");
            },
            None => {},
        }
        match &self.name {
            Some(x) => {
                out.append(x.to_string().as_str());
                out.append("\n");
            },
            None => {},
        }
        match &self.description {
            Some(x) => {
                out.append(x.to_string().as_str());
                out.append("\n");
            },
            None => {},
        }
        match &self.uri {
            Some(x) => {
                out.append(x.to_string().as_str());
                out.append("\n");
            },
            None => {},
        }
        match &self.phone_number {
            Some(x) => {
                out.append(x.to_string().as_str());
                out.append("\n");
            },
            None => {},
        }
        match &self.email_address {
            Some(x) => {
                out.append(x.to_string().as_str());
                out.append("\n");
            },
            None => {},
        }
        match &self.connection {
            Some(x) => {
                out.append(x.to_string().as_str());
                out.append("\n");
            },
            None => {},
        }
        match &self.band_width {
            Some(x) => {
                out.append(x.to_string().as_str());
                out.append("\n");
            },
            None => {},
        }
        match &self.timing {
            Some(x) => {
                out.append(x.to_string().as_str());
                out.append("\n");
            },
            None => {},
        }
        append_attribute_lines(&mut out, &self.attributes);
        let ghost s11 = out@;
        let mut k: usize = 0;
        while k < self.media.len()
            invariant
                0 <= k <= self.media@.len(),
                out@ == s11 + spec_media_section_texts(self.media.deep_view().take(k as int)),
            decreases self.media@.len() - k,
        {
            out.append(self.media[k].to_string().as_str());
            proof {
                let mv = self.media.deep_view();
                assert(mv.take(k + 1).drop_last() =~= mv.take(k as int));
                assert(mv.take(k + 1).last() == mv[k as int]);
                assert(out@ =~= s11 + spec_media_section_texts(mv.take(k + 1)));
            }
            k += 1;
        }
        proof {
            assert(self.media.deep_view().take(self.media@.len() as int)
                =~= self.media.deep_view());
        }
        out
    }

    /// Detach the whole document into independently owned storage; the
    /// result is structurally identical and shares nothing with `self`.
    pub fn into_owned(&self) -> (r: Session)
        ensures
            r.deep_view() == self.deep_view(),
    {
        let mut attributes: Vec<AttributeLine> = Vec::new();
        let mut k: usize = 0;
        while k < self.attributes.len()
            invariant
                0 <= k <= self.attributes@.len(),
                attributes.deep_view() =~= self.attributes.deep_view().take(k as int),
            decreases self.attributes@.len() - k,
        {
            let ghost prev = attributes.deep_view();
            let item = self.attributes[k].into_owned();
            attributes.push(item);
            proof {
                assert(attributes.deep_view() =~= prev.push(
                    self.attributes.deep_view()[k as int],
                ));
                assert(prev.push(self.attributes.deep_view()[k as int])
                    =~= self.attributes.deep_view().take(k + 1));
            }
            k += 1;
        }
        let mut media: Vec<MediaSection> = Vec::new();
        let mut k: usize = 0;
        while k < self.media.len()
            invariant
                0 <= k <= self.media@.len(),
                media.deep_view() =~= self.media.deep_view().take(k as int),
            decreases self.media@.len() - k,
        {
            let ghost prev = media.deep_view();
            let item = self.media[k].into_owned();
            media.push(item);
            proof {
                assert(media.deep_view() =~= prev.push(self.media.deep_view()[k as int]));
                assert(prev.push(self.media.deep_view()[k as int]) =~= self.media.deep_view().take(
                    k + 1,
                ));
            }
            k += 1;
        }
        proof {
            assert(self.attributes.deep_view().take(self.attributes@.len() as int)
                =~= self.attributes.deep_view());
            assert(self.media.deep_view().take(self.media@.len() as int)
                =~= self.media.deep_view());
        }
        let r = Session {
            version: self.version,
            name: match &self.name {
                Some(x) => Some(SessionName(x.0.clone())),
                None => None,
            },
            timing: self.timing,
            origin: match &self.origin {
                Some(x) => Some(x.into_owned()),
                None => None,
            },
            band_width: self.band_width,
            uri: match &self.uri {
                Some(x) => Some(Uri(x.0.clone())),
                None => None,
            },
            phone_number: match &self.phone_number {
                Some(x) => Some(PhoneNumber(x.0.clone())),
                None => None,
            },
            email_address: match &self.email_address {
                Some(x) => Some(EmailAddress(x.0.clone())),
                None => None,
            },
            connection: match &self.connection {
                Some(x) => Some(x.into_owned()),
                None => None,
            },
            description: match &self.description {
                Some(x) => Some(SessionInformation(x.0.clone())),
                None => None,
            },
            attributes,
            media,
        };
        proof {
            assert(r.deep_view() =~= self.deep_view());
        }
        r
    }
}

} // verus!
