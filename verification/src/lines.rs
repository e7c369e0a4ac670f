//! Grammars for the lines that do not start with `a=`.
//!
//! Each grammar accepts exactly the lines whose prefix tag and body match its
//! record kind, with surrounding whitespace tolerated between fields, and
//! rejects everything else; each value renders back to its canonical line.

use vstd::prelude::*;

use crate::parsers::{at_end, dec_str, match_lit, occurs_at, read_everything, read_number,
    read_string, read_verbatim, skip_wsp, skip_ws, spec_read_everything, spec_read_num, token_end,
    u32_to_string, StopAt};

pub mod connection;
pub mod media;
pub mod origin;

use crate::lines::connection::{spec_connection_line, spec_render_connection, Connection,
    connection_line, ConnectionV};
use crate::lines::media::{spec_media_line, spec_render_media, Media, media_line, MediaV};
use crate::lines::origin::{spec_origin_line, spec_render_origin, Origin, origin_line, OriginV};

verus! {

// ---------------------------------------------------------------------------
// v=
// ---------------------------------------------------------------------------

/// Protocol version, `v=0`.
#[derive(Clone, Copy, PartialEq, Eq, Structural, Debug)]
pub struct Version(pub u32);

impl DeepView for Version {
    type V = Version;

    open spec fn deep_view(&self) -> Version {
        *self
    }
}

pub open spec fn spec_version_line(s: Seq<char>) -> Option<Version> {
    if occurs_at(s, 0, "v="@) {
        let i = skip_wsp(s, "v="@.len() as int);
        match spec_read_num(s, i, u32::MAX as int) {
            Some((j, v)) => {
                if skip_wsp(s, j) == s.len() {
                    Some(Version(v as u32))
                } else {
                    None
                }
            },
            None => None,
        }
    } else {
        None
    }
}

/// Parse a `v=` line.
pub fn version_line(input: &str) -> (r: Option<Version>)
    ensures
        r == spec_version_line(input@),
{
    if match_lit(input, 0, "v=") {
        let i = skip_ws(input, "v=".unicode_len());
        match read_number(input, i) {
            Some((j, v)) => {
                if at_end(input, j) {
                    Some(Version(v))
                } else {
                    None
                }
            },
            None => None,
        }
    } else {
        None
    }
}

pub open spec fn spec_render_version(v: Version) -> Seq<char> {
    "v="@ + dec_str(v.0 as int)
}

impl Version {
    /// Render as `v=<number>`.
    pub fn to_string(&self) -> (r: String)
        ensures
            r@ == spec_render_version(*self),
    {
        let mut out = "v=".to_owned();
        out.append(u32_to_string(self.0).as_str());
        out
    }
}

// ---------------------------------------------------------------------------
// lines holding one text field
// ---------------------------------------------------------------------------

/// Session name, `s=-`.
#[derive(Clone, PartialEq, Eq, Debug)]
pub struct SessionName(pub String);

/// Session information, `i=<description>`.
#[derive(Clone, PartialEq, Eq, Debug)]
pub struct SessionInformation(pub String);

/// Uri, `u=<uri>`.
#[derive(Clone, PartialEq, Eq, Debug)]
pub struct Uri(pub String);

/// Email address, `e=<email>`.
#[derive(Clone, PartialEq, Eq, Debug)]
pub struct EmailAddress(pub String);

/// Phone number, `p=<number>`.
#[derive(Clone, PartialEq, Eq, Debug)]
pub struct PhoneNumber(pub String);

impl DeepView for SessionName {
    type V = Seq<char>;

    open spec fn deep_view(&self) -> Seq<char> {
        self.0@
    }
}

impl DeepView for SessionInformation {
    type V = Seq<char>;

    open spec fn deep_view(&self) -> Seq<char> {
        self.0@
    }
}

impl DeepView for Uri {
    type V = Seq<char>;

    open spec fn deep_view(&self) -> Seq<char> {
        self.0@
    }
}

impl DeepView for EmailAddress {
    type V = Seq<char>;

    open spec fn deep_view(&self) -> Seq<char> {
        self.0@
    }
}

impl DeepView for PhoneNumber {
    type V = Seq<char>;

    open spec fn deep_view(&self) -> Seq<char> {
        self.0@
    }
}

pub open spec fn spec_name_line(s: Seq<char>) -> Option<Seq<char>> {
    if occurs_at(s, 0, "s="@) {
        Some(spec_read_everything(s, "s="@.len() as int))
    } else {
        None
    }
}

/// Parse an `s=` line; the name is the body trimmed of whitespace.
pub fn name_line(input: &str) -> (r: Option<SessionName>)
    ensures
        r.deep_view() == spec_name_line(input@),
{
    if match_lit(input, 0, "s=") {
        Some(SessionName(read_everything(input, "s=".unicode_len())))
    } else {
        None
    }
}

pub open spec fn spec_description_line(s: Seq<char>) -> Option<Seq<char>> {
    if occurs_at(s, 0, "i="@) {
        Some(spec_read_everything(s, "i="@.len() as int))
    } else {
        None
    }
}

/// Parse an `i=` line; the description is the body trimmed of whitespace.
pub fn description_line(input: &str) -> (r: Option<SessionInformation>)
    ensures
        r.deep_view() == spec_description_line(input@),
{
    if match_lit(input, 0, "i=") {
        Some(SessionInformation(read_everything(input, "i=".unicode_len())))
    } else {
        None
    }
}

pub open spec fn spec_uri_line(s: Seq<char>) -> Option<Seq<char>> {
    if occurs_at(s, 0, "u="@) {
        let i = "u="@.len() as int;
        let j = token_end(s, i, StopAt::Space);
        if j > i && skip_wsp(s, j) == s.len() {
            Some(s.subrange(i, j))
        } else {
            None
        }
    } else {
        None
    }
}

/// Parse a `u=` line; the uri is one non-empty token.
pub fn uri_line(input: &str) -> (r: Option<Uri>)
    ensures
        r.deep_view() == spec_uri_line(input@),
{
    if match_lit(input, 0, "u=") {
        let i = "u=".unicode_len();
        match read_string(input, i) {
            Some((j, t)) => {
                if at_end(input, j) {
                    Some(Uri(t))
                } else {
                    None
                }
            },
            None => None,
        }
    } else {
        None
    }
}

pub open spec fn spec_email_address_line(s: Seq<char>) -> Option<Seq<char>> {
    if occurs_at(s, 0, "e="@) {
        let i = skip_wsp(s, "e="@.len() as int);
        let j = token_end(s, i, StopAt::Space);
        if j > i && skip_wsp(s, j) == s.len() {
            Some(s.subrange(i, j))
        } else {
            None
        }
    } else {
        None
    }
}

/// Parse an `e=` line; the address is one non-empty token.
pub fn email_address_line(input: &str) -> (r: Option<EmailAddress>)
    ensures
        r.deep_view() == spec_email_address_line(input@),
{
    if match_lit(input, 0, "e=") {
        let i = skip_ws(input, "e=".unicode_len());
        match read_string(input, i) {
            Some((j, t)) => {
                if at_end(input, j) {
                    Some(EmailAddress(t))
                } else {
                    None
                }
            },
            None => None,
        }
    } else {
        None
    }
}

pub open spec fn spec_phone_number_line(s: Seq<char>) -> Option<Seq<char>> {
    if occurs_at(s, 0, "p="@) {
        crate::parsers::spec_rest_of_line(s, "p="@.len() as int)
    } else {
        None
    }
}

/// Parse a `p=` line; the number is the body kept verbatim.
pub fn phone_number_line(input: &str) -> (r: Option<PhoneNumber>)
    ensures
        r.deep_view() == spec_phone_number_line(input@),
{
    if match_lit(input, 0, "p=") {
        match read_verbatim(input, "p=".unicode_len()) {
            Some(t) => Some(PhoneNumber(t)),
            None => None,
        }
    } else {
        None
    }
}

pub open spec fn spec_render_name(t: Seq<char>) -> Seq<char> {
    "s="@ + t
}

pub open spec fn spec_render_description(t: Seq<char>) -> Seq<char> {
    "i="@ + t
}

pub open spec fn spec_render_uri(t: Seq<char>) -> Seq<char> {
    "u="@ + t
}

pub open spec fn spec_render_email(t: Seq<char>) -> Seq<char> {
    "e="@ + t
}

pub open spec fn spec_render_phone(t: Seq<char>) -> Seq<char> {
    "p="@ + t
}

impl SessionName {
    /// Render as `s=<name>`.
    pub fn to_string(&self) -> (r: String)
        ensures
            r@ == spec_render_name(self.deep_view()),
    {
        let mut out = "s=".to_owned();
        out.append(self.0.as_str());
        out
    }
}

impl SessionInformation {
    /// Render as `i=<description>`.
    pub fn to_string(&self) -> (r: String)
        ensures
            r@ == spec_render_description(self.deep_view()),
    {
        let mut out = "i=".to_owned();
        out.append(self.0.as_str());
        out
    }
}

impl Uri {
    /// Render as `u=<uri>`.
    pub fn to_string(&self) -> (r: String)
        ensures
            r@ == spec_render_uri(self.deep_view()),
    {
        let mut out = "u=".to_owned();
        out.append(self.0.as_str());
        out
    }
}

impl EmailAddress {
    /// Render as `e=<address>`.
    pub fn to_string(&self) -> (r: String)
        ensures
            r@ == spec_render_email(self.deep_view()),
    {
        let mut out = "e=".to_owned();
        out.append(self.0.as_str());
        out
    }
}

impl PhoneNumber {
    /// Render as `p=<number>`.
    pub fn to_string(&self) -> (r: String)
        ensures
            r@ == spec_render_phone(self.deep_view()),
    {
        let mut out = "p=".to_owned();
        out.append(self.0.as_str());
        out
    }
}

// ---------------------------------------------------------------------------
// t=
// ---------------------------------------------------------------------------

/// Timing, `t=0 0`.
#[derive(Clone, Copy, PartialEq, Eq, Structural, Debug)]
pub struct Timing {
    pub start: u32,
    pub stop: u32,
}

impl DeepView for Timing {
    type V = Timing;

    open spec fn deep_view(&self) -> Timing {
        *self
    }
}

pub open spec fn spec_timing_line(s: Seq<char>) -> Option<Timing> {
    if occurs_at(s, 0, "t="@) {
        let i = skip_wsp(s, "t="@.len() as int);
        match spec_read_num(s, i, u32::MAX as int) {
            Some((j, start)) => {
                let k = skip_wsp(s, j);
                match spec_read_num(s, k, u32::MAX as int) {
                    Some((e, stop)) => {
                        if skip_wsp(s, e) == s.len() {
                            Some(Timing { start: start as u32, stop: stop as u32 })
                        } else {
                            None
                        }
                    },
                    None => None,
                }
            },
            None => None,
        }
    } else {
        None
    }
}

/// Parse a `t=` line: two numbers.
pub fn timing_line(input: &str) -> (r: Option<Timing>)
    ensures
        r == spec_timing_line(input@),
{
    if match_lit(input, 0, "t=") {
        let i = skip_ws(input, "t=".unicode_len());
        match read_number(input, i) {
            Some((j, start)) => {
                let k = skip_ws(input, j);
                match read_number(input, k) {
                    Some((e, stop)) => {
                        if at_end(input, e) {
                            Some(Timing { start, stop })
                        } else {
                            None
                        }
                    },
                    None => None,
                }
            },
            None => None,
        }
    } else {
        None
    }
}

pub open spec fn spec_render_timing(t: Timing) -> Seq<char> {
    "t="@ + dec_str(t.start as int) + " "@ + dec_str(t.stop as int)
}

impl Timing {
    /// Render as `t=<start> <stop>`.
    pub fn to_string(&self) -> (r: String)
        ensures
            r@ == spec_render_timing(*self),
    {
        let mut out = "t=".to_owned();
        out.append(u32_to_string(self.start).as_str());
        out.append(" ");
        out.append(u32_to_string(self.stop).as_str());
        out
    }
}

// ---------------------------------------------------------------------------
// b=
// ---------------------------------------------------------------------------

/// Bandwidth kind tag.
#[derive(Clone, Copy, PartialEq, Eq, Structural, Debug)]
pub enum BandWidthType {
    TIAS,
    AS,
    CT,
    RR,
    RS,
}

/// Bandwidth, `b=AS:1024`.
#[derive(Clone, Copy, PartialEq, Eq, Structural, Debug)]
pub struct BandWidth {
    pub kind: BandWidthType,
    pub limit: u32,
}

impl DeepView for BandWidth {
    type V = BandWidth;

    open spec fn deep_view(&self) -> BandWidth {
        *self
    }
}

pub open spec fn spec_bandwidth_type(s: Seq<char>, i: int) -> Option<(int, BandWidthType)> {
    if occurs_at(s, i, "TIAS"@) {
        Some((i + "TIAS"@.len(), BandWidthType::TIAS))
    } else if occurs_at(s, i, "AS"@) {
        Some((i + "AS"@.len(), BandWidthType::AS))
    } else if occurs_at(s, i, "CT"@) {
        Some((i + "CT"@.len(), BandWidthType::CT))
    } else if occurs_at(s, i, "RR"@) {
        Some((i + "RR"@.len(), BandWidthType::RR))
    } else if occurs_at(s, i, "RS"@) {
        Some((i + "RS"@.len(), BandWidthType::RS))
    } else {
        None
    }
}

/// Read a bandwidth kind tag at `i`.
pub fn bandwidth_type(input: &str, i: usize) -> (r: Option<(usize, BandWidthType)>)
    requires
        i <= input@.len(),
    ensures
        match r {
            Some((j, v)) => {
                &&& spec_bandwidth_type(input@, i as int) == Some((j as int, v))
                &&& i <= j <= input@.len()
            },
            None => spec_bandwidth_type(input@, i as int) is None,
        },
{
    let n = input.unicode_len();
    if match_lit(input, i, "TIAS") {
        Some((i + "TIAS".unicode_len(), BandWidthType::TIAS))
    } else if match_lit(input, i, "AS") {
        Some((i + "AS".unicode_len(), BandWidthType::AS))
    } else if match_lit(input, i, "CT") {
        Some((i + "CT".unicode_len(), BandWidthType::CT))
    } else if match_lit(input, i, "RR") {
        Some((i + "RR".unicode_len(), BandWidthType::RR))
    } else if match_lit(input, i, "RS") {
        Some((i + "RS".unicode_len(), BandWidthType::RS))
    } else {
        None
    }
}

pub open spec fn spec_bandwidth(s: Seq<char>, i: int) -> Option<(int, BandWidth)> {
    match spec_bandwidth_type(s, i) {
        Some((j, kind)) => {
            if occurs_at(s, j, ":"@) {
                match spec_read_num(s, j + ":"@.len(), u32::MAX as int) {
                    Some((e, limit)) => Some(
                        (e, BandWidth { kind, limit: limit as u32 }),
                    ),
                    None => None,
                }
            } else {
                None
            }
        },
        None => None,
    }
}

/// Read a bandwidth body, `<kind>:<limit>`, at `i`.
pub fn bandwidth(input: &str, i: usize) -> (r: Option<(usize, BandWidth)>)
    requires
        i <= input@.len(),
    ensures
        match r {
            Some((j, v)) => {
                &&& spec_bandwidth(input@, i as int) == Some((j as int, v))
                &&& i <= j <= input@.len()
            },
            None => spec_bandwidth(input@, i as int) is None,
        },
{
    match bandwidth_type(input, i) {
        Some((j, kind)) => {
            if match_lit(input, j, ":") {
                let n = input.unicode_len();
                let k = j + ":".unicode_len();
                assert(k <= n);
                match read_number(input, k) {
                    Some((e, limit)) => Some((e, BandWidth { kind, limit })),
                    None => None,
                }
            } else {
                None
            }
        },
        None => None,
    }
}

pub open spec fn spec_bandwidth_line(s: Seq<char>) -> Option<BandWidth> {
    if occurs_at(s, 0, "b="@) {
        match spec_bandwidth(s, "b="@.len() as int) {
            Some((e, v)) => {
                if skip_wsp(s, e) == s.len() {
                    Some(v)
                } else {
                    None
                }
            },
            None => None,
        }
    } else {
        None
    }
}

/// Parse a `b=` line.
pub fn bandwidth_line(input: &str) -> (r: Option<BandWidth>)
    ensures
        r == spec_bandwidth_line(input@),
{
    if match_lit(input, 0, "b=") {
        match bandwidth(input, "b=".unicode_len()) {
            Some((e, v)) => {
                if at_end(input, e) {
                    Some(v)
                } else {
                    None
                }
            },
            None => None,
        }
    } else {
        None
    }
}

pub open spec fn spec_render_bandwidth_type(k: BandWidthType) -> Seq<char> {
    match k {
        BandWidthType::TIAS => "TIAS"@,
        BandWidthType::AS => "AS"@,
        BandWidthType::CT => "CT"@,
        BandWidthType::RR => "RR"@,
        BandWidthType::RS => "RS"@,
    }
}

pub open spec fn spec_render_bandwidth(b: BandWidth) -> Seq<char> {
    "b="@ + spec_render_bandwidth_type(b.kind) + ":"@ + dec_str(b.limit as int)
}

impl BandWidth {
    /// Render as `b=<kind>:<limit>`.
    pub fn to_string(&self) -> (r: String)
        ensures
            r@ == spec_render_bandwidth(*self),
    {
        let mut out = "b=".to_owned();
        let kind = match self.kind {
            BandWidthType::TIAS => "TIAS",
            BandWidthType::AS => "AS",
            BandWidthType::CT => "CT",
            BandWidthType::RR => "RR",
            BandWidthType::RS => "RS",
        };
        out.append(kind);
        out.append(":");
        out.append(u32_to_string(self.limit).as_str());
        out
    }
}

// ---------------------------------------------------------------------------
// comments
// ---------------------------------------------------------------------------

pub open spec fn spec_comment_line(s: Seq<char>) -> Option<Seq<char>> {
    if occurs_at(s, 0, ";"@) {
        Some(spec_read_everything(s, ";"@.len() as int))
    } else {
        None
    }
}

/// Parse a `;`-prefixed comment line (tolerated, non-standard).
pub fn comment_line(input: &str) -> (r: Option<String>)
    ensures
        r.deep_view() == spec_comment_line(input@),
{
    if match_lit(input, 0, ";") {
        Some(read_everything(input, ";".unicode_len()))
    } else {
        None
    }
}

// ---------------------------------------------------------------------------
// the dispatcher over all session-line kinds
// ---------------------------------------------------------------------------

/// One parsed line that does not start with `a=`.
#[derive(Clone, PartialEq, Debug)]
pub enum SessionLine {
    Version(Version),
    Name(SessionName),
    Timing(Timing),
    Origin(Origin),
    BandWidth(BandWidth),
    Uri(Uri),
    PhoneNumber(PhoneNumber),
    EmailAddress(EmailAddress),
    Connection(Connection),
    Description(SessionInformation),
    Media(Media),
}

/// Spec model of [`SessionLine`].
pub ghost enum SessionLineV {
    Version(Version),
    Name(Seq<char>),
    Timing(Timing),
    Origin(OriginV),
    BandWidth(BandWidth),
    Uri(Seq<char>),
    PhoneNumber(Seq<char>),
    EmailAddress(Seq<char>),
    Connection(ConnectionV),
    Description(Seq<char>),
    Media(MediaV),
}

impl DeepView for SessionLine {
    type V = SessionLineV;

    open spec fn deep_view(&self) -> SessionLineV {
        match self {
            SessionLine::Version(v) => SessionLineV::Version(v.deep_view()),
            SessionLine::Name(v) => SessionLineV::Name(v.deep_view()),
            SessionLine::Timing(v) => SessionLineV::Timing(v.deep_view()),
            SessionLine::Origin(v) => SessionLineV::Origin(v.deep_view()),
            SessionLine::BandWidth(v) => SessionLineV::BandWidth(v.deep_view()),
            SessionLine::Uri(v) => SessionLineV::Uri(v.deep_view()),
            SessionLine::PhoneNumber(v) => SessionLineV::PhoneNumber(v.deep_view()),
            SessionLine::EmailAddress(v) => SessionLineV::EmailAddress(v.deep_view()),
            SessionLine::Connection(v) => SessionLineV::Connection(v.deep_view()),
            SessionLine::Description(v) => SessionLineV::Description(v.deep_view()),
            SessionLine::Media(v) => SessionLineV::Media(v.deep_view()),
        }
    }
}

/// The session-line grammars tried in order.
pub open spec fn spec_session_line(s: Seq<char>) -> Option<SessionLineV> {
    if spec_version_line(s) is Some {
        Some(SessionLineV::Version(spec_version_line(s).unwrap()))
    } else if spec_name_line(s) is Some {
        Some(SessionLineV::Name(spec_name_line(s).unwrap()))
    } else if spec_description_line(s) is Some {
        Some(SessionLineV::Description(spec_description_line(s).unwrap()))
    } else if spec_bandwidth_line(s) is Some {
        Some(SessionLineV::BandWidth(spec_bandwidth_line(s).unwrap()))
    } else if spec_uri_line(s) is Some {
        Some(SessionLineV::Uri(spec_uri_line(s).unwrap()))
    } else if spec_timing_line(s) is Some {
        Some(SessionLineV::Timing(spec_timing_line(s).unwrap()))
    } else if spec_phone_number_line(s) is Some {
        Some(SessionLineV::PhoneNumber(spec_phone_number_line(s).unwrap()))
    } else if spec_email_address_line(s) is Some {
        Some(SessionLineV::EmailAddress(spec_email_address_line(s).unwrap()))
    } else if spec_origin_line(s) is Some {
        Some(SessionLineV::Origin(spec_origin_line(s).unwrap()))
    } else if spec_connection_line(s) is Some {
        Some(SessionLineV::Connection(spec_connection_line(s).unwrap()))
    } else if spec_media_line(s) is Some {
        Some(SessionLineV::Media(spec_media_line(s).unwrap()))
    } else {
        None
    }
}

/// Parse one line against every session-line grammar, in order.
pub fn session_line(input: &str) -> (r: Option<SessionLine>)
    ensures
        r.deep_view() == spec_session_line(input@),
{
    if let Some(v) = version_line(input) {
        Some(SessionLine::Version(v))
    } else if let Some(v) = name_line(input) {
        Some(SessionLine::Name(v))
    } else if let Some(v) = description_line(input) {
        Some(SessionLine::Description(v))
    } else if let Some(v) = bandwidth_line(input) {
        Some(SessionLine::BandWidth(v))
    } else if let Some(v) = uri_line(input) {
        Some(SessionLine::Uri(v))
    } else if let Some(v) = timing_line(input) {
        Some(SessionLine::Timing(v))
    } else if let Some(v) = phone_number_line(input) {
        Some(SessionLine::PhoneNumber(v))
    } else if let Some(v) = email_address_line(input) {
        Some(SessionLine::EmailAddress(v))
    } else if let Some(v) = origin_line(input) {
        Some(SessionLine::Origin(v))
    } else if let Some(v) = connection_line(input) {
        Some(SessionLine::Connection(v))
    } else if let Some(v) = media_line(input) {
        Some(SessionLine::Media(v))
    } else {
        None
    }
}

pub open spec fn spec_render_session_line(v: SessionLineV) -> Seq<char> {
    match v {
        SessionLineV::Version(x) => spec_render_version(x),
        SessionLineV::Name(x) => spec_render_name(x),
        SessionLineV::Timing(x) => spec_render_timing(x),
        SessionLineV::Origin(x) => spec_render_origin(x),
        SessionLineV::BandWidth(x) => spec_render_bandwidth(x),
        SessionLineV::Uri(x) => spec_render_uri(x),
        SessionLineV::PhoneNumber(x) => spec_render_phone(x),
        SessionLineV::EmailAddress(x) => spec_render_email(x),
        SessionLineV::Connection(x) => spec_render_connection(x),
        SessionLineV::Description(x) => spec_render_description(x),
        SessionLineV::Media(x) => spec_render_media(x),
    }
}

impl SessionLine {
    /// Render the line in its canonical form.
    pub fn to_string(&self) -> (r: String)
        ensures
            r@ == spec_render_session_line(self.deep_view()),
    {
        match self {
            SessionLine::Version(x) => x.to_string(),
            SessionLine::Name(x) => x.to_string(),
            SessionLine::Timing(x) => x.to_string(),
            SessionLine::Origin(x) => x.to_string(),
            SessionLine::BandWidth(x) => x.to_string(),
            SessionLine::Uri(x) => x.to_string(),
            SessionLine::PhoneNumber(x) => x.to_string(),
            SessionLine::EmailAddress(x) => x.to_string(),
            SessionLine::Connection(x) => x.to_string(),
            SessionLine::Description(x) => x.to_string(),
            SessionLine::Media(x) => x.to_string(),
        }
    }

    /// Detach the line into independently owned storage.
    pub fn into_owned(&self) -> (r: SessionLine)
        ensures
            r.deep_view() == self.deep_view(),
    {
        match self {
            SessionLine::Version(x) => SessionLine::Version(*x),
            SessionLine::Name(x) => SessionLine::Name(SessionName(x.0.clone())),
            SessionLine::Timing(x) => SessionLine::Timing(*x),
            SessionLine::Origin(x) => SessionLine::Origin(x.into_owned()),
            SessionLine::BandWidth(x) => SessionLine::BandWidth(*x),
            SessionLine::Uri(x) => SessionLine::Uri(Uri(x.0.clone())),
            SessionLine::PhoneNumber(x) => SessionLine::PhoneNumber(PhoneNumber(x.0.clone())),
            SessionLine::EmailAddress(x) => SessionLine::EmailAddress(EmailAddress(x.0.clone())),
            SessionLine::Connection(x) => SessionLine::Connection(x.into_owned()),
            SessionLine::Description(x) => SessionLine::Description(
                SessionInformation(x.0.clone()),
            ),
            SessionLine::Media(x) => SessionLine::Media(x.into_owned()),
        }
    }
}

} // verus!
