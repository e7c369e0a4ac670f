//! The `a=rtpmap:` and `a=ptime:` family of grammars.

use vstd::prelude::*;

use crate::parsers::{at_end, dec_str, is_wsp, match_lit, occurs_at, read_non_slash_string,
    read_number, skip_wsp, skip_ws, spec_read_num, token_end, u32_to_string, StopAt};

verus! {

// ---------------------------------------------------------------------------
// ptime / minptime / maxptime
// ---------------------------------------------------------------------------

/// Packet time attribute, `a=ptime:20` and its min/max variants.
#[derive(Clone, Copy, PartialEq, Eq, Structural, Debug)]
pub enum PTime {
    MaxPTime(u32),
    MinPTime(u32),
    PTime(u32),
}

impl DeepView for PTime {
    type V = PTime;

    open spec fn deep_view(&self) -> PTime {
        *self
    }
}

/// One `a=<kind>ptime:<number>` line: the number runs to the end of the line.
pub open spec fn spec_ptime_num(s: Seq<char>, i: int) -> Option<u32> {
    match spec_read_num(s, i, u32::MAX as int) {
        Some((j, v)) => {
            if skip_wsp(s, j) == s.len() {
                Some(v as u32)
            } else {
                None
            }
        },
        None => None,
    }
}

pub open spec fn spec_read_p_time(s: Seq<char>) -> Option<PTime> {
    if occurs_at(s, 0, "a=ptime:"@) && spec_ptime_num(s, "a=ptime:"@.len() as int) is Some {
        Some(PTime::PTime(spec_ptime_num(s, "a=ptime:"@.len() as int).unwrap()))
    } else if occurs_at(s, 0, "a=minptime:"@) && spec_ptime_num(
        s,
        "a=minptime:"@.len() as int,
    ) is Some {
        Some(PTime::MinPTime(spec_ptime_num(s, "a=minptime:"@.len() as int).unwrap()))
    } else if occurs_at(s, 0, "a=maxptime:"@) && spec_ptime_num(
        s,
        "a=maxptime:"@.len() as int,
    ) is Some {
        Some(PTime::MaxPTime(spec_ptime_num(s, "a=maxptime:"@.len() as int).unwrap()))
    } else {
        None
    }
}

fn ptime_num(input: &str, i: usize) -> (r: Option<u32>)
    requires
        i <= input@.len(),
    ensures
        r == spec_ptime_num(input@, i as int),
{
    match read_number(input, i) {
        Some((j, v)) => {
            if at_end(input, j) {
                Some(v)
            } else {
                None
            }
        },
        None => None,
    }
}

/// Parse an `a=ptime:`, `a=minptime:` or `a=maxptime:` line.
pub fn read_p_time(input: &str) -> (r: Option<PTime>)
    ensures
        r == spec_read_p_time(input@),
{
    let n = input.unicode_len();
    if match_lit(input, 0, "a=ptime:") {
        let m = "a=ptime:".unicode_len();
        assert(m <= n);
        if let Some(v) = ptime_num(input, m) {
            return Some(PTime::PTime(v));
        }
    }
    if match_lit(input, 0, "a=minptime:") {
        let m = "a=minptime:".unicode_len();
        assert(m <= n);
        if let Some(v) = ptime_num(input, m) {
            return Some(PTime::MinPTime(v));
        }
    }
    if match_lit(input, 0, "a=maxptime:") {
        let m = "a=maxptime:".unicode_len();
        assert(m <= n);
        if let Some(v) = ptime_num(input, m) {
            return Some(PTime::MaxPTime(v));
        }
    }
    None
}

pub open spec fn spec_render_p_time(v: PTime) -> Seq<char> {
    match v {
        PTime::MaxPTime(x) => "a=maxptime:"@ + dec_str(x as int),
        PTime::MinPTime(x) => "a=minptime:"@ + dec_str(x as int),
        PTime::PTime(x) => "a=ptime:"@ + dec_str(x as int),
    }
}

impl PTime {
    /// Render as `a=<kind>ptime:<number>`.
    pub fn to_string(&self) -> (r: String)
        ensures
            r@ == spec_render_p_time(*self),
    {
        match self {
            PTime::MaxPTime(x) => {
                let mut out = "a=maxptime:".to_owned();
                out.append(u32_to_string(*x).as_str());
                out
            },
            PTime::MinPTime(x) => {
                let mut out = "a=minptime:".to_owned();
                out.append(u32_to_string(*x).as_str());
                out
            },
            PTime::PTime(x) => {
                let mut out = "a=ptime:".to_owned();
                out.append(u32_to_string(*x).as_str());
                out
            },
        }
    }
}

// ---------------------------------------------------------------------------
// rtpmap
// ---------------------------------------------------------------------------

/// Codec mapping, `a=rtpmap:111 opus/48000/2`; clock rate and encoding count
/// are optional (some codecs imply them).
#[derive(Clone, PartialEq, Eq, Debug)]
pub struct RtpMap {
    pub payload: u32,
    pub encoding_name: String,
    pub clock_rate: Option<u32>,
    pub encoding: Option<u32>,
}

/// Spec model of [`RtpMap`].
pub ghost struct RtpMapV {
    pub payload: u32,
    pub encoding_name: Seq<char>,
    pub clock_rate: Option<u32>,
    pub encoding: Option<u32>,
}

impl DeepView for RtpMap {
    type V = RtpMapV;

    open spec fn deep_view(&self) -> RtpMapV {
        RtpMapV {
            payload: self.payload,
            encoding_name: self.encoding_name@,
            clock_rate: self.clock_rate,
            encoding: self.encoding,
        }
    }
}

/// An optional `/<number>` at `i`; `(i, None)` where no slash stands, and no
/// match at all where a slash is not followed by a number.
pub open spec fn spec_opt_slash_num(s: Seq<char>, i: int) -> Option<(int, Option<u32>)> {
    if occurs_at(s, i, "/"@) {
        match spec_read_num(s, i + "/"@.len(), u32::MAX as int) {
            Some((j, v)) => Some((j, Some(v as u32))),
            None => None,
        }
    } else {
        Some((i, None))
    }
}

fn opt_slash_num(input: &str, i: usize) -> (r: Option<(usize, Option<u32>)>)
    requires
        i <= input@.len(),
    ensures
        match r {
            Some((j, v)) => {
                &&& spec_opt_slash_num(input@, i as int) == Some((j as int, v))
                &&& i <= j <= input@.len()
            },
            None => spec_opt_slash_num(input@, i as int) is None,
        },
{
    let n = input.unicode_len();
    if match_lit(input, i, "/") {
        let m = "/".unicode_len();
        assert(i + m <= n);
        match read_number(input, i + m) {
            Some((j, v)) => Some((j, Some(v))),
            None => None,
        }
    } else {
        Some((i, None))
    }
}

pub open spec fn spec_rtpmap_line(s: Seq<char>) -> Option<RtpMapV> {
    if occurs_at(s, 0, "a=rtpmap:"@) {
        match spec_read_num(s, "a=rtpmap:"@.len() as int, u32::MAX as int) {
            None => None,
            Some((j, payload)) => {
                if j < s.len() && is_wsp(s[j]) {
                    let k = skip_wsp(s, j);
                    let j2 = token_end(s, k, StopAt::Slash);
                    if j2 == k {
                        None
                    } else {
                        match spec_opt_slash_num(s, j2) {
                            None => None,
                            Some((j3, clock_rate)) => {
                                match spec_opt_slash_num(s, j3) {
                                    None => None,
                                    Some((j4, encoding)) => {
                                        if skip_wsp(s, j4) == s.len() {
                                            Some(
                                                (RtpMapV {
                                                    payload: payload as u32,
                                                    encoding_name: s.subrange(k, j2),
                                                    clock_rate,
                                                    encoding,
                                                }),
                                            )
                                        } else {
                                            None
                                        }
                                    },
                                }
                            },
                        }
                    }
                } else {
                    None
                }
            },
        }
    } else {
        None
    }
}

/// Parse an `a=rtpmap:` line.
pub fn rtpmap_line(input: &str) -> (r: Option<RtpMap>)
    ensures
        r.deep_view() == spec_rtpmap_line(input@),
{
    if !match_lit(input, 0, "a=rtpmap:") {
        return None;
    }
    let n = input.unicode_len();
    let m = "a=rtpmap:".unicode_len();
    assert(m <= n);
    let payload = match read_number(input, m) {
        Some(x) => x,
        None => {
            return None;
        },
    };
    let j = payload.0;
    if j >= n {
        return None;
    }
    let c = input.get_char(j);
    if !(c == ' ' || c == '\t' || c == '\r' || c == '\n') {
        return None;
    }
    let k = skip_ws(input, j);
    let name = match read_non_slash_string(input, k) {
        Some(x) => x,
        None => {
            return None;
        },
    };
    let clock = match opt_slash_num(input, name.0) {
        Some(x) => x,
        None => {
            return None;
        },
    };
    let enc = match opt_slash_num(input, clock.0) {
        Some(x) => x,
        None => {
            return None;
        },
    };
    if at_end(input, enc.0) {
        Some(
            RtpMap {
                payload: payload.1,
                encoding_name: name.1,
                clock_rate: clock.1,
                encoding: enc.1,
            },
        )
    } else {
        None
    }
}

pub open spec fn spec_render_rtpmap(v: RtpMapV) -> Seq<char> {
    let base = "a=rtpmap:"@ + dec_str(v.payload as int) + " "@ + v.encoding_name;
    let with_clock = match v.clock_rate {
        Some(c) => base + "/"@ + dec_str(c as int),
        None => base,
    };
    match v.encoding {
        Some(e) => with_clock + "/"@ + dec_str(e as int),
        None => with_clock,
    }
}

impl RtpMap {
    /// Render as `a=rtpmap:<payload> <name>[/<clock>[/<encoding>]]`.
    pub fn to_string(&self) -> (r: String)
        ensures
            r@ == spec_render_rtpmap(self.deep_view()),
    {
        let mut out = "a=rtpmap:".to_owned();
        out.append(u32_to_string(self.payload).as_str());
        out.append(" ");
        out.append(self.encoding_name.as_str());
        match &self.clock_rate {
            Some(c) => {
                out.append("/");
                out.append(u32_to_string(*c).as_str());
            },
            None => {},
        }
        match &self.encoding {
            Some(e) => {
                out.append("/");
                out.append(u32_to_string(*e).as_str());
            },
            None => {},
        }
        out
    }

    /// Detach the mapping into independently owned storage.
    pub fn into_owned(&self) -> (r: RtpMap)
        ensures
            r.deep_view() == self.deep_view(),
    {
        RtpMap {
            payload: self.payload,
            encoding_name: self.encoding_name.clone(),
            clock_rate: self.clock_rate,
            encoding: self.encoding,
        }
    }
}

} // verus!
