//! The `m=` (media descriptor) grammar:
//! `m=video 51744 RTP/AVP 126 97 98 34 31`.

use vstd::prelude::*;

use crate::parsers::{append_prefixed, at_end, clone_strings, dec_str, join_with, match_lit,
    occurs_at, read_as_strings, read_number, read_string, skip_wsp, skip_ws, slash_separated_strings,
    spec_cat_prefixed, spec_join_sep, spec_read_num, spec_slash_tokens, spec_space_tokens,
    token_end, u32_to_string, StopAt};

verus! {

/// Media descriptor line value.  The payload tokens are kept as text: some
/// valid payload fields are not numeric (`*` for BFCP data channels).
#[derive(Clone, PartialEq, Eq, Debug)]
pub struct Media {
    pub media_type: String,
    pub port: u32,
    pub protocol: Vec<String>,
    pub payloads: Vec<String>,
}

/// Spec model of [`Media`].
pub ghost struct MediaV {
    pub media_type: Seq<char>,
    pub port: u32,
    pub protocol: Seq<Seq<char>>,
    pub payloads: Seq<Seq<char>>,
}

impl DeepView for Media {
    type V = MediaV;

    open spec fn deep_view(&self) -> MediaV {
        MediaV {
            media_type: self.media_type@,
            port: self.port,
            protocol: self.protocol.deep_view(),
            payloads: self.payloads.deep_view(),
        }
    }
}

/// A whole `m=` line: media type, port, `/`-separated protocol tokens and
/// space-separated payload tokens.
pub open spec fn spec_media_line(s: Seq<char>) -> Option<MediaV> {
    if occurs_at(s, 0, "m="@) {
        let i = skip_wsp(s, "m="@.len() as int);
        let j1 = token_end(s, i, StopAt::Space);
        if j1 == i {
            None
        } else {
            let k1 = skip_wsp(s, j1);
            match spec_read_num(s, k1, u32::MAX as int) {
                None => None,
                Some((j2, port)) => {
                    let k2 = skip_wsp(s, j2);
                    let (e1, protocol) = spec_slash_tokens(s, k2);
                    let k3 = skip_wsp(s, e1);
                    let (e2, payloads) = spec_space_tokens(s, k3);
                    if skip_wsp(s, e2) == s.len() {
                        Some(
                            (MediaV {
                                media_type: s.subrange(i, j1),
                                port: port as u32,
                                protocol,
                                payloads,
                            }),
                        )
                    } else {
                        None
                    }
                },
            }
        }
    } else {
        None
    }
}

/// Parse an `m=` line.
pub fn media_line(input: &str) -> (r: Option<Media>)
    ensures
        r.deep_view() == spec_media_line(input@),
{
    if !match_lit(input, 0, "m=") {
        return None;
    }
    let i = skip_ws(input, "m=".unicode_len());
    let mt = match read_string(input, i) {
        Some(x) => x,
        None => {
            return None;
        },
    };
    let k1 = skip_ws(input, mt.0);
    let port = match read_number(input, k1) {
        Some(x) => x,
        None => {
            return None;
        },
    };
    let k2 = skip_ws(input, port.0);
    let protocol = slash_separated_strings(input, k2);
    let k3 = skip_ws(input, protocol.0);
    let payloads = read_as_strings(input, k3);
    if at_end(input, payloads.0) {
        Some(
            Media { media_type: mt.1, port: port.1, protocol: protocol.1, payloads: payloads.1 },
        )
    } else {
        None
    }
}

pub open spec fn spec_render_media(v: MediaV) -> Seq<char> {
    "m="@ + v.media_type + " "@ + dec_str(v.port as int) + " "@ + spec_join_sep(v.protocol, "/"@)
        + spec_cat_prefixed(v.payloads, " "@)
}

impl Media {
    /// Render as `m=<type> <port> <proto>/<proto>/... <payload> ...`.
    pub fn to_string(&self) -> (r: String)
        ensures
            r@ == spec_render_media(self.deep_view()),
    {
        let mut out = "m=".to_owned();
        out.append(self.media_type.as_str());
        out.append(" ");
        out.append(u32_to_string(self.port).as_str());
        out.append(" ");
        out.append(join_with(&self.protocol, "/").as_str());
        append_prefixed(&mut out, &self.payloads, " ");
        out
    }

    /// Detach the media descriptor into independently owned storage.
    pub fn into_owned(&self) -> (r: Media)
        ensures
            r.deep_view() == self.deep_view(),
    {
        Media {
            media_type: self.media_type.clone(),
            port: self.port,
            protocol: clone_strings(&self.protocol),
            payloads: clone_strings(&self.payloads),
        }
    }
}

} // verus!
