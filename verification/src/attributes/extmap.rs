//! The `a=extmap:` (RTP header extension map) grammar.

use vstd::prelude::*;

use crate::attributes::{read_direction, spec_read_direction, spec_render_direction_word,
    Direction};
use crate::parsers::{append_prefixed, at_end, clone_strings, dec_str, match_lit, occurs_at,
    read_as_strings, read_number, read_string, skip_wsp, skip_ws, spec_cat_prefixed, spec_read_num,
    spec_space_tokens, token_end, u32_to_string, StopAt};

verus! {

/// Extension map, `a=extmap:<value>["/"<direction>] <URI> <attribute>*`.
#[derive(Clone, PartialEq, Eq, Debug)]
pub struct Extmap {
    pub value: u32,
    pub direction: Option<Direction>,
    pub uri: String,
    pub attributes: Vec<String>,
}

/// Spec model of [`Extmap`].
pub ghost struct ExtmapV {
    pub value: u32,
    pub direction: Option<Direction>,
    pub uri: Seq<char>,
    pub attributes: Seq<Seq<char>>,
}

impl DeepView for Extmap {
    type V = ExtmapV;

    open spec fn deep_view(&self) -> ExtmapV {
        ExtmapV {
            value: self.value,
            direction: self.direction,
            uri: self.uri@,
            attributes: self.attributes.deep_view(),
        }
    }
}

/// The extmap body from `i` to the end of the line.
pub open spec fn spec_read_extmap(s: Seq<char>, i: int) -> Option<ExtmapV> {
    let i1 = skip_wsp(s, i);
    match spec_read_num(s, i1, u32::MAX as int) {
            None => None,
            Some((j, value)) => {
                let dir: Option<(int, Option<Direction>)> = if occurs_at(s, j, "/"@) {
                    match spec_read_direction(s, j + "/"@.len()) {
                        Some((j2, d)) => Some((j2, Some(d))),
                        None => None,
                    }
                } else {
                    Some((j, None))
                };
                match dir {
                    None => None,
                    Some((j3, direction)) => {
                        let k = skip_wsp(s, j3);
                        let j4 = token_end(s, k, StopAt::Space);
                        if j4 == k {
                            None
                        } else {
                            let k2 = skip_wsp(s, j4);
                            let (e, attributes) = spec_space_tokens(s, k2);
                            if skip_wsp(s, e) == s.len() {
                                Some(
                                    (ExtmapV {
                                        value: value as u32,
                                        direction,
                                        uri: s.subrange(k, j4),
                                        attributes,
                                    }),
                                )
                            } else {
                                None
                            }
                        }
                    },
                }
            },
        }
}

pub open spec fn spec_extmap_line(s: Seq<char>) -> Option<ExtmapV> {
    if occurs_at(s, 0, "a=extmap:"@) {
        spec_read_extmap(s, "a=extmap:"@.len() as int)
    } else {
        None
    }
}

/// Read an extmap body from `i` to the end of the line.
pub fn read_extmap(input: &str, i: usize) -> (r: Option<Extmap>)
    requires
        i <= input@.len(),
    ensures
        r.deep_view() == spec_read_extmap(input@, i as int),
{
    let n = input.unicode_len();
    let i = skip_ws(input, i);
    let value = match read_number(input, i) {
        Some(x) => x,
        None => {
            return None;
        },
    };
    let j = value.0;
    let direction: Option<Direction>;
    let j3: usize;
    if match_lit(input, j, "/") {
        let ms = "/".unicode_len();
        assert(j + ms <= n);
        match read_direction(input, j + ms) {
            Some((j2, d)) => {
                direction = Some(d);
                j3 = j2;
            },
            None => {
                return None;
            },
        }
    } else {
        direction = None;
        j3 = j;
    }
    let k = skip_ws(input, j3);
    let uri = match read_string(input, k) {
        Some(x) => x,
        None => {
            return None;
        },
    };
    let k2 = skip_ws(input, uri.0);
    let attrs = read_as_strings(input, k2);
    if at_end(input, attrs.0) {
        Some(Extmap { value: value.1, direction, uri: uri.1, attributes: attrs.1 })
    } else {
        None
    }
}

/// Parse an `a=extmap:` line.
pub fn extmap_line(input: &str) -> (r: Option<Extmap>)
    ensures
        r.deep_view() == spec_extmap_line(input@),
{
    if !match_lit(input, 0, "a=extmap:") {
        return None;
    }
    let n = input.unicode_len();
    let m = "a=extmap:".unicode_len();
    assert(m <= n);
    read_extmap(input, m)
}

pub open spec fn spec_render_extmap(v: ExtmapV) -> Seq<char> {
    let head = match v.direction {
        Some(d) => "a=extmap:"@ + dec_str(v.value as int) + "/"@ + spec_render_direction_word(d),
        None => "a=extmap:"@ + dec_str(v.value as int),
    };
    head + " "@ + v.uri + spec_cat_prefixed(v.attributes, " "@)
}

impl Extmap {
    /// Render as `a=extmap:<value>[/<direction>] <uri> <attribute>*`.
    pub fn to_string(&self) -> (r: String)
        ensures
            r@ == spec_render_extmap(self.deep_view()),
    {
        let mut out = "a=extmap:".to_owned();
        out.append(u32_to_string(self.value).as_str());
        match &self.direction {
            Some(d) => {
                out.append("/");
                let w = match d {
                    Direction::SendOnly => "sendonly",
                    Direction::SendRecv => "sendrecv",
                    Direction::RecvOnly => "recvonly",
                    Direction::Inactive => "inactive",
                };
                out.append(w);
            },
            None => {},
        }
        out.append(" ");
        out.append(self.uri.as_str());
        append_prefixed(&mut out, &self.attributes, " ");
        out
    }

    /// Detach the extension map into independently owned storage.
    pub fn into_owned(&self) -> (r: Extmap)
        ensures
            r.deep_view() == self.deep_view(),
    {
        Extmap {
            value: self.value,
            direction: self.direction,
            uri: self.uri.clone(),
            attributes: clone_strings(&self.attributes),
        }
    }
}

} // verus!
