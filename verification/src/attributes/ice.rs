//! The `a=ice-*` (ICE parameter) grammars.

use vstd::prelude::*;

use crate::parsers::{at_end, match_lit, occurs_at, skip_wsp, spec_token_to_end, token_to_end};

verus! {

/// One ICE parameter line.
#[derive(Clone, PartialEq, Eq, Debug)]
pub enum IceParameter {
    Ufrag(String),
    Pwd(String),
    Options(String),
    Mismatch,
    Lite,
}

/// Spec model of [`IceParameter`].
pub ghost enum IceParameterV {
    Ufrag(Seq<char>),
    Pwd(Seq<char>),
    Options(Seq<char>),
    Mismatch,
    Lite,
}

impl DeepView for IceParameter {
    type V = IceParameterV;

    open spec fn deep_view(&self) -> IceParameterV {
        match self {
            IceParameter::Ufrag(t) => IceParameterV::Ufrag(t@),
            IceParameter::Pwd(t) => IceParameterV::Pwd(t@),
            IceParameter::Options(t) => IceParameterV::Options(t@),
            IceParameter::Mismatch => IceParameterV::Mismatch,
            IceParameter::Lite => IceParameterV::Lite,
        }
    }
}

/// Collected ICE parameters of one media section.
#[derive(Clone, PartialEq, Eq, Debug, Default)]
pub struct Ice {
    pub ufrag: Option<String>,
    pub pwd: Option<String>,
    pub options: Option<String>,
}

/// Spec model of [`Ice`].
pub ghost struct IceV {
    pub ufrag: Option<Seq<char>>,
    pub pwd: Option<Seq<char>>,
    pub options: Option<Seq<char>>,
}

impl DeepView for Ice {
    type V = IceV;

    open spec fn deep_view(&self) -> IceV {
        IceV {
            ufrag: self.ufrag.deep_view(),
            pwd: self.pwd.deep_view(),
            options: self.options.deep_view(),
        }
    }
}

pub open spec fn spec_ice_parameter_line(s: Seq<char>) -> Option<IceParameterV> {
    if occurs_at(s, 0, "a=ice-ufrag:"@) && spec_token_to_end(
        s,
        "a=ice-ufrag:"@.len() as int,
    ) is Some {
        Some(IceParameterV::Ufrag(spec_token_to_end(s, "a=ice-ufrag:"@.len() as int).unwrap()))
    } else if occurs_at(s, 0, "a=ice-pwd:"@) && spec_token_to_end(
        s,
        "a=ice-pwd:"@.len() as int,
    ) is Some {
        Some(IceParameterV::Pwd(spec_token_to_end(s, "a=ice-pwd:"@.len() as int).unwrap()))
    } else if occurs_at(s, 0, "a=ice-options:"@) && spec_token_to_end(
        s,
        "a=ice-options:"@.len() as int,
    ) is Some {
        Some(
            IceParameterV::Options(spec_token_to_end(s, "a=ice-options:"@.len() as int).unwrap()),
        )
    } else if occurs_at(s, 0, "a=ice-mismatch"@) && skip_wsp(s, "a=ice-mismatch"@.len() as int)
        == s.len() {
        Some(IceParameterV::Mismatch)
    } else if occurs_at(s, 0, "a=ice-lite"@) && skip_wsp(s, "a=ice-lite"@.len() as int)
        == s.len() {
        Some(IceParameterV::Lite)
    } else {
        None
    }
}

/// Parse an `a=ice-*` line.
pub fn ice_parameter_line(input: &str) -> (r: Option<IceParameter>)
    ensures
        r.deep_view() == spec_ice_parameter_line(input@),
{
    let n = input.unicode_len();
    if match_lit(input, 0, "a=ice-ufrag:") {
        let m = "a=ice-ufrag:".unicode_len();
        assert(m <= n);
        if let Some(t) = token_to_end(input, m) {
            return Some(IceParameter::Ufrag(t));
        }
    }
    if match_lit(input, 0, "a=ice-pwd:") {
        let m = "a=ice-pwd:".unicode_len();
        assert(m <= n);
        if let Some(t) = token_to_end(input, m) {
            return Some(IceParameter::Pwd(t));
        }
    }
    if match_lit(input, 0, "a=ice-options:") {
        let m = "a=ice-options:".unicode_len();
        assert(m <= n);
        if let Some(t) = token_to_end(input, m) {
            return Some(IceParameter::Options(t));
        }
    }
    if match_lit(input, 0, "a=ice-mismatch") {
        let m = "a=ice-mismatch".unicode_len();
        assert(m <= n);
        if at_end(input, m) {
            return Some(IceParameter::Mismatch);
        }
    }
    if match_lit(input, 0, "a=ice-lite") {
        let m = "a=ice-lite".unicode_len();
        assert(m <= n);
        if at_end(input, m) {
            return Some(IceParameter::Lite);
        }
    }
    None
}

pub open spec fn spec_render_ice_parameter(v: IceParameterV) -> Seq<char> {
    match v {
        IceParameterV::Ufrag(t) => "a=ice-ufrag:"@ + t,
        IceParameterV::Pwd(t) => "a=ice-pwd:"@ + t,
        IceParameterV::Options(t) => "a=ice-options:"@ + t,
        IceParameterV::Mismatch => "a=ice-mismatch"@,
        IceParameterV::Lite => "a=ice-lite"@,
    }
}

impl IceParameter {
    /// Render as `a=ice-<kind>[:<value>]`.
    pub fn to_string(&self) -> (r: String)
        ensures
            r@ == spec_render_ice_parameter(self.deep_view()),
    {
        match self {
            IceParameter::Ufrag(t) => {
                let mut out = "a=ice-ufrag:".to_owned();
                out.append(t.as_str());
                out
            },
            IceParameter::Pwd(t) => {
                let mut out = "a=ice-pwd:".to_owned();
                out.append(t.as_str());
                out
            },
            IceParameter::Options(t) => {
                let mut out = "a=ice-options:".to_owned();
                out.append(t.as_str());
                out
            },
            IceParameter::Mismatch => "a=ice-mismatch".to_owned(),
            IceParameter::Lite => "a=ice-lite".to_owned(),
        }
    }

    /// Detach the parameter into independently owned storage.
    pub fn into_owned(&self) -> (r: IceParameter)
        ensures
            r.deep_view() == self.deep_view(),
    {
        match self {
            IceParameter::Ufrag(t) => IceParameter::Ufrag(t.clone()),
            IceParameter::Pwd(t) => IceParameter::Pwd(t.clone()),
            IceParameter::Options(t) => IceParameter::Options(t.clone()),
            IceParameter::Mismatch => IceParameter::Mismatch,
            IceParameter::Lite => IceParameter::Lite,
        }
    }
}

impl Ice {
    /// An empty parameter set.
    pub fn new() -> (r: Ice)
        ensures
            r.ufrag is None && r.pwd is None && r.options is None,
    {
        Ice { ufrag: None, pwd: None, options: None }
    }

    /// Detach the parameters into independently owned storage.
    pub fn into_owned(&self) -> (r: Ice)
        ensures
            r.deep_view() == self.deep_view(),
    {
        Ice {
            ufrag: match &self.ufrag {
                Some(t) => Some(t.clone()),
                None => None,
            },
            pwd: match &self.pwd {
                Some(t) => Some(t.clone()),
                None => None,
            },
            options: match &self.options {
                Some(t) => Some(t.clone()),
                None => None,
            },
        }
    }
}

} // verus!
