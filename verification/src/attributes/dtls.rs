//! The `a=setup:` (DTLS setup role) grammar.

use vstd::prelude::*;

use crate::parsers::{at_end, match_lit, occurs_at, skip_wsp};

verus! {

/// DTLS setup role, `a=setup:actpass`.
#[derive(Clone, Copy, PartialEq, Eq, Structural, Debug)]
pub enum SetupRole {
    Active,
    Passive,
    ActPass,
}

impl DeepView for SetupRole {
    type V = SetupRole;

    open spec fn deep_view(&self) -> SetupRole {
        *self
    }
}

/// A bare setup-role word filling the input from `i` to the end.
pub open spec fn spec_read_setup_role(s: Seq<char>, i: int) -> Option<SetupRole> {
    if occurs_at(s, i, "active"@) && skip_wsp(s, i + "active"@.len()) == s.len() {
        Some(SetupRole::Active)
    } else if occurs_at(s, i, "passive"@) && skip_wsp(s, i + "passive"@.len()) == s.len() {
        Some(SetupRole::Passive)
    } else if occurs_at(s, i, "actpass"@) && skip_wsp(s, i + "actpass"@.len()) == s.len() {
        Some(SetupRole::ActPass)
    } else {
        None
    }
}

/// Read a bare setup-role word filling the input.
pub fn read_setup_role(input: &str) -> (r: Option<SetupRole>)
    ensures
        r == spec_read_setup_role(input@, 0),
{
    let n = input.unicode_len();
    if match_lit(input, 0, "active") {
        let m = "active".unicode_len();
        assert(m <= n);
        if at_end(input, m) {
            return Some(SetupRole::Active);
        }
    }
    if match_lit(input, 0, "passive") {
        let m = "passive".unicode_len();
        assert(m <= n);
        if at_end(input, m) {
            return Some(SetupRole::Passive);
        }
    }
    if match_lit(input, 0, "actpass") {
        let m = "actpass".unicode_len();
        assert(m <= n);
        if at_end(input, m) {
            return Some(SetupRole::ActPass);
        }
    }
    None
}

pub open spec fn spec_setup_role_line(s: Seq<char>) -> Option<SetupRole> {
    if occurs_at(s, 0, "a=setup:active"@) && skip_wsp(s, "a=setup:active"@.len() as int)
        == s.len() {
        Some(SetupRole::Active)
    } else if occurs_at(s, 0, "a=setup:passive"@) && skip_wsp(
        s,
        "a=setup:passive"@.len() as int,
    ) == s.len() {
        Some(SetupRole::Passive)
    } else if occurs_at(s, 0, "a=setup:actpass"@) && skip_wsp(
        s,
        "a=setup:actpass"@.len() as int,
    ) == s.len() {
        Some(SetupRole::ActPass)
    } else {
        None
    }
}

/// Parse an `a=setup:` line.
pub fn setup_role_line(input: &str) -> (r: Option<SetupRole>)
    ensures
        r == spec_setup_role_line(input@),
{
    let n = input.unicode_len();
    if match_lit(input, 0, "a=setup:active") {
        let m = "a=setup:active".unicode_len();
        assert(m <= n);
        if at_end(input, m) {
            return Some(SetupRole::Active);
        }
    }
    if match_lit(input, 0, "a=setup:passive") {
        let m = "a=setup:passive".unicode_len();
        assert(m <= n);
        if at_end(input, m) {
            return Some(SetupRole::Passive);
        }
    }
    if match_lit(input, 0, "a=setup:actpass") {
        let m = "a=setup:actpass".unicode_len();
        assert(m <= n);
        if at_end(input, m) {
            return Some(SetupRole::ActPass);
        }
    }
    None
}

pub open spec fn spec_render_setup_role(v: SetupRole) -> Seq<char> {
    match v {
        SetupRole::Active => "a=setup:active"@,
        SetupRole::Passive => "a=setup:passive"@,
        SetupRole::ActPass => "a=setup:actpass"@,
    }
}

impl SetupRole {
    /// Render as `a=setup:<role>`.
    pub fn to_string(&self) -> (r: String)
        ensures
            r@ == spec_render_setup_role(*self),
    {
        match self {
            SetupRole::Active => "a=setup:active".to_owned(),
            SetupRole::Passive => "a=setup:passive".to_owned(),
            SetupRole::ActPass => "a=setup:actpass".to_owned(),
        }
    }
}

} // verus!
