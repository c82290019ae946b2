//! The two stores, as pure operations over what the filesystem held:
//! the onboarding state store (read with first-run default, write as
//! pretty-printed JSON) and the verbatim configuration text store.

use vstd::prelude::*;
use crate::json::{sp_key, sp_ws};
use crate::parse::{corrupt_msg, parse_document, sp_document, sp_state_fields, sp_state_value};
use crate::render::state_text;
use crate::state::{default_state, OnboardingState};

verus! {

/// The state store's read: `content` is the state file's text, `None` when
/// the file does not exist. A missing file is the expected first run and
/// yields the structural default; an existing file either parses to its
/// document or fails with the corruption error — never silently with the
/// default.
pub fn read_state(content: Option<&str>) -> (r: Result<OnboardingState, String>)
    ensures
        content is None ==> (r matches Ok(st) && st@ == default_state()),
        content matches Some(t) ==> match r {
            Ok(st) => sp_document(t@) == Some(st@),
            Err(e) => sp_document(t@) is None && e@ == corrupt_msg(),
        },
{
    match content {
        Some(t) => parse_document(t),
        None => Ok(OnboardingState::default()),
    }
}

/// The state store's write side: the exact text to put in the state file.
pub fn write_state_text(s: &OnboardingState) -> (r: String)
    ensures
        r@ == state_text(s@),
{
    crate::render::render_state(s)
}

/// The config store's read: the file's text verbatim, and the empty string
/// when the file does not exist — absence is not an error.
pub fn config_text(content: Option<String>) -> (r: String)
    ensures
        content matches Some(c) ==> r == c,
        content is None ==> r@ == Seq::<char>::empty(),
{
    match content {
        Some(c) => c,
        None => String::new(),
    }
}

/// A state file holding `{not json` is detected as corrupt: it denotes no
/// document, so reading it fails rather than yielding the default.
pub proof fn lemma_corrupt_text_detected()
    ensures
        sp_document("{not json"@) is None,
{
    reveal_strlit("{not json");
    let t = "{not json"@;
    assert(t.len() == 9);
    assert(sp_ws(t, 0) == 0);
    assert(sp_ws(t, 1) == 1);
    assert(sp_key(t, 1) is None);
    assert(sp_state_fields(t, 1, 9, None, None, None, None) is None);
    assert(sp_state_value(t, 0, 9) is None);
    assert(sp_document(t) is None);
}

} // verus!
