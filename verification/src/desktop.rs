//! Defaults for the desktop shell's web view under Wayland.

use vstd::prelude::*;

use crate::text::{ascii_upper, equals_ascii_upper};

verus! {

/// The variable that disables WebKit's DMA-BUF renderer.
pub const WEBKIT_DISABLE_DMABUF_RENDERER: &'static str = "WEBKIT_DISABLE_DMABUF_RENDERER";

/// The variable that disables WebKit's compositing mode.
pub const WEBKIT_DISABLE_COMPOSITING_MODE: &'static str = "WEBKIT_DISABLE_COMPOSITING_MODE";

/// Whether the session is a Wayland one: `WAYLAND_DISPLAY` is set, or
/// `XDG_SESSION_TYPE` reads `wayland` in any ASCII case.
pub fn is_wayland_session(wayland_display_set: bool, session_type: Option<&str>) -> (r: bool)
    ensures
        r == (wayland_display_set || (session_type matches Some(t) && ascii_upper(t@)
            == "WAYLAND"@)),
{
    if wayland_display_set {
        return true;
    }
    match session_type {
        Some(t) => equals_ascii_upper(t, "WAYLAND"),
        None => false,
    }
}

/// The WebKit variables to set to `1` at start-up: under Wayland, each of
/// the two that is not set already; otherwise none.
pub fn webkit_overrides(is_wayland: bool, dmabuf_set: bool, compositing_set: bool) -> (r: Vec<
    &'static str,
>)
    ensures
        r@.map_values(|v: &'static str| v@) == if !is_wayland {
            Seq::<Seq<char>>::empty()
        } else if !dmabuf_set && !compositing_set {
            seq![WEBKIT_DISABLE_DMABUF_RENDERER@, WEBKIT_DISABLE_COMPOSITING_MODE@]
        } else if !dmabuf_set {
            seq![WEBKIT_DISABLE_DMABUF_RENDERER@]
        } else if !compositing_set {
            seq![WEBKIT_DISABLE_COMPOSITING_MODE@]
        } else {
            Seq::<Seq<char>>::empty()
        },
{
    let mut out: Vec<&'static str> = Vec::new();
    if !is_wayland {
        assert(out@.map_values(|v: &'static str| v@) =~= Seq::<Seq<char>>::empty());
        return out;
    }
    if !dmabuf_set {
        out.push(WEBKIT_DISABLE_DMABUF_RENDERER);
    }
    if !compositing_set {
        out.push(WEBKIT_DISABLE_COMPOSITING_MODE);
    }
    proof {
        let got = out@.map_values(|v: &'static str| v@);
        if !dmabuf_set && !compositing_set {
            assert(got =~= seq![WEBKIT_DISABLE_DMABUF_RENDERER@, WEBKIT_DISABLE_COMPOSITING_MODE@]);
        } else if !dmabuf_set {
            assert(got =~= seq![WEBKIT_DISABLE_DMABUF_RENDERER@]);
        } else if !compositing_set {
            assert(got =~= seq![WEBKIT_DISABLE_COMPOSITING_MODE@]);
        } else {
            assert(got =~= Seq::<Seq<char>>::empty());
        }
    }
    out
}

} // verus!
