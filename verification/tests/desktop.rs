use oxban::desktop::{is_wayland_session, webkit_overrides};

#[test]
fn wayland_display_means_wayland() {
    assert!(is_wayland_session(true, None));
    assert!(is_wayland_session(true, Some("x11")));
}

#[test]
fn session_type_is_compared_ignoring_ascii_case() {
    assert!(is_wayland_session(false, Some("wayland")));
    assert!(is_wayland_session(false, Some("Wayland")));
    assert!(!is_wayland_session(false, Some("x11")));
    assert!(!is_wayland_session(false, Some("waylandx")));
    assert!(!is_wayland_session(false, None));
}

#[test]
fn webkit_overrides_only_unset_variables_under_wayland() {
    assert_eq!(
        webkit_overrides(true, false, false),
        vec!["WEBKIT_DISABLE_DMABUF_RENDERER", "WEBKIT_DISABLE_COMPOSITING_MODE"]
    );
    assert_eq!(webkit_overrides(true, true, false), vec!["WEBKIT_DISABLE_COMPOSITING_MODE"]);
    assert_eq!(webkit_overrides(true, false, true), vec!["WEBKIT_DISABLE_DMABUF_RENDERER"]);
    assert!(webkit_overrides(true, true, true).is_empty());
    assert!(webkit_overrides(false, false, false).is_empty());
}
