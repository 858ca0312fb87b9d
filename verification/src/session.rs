//! Whether the session is a Hyprland session.

use vstd::prelude::*;
use vstd::string::*;

use crate::monitors::{any_enabled, Monitor};
use crate::text::{chars_of, eq_ignore_ascii_case, folded, trim, trimmed};

verus! {

/// The characters between which a desktop value lists its names.
pub open spec fn is_desktop_separator(c: char) -> bool {
    c == ':' || c == ';'
}

/// Whether `value[i..j]` is one of the names that `value` lists.
pub open spec fn is_listed_name(value: Seq<char>, i: int, j: int) -> bool {
    &&& 0 <= i <= j <= value.len()
    &&& i == 0 || is_desktop_separator(value[i - 1])
    &&& j == value.len() || is_desktop_separator(value[j])
    &&& forall|k: int| i <= k < j ==> !is_desktop_separator(#[trigger] value[k])
}

/// Whether `name` says Hyprland, but for the white space around it and the
/// case of ASCII letters.
pub open spec fn says_hyprland(name: Seq<char>) -> bool {
    folded(trimmed(name)) == folded("hyprland"@)
}

/// Whether one of the names that `value` lists says Hyprland.
pub open spec fn mentions_hyprland(value: Seq<char>) -> bool {
    exists|i: int, j: int| #[trigger]
        is_listed_name(value, i, j) && says_hyprland(value.subrange(i, j))
}

fn name_says_hyprland(value: &str, from: usize, to: usize) -> (r: bool)
    requires
        from <= to <= value@.len(),
    ensures
        r == says_hyprland(value@.subrange(from as int, to as int)),
{
    eq_ignore_ascii_case(trim(value.substring_char(from, to)), "hyprland")
}

/// Whether a list of desktop names, between colons or semicolons, names
/// Hyprland.
pub fn desktop_mentions_hyprland(value: &str) -> (r: bool)
    ensures
        r == mentions_hyprland(value@),
{
    let v = chars_of(value);
    let mut from: usize = 0;
    let mut at: usize = 0;
    while at < v.len()
        invariant
            from <= at <= v.len(),
            v@ == value@,
            from == 0 || is_desktop_separator(value@[from - 1]),
            forall|k: int| from <= k < at ==> !is_desktop_separator(#[trigger] value@[k]),
            forall|i: int, j: int| #[trigger]
                is_listed_name(value@, i, j) && i < from ==> !says_hyprland(value@.subrange(i, j)),
        decreases v.len() - at,
    {
        if v[at] == ':' || v[at] == ';' {
            if name_says_hyprland(value, from, at) {
                assert(is_listed_name(value@, from as int, at as int));
                return true;
            }
            proof {
                assert forall|i: int, j: int| #[trigger]
                    is_listed_name(value@, i, j) && i < at + 1 implies !says_hyprland(
                    value@.subrange(i, j),
                ) by {
                    if i >= from {
                        if i > from {
                            assert(is_desktop_separator(value@[i - 1]));
                        }
                        if j < at {
                            assert(is_desktop_separator(value@[j]));
                        }
                        if j > at {
                            assert(is_desktop_separator(value@[at as int]));
                        }
                    }
                }
            }
            from = at + 1;
        }
        at = at + 1;
    }
    let r = name_says_hyprland(value, from, v.len());
    proof {
        assert(is_listed_name(value@, from as int, v.len() as int));
        assert forall|i: int, j: int| #[trigger]
            is_listed_name(value@, i, j) && i >= from implies i == from && j == v.len() by {
            if i > from {
                assert(is_desktop_separator(value@[i - 1]));
            }
            if j < v.len() {
                assert(is_desktop_separator(value@[j]));
            }
        }
    }
    r
}

/// Whether the environment marks a Hyprland session: it does where it holds
/// the compositor's signature or a desktop value that names Hyprland, but
/// never inside a nested Wayland session, which would otherwise act on the
/// windows of its host.
pub fn session_markers_indicate_hyprland(
    has_signature: bool,
    desktop: Option<&str>,
    nested_wayland: bool,
) -> (r: bool)
    ensures
        r == (!nested_wayland && (has_signature || (desktop matches Some(value)
            && mentions_hyprland(value@)))),
{
    if nested_wayland {
        return false;
    }
    if has_signature {
        return true;
    }
    match desktop {
        Some(value) => desktop_mentions_hyprland(value),
        None => false,
    }
}

/// Whether the session can be driven: it could before, or the environment
/// marks it and the compositor answers with an enabled monitor. `monitors` is
/// what the compositor answered, or nothing where it did not.
pub fn is_session(
    available_before: bool,
    marked: bool,
    monitors: Option<&[Monitor]>,
) -> (r: bool)
    ensures
        r == (available_before || (marked && (monitors matches Some(list) && exists|i: int|
            0 <= i < list@.len() && !(#[trigger] list@[i]).disabled))),
{
    if available_before {
        return true;
    }
    if !marked {
        return false;
    }
    match monitors {
        Some(list) => any_enabled(list),
        None => false,
    }
}

} // verus!
