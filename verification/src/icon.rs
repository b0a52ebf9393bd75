//! Icon resolution: the fallback chain that turns an icon name plus an
//! optional custom theme path into a renderable image, degrading
//! gracefully. The actual lookups are the icon-theme collaborator's
//! work; the library fixes which lookups are attempted, in which order,
//! and which outcome wins.

use vstd::prelude::*;

use crate::opt_str_view;

verus! {

/// One step of the icon fallback chain, in the order they are tried:
/// the record's own theme path, then the default theme, then the
/// default theme's well-known "missing image" icon.
#[derive(Clone, Copy, PartialEq, Eq, Structural, Debug)]
pub enum IconStep {
    CustomPath,
    DefaultTheme,
    FallbackIcon,
}

/// Whether a record's icon-theme path asks for a custom lookup: the
/// path is present and non-empty.
pub open spec fn wants_custom_path(icon_theme_path: Option<Seq<char>>) -> bool {
    icon_theme_path matches Some(p) && p.len() > 0
}

/// The lookup steps to attempt for a record with this icon-theme path,
/// in order; the first one that succeeds wins.
pub fn icon_steps(icon_theme_path: &Option<String>) -> (v: Vec<IconStep>)
    ensures
        v@ == if wants_custom_path(opt_str_view(*icon_theme_path)) {
            seq![IconStep::CustomPath, IconStep::DefaultTheme, IconStep::FallbackIcon]
        } else {
            seq![IconStep::DefaultTheme, IconStep::FallbackIcon]
        },
{
    let mut v: Vec<IconStep> = Vec::new();
    let custom = match icon_theme_path {
        Some(p) => !p.as_str().is_empty(),
        None => false,
    };
    if custom {
        v.push(IconStep::CustomPath);
    }
    v.push(IconStep::DefaultTheme);
    v.push(IconStep::FallbackIcon);
    proof {
        if wants_custom_path(opt_str_view(*icon_theme_path)) {
            assert(v@ =~= seq![
                IconStep::CustomPath,
                IconStep::DefaultTheme,
                IconStep::FallbackIcon,
            ]);
        } else {
            assert(v@ =~= seq![IconStep::DefaultTheme, IconStep::FallbackIcon]);
        }
    }
    v
}

/// The step whose outcome the chain settles on: the first attempted
/// step that succeeded, or nothing when every attempted step failed.
/// The custom-path step is attempted only when the record asks for it.
pub open spec fn winning_step(
    wants_custom: bool,
    custom_ok: bool,
    default_ok: bool,
    fallback_ok: bool,
) -> Option<IconStep> {
    if wants_custom && custom_ok {
        Some(IconStep::CustomPath)
    } else if default_ok {
        Some(IconStep::DefaultTheme)
    } else if fallback_ok {
        Some(IconStep::FallbackIcon)
    } else {
        None
    }
}

/// Settle the fallback chain given the outcome each lookup would have.
/// `custom`, `default_theme` and `fallback` carry the image each step
/// would yield; the result is the image of the winning step, tagged
/// with which step won, or `None` when all attempted steps fail (the
/// caller then skips the item; resolution itself never errors).
pub fn resolve_icon<T>(
    wants_custom: bool,
    custom: Option<T>,
    default_theme: Option<T>,
    fallback: Option<T>,
) -> (r: Option<(IconStep, T)>)
    ensures
        match r {
            Some(p) => {
                &&& winning_step(wants_custom, custom is Some, default_theme is Some, fallback is Some)
                    == Some(p.0)
                &&& match p.0 {
                    IconStep::CustomPath => custom == Some(p.1),
                    IconStep::DefaultTheme => default_theme == Some(p.1),
                    IconStep::FallbackIcon => fallback == Some(p.1),
                }
            },
            None => winning_step(
                wants_custom,
                custom is Some,
                default_theme is Some,
                fallback is Some,
            ) is None,
        },
{
    if wants_custom {
        if let Some(img) = custom {
            return Some((IconStep::CustomPath, img));
        }
    }
    if let Some(img) = default_theme {
        return Some((IconStep::DefaultTheme, img));
    }
    if let Some(img) = fallback {
        return Some((IconStep::FallbackIcon, img));
    }
    None
}

} // verus!
