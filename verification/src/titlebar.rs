//! The titlebar: where its controls stand, in whole pixels, and which caption
//! buttons a Linux desktop gets.
use vstd::prelude::*;

use crate::nav::NavHistory;

verus! {

/// Space between the controls of one group.
pub const TITLEBAR_CONTROL_GAP: u128 = 2;

/// Space between two groups.
pub const TITLEBAR_GROUP_GAP: u128 = 8;

/// Space from the edge to the trailing action.
pub const TITLEBAR_ACTION_EDGE_INSET: u128 = 6;

/// Width of the buttons at the top left: the sidebar's, a gap, then two for the
/// history.
pub const CLUSTER_BUTTONS_WIDTH: u128 = 82;

/// Width that the action for a new session adds to them.
pub const TITLEBAR_ACTION_SLOT_WIDTH: u128 = 32;

/// Padding of their row.
pub const TITLEBAR_CLUSTER_PAD: u128 = 10;

/// Width of the caption buttons that Windows draws.
pub const WINDOWS_CAPTION_WIDTH: u128 = 108;

/// What a length leaves of another.
pub open spec fn less_pad(n: nat, pad: u64) -> nat {
    if n >= pad {
        (n - pad) as nat
    } else {
        0
    }
}

/// Where the controls start: past the traffic lights, which a full screen
/// hides.
pub open spec fn cluster_start(fullscreen: bool) -> nat {
    if fullscreen {
        12
    } else {
        88
    }
}

/// Where the controls start, from the window's left edge, on macOS.
pub fn titlebar_cluster_start(fullscreen: bool) -> (r: u128)
    ensures
        r as nat == cluster_start(fullscreen),
{
    if fullscreen {
        12
    } else {
        88
    }
}

/// Width of the space ahead of the controls in a strip with some padding of its
/// own; only macOS needs it.
pub fn titlebar_spacer_width(is_macos: bool, fullscreen: bool, container_pad: u64) -> (r: u128)
    ensures
        r as nat == if is_macos {
            less_pad(cluster_start(fullscreen), container_pad)
        } else {
            0
        },
{
    if !is_macos {
        return 0;
    }
    let start: u128 = titlebar_cluster_start(fullscreen);
    if start >= container_pad as u128 {
        start - container_pad as u128
    } else {
        0
    }
}

/// Width of a row of caption buttons.
pub open spec fn captions_px(count: nat) -> nat {
    if count == 0 {
        0
    } else {
        (count * 24 + (count - 1) * TITLEBAR_CONTROL_GAP) as nat
    }
}

/// Width of a row of `count` caption buttons.
pub fn caption_buttons_width(count: usize) -> (r: u128)
    ensures
        r as nat == captions_px(count as nat),
{
    if count == 0 {
        0
    } else {
        count as u128 * 24 + (count as u128 - 1) * TITLEBAR_CONTROL_GAP
    }
}

/// Where the first control starts.
pub open spec fn buttons_start(is_macos: bool, fullscreen: bool, left_captions: nat) -> nat {
    if is_macos {
        cluster_start(fullscreen)
    } else if left_captions > 0 {
        TITLEBAR_CLUSTER_PAD as nat + captions_px(left_captions) + TITLEBAR_CONTROL_GAP as nat
    } else {
        TITLEBAR_CLUSTER_PAD as nat
    }
}

/// Where the first control starts, from the window's left edge: past the
/// caption buttons that stand there.
pub fn cluster_buttons_start(is_macos: bool, fullscreen: bool, linux_left_captions: usize) -> (r: u128)
    ensures
        r as nat == buttons_start(is_macos, fullscreen, linux_left_captions as nat),
{
    if is_macos {
        titlebar_cluster_start(fullscreen)
    } else if linux_left_captions > 0 {
        TITLEBAR_CLUSTER_PAD + caption_buttons_width(linux_left_captions) + TITLEBAR_CONTROL_GAP
    } else {
        TITLEBAR_CLUSTER_PAD
    }
}

/// The space that a header over the whole width leaves at its left, past the
/// controls.
pub fn cluster_clearance(
    is_macos: bool,
    fullscreen: bool,
    linux_left_captions: usize,
    container_pad: u64,
) -> (r: u128)
    ensures
        r as nat == less_pad(
            buttons_start(is_macos, fullscreen, linux_left_captions as nat)
                + CLUSTER_BUTTONS_WIDTH as nat + TITLEBAR_GROUP_GAP as nat,
            container_pad,
        ),
{
    let n: u128 = cluster_buttons_start(is_macos, fullscreen, linux_left_captions)
        + CLUSTER_BUTTONS_WIDTH + TITLEBAR_GROUP_GAP;
    if n >= container_pad as u128 {
        n - container_pad as u128
    } else {
        0
    }
}

/// Where the titlebar's own content starts: `gap` past the controls.
pub fn title_bar_content_start(
    is_macos: bool,
    fullscreen: bool,
    linux_left_captions: usize,
    gap: u64,
) -> (r: u128)
    ensures
        r as nat == buttons_start(is_macos, fullscreen, linux_left_captions as nat)
            + CLUSTER_BUTTONS_WIDTH as nat + gap as nat,
{
    cluster_buttons_start(is_macos, fullscreen, linux_left_captions) + CLUSTER_BUTTONS_WIDTH
        + gap as u128
}

/// Padding at the right of the titlebar's content: past the caption buttons
/// that stand there.
pub fn titlebar_right_padding(is_windows: bool, linux_right_captions: usize, base: u64) -> (r: u128)
    ensures
        r as nat == base as nat + if is_windows {
            WINDOWS_CAPTION_WIDTH as nat
        } else if linux_right_captions > 0 {
            TITLEBAR_CLUSTER_PAD as nat + captions_px(linux_right_captions as nat)
        } else {
            0
        },
{
    let more: u128 = if is_windows {
        WINDOWS_CAPTION_WIDTH
    } else if linux_right_captions > 0 {
        TITLEBAR_CLUSTER_PAD + caption_buttons_width(linux_right_captions)
    } else {
        0
    };
    base as u128 + more
}

/// Whether the titlebar offers a new session: only beside a selected one.
pub fn titlebar_new_session_shown(is_chat_route: bool, has_selected_chat: bool) -> (r: bool)
    ensures
        r == (is_chat_route && has_selected_chat),
{
    is_chat_route && has_selected_chat
}

/// Which of the titlebar's controls answer.
#[derive(Debug, Clone, Copy, PartialEq, Eq, Structural)]
pub struct ClusterControls {
    pub back: bool,
    pub forward: bool,
    pub new_session: bool,
}

/// The titlebar's controls: the way back and forth where there is one, and a new
/// session where a chat shows.
pub fn cluster_controls(nav: &NavHistory, is_chat_route: bool, has_selected_chat: bool) -> (r:
    ClusterControls)
    requires
        nav@.wf(),
    ensures
        r.back == (nav@.index > 0),
        r.forward == (nav@.index + 1 < nav@.entries.len()),
        r.new_session == (is_chat_route && has_selected_chat),
{
    ClusterControls {
        back: nav.can_back(),
        forward: nav.can_forward(),
        new_session: titlebar_new_session_shown(is_chat_route, has_selected_chat),
    }
}

// ---------------------------------------------------------------------------
// Caption buttons
// ---------------------------------------------------------------------------

/// A caption button.
#[derive(Debug, Clone, Copy, PartialEq, Eq, Structural)]
pub enum WindowButton {
    Minimize,
    Maximize,
    Close,
}

/// The caption buttons on both sides.
pub struct ButtonLayout {
    pub left: Vec<WindowButton>,
    pub right: Vec<WindowButton>,
}

/// Whether the desktop can do what a button asks.
pub open spec fn supported(b: WindowButton, minimize: bool, maximize: bool) -> bool {
    match b {
        WindowButton::Minimize => minimize,
        WindowButton::Maximize => maximize,
        WindowButton::Close => true,
    }
}

/// The buttons of a side that the desktop supports, in their order.
pub open spec fn kept(side: Seq<WindowButton>, minimize: bool, maximize: bool) -> Seq<WindowButton> {
    side.filter(|b: WindowButton| supported(b, minimize, maximize))
}

fn filter_side(side: &Vec<WindowButton>, minimize: bool, maximize: bool) -> (r: Vec<WindowButton>)
    ensures
        r@ == kept(side@, minimize, maximize),
{
    broadcast use vstd::seq_lib::group_filter_ensures;

    let mut out: Vec<WindowButton> = Vec::new();
    let mut i: usize = 0;
    let ghost keep = |b: WindowButton| supported(b, minimize, maximize);
    assert(side@.take(0).filter(keep) =~= Seq::empty()) by {
        reveal(Seq::filter);
    }
    while i < side.len()
        invariant
            i <= side@.len(),
            keep == (|b: WindowButton| supported(b, minimize, maximize)),
            out@ == side@.take(i as int).filter(keep),
        decreases side.len() - i,
    {
        assert(side@.take(i + 1).drop_last() =~= side@.take(i as int));
        assert(side@.take(i + 1).last() == side@[i as int]);
        proof {
            reveal(Seq::filter);
        }
        let keeps = match side[i] {
            WindowButton::Minimize => minimize,
            WindowButton::Maximize => maximize,
            WindowButton::Close => true,
        };
        if keeps {
            out.push(side[i]);
        }
        i = i + 1;
    }
    assert(side@.take(i as int) =~= side@);
    out
}

/// The caption buttons to draw: none where the desktop decorates the window,
/// else those of the layout that it supports; nothing where none is left.
pub fn resolve_linux_captions(
    client_decorated: bool,
    layout: &ButtonLayout,
    minimize: bool,
    maximize: bool,
) -> (r: Option<ButtonLayout>)
    ensures
        ({
            let left = kept(layout.left@, minimize, maximize);
            let right = kept(layout.right@, minimize, maximize);
            match r {
                Some(l) => client_decorated && (left.len() > 0 || right.len() > 0) && l.left@
                    == left && l.right@ == right,
                None => !client_decorated || (left.len() == 0 && right.len() == 0),
            }
        }),
{
    if !client_decorated {
        return None;
    }
    let left = filter_side(&layout.left, minimize, maximize);
    let right = filter_side(&layout.right, minimize, maximize);
    if left.len() > 0 || right.len() > 0 {
        Some(ButtonLayout { left, right })
    } else {
        None
    }
}

/// A close button is always drawn where the layout has one.
pub proof fn law_close_is_kept(side: Seq<WindowButton>, minimize: bool, maximize: bool)
    requires
        side.contains(WindowButton::Close),
    ensures
        kept(side, minimize, maximize).contains(WindowButton::Close),
{
    broadcast use vstd::seq_lib::group_filter_ensures;

    let i = choose|i: int| 0 <= i < side.len() && side[i] == WindowButton::Close;
    let keep = |b: WindowButton| supported(b, minimize, maximize);
    assert(keep(side[i]));
    side.lemma_filter_contains(keep, i);
}

} // verus!
