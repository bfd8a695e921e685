//! What holds of every tool group that is laid out.
use vstd::prelude::*;

use crate::chips::{ChipKind, ChipTrail, ChipView, FetchView, FoldState, StoreView};
use crate::tools::{DetailView, ItemView};

verus! {

/// The rows of text that a block shows: its lines, and one more where some were
/// cut off; nothing for a diff, which is measured elsewhere.
pub open spec fn rows_shown(d: DetailView) -> Option<nat> {
    match d {
        DetailView::Output { lines, truncated_by } => Some(
            lines.len() + if truncated_by > 0 {
                1nat
            } else {
                0nat
            },
        ),
        DetailView::Thought { lines, truncated_by } => Some(
            lines.len() + if truncated_by > 0 {
                1nat
            } else {
                0nat
            },
        ),
        DetailView::Stats { stats } => Some(stats.len()),
        DetailView::Diff { .. } => None,
    }
}

/// The pixels that a block takes: a line of one pixel, and 18 for each row with 12
/// around them, or what its diff was measured at.
pub open spec fn block_pixels(d: Option<DetailView>, diff_body: u64) -> nat {
    match d {
        Some(d) => match rows_shown(d) {
            Some(n) => 1 + 18 * n + 12,
            None => 1 + diff_body as nat,
        },
        None => 0,
    }
}

/// Whether a chip leads to a subagent's transcript: it spawned one whose document
/// is known.
pub open spec fn leads_away(t: ItemView) -> bool {
    t.facts.spawn && t.subagent_ref is Some
}

/// Whether contents were fetched under a key.
pub open spec fn fetched(s: StoreView, key: Option<Seq<char>>) -> Option<DetailView> {
    match key {
        Some(k) => if s.fetches.contains_key(k) && s.fetches[k] is Ready {
            Some(s.fetches[k]->Ready_0)
        } else {
            None
        },
        None => None,
    }
}

/// When a key was last asked for; zero for never.
pub open spec fn asked_at(s: StoreView, key: Option<Seq<char>>) -> int {
    match key {
        Some(k) => if s.order.contains_key(k) {
            s.order[k] as int
        } else {
            0
        },
        None => 0,
    }
}

/// A chip with an invocation is a card that opens, with a detail or without one,
/// unless it leads to a subagent: its layout holds that very block, a click opens
/// it, and open it is as tall as its header and its block at least.
pub proof fn law_a_chip_opens_to_its_invocation(
    s: StoreView,
    t: ItemView,
    fold: FoldState,
    diff_body: u64,
    now: u64,
)
    requires
        t.invocation is Some,
        !leads_away(t),
    ensures
        ({
            let chip = crate::chips::chip_layout(s, t, fold, diff_body, now);
            &&& chip.kind == ChipKind::Card
            &&& chip.invocation == t.invocation
            &&& chip.trail == Some(ChipTrail::Chevron { open: chip.open })
            &&& fold.open matches Some(set) ==> chip.open == set
            &&& chip.open ==> chip.height == chip.open_height
            &&& chip.open_height == u64::MAX || chip.open_height >= 30 + block_pixels(
                t.invocation,
                diff_body,
            )
            &&& chip.detail is None && chip.affordance is None ==> chip.open_height == u64::MAX
                || chip.open_height == 30 + block_pixels(t.invocation, diff_body)
        }),
{
}

/// A chip shows what it carries as long as nothing was fetched for it; of what was
/// fetched, its diff or its output, it shows the one asked for last.
pub proof fn law_a_chip_opens_to_its_detail(
    s: StoreView,
    t: ItemView,
    fold: FoldState,
    diff_body: u64,
    now: u64,
)
    requires
        !leads_away(t),
    ensures
        ({
            let chip = crate::chips::chip_layout(s, t, fold, diff_body, now);
            let diff = fetched(s, t.diff_ref);
            let output = fetched(s, t.output_ref);
            &&& diff is None && output is None ==> chip.detail == t.detail
            &&& diff is Some && output is None ==> chip.detail == diff
            &&& diff is None && output is Some ==> chip.detail == output
            &&& diff is Some && output is Some ==> chip.detail == (if asked_at(s, t.output_ref)
                > asked_at(s, t.diff_ref) {
                output
            } else {
                diff
            })
            &&& (chip.kind == ChipKind::Card) == (chip.detail is Some || t.invocation is Some)
            &&& chip.kind != ChipKind::Link
            &&& chip.kind == ChipKind::Plain ==> chip.trail is None && !chip.open && !chip.moving
        }),
{
}

/// A chip that leads to a subagent has an arrow and opens nothing in place.
pub proof fn law_a_link_leads_away(
    s: StoreView,
    t: ItemView,
    fold: FoldState,
    diff_body: u64,
    now: u64,
)
    requires
        leads_away(t),
    ensures
        ({
            let chip = crate::chips::chip_layout(s, t, fold, diff_body, now);
            &&& chip.kind == ChipKind::Link
            &&& chip.trail == Some(ChipTrail::OpenArrow)
            &&& chip.detail is None && chip.invocation is None
            &&& !chip.open && !chip.moving
            &&& chip.height == 30
        }),
{
}

/// A chip is as tall as what it shows: its header, and open its invocation, its
/// detail and the offer below.
pub proof fn law_a_chip_is_as_tall_as_what_it_shows(
    s: StoreView,
    t: ItemView,
    fold: FoldState,
    diff_body: u64,
    now: u64,
)
    ensures
        ({
            let chip = crate::chips::chip_layout(s, t, fold, diff_body, now);
            let tall = 30 + block_pixels(chip.invocation, diff_body) + block_pixels(
                chip.detail,
                diff_body,
            ) + if chip.affordance is Some {
                24int
            } else {
                0int
            };
            &&& chip.open_height == (if tall <= u64::MAX {
                tall
            } else {
                u64::MAX as int
            })
            &&& chip.height == (if chip.open {
                chip.open_height
            } else {
                30
            })
        }),
{
}

/// What the user set decides whether a card is open; until then only a thought that
/// still streams is. It moves only in the 400 milliseconds after a click.
pub proof fn law_a_card_is_open_as_it_was_set(
    s: StoreView,
    t: ItemView,
    fold: FoldState,
    diff_body: u64,
    now: u64,
)
    ensures
        ({
            let chip = crate::chips::chip_layout(s, t, fold, diff_body, now);
            chip.kind == ChipKind::Card ==> {
                &&& chip.open == match fold.open {
                    Some(set) => set,
                    None => t.is_thought && !t.resolved,
                }
                &&& chip.trail == Some(ChipTrail::Chevron { open: chip.open })
                &&& chip.moving == (fold.epoch > 0 && fold.toggled_at is Some && now
                    < fold.toggled_at->0 + 400)
            }
        }),
{
}

/// The offer below a chip is for contents that it does not show: the full diff
/// first, else the full output. Its words tell whether they are still to be asked
/// for, are on their way, or could not be had.
pub proof fn law_an_offer_is_for_what_is_not_shown(s: StoreView, t: ItemView)
    ensures
        ({
            let offer = crate::chips::offer_of(s, t);
            let says = |key: Seq<char>, what: Seq<char>, bytes: Option<u64>|
                if !s.fetches.contains_key(key) {
                    "Show full "@ + what + (match bytes {
                        Some(b) => " ("@ + crate::chips::kb_text(b) + ")"@,
                        None => Seq::<char>::empty(),
                    })
                } else {
                    match s.fetches[key] {
                        FetchView::Loading => "Loading full "@ + what + "…"@,
                        FetchView::Failed => "Couldn't load full "@ + what + " — tap to retry"@,
                        FetchView::Ready(_) => "Show full "@ + what,
                    }
                };
            let diff_hidden = t.diff_ref is Some && !(fetched(s, t.diff_ref) is Some && (fetched(
                s,
                t.output_ref,
            ) is None || t.output_ref == t.diff_ref || asked_at(s, t.output_ref) <= asked_at(
                s,
                t.diff_ref,
            )));
            let output_hidden = t.output_ref is Some && !(fetched(s, t.output_ref) is Some && (
            fetched(s, t.diff_ref) is None || t.output_ref == t.diff_ref || asked_at(
                s,
                t.output_ref,
            ) > asked_at(s, t.diff_ref)));
            if diff_hidden {
                offer matches Some((key, label)) && Some(key) == t.diff_ref && label == says(
                    key,
                    "diff"@,
                    None,
                )
            } else if output_hidden {
                offer matches Some((key, label)) && Some(key) == t.output_ref && label == says(
                    key,
                    "output"@,
                    t.output_bytes,
                )
            } else {
                offer is None
            }
        }),
{
    if let Some(k) = t.diff_ref {
        assert("Show full "@ + "diff"@ + Seq::<char>::empty() =~= "Show full "@ + "diff"@);
    }
    if let Some(k) = t.output_ref {
        assert("Show full "@ + "output"@ + Seq::<char>::empty() =~= "Show full "@ + "output"@);
        if let Some(b) = t.output_bytes {
            assert("Show full "@ + "output"@ + (" ("@ + crate::chips::kb_text(b) + ")"@)
                =~= "Show full "@ + "output"@ + " ("@ + crate::chips::kb_text(b) + ")"@);
        }
    }
}

/// Each chip of a row has a fold of its own.
pub proof fn law_chips_have_their_own_folds(row_id: Seq<char>, a: nat, b: nat)
    requires
        a != b,
    ensures
        crate::chips::detail_key(row_id, a) != crate::chips::detail_key(row_id, b),
{
    let head = row_id + "#d"@;
    let x = crate::chips::detail_key(row_id, a);
    let y = crate::chips::detail_key(row_id, b);
    assert(x.skip(head.len() as int) =~= crate::text::decimal(a));
    assert(y.skip(head.len() as int) =~= crate::text::decimal(b));
    if x == y {
        crate::highlights::lemma_decimal_differs(a, b);
    }
}

/// What a chip adds to its group: nothing while it is closed, else what its body
/// takes beyond its header.
pub open spec fn added(chip: ChipView) -> int {
    if chip.open {
        chip.open_height - 30
    } else {
        0
    }
}

/// What the chips add to their group, one after the other.
pub open spec fn all_added(chips: Seq<ChipView>) -> int
    decreases chips.len(),
{
    if chips.len() == 0 {
        0
    } else {
        all_added(chips.drop_last()) + added(chips.last())
    }
}

/// An open group is as tall as 38 px for each chip, 2 above the first, and what the
/// open chips add.
pub proof fn law_a_group_is_as_tall_as_its_chips(
    s: StoreView,
    folds: Map<Seq<char>, FoldState>,
    row_id: Seq<char>,
    tools: Seq<ItemView>,
    diff_bodies: Seq<u64>,
    now: u64,
)
    requires
        forall|i: int|
            0 <= i < tools.len() ==> (#[trigger] crate::chips::chips_layout(
                s,
                folds,
                row_id,
                tools,
                diff_bodies,
                now,
            )[i]).open_height < u64::MAX,
    ensures
        crate::chips::chips_px(tools.len()) == (if tools.len() == 0 {
            0
        } else {
            2 + 38 * tools.len()
        }),
        crate::chips::bodies_px(s, folds, row_id, tools, diff_bodies) == all_added(
            crate::chips::chips_layout(s, folds, row_id, tools, diff_bodies, now),
        ),
    decreases tools.len(),
{
    let all = crate::chips::chips_layout(s, folds, row_id, tools, diff_bodies, now);
    if tools.len() > 0 {
        let init = tools.drop_last();
        let before = crate::chips::chips_layout(s, folds, row_id, init, diff_bodies, now);
        assert(before =~= all.drop_last());
        assert forall|i: int| 0 <= i < init.len() implies (#[trigger] before[i]).open_height
            < u64::MAX by {
            assert(before[i] == all[i]);
        }
        law_a_group_is_as_tall_as_its_chips(s, folds, row_id, init, diff_bodies, now);
        assert(all[tools.len() - 1].open_height < u64::MAX);
    }
}

/// Every chip of a group is laid out, in its place, by its own fold.
pub proof fn law_chips_are_laid_out_in_order(
    s: StoreView,
    folds: Map<Seq<char>, FoldState>,
    row_id: Seq<char>,
    tools: Seq<ItemView>,
    diff_bodies: Seq<u64>,
    now: u64,
    i: int,
)
    requires
        0 <= i < tools.len(),
    ensures
        ({
            let chips = crate::chips::chips_layout(s, folds, row_id, tools, diff_bodies, now);
            let key = row_id + "#d"@ + crate::text::decimal(i as nat);
            &&& chips.len() == tools.len()
            &&& !leads_away(tools[i]) ==> chips[i].invocation == tools[i].invocation
            &&& !leads_away(tools[i]) && tools[i].invocation is Some ==> chips[i].open
                == if folds.contains_key(key) && folds[key].open is Some {
                folds[key].open->0
            } else {
                tools[i].is_thought && !tools[i].resolved
            }
        }),
{
}

/// A group is summed up by its thoughts alone where it holds nothing else, and by
/// its tools alone where it holds no thought.
pub proof fn law_a_summary_names_what_is_there(tools: Seq<ItemView>, shared: Seq<char>)
    requires
        tools.len() > 0,
    ensures
        (forall|i: int| 0 <= i < tools.len() ==> !(#[trigger] tools[i]).is_thought)
            ==> crate::chips::summary_of(tools, shared) == shared,
        (forall|i: int| 0 <= i < tools.len() ==> (#[trigger] tools[i]).is_thought)
            ==> crate::chips::summary_of(tools, shared) == (if tools.len() == 1 {
            "Thought process"@
        } else {
            "Thought "@ + crate::text::decimal(tools.len()) + " times"@
        }),
{
    lemma_thoughts_counted(tools);
}

proof fn lemma_thoughts_counted(tools: Seq<ItemView>)
    ensures
        (forall|i: int| 0 <= i < tools.len() ==> !(#[trigger] tools[i]).is_thought)
            ==> crate::chips::thoughts_in(tools) == 0,
        (forall|i: int| 0 <= i < tools.len() ==> (#[trigger] tools[i]).is_thought)
            ==> crate::chips::thoughts_in(tools) == tools.len(),
    decreases tools.len(),
{
    if tools.len() > 0 {
        let init = tools.drop_last();
        lemma_thoughts_counted(init);
        if forall|i: int| 0 <= i < tools.len() ==> !(#[trigger] tools[i]).is_thought {
            assert forall|i: int| 0 <= i < init.len() implies !(#[trigger] init[i]).is_thought by {
                assert(init[i] == tools[i]);
            }
            assert(!tools[tools.len() - 1].is_thought);
        }
        if forall|i: int| 0 <= i < tools.len() ==> (#[trigger] tools[i]).is_thought {
            assert forall|i: int| 0 <= i < init.len() implies (#[trigger] init[i]).is_thought by {
                assert(init[i] == tools[i]);
            }
            assert(tools[tools.len() - 1].is_thought);
        }
    }
}

/// A click turns a fold and starts its move from the height that it had; what the
/// user set stays however the rule changes.
pub proof fn law_a_click_sets_the_fold(
    f: FoldState,
    rule: bool,
    later: bool,
    open_height: u64,
    closed_height: u64,
    now: u64,
)
    requires
        f.epoch < u64::MAX,
    ensures
        ({
            let was = match f.open {
                Some(b) => b,
                None => rule,
            };
            let after = crate::chips::toggled(f, rule, open_height, closed_height, now);
            &&& after.open == Some(!was)
            &&& after.epoch == f.epoch + 1
            &&& after.from == (if was {
                open_height
            } else {
                closed_height
            })
            &&& after.toggled_at == Some(now)
            &&& crate::chips::fold_open(after, later) == !was
        }),
{
}

} // verus!
