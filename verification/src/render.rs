//! The render pass of the state synchronizer: from the shared tray
//! state, compute the ordered plan of top-level entries to display.
//! Passive items are filtered out; each visible entry carries copies of
//! what the toolkit side needs — the address, the icon request fields,
//! and the fully mapped menu elements.

use vstd::prelude::*;

use crate::Status;
use crate::opt_str_view;
use crate::menu::Element;
use crate::menu::tree_elements;
use crate::menu::elem_matches;
use crate::state::Entry;
use crate::state::InboundEvent;
use crate::state::TrayState;
use crate::state::event_model;

verus! {

/// One top-level entry of the render plan. The element construction for
/// the toolkit reads these plain values; resolving `icon_name` against
/// `icon_theme_path` and the default theme is the icon resolver's job.
pub struct RenderEntry {
    pub address: String,
    pub icon_name: Option<String>,
    pub icon_theme_path: Option<String>,
    pub elements: Vec<Element>,
}

/// Whether an entry is displayed at all: `Passive` items are not.
pub open spec fn is_visible(e: Entry) -> bool {
    e.record.status != Status::Passive
}

/// The visible entries of a state, in iteration order.
pub open spec fn visible_entries(s: Seq<Entry>) -> Seq<Entry> {
    s.filter(|e: Entry| is_visible(e))
}

/// What it means for `r` to be the correct rendering of entry `e`: same
/// address and icon request, and, when the record has both a menu and a
/// menu path, exactly the menu's root nodes mapped to elements in
/// order — a record missing either renders no menu instead of failing.
pub open spec fn entry_rendering_matches(e: Entry, r: RenderEntry) -> bool {
    &&& r.address@ == e.address@
    &&& opt_str_view(r.icon_name) == opt_str_view(e.record.icon_name)
    &&& opt_str_view(r.icon_theme_path) == opt_str_view(e.record.icon_theme_path)
    &&& match (e.record.menu, e.record.menu_path) {
        (Some(tree), Some(path)) => r.elements@.len() == tree.nodes@.len() && (forall|i: int|
            0 <= i < tree.nodes@.len() ==> elem_matches(
                tree.nodes@[i],
                e.address@,
                path@,
                #[trigger] r.elements@[i],
            )),
        _ => r.elements@.len() == 0,
    }
}

/// Passive filtering: the visible entries are exactly the `Active` and
/// `NeedsAttention` entries of the state — every visible entry is
/// non-passive and comes from the state, and every non-passive entry of
/// the state is visible — and they keep the state's deterministic
/// iteration order.
pub proof fn lemma_passive_filtering(s: Seq<Entry>)
    ensures
        visible_entries(s).len() <= s.len(),
        forall|i: int|
            0 <= i < visible_entries(s).len() ==> is_visible(#[trigger] visible_entries(s)[i]),
        forall|i: int|
            0 <= i < visible_entries(s).len() ==> s.contains(#[trigger] visible_entries(s)[i]),
        forall|i: int|
            0 <= i < s.len() && is_visible(#[trigger] s[i]) ==> visible_entries(s).contains(s[i]),
{
    broadcast use vstd::seq_lib::group_filter_ensures;

    assert forall|i: int| 0 <= i < visible_entries(s).len() implies s.contains(
        #[trigger] visible_entries(s)[i],
    ) by {
        lemma_visible_member(s, i);
    }
}

proof fn lemma_visible_member(s: Seq<Entry>, i: int)
    requires
        0 <= i < visible_entries(s).len(),
    ensures
        s.contains(visible_entries(s)[i]),
    decreases s.len(),
{
    reveal(Seq::filter);
    if s.len() != 0 {
        let x = visible_entries(s)[i];
        let pre = visible_entries(s.drop_last());
        if is_visible(s.last()) && i == pre.len() {
            assert(s[s.len() - 1] == x);
        } else {
            lemma_visible_member(s.drop_last(), i);
            let j = choose|j: int| 0 <= j < s.drop_last().len() && s.drop_last()[j] == x;
            assert(s[j] == x);
        }
    }
}

fn clone_opt_string(o: &Option<String>) -> (r: Option<String>)
    ensures
        r == *o,
{
    match o {
        Some(s) => Some(s.clone()),
        None => None,
    }
}

fn render_entry(e: &Entry) -> (r: RenderEntry)
    ensures
        entry_rendering_matches(*e, r),
{
    let elements: Vec<Element> = match (&e.record.menu, &e.record.menu_path) {
        (Some(tree), Some(path)) => tree_elements(tree, &e.address, path),
        _ => Vec::new(),
    };
    RenderEntry {
        address: e.address.clone(),
        icon_name: clone_opt_string(&e.record.icon_name),
        icon_theme_path: clone_opt_string(&e.record.icon_theme_path),
        elements,
    }
}

/// Compute the full render plan for a state: one entry per visible
/// item, in iteration order, each correctly rendered.
pub fn render_pass(state: &TrayState) -> (plan: Vec<RenderEntry>)
    ensures
        plan@.len() == visible_entries(state.entry_seq()).len(),
        forall|i: int|
            0 <= i < plan@.len() ==> entry_rendering_matches(
                visible_entries(state.entry_seq())[i],
                #[trigger] plan@[i],
            ),
{
    let ghost s = state.entry_seq();
    let mut plan: Vec<RenderEntry> = Vec::new();
    let n = state.len();
    proof {
        reveal(Seq::filter);
        assert(visible_entries(s.subrange(0, 0)).len() == 0);
    }
    for i in 0..n
        invariant
            n == s.len(),
            s == state.entry_seq(),
            plan@.len() == visible_entries(s.subrange(0, i as int)).len(),
            forall|j: int|
                0 <= j < plan@.len() ==> entry_rendering_matches(
                    visible_entries(s.subrange(0, i as int))[j],
                    #[trigger] plan@[j],
                ),
        decreases n - i,
    {
        let e = state.entry_at(i);
        proof {
            reveal(Seq::filter);
            assert(s.subrange(0, i + 1).drop_last() =~= s.subrange(0, i as int));
            assert(s.subrange(0, i + 1).last() == s[i as int]);
            assert(visible_entries(s.subrange(0, i + 1)) == if is_visible(s[i as int]) {
                visible_entries(s.subrange(0, i as int)).push(s[i as int])
            } else {
                visible_entries(s.subrange(0, i as int))
            });
        }
        let passive = match e.record.status {
            Status::Passive => true,
            _ => false,
        };
        if !passive {
            let r = render_entry(e);
            plan.push(r);
        }
    }
    proof {
        assert(s.subrange(0, n as int) =~= s);
    }
    plan
}

/// One step of the synchronizer loop: apply the received event to the
/// state inside the critical section, then compute the render plan from
/// the updated state (the lock is conceptually released before any
/// toolkit work, which only reads the plan's plain values).
pub fn handle_event(state: &mut TrayState, event: InboundEvent) -> (plan: Vec<RenderEntry>)
    requires
        old(state).wf(),
    ensures
        final(state).wf(),
        final(state)@ == event_model(old(state)@, event),
        plan@.len() == visible_entries(final(state).entry_seq()).len(),
        forall|i: int|
            0 <= i < plan@.len() ==> entry_rendering_matches(
                visible_entries(final(state).entry_seq())[i],
                #[trigger] plan@[i],
            ),
{
    state.apply(event);
    render_pass(state)
}

} // verus!
