//! Laws of the dispatcher: properties that hold for every message sequence
//! and every state, stated over the mathematical model and proved once and
//! for all.

use crate::dispatch::{spec_update, MergeChat, Message, Request, StateModel};
use crate::registry::{is_back_target, spec_back, spec_navigate, Screen, WindowModel};
use vstd::prelude::*;

verus! {

broadcast use vstd::set::group_set_axioms;

/// The state after a whole message sequence, applied in order.
pub open spec fn apply_all(s: StateModel, messages: Seq<Message>) -> StateModel
    decreases messages.len(),
{
    if messages.len() == 0 {
        s
    } else {
        apply_all(spec_update(s, messages[0]).0, messages.drop_first())
    }
}

/// The message is part of the window lifecycle.
pub open spec fn is_lifecycle(message: Message) -> bool {
    message is WindowOpened || message is WindowClosed
}

/// What one lifecycle message does to the set of open window identifiers.
pub open spec fn lifecycle_step(d: Set<u64>, message: Message) -> Set<u64> {
    match message {
        Message::WindowOpened(id) => d.insert(id),
        Message::WindowClosed(id) => d.remove(id),
        _ => d,
    }
}

/// The set of open window identifiers a lifecycle sequence leaves behind.
pub open spec fn lifecycle_dom(d: Set<u64>, messages: Seq<Message>) -> Set<u64>
    decreases messages.len(),
{
    if messages.len() == 0 {
        d
    } else {
        lifecycle_dom(lifecycle_step(d, messages[0]), messages.drop_first())
    }
}

/// How many open confirmations in the sequence actually open a window: one
/// whose identifier is already open merely overwrites and does not count.
pub open spec fn effective_opens(d: Set<u64>, messages: Seq<Message>) -> int
    decreases messages.len(),
{
    if messages.len() == 0 {
        0
    } else {
        (match messages[0] {
            Message::WindowOpened(id) => if d.contains(id) {
                0int
            } else {
                1int
            },
            _ => 0int,
        }) + effective_opens(lifecycle_step(d, messages[0]), messages.drop_first())
    }
}

/// How many close notifications in the sequence actually close a window:
/// one whose identifier is not open is a no-op and does not count.
pub open spec fn effective_closes(d: Set<u64>, messages: Seq<Message>) -> int
    decreases messages.len(),
{
    if messages.len() == 0 {
        0
    } else {
        (match messages[0] {
            Message::WindowClosed(id) => if d.contains(id) {
                1int
            } else {
                0int
            },
            _ => 0int,
        }) + effective_closes(lifecycle_step(d, messages[0]), messages.drop_first())
    }
}

/// Lifecycle closure: after any sequence of open confirmations and close
/// notifications, the open windows are exactly those the sequence leaves
/// behind, and the registry size has grown by the opens that actually
/// opened and shrunk by the closes that actually closed.
pub proof fn lemma_lifecycle_closure(s: StateModel, messages: Seq<Message>)
    requires
        s.windows.dom().finite(),
        forall|i: int| 0 <= i < messages.len() ==> is_lifecycle(#[trigger] messages[i]),
    ensures
        apply_all(s, messages).windows.dom() =~= lifecycle_dom(s.windows.dom(), messages),
        apply_all(s, messages).windows.dom().finite(),
        apply_all(s, messages).windows.dom().len() == s.windows.dom().len() + effective_opens(
            s.windows.dom(),
            messages,
        ) - effective_closes(s.windows.dom(), messages),
    decreases messages.len(),
{
    if messages.len() == 0 {
    } else {
        let message = messages[0];
        let rest = messages.drop_first();
        let s1 = spec_update(s, message).0;
        let d = s.windows.dom();
        assert(is_lifecycle(message));
        assert(s1.windows.dom() =~= lifecycle_step(d, message));
        assert(s1.windows.dom().finite());
        assert(s1.windows.dom().len() == d.len() + (effective_opens(d, messages)
            - effective_opens(lifecycle_step(d, message), rest)) - (effective_closes(d, messages)
            - effective_closes(lifecycle_step(d, message), rest)));
        assert(forall|i: int| 0 <= i < rest.len() ==> is_lifecycle(#[trigger] rest[i]));
        lemma_lifecycle_closure(s1, rest);
        assert(lifecycle_dom(s1.windows.dom(), rest) =~= lifecycle_dom(
            lifecycle_step(d, message),
            rest,
        ));
        assert(effective_opens(s1.windows.dom(), rest) == effective_opens(
            lifecycle_step(d, message),
            rest,
        ));
        assert(effective_closes(s1.windows.dom(), rest) == effective_closes(
            lifecycle_step(d, message),
            rest,
        ));
    }
}

/// Lifecycle closure holds of every well-formed live state: such a state
/// holds finitely many windows, so the closed form above applies to it.
pub proof fn lemma_lifecycle_closure_of_state(state: &MergeChat, messages: Seq<Message>)
    requires
        state.wf(),
        forall|i: int| 0 <= i < messages.len() ==> is_lifecycle(#[trigger] messages[i]),
    ensures
        apply_all(state.model(), messages).windows.dom() =~= lifecycle_dom(
            state.model().windows.dom(),
            messages,
        ),
        apply_all(state.model(), messages).windows.dom().len() == state.model().windows.dom().len()
            + effective_opens(state.model().windows.dom(), messages) - effective_closes(
            state.model().windows.dom(),
            messages,
        ),
{
    state.windows.lemma_dom_finite();
    lemma_lifecycle_closure(state.model(), messages);
}

/// Closing an identifier that is not open changes nothing.
pub proof fn lemma_close_unknown(s: StateModel, id: u64)
    requires
        !s.windows.dom().contains(id),
    ensures
        spec_update(s, Message::WindowClosed(id)).0.windows == s.windows,
{
    assert(s.windows.remove(id) =~= s.windows);
}

/// Termination: closing the last remaining window yields the exit request,
/// and closing a window while at least one other remains open does not.
pub proof fn lemma_termination(s: StateModel, id: u64)
    ensures
        s.windows.dom() =~= set![id] ==> spec_update(s, Message::WindowClosed(id)).1 == Some(
            Request::Exit,
        ),
        (exists|j: u64| #[trigger] s.windows.dom().contains(j) && j != id) ==> spec_update(
            s,
            Message::WindowClosed(id),
        ).1 is None,
{
    if s.windows.dom() =~= set![id] {
        assert(s.windows.remove(id).dom() =~= Set::<u64>::empty());
    }
    if exists|j: u64| #[trigger] s.windows.dom().contains(j) && j != id {
        let j = choose|j: u64| #[trigger] s.windows.dom().contains(j) && j != id;
        assert(s.windows.remove(id).dom().contains(j));
        assert(!(s.windows.remove(id).dom() =~= Set::<u64>::empty()));
    }
}

/// Back round-trip: navigating a window showing `Main` to a sub-screen and
/// then backing out of that sub-screen restores the screen it showed before
/// and clears the stored history; every other window is untouched.  The
/// window must be the one the back request resolves to: no window with a
/// smaller identifier may already show the target sub-screen.
pub proof fn lemma_back_round_trip(m: Map<u64, WindowModel>, id: u64, target: Screen)
    requires
        m.dom().contains(id),
        m[id].current_screen == Screen::Main,
        target != Screen::Main,
        forall|j: u64| #[trigger] m.dom().contains(j) && m[j].current_screen == target ==> id <= j,
    ensures
        ({
            let after = spec_back(spec_navigate(m, id, target), target);
            &&& after.dom() =~= m.dom()
            &&& after[id].current_screen == m[id].current_screen
            &&& after[id].previous_screen is None
            &&& forall|j: u64| #[trigger] m.dom().contains(j) && j != id ==> after[j] == m[j]
        }),
{
    let m1 = spec_navigate(m, id, target);
    assert(m1[id].current_screen == target);
    assert(is_back_target(m1, target, id)) by {
        assert forall|j: u64|
            #[trigger] m1.dom().contains(j) && m1[j].current_screen == target implies id <= j by {
            if j != id {
                assert(m.dom().contains(j));
                assert(m1[j] == m[j]);
            }
        }
    }
    let c = choose|c: u64| is_back_target(m1, target, c);
    assert(is_back_target(m1, target, c));
    assert(m1.dom().contains(c) && m1[c].current_screen == target);
    assert(m1.dom().contains(id) && m1[id].current_screen == target);
    assert(id <= c && c <= id);
    assert(m1[id].previous_screen == Some(m[id].current_screen));
    let after = spec_back(m1, target);
    assert(after == m1.insert(
        id,
        WindowModel {
            current_screen: m[id].current_screen,
            previous_screen: None,
            ..m1[id]
        },
    ));
    assert(after.dom() =~= m.dom());
}

/// Back with no stored history is a no-op: when the window a back request
/// resolves to has no previous screen (in particular when no window shows
/// the sub-screen at all), the state is unchanged.
pub proof fn lemma_back_empty_history(m: Map<u64, WindowModel>, kind: Screen)
    requires
        forall|id: u64| #[trigger] is_back_target(m, kind, id) ==> m[id].previous_screen is None,
    ensures
        spec_back(m, kind) == m,
{
    if exists|id: u64| is_back_target(m, kind, id) {
        let id = choose|id: u64| is_back_target(m, kind, id);
        assert(is_back_target(m, kind, id));
        assert(m[id].previous_screen is None);
    }
}

/// Single-level history: a second navigation overwrites the stored previous
/// screen instead of pushing it, so backing out returns to the first
/// sub-screen — not to the screen shown before both navigations — and no
/// further history remains afterwards.
pub proof fn lemma_single_level_history(m: Map<u64, WindowModel>, id: u64, first: Screen, second: Screen)
    requires
        m.dom().contains(id),
        m[id].current_screen == Screen::Main,
        first != Screen::Main,
        second != Screen::Main,
        first != second,
        forall|j: u64| #[trigger] m.dom().contains(j) && m[j].current_screen == second ==> id <= j,
    ensures
        ({
            let after = spec_back(
                spec_navigate(spec_navigate(m, id, first), id, second),
                second,
            );
            &&& after.dom() =~= m.dom()
            &&& after[id].current_screen == first
            &&& after[id].previous_screen is None
        }),
{
    let m1 = spec_navigate(m, id, first);
    let m2 = spec_navigate(m1, id, second);
    assert(m2[id].current_screen == second);
    assert(m2[id].previous_screen == Some(first));
    assert(is_back_target(m2, second, id)) by {
        assert forall|j: u64|
            #[trigger] m2.dom().contains(j) && m2[j].current_screen == second implies id <= j by {
            if j != id {
                assert(m.dom().contains(j));
                assert(m2[j] == m[j]);
            }
        }
    }
    let c = choose|c: u64| is_back_target(m2, second, c);
    assert(is_back_target(m2, second, c));
    assert(m2.dom().contains(c) && m2[c].current_screen == second);
    assert(m2.dom().contains(id) && m2[id].current_screen == second);
    assert(id <= c && c <= id);
    let after = spec_back(m2, second);
    assert(after == m2.insert(
        id,
        WindowModel { current_screen: first, previous_screen: None, ..m2[id] },
    ));
    assert(after.dom() =~= m.dom());
}

} // verus!
