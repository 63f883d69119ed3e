//! Choosing the actions that a violation calls for.

use vstd::prelude::*;
use crate::config::{actions_view, ActionView, MessageFilterAction};

verus! {

/// Whether an action runs in the given armed state: only a message that
/// requires arming is held back while disarmed.
pub open spec fn runs_when(a: ActionView, armed: bool) -> bool {
    match a {
        ActionView::SendMessage { requires_armed, .. } => armed || !requires_armed,
        _ => true,
    }
}

/// The actions of `s` that run in the given armed state, in order.
pub open spec fn gated(s: Seq<ActionView>, armed: bool) -> Seq<ActionView>
    decreases s.len(),
{
    if s.len() == 0 {
        seq![]
    } else if runs_when(s.last(), armed) {
        gated(s.drop_last(), armed).push(s.last())
    } else {
        gated(s.drop_last(), armed)
    }
}

pub open spec fn opt_actions(o: Option<&Vec<MessageFilterAction>>) -> Option<Seq<ActionView>> {
    match o {
        Some(v) => Some(actions_view(v@)),
        None => None,
    }
}

/// The filter's own actions where it has them, else the defaults, else none.
pub open spec fn chosen(own: Option<Seq<ActionView>>, defaults: Option<Seq<ActionView>>) -> Seq<ActionView> {
    match own {
        Some(a) => a,
        None => match defaults {
            Some(a) => a,
            None => seq![],
        },
    }
}

/// The actions that a violation resolves to.
pub open spec fn resolved(own: Option<Seq<ActionView>>, defaults: Option<Seq<ActionView>>, armed: bool) -> Seq<ActionView> {
    gated(chosen(own, defaults), armed)
}

/// The actions to take for a violation: the filter's own actions, used as
/// they are, or else the guild's defaults; a message that requires arming is
/// dropped while disarmed. The order is kept.
pub fn resolve(
    matched: Option<&Vec<MessageFilterAction>>,
    defaults: Option<&Vec<MessageFilterAction>>,
    armed: bool,
) -> (r: Vec<MessageFilterAction>)
    ensures
        actions_view(r@) == resolved(opt_actions(matched), opt_actions(defaults), armed),
{
    let empty: Vec<MessageFilterAction> = Vec::new();
    let source: &Vec<MessageFilterAction> = match matched {
        Some(m) => m,
        None => match defaults {
            Some(d) => d,
            None => &empty,
        },
    };
    let ghost s = actions_view(source@);
    assert(s =~= chosen(opt_actions(matched), opt_actions(defaults)));
    let mut out: Vec<MessageFilterAction> = Vec::new();
    assert(s.take(0) =~= Seq::<ActionView>::empty());
    assert(actions_view(out@) =~= Seq::<ActionView>::empty());
    for i in 0..source.len()
        invariant
            s == actions_view(source@),
            actions_view(out@) == gated(s.take(i as int), armed),
    {
        let a = &source[i];
        let keep = match a {
            MessageFilterAction::SendMessage { requires_armed, .. } => armed || !*requires_armed,
            _ => true,
        };
        let ghost before = out@;
        if keep {
            out.push(a.duplicate());
            assert(actions_view(out@) =~= actions_view(before).push(a@));
        }
        assert(s.take(i + 1).drop_last() =~= s.take(i as int));
        assert(s.take(i + 1).last() == a@);
    }
    assert(s.take(source.len() as int) =~= s);
    out
}

/// An action stands in the gated list exactly when it stands in the list and
/// runs in that armed state.
pub proof fn lemma_gated_contains(s: Seq<ActionView>, armed: bool, a: ActionView)
    ensures
        gated(s, armed).contains(a) <==> (s.contains(a) && runs_when(a, armed)),
    decreases s.len(),
{
    if s.len() > 0 {
        let p = s.drop_last();
        let l = s.last();
        lemma_gated_contains(p, armed, a);
        let g = gated(p, armed);
        assert(s =~= p.push(l));
        assert(s.contains(a) <==> (p.contains(a) || a == l)) by {
            if s.contains(a) && a != l {
                let i = choose|i: int| 0 <= i < s.len() && s[i] == a;
                assert(p[i] == a);
            }
            if p.contains(a) {
                let i = choose|i: int| 0 <= i < p.len() && p[i] == a;
                assert(s[i] == a);
            }
            if a == l {
                assert(s[s.len() - 1] == a);
            }
        }
        if runs_when(l, armed) {
            assert(g.push(l).contains(a) <==> (g.contains(a) || a == l)) by {
                if g.push(l).contains(a) && a != l {
                    let i = choose|i: int| 0 <= i < g.push(l).len() && g.push(l)[i] == a;
                    assert(g[i] == a);
                }
                if g.contains(a) {
                    let i = choose|i: int| 0 <= i < g.len() && g[i] == a;
                    assert(g.push(l)[i] == a);
                }
                if a == l {
                    assert(g.push(l)[g.len() as int] == a);
                }
            }
        }
    }
}

/// A filter's own actions replace the defaults whole: whatever the defaults
/// are, the result is the same, and every action in it is one of the
/// filter's own.
pub proof fn lemma_own_actions_replace_defaults(
    own: Seq<ActionView>,
    defaults: Option<Seq<ActionView>>,
    armed: bool,
)
    ensures
        resolved(Some(own), defaults, armed) == resolved(Some(own), None, armed),
        forall|a: ActionView| #[trigger] resolved(Some(own), defaults, armed).contains(a) ==> own.contains(a),
{
    assert forall|a: ActionView| #[trigger] resolved(Some(own), defaults, armed).contains(a) implies own.contains(a) by {
        lemma_gated_contains(own, armed, a);
    }
}

/// A message that requires arming is resolved only while armed; a delete
/// is resolved in either state.
pub proof fn lemma_arming_gates_messages(
    own: Option<Seq<ActionView>>,
    defaults: Option<Seq<ActionView>>,
    channel_id: u64,
    content: Seq<char>,
)
    ensures
        chosen(own, defaults).contains(ActionView::SendMessage { channel_id, content, requires_armed: true })
            ==> resolved(own, defaults, true).contains(ActionView::SendMessage { channel_id, content, requires_armed: true }),
        !resolved(own, defaults, false).contains(ActionView::SendMessage { channel_id, content, requires_armed: true }),
        chosen(own, defaults).contains(ActionView::Delete) ==> resolved(own, defaults, true).contains(ActionView::Delete)
            && resolved(own, defaults, false).contains(ActionView::Delete),
{
    let m = ActionView::SendMessage { channel_id, content, requires_armed: true };
    lemma_gated_contains(chosen(own, defaults), true, m);
    lemma_gated_contains(chosen(own, defaults), false, m);
    lemma_gated_contains(chosen(own, defaults), true, ActionView::Delete);
    lemma_gated_contains(chosen(own, defaults), false, ActionView::Delete);
}

} // verus!
