//! What the proposing side asks of the world around it.
//!
//! The pipeline neither talks to clients nor to the replicated log. It
//! appends what has to be done to a list, in the order in which it has to be
//! done, and whoever drives the pipeline carries the list out.

use vstd::prelude::*;
use crate::channel::ResponseChannel;
use crate::errors::{Error, ErrorView};

verus! {

/// One thing that write submission asks to be done.
#[derive(Debug, PartialEq, Eq)]
pub enum Effect {
    /// Terminal: answer `ch` with `error`.
    ReportError { ch: ResponseChannel, error: Error },
    /// Not terminal: tell the channel that its request was proposed.
    NotifyProposed { channel: u64 },
    /// Hand `data` to the replicated log. `channels` are answered once the
    /// entry is committed and applied, or at once if the log refuses it.
    Propose { data: Vec<u8>, channels: Vec<ResponseChannel>, call_proposed_on_success: bool },
    /// Hand `data` to the apply side directly, past the log.
    UnsafeWrite { data: Vec<u8> },
}

/// Mathematical value of an [`Effect`].
pub enum EffectView {
    ReportError { ch: ResponseChannel, error: ErrorView },
    NotifyProposed { channel: u64 },
    Propose { data: Seq<u8>, channels: Seq<ResponseChannel>, call_proposed_on_success: bool },
    UnsafeWrite { data: Seq<u8> },
}

impl View for Effect {
    type V = EffectView;

    open spec fn view(&self) -> EffectView {
        match *self {
            Effect::ReportError { ch, error } => EffectView::ReportError { ch, error: error@ },
            Effect::NotifyProposed { channel } => EffectView::NotifyProposed { channel },
            Effect::Propose { data, channels, call_proposed_on_success } => EffectView::Propose {
                data: data@,
                channels: channels@,
                call_proposed_on_success,
            },
            Effect::UnsafeWrite { data } => EffectView::UnsafeWrite { data: data@ },
        }
    }
}

/// The values of a list of effects, in order.
pub open spec fn effect_views(effects: Seq<Effect>) -> Seq<EffectView> {
    effects.map_values(|e: Effect| e@)
}

/// One terminal error for each of `channels`, in their order.
pub open spec fn reject_all(channels: Seq<ResponseChannel>, error: ErrorView) -> Seq<EffectView> {
    Seq::new(channels.len(), |i: int| EffectView::ReportError { ch: channels[i], error })
}

/// One notice of proposal for each of `channels`, in their order.
pub open spec fn notify_all(channels: Seq<ResponseChannel>) -> Seq<EffectView> {
    Seq::new(channels.len(), |i: int| EffectView::NotifyProposed { channel: channels[i].id })
}

/// Appends `effect`.
pub fn emit(effects: &mut Vec<Effect>, effect: Effect)
    ensures
        effect_views(final(effects)@) == effect_views(old(effects)@).push(effect@),
{
    effects.push(effect);
    assert(effect_views(effects@) == effect_views(old(effects)@).push(effect@));
}

/// Answers each of `channels` with `error`.
pub fn report_all(effects: &mut Vec<Effect>, channels: Vec<ResponseChannel>, error: &Error)
    ensures
        effect_views(final(effects)@) == effect_views(old(effects)@) + reject_all(
            channels@,
            error@,
        ),
{
    let ghost all = channels@;
    let ghost n = channels@.len();
    assert(effect_views(effects@) == effect_views(old(effects)@) + reject_all(all, error@).take(
        0,
    ));
    for ch in it: channels
        invariant
            it.seq() == all,
            effect_views(effects@) == effect_views(old(effects)@) + reject_all(all, error@).take(
                it.index() as int,
            ),
    {
        let ghost i = it.index() as int;
        emit(effects, Effect::ReportError { ch, error: error.duplicate() });
        assert(reject_all(all, error@).take(i + 1) == reject_all(all, error@).take(i).push(
            reject_all(all, error@)[i],
        ));
    }
    assert(reject_all(all, error@).take(n as int) == reject_all(all, error@));
}

} // verus!
