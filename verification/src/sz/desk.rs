//! A message on a connection of a Shenzhen platform, from its capture to the log.
use vstd::prelude::*;

use super::log;
use super::session;
use super::session::{is_noted, is_step, orders_wf, shown_fields, Session, SessionCtx};
use crate::capture;
use crate::capture::Dir;
use crate::clock::LocalTime;
use crate::note::{error, note_views, only, warn, Note, NoteView};
use crate::stats;
use crate::step::{Step, StepView};

verus! {

/// What the connections share after a message was captured.
pub open spec fn is_received(
    before: SessionCtx,
    after: SessionCtx,
    conn_id: u64,
    raw: Seq<u8>,
    fields: Seq<(Seq<char>, Seq<char>)>,
    now: LocalTime,
) -> bool {
    let k = capture::recorder_place(before.recorders@, conn_id);
    &&& capture::all_wf(after.recorders@)
    &&& is_noted(before, after, conn_id, Dir::Recv, raw, fields, now)
    &&& k < before.recorders@.len() ==> after.recorders@[k].sent() == before.recorders@[k].sent()
    &&& after == (SessionCtx {
        recorders: after.recorders,
        capture_seq: after.capture_seq,
        ..before
    })
}

/// What a message leads to once it was captured, and what the log says of it. A message with
/// a wrong check value, and one that comes when the numbers of the platform are used up, has
/// no other effect.
pub open spec fn is_answered(
    ctx: SessionCtx,
    sess: Session,
    conn_id: u64,
    peer: Seq<char>,
    mt: u32,
    body: Seq<u8>,
    good: bool,
    now: LocalTime,
    ctx_after: SessionCtx,
    sess_after: Session,
    step: StepView,
    notes: Seq<NoteView>,
) -> bool {
    if !good {
        &&& step == StepView::Quiet
        &&& notes == seq![warn(log::bad_check_text(peer, mt))]
        &&& ctx_after == ctx
        &&& sess_after == sess
    } else if !stats::ids_left(ctx.stats) {
        &&& step == StepView::OutOfRange
        &&& notes == seq![error(log::out_of_range_text(peer, mt))]
        &&& ctx_after == ctx
        &&& sess_after == sess
    } else {
        &&& is_step(ctx, sess, conn_id, mt, body, now, ctx_after, sess_after, step)
        &&& notes == if step == StepView::OutOfRange {
            seq![error(log::out_of_range_text(peer, mt))]
        } else {
            log::notes_of(ctx, sess, peer, mt, body)
        }
    }
}

/// Captures a message, says what it leads to, and what the log says of it. `good` is whether
/// its check value is right.
pub fn attend(
    ctx: &mut SessionCtx,
    sess: &mut Session,
    conn_id: u64,
    peer: &str,
    mt: u32,
    body: &[u8],
    raw: &[u8],
    good: bool,
    now: &LocalTime,
) -> (r: (Step, Vec<Note>))
    requires
        now.wf(),
        capture::all_wf(old(ctx).recorders@),
        orders_wf(old(ctx).orders),
        old(ctx).capture_seq.last < u64::MAX,
    ensures
        capture::all_wf(final(ctx).recorders@),
        orders_wf(final(ctx).orders),
        exists|mid: SessionCtx|
            #[trigger] is_received(
                *old(ctx),
                mid,
                conn_id,
                raw@,
                shown_fields(mt, body@),
                *now,
            ) && is_answered(
                mid,
                *old(sess),
                conn_id,
                peer@,
                mt,
                body@,
                good,
                *now,
                *final(ctx),
                *final(sess),
                r.0@,
                note_views(r.1@),
            ),
{
    session::receive(ctx, conn_id, mt, body, raw, now);
    assert(is_received(*old(ctx), *ctx, conn_id, raw@, shown_fields(mt, body@), *now));
    if !good {
        return (session::on_bad_checksum(), only(log::bad_check(peer, mt)));
    }
    if !ctx.stats.has_ids_left() {
        return (Step::OutOfRange, only(log::out_of_range(peer, mt)));
    }
    let notes = log::notes(ctx, sess, peer, mt, body);
    let step = session::on_frame(ctx, sess, conn_id, mt, body, now);
    if let Step::OutOfRange = step {
        return (Step::OutOfRange, only(log::out_of_range(peer, mt)));
    }
    (step, notes)
}

/// A message with a wrong check value is captured and has no other effect, and neither has one
/// when the numbers of the platform are used up.
pub proof fn law_bad_messages_do_nothing(
    ctx: SessionCtx,
    sess: Session,
    conn_id: u64,
    peer: Seq<char>,
    mt: u32,
    body: Seq<u8>,
    good: bool,
    now: LocalTime,
    ctx_after: SessionCtx,
    sess_after: Session,
    step: StepView,
    notes: Seq<NoteView>,
)
    requires
        is_answered(
            ctx,
            sess,
            conn_id,
            peer,
            mt,
            body,
            good,
            now,
            ctx_after,
            sess_after,
            step,
            notes,
        ),
    ensures
        !good ==> step is Quiet && ctx_after == ctx && sess_after == sess && notes.len() == 1,
        good && (ctx.stats.order_seq >= 0x7fff_ffff_ffff_ffff || ctx.stats.exec_seq
            >= 0x7fff_ffff_ffff_ffff) ==> step is OutOfRange && ctx_after == ctx && sess_after
            == sess,
        good && mt == 3 && ctx.stats.order_seq < 0x7fff_ffff_ffff_ffff && ctx.stats.exec_seq
            < 0x7fff_ffff_ffff_ffff ==> step is Quiet && ctx_after == ctx,
{
}

} // verus!
