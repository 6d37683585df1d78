//! A message on a connection of a Shanghai auction platform, from its capture to the log.
use vstd::prelude::*;

use super::fields;
use super::log;
use super::protocol::{msg_type, LogoutView};
use super::session;
use super::session::{is_step, logout_frame, shown_fields, Session, SessionView};
use crate::capture;
use crate::clock::LocalTime;
use crate::note::{error, note_views, only, warn, Note, NoteView};
use crate::report;
use crate::stats;
use crate::step::{Step, StepView};
use crate::sz::desk::is_received;
use crate::sz::session::{orders_wf, SessionCtx};
use crate::wire::{nat_at, text_held};

verus! {

/// What a message leads to once it was captured, and what the log says of it. A message with
/// a wrong check value ends the connection, and one that comes when the numbers of the
/// platform are used up has no effect.
pub open spec fn is_answered(
    ctx: SessionCtx,
    sess: SessionView,
    conn_id: u64,
    peer: Seq<char>,
    mt: u32,
    body: Seq<u8>,
    good: bool,
    now: LocalTime,
    ctx_after: SessionCtx,
    sess_after: SessionView,
    step: StepView,
    notes: Seq<NoteView>,
) -> bool {
    if !good {
        &&& step == StepView::Close(Some(logout_frame(5001, "CheckSum Error"@)))
        &&& notes == seq![warn(log::bad_check_text(peer, mt))]
        &&& ctx_after == ctx
        &&& sess_after == sess
    } else if !stats::ids_left(ctx.stats) {
        &&& step == StepView::OutOfRange
        &&& notes == seq![error(log::out_of_range_text(peer, mt))]
        &&& ctx_after == ctx
        &&& sess_after == sess
    } else {
        &&& is_step(ctx, sess, conn_id, mt, body, now, ctx_after, sess_after, step)
        &&& notes == if step == StepView::OutOfRange {
            seq![error(log::out_of_range_text(peer, mt))]
        } else {
            log::notes_of(ctx, sess, peer, mt, body, sess_after.pending.len() as int)
        }
    }
}

/// Captures a message, says what it leads to, and what the log says of it. `good` is whether
/// its check value is right.
pub fn attend(
    ctx: &mut SessionCtx,
    sess: &mut Session,
    conn_id: u64,
    peer: &str,
    mt: u32,
    body: &[u8],
    raw: &[u8],
    good: bool,
    now: &LocalTime,
) -> (r: (Step, Vec<Note>))
    requires
        now.wf(),
        capture::all_wf(old(ctx).recorders@),
        orders_wf(old(ctx).orders),
        old(ctx).capture_seq.last < u64::MAX,
    ensures
        capture::all_wf(final(ctx).recorders@),
        orders_wf(final(ctx).orders),
        exists|mid: SessionCtx|
            #[trigger] is_received(
                *old(ctx),
                mid,
                conn_id,
                raw@,
                shown_fields(mt, body@),
                *now,
            ) && is_answered(
                mid,
                old(sess)@,
                conn_id,
                peer@,
                mt,
                body@,
                good,
                *now,
                *final(ctx),
                final(sess)@,
                r.0@,
                note_views(r.1@),
            ),
{
    session::receive(ctx, conn_id, mt, body, raw, now);
    let ghost mid = *ctx;
    assert(is_received(*old(ctx), mid, conn_id, raw@, shown_fields(mt, body@), *now));
    if !good {
        return (session::on_bad_checksum(), only(log::bad_check(peer, mt)));
    }
    if !ctx.stats.has_ids_left() {
        return (Step::OutOfRange, only(log::out_of_range(peer, mt)));
    }
    let is_order = sess.logged_on && mt == msg_type::NEW_ORDER;
    let synced = sess.synced;
    let was: usize = sess.pending.len();
    let mut notes = log::notes(ctx, sess, peer, mt, body);
    let step = session::on_frame(ctx, sess, conn_id, mt, body, now);
    proof {
        assert(report::plan_views(old(sess).pending@).len() == was);
        assert(report::plan_views(sess.pending@).len() == sess.pending@.len());
    }
    if let Step::OutOfRange = step {
        return (Step::OutOfRange, only(log::out_of_range(peer, mt)));
    }
    if is_order {
        notes = log::on_order(ctx, synced, body, was, sess.pending.len());
        proof {
            let is = sess.pending@.len() as int;
            assert(note_views(notes@) == log::order_notes(*ctx, old(sess)@, body@, is));
        }
    }
    (step, notes)
}

/// A message with a wrong check value is answered by a logout with the status 5001, which ends
/// the connection, and changes nothing else; when the numbers of the platform are used up no
/// message has any effect.
pub proof fn law_bad_messages_do_nothing(
    ctx: SessionCtx,
    sess: SessionView,
    conn_id: u64,
    peer: Seq<char>,
    mt: u32,
    body: Seq<u8>,
    good: bool,
    now: LocalTime,
    ctx_after: SessionCtx,
    sess_after: SessionView,
    step: StepView,
    notes: Seq<NoteView>,
)
    requires
        is_answered(
            ctx,
            sess,
            conn_id,
            peer,
            mt,
            body,
            good,
            now,
            ctx_after,
            sess_after,
            step,
            notes,
        ),
    ensures
        !good ==> {
            &&& step matches StepView::Close(Some(f))
            &&& fields::is_message(f, 41, 68)
            &&& nat_at(fields::body_of(f), 0, 4) == 5001
            &&& text_held(fields::body_of(f), 4, 64, "CheckSum Error"@)
            &&& ctx_after == ctx
            &&& sess_after == sess
            &&& notes.len() == 1
        },
        good && (ctx.stats.order_seq >= 0x7fff_ffff_ffff_ffff || ctx.stats.exec_seq
            >= 0x7fff_ffff_ffff_ffff) ==> step is OutOfRange && ctx_after == ctx && sess_after
            == sess,
{
    fields::law_logout_fields(LogoutView { session_status: 5001, text: "CheckSum Error"@ });
}

} // verus!
