//! What a message that arrives on a connection leads to.
use vstd::prelude::*;

use crate::capture;
use crate::capture::ConnRecorder;
use crate::report;
use crate::report::{PlannedReport, PlannedReportView};
use crate::sz::protocol::SyncPartition;

verus! {

/// What a message leads to.
pub enum Step {
    /// Nothing goes out.
    Quiet,
    /// The client is logged on: the messages go out, and heartbeats start.
    LoggedOn { replies: Vec<Vec<u8>>, comp_id: String },
    /// The messages go out.
    Reply(Vec<Vec<u8>>),
    /// The reports go out as planned.
    Reports(Vec<PlannedReport>),
    /// The messages go out, and after them the reports as planned.
    Resumed { replies: Vec<Vec<u8>>, reports: Vec<PlannedReport> },
    /// The message goes out after the delay.
    Later { frame: Vec<u8>, delay_ms: u64 },
    /// The message goes out, if there is one, and the connection ends.
    Close(Option<Vec<u8>>),
    /// An order with a quantity or a price that reports cannot be computed for.
    OutOfRange,
}

/// The values of [`Step`].
pub enum StepView {
    Quiet,
    LoggedOn { replies: Seq<Seq<u8>>, comp_id: Seq<char> },
    Reply(Seq<Seq<u8>>),
    Reports(Seq<PlannedReportView>),
    Resumed { replies: Seq<Seq<u8>>, reports: Seq<PlannedReportView> },
    Later { frame: Seq<u8>, delay_ms: u64 },
    Close(Option<Seq<u8>>),
    OutOfRange,
}

/// The bytes of messages.
pub open spec fn frames(s: Seq<Vec<u8>>) -> Seq<Seq<u8>> {
    s.map_values(|f: Vec<u8>| f@)
}

impl View for Step {
    type V = StepView;

    open spec fn view(&self) -> StepView {
        match self {
            Step::Quiet => StepView::Quiet,
            Step::LoggedOn { replies, comp_id } => StepView::LoggedOn {
                replies: frames(replies@),
                comp_id: comp_id@,
            },
            Step::Reply(fs) => StepView::Reply(frames(fs@)),
            Step::Reports(plans) => StepView::Reports(report::plan_views(plans@)),
            Step::Resumed { replies, reports } => StepView::Resumed {
                replies: frames(replies@),
                reports: report::plan_views(reports@),
            },
            Step::Later { frame, delay_ms } => StepView::Later {
                frame: frame@,
                delay_ms: *delay_ms,
            },
            Step::Close(f) => StepView::Close(
                match f {
                    Some(b) => Some(b@),
                    None => None,
                },
            ),
            Step::OutOfRange => StepView::OutOfRange,
        }
    }
}

/// One message that goes out.
pub fn reply_with(frame: Vec<u8>) -> (r: Step)
    ensures
        r@ == StepView::Reply(seq![frame@]),
{
    let mut out: Vec<Vec<u8>> = Vec::new();
    out.push(frame);
    assert(frames(out@) =~= seq![frame@]);
    Step::Reply(out)
}

/// The bytes of reports that are sent again.
pub open spec fn report_frames(r: Seq<(i64, Vec<u8>)>) -> Seq<Seq<u8>> {
    r.map_values(|p: (i64, Vec<u8>)| p.1@)
}

/// Messages that send again, partition by partition, what was sent of the first `n`
/// partitions of a request.
pub open spec fn is_resend(
    sent: Map<(i32, i64), Seq<u8>>,
    wanted: Seq<SyncPartition>,
    n: int,
    out: Seq<Seq<u8>>,
) -> bool
    decreases n,
{
    if n <= 0 {
        out.len() == 0
    } else {
        exists|head: Seq<Seq<u8>>, part: Seq<(i64, Vec<u8>)>|
            is_resend(sent, wanted, n - 1, head) && #[trigger] joined(
                sent,
                wanted[n - 1],
                head,
                part,
                out,
            )
    }
}

/// Messages that end with the reports of a partition.
pub open spec fn joined(
    sent: Map<(i32, i64), Seq<u8>>,
    wanted: SyncPartition,
    head: Seq<Seq<u8>>,
    part: Seq<(i64, Vec<u8>)>,
    out: Seq<Seq<u8>>,
) -> bool {
    &&& capture::is_since(sent, wanted.partition_no, wanted.report_index, part)
    &&& out == head + report_frames(part)
}

/// The reports that a request wants again, partition by partition.
pub fn resend_all(recorders: &Vec<ConnRecorder>, wanted: &Vec<SyncPartition>) -> (r: Vec<Vec<u8>>)
    requires
        capture::all_wf(recorders@),
    ensures
        is_resend(
            capture::all_sent(recorders@),
            wanted@,
            wanted@.len() as int,
            frames(r@),
        ),
{
    let mut out: Vec<Vec<u8>> = Vec::new();
    let ghost sent = capture::all_sent(recorders@);
    let mut i: usize = 0;
    while i < wanted.len()
        invariant
            i <= wanted@.len(),
            capture::all_wf(recorders@),
            sent == capture::all_sent(recorders@),
            is_resend(sent, wanted@, i as int, frames(out@)),
        decreases wanted@.len() - i,
    {
        let p = wanted[i];
        let part = capture::resend_reports_since(recorders, p.partition_no, p.report_index);
        let ghost head = frames(out@);
        append_reports(&mut out, &part);
        proof {
            assert(joined(sent, wanted@[i + 1 - 1], head, part@, frames(out@)));
        }
        i += 1;
    }
    out
}

fn append_reports(out: &mut Vec<Vec<u8>>, part: &Vec<(i64, Vec<u8>)>)
    ensures
        frames(final(out)@) == frames(old(out)@) + report_frames(part@),
{
    let ghost head = frames(out@);
    let mut i: usize = 0;
    assert(frames(out@) =~= head + report_frames(part@).take(0));
    while i < part.len()
        invariant
            i <= part@.len(),
            frames(out@) =~= head + report_frames(part@).take(i as int),
        decreases part@.len() - i,
    {
        let ghost was = out@;
        out.push(capture::bytes_of(part[i].1.as_slice()));
        proof {
            assert(frames(out@) =~= frames(was).push(part@[i as int].1@));
            assert(report_frames(part@).take(i + 1) =~= report_frames(part@).take(i as int).push(
                part@[i as int].1@,
            ));
        }
        i += 1;
    }
    assert(report_frames(part@).take(i as int) =~= report_frames(part@));
}

/// A report was sent of a partition that is wanted, and is not before the first that is wanted
/// of it.
pub open spec fn is_wanted(
    sent: Map<(i32, i64), Seq<u8>>,
    wanted: Seq<SyncPartition>,
    i: int,
    index: i64,
) -> bool {
    &&& 0 <= i < wanted.len()
    &&& wanted[i].report_index <= index
    &&& sent.contains_key((wanted[i].partition_no, index))
}

/// A message is one of the reports that are wanted.
pub open spec fn is_resent(
    sent: Map<(i32, i64), Seq<u8>>,
    wanted: Seq<SyncPartition>,
    f: Seq<u8>,
) -> bool {
    exists|i: int, index: i64| #[trigger]
        is_wanted(sent, wanted, i, index) && f == sent[(wanted[i].partition_no, index)]
}

/// What is sent again: every report that is wanted, as it was sent, and nothing else.
pub proof fn law_wanted_reports_are_resent(
    sent: Map<(i32, i64), Seq<u8>>,
    wanted: Seq<SyncPartition>,
    out: Seq<Seq<u8>>,
)
    requires
        is_resend(sent, wanted, wanted.len() as int, out),
    ensures
        forall|i: int, index: i64| #[trigger]
            is_wanted(sent, wanted, i, index) ==> out.contains(
                sent[(wanted[i].partition_no, index)],
            ),
        forall|k: int|
            0 <= k < out.len() ==> is_resent(sent, wanted, #[trigger] out[k]),
        wanted.len() == 0 ==> out.len() == 0,
{
    lemma_resent(sent, wanted, wanted.len() as int, out);
}

proof fn lemma_resent(
    sent: Map<(i32, i64), Seq<u8>>,
    wanted: Seq<SyncPartition>,
    n: int,
    out: Seq<Seq<u8>>,
)
    requires
        0 <= n <= wanted.len(),
        is_resend(sent, wanted, n, out),
    ensures
        forall|i: int, index: i64| #[trigger]
            is_wanted(sent, wanted, i, index) && i < n ==> out.contains(
                sent[(wanted[i].partition_no, index)],
            ),
        forall|k: int|
            0 <= k < out.len() ==> is_resent(sent, wanted, #[trigger] out[k]),
    decreases n,
{
    if n > 0 {
        let (head, part) = choose|head: Seq<Seq<u8>>, part: Seq<(i64, Vec<u8>)>|
            is_resend(sent, wanted, n - 1, head) && #[trigger] joined(
                sent,
                wanted[n - 1],
                head,
                part,
                out,
            );
        lemma_resent(sent, wanted, n - 1, head);
        let tail = report_frames(part);
        assert forall|i: int, index: i64| #[trigger]
            is_wanted(sent, wanted, i, index) && i < n implies out.contains(
            sent[(wanted[i].partition_no, index)],
        ) by {
            if i < n - 1 {
                let f = sent[(wanted[i].partition_no, index)];
                let k = head.index_of(f);
                assert(head.contains(f));
                assert(out[k] == head[k]);
            } else {
                let a = choose|a: int| 0 <= a < part.len() && (#[trigger] part[a]).0 == index;
                assert(tail[a] == part[a].1@);
                assert(out[head.len() + a] == tail[a]);
            }
        }
        assert forall|k: int| 0 <= k < out.len() implies is_resent(
            sent,
            wanted,
            #[trigger] out[k],
        ) by {
            if k < head.len() {
                assert(out[k] == head[k]);
            } else {
                let a = k - head.len();
                assert(out[k] == tail[a]);
                assert(tail[a] == part[a].1@);
                assert(is_wanted(sent, wanted, n - 1, part[a].0));
            }
        }
    }
}

} // verus!
