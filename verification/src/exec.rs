//! An upload as an ordered script: reports, the pauses the device needs
//! between them, and the points where a frame is complete.
//!
//! An upload is not a list of reports. It is reports and mandatory pauses in
//! an exact order: 300 ms between a picture's start report and its body,
//! 3000 ms after every sixteenth GIF frame header, 30 ms between the two
//! session-close reports, 500 ms before finish. Get a pause wrong and the
//! keyboard accepts every byte and stores a corrupt frame. The script is
//! built and proved here; whoever runs it performs each step in turn and may
//! stop between any two.

use crate::protocol::{
    blocks_view, build_finish, build_gif_declare_size, build_gif_frame_blocks,
    build_gif_frame_header, build_gif_session_close, build_gif_session_open,
    build_picture_upload_body, build_picture_upload_start, data_packet_spec, finish_spec,
    gif_block_spec, gif_frame_blocks_spec, gif_frame_header_spec, gif_session_close_spec,
    gif_session_open_spec, info_package_spec, picture_body_spec, reports_view,
    CMD16_START_PAYLOAD, CMD17_GIF_DECLARE_SIZE_PAYLOAD, GIF_BLOCK_DELAY_MS,
    GIF_FRAME_HEADER_DELAY_MS, GIF_FRAME_HEADER_SLOW_DELAY_MS, GIF_PRE_FINISH_DELAY_MS,
    GIF_SESSION_CLOSE_DELAY_MS, GIF_SESSION_OPEN_DELAY_MS, GIF_SLOW_DELAY_EVERY, PICTURE_BYTES,
    START_TO_DECLARE_DELAY_MS,
};
use crate::device::DeviceError;
use crate::text::{decimal, push_decimal};
use vstd::prelude::*;

verus! {

/// Which part of an upload a report belongs to, so a caller can say
/// "frame 12 of 36" rather than only a percentage.
#[derive(Debug, Clone, Copy, PartialEq, Eq, Structural)]
pub enum Phase {
    /// Opening or closing the GIF session; no frame is in flight.
    Session,
    Frame { index: usize, of: usize },
    /// The picture upload, which has no sub-structure worth naming.
    Picture,
}

/// Everything an upload tells the world while it runs.
#[derive(Debug, Clone, PartialEq, Eq)]
pub enum ExecEvent {
    /// `done` reports written and acknowledged, out of `total`.
    Progress { done: usize, total: usize, phase: Phase },
    /// A drain warning or a debug line; where it goes is the caller's choice.
    Note(String),
    /// Frame `index` is fully on the device: header, declare-size, every
    /// block and the pause after the last one.
    FrameDone { index: usize, of: usize },
}

/// One step of an upload script.
#[derive(Debug, Clone, Copy)]
pub enum UploadStep {
    /// Send this report and wait for its acknowledgement. `batch_index` is
    /// its place among the reports sent back to back with it.
    Send { report: [u8; 64], phase: Phase, batch_index: usize },
    /// Wait this many milliseconds.
    Pause { ms: u64 },
    /// Frame `index` of `of` has been sent completely.
    FrameDone { index: usize, of: usize },
}

/// A step, with its report as a byte sequence.
pub enum StepSpec {
    Send { report: Seq<u8>, phase: Phase, batch_index: usize },
    Pause { ms: u64 },
    FrameDone { index: usize, of: usize },
}

/// The spec view of a step.
pub open spec fn step_spec(s: UploadStep) -> StepSpec {
    match s {
        UploadStep::Send { report, phase, batch_index } => StepSpec::Send {
            report: report@,
            phase,
            batch_index,
        },
        UploadStep::Pause { ms } => StepSpec::Pause { ms },
        UploadStep::FrameDone { index, of } => StepSpec::FrameDone { index, of },
    }
}

/// The spec view of a script.
pub open spec fn steps_spec(v: Seq<UploadStep>) -> Seq<StepSpec> {
    v.map_values(|s: UploadStep| step_spec(s))
}

/// Each report of a list, sent back to back in `phase`.
pub open spec fn sends(reports: Seq<Seq<u8>>, phase: Phase) -> Seq<StepSpec> {
    reports.map(|i: int, r: Seq<u8>| StepSpec::Send { report: r, phase, batch_index: i as usize })
}

/// The picture upload: the start report, the 300 ms the vendor pauses there,
/// then declare-size, the pixels and finish.
pub open spec fn picture_script(pixels: Seq<u8>) -> Seq<StepSpec> {
    seq![
        StepSpec::Send {
            report: info_package_spec(CMD16_START_PAYLOAD@),
            phase: Phase::Picture,
            batch_index: 0,
        },
        StepSpec::Pause { ms: START_TO_DECLARE_DELAY_MS },
    ] + sends(picture_body_spec(pixels), Phase::Picture)
}

/// One block of a GIF frame, then the 30 ms pause after it.
pub open spec fn gif_block_script(pixels: Seq<u8>, b: int, phase: Phase) -> Seq<StepSpec> {
    sends(gif_block_spec(pixels, b), phase).push(StepSpec::Pause { ms: GIF_BLOCK_DELAY_MS })
}

/// The first `k` blocks of a GIF frame, each with its pause.
pub open spec fn gif_blocks_script(pixels: Seq<u8>, k: int, phase: Phase) -> Seq<StepSpec>
    decreases k,
{
    if k <= 0 {
        Seq::empty()
    } else {
        gif_blocks_script(pixels, k - 1, phase) + gif_block_script(pixels, k - 1, phase)
    }
}

/// The pause after frame `i`'s header: 3000 ms on every sixteenth frame
/// counting from 0, 30 ms otherwise.
pub open spec fn header_pause(i: int) -> u64 {
    if i % 16 == 0 {
        GIF_FRAME_HEADER_SLOW_DELAY_MS
    } else {
        GIF_FRAME_HEADER_DELAY_MS
    }
}

/// Frame `i` of `n`: header, its pause, declare-size, the 30 blocks, and the
/// note that the frame is done.
pub open spec fn gif_frame_script(pixels: Seq<u8>, mode: u8, i: int, n: int) -> Seq<StepSpec> {
    let phase = Phase::Frame { index: i as usize, of: n as usize };
    seq![
        StepSpec::Send {
            report: data_packet_spec(gif_frame_header_spec(mode, (i % 256) as u8)),
            phase,
            batch_index: 0,
        },
        StepSpec::Pause { ms: header_pause(i) },
        StepSpec::Send {
            report: data_packet_spec(CMD17_GIF_DECLARE_SIZE_PAYLOAD@),
            phase,
            batch_index: 0,
        },
    ] + gif_blocks_script(pixels, 30, phase).push(
        StepSpec::FrameDone { index: i as usize, of: n as usize },
    )
}

/// The first `k` frames of a GIF upload of `frames.len()` frames.
pub open spec fn gif_frames_script(frames: Seq<Seq<u8>>, mode: u8, k: int) -> Seq<StepSpec>
    decreases k,
{
    if k <= 0 {
        Seq::empty()
    } else {
        gif_frames_script(frames, mode, k - 1) + gif_frame_script(
            frames[k - 1],
            mode,
            k - 1,
            frames.len() as int,
        )
    }
}

/// The whole GIF upload: open the session and pause, every frame, then the
/// two close reports each followed by its pause, the 500 ms before finish,
/// and finish. The frame count on the close report is the number of frames
/// modulo 256.
pub open spec fn gif_script(frames: Seq<Seq<u8>>, mode: u8, rate: u8) -> Seq<StepSpec> {
    let close = gif_session_close_spec(mode, (frames.len() % 256) as u8, rate);
    sends(gif_session_open_spec(mode), Phase::Session).push(
        StepSpec::Pause { ms: GIF_SESSION_OPEN_DELAY_MS },
    ) + gif_frames_script(frames, mode, frames.len() as int) + seq![
        StepSpec::Send { report: close[0], phase: Phase::Session, batch_index: 0 },
        StepSpec::Pause { ms: GIF_SESSION_CLOSE_DELAY_MS },
        StepSpec::Send { report: close[1], phase: Phase::Session, batch_index: 0 },
        StepSpec::Pause { ms: GIF_SESSION_CLOSE_DELAY_MS },
        StepSpec::Pause { ms: GIF_PRE_FINISH_DELAY_MS },
        StepSpec::Send { report: finish_spec(), phase: Phase::Session, batch_index: 0 },
    ]
}

fn push_sends(steps: &mut Vec<UploadStep>, reports: &Vec<[u8; 64]>, phase: Phase)
    ensures
        steps_spec(final(steps)@) == steps_spec(old(steps)@) + sends(reports_view(reports@), phase),
{
    let ghost start = steps@;
    let mut i: usize = 0;
    while i < reports.len()
        invariant
            i <= reports@.len(),
            steps_spec(steps@) =~= steps_spec(start) + sends(
                reports_view(reports@).take(i as int),
                phase,
            ),
        decreases reports@.len() - i,
    {
        let ghost before = steps@;
        let r = reports[i];
        steps.push(UploadStep::Send { report: r, phase, batch_index: i });
        assert(steps@ =~= before.push(UploadStep::Send { report: r, phase, batch_index: i }));
        assert(steps_spec(steps@) =~= steps_spec(before).push(
            StepSpec::Send { report: r@, phase, batch_index: i },
        ));
        assert(reports_view(reports@).take(i + 1) =~= reports_view(reports@).take(i as int).push(
            r@,
        ));
        assert(sends(reports_view(reports@).take(i + 1), phase) =~= sends(
            reports_view(reports@).take(i as int),
            phase,
        ).push(StepSpec::Send { report: r@, phase, batch_index: i }));
        i = i + 1;
    }
    assert(reports_view(reports@).take(i as int) =~= reports_view(reports@));
}

/// The picture upload script.
pub fn picture_upload_steps(pixels: &[u8]) -> (steps: Vec<UploadStep>)
    requires
        pixels@.len() == PICTURE_BYTES,
    ensures
        steps_spec(steps@) == picture_script(pixels@),
{
    let mut steps: Vec<UploadStep> = Vec::new();
    steps.push(
        UploadStep::Send {
            report: build_picture_upload_start(),
            phase: Phase::Picture,
            batch_index: 0,
        },
    );
    steps.push(UploadStep::Pause { ms: START_TO_DECLARE_DELAY_MS });
    let body = build_picture_upload_body(pixels);
    push_sends(&mut steps, &body, Phase::Picture);
    assert(steps_spec(steps@) =~= picture_script(pixels@));
    steps
}

fn push_gif_frame(steps: &mut Vec<UploadStep>, pixels: &[u8], mode: u8, i: usize, n: usize)
    requires
        pixels@.len() == PICTURE_BYTES,
    ensures
        steps_spec(final(steps)@) == steps_spec(old(steps)@) + gif_frame_script(
            pixels@,
            mode,
            i as int,
            n as int,
        ),
{
    let ghost start = steps@;
    let phase = Phase::Frame { index: i, of: n };
    steps.push(
        UploadStep::Send {
            report: build_gif_frame_header(mode, (i % 256) as u8),
            phase,
            batch_index: 0,
        },
    );
    let pause = if i % GIF_SLOW_DELAY_EVERY == 0 {
        GIF_FRAME_HEADER_SLOW_DELAY_MS
    } else {
        GIF_FRAME_HEADER_DELAY_MS
    };
    steps.push(UploadStep::Pause { ms: pause });
    steps.push(UploadStep::Send { report: build_gif_declare_size(), phase, batch_index: 0 });
    let ghost head = steps@;
    assert(steps_spec(head) =~= steps_spec(start) + seq![
        StepSpec::Send {
            report: data_packet_spec(gif_frame_header_spec(mode, (i % 256) as u8)),
            phase,
            batch_index: 0,
        },
        StepSpec::Pause { ms: header_pause(i as int) },
        StepSpec::Send {
            report: data_packet_spec(CMD17_GIF_DECLARE_SIZE_PAYLOAD@),
            phase,
            batch_index: 0,
        },
    ]);
    let blocks = build_gif_frame_blocks(pixels);
    assert(blocks_view(blocks@).len() == 30);
    assert(steps_spec(head) + gif_blocks_script(pixels@, 0, phase) =~= steps_spec(head));
    let mut b: usize = 0;
    while b < blocks.len()
        invariant
            b <= blocks@.len(),
            blocks@.len() == 30,
            blocks_view(blocks@) == gif_frame_blocks_spec(pixels@),
            steps_spec(steps@) == steps_spec(head) + gif_blocks_script(pixels@, b as int, phase),
        decreases blocks@.len() - b,
    {
        assert(blocks_view(blocks@)[b as int] == reports_view(blocks@[b as int]@));
        assert(gif_frame_blocks_spec(pixels@)[b as int] == gif_block_spec(pixels@, b as int));
        let ghost mid = steps@;
        push_sends(steps, &blocks[b], phase);
        let ghost after = steps@;
        assert(steps_spec(after) == steps_spec(mid) + sends(gif_block_spec(pixels@, b as int), phase));
        steps.push(UploadStep::Pause { ms: GIF_BLOCK_DELAY_MS });
        assert(steps@ =~= after.push(UploadStep::Pause { ms: GIF_BLOCK_DELAY_MS }));
        assert(steps_spec(steps@) =~= steps_spec(after).push(StepSpec::Pause { ms: GIF_BLOCK_DELAY_MS }));
        assert(steps_spec(steps@) =~= steps_spec(mid) + gif_block_script(
            pixels@,
            b as int,
            phase,
        ));
        assert(gif_blocks_script(pixels@, b + 1, phase) == gif_blocks_script(
            pixels@,
            b as int,
            phase,
        ) + gif_block_script(pixels@, b as int, phase));
        b = b + 1;
        assert(steps_spec(steps@) =~= steps_spec(head) + gif_blocks_script(
            pixels@,
            b as int,
            phase,
        ));
    }
    let ghost body = steps@;
    steps.push(UploadStep::FrameDone { index: i, of: n });
    assert(steps_spec(steps@) =~= steps_spec(body).push(
        StepSpec::FrameDone { index: i, of: n },
    ));
    assert(steps_spec(steps@) =~= steps_spec(start) + gif_frame_script(
        pixels@,
        mode,
        i as int,
        n as int,
    ));
}

/// The GIF upload script, pause by pause.
pub fn gif_upload_steps(frames: &Vec<Vec<u8>>, mode: u8, rate: u8) -> (steps: Vec<UploadStep>)
    requires
        forall|i: int| 0 <= i < frames@.len() ==> (#[trigger] frames@[i])@.len() == PICTURE_BYTES,
    ensures
        steps_spec(steps@) == gif_script(frames@.map_values(|f: Vec<u8>| f@), mode, rate),
{
    let ghost fv = frames@.map_values(|f: Vec<u8>| f@);
    let n = frames.len();
    let mut steps: Vec<UploadStep> = Vec::new();
    let open = build_gif_session_open(mode);
    push_sends(&mut steps, &open, Phase::Session);
    steps.push(UploadStep::Pause { ms: GIF_SESSION_OPEN_DELAY_MS });
    let ghost head = steps@;
    assert(steps_spec(head) + gif_frames_script(fv, mode, 0) =~= steps_spec(head));
    let mut i: usize = 0;
    while i < n
        invariant
            n == frames@.len(),
            i <= n,
            fv == frames@.map_values(|f: Vec<u8>| f@),
            forall|j: int| 0 <= j < frames@.len() ==> (#[trigger] frames@[j])@.len() == PICTURE_BYTES,
            steps_spec(steps@) == steps_spec(head) + gif_frames_script(fv, mode, i as int),
        decreases n - i,
    {
        let ghost mid = steps@;
        push_gif_frame(&mut steps, frames[i].as_slice(), mode, i, n);
        assert(fv[i as int] == frames@[i as int]@);
        assert(fv.len() == n);
        assert(gif_frames_script(fv, mode, i + 1) == gif_frames_script(fv, mode, i as int)
            + gif_frame_script(fv[i as int], mode, i as int, n as int));
        i = i + 1;
        assert(steps_spec(steps@) =~= steps_spec(head) + gif_frames_script(fv, mode, i as int));
    }
    let close = build_gif_session_close(mode, (n % 256) as u8, rate);
    assert(reports_view(close@).len() == 2);
    let ghost body = steps@;
    steps.push(UploadStep::Send { report: close[0], phase: Phase::Session, batch_index: 0 });
    steps.push(UploadStep::Pause { ms: GIF_SESSION_CLOSE_DELAY_MS });
    steps.push(UploadStep::Send { report: close[1], phase: Phase::Session, batch_index: 0 });
    steps.push(UploadStep::Pause { ms: GIF_SESSION_CLOSE_DELAY_MS });
    steps.push(UploadStep::Pause { ms: GIF_PRE_FINISH_DELAY_MS });
    let fin = build_finish();
    steps.push(UploadStep::Send { report: fin, phase: Phase::Session, batch_index: 0 });
    assert(reports_view(close@)[0] == close@[0]@);
    assert(reports_view(close@)[1] == close@[1]@);
    let ghost cl = gif_session_close_spec(mode, (fv.len() % 256) as u8, rate);
    assert(fv.len() == n);
    assert(steps_spec(steps@) =~= steps_spec(body) + seq![
        StepSpec::Send { report: cl[0], phase: Phase::Session, batch_index: 0 },
        StepSpec::Pause { ms: GIF_SESSION_CLOSE_DELAY_MS },
        StepSpec::Send { report: cl[1], phase: Phase::Session, batch_index: 0 },
        StepSpec::Pause { ms: GIF_SESSION_CLOSE_DELAY_MS },
        StepSpec::Pause { ms: GIF_PRE_FINISH_DELAY_MS },
        StepSpec::Send { report: finish_spec(), phase: Phase::Session, batch_index: 0 },
    ]);
    assert(steps_spec(steps@) =~= gif_script(fv, mode, rate));
    steps
}


// --- Laws ---

/// How many reports a script sends.
pub open spec fn send_count(s: Seq<StepSpec>) -> nat
    decreases s.len(),
{
    if s.len() == 0 {
        0
    } else {
        send_count(s.drop_last()) + if s.last() is Send {
            1nat
        } else {
            0nat
        }
    }
}

proof fn lemma_send_count_concat(a: Seq<StepSpec>, b: Seq<StepSpec>)
    ensures
        send_count(a + b) == send_count(a) + send_count(b),
    decreases b.len(),
{
    if b.len() == 0 {
        assert(a + b =~= a);
    } else {
        lemma_send_count_concat(a, b.drop_last());
        assert((a + b).drop_last() =~= a + b.drop_last());
    }
}

proof fn lemma_send_count_sends(r: Seq<Seq<u8>>, phase: Phase)
    ensures
        send_count(sends(r, phase)) == r.len(),
    decreases r.len(),
{
    if r.len() > 0 {
        lemma_send_count_sends(r.drop_last(), phase);
        assert(sends(r, phase).drop_last() =~= sends(r.drop_last(), phase));
    }
}

proof fn lemma_send_count_bound(s: Seq<StepSpec>)
    ensures
        send_count(s) <= s.len(),
    decreases s.len(),
{
    if s.len() > 0 {
        lemma_send_count_bound(s.drop_last());
    }
}

proof fn lemma_send_count_push(a: Seq<StepSpec>, x: StepSpec)
    ensures
        send_count(a.push(x)) == send_count(a) + if x is Send {
            1nat
        } else {
            0nat
        },
{
    assert(a.push(x).drop_last() =~= a);
}

proof fn lemma_gif_blocks_count(pixels: Seq<u8>, k: int, phase: Phase)
    requires
        pixels.len() == 30720,
        0 <= k <= 30,
    ensures
        send_count(gif_blocks_script(pixels, k, phase)) == 19 * k,
    decreases k,
{
    if k > 0 {
        lemma_gif_blocks_count(pixels, k - 1, phase);
        let blk = gif_block_spec(pixels, k - 1);
        crate::protocol::lemma_offsets(pixels, 0, k - 1);
        lemma_send_count_sends(blk, phase);
        lemma_send_count_push(sends(blk, phase), StepSpec::Pause { ms: GIF_BLOCK_DELAY_MS });
        lemma_send_count_concat(gif_blocks_script(pixels, k - 1, phase), gif_block_script(pixels, k - 1, phase));
    }
}

proof fn lemma_gif_frames_count(frames: Seq<Seq<u8>>, mode: u8, k: int)
    requires
        0 <= k <= frames.len(),
        forall|i: int| 0 <= i < frames.len() ==> (#[trigger] frames[i]).len() == 30720,
    ensures
        send_count(gif_frames_script(frames, mode, k)) == 572 * k,
    decreases k,
{
    if k > 0 {
        lemma_gif_frames_count(frames, mode, k - 1);
        let i = k - 1;
        let n = frames.len() as int;
        let phase = Phase::Frame { index: i as usize, of: n as usize };
        let head = seq![
            StepSpec::Send {
                report: data_packet_spec(gif_frame_header_spec(mode, (i % 256) as u8)),
                phase,
                batch_index: 0,
            },
            StepSpec::Pause { ms: header_pause(i) },
            StepSpec::Send {
                report: data_packet_spec(CMD17_GIF_DECLARE_SIZE_PAYLOAD@),
                phase,
                batch_index: 0,
            },
        ];
        assert(send_count(head) == 2) by {
            reveal_with_fuel(send_count, 4);
        }
        lemma_gif_blocks_count(frames[i], 30, phase);
        lemma_send_count_push(gif_blocks_script(frames[i], 30, phase), StepSpec::FrameDone { index: i as usize, of: n as usize });
        lemma_send_count_concat(head, gif_blocks_script(frames[i], 30, phase).push(StepSpec::FrameDone { index: i as usize, of: n as usize }));
        lemma_send_count_concat(gif_frames_script(frames, mode, k - 1), gif_frame_script(frames[i], mode, i, n));
    }
}

/// A GIF upload of `n` frames sends exactly `gif_report_total(n)` reports
/// (1149 for two frames): the planner's count and the script agree.
pub proof fn lemma_gif_script_sends_the_counted_reports(frames: Seq<Seq<u8>>, mode: u8, rate: u8)
    requires
        forall|i: int| 0 <= i < frames.len() ==> (#[trigger] frames[i]).len() == 30720,
    ensures
        send_count(gif_script(frames, mode, rate)) == crate::protocol::gif_report_total(
            frames.len() as int,
        ),
{
    let open = sends(gif_session_open_spec(mode), Phase::Session);
    lemma_send_count_sends(gif_session_open_spec(mode), Phase::Session);
    lemma_send_count_push(open, StepSpec::Pause { ms: GIF_SESSION_OPEN_DELAY_MS });
    lemma_gif_frames_count(frames, mode, frames.len() as int);
    let close = gif_session_close_spec(mode, (frames.len() % 256) as u8, rate);
    let tail = seq![
        StepSpec::Send { report: close[0], phase: Phase::Session, batch_index: 0 },
        StepSpec::Pause { ms: GIF_SESSION_CLOSE_DELAY_MS },
        StepSpec::Send { report: close[1], phase: Phase::Session, batch_index: 0 },
        StepSpec::Pause { ms: GIF_SESSION_CLOSE_DELAY_MS },
        StepSpec::Pause { ms: GIF_PRE_FINISH_DELAY_MS },
        StepSpec::Send { report: finish_spec(), phase: Phase::Session, batch_index: 0 },
    ];
    assert(send_count(tail) == 3) by {
        reveal_with_fuel(send_count, 7);
    }
    let a = open.push(StepSpec::Pause { ms: GIF_SESSION_OPEN_DELAY_MS });
    let f = gif_frames_script(frames, mode, frames.len() as int);
    lemma_send_count_concat(a, f);
    lemma_send_count_concat(a + f, tail);
    assert(gif_session_open_spec(mode).len() == 2);
    assert(gif_script(frames, mode, rate) =~= (a + f) + tail);
    assert(572 * frames.len() == frames.len() * (2 + 30 * 19)) by (nonlinear_arith);
}

/// No step of `s` says that a frame is done.
pub open spec fn no_frame_done(s: Seq<StepSpec>) -> bool {
    forall|p: int| 0 <= p < s.len() ==> !(#[trigger] s[p] is FrameDone)
}

/// What a `FrameDone` step at position `p` of a GIF upload promises: frame
/// `index` of the `n` frames, sent after exactly `before + 572 * (index + 1)`
/// reports -- every report of that frame and of the frames before it --
/// and straight after the pause that follows the frame's last block.
pub open spec fn frame_done_after_its_body(s: Seq<StepSpec>, p: int, n: int, before: int) -> bool {
    match s[p] {
        StepSpec::FrameDone { index, of } => {
            &&& of == n
            &&& index < n
            &&& p > 0 && s[p - 1] == (StepSpec::Pause { ms: GIF_BLOCK_DELAY_MS })
            &&& send_count(s.take(p)) == before + 572 * (index + 1)
        },
        _ => true,
    }
}

/// Some step of `s` reports frame `i` of `n` done.
pub open spec fn reports_frame_done(s: Seq<StepSpec>, i: int, n: int) -> bool {
    exists|p: int| 0 <= p < s.len() && (#[trigger] s[p]) == (StepSpec::FrameDone { index: i as usize, of: n as usize })
}

proof fn lemma_sends_no_frame_done(r: Seq<Seq<u8>>, phase: Phase)
    ensures
        no_frame_done(sends(r, phase)),
{
}

proof fn lemma_no_frame_done_concat(a: Seq<StepSpec>, b: Seq<StepSpec>)
    requires
        no_frame_done(a),
        no_frame_done(b),
    ensures
        no_frame_done(a + b),
{
    assert forall|p: int| 0 <= p < (a + b).len() implies !((a + b)[p] is FrameDone) by {
        if p < a.len() {
            assert((a + b)[p] == a[p]);
        } else {
            assert((a + b)[p] == b[p - a.len()]);
        }
    }
}

proof fn lemma_blocks_no_frame_done(pixels: Seq<u8>, k: int, phase: Phase)
    ensures
        no_frame_done(gif_blocks_script(pixels, k, phase)),
    decreases k,
{
    if k > 0 {
        lemma_blocks_no_frame_done(pixels, k - 1, phase);
        let blk = sends(gif_block_spec(pixels, k - 1), phase);
        lemma_sends_no_frame_done(gif_block_spec(pixels, k - 1), phase);
        let with_pause = blk.push(StepSpec::Pause { ms: GIF_BLOCK_DELAY_MS });
        assert forall|p: int| 0 <= p < with_pause.len() implies !(#[trigger] with_pause[p] is FrameDone) by {
            if p < blk.len() {
                assert(with_pause[p] == blk[p]);
            }
        }
        lemma_no_frame_done_concat(gif_blocks_script(pixels, k - 1, phase), with_pause);
    }
}

proof fn lemma_frames_report_done_after_their_body(frames: Seq<Seq<u8>>, mode: u8, k: int)
    requires
        0 <= k <= frames.len(),
        frames.len() <= usize::MAX,
        forall|i: int| 0 <= i < frames.len() ==> (#[trigger] frames[i]).len() == 30720,
    ensures
        forall|p: int| 0 <= p < gif_frames_script(frames, mode, k).len() ==> #[trigger] frame_done_after_its_body(
            gif_frames_script(frames, mode, k),
            p,
            frames.len() as int,
            0,
        ) && (gif_frames_script(frames, mode, k)[p] matches StepSpec::FrameDone { index, .. } ==> index < k),
        forall|i: int| 0 <= i < k ==> #[trigger] reports_frame_done(
            gif_frames_script(frames, mode, k),
            i,
            frames.len() as int,
        ),
    decreases k,
{
    let n = frames.len() as int;
    let s = gif_frames_script(frames, mode, k);
    if k > 0 {
        lemma_frames_report_done_after_their_body(frames, mode, k - 1);
        let prev = gif_frames_script(frames, mode, k - 1);
        let i = k - 1;
        let phase = Phase::Frame { index: i as usize, of: n as usize };
        let head = seq![
            StepSpec::Send {
                report: data_packet_spec(gif_frame_header_spec(mode, (i % 256) as u8)),
                phase,
                batch_index: 0,
            },
            StepSpec::Pause { ms: header_pause(i) },
            StepSpec::Send {
                report: data_packet_spec(CMD17_GIF_DECLARE_SIZE_PAYLOAD@),
                phase,
                batch_index: 0,
            },
        ];
        let blocks = gif_blocks_script(frames[i], 30, phase);
        let done = StepSpec::FrameDone { index: i as usize, of: n as usize };
        let fr = gif_frame_script(frames[i], mode, i, n);
        assert(fr == head + blocks.push(done));
        assert(s == prev + fr);
        lemma_blocks_no_frame_done(frames[i], 30, phase);
        assert(send_count(head) == 2) by {
            reveal_with_fuel(send_count, 4);
        }
        lemma_gif_blocks_count(frames[i], 30, phase);
        lemma_gif_frames_count(frames, mode, k - 1);
        lemma_send_count_concat(head, blocks);
        let last = prev.len() + fr.len() - 1;
        assert(fr.take(fr.len() - 1) =~= head + blocks);
        assert(s.take(last) =~= prev + fr.take(fr.len() - 1));
        lemma_send_count_concat(prev, fr.take(fr.len() - 1));
        assert(s[last] == done);
        assert forall|p: int| 0 <= p < s.len() implies #[trigger] frame_done_after_its_body(s, p, n, 0)
            && (s[p] matches StepSpec::FrameDone { index, .. } ==> index < k) by {
            if p < prev.len() {
                assert(s[p] == prev[p]);
                assert(s.take(p) =~= prev.take(p));
                assert(frame_done_after_its_body(prev, p, n, 0));
            } else if p < last {
                let q = p - prev.len();
                assert(s[p] == fr[q]);
                if q < 3 {
                    assert(fr[q] == head[q]);
                } else {
                    assert(fr[q] == blocks[q - 3]);
                }
            } else {
                assert(p == last);
                let bl = gif_blocks_script(frames[i], 29, phase);
                assert(blocks == bl + gif_block_script(frames[i], 29, phase));
                assert(blocks.last() == (StepSpec::Pause { ms: GIF_BLOCK_DELAY_MS }));
                assert(s[last - 1] == fr[fr.len() - 2]);
                assert(fr[fr.len() - 2] == blocks.last());
            }
        }
        assert forall|j: int| 0 <= j < k implies #[trigger] reports_frame_done(s, j, n) by {
            if j < k - 1 {
                assert(reports_frame_done(prev, j, n));
                let p = choose|p: int| 0 <= p < prev.len() && (#[trigger] prev[p]) == (StepSpec::FrameDone {
                    index: j as usize,
                    of: n as usize,
                });
                assert(s[p] == prev[p]);
            } else {
                assert(s[last] == done);
            }
        }
    } else {
        assert(s.len() == 0);
    }
}

/// A GIF upload reports frame `i` done only once every report of that frame
/// -- its header, declare-size and all 30 blocks -- and of every frame before
/// it has gone out: after `2 + 572 * (i + 1)` reports, the session-open pair
/// included. Every frame is reported so, once the script reaches it.
pub proof fn lemma_frame_done_follows_its_body(frames: Seq<Seq<u8>>, mode: u8, rate: u8)
    requires
        frames.len() <= usize::MAX,
        forall|i: int| 0 <= i < frames.len() ==> (#[trigger] frames[i]).len() == 30720,
    ensures
        forall|p: int| 0 <= p < gif_script(frames, mode, rate).len() ==> #[trigger] frame_done_after_its_body(
            gif_script(frames, mode, rate),
            p,
            frames.len() as int,
            2,
        ),
        forall|i: int| 0 <= i < frames.len() ==> #[trigger] reports_frame_done(
            gif_script(frames, mode, rate),
            i,
            frames.len() as int,
        ),
{
    let n = frames.len() as int;
    let s = gif_script(frames, mode, rate);
    let open = sends(gif_session_open_spec(mode), Phase::Session);
    let a = open.push(StepSpec::Pause { ms: GIF_SESSION_OPEN_DELAY_MS });
    let f = gif_frames_script(frames, mode, n);
    let close = gif_session_close_spec(mode, (frames.len() % 256) as u8, rate);
    let tail = seq![
        StepSpec::Send { report: close[0], phase: Phase::Session, batch_index: 0 },
        StepSpec::Pause { ms: GIF_SESSION_CLOSE_DELAY_MS },
        StepSpec::Send { report: close[1], phase: Phase::Session, batch_index: 0 },
        StepSpec::Pause { ms: GIF_SESSION_CLOSE_DELAY_MS },
        StepSpec::Pause { ms: GIF_PRE_FINISH_DELAY_MS },
        StepSpec::Send { report: finish_spec(), phase: Phase::Session, batch_index: 0 },
    ];
    assert(s == a + f + tail);
    lemma_frames_report_done_after_their_body(frames, mode, n);
    lemma_send_count_sends(gif_session_open_spec(mode), Phase::Session);
    lemma_send_count_push(open, StepSpec::Pause { ms: GIF_SESSION_OPEN_DELAY_MS });
    lemma_sends_no_frame_done(gif_session_open_spec(mode), Phase::Session);
    assert(gif_session_open_spec(mode).len() == 2);
    assert forall|p: int| 0 <= p < s.len() implies #[trigger] frame_done_after_its_body(s, p, n, 2) by {
        if p < a.len() {
            assert(s[p] == a[p]);
            if p < open.len() {
                assert(a[p] == open[p]);
            }
        } else if p < a.len() + f.len() {
            let q = p - a.len();
            assert(s[p] == f[q]);
            assert(s.take(p) =~= a + f.take(q));
            lemma_send_count_concat(a, f.take(q));
            assert(frame_done_after_its_body(f, q, n, 0));
            if q > 0 {
                assert(s[p - 1] == f[q - 1]);
            }
        } else {
            assert(s[p] == tail[p - a.len() - f.len()]);
        }
    }
    assert forall|i: int| 0 <= i < n implies #[trigger] reports_frame_done(s, i, n) by {
        assert(reports_frame_done(f, i, n));
        let q = choose|q: int| 0 <= q < f.len() && (#[trigger] f[q]) == (StepSpec::FrameDone {
            index: i as usize,
            of: n as usize,
        });
        assert(s[a.len() + q] == f[q]);
    }
}

/// No step of `s` is the three-second pause.
pub open spec fn no_slow_pause(s: Seq<StepSpec>) -> bool {
    forall|p: int| 0 <= p < s.len() ==> #[trigger] s[p] != (StepSpec::Pause { ms: GIF_FRAME_HEADER_SLOW_DELAY_MS })
}

/// Where frame `i`'s header pause stands in a GIF upload's script: after the
/// session-open pair and its pause, and `i` whole frames of 604 steps, one
/// step into the frame.
pub open spec fn header_pause_position(i: int) -> int {
    3 + 604 * i + 1
}

proof fn lemma_no_slow_pause_concat(a: Seq<StepSpec>, b: Seq<StepSpec>)
    requires
        no_slow_pause(a),
        no_slow_pause(b),
    ensures
        no_slow_pause(a + b),
{
    assert forall|p: int| 0 <= p < (a + b).len() implies #[trigger] (a + b)[p] != (StepSpec::Pause {
        ms: GIF_FRAME_HEADER_SLOW_DELAY_MS,
    }) by {
        if p < a.len() {
            assert((a + b)[p] == a[p]);
        } else {
            assert((a + b)[p] == b[p - a.len()]);
        }
    }
}

proof fn lemma_blocks_shape(pixels: Seq<u8>, k: int, phase: Phase)
    requires
        pixels.len() == 30720,
        0 <= k <= 30,
    ensures
        no_slow_pause(gif_blocks_script(pixels, k, phase)),
        gif_blocks_script(pixels, k, phase).len() == 20 * k,
    decreases k,
{
    if k > 0 {
        lemma_blocks_shape(pixels, k - 1, phase);
        crate::protocol::lemma_offsets(pixels, 0, k - 1);
        let blk = sends(gif_block_spec(pixels, k - 1), phase);
        let with_pause = blk.push(StepSpec::Pause { ms: GIF_BLOCK_DELAY_MS });
        assert forall|p: int| 0 <= p < with_pause.len() implies #[trigger] with_pause[p] != (StepSpec::Pause {
            ms: GIF_FRAME_HEADER_SLOW_DELAY_MS,
        }) by {
            if p < blk.len() {
                assert(with_pause[p] == blk[p]);
            }
        }
        lemma_no_slow_pause_concat(gif_blocks_script(pixels, k - 1, phase), with_pause);
    }
}

proof fn lemma_frames_pause_where_due(frames: Seq<Seq<u8>>, mode: u8, k: int)
    requires
        0 <= k <= frames.len(),
        forall|i: int| 0 <= i < frames.len() ==> (#[trigger] frames[i]).len() == 30720,
    ensures
        gif_frames_script(frames, mode, k).len() == 604 * k,
        forall|i: int| 0 <= i < k ==> #[trigger] gif_frames_script(frames, mode, k)[604 * i + 1] == (StepSpec::Pause {
            ms: header_pause(i),
        }),
        forall|p: int| 0 <= p < gif_frames_script(frames, mode, k).len() && #[trigger] gif_frames_script(frames, mode, k)[p]
            == (StepSpec::Pause { ms: GIF_FRAME_HEADER_SLOW_DELAY_MS }) ==> p % 604 == 1 && (p / 604) % 16 == 0,
    decreases k,
{
    let s = gif_frames_script(frames, mode, k);
    if k > 0 {
        lemma_frames_pause_where_due(frames, mode, k - 1);
        let prev = gif_frames_script(frames, mode, k - 1);
        let i = k - 1;
        let n = frames.len() as int;
        let phase = Phase::Frame { index: i as usize, of: n as usize };
        let head = seq![
            StepSpec::Send {
                report: data_packet_spec(gif_frame_header_spec(mode, (i % 256) as u8)),
                phase,
                batch_index: 0,
            },
            StepSpec::Pause { ms: header_pause(i) },
            StepSpec::Send {
                report: data_packet_spec(CMD17_GIF_DECLARE_SIZE_PAYLOAD@),
                phase,
                batch_index: 0,
            },
        ];
        let blocks = gif_blocks_script(frames[i], 30, phase);
        let done = StepSpec::FrameDone { index: i as usize, of: n as usize };
        let fr = gif_frame_script(frames[i], mode, i, n);
        assert(fr == head + blocks.push(done));
        assert(s == prev + fr);
        lemma_blocks_shape(frames[i], 30, phase);
        assert(fr.len() == 604);
        assert forall|j: int| 0 <= j < k implies #[trigger] s[604 * j + 1] == (StepSpec::Pause {
            ms: header_pause(j),
        }) by {
            if j < k - 1 {
                assert(s[604 * j + 1] == prev[604 * j + 1]);
            } else {
                assert(s[604 * j + 1] == fr[1]);
            }
        }
        assert forall|p: int| 0 <= p < s.len() && #[trigger] s[p] == (StepSpec::Pause {
            ms: GIF_FRAME_HEADER_SLOW_DELAY_MS,
        }) implies p % 604 == 1 && (p / 604) % 16 == 0 by {
            if p < prev.len() {
                assert(s[p] == prev[p]);
            } else {
                let q = p - prev.len();
                assert(s[p] == fr[q]);
                assert(p == 604 * i + q);
                if q == 1 {
                    assert(fr[1] == StepSpec::Pause { ms: header_pause(i) });
                    assert(header_pause(i) == GIF_FRAME_HEADER_SLOW_DELAY_MS);
                    assert(i % 16 == 0);
                    assert((604 * i + 1) % 604 == 1 && (604 * i + 1) / 604 == i) by (nonlinear_arith)
                        requires
                            i >= 0,
                    ;
                } else if q == 0 || q == 2 {
                    assert(fr[q] == head[q]);
                } else if q < 603 {
                    assert(fr[q] == blocks[q - 3]);
                } else {
                    assert(fr[q] == done);
                }
            }
        }
    } else {
        assert(s.len() == 0);
    }
}

/// A GIF upload pauses three seconds after frame `i`'s header exactly when
/// `i` is a multiple of 16, and 30 ms otherwise; no other step of the upload
/// is a three-second pause. Each header pause stands at
/// `header_pause_position(i)`.
pub proof fn lemma_slow_pause_every_sixteenth_frame(frames: Seq<Seq<u8>>, mode: u8, rate: u8)
    requires
        forall|i: int| 0 <= i < frames.len() ==> (#[trigger] frames[i]).len() == 30720,
    ensures
        forall|i: int| 0 <= i < frames.len() ==> #[trigger] gif_script(frames, mode, rate)[header_pause_position(i)]
            == (StepSpec::Pause { ms: if i % 16 == 0 { 3000u64 } else { 30u64 } }),
        forall|p: int| 0 <= p < gif_script(frames, mode, rate).len() && #[trigger] gif_script(frames, mode, rate)[p]
            == (StepSpec::Pause { ms: 3000 }) ==> exists|i: int| 0 <= i < frames.len() && p == header_pause_position(i)
            && i % 16 == 0,
{
    let n = frames.len() as int;
    let s = gif_script(frames, mode, rate);
    let open = sends(gif_session_open_spec(mode), Phase::Session);
    let a = open.push(StepSpec::Pause { ms: GIF_SESSION_OPEN_DELAY_MS });
    let f = gif_frames_script(frames, mode, n);
    let close = gif_session_close_spec(mode, (frames.len() % 256) as u8, rate);
    let tail = seq![
        StepSpec::Send { report: close[0], phase: Phase::Session, batch_index: 0 },
        StepSpec::Pause { ms: GIF_SESSION_CLOSE_DELAY_MS },
        StepSpec::Send { report: close[1], phase: Phase::Session, batch_index: 0 },
        StepSpec::Pause { ms: GIF_SESSION_CLOSE_DELAY_MS },
        StepSpec::Pause { ms: GIF_PRE_FINISH_DELAY_MS },
        StepSpec::Send { report: finish_spec(), phase: Phase::Session, batch_index: 0 },
    ];
    assert(s == a + f + tail);
    lemma_frames_pause_where_due(frames, mode, n);
    assert(gif_session_open_spec(mode).len() == 2);
    assert(a.len() == 3);
    assert forall|i: int| 0 <= i < n implies #[trigger] s[header_pause_position(i)] == (StepSpec::Pause {
        ms: if i % 16 == 0 { 3000u64 } else { 30u64 },
    }) by {
        assert(0 <= 604 * i + 1 < f.len()) by (nonlinear_arith)
            requires
                0 <= i < n,
                f.len() == 604 * n,
        ;
        assert(s[header_pause_position(i)] == f[604 * i + 1]);
    }
    assert forall|p: int| 0 <= p < s.len() && #[trigger] s[p] == (StepSpec::Pause { ms: 3000 }) implies exists|i: int|
        0 <= i < n && p == header_pause_position(i) && i % 16 == 0 by {
        if p < a.len() {
            assert(s[p] == a[p]);
            if p < open.len() {
                assert(a[p] == open[p]);
            }
        } else if p < a.len() + f.len() {
            let q = p - a.len();
            assert(s[p] == f[q]);
            let i = q / 604;
            assert(q == 604 * i + 1 && 0 <= i < n) by (nonlinear_arith)
                requires
                    q % 604 == 1,
                    i == q / 604,
                    0 <= q < 604 * n,
            ;
            assert(p == header_pause_position(i));
        } else {
            assert(s[p] == tail[p - a.len() - f.len()]);
        }
    }
}

/// A picture upload sends exactly `picture_upload_report_count()` (552)
/// reports, and pauses once, after the first.
pub proof fn lemma_picture_script_sends_the_counted_reports(pixels: Seq<u8>)
    requires
        pixels.len() == 30720,
    ensures
        send_count(picture_script(pixels)) == 552,
        picture_script(pixels)[1] == (StepSpec::Pause { ms: START_TO_DECLARE_DELAY_MS }),
{
    let head = seq![
        StepSpec::Send {
            report: info_package_spec(CMD16_START_PAYLOAD@),
            phase: Phase::Picture,
            batch_index: 0,
        },
        StepSpec::Pause { ms: START_TO_DECLARE_DELAY_MS },
    ];
    assert(send_count(head) == 1) by {
        reveal_with_fuel(send_count, 3);
    }
    crate::protocol::lemma_picture_upload_reassembles(pixels);
    lemma_send_count_sends(picture_body_spec(pixels), Phase::Picture);
    lemma_send_count_concat(head, sends(picture_body_spec(pixels), Phase::Picture));
}



// --- Running a script ---

/// What the one running an upload must do next.
#[derive(Debug, Clone)]
pub enum UploadAction {
    /// Drain the node, then write this report and wait for its
    /// acknowledgement, then call `acknowledged`. `batch_index` is what a
    /// drain warning names.
    Send { report: [u8; 64], batch_index: usize },
    /// Wait this long, stopping early if cancelled (see `pause_outcome`).
    Pause { ms: u64 },
    /// Tell the caller this.
    Emit(ExecEvent),
    /// The script is complete.
    Finished,
    /// The user stopped the upload; nothing more may be sent.
    Stopped(DeviceError),
}

/// An upload script being run, one step at a time. Cancellation is looked
/// at before every report, never in the middle of one: a half-written
/// report is a protocol violation, a half-written upload only a bad picture.
pub struct Upload {
    steps: Vec<UploadStep>,
    next: usize,
    done: usize,
    total: usize,
    phase: Phase,
    awaiting: bool,
}

/// The step `s` asks for, given whether the user has cancelled.
pub open spec fn action_for(s: StepSpec, a: UploadAction, cancelled: bool) -> bool {
    match s {
        StepSpec::Send { report, batch_index, .. } => if cancelled {
            a matches UploadAction::Stopped(DeviceError::Cancelled { note: None })
        } else {
            a matches UploadAction::Send { report: r, batch_index: b } && r@ == report && b
                == batch_index
        },
        StepSpec::Pause { ms } => a == UploadAction::Pause { ms },
        StepSpec::FrameDone { index, of } => a == UploadAction::Emit(
            ExecEvent::FrameDone { index, of },
        ),
    }
}

impl Upload {
    /// The script.
    pub closed spec fn script(&self) -> Seq<StepSpec> {
        steps_spec(self.steps@)
    }

    /// How many steps have been handed out.
    pub closed spec fn position(&self) -> nat {
        self.next as nat
    }

    /// Reports acknowledged so far.
    pub closed spec fn acknowledged_count(&self) -> nat {
        self.done as nat
    }

    /// The report count progress is measured against.
    pub closed spec fn planned(&self) -> nat {
        self.total as nat
    }

    /// A report has been handed out and not yet acknowledged.
    pub closed spec fn awaiting_ack(&self) -> bool {
        self.awaiting
    }

    /// The counts agree with the script: every report handed out has been
    /// acknowledged, except possibly the last.
    pub closed spec fn wf(&self) -> bool {
        &&& self.next <= self.steps@.len()
        &&& self.done + (if self.awaiting { 1int } else { 0 }) == send_count(
            steps_spec(self.steps@).take(self.next as int),
        )
        &&& self.awaiting ==> self.next > 0
        &&& self.awaiting ==> (steps_spec(self.steps@)[self.next - 1] matches StepSpec::Send {
            phase: p,
            ..
        } && p == self.phase)
    }

    /// Starts running `steps`, measuring progress against `total` reports.
    pub fn new(steps: Vec<UploadStep>, total: usize) -> (u: Self)
        ensures
            u.wf(),
            u.script() == steps_spec(steps@),
            u.position() == 0,
            u.acknowledged_count() == 0,
            u.planned() == total,
            !u.awaiting_ack(),
    {
        let u = Upload { steps, next: 0, done: 0, total, phase: Phase::Session, awaiting: false };
        assert(steps_spec(u.steps@).take(0) =~= Seq::<StepSpec>::empty());
        u
    }

    /// The next thing to do. The step after the last report handed out may
    /// only be asked for once that report is acknowledged.
    pub fn next_action(&mut self, cancelled: bool) -> (a: UploadAction)
        requires
            old(self).wf(),
            !old(self).awaiting_ack(),
        ensures
            final(self).wf(),
            progressed(*old(self), *final(self), None),
            final(self).script() == old(self).script(),
            final(self).planned() == old(self).planned(),
            final(self).acknowledged_count() == old(self).acknowledged_count(),
            if old(self).position() >= old(self).script().len() {
                &&& a is Finished
                &&& final(self).position() == old(self).position()
                &&& old(self).acknowledged_count() == send_count(old(self).script())
            } else {
                let s = old(self).script()[old(self).position() as int];
                &&& action_for(s, a, cancelled)
                &&& if a is Stopped {
                    final(self).position() == old(self).position() && !final(self).awaiting_ack()
                } else {
                    final(self).position() == old(self).position() + 1
                        && final(self).awaiting_ack() == (a is Send)
                }
            },
    {
        let ghost sv = steps_spec(self.steps@);
        if self.next >= self.steps.len() {
            assert(sv.take(self.next as int) =~= sv);
            return UploadAction::Finished;
        }
        let step = self.steps[self.next];
        proof {
            assert(sv.take(self.next + 1).drop_last() =~= sv.take(self.next as int));
            assert(sv.take(self.next + 1).last() == sv[self.next as int]);
            assert(sv[self.next as int] == step_spec(step));
        }
        match step {
            UploadStep::Send { report, phase, batch_index } => {
                if cancelled {
                    return UploadAction::Stopped(DeviceError::Cancelled { note: None });
                }
                self.next = self.next + 1;
                self.phase = phase;
                self.awaiting = true;
                UploadAction::Send { report, batch_index }
            },
            UploadStep::Pause { ms } => {
                self.next = self.next + 1;
                UploadAction::Pause { ms }
            },
            UploadStep::FrameDone { index, of } => {
                self.next = self.next + 1;
                UploadAction::Emit(ExecEvent::FrameDone { index, of })
            },
        }
    }

    /// The report last handed out was written and acknowledged: one more
    /// done, reported against the planned total in the report's phase.
    pub fn acknowledged(&mut self) -> (e: ExecEvent)
        requires
            old(self).wf(),
            old(self).awaiting_ack(),
        ensures
            final(self).wf(),
            !final(self).awaiting_ack(),
            final(self).script() == old(self).script(),
            final(self).position() == old(self).position(),
            final(self).planned() == old(self).planned(),
            final(self).acknowledged_count() == old(self).acknowledged_count() + 1,
            progressed(*old(self), *final(self), Some(e)),
            e matches ExecEvent::Progress { done, total, phase } && done
                == final(self).acknowledged_count() && total == old(self).planned() && match old(
                self,
            ).script()[old(self).position() - 1] {
                StepSpec::Send { phase: p, .. } => phase == p,
                _ => true,
            },
    {
        proof {
            let sv = steps_spec(self.steps@);
            lemma_send_count_bound(sv.take(self.next as int));
        }
        self.awaiting = false;
        self.done = self.done + 1;
        ExecEvent::Progress { done: self.done, total: self.total, phase: self.phase }
    }
}


/// The warning when stale reports were drained before a write.
pub open spec fn drain_warning_text(drained: nat, batch_index: nat) -> Seq<char> {
    "warning: drained "@ + decimal(drained) + " unexpected report(s) before write #"@ + decimal(
        batch_index,
    )
}

/// What a drain before a write tells the caller: nothing when it read
/// nothing, which is the healthy case, else a warning naming how many stale
/// reports it read and which write of the batch was next.
pub fn drain_warning(drained: usize, batch_index: usize) -> (e: Option<ExecEvent>)
    ensures
        drained == 0 ==> e is None,
        drained > 0 ==> (e matches Some(ExecEvent::Note(m)) && m@ == drain_warning_text(
            drained as nat,
            batch_index as nat,
        )),
{
    if drained == 0 {
        return None;
    }
    let mut m = String::from_str("warning: drained ");
    push_decimal(&mut m, drained as u64);
    m.append(" unexpected report(s) before write #");
    push_decimal(&mut m, batch_index as u64);
    Some(ExecEvent::Note(m))
}

/// How a pause ended: cancelled during the wait is a cancellation, not a
/// fault.
pub fn pause_outcome(completed: bool) -> (r: Result<(), DeviceError>)
    ensures
        completed ==> r is Ok,
        !completed ==> r matches Err(DeviceError::Cancelled { note: None }),
{
    if completed {
        Ok(())
    } else {
        Err(DeviceError::Cancelled { note: None })
    }
}


// --- The shape of a script ---

/// One stretch of a script as the outside world sees it: reports sent back
/// to back, or a pause.
#[derive(Debug, Clone, Copy, PartialEq, Eq, Structural)]
pub enum Step {
    /// `n` reports sent with nothing between them.
    Reports(usize),
    /// A pause, in milliseconds.
    Slept(u64),
}

/// A script's shape: consecutive reports counted together, pauses as they
/// are, frame notices (which touch neither the device nor the clock) left
/// out.
pub open spec fn layout_spec(s: Seq<StepSpec>) -> Seq<Step>
    decreases s.len(),
{
    if s.len() == 0 {
        Seq::empty()
    } else {
        let l = layout_spec(s.drop_last());
        match s.last() {
            StepSpec::Send { .. } => if l.len() > 0 && l.last() is Reports {
                l.update(l.len() - 1, Step::Reports((l.last()->Reports_0 + 1) as usize))
            } else {
                l.push(Step::Reports(1))
            },
            StepSpec::Pause { ms } => l.push(Step::Slept(ms)),
            StepSpec::FrameDone { .. } => l,
        }
    }
}

/// The shape of an upload script, for reading its pause layout at a glance.
pub fn layout(steps: &Vec<UploadStep>) -> (out: Vec<Step>)
    ensures
        out@ == layout_spec(steps_spec(steps@)),
{
    let ghost sv = steps_spec(steps@);
    let mut out: Vec<Step> = Vec::new();
    let mut i: usize = 0;
    assert(sv.take(0) =~= Seq::<StepSpec>::empty());
    while i < steps.len()
        invariant
            i <= steps@.len(),
            sv == steps_spec(steps@),
            out@ == layout_spec(sv.take(i as int)),
            forall|j: int| 0 <= j < out@.len() ==> (#[trigger] out@[j] matches Step::Reports(n)
                ==> n <= i),
        decreases steps@.len() - i,
    {
        proof {
            assert(sv.take(i + 1).drop_last() =~= sv.take(i as int));
            assert(sv.take(i + 1).last() == step_spec(steps@[i as int]));
        }
        match steps[i] {
            UploadStep::Send { .. } => {
                let k = out.len();
                if k > 0 {
                    if let Step::Reports(n) = out[k - 1] {
                        assert(out@[k - 1] matches Step::Reports(m) ==> m <= i);
                        out.set(k - 1, Step::Reports(n + 1));
                    } else {
                        out.push(Step::Reports(1));
                    }
                } else {
                    out.push(Step::Reports(1));
                }
            },
            UploadStep::Pause { ms } => out.push(Step::Slept(ms)),
            UploadStep::FrameDone { .. } => {},
        }
        i = i + 1;
    }
    assert(sv.take(i as int) =~= sv);
    out
}


/// One step of running an upload: `next_action`, which acknowledges
/// nothing and says nothing of progress (`ev` is `None`), or `acknowledged`
/// after a send, which counts one more report and says so (`ev` is the
/// progress event). The script and the planned total never change.
pub open spec fn progressed(u: Upload, v: Upload, ev: Option<ExecEvent>) -> bool {
    &&& v.script() == u.script()
    &&& v.planned() == u.planned()
    &&& match ev {
        None => !u.awaiting_ack() && v.acknowledged_count() == u.acknowledged_count(),
        Some(e) => u.awaiting_ack() && v.acknowledged_count() == u.acknowledged_count() + 1
            && (e matches ExecEvent::Progress { done, total, .. } && done == v.acknowledged_count()
            && total == u.planned()),
    }
}

/// How many progress events a run has told so far.
pub open spec fn progress_told(evs: Seq<Option<ExecEvent>>) -> nat
    decreases evs.len(),
{
    if evs.len() == 0 {
        0
    } else {
        progress_told(evs.drop_last()) + if evs.last() is Some {
            1nat
        } else {
            0nat
        }
    }
}

/// Progress counts every report, one at a time: over any run of an upload
/// from its start (`us[i]` to `us[i + 1]` by the step that told `evs[i]`),
/// the `k`-th progress event says `done == k` of the planned total, and the
/// upload has acknowledged exactly as many reports as progress events were
/// told.
pub proof fn lemma_progress_counts_each_report(us: Seq<Upload>, evs: Seq<Option<ExecEvent>>)
    requires
        us.len() == evs.len() + 1,
        us[0].acknowledged_count() == 0,
        forall|i: int| 0 <= i < evs.len() ==> #[trigger] progressed(us[i], us[i + 1], evs[i]),
    ensures
        us.last().acknowledged_count() == progress_told(evs),
        forall|k: int| 0 <= k < us.len() ==> (#[trigger] us[k]).planned() == us[0].planned(),
        forall|i: int| 0 <= i < evs.len() && (#[trigger] evs[i]) is Some ==> (evs[i] matches Some(
            ExecEvent::Progress { done, total, .. },
        ) && done == progress_told(evs.take(i + 1)) && total == us[0].planned()),
    decreases evs.len(),
{
    if evs.len() > 0 {
        let n = evs.len() - 1;
        let us2 = us.drop_last();
        let evs2 = evs.drop_last();
        assert forall|i: int| 0 <= i < evs2.len() implies #[trigger] progressed(us2[i], us2[i + 1], evs2[i]) by {
            assert(progressed(us[i], us[i + 1], evs[i]));
        }
        lemma_progress_counts_each_report(us2, evs2);
        assert(progressed(us[n], us[n + 1], evs[n]));
        assert(us2.last() == us[n]);
        assert(us2[n] == us[n]);
        assert forall|k: int| 0 <= k < us.len() implies (#[trigger] us[k]).planned() == us[0].planned() by {
            if k < us.len() - 1 {
                assert(us2[k] == us[k]);
            }
        }
        assert(evs.take(n + 1) =~= evs);
        assert forall|i: int| 0 <= i < evs.len() && (#[trigger] evs[i]) is Some implies (evs[i] matches Some(
            ExecEvent::Progress { done, total, .. },
        ) && done == progress_told(evs.take(i + 1)) && total == us[0].planned()) by {
            if i < n {
                assert(evs2[i] == evs[i]);
                assert(evs2.take(i + 1) =~= evs.take(i + 1));
            }
        }
    }
}

/// Progress ends exactly on the planner's total: a GIF or picture upload
/// run to the end of its script, with the total it was planned with, has
/// acknowledged exactly that many reports.
pub proof fn lemma_finished_upload_meets_its_plan(u: Upload, frames: Seq<Seq<u8>>, mode: u8, rate: u8, gif: bool)
    requires
        u.wf(),
        u.position() == u.script().len(),
        !u.awaiting_ack(),
        gif ==> forall|i: int| 0 <= i < frames.len() ==> (#[trigger] frames[i]).len() == 30720,
        gif ==> u.script() == gif_script(frames, mode, rate) && u.planned()
            == crate::protocol::gif_report_total(frames.len() as int),
        !gif ==> frames.len() == 1 && frames[0].len() == 30720 && u.script() == picture_script(
            frames[0],
        ) && u.planned() == 552,
    ensures
        u.acknowledged_count() == u.planned(),
{
    assert(u.script().take(u.position() as int) =~= u.script());
    if gif {
        lemma_gif_script_sends_the_counted_reports(frames, mode, rate);
    } else {
        lemma_picture_script_sends_the_counted_reports(frames[0]);
    }
}

} // verus!
