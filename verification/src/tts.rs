//! Synthesis middleware and Audio Delivery Stage.
//!
//! The middleware deduplicates requests against the Cache Store, screens
//! finished downloads against an exclusion band before caching them, and
//! rotates credentials when the provider rejects one. The delivery stage
//! turns one container buffer at a time into an ordered run of commands:
//! status notices for the requester, mute toggles and single frames for the
//! voice transport — a malformed buffer costs one error notice and nothing
//! else.

use vstd::prelude::*;
use vstd::string::*;

use crate::cache::{lookup, ConnAgent, StorageError};
use crate::config::{string_views, vec_contains_string, KeyStore, PoolError};
use crate::web::trim_of;
use crate::web::trim_str;

verus! {

/// The growable byte buffer a download streams into while the decoder
/// already reads from it. The downloader is the only writer and appends at
/// the end; the decoder is the only reader and consumes sequentially, never
/// seeking.
pub struct MutableMediaSource {
    data: Vec<u8>,
    offset: usize,
}

impl MutableMediaSource {
    /// Everything the downloader has appended so far.
    pub closed spec fn buffered(&self) -> Seq<u8> {
        self.data@
    }

    /// How much the reader has consumed.
    pub closed spec fn read_pos(&self) -> nat {
        self.offset as nat
    }

    /// The reader never runs past what is buffered.
    pub open spec fn wf(&self) -> bool {
        self.read_pos() <= self.buffered().len()
    }

    /// A fresh, empty buffer.
    pub fn new() -> (r: MutableMediaSource)
        ensures
            r.wf(),
            r.buffered() == Seq::<u8>::empty(),
            r.read_pos() == 0,
    {
        let data: Vec<u8> = Vec::new();
        proof {
            assert(data@ =~= Seq::<u8>::empty());
        }
        MutableMediaSource { data, offset: 0 }
    }

    /// The downloader appends one network chunk at the end.
    pub fn append(&mut self, input: &[u8])
        requires
            old(self).wf(),
            old(self).buffered().len() + input@.len() <= usize::MAX,
        ensures
            final(self).wf(),
            final(self).buffered() == old(self).buffered() + input@,
            final(self).read_pos() == old(self).read_pos(),
    {
        self.data.extend_from_slice(input);
    }

    /// A copy of everything buffered, regardless of how far the reader
    /// has come; the middleware caches exactly this payload.
    pub fn contents(&self) -> (r: Vec<u8>)
        ensures
            r@ == self.buffered(),
    {
        let mut out: Vec<u8> = Vec::new();
        let mut i: usize = 0;
        while i < self.data.len()
            invariant
                i <= self.data.len(),
                out@ == self.data@.subrange(0, i as int),
            decreases self.data.len() - i,
        {
            let b = self.data[i];
            out.push(b);
            proof {
                assert(out@ =~= self.data@.subrange(0, i as int + 1));
            }
            i += 1;
        }
        proof {
            assert(out@ =~= self.data@);
        }
        out
    }

    /// How many bytes are buffered in total.
    pub fn byte_len(&self) -> (r: usize)
        ensures
            r == self.buffered().len(),
    {
        self.data.len()
    }

    /// The reader takes the next up-to-`max` bytes, advancing its position;
    /// fewer (or none) come back when less is buffered.
    pub fn read_chunk(&mut self, max: usize) -> (r: Vec<u8>)
        requires
            old(self).wf(),
        ensures
            final(self).wf(),
            final(self).buffered() == old(self).buffered(),
            r@ == old(self).buffered().subrange(
                old(self).read_pos() as int,
                old(self).read_pos() + r@.len() as int,
            ),
            r@.len() == vstd::math::min(max as int, old(self).buffered().len() - old(
                self,
            ).read_pos()),
            final(self).read_pos() == old(self).read_pos() + r@.len(),
    {
        let avail = self.data.len() - self.offset;
        let take_n = if max < avail {
            max
        } else {
            avail
        };
        let mut out: Vec<u8> = Vec::new();
        let mut i: usize = 0;
        while i < take_n
            invariant
                i <= take_n,
                self.offset + take_n <= self.data.len(),
                out@ == self.data@.subrange(self.offset as int, self.offset + i),
            decreases take_n - i,
        {
            let b = self.data[self.offset + i];
            out.push(b);
            proof {
                assert(out@ =~= self.data@.subrange(self.offset as int, self.offset + i + 1));
            }
            i += 1;
        }
        self.offset = self.offset + take_n;
        out
    }
}

/// A buffer the delivery stage could not open as an audio container.
#[derive(Clone, Copy, Debug, PartialEq, Eq, Structural)]
pub struct DecodeError {}

/// symphonia's ogg demuxer, reading packets out of a container.
#[verifier::external_type_specification]
#[verifier::external_body]
pub struct ExOggReader<'s>(symphonia::default::formats::OggReader<'s>);

/// What parsing `b` as an ogg container yields: `None` when the reader
/// refuses to open it, otherwise the packets the opened reader hands out,
/// in order, up to its first end of stream or demux error.
pub uninterp spec fn ogg_decode(b: Seq<u8>) -> Option<Seq<Seq<u8>>>;

/// The packets a reader will still hand out, in order, before its first
/// end of stream or demux error. A chained container may hold further
/// packets beyond that point; they are outside this name, and the delivery
/// stage never reads past the first end.
pub uninterp spec fn ogg_frames(r: symphonia::default::formats::OggReader<'static>) -> Seq<
    Seq<u8>,
>;

/// Relies on symphonia's OggReader::try_new over an in-memory reader of
/// `data`: parsing is a function of the bytes alone. `ogg_decode` names its
/// outcome, `ogg_frames` what the opened reader will then yield.
#[verifier::external_body]
fn open_ogg(data: Vec<u8>) -> (r: Result<
    symphonia::default::formats::OggReader<'static>,
    DecodeError,
>)
    ensures
        match r {
            Ok(reader) => ogg_decode(data@) matches Some(frames) && ogg_frames(reader) == frames,
            Err(_) => ogg_decode(data@) is None,
        },
{
    let source = symphonia::core::io::MediaSourceStream::new(
        Box::new(std::io::Cursor::new(data)),
        symphonia::core::io::MediaSourceStreamOptions::default(),
    );
    match symphonia::default::formats::OggReader::try_new(
        source,
        symphonia::core::formats::FormatOptions::default(),
    ) {
        Ok(reader) => Ok(reader),
        Err(_) => Err(DecodeError {}),
    }
}

/// Relies on symphonia's FormatReader::next_packet: packets come back one
/// at a time, in order, each exactly once. A `None` answer — the end of
/// the stream, or a demux error — says the reader had nothing more to
/// yield before its first end; nothing is said of the reader afterwards,
/// since a chained container can yield further packets once its stream
/// boundary has been crossed. [`FrameStream`] makes the end sticky.
#[verifier::external_body]
fn next_frame(reader: &mut symphonia::default::formats::OggReader<'static>) -> (r: Option<
    Vec<u8>,
>)
    ensures
        match r {
            Some(frame) => ogg_frames(*old(reader)).len() > 0 && frame@ == ogg_frames(
                *old(reader),
            )[0] && ogg_frames(*final(reader)) == ogg_frames(*old(reader)).drop_first(),
            None => ogg_frames(*old(reader)).len() == 0,
        },
{
    match symphonia::core::formats::FormatReader::next_packet(reader) {
        Ok(Some(packet)) => Some(packet.data.into_vec()),
        Ok(None) => None,
        Err(_) => None,
    }
}

/// One opened container being read out packet by packet. The end is
/// sticky: once `next` has answered `None`, every later call answers
/// `None` without touching the demuxer again, so one item's frames are a
/// single uninterrupted run even over a chained container.
pub struct FrameStream {
    reader: symphonia::default::formats::OggReader<'static>,
    finished: bool,
}

impl FrameStream {
    /// The frames still to come before the end of this item.
    pub closed spec fn remaining(&self) -> Seq<Seq<u8>> {
        if self.finished {
            Seq::empty()
        } else {
            ogg_frames(self.reader)
        }
    }

    /// Read this reader's packets as one delivery item.
    pub fn from_reader(reader: symphonia::default::formats::OggReader<'static>) -> (r: FrameStream)
        ensures
            r.remaining() == ogg_frames(reader),
    {
        FrameStream { reader, finished: false }
    }

    /// The next frame of the item, or `None` at its end — and only `None`
    /// from then on.
    pub fn next(&mut self) -> (r: Option<Vec<u8>>)
        ensures
            match r {
                Some(frame) => old(self).remaining().len() > 0 && frame@ == old(
                    self,
                ).remaining()[0] && final(self).remaining() == old(self).remaining().drop_first(),
                None => old(self).remaining().len() == 0 && final(self).remaining().len() == 0,
            },
    {
        if self.finished {
            return None;
        }
        match next_frame(&mut self.reader) {
            Some(frame) => Some(frame),
            None => {
                self.finished = true;
                None
            },
        }
    }
}

/// One command of the Audio Delivery Stage, in emission order.
pub enum DeliveryAction {
    /// A textual status update for the requester's sink.
    Notice(String),
    /// Mute or unmute the bot on the voice transport.
    SetMuted(bool),
    /// Send one encoded audio frame, to be followed by one frame's worth of
    /// real-time delay.
    Frame(Vec<u8>),
}

/// The mathematical image of a [`DeliveryAction`].
#[verifier::ext_equal]
pub enum ActionView {
    Notice(Seq<char>),
    SetMuted(bool),
    Frame(Seq<u8>),
}

impl View for DeliveryAction {
    type V = ActionView;

    open spec fn view(&self) -> ActionView {
        match self {
            DeliveryAction::Notice(s) => ActionView::Notice(s@),
            DeliveryAction::SetMuted(m) => ActionView::SetMuted(*m),
            DeliveryAction::Frame(f) => ActionView::Frame(f@),
        }
    }
}

/// The images of a run of actions.
pub open spec fn action_views(s: Seq<DeliveryAction>) -> Seq<ActionView> {
    s.map_values(|a: DeliveryAction| a@)
}

/// The images of a run of byte buffers.
pub open spec fn byte_views(s: Seq<Vec<u8>>) -> Seq<Seq<u8>> {
    s.map_values(|v: Vec<u8>| v@)
}

/// Frames as delivery commands, in order.
pub open spec fn frame_views(frames: Seq<Seq<u8>>) -> Seq<ActionView> {
    frames.map_values(|f: Seq<u8>| ActionView::Frame(f))
}

/// The opening of every successful run: the status notice, then unmute.
pub open spec fn delivery_header() -> Seq<ActionView> {
    seq![ActionView::Notice("Sending audio"@), ActionView::SetMuted(false)]
}

/// The full successful run for one decoded buffer: announce, unmute, every
/// frame in decode order, mute again, report completion.
pub open spec fn success_actions(frames: Seq<Seq<u8>>) -> Seq<ActionView> {
    delivery_header() + frame_views(frames) + seq![
        ActionView::SetMuted(true),
        ActionView::Notice("Send audio successful"@),
    ]
}

proof fn lemma_action_views_push(s: Seq<DeliveryAction>, a: DeliveryAction)
    ensures
        action_views(s.push(a)) == action_views(s).push(a@),
{
    assert(action_views(s.push(a)) =~~= action_views(s).push(a@));
}

proof fn lemma_frame_views_push(frames: Seq<Seq<u8>>, f: Seq<u8>)
    ensures
        frame_views(frames.push(f)) == frame_views(frames).push(ActionView::Frame(f)),
{
    assert(frame_views(frames.push(f)) =~~= frame_views(frames).push(ActionView::Frame(f)));
}

/// What one buffer turns into: a single error notice when it cannot be
/// opened — the stage then simply moves on — or the full successful run.
pub open spec fn delivery_plan(decode: Option<Seq<Seq<u8>>>) -> Seq<ActionView> {
    match decode {
        None => seq![ActionView::Notice("Read stream error"@)],
        Some(frames) => success_actions(frames),
    }
}

/// Emit the full successful run for an already-opened reader: unmute
/// first, then every frame the reader yields before its end, in order and
/// exactly once, then mute. The caller paces the frames onto the
/// transport.
pub fn deliver_frames(reader: symphonia::default::formats::OggReader<'static>) -> (r: Vec<
    DeliveryAction,
>)
    ensures
        action_views(r@) == success_actions(ogg_frames(reader)),
{
    let mut source = FrameStream::from_reader(reader);
    let ghost initial = source.remaining();
    let ghost mut done: Seq<Seq<u8>> = Seq::empty();
    let mut actions: Vec<DeliveryAction> = Vec::new();
    actions.push(DeliveryAction::Notice(String::from_str("Sending audio")));
    actions.push(DeliveryAction::SetMuted(false));
    proof {
        assert(action_views(actions@) =~~= delivery_header() + frame_views(done));
    }
    let mut frames_over = false;
    while !frames_over
        invariant
            initial == done + source.remaining(),
            frames_over ==> source.remaining().len() == 0,
            action_views(actions@) == delivery_header() + frame_views(done),
        decreases source.remaining().len(), (if frames_over { 0int } else { 1int }),
    {
        let ghost pre_actions = actions@;
        let ghost pre_done = done;
        match source.next() {
            Some(frame) => {
                proof {
                    done = done + seq![frame@];
                    assert(done =~= pre_done.push(frame@));
                    assert(initial =~= done + source.remaining());
                }
                let ghost fv = frame@;
                actions.push(DeliveryAction::Frame(frame));
                proof {
                    lemma_action_views_push(pre_actions, DeliveryAction::Frame(frame));
                    lemma_frame_views_push(pre_done, fv);
                    assert(action_views(actions@) =~~= delivery_header() + frame_views(done));
                }
            },
            None => {
                frames_over = true;
            },
        }
    }
    proof {
        assert(initial =~= done);
    }
    let ghost pre_tail = actions@;
    actions.push(DeliveryAction::SetMuted(true));
    actions.push(DeliveryAction::Notice(String::from_str("Send audio successful")));
    proof {
        lemma_action_views_push(pre_tail, DeliveryAction::SetMuted(true));
        assert(action_views(actions@) =~~= success_actions(initial));
    }
    actions
}

/// The delivery stage's handling of one finalized buffer: open it as an
/// ogg container; on failure emit exactly one error notice and nothing
/// else (the stage moves on to the next buffer); on success emit the full
/// unmute → frames → mute run.
pub fn deliver_buffer(data: Vec<u8>) -> (r: Vec<DeliveryAction>)
    ensures
        action_views(r@) == delivery_plan(ogg_decode(data@)),
{
    match open_ogg(data) {
        Ok(reader) => deliver_frames(reader),
        Err(_) => {
            let mut actions: Vec<DeliveryAction> = Vec::new();
            actions.push(DeliveryAction::Notice(String::from_str("Read stream error")));
            proof {
                assert(action_views(actions@) =~~= seq![ActionView::Notice("Read stream error"@)]);
            }
            actions
        },
    }
}

/// What a whole queue of buffers turns into, first to last.
pub open spec fn queue_plan(buffers: Seq<Seq<u8>>) -> Seq<ActionView>
    decreases buffers.len(),
{
    if buffers.len() == 0 {
        Seq::empty()
    } else {
        delivery_plan(ogg_decode(buffers[0])) + queue_plan(buffers.drop_first())
    }
}

proof fn lemma_queue_plan_take(buffers: Seq<Seq<u8>>, i: int)
    requires
        0 <= i < buffers.len(),
    ensures
        queue_plan(buffers.take(i + 1)) == queue_plan(buffers.take(i)) + delivery_plan(
            ogg_decode(buffers[i]),
        ),
    decreases i,
{
    if i == 0 {
        assert(buffers.take(1) =~= seq![buffers[0]]);
        assert(buffers.take(0) =~= Seq::<Seq<u8>>::empty());
        assert(seq![buffers[0]].drop_first() =~= Seq::<Seq<u8>>::empty());
        assert(queue_plan(buffers.take(1)) =~~= queue_plan(buffers.take(0)) + delivery_plan(
            ogg_decode(buffers[0]),
        ));
    } else {
        lemma_queue_plan_take(buffers.drop_first(), i - 1);
        assert(buffers.take(i + 1).drop_first() =~= buffers.drop_first().take(i));
        assert(buffers.take(i).drop_first() =~= buffers.drop_first().take(i - 1));
        assert(buffers.take(i + 1)[0] == buffers[0]);
        assert(buffers.take(i)[0] == buffers[0]);
        assert(buffers.drop_first()[i - 1] == buffers[i]);
        assert(queue_plan(buffers.take(i + 1)) =~~= queue_plan(buffers.take(i)) + delivery_plan(
            ogg_decode(buffers[i]),
        ));
    }
}

/// Work through a queue of finalized buffers strictly in arrival order,
/// one at a time: each buffer contributes its own run, a malformed one
/// only its error notice.
pub fn deliver_all(buffers: Vec<Vec<u8>>) -> (r: Vec<DeliveryAction>)
    ensures
        action_views(r@) == queue_plan(byte_views(buffers@)),
{
    let ghost plan_input = byte_views(buffers@);
    let mut out: Vec<DeliveryAction> = Vec::new();
    let mut i: usize = 0;
    proof {
        assert(plan_input.take(0) =~= Seq::<Seq<u8>>::empty());
        assert(action_views(out@) =~~= queue_plan(plan_input.take(0)));
    }
    while i < buffers.len()
        invariant
            i <= buffers.len(),
            plan_input == byte_views(buffers@),
            action_views(out@) == queue_plan(plan_input.take(i as int)),
        decreases buffers.len() - i,
    {
        let item = buffers[i].clone();
        proof {
            assert(item@ == plan_input[i as int]);
        }
        let mut acts = deliver_buffer(item);
        let ghost acts_view = action_views(acts@);
        out.append(&mut acts);
        proof {
            lemma_queue_plan_take(plan_input, i as int);
            assert(action_views(out@) =~~= queue_plan(plan_input.take(i as int)) + acts_view);
        }
        i += 1;
    }
    proof {
        assert(plan_input.take(buffers@.len() as int) =~= plan_input);
    }
    out
}

/// Decode isolation: one malformed buffer followed by one valid buffer
/// yields exactly one error notice and then exactly one full successful
/// unmute → frames → mute run, in that order — the bad item never
/// disturbs the good one.
pub proof fn lemma_decode_isolation(bad: Seq<u8>, good: Seq<u8>, frames: Seq<Seq<u8>>)
    requires
        ogg_decode(bad) is None,
        ogg_decode(good) == Some(frames),
    ensures
        queue_plan(seq![bad, good]) == seq![ActionView::Notice("Read stream error"@)]
            + success_actions(frames),
{
    let q = seq![bad, good];
    let e: Seq<Seq<u8>> = Seq::empty();
    assert(queue_plan(e) == Seq::<ActionView>::empty());
    assert(seq![good].drop_first() =~= e);
    assert(seq![good][0] == good);
    assert(queue_plan(seq![good]) == delivery_plan(ogg_decode(good)) + queue_plan(e));
    assert(queue_plan(seq![good]) =~~= success_actions(frames));
    assert(q.drop_first() =~= seq![good]);
    assert(q[0] == bad);
    assert(queue_plan(q) == delivery_plan(ogg_decode(bad)) + queue_plan(seq![good]));
    assert(queue_plan(q) =~~= seq![ActionView::Notice("Read stream error"@)] + success_actions(
        frames,
    ));
}

/// The transport command toggling the bot's audible state: output-muted
/// and hardware-enabled move together, opposite ways, so an unmuted bot is
/// always audible.
pub struct SoundStatus {
    pub output_muted: bool,
    pub output_hardware_enabled: bool,
}

/// The muted/unmuted transport command for the given muted state.
pub fn build_sound_status(muted: bool) -> (r: SoundStatus)
    ensures
        r.output_muted == muted,
        r.output_hardware_enabled == !muted,
{
    SoundStatus { output_muted: muted, output_hardware_enabled: !muted }
}

/// What the delivery stage is handed for one item: a mute toggle, one
/// encoded frame, or the order to stop.
pub enum TeamSpeakEvent {
    Muted(bool),
    Data(Vec<u8>),
    Exit,
}

impl TeamSpeakEvent {
    /// The update command a mute toggle turns into; only `Muted` events are
    /// command packets.
    pub fn to_sound_status(&self) -> (r: SoundStatus)
        requires
            *self matches TeamSpeakEvent::Muted(_),
        ensures
            *self matches TeamSpeakEvent::Muted(m) && r.output_muted == m
                && r.output_hardware_enabled == !m,
    {
        match self {
            TeamSpeakEvent::Muted(m) => build_sound_status(*m),
            _ => build_sound_status(true),
        }
    }
}

/// What the middleware decides for one request after asking the cache.
pub enum SynthesisOutcome {
    /// A non-empty record was found: these bytes go straight to delivery,
    /// and the Requester is not called.
    Cached(Vec<u8>),
    /// Nothing usable is cached: the caller synthesizes and streams.
    Miss,
}

/// The middleware's deduplication step for one request: ask the Cache
/// Store for the fingerprint. A hit hands the stored bytes on unchanged; a
/// miss (absent key or empty record) tells the caller to synthesize.
pub fn check_cache(store: &mut ConnAgent, fingerprint: u64) -> (r: SynthesisOutcome)
    requires
        old(store).healthy(),
    ensures
        final(store).healthy(),
        final(store)@ == old(store)@,
        match lookup(old(store)@, fingerprint) {
            Some(bytes) => r matches SynthesisOutcome::Cached(v) && v@ == bytes,
            None => r is Miss,
        },
{
    match store.get(fingerprint) {
        Some(bytes) => SynthesisOutcome::Cached(bytes),
        None => SynthesisOutcome::Miss,
    }
}

/// The configured range of request-text lengths `[low, high)` that
/// correlates with truncated or garbage provider responses; such downloads
/// are played but never cached.
pub struct ExclusionBand {
    pub low: usize,
    pub high: usize,
}

impl ExclusionBand {
    /// Whether a request text of `len` characters falls in the band.
    pub open spec fn spec_excludes(&self, len: nat) -> bool {
        self.low <= len < self.high
    }

    pub fn new(low: usize, high: usize) -> (r: ExclusionBand)
        ensures
            r.low == low,
            r.high == high,
    {
        ExclusionBand { low, high }
    }

    /// Whether a request text of `len` characters falls in the band.
    pub fn excludes(&self, len: usize) -> (r: bool)
        ensures
            r == self.spec_excludes(len as nat),
    {
        self.low <= len && len < self.high
    }
}

/// What became of a finished download.
#[derive(Clone, Copy, Debug, PartialEq, Eq, Structural)]
pub enum CacheDecision {
    /// The request text's length falls in the exclusion band: played, not
    /// cached.
    SkippedLength,
    /// The download came back empty: nothing to cache.
    SkippedEmpty,
    /// The bytes were written to the cache under the fingerprint.
    Written,
}

/// The middleware's last step for one download, after the background copy
/// finished: skip caching when the request text's length falls in the
/// exclusion band or the payload is empty; otherwise write the bytes to
/// the Cache Store under the request's fingerprint. A storage failure is
/// reported to be logged; the store is then out of service.
pub fn finalize_download(
    store: &mut ConnAgent,
    fingerprint: u64,
    text_len: usize,
    band: &ExclusionBand,
    data: &Vec<u8>,
) -> (r: Result<CacheDecision, StorageError>)
    requires
        old(store).healthy(),
    ensures
        final(store).healthy() == !(r is Err),
        band.spec_excludes(text_len as nat) ==> r == Ok::<CacheDecision, StorageError>(
            CacheDecision::SkippedLength,
        ) && final(store)@ == old(store)@,
        !band.spec_excludes(text_len as nat) && data@.len() == 0 ==> r == Ok::<
            CacheDecision,
            StorageError,
        >(CacheDecision::SkippedEmpty) && final(store)@ == old(store)@,
        !band.spec_excludes(text_len as nat) && data@.len() > 0 && r is Ok ==> r == Ok::<
            CacheDecision,
            StorageError,
        >(CacheDecision::Written) && final(store)@ == old(store)@.insert(fingerprint, data@),
{
    if band.excludes(text_len) {
        return Ok(CacheDecision::SkippedLength);
    }
    if data.len() == 0 {
        return Ok(CacheDecision::SkippedEmpty);
    }
    match store.set(fingerprint, data.clone()) {
        Ok(_) => Ok(CacheDecision::Written),
        Err(e) => Err(e),
    }
}

/// The Requester's credential-rotation loop, with the provider's verdicts
/// given as the set of credentials it rejects as unauthorized: pick a
/// credential; when it is rejected, retire it (one removal per rejection,
/// so the pool shrinks by exactly the number of rejections) and pick
/// again; stop at the first accepted credential. The loop has no bound but
/// pool exhaustion: if any acceptable credential is in the pool the call
/// succeeds, with an accepted credential that is still in the pool;
/// otherwise every credential is retired and `PoolEmpty` comes back.
pub fn rotate_until_accepted(pool: &mut KeyStore, rejected: &Vec<String>) -> (r: Result<
    String,
    PoolError,
>)
    requires
        old(pool).wf(),
    ensures
        final(pool).wf(),
        forall|x: Seq<char>| #[trigger] final(pool)@.contains(x) ==> old(pool)@.contains(x),
        forall|x: Seq<char>|
            old(pool)@.contains(x) && !string_views(rejected@).contains(x)
                ==> #[trigger] final(pool)@.contains(x),
        forall|x: Seq<char>|
            old(pool)@.contains(x) && !final(pool)@.contains(x) ==> #[trigger] string_views(
                rejected@,
            ).contains(x),
        match r {
            Ok(k) => final(pool)@.contains(k@) && old(pool)@.contains(k@) && !string_views(
                rejected@,
            ).contains(k@),
            Err(e) => e == PoolError::Empty && final(pool)@.len() == 0 && (forall|x: Seq<char>|
                old(pool)@.contains(x) ==> #[trigger] string_views(rejected@).contains(x)),
        },
{
    let ghost initial = pool@;
    loop
        invariant
            pool.wf(),
            forall|x: Seq<char>| #[trigger] pool@.contains(x) ==> initial.contains(x),
            forall|x: Seq<char>|
                initial.contains(x) && !string_views(rejected@).contains(x)
                    ==> #[trigger] pool@.contains(x),
            forall|x: Seq<char>|
                initial.contains(x) && !pool@.contains(x) ==> #[trigger] string_views(
                    rejected@,
                ).contains(x),
            initial == old(pool)@,
        decreases pool@.len(),
    {
        let picked = match pool.get_one() {
            Ok(k) => k,
            Err(_) => {
                proof {
                    assert forall|x: Seq<char>| initial.contains(x) implies #[trigger] string_views(
                        rejected@,
                    ).contains(x) by {
                        if !string_views(rejected@).contains(x) {
                            assert(pool@.contains(x));
                        }
                    }
                }
                return Err(PoolError::Empty);
            },
        };
        if !vec_contains_string(rejected, &picked) {
            return Ok(picked);
        }
        pool.remove(&picked);
    }
}

/// The body of one provider request: the SSML document for the voice and
/// the trimmed text.
pub open spec fn ssml_of(
    lang: Seq<char>,
    gender: Seq<char>,
    name: Seq<char>,
    text: Seq<char>,
) -> Seq<char> {
    "<speak version='1.0' xml:lang='en-US'><voice xml:lang='"@ + lang + "' xml:gender='"@ + gender
        + "' name='"@ + name + "'>"@ + text + "</voice></speak>"@
}

/// Build the SSML request body for (language, gender, voice name, text);
/// the text is trimmed exactly as it was for the fingerprint.
pub fn build_ssml(lang: &str, gender: &str, name: &str, text: &str) -> (r: String)
    ensures
        r@ == ssml_of(lang@, gender@, name@, trim_of(text@)),
{
    let trimmed = trim_str(text);
    let r = String::from_str("<speak version='1.0' xml:lang='en-US'><voice xml:lang='").concat(
        lang,
    ).concat("' xml:gender='").concat(gender).concat("' name='").concat(name).concat("'>").concat(
        trimmed,
    ).concat("</voice></speak>");
    proof {
        assert(r@ =~= ssml_of(lang@, gender@, name@, trim_of(text@)));
    }
    r
}

} // verus!
