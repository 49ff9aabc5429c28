//! What one side of the screen shows: a still page, an animation that is decoded whole, or one
//! that arrives in chunks. Times are readings of one monotonic clock, in nanoseconds.
use vstd::prelude::*;

use super::rgba_page_cache::FrameSet;
use super::texture_entries::TextureRef;
use crate::num::{greatest, least, max_u32, min_usize, monus};

verus! {

/// A stream asks for more once it holds no more frames than this.
pub const ANIMATED_STREAM_FILL_LOW_WATERMARK: usize = 4;

/// A stream takes no frames beyond this many.
pub const ANIMATED_STREAM_FILL_HIGH_WATERMARK: usize = 16;

pub const NANOS_PER_MILLI: u64 = 1_000_000;

/// An hour: the wait of content that does not change by itself.
pub const STILL_WAIT: u64 = 3_600_000_000_000;

/// The wait of a stream that has run dry: 16 milliseconds.
pub const STREAM_POLL_WAIT: u64 = 16_000_000;

/// One frame of a stream: a handle on its pixels, its size, and how long it is shown.
#[derive(Clone, Copy, Debug, PartialEq, Eq, Structural)]
pub struct StreamFrame {
    pub id: u64,
    pub width: u32,
    pub height: u32,
    pub delay_ms: u32,
}

pub enum PageContent {
    Static(TextureRef),
    AnimatedReady { frames: FrameSet, current: usize, next_frame_at: u64, texture: TextureRef },
    AnimatedStream {
        queue: Vec<StreamFrame>,
        next_frame_at: u64,
        texture: TextureRef,
        exhausted: bool,
        fill_in_flight: bool,
    },
}

/// Content, as a value.
pub enum Content {
    Static(TextureRef),
    AnimatedReady { frames: FrameSet, current: usize, next_frame_at: u64, texture: TextureRef },
    AnimatedStream {
        queue: Seq<StreamFrame>,
        next_frame_at: u64,
        texture: TextureRef,
        exhausted: bool,
        fill_in_flight: bool,
    },
}

impl View for PageContent {
    type V = Content;

    open spec fn view(&self) -> Content {
        match *self {
            PageContent::Static(texture) => Content::Static(texture),
            PageContent::AnimatedReady {
                frames,
                current,
                next_frame_at,
                texture,
            } => Content::AnimatedReady { frames, current, next_frame_at, texture },
            PageContent::AnimatedStream {
                queue,
                next_frame_at,
                texture,
                exhausted,
                fill_in_flight,
            } => Content::AnimatedStream {
                queue: queue@,
                next_frame_at,
                texture,
                exhausted,
                fill_in_flight,
            },
        }
    }
}

pub open spec fn content_view(content: Option<PageContent>) -> Option<Content> {
    match content {
        Some(content) => Some(content@),
        None => None,
    }
}

/// The frame that is due on screen: its place in the animation, or its handle in the stream.
#[derive(Clone, Copy, Debug, PartialEq, Eq, Structural)]
pub enum DueFrame {
    Index(usize),
    Stream(u64),
}

/// How long to wait until the content may change, and the frame to upload now.
#[derive(Clone, Copy, Debug, PartialEq, Eq, Structural)]
pub struct Tick {
    pub wait: u64,
    pub due: Option<DueFrame>,
}

/// A moment and a stretch of time, held at the end of the clock's range.
pub open spec fn after(now: u64, nanos: int) -> u64 {
    least(now + nanos, u64::MAX as int) as u64
}

pub open spec fn after_millis(now: u64, millis: int) -> u64 {
    after(now, millis * 1_000_000)
}

pub fn add_millis(now: u64, millis: u32) -> (at: u64)
    ensures
        at == after_millis(now, millis as int),
{
    now.saturating_add(millis as u64 * NANOS_PER_MILLI)
}

/// How long a frame is shown.
pub open spec fn shown_millis(delay_ms: u32, min_delay_ms: u32) -> int {
    greatest(delay_ms as int, min_delay_ms as int)
}

/// The texture that a set of frames starts with; without frames, one pixel.
pub open spec fn texture_of(id: u64, frames: FrameSet) -> TextureRef {
    if frames.frame_count == 0 {
        TextureRef { id, width: 1, height: 1 }
    } else {
        TextureRef {
            id,
            width: frames.first_frame_width as usize,
            height: frames.first_frame_height as usize,
        }
    }
}

/// The texture that a chunk starts with; without frames, one pixel.
pub open spec fn chunk_texture(id: u64, chunk: Seq<StreamFrame>) -> TextureRef {
    if chunk.len() == 0 {
        TextureRef { id, width: 1, height: 1 }
    } else {
        TextureRef { id, width: chunk[0].width as usize, height: chunk[0].height as usize }
    }
}

/// Content for a decoded page: still, unless there is more than one frame.
pub open spec fn content_of(frames: FrameSet, min_delay_ms: u32, texture_id: u64, now: u64) ->
    Content {
    if frames.frame_count > 1 {
        Content::AnimatedReady {
            frames,
            current: 0,
            next_frame_at: after_millis(now, shown_millis(frames.first_delay_ms, min_delay_ms)),
            texture: texture_of(texture_id, frames),
        }
    } else {
        Content::Static(texture_of(texture_id, frames))
    }
}

/// Content for the first chunk of a stream.
pub open spec fn chunk_content(
    chunk: Seq<StreamFrame>,
    exhausted: bool,
    min_delay_ms: u32,
    texture_id: u64,
    now: u64,
) -> Content {
    Content::AnimatedStream {
        queue: chunk,
        next_frame_at: if chunk.len() == 0 {
            after_millis(now, 3_600_000)
        } else {
            after_millis(now, shown_millis(chunk[0].delay_ms, min_delay_ms))
        },
        texture: chunk_texture(texture_id, chunk),
        exhausted,
        fill_in_flight: false,
    }
}

impl Content {
    pub open spec fn shown_texture(self) -> TextureRef {
        match self {
            Content::Static(texture) => texture,
            Content::AnimatedReady { texture, .. } => texture,
            Content::AnimatedStream { texture, .. } => texture,
        }
    }

    pub open spec fn wf(self) -> bool {
        self matches Content::AnimatedReady { frames, current, .. } ==> current < frames.frame_count
    }

    /// A stream with more to come that runs low.
    pub open spec fn wants_fill(self) -> bool {
        self matches Content::AnimatedStream { queue, exhausted, fill_in_flight, .. } && !exhausted
            && !fill_in_flight && queue.len() <= 4
    }

    /// A stream that has come to its end and runs low.
    pub open spec fn wants_restart(self) -> bool {
        self matches Content::AnimatedStream { queue, exhausted, fill_in_flight, .. } && exhausted
            && !fill_in_flight && queue.len() <= 4
    }

    /// A stream with a chunk behind it, up to the high watermark; what is beyond is dropped.
    pub open spec fn appended(self, chunk: Seq<StreamFrame>, chunk_exhausted: bool) -> Content {
        match self {
            Content::AnimatedStream {
                queue,
                next_frame_at,
                texture,
                ..
            } => Content::AnimatedStream {
                queue: queue + chunk.take(
                    least(monus(16, queue.len()) as int, chunk.len() as int),
                ),
                next_frame_at,
                texture,
                exhausted: chunk_exhausted,
                fill_in_flight: false,
            },
            other => other,
        }
    }

    /// A stream that has asked for more.
    pub open spec fn asking(self) -> Content {
        match self {
            Content::AnimatedStream {
                queue,
                next_frame_at,
                texture,
                exhausted,
                ..
            } => Content::AnimatedStream {
                queue,
                next_frame_at,
                texture,
                exhausted,
                fill_in_flight: true,
            },
            other => other,
        }
    }

    /// Whether it is time for another frame, and there is one.
    pub open spec fn turns(self, now: u64) -> bool {
        match self {
            Content::Static(_) => false,
            Content::AnimatedReady { frames, next_frame_at, .. } => frames.frame_count > 1 && now
                >= next_frame_at,
            Content::AnimatedStream { queue, next_frame_at, .. } => queue.len() > 1 && now
                >= next_frame_at,
        }
    }

    /// The content with the next frame on screen. Of a whole animation the frame behind the
    /// present one is `next`; a stream brings its own.
    pub open spec fn turned(self, next: StreamFrame, min_delay_ms: u32, texture_id: u64, now: u64) ->
        Content {
        match self {
            Content::Static(_) => self,
            Content::AnimatedReady { frames, current, .. } => Content::AnimatedReady {
                frames,
                current: ((current + 1) % frames.frame_count as int) as usize,
                next_frame_at: after_millis(now, shown_millis(next.delay_ms, min_delay_ms)),
                texture: chunk_texture(texture_id, seq![next]),
            },
            Content::AnimatedStream {
                queue,
                exhausted,
                fill_in_flight,
                ..
            } => Content::AnimatedStream {
                queue: queue.drop_first(),
                next_frame_at: after_millis(now, shown_millis(queue[1].delay_ms, min_delay_ms)),
                texture: chunk_texture(texture_id, queue.drop_first()),
                exhausted,
                fill_in_flight,
            },
        }
    }

    /// The content once the clock has been looked at.
    pub open spec fn ticked(self, next: StreamFrame, min_delay_ms: u32, texture_id: u64, now: u64) ->
        Content {
        if self.turns(now) {
            self.turned(next, min_delay_ms, texture_id, now)
        } else {
            self
        }
    }

    pub open spec fn next_turn(self) -> u64 {
        match self {
            Content::Static(_) => 0,
            Content::AnimatedReady { next_frame_at, .. } => next_frame_at,
            Content::AnimatedStream { next_frame_at, .. } => next_frame_at,
        }
    }

    /// The frame that comes on screen with a turn.
    pub open spec fn due(self) -> DueFrame {
        match self {
            Content::AnimatedStream { queue, .. } => DueFrame::Stream(queue[1].id),
            Content::AnimatedReady { frames, current, .. } => DueFrame::Index(
                ((current + 1) % frames.frame_count as int) as usize,
            ),
            Content::Static(_) => DueFrame::Index(0),
        }
    }

    /// How long the content stays as it is, seen from `now`.
    pub open spec fn wait(self, now: u64) -> u64 {
        match self {
            Content::Static(_) => STILL_WAIT,
            Content::AnimatedReady { frames, next_frame_at, .. } => if frames.frame_count <= 1 {
                STILL_WAIT
            } else {
                monus(next_frame_at as nat, now as nat) as u64
            },
            Content::AnimatedStream { queue, next_frame_at, exhausted, .. } => if queue.len() == 0
                && exhausted {
                STILL_WAIT
            } else if queue.len() == 0 || (queue.len() == 1 && now >= next_frame_at) {
                STREAM_POLL_WAIT
            } else {
                monus(next_frame_at as nat, now as nat) as u64
            },
        }
    }
}

impl PageContent {
    pub open spec fn wf(self) -> bool {
        self@.wf()
    }

    pub fn texture(&self) -> (texture: TextureRef)
        ensures
            texture == self@.shown_texture(),
    {
        match self {
            PageContent::Static(texture) => *texture,
            PageContent::AnimatedReady { texture, .. } => *texture,
            PageContent::AnimatedStream { texture, .. } => *texture,
        }
    }

    pub fn is_animated(&self) -> (animated: bool)
        ensures
            animated == !(self@ is Static),
    {
        match self {
            PageContent::Static(_) => false,
            _ => true,
        }
    }

    /// Content for a decoded page. `texture_id` names the texture that its first frame is
    /// uploaded to.
    pub fn from_frames(frames: FrameSet, min_delay_ms: u32, texture_id: u64, now: u64) -> (content:
        Self)
        ensures
            content.wf(),
            content@ == content_of(frames, min_delay_ms, texture_id, now),
    {
        if frames.frame_count == 0 {
            return PageContent::Static(TextureRef { id: texture_id, width: 1, height: 1 });
        }
        let texture = TextureRef {
            id: texture_id,
            width: frames.first_frame_width as usize,
            height: frames.first_frame_height as usize,
        };
        if frames.frame_count > 1 {
            PageContent::AnimatedReady {
                frames,
                current: 0,
                next_frame_at: add_millis(now, max_u32(frames.first_delay_ms, min_delay_ms)),
                texture,
            }
        } else {
            PageContent::Static(texture)
        }
    }

    /// Content for the first chunk of a stream.
    pub fn from_stream_chunk(
        chunk: &Vec<StreamFrame>,
        exhausted: bool,
        min_delay_ms: u32,
        texture_id: u64,
        now: u64,
    ) -> (content: Self)
        ensures
            content.wf(),
            content@ == chunk_content(chunk@, exhausted, min_delay_ms, texture_id, now),
    {
        let mut queue: Vec<StreamFrame> = Vec::new();
        let mut i: usize = 0;
        while i < chunk.len()
            invariant
                i <= chunk@.len(),
                queue@ == chunk@.take(i as int),
            decreases chunk@.len() - i,
        {
            queue.push(chunk[i]);
            i = i + 1;
            assert(queue@ =~= chunk@.take(i as int));
        }
        assert(chunk@.take(i as int) =~= chunk@);
        if chunk.len() == 0 {
            return PageContent::AnimatedStream {
                queue,
                next_frame_at: add_millis(now, 3_600_000),
                texture: TextureRef { id: texture_id, width: 1, height: 1 },
                exhausted,
                fill_in_flight: false,
            };
        }
        let first: StreamFrame = chunk[0];
        PageContent::AnimatedStream {
            queue,
            next_frame_at: add_millis(now, max_u32(first.delay_ms, min_delay_ms)),
            texture: TextureRef {
                id: texture_id,
                width: first.width as usize,
                height: first.height as usize,
            },
            exhausted,
            fill_in_flight: false,
        }
    }

    /// Adds a chunk to a stream; other content is left as it is.
    pub fn append_stream_chunk(&mut self, chunk: &Vec<StreamFrame>, exhausted: bool)
        requires
            old(self).wf(),
        ensures
            final(self).wf(),
            final(self)@ == old(self)@.appended(chunk@, exhausted),
    {
        match self {
            PageContent::AnimatedStream {
                queue,
                exhausted: stream_exhausted,
                fill_in_flight,
                ..
            } => {
                let available: usize = ANIMATED_STREAM_FILL_HIGH_WATERMARK.saturating_sub(
                    queue.len(),
                );
                let count: usize = min_usize(available, chunk.len());
                let ghost before = queue@;
                let mut i: usize = 0;
                assert(before + chunk@.take(0) =~= before);
                while i < count
                    invariant
                        i <= count <= chunk@.len(),
                        queue@ == before + chunk@.take(i as int),
                    decreases count - i,
                {
                    queue.push(chunk[i]);
                    i = i + 1;
                    assert(queue@ =~= before + chunk@.take(i as int));
                }
                *stream_exhausted = exhausted;
                *fill_in_flight = false;
            },
            _ => {},
        }
    }

    pub fn stream_should_fill(&self) -> (fill: bool)
        ensures
            fill == self@.wants_fill(),
    {
        match self {
            PageContent::AnimatedStream { queue, exhausted, fill_in_flight, .. } => !*exhausted
                && !*fill_in_flight && queue.len() <= ANIMATED_STREAM_FILL_LOW_WATERMARK,
            _ => false,
        }
    }

    pub fn stream_should_restart(&self) -> (restart: bool)
        ensures
            restart == self@.wants_restart(),
    {
        match self {
            PageContent::AnimatedStream { queue, exhausted, fill_in_flight, .. } => *exhausted
                && !*fill_in_flight && queue.len() <= ANIMATED_STREAM_FILL_LOW_WATERMARK,
            _ => false,
        }
    }

    pub fn mark_stream_fill_in_flight(&mut self)
        requires
            old(self).wf(),
        ensures
            final(self).wf(),
            final(self)@ == old(self)@.asking(),
    {
        match self {
            PageContent::AnimatedStream { fill_in_flight, .. } => {
                *fill_in_flight = true;
            },
            _ => {},
        }
    }

    /// Moves the content on to the next frame if its time has come. For a whole animation the
    /// caller tells the frame behind the present one; `texture_id` names the texture that a
    /// frame that is due is uploaded to.
    pub fn tick(&mut self, now: u64, next: StreamFrame, min_delay_ms: u32, texture_id: u64) -> (tick:
        Tick)
        requires
            old(self).wf(),
        ensures
            final(self).wf(),
            final(self)@ == old(self)@.ticked(next, min_delay_ms, texture_id, now),
            tick.due == if old(self)@.turns(now) {
                Some(old(self)@.due())
            } else {
                None
            },
            tick.wait == if old(self)@.turns(now) {
                (final(self)@.next_turn() - now) as u64
            } else {
                old(self)@.wait(now)
            },
    {
        match self {
            PageContent::Static(_) => Tick { wait: STILL_WAIT, due: None },
            PageContent::AnimatedReady { frames, current, next_frame_at, texture } => {
                if frames.frame_count <= 1 {
                    return Tick { wait: STILL_WAIT, due: None };
                }
                if now >= *next_frame_at {
                    let index: usize = (*current + 1) % frames.frame_count;
                    *current = index;
                    *texture = TextureRef {
                        id: texture_id,
                        width: next.width as usize,
                        height: next.height as usize,
                    };
                    let at: u64 = add_millis(now, max_u32(next.delay_ms, min_delay_ms));
                    *next_frame_at = at;
                    Tick { wait: at - now, due: Some(DueFrame::Index(index)) }
                } else {
                    Tick { wait: *next_frame_at - now, due: None }
                }
            },
            PageContent::AnimatedStream { queue, next_frame_at, texture, exhausted, .. } => {
                if queue.len() == 0 {
                    return Tick {
                        wait: if *exhausted {
                            STILL_WAIT
                        } else {
                            STREAM_POLL_WAIT
                        },
                        due: None,
                    };
                }
                if now >= *next_frame_at {
                    if queue.len() > 1 {
                        let ghost before = queue@;
                        let _ = queue.remove(0);
                        assert(queue@ =~= before.drop_first());
                        let front: StreamFrame = queue[0];
                        *texture = TextureRef {
                            id: texture_id,
                            width: front.width as usize,
                            height: front.height as usize,
                        };
                        let at: u64 = add_millis(now, max_u32(front.delay_ms, min_delay_ms));
                        *next_frame_at = at;
                        Tick { wait: at - now, due: Some(DueFrame::Stream(front.id)) }
                    } else {
                        Tick { wait: STREAM_POLL_WAIT, due: None }
                    }
                } else {
                    Tick { wait: *next_frame_at - now, due: None }
                }
            },
        }
    }
}

/// A stream never asks for more and for a restart at once, and asks for neither while a request
/// is under way or once it is filled up.
pub proof fn law_stream_asks_once(content: Content)
    ensures
        !(content.wants_fill() && content.wants_restart()),
        !content.asking().wants_fill() && !content.asking().wants_restart(),
        content matches Content::AnimatedStream { queue, .. } ==> (queue.len() > 4
            ==> !content.wants_fill() && !content.wants_restart()),
{
}

/// Chunks never fill a stream beyond the high watermark.
pub proof fn law_stream_stays_below_the_watermark(
    content: Content,
    chunk: Seq<StreamFrame>,
    exhausted: bool,
)
    requires
        content matches Content::AnimatedStream { queue, .. } && queue.len() <= 16,
    ensures
        content.appended(chunk, exhausted) matches Content::AnimatedStream { queue, .. }
            && queue.len() <= 16,
{
}

/// A page of several frames is an animation that starts with the first, shown for its own delay but
/// never for less than the shortest; any other page is still.
pub proof fn law_several_frames_make_an_animation(
    frames: FrameSet,
    min_delay_ms: u32,
    texture_id: u64,
    now: u64,
)
    requires
        now + 5_000_000_000_000_000 <= u64::MAX,
    ensures
        frames.frame_count <= 1 ==> content_of(frames, min_delay_ms, texture_id, now) is Static,
        frames.frame_count > 1 ==> (content_of(
            frames,
            min_delay_ms,
            texture_id,
            now,
        ) matches Content::AnimatedReady { frames: held, current, next_frame_at, .. } && {
            &&& held == frames
            &&& current == 0
            &&& next_frame_at >= now + frames.first_delay_ms * 1_000_000
            &&& next_frame_at >= now + min_delay_ms * 1_000_000
            &&& next_frame_at == now + frames.first_delay_ms * 1_000_000 || next_frame_at == now
                + min_delay_ms * 1_000_000
        }),
        content_of(frames, min_delay_ms, texture_id, now).shown_texture().id == texture_id,
        frames.frame_count > 0 ==> content_of(
            frames,
            min_delay_ms,
            texture_id,
            now,
        ).shown_texture().width == frames.first_frame_width,
{
}

/// An animation goes through its frames one by one, from the last to the first again, and each
/// comes when the time of the one before is over and no earlier.
pub proof fn law_animations_go_round(
    frames: FrameSet,
    current: usize,
    next_frame_at: u64,
    texture: TextureRef,
    next: StreamFrame,
    min_delay_ms: u32,
    texture_id: u64,
    now: u64,
)
    requires
        1 < frames.frame_count,
        current < frames.frame_count,
        now + 5_000_000_000_000_000 <= u64::MAX,
    ensures
        ({
            let content = Content::AnimatedReady { frames, current, next_frame_at, texture };
            let after = content.ticked(next, min_delay_ms, texture_id, now);
            &&& now < next_frame_at ==> after == content && content.wait(now) == next_frame_at
                - now
            &&& now >= next_frame_at ==> (after matches Content::AnimatedReady {
                frames: held,
                current: shown,
                next_frame_at: at,
                ..
            } && {
                &&& held == frames
                &&& current + 1 < frames.frame_count ==> shown == current + 1
                &&& current + 1 == frames.frame_count ==> shown == 0
                &&& content.due() == DueFrame::Index(shown)
                &&& at >= now + next.delay_ms * 1_000_000 && at >= now + min_delay_ms * 1_000_000
                &&& at == now + next.delay_ms * 1_000_000 || at == now + min_delay_ms * 1_000_000
            })
        }),
{
    let count = frames.frame_count as int;
    if current + 1 < count {
        assert((current + 1) % count == current + 1) by (nonlinear_arith)
            requires
                0 <= current + 1 < count,
        ;
    } else {
        assert(count % count == 0) by (nonlinear_arith)
            requires
                count > 0,
        ;
    }
}

/// A stream shows its frames in the order in which they came: a turn drops the one on screen and
/// shows the one behind it. The last frame that is there stays.
pub proof fn law_streams_show_frames_in_order(
    queue: Seq<StreamFrame>,
    next_frame_at: u64,
    texture: TextureRef,
    exhausted: bool,
    fill_in_flight: bool,
    next: StreamFrame,
    min_delay_ms: u32,
    texture_id: u64,
    now: u64,
)
    requires
        now + 5_000_000_000_000_000 <= u64::MAX,
    ensures
        ({
            let content = Content::AnimatedStream {
                queue,
                next_frame_at,
                texture,
                exhausted,
                fill_in_flight,
            };
            let after = content.ticked(next, min_delay_ms, texture_id, now);
            &&& queue.len() <= 1 || now < next_frame_at ==> after == content
            &&& queue.len() > 1 && now >= next_frame_at ==> (after matches Content::AnimatedStream {
                queue: left,
                next_frame_at: at,
                exhausted: over,
                ..
            } && {
                &&& left.len() + 1 == queue.len()
                &&& forall|i: int| 0 <= i < left.len() ==> #[trigger] left[i] == queue[i + 1]
                &&& content.due() == DueFrame::Stream(queue[1].id)
                &&& at >= now + queue[1].delay_ms * 1_000_000 && at >= now + min_delay_ms
                    * 1_000_000
                &&& at == now + queue[1].delay_ms * 1_000_000 || at == now + min_delay_ms
                    * 1_000_000
                &&& over == exhausted
            })
        }),
{
}

/// A chunk is added behind what a stream holds, frame by frame, up to sixteen in all; the latest
/// chunk tells whether there is more to come.
pub proof fn law_chunks_are_added_behind(
    queue: Seq<StreamFrame>,
    next_frame_at: u64,
    texture: TextureRef,
    was: bool,
    asked: bool,
    chunk: Seq<StreamFrame>,
    exhausted: bool,
)
    ensures
        ({
            let content = Content::AnimatedStream {
                queue,
                next_frame_at,
                texture,
                exhausted: was,
                fill_in_flight: asked,
            };
            content.appended(chunk, exhausted) matches Content::AnimatedStream {
                queue: held,
                next_frame_at: at,
                exhausted: over,
                fill_in_flight: asks,
                ..
            } && {
                &&& at == next_frame_at && over == exhausted && !asks
                &&& held.len() >= queue.len()
                &&& forall|i: int| 0 <= i < queue.len() ==> #[trigger] held[i] == queue[i]
                &&& forall|i: int|
                    queue.len() <= i < held.len() ==> #[trigger] held[i] == chunk[i - queue.len()]
                &&& queue.len() + chunk.len() <= 16 ==> held.len() == queue.len() + chunk.len()
                &&& queue.len() <= 16 < queue.len() + chunk.len() ==> held.len() == 16
                &&& queue.len() > 16 ==> held == queue
            }
        }),
{
    if queue.len() > 16 {
        assert(queue + chunk.take(0) =~= queue);
    }
}

/// A stream asks while four frames or fewer are left: for more, or from the start once it has come
/// to its end.
pub proof fn law_streams_ask_at_four_frames(
    queue: Seq<StreamFrame>,
    next_frame_at: u64,
    texture: TextureRef,
    exhausted: bool,
)
    ensures
        ({
            let content = Content::AnimatedStream {
                queue,
                next_frame_at,
                texture,
                exhausted,
                fill_in_flight: false,
            };
            &&& content.wants_fill() <==> queue.len() <= 4 && !exhausted
            &&& content.wants_restart() <==> queue.len() <= 4 && exhausted
        }),
{
}

/// Still pages are looked at again after an hour, a stream that ran dry after 16 milliseconds.
pub proof fn law_still_pages_wait(
    texture: TextureRef,
    next_frame_at: u64,
    fill_in_flight: bool,
    now: u64,
)
    ensures
        Content::Static(texture).wait(now) == 3_600_000_000_000,
        (Content::AnimatedStream {
            queue: Seq::empty(),
            next_frame_at,
            texture,
            exhausted: false,
            fill_in_flight,
        }).wait(now) == 16_000_000,
        (Content::AnimatedStream {
            queue: Seq::empty(),
            next_frame_at,
            texture,
            exhausted: true,
            fill_in_flight,
        }).wait(now) == 3_600_000_000_000,
{
}

/// A stream starts with the first frame of its first chunk, shown for its own delay but never for
/// less than the shortest; without a frame it waits an hour.
pub proof fn law_streams_start_with_their_first_frame(
    chunk: Seq<StreamFrame>,
    exhausted: bool,
    min_delay_ms: u32,
    texture_id: u64,
    now: u64,
)
    requires
        now + 5_000_000_000_000_000 <= u64::MAX,
    ensures
        chunk_content(
            chunk,
            exhausted,
            min_delay_ms,
            texture_id,
            now,
        ) matches Content::AnimatedStream {
            queue,
            next_frame_at,
            texture,
            exhausted: over,
            fill_in_flight,
        } && {
            &&& queue == chunk
            &&& over == exhausted
            &&& !fill_in_flight
            &&& texture.id == texture_id
            &&& chunk.len() == 0 ==> next_frame_at == now + 3_600_000_000_000 && texture.width == 1
                && texture.height == 1
            &&& chunk.len() > 0 ==> texture.width == chunk[0].width && texture.height
                == chunk[0].height && next_frame_at >= now + chunk[0].delay_ms * 1_000_000
                && next_frame_at >= now + min_delay_ms * 1_000_000 && (next_frame_at == now
                + chunk[0].delay_ms * 1_000_000 || next_frame_at == now + min_delay_ms * 1_000_000)
        },
{
}

/// A stream with frames to come is looked at again when its next frame is due; with the last one on
/// screen and its time over, every 16 milliseconds.
pub proof fn law_streams_are_looked_at_in_time(
    queue: Seq<StreamFrame>,
    next_frame_at: u64,
    texture: TextureRef,
    exhausted: bool,
    fill_in_flight: bool,
    now: u64,
)
    requires
        queue.len() > 0,
    ensures
        ({
            let content = Content::AnimatedStream {
                queue,
                next_frame_at,
                texture,
                exhausted,
                fill_in_flight,
            };
            &&& now < next_frame_at ==> content.wait(now) == next_frame_at - now && !content.turns(
                now,
            )
            &&& queue.len() == 1 && now >= next_frame_at ==> content.wait(now) == 16_000_000
                && !content.turns(now)
            &&& queue.len() > 1 && now >= next_frame_at ==> content.turns(now)
            &&& content.next_turn() == next_frame_at
        }),
{
}

} // verus!
