use vstd::prelude::*;
use crate::shape::{Color, Rect};
use crate::event::{Event, EventQueue};
use crate::clock::{FrameClock, pacing_elapsed};
use crate::font::{Font, lookup};

verus! {

/// One glyph draw operation of `print`: copy `src` from the font's backing
/// image to `dst` on the screen. The graphics backend performs the copies;
/// the session only computes them.
#[derive(Clone, Copy, Debug, PartialEq, Eq, Structural)]
pub struct GlyphBlit {
    pub src: Rect,
    pub dst: Rect,
}

/// A session's whole state, as the spec sees it.
pub ghost struct SessionView {
    pub running: bool,
    pub color: Color,
    pub font: Option<Font>,
    pub events: Seq<Event>,
    pub target_ticks: u32,
    pub prev_ticks: u32,
}

/// The glyph entries of a session's active font; none when no font is set.
pub open spec fn font_glyphs(font: Option<Font>) -> Seq<(char, Rect)> {
    match font {
        Some(f) => f@.glyphs,
        None => Seq::empty(),
    }
}

/// The line height of a session's active font; zero when no font is set.
pub open spec fn font_height(font: Option<Font>) -> u32 {
    match font {
        Some(f) => f@.height,
        None => 0,
    }
}

/// How far `print`'s cursor advances for one character: the width of its
/// glyph, or the fixed gap of 5 for a character the font cannot draw.
pub open spec fn advance_for(glyphs: Seq<(char, Rect)>, ch: char) -> int {
    match lookup(glyphs, ch) {
        Some(r) => r.width as int,
        None => 5,
    }
}

/// The total cursor advance of printing `text`.
pub open spec fn total_advance(glyphs: Seq<(char, Rect)>, text: Seq<char>) -> int
    decreases text.len(),
{
    if text.len() == 0 {
        0
    } else {
        total_advance(glyphs, text.drop_last()) + advance_for(glyphs, text.last())
    }
}

/// The draw operations of printing `text` at `(x, y)`: one copy per
/// character the font can draw, placed at the cursor's cumulative offset;
/// a character without a glyph produces no operation, only the gap.
pub open spec fn blits_for(glyphs: Seq<(char, Rect)>, text: Seq<char>, x: int, y: i32) -> Seq<
    GlyphBlit,
>
    decreases text.len(),
{
    if text.len() == 0 {
        Seq::empty()
    } else {
        let head = blits_for(glyphs, text.drop_last(), x, y);
        match lookup(glyphs, text.last()) {
            Some(r) => head + seq![
                GlyphBlit {
                    src: r,
                    dst: Rect {
                        x: (x + total_advance(glyphs, text.drop_last())) as i32,
                        y: y,
                        width: r.width,
                        height: r.height,
                    },
                },
            ],
            None => head,
        }
    }
}

/// The cursor advance of every character is non-negative.
pub proof fn lemma_total_advance_nonneg(glyphs: Seq<(char, Rect)>, text: Seq<char>)
    ensures
        total_advance(glyphs, text) >= 0,
    decreases text.len(),
{
    if text.len() > 0 {
        lemma_total_advance_nonneg(glyphs, text.drop_last());
    }
}

/// Printing a prefix advances the cursor no further than printing the
/// whole text.
pub proof fn lemma_total_advance_prefix(glyphs: Seq<(char, Rect)>, text: Seq<char>, i: int)
    requires
        0 <= i <= text.len(),
    ensures
        total_advance(glyphs, text.take(i)) <= total_advance(glyphs, text),
    decreases text.len() - i,
{
    if i == text.len() {
        assert(text.take(i) =~= text);
    } else {
        lemma_total_advance_prefix(glyphs, text, i + 1);
        assert(text.take(i + 1).drop_last() =~= text.take(i));
        assert(total_advance(glyphs, text.take(i + 1)) == total_advance(glyphs, text.take(i))
            + advance_for(glyphs, text[i]));
    }
}

/// What one drained native event leaves of the running flag: a Quit stops
/// the session; nothing restarts it.
pub open spec fn running_after_drain(running: bool, ev: Option<Event>) -> bool {
    running && ev != Some(Event::Quit)
}

/// The running flag after a whole sequence of drained events.
pub open spec fn running_after_drains(running: bool, evs: Seq<Option<Event>>) -> bool
    decreases evs.len(),
{
    if evs.len() == 0 {
        running
    } else {
        running_after_drains(running_after_drain(running, evs.first()), evs.drop_first())
    }
}

/// The quit transition is terminal: once a session has stopped, no
/// sequence of drained events — whatever it holds — makes it run again, so
/// every later frame gate answers false.
pub proof fn lemma_quit_terminal(evs: Seq<Option<Event>>)
    ensures
        !running_after_drains(false, evs),
    decreases evs.len(),
{
    if evs.len() > 0 {
        lemma_quit_terminal(evs.drop_first());
    }
}

/// The top-level frame/event state machine: a foreground draw color, an
/// active font, a FIFO queue of normalized events, a pacing clock, and a
/// running flag that starts true and falls to false exactly once.
///
/// A caller drives it once per frame: gate on `is_running`, present the
/// previous frame, poll the timer until `frame_wait_done`, record the wait
/// with `complete_frame_wait`, normalize and hand over every pending
/// native event through `drain_event`, and loop while `is_running` still
/// answers true.
pub struct Session {
    running: bool,
    foreground_color: Color,
    font: Option<Font>,
    queue: EventQueue,
    clock: FrameClock,
}

impl View for Session {
    type V = SessionView;

    closed spec fn view(&self) -> SessionView {
        SessionView {
            running: self.running,
            color: self.foreground_color,
            font: self.font,
            events: self.queue@,
            target_ticks: self.clock.target(),
            prev_ticks: self.clock.prev(),
        }
    }
}

impl Session {
    /// A fresh running session around a default font: empty event queue,
    /// white foreground, pacing fixed at 60 frames per second of a
    /// millisecond timer.
    pub fn new(font: Font) -> (s: Session)
        ensures
            s@ == (SessionView {
                running: true,
                color: Color { r: 255, g: 255, b: 255, a: 255 },
                font: Some(font),
                events: Seq::<Event>::empty(),
                target_ticks: 1000u32 / 60,
                prev_ticks: 0,
            }),
    {
        let s = Session {
            running: true,
            foreground_color: Color { r: 255, g: 255, b: 255, a: 255 },
            font: Some(font),
            queue: EventQueue::new(),
            clock: FrameClock::new(1000 / 60),
        };
        s
    }

    /// The frame gate: whether the session is still running. A frame does
    /// its work only when this answers true; after the quit transition it
    /// answers false forever.
    pub fn is_running(&self) -> (r: bool)
        ensures
            r == self@.running,
    {
        self.running
    }

    /// Whether an event is waiting in the queue.
    pub fn has_event(&self) -> (r: bool)
        ensures
            r == (self@.events.len() != 0),
    {
        !self.queue.is_empty()
    }

    /// The next event, in first-in-first-out order. Callers must check
    /// `has_event` first; calling this on an empty queue is a precondition
    /// violation.
    pub fn next_event(&mut self) -> (r: Event)
        requires
            old(self)@.events.len() > 0,
        ensures
            r == old(self)@.events.first(),
            final(self)@ == (SessionView { events: old(self)@.events.drop_first(), ..old(self)@ }),
    {
        self.queue.pop_front()
    }

    /// Use this font for future calls to `print`.
    pub fn set_font(&mut self, font: Font)
        ensures
            final(self)@ == (SessionView { font: Some(font), ..old(self)@ }),
    {
        self.font = Some(font);
    }

    /// Request termination: the next frame gate answers false. Nothing
    /// undoes it.
    pub fn quit(&mut self)
        ensures
            final(self)@ == (SessionView { running: false, ..old(self)@ }),
    {
        self.running = false;
    }

    /// Set the foreground color applied to every draw operation.
    pub fn set_color(&mut self, red: u8, green: u8, blue: u8, alpha: u8)
        ensures
            final(self)@ == (SessionView {
                color: Color { r: red, g: green, b: blue, a: alpha },
                ..old(self)@
            }),
    {
        self.foreground_color = Color { r: red, g: green, b: blue, a: alpha };
    }

    /// The foreground color a draw operation must be performed with.
    pub fn foreground_color(&self) -> (c: Color)
        ensures
            c == self@.color,
    {
        self.foreground_color
    }

    /// Whether the pacing wait of the current frame is over at timer
    /// reading `now`.
    pub fn frame_wait_done(&self, now: u32) -> (r: bool)
        ensures
            r == pacing_elapsed(self@.prev_ticks, self@.target_ticks, now),
    {
        self.clock.wait_done(now)
    }

    /// Record the completion of the frame's pacing wait at timer reading
    /// `now`. May only be called once the wait has elapsed, which the
    /// caller's polling loop establishes through `frame_wait_done`.
    pub fn complete_frame_wait(&mut self, now: u32)
        requires
            pacing_elapsed(old(self)@.prev_ticks, old(self)@.target_ticks, now),
        ensures
            final(self)@ == (SessionView { prev_ticks: now, ..old(self)@ }),
    {
        self.clock.record(now);
    }

    /// Take one normalized native event of the frame's drain loop: a Quit
    /// fires the terminal quit transition and is never queued, any other
    /// recognized event is appended in arrival order, and an unrecognized
    /// one — handed over as `None` — is dropped without a trace.
    pub fn drain_event(&mut self, ev: Option<Event>)
        ensures
            final(self)@ == (match ev {
                None => old(self)@,
                Some(Event::Quit) => SessionView { running: false, ..old(self)@ },
                Some(e) => SessionView { events: old(self)@.events.push(e), ..old(self)@ },
            }),
            final(self)@.running == running_after_drain(old(self)@.running, ev),
    {
        match ev {
            None => {},
            Some(Event::Quit) => {
                self.quit();
            },
            Some(e) => {
                self.queue.push(e);
            },
        }
    }

    /// Compute the draw operations of writing `text` at `(x, y)` with the
    /// active font, left to right: each drawable character is copied from
    /// the font's backing image at the cursor and advances the cursor by
    /// its glyph's width; a character the font cannot draw advances the
    /// cursor by a fixed gap of 5 and draws nothing. Returns the
    /// operations and the covering rectangle: from the starting x over
    /// the whole advance, with the font's height. A session always holds
    /// a font, so calling this without one is a precondition violation;
    /// the cursor must stay within the screen's coordinate range, which
    /// `try_print` checks at run time.
    pub fn print(&self, text: &Vec<char>, x: i32, y: i32) -> (r: (Vec<GlyphBlit>, Rect))
        requires
            self@.font is Some,
            total_advance(font_glyphs(self@.font), text@) <= i32::MAX,
            x + total_advance(font_glyphs(self@.font), text@) <= i32::MAX,
        ensures
            r.0@ == blits_for(font_glyphs(self@.font), text@, x as int, y),
            r.1 == (Rect {
                x,
                y,
                width: total_advance(font_glyphs(self@.font), text@) as u32,
                height: font_height(self@.font),
            }),
    {
        let font = match &self.font {
            Some(f) => f,
            None => vstd::pervasive::unreached(),
        };
        let ghost g = font_glyphs(self@.font);
        let mut blits: Vec<GlyphBlit> = Vec::new();
        let mut cur_x: i32 = x;
        let mut i: usize = 0;
        let n = text.len();
        proof {
            assert(text@.take(0) =~= Seq::<char>::empty());
            assert(blits@ =~= blits_for(g, text@.take(0), x as int, y));
        }
        while i < n
            invariant
                n == text@.len(),
                i <= n,
                self@.font is Some,
                g == font_glyphs(self@.font),
                g == font@.glyphs,
                total_advance(g, text@) <= i32::MAX,
                x + total_advance(g, text@) <= i32::MAX,
                cur_x as int == x + total_advance(g, text@.take(i as int)),
                blits@ == blits_for(g, text@.take(i as int), x as int, y),
            decreases n - i,
    {
            let ch = text[i];
            proof {
                lemma_total_advance_prefix(g, text@, i as int + 1);
                lemma_total_advance_nonneg(g, text@.take(i as int));
                assert(text@.take(i as int + 1).drop_last() =~= text@.take(i as int));
                assert(text@.take(i as int + 1).last() == text@[i as int]);
            }
            match font.get_rect(ch) {
                None => {
                    proof {
                        assert(total_advance(g, text@.take(i as int + 1)) == total_advance(
                            g,
                            text@.take(i as int),
                        ) + 5);
                        assert(blits_for(g, text@.take(i as int + 1), x as int, y) == blits_for(
                            g,
                            text@.take(i as int),
                            x as int,
                            y,
                        ));
                    }
                    cur_x = cur_x + 5;
                },
                Some(rect) => {
                    proof {
                        assert(advance_for(g, ch) == rect.width as int);
                        assert(total_advance(g, text@.take(i as int + 1)) == total_advance(
                            g,
                            text@.take(i as int),
                        ) + rect.width);
                        assert(rect.width <= i32::MAX);
                    }
                    blits.push(
                        GlyphBlit {
                            src: rect,
                            dst: Rect { x: cur_x, y: y, width: rect.width, height: rect.height },
                        },
                    );
                    proof {
                        assert(blits_for(g, text@.take(i as int + 1), x as int, y) == blits_for(
                            g,
                            text@.take(i as int),
                            x as int,
                            y,
                        ) + seq![
                            GlyphBlit {
                                src: rect,
                                dst: Rect {
                                    x: (x + total_advance(g, text@.take(i as int))) as i32,
                                    y: y,
                                    width: rect.width,
                                    height: rect.height,
                                },
                            },
                        ]);
                        assert(blits@ =~= blits_for(g, text@.take(i as int + 1), x as int, y));
                    }
                    cur_x = cur_x + rect.width as i32;
                },
            }
            i = i + 1;
        }
        proof {
            assert(text@.take(n as int) =~= text@);
            lemma_total_advance_nonneg(g, text@);
        }
        let width = (cur_x - x) as u32;
        let height = font.get_height();
        (blits, Rect { x, y, width, height })
    }

    /// Like `print`, but total in the cursor's range: it measures the
    /// whole advance first and answers `None` — computing nothing —
    /// where `print`'s cursor would leave the screen's coordinate range.
    pub fn try_print(&self, text: &Vec<char>, x: i32, y: i32) -> (r: Option<(Vec<GlyphBlit>, Rect)>)
        requires
            self@.font is Some,
        ensures
            ({
                let ta = total_advance(font_glyphs(self@.font), text@);
                if ta <= i32::MAX && x + ta <= i32::MAX {
                    r matches Some(pr) && pr.0@ == blits_for(
                        font_glyphs(self@.font),
                        text@,
                        x as int,
                        y,
                    ) && pr.1 == (Rect {
                        x,
                        y,
                        width: ta as u32,
                        height: font_height(self@.font),
                    })
                } else {
                    r is None
                }
            }),
    {
        let font = match &self.font {
            Some(f) => f,
            None => vstd::pervasive::unreached(),
        };
        let ghost g = font_glyphs(self@.font);
        let mut acc: i64 = 0;
        let mut i: usize = 0;
        let n = text.len();
        proof {
            assert(text@.take(0) =~= Seq::<char>::empty());
        }
        while i < n
            invariant
                n == text@.len(),
                i <= n,
                self@.font is Some,
                g == font_glyphs(self@.font),
                g == font@.glyphs,
                acc as int == total_advance(g, text@.take(i as int)),
                0 <= acc <= i32::MAX,
            decreases n - i,
        {
            let ch = text[i];
            proof {
                assert(text@.take(i as int + 1).drop_last() =~= text@.take(i as int));
                assert(text@.take(i as int + 1).last() == text@[i as int]);
            }
            let adv: i64 = match font.get_rect(ch) {
                None => 5,
                Some(rect) => rect.width as i64,
            };
            let next = acc + adv;
            if next > i32::MAX as i64 {
                proof {
                    lemma_total_advance_prefix(g, text@, i as int + 1);
                }
                return None;
            }
            acc = next;
            i = i + 1;
        }
        proof {
            assert(text@.take(n as int) =~= text@);
        }
        if x as i64 + acc > i32::MAX as i64 {
            return None;
        }
        Some(self.print(text, x, y))
    }
}

} // verus!
