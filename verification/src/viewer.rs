//! The viewer: the executable presentation, held to the model of
//! [`crate::state`].
use crate::error::AppError;
use crate::format::{format_slide, layout_runs, paragraphs_of, run_views, runs_of, TextRun};
use crate::loader::{delimiter, lemma_slides_are_trimmed, load, slides_of};
use crate::state::{
    decode_key, lemma_key_asks_nothing, zoom_percent_of, Command, FrameInput, ViewerState,
    WindowRequest, ADVANCE_INTERVAL, MAX_FONT_SIZE, MIN_FONT_SIZE, ZOOM_BASELINE, ZOOM_FACTOR,
};
use crate::text::{is_space, split_on, texts};
use vstd::prelude::*;

verus! {

/// The share of the available width within which a slide's text is
/// wrapped, in percent.
pub const WRAP_WIDTH_PERCENT: u32 = 80;

/// A presentation on show: its slides and the state of the view.
#[derive(Debug)]
pub struct SentTextViewer {
    slides: Vec<String>,
    current_slide_index: usize,
    font_size: u32,
    should_quit: bool,
    dark_mode: bool,
    auto_advance: bool,
    last_advance_time: Option<u64>,
    fullscreen: bool,
}

impl View for SentTextViewer {
    type V = ViewerState;

    closed spec fn view(&self) -> ViewerState {
        ViewerState {
            slides: texts(self.slides@),
            current: self.current_slide_index as int,
            font_size: self.font_size as int,
            dark_mode: self.dark_mode,
            auto_advance: self.auto_advance,
            fullscreen: self.fullscreen,
            last_advance_time: match self.last_advance_time {
                Some(t) => Some(t as int),
                None => None,
            },
            should_quit: self.should_quit,
        }
    }
}

/// How the text of one slide is to be laid out: centred, in runs that are
/// wrapped within a share of the available width.
#[derive(Clone, Debug, PartialEq, Eq)]
pub struct SlideLayout {
    /// The runs of text, in order.
    pub runs: Vec<TextRun>,
    /// The font size of body text, in thousandths of a point; a run's size
    /// is this size at the scale of the run's kind.
    pub base_font_size: u32,
    /// The width within which the text is wrapped, in percent of the width
    /// available.
    pub wrap_percent: u32,
}

/// What a renderer needs to draw one frame.
#[derive(Clone, Debug, PartialEq, Eq)]
pub struct ViewSnapshot {
    /// The layout of the slide on show.
    pub layout: SlideLayout,
    /// The number of the slide on show, counted from 1.
    pub slide_number: usize,
    /// How many slides there are.
    pub slide_count: usize,
    /// The index of the slide on show, counted from 0.
    pub slide_index: usize,
    /// Whether there is a slide to go back to.
    pub prev_enabled: bool,
    /// Whether there is a slide to go on to.
    pub next_enabled: bool,
    pub dark_mode: bool,
    pub fullscreen: bool,
    pub auto_advance: bool,
    /// The zoom in percent, rounded.
    pub zoom_percent: u32,
}

impl SentTextViewer {
    #[verifier::type_invariant]
    spec fn inv(self) -> bool {
        self@.wf()
    }

    /// Opens the presentation that the source text `content` holds, with
    /// the base font size nearest to `font_size` that is allowed. A source
    /// without any slide is refused.
    pub fn new(content: &str, font_size: u32) -> (r: Result<SentTextViewer, AppError>)
        ensures
            match r {
                Ok(viewer) => slides_of(content@).len() > 0 && viewer@ == ViewerState::initial(
                    slides_of(content@),
                    font_size as int,
                ) && viewer@.wf(),
                Err(e) => slides_of(content@).len() == 0 && e == AppError::EmptyFile,
            },
    {
        match load(content) {
            Ok(slides) => {
                let size: u32 = if font_size < MIN_FONT_SIZE {
                    MIN_FONT_SIZE
                } else if font_size > MAX_FONT_SIZE {
                    MAX_FONT_SIZE
                } else {
                    font_size
                };
                proof {
                    assert forall|k: int| 0 <= k < slides@.len() implies {
                        &&& (#[trigger] texts(slides@)[k]).len() > 0
                        &&& !is_space(texts(slides@)[k][0])
                        &&& !is_space(texts(slides@)[k].last())
                    } by {
                        lemma_slides_are_trimmed(split_on(content@, delimiter()), k);
                    }
                }
                Ok(
                    SentTextViewer {
                        slides,
                        current_slide_index: 0,
                        font_size: size,
                        should_quit: false,
                        dark_mode: true,
                        auto_advance: false,
                        last_advance_time: None,
                        fullscreen: false,
                    },
                )
            },
            Err(e) => Err(e),
        }
    }

    /// The index of the slide on show.
    pub fn current_index(&self) -> (r: usize)
        ensures
            r == self@.current,
            r < self@.slides.len(),
    {
        proof {
            use_type_invariant(self);
        }
        self.current_slide_index
    }

    /// How many slides there are.
    pub fn slide_count(&self) -> (r: usize)
        ensures
            r == self@.slides.len(),
            r > 0,
    {
        proof {
            use_type_invariant(self);
        }
        self.slides.len()
    }

    /// The text of the slide on show.
    pub fn current_slide(&self) -> (r: &str)
        ensures
            0 <= self@.current < self@.slides.len(),
            r@ == self@.slides[self@.current],
    {
        proof {
            use_type_invariant(self);
        }
        self.slides[self.current_slide_index].as_str()
    }

    /// Whether the first slide is on show.
    pub fn first_slide(&self) -> (r: bool)
        ensures
            r == self@.at_first(),
    {
        self.current_slide_index == 0
    }

    /// Whether the last slide is on show.
    pub fn last_slide(&self) -> (r: bool)
        ensures
            r == self@.at_last(),
    {
        proof {
            use_type_invariant(self);
        }
        self.current_slide_index == self.slides.len() - 1
    }

    /// The base font size, in thousandths of a point.
    pub fn font_size(&self) -> (r: u32)
        ensures
            r == self@.font_size,
            MIN_FONT_SIZE <= r <= MAX_FONT_SIZE,
    {
        proof {
            use_type_invariant(self);
        }
        self.font_size
    }

    /// Whether the dark theme is on.
    pub fn dark_mode(&self) -> (r: bool)
        ensures
            r == self@.dark_mode,
    {
        self.dark_mode
    }

    /// Whether the slides change by themselves.
    pub fn auto_advance(&self) -> (r: bool)
        ensures
            r == self@.auto_advance,
    {
        self.auto_advance
    }

    /// Whether the view fills the screen.
    pub fn fullscreen(&self) -> (r: bool)
        ensures
            r == self@.fullscreen,
    {
        self.fullscreen
    }

    /// Whether the user has asked to quit.
    pub fn should_quit(&self) -> (r: bool)
        ensures
            r == self@.should_quit,
    {
        self.should_quit
    }

    /// When the slide last changed by itself, or auto-advance began to
    /// count, in milliseconds; `None` while nothing is noted.
    pub fn last_advance_time(&self) -> (r: Option<u64>)
        ensures
            match r {
                Some(t) => self@.last_advance_time == Some(t as int),
                None => self@.last_advance_time is None,
            },
            !self@.auto_advance ==> r is None,
    {
        proof {
            use_type_invariant(self);
        }
        self.last_advance_time
    }

    /// Goes one slide forward; at the last slide nothing changes.
    pub fn next_slide(&mut self)
        ensures
            final(self)@ == old(self)@.next(),
            final(self)@.wf(),
    {
        proof {
            use_type_invariant(&*self);
        }
        if self.current_slide_index != self.slides.len() - 1 {
            self.current_slide_index += 1;
        }
    }

    /// Goes one slide back; at the first slide nothing changes.
    pub fn prev_slide(&mut self)
        ensures
            final(self)@ == old(self)@.previous(),
            final(self)@.wf(),
    {
        proof {
            use_type_invariant(&*self);
        }
        if self.current_slide_index != 0 {
            self.current_slide_index -= 1;
        }
    }

    /// Goes to the slide with the given index; an index that no slide has
    /// is ignored.
    pub fn goto_slide(&mut self, index: usize)
        ensures
            final(self)@ == old(self)@.goto(index as int),
            index >= old(self)@.slides.len() ==> final(self)@ == old(self)@,
            final(self)@.wf(),
    {
        proof {
            use_type_invariant(&*self);
        }
        if index < self.slides.len() {
            self.current_slide_index = index;
        }
    }

    /// Switches auto-advance on or off and restarts its count of time.
    pub fn toggle_auto_advance(&mut self)
        ensures
            final(self)@ == old(self)@.toggle_auto_advance(),
            final(self)@.wf(),
    {
        proof {
            use_type_invariant(&*self);
        }
        self.last_advance_time = None;
        self.auto_advance = !self.auto_advance;
    }

    /// Changes the font size by `delta` thousandths of a point, as far as
    /// the allowed range goes.
    pub fn adjust_font_size(&mut self, delta: i64)
        ensures
            final(self)@ == old(self)@.adjust_font_size(delta as int),
            MIN_FONT_SIZE <= final(self)@.font_size <= MAX_FONT_SIZE,
            final(self)@.wf(),
    {
        proof {
            use_type_invariant(&*self);
        }
        let size: i64 = self.font_size as i64;
        let room_up: i64 = MAX_FONT_SIZE as i64 - size;
        let room_down: i64 = MIN_FONT_SIZE as i64 - size;
        if delta >= room_up {
            self.font_size = MAX_FONT_SIZE;
        } else if delta <= room_down {
            self.font_size = MIN_FONT_SIZE;
        } else {
            self.font_size = (size + delta) as u32;
        }
    }

    /// Switches between the dark and the light theme.
    pub fn toggle_dark_mode(&mut self)
        ensures
            final(self)@ == old(self)@.toggle_dark_mode(),
            final(self)@.wf(),
    {
        proof {
            use_type_invariant(&*self);
        }
        self.dark_mode = !self.dark_mode;
    }

    /// Switches full-screen mode on or off, and returns what that asks of
    /// the window system.
    pub fn toggle_fullscreen(&mut self) -> (r: WindowRequest)
        ensures
            final(self)@ == old(self)@.toggle_fullscreen(),
            r == WindowRequest::Fullscreen(final(self)@.fullscreen),
            final(self)@.wf(),
    {
        proof {
            use_type_invariant(&*self);
        }
        self.fullscreen = !self.fullscreen;
        WindowRequest::Fullscreen(self.fullscreen)
    }

    /// Notes that the user has asked to quit.
    pub fn request_quit(&mut self)
        ensures
            final(self)@ == old(self)@.request_quit(),
            final(self)@.wf(),
    {
        proof {
            use_type_invariant(&*self);
        }
        self.should_quit = true;
    }

    /// Lets time pass until `now`, in milliseconds: changes the slide where
    /// auto-advance is on and its interval has passed.
    pub fn tick(&mut self, now: u64)
        ensures
            final(self)@ == old(self)@.tick(now as int),
            !old(self)@.auto_advance ==> final(self)@ == old(self)@,
            final(self)@.wf(),
    {
        proof {
            use_type_invariant(&*self);
        }
        if self.auto_advance {
            match self.last_advance_time {
                Some(last) => {
                    if now > last && now - last > ADVANCE_INTERVAL {
                        self.next_slide();
                        self.last_advance_time = Some(now);
                    }
                },
                None => {
                    self.last_advance_time = Some(now);
                },
            }
        }
    }

    /// Carries out one command, and returns what that asks of the window
    /// system, if anything.
    pub fn apply(&mut self, command: Command) -> (r: Option<WindowRequest>)
        ensures
            final(self)@ == old(self)@.apply(command),
            r == old(self)@.request_of(command),
            final(self)@.wf(),
    {
        proof {
            use_type_invariant(&*self);
        }
        match command {
            Command::Next => {
                self.next_slide();
                None
            },
            Command::Previous => {
                self.prev_slide();
                None
            },
            Command::Goto(index) => {
                self.goto_slide(index);
                None
            },
            Command::ToggleAutoAdvance => {
                self.toggle_auto_advance();
                None
            },
            Command::ToggleTheme => {
                self.toggle_dark_mode();
                None
            },
            Command::ToggleFullscreen => Some(self.toggle_fullscreen()),
            Command::Quit => {
                self.request_quit();
                None
            },
            Command::ZoomBy(delta) => {
                self.adjust_font_size(delta);
                None
            },
        }
    }

    /// Reacts to the input of one frame: to the key presses in order, then
    /// to the wheel where the control key is held, then to the passing of
    /// time.
    pub fn handle_input(&mut self, input: &FrameInput)
        ensures
            final(self)@ == old(self)@.handle_input(*input),
            final(self)@.wf(),
    {
        let mut k: usize = 0;
        assert(input.keys@.take(0) =~= Seq::empty());
        while k < input.keys.len()
            invariant
                k <= input.keys@.len(),
                self@ == old(self)@.press_all(input.keys@.take(k as int)),
            decreases input.keys@.len() - k,
        {
            assert(input.keys@.take(k + 1).drop_last() =~= input.keys@.take(k as int));
            match decode_key(input.keys[k]) {
                Some(command) => {
                    let request = self.apply(command);
                    proof {
                        lemma_key_asks_nothing(
                            old(self)@.press_all(input.keys@.take(k as int)),
                            input.keys@[k as int],
                        );
                    }
                    assert(request is None);
                },
                None => {},
            }
            k += 1;
        }
        assert(input.keys@.take(k as int) =~= input.keys@);
        if input.ctrl {
            let bound: i64 = (MAX_FONT_SIZE - MIN_FONT_SIZE) as i64;
            let scroll: i64 = if input.scroll > bound {
                bound
            } else if input.scroll < -bound {
                -bound
            } else {
                input.scroll
            };
            proof {
                use_type_invariant(&*self);
            }
            self.adjust_font_size(ZOOM_FACTOR * scroll);
        }
        self.tick(input.now);
        proof {
            use_type_invariant(&*self);
        }
    }

    /// What there is to ask of the window system once a frame is drawn:
    /// to close the window, where the user has asked to quit.
    pub fn close_request(&self) -> (r: Option<WindowRequest>)
        ensures
            r == if self@.should_quit {
                Some(WindowRequest::Close)
            } else {
                None
            },
    {
        if self.should_quit {
            Some(WindowRequest::Close)
        } else {
            None
        }
    }

    /// The colour that the window is cleared to: red, green, blue and
    /// opacity, each in percent of its full value.
    pub fn clear_color(&self) -> (r: [u8; 4])
        ensures
            r@ == if self@.dark_mode {
                seq![10u8, 10u8, 10u8, 100u8]
            } else {
                seq![95u8, 95u8, 95u8, 100u8]
            },
    {
        if self.dark_mode {
            [10, 10, 10, 100]
        } else {
            [95, 95, 95, 100]
        }
    }

    /// The zoom in percent of the baseline size, rounded to the nearest
    /// whole number.
    pub fn zoom_percent(&self) -> (r: u32)
        ensures
            r == zoom_percent_of(self@.font_size),
            50 <= r <= 300,
    {
        proof {
            use_type_invariant(self);
        }
        let scaled: u32 = self.font_size * 100;
        let whole: u32 = scaled / ZOOM_BASELINE;
        let rest: u32 = scaled % ZOOM_BASELINE;
        if 2 * rest < ZOOM_BASELINE || (2 * rest == ZOOM_BASELINE && whole % 2 == 0) {
            whole
        } else {
            whole + 1
        }
    }

    /// Lays out the text of a slide at the viewer's font size.
    pub fn centered_text_layout(&self, text: &str) -> (r: SlideLayout)
        ensures
            run_views(r.runs@) == runs_of(paragraphs_of(text@)),
            r.base_font_size == self@.font_size,
            r.wrap_percent == WRAP_WIDTH_PERCENT,
    {
        let paragraphs = format_slide(text);
        SlideLayout {
            runs: layout_runs(&paragraphs),
            base_font_size: self.font_size,
            wrap_percent: WRAP_WIDTH_PERCENT,
        }
    }

    /// Describes the frame to draw: the slide on show, laid out, and the
    /// state of every control.
    pub fn render_ui(&self) -> (r: ViewSnapshot)
        ensures
            0 <= self@.current < self@.slides.len(),
            run_views(r.layout.runs@) == runs_of(paragraphs_of(self@.slides[self@.current])),
            r.layout.base_font_size == self@.font_size,
            r.layout.wrap_percent == WRAP_WIDTH_PERCENT,
            r.slide_index == self@.current,
            r.slide_number == self@.current + 1,
            r.slide_count == self@.slides.len(),
            r.prev_enabled == !self@.at_first(),
            r.next_enabled == !self@.at_last(),
            r.dark_mode == self@.dark_mode,
            r.fullscreen == self@.fullscreen,
            r.auto_advance == self@.auto_advance,
            r.zoom_percent == zoom_percent_of(self@.font_size),
    {
        proof {
            use_type_invariant(self);
        }
        let index: usize = self.current_slide_index;
        let count: usize = self.slides.len();
        assert(index < count);
        ViewSnapshot {
            layout: self.centered_text_layout(self.current_slide()),
            slide_number: index + 1,
            slide_count: count,
            slide_index: index,
            prev_enabled: !self.first_slide(),
            next_enabled: !self.last_slide(),
            dark_mode: self.dark_mode,
            fullscreen: self.fullscreen,
            auto_advance: self.auto_advance,
            zoom_percent: self.zoom_percent(),
        }
    }
}

} // verus!
