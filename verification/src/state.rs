//! The presentation as a mathematical state machine: the state of a viewer,
//! its transitions, and what holds of them. The executable viewer is
//! specified against this model.
//!
//! Font sizes are counted in thousandths of a point and times in
//! milliseconds, so that every quantity of the model is an integer.
use crate::text::{is_space, lemma_trimmed_edges, trimmed};
use vstd::prelude::*;

verus! {

/// The smallest font size, 12 points.
pub const MIN_FONT_SIZE: u32 = 12_000;

/// The largest font size, 72 points.
pub const MAX_FONT_SIZE: u32 = 72_000;

/// The font size that counts as a zoom of 100 percent, 24 points.
pub const ZOOM_BASELINE: u32 = 24_000;

/// The time between two automatic slide changes, 5 seconds.
pub const ADVANCE_INTERVAL: u64 = 5_000;

/// By how much one unit of scrolling changes the font size.
pub const ZOOM_FACTOR: i64 = 2;

/// A logical key of the keyboard, as far as the viewer tells keys apart.
#[derive(Clone, Copy, Debug, PartialEq, Eq, Structural)]
pub enum Key {
    ArrowRight,
    ArrowLeft,
    N,
    P,
    Q,
    Escape,
    Space,
    D,
    /// Any key that the viewer does not react to.
    Other,
}

/// What the user can ask of the viewer.
#[derive(Clone, Copy, Debug, PartialEq, Eq, Structural)]
pub enum Command {
    Next,
    Previous,
    /// Show the slide with this index, counted from 0.
    Goto(usize),
    ToggleAutoAdvance,
    ToggleTheme,
    ToggleFullscreen,
    Quit,
    /// Change the font size by this many thousandths of a point.
    ZoomBy(i64),
}

/// What the viewer asks of the window system.
#[derive(Clone, Copy, Debug, PartialEq, Eq, Structural)]
pub enum WindowRequest {
    /// Enter full-screen mode (`true`) or leave it (`false`).
    Fullscreen(bool),
    /// Close the window.
    Close,
}

/// The command that a key press stands for, if any.
pub open spec fn command_of(key: Key) -> Option<Command> {
    match key {
        Key::ArrowRight | Key::N => Some(Command::Next),
        Key::ArrowLeft | Key::P => Some(Command::Previous),
        Key::Q | Key::Escape => Some(Command::Quit),
        Key::Space => Some(Command::ToggleAutoAdvance),
        Key::D => Some(Command::ToggleTheme),
        Key::Other => None,
    }
}

/// Decodes a key press into the command it stands for.
pub fn decode_key(key: Key) -> (r: Option<Command>)
    ensures
        r == command_of(key),
{
    match key {
        Key::ArrowRight | Key::N => Some(Command::Next),
        Key::ArrowLeft | Key::P => Some(Command::Previous),
        Key::Q | Key::Escape => Some(Command::Quit),
        Key::Space => Some(Command::ToggleAutoAdvance),
        Key::D => Some(Command::ToggleTheme),
        Key::Other => None,
    }
}

/// The keys that were pressed among a frame's key events, in the order of
/// the events. An event is a key and whether it went down (`true`) or came
/// up (`false`); only the presses count.
pub open spec fn pressed_of(events: Seq<(Key, bool)>) -> Seq<Key> {
    events.filter(|e: (Key, bool)| e.1).map_values(|e: (Key, bool)| e.0)
}

/// Picks the presses out of a frame's key events.
pub fn pressed_keys(events: &Vec<(Key, bool)>) -> (keys: Vec<Key>)
    ensures
        keys@ == events@.filter(|e: (Key, bool)| e.1).map_values(|e: (Key, bool)| e.0),
        keys@ == pressed_of(events@),
{
    let mut keys: Vec<Key> = Vec::new();
    let mut k: usize = 0;
    assert(events@.take(0) =~= Seq::empty());
    assert(pressed_of(Seq::empty()) =~= Seq::empty()) by {
        reveal(Seq::filter);
    }
    while k < events.len()
        invariant
            k <= events@.len(),
            keys@ == pressed_of(events@.take(k as int)),
        decreases events@.len() - k,
    {
        let (key, down) = events[k];
        proof {
            reveal(Seq::filter);
            let done = events@.take(k as int);
            let more = events@.take(k + 1);
            assert(more.drop_last() =~= done);
            assert(more.last() == events@[k as int]);
            let kept = done.filter(|e: (Key, bool)| e.1);
            if down {
                assert(more.filter(|e: (Key, bool)| e.1) == kept.push(events@[k as int]));
                assert(pressed_of(more) =~= pressed_of(done).push(key));
            } else {
                assert(more.filter(|e: (Key, bool)| e.1) == kept);
            }
        }
        if down {
            keys.push(key);
        }
        k += 1;
    }
    assert(events@.take(k as int) =~= events@);
    keys
}

/// The font size nearest to `size` within the allowed range.
pub open spec fn clamp_font_size(size: int) -> int {
    if size < MIN_FONT_SIZE {
        MIN_FONT_SIZE as int
    } else if size > MAX_FONT_SIZE {
        MAX_FONT_SIZE as int
    } else {
        size
    }
}

/// The zoom that a font size stands for, in percent of the baseline,
/// rounded to the nearest whole number, a half to the even neighbour.
pub open spec fn zoom_percent_of(size: int) -> int {
    let whole = size * 100 / (ZOOM_BASELINE as int);
    let rest = size * 100 % (ZOOM_BASELINE as int);
    if 2 * rest < ZOOM_BASELINE || (2 * rest == ZOOM_BASELINE && whole % 2 == 0) {
        whole
    } else {
        whole + 1
    }
}

/// What the user did during one frame.
#[derive(Clone, Debug, PartialEq, Eq)]
pub struct FrameInput {
    /// The keys pressed, in the order of the presses.
    pub keys: Vec<Key>,
    /// Whether the control key is held.
    pub ctrl: bool,
    /// How far the wheel was scrolled, in thousandths of a point.
    pub scroll: i64,
    /// The time of the frame on a monotonic clock, in milliseconds.
    pub now: u64,
}

/// The state of a viewer.
pub ghost struct ViewerState {
    /// The slides, in the order of the source.
    pub slides: Seq<Seq<char>>,
    /// The index of the slide on show.
    pub current: int,
    /// The base font size, in thousandths of a point.
    pub font_size: int,
    pub dark_mode: bool,
    pub auto_advance: bool,
    pub fullscreen: bool,
    /// When the slide last changed by itself, or auto-advance began to
    /// count, in milliseconds.
    pub last_advance_time: Option<int>,
    /// Whether the user has asked to quit.
    pub should_quit: bool,
}

impl ViewerState {
    /// What holds of every state that a viewer can be in.
    pub open spec fn wf(self) -> bool {
        &&& self.slides.len() > 0
        &&& forall|k: int|
            0 <= k < self.slides.len() ==> {
                &&& (#[trigger] self.slides[k]).len() > 0
                &&& !is_space(self.slides[k][0])
                &&& !is_space(self.slides[k].last())
            }
        &&& 0 <= self.current < self.slides.len()
        &&& MIN_FONT_SIZE <= self.font_size <= MAX_FONT_SIZE
        &&& !self.auto_advance ==> self.last_advance_time is None
        &&& self.last_advance_time is Some ==> 0 <= self.last_advance_time->0 <= u64::MAX
    }

    /// The state in which a presentation opens: the first slide on show, the
    /// dark theme, nothing else switched on.
    pub open spec fn initial(slides: Seq<Seq<char>>, font_size: int) -> ViewerState {
        ViewerState {
            slides,
            current: 0,
            font_size: clamp_font_size(font_size),
            dark_mode: true,
            auto_advance: false,
            fullscreen: false,
            last_advance_time: None,
            should_quit: false,
        }
    }

    /// Whether the first slide is on show.
    pub open spec fn at_first(self) -> bool {
        self.current == 0
    }

    /// Whether the last slide is on show.
    pub open spec fn at_last(self) -> bool {
        self.current == self.slides.len() - 1
    }

    /// One slide forward; at the last slide nothing changes.
    pub open spec fn next(self) -> ViewerState {
        if self.at_last() {
            self
        } else {
            ViewerState { current: self.current + 1, ..self }
        }
    }

    /// One slide back; at the first slide nothing changes.
    pub open spec fn previous(self) -> ViewerState {
        if self.at_first() {
            self
        } else {
            ViewerState { current: self.current - 1, ..self }
        }
    }

    /// To the slide with the given index; an index that no slide has changes
    /// nothing.
    pub open spec fn goto(self, index: int) -> ViewerState {
        if 0 <= index < self.slides.len() {
            ViewerState { current: index, ..self }
        } else {
            self
        }
    }

    /// Switches auto-advance on or off, and forgets the time of the last
    /// change either way.
    pub open spec fn toggle_auto_advance(self) -> ViewerState {
        ViewerState { auto_advance: !self.auto_advance, last_advance_time: None, ..self }
    }

    /// Changes the font size by `delta`, as far as the allowed range goes.
    pub open spec fn adjust_font_size(self, delta: int) -> ViewerState {
        ViewerState { font_size: clamp_font_size(self.font_size + delta), ..self }
    }

    /// Switches between the dark and the light theme.
    pub open spec fn toggle_dark_mode(self) -> ViewerState {
        ViewerState { dark_mode: !self.dark_mode, ..self }
    }

    /// Switches full-screen mode on or off.
    pub open spec fn toggle_fullscreen(self) -> ViewerState {
        ViewerState { fullscreen: !self.fullscreen, ..self }
    }

    /// Notes that the user has asked to quit.
    pub open spec fn request_quit(self) -> ViewerState {
        ViewerState { should_quit: true, ..self }
    }

    /// Lets time pass until `now`. With auto-advance off nothing changes.
    /// With it on, the first tick only notes the time; a later one moves one
    /// slide forward, and notes the time, once more than the interval has
    /// passed since the time noted.
    pub open spec fn tick(self, now: int) -> ViewerState {
        if !self.auto_advance {
            self
        } else {
            match self.last_advance_time {
                None => ViewerState { last_advance_time: Some(now), ..self },
                Some(last) => if now - last > ADVANCE_INTERVAL {
                    ViewerState { last_advance_time: Some(now), ..self.next() }
                } else {
                    self
                },
            }
        }
    }

    /// Carries out one command.
    pub open spec fn apply(self, command: Command) -> ViewerState {
        match command {
            Command::Next => self.next(),
            Command::Previous => self.previous(),
            Command::Goto(index) => self.goto(index as int),
            Command::ToggleAutoAdvance => self.toggle_auto_advance(),
            Command::ToggleTheme => self.toggle_dark_mode(),
            Command::ToggleFullscreen => self.toggle_fullscreen(),
            Command::Quit => self.request_quit(),
            Command::ZoomBy(delta) => self.adjust_font_size(delta as int),
        }
    }

    /// What carrying out `command` asks of the window system.
    pub open spec fn request_of(self, command: Command) -> Option<WindowRequest> {
        match command {
            Command::ToggleFullscreen => Some(WindowRequest::Fullscreen(!self.fullscreen)),
            _ => None,
        }
    }

    /// Reacts to one key press: carries out the command that the key stands
    /// for, if it stands for one.
    pub open spec fn press(self, key: Key) -> ViewerState {
        match command_of(key) {
            Some(command) => self.apply(command),
            None => self,
        }
    }

    /// Reacts to a series of key presses, one after the other.
    pub open spec fn press_all(self, keys: Seq<Key>) -> ViewerState
        decreases keys.len(),
    {
        if keys.len() == 0 {
            self
        } else {
            self.press_all(keys.drop_last()).press(keys.last())
        }
    }

    /// Zooms by what was scrolled, where the control key is held.
    pub open spec fn zoom(self, ctrl: bool, scroll: int) -> ViewerState {
        if ctrl {
            self.adjust_font_size(ZOOM_FACTOR * scroll)
        } else {
            self
        }
    }

    /// Reacts to the input of one frame: first the key presses in order,
    /// then the zoom, then the passing of time.
    pub open spec fn handle_input(self, input: FrameInput) -> ViewerState {
        self.press_all(input.keys@).zoom(input.ctrl, input.scroll as int).tick(input.now as int)
    }

    /// `count` steps forward.
    pub open spec fn next_times(self, count: nat) -> ViewerState
        decreases count,
    {
        if count == 0 {
            self
        } else {
            self.next_times((count - 1) as nat).next()
        }
    }

    /// A series of changes of the font size, one after the other.
    pub open spec fn adjust_font_size_all(self, deltas: Seq<int>) -> ViewerState
        decreases deltas.len(),
    {
        if deltas.len() == 0 {
            self
        } else {
            self.adjust_font_size_all(deltas.drop_last()).adjust_font_size(deltas.last())
        }
    }
}

/// A presentation opens in a well-formed state, whatever font size is
/// asked for, provided that there is a slide and that every slide is a
/// trimmed, non-empty text.
pub proof fn lemma_initial_wf(slides: Seq<Seq<char>>, font_size: int)
    requires
        slides.len() > 0,
        forall|k: int|
            0 <= k < slides.len() ==> (#[trigger] slides[k]).len() > 0 && trimmed(slides[k])
                == slides[k],
    ensures
        ViewerState::initial(slides, font_size).wf(),
{
    assert forall|k: int| 0 <= k < slides.len() implies {
        &&& (#[trigger] slides[k]).len() > 0
        &&& !is_space(slides[k][0])
        &&& !is_space(slides[k].last())
    } by {
        lemma_trimmed_edges(slides[k]);
    }
}

/// No command leads out of the well-formed states.
pub proof fn lemma_apply_preserves_wf(s: ViewerState, command: Command)
    requires
        s.wf(),
    ensures
        s.apply(command).wf(),
        s.apply(command).slides == s.slides,
{
}

/// No passing of time leads out of the well-formed states.
pub proof fn lemma_tick_preserves_wf(s: ViewerState, now: int)
    requires
        s.wf(),
        0 <= now <= u64::MAX,
    ensures
        s.tick(now).wf(),
        s.tick(now).slides == s.slides,
{
}

/// No key press asks anything of the window system: what a key stands for
/// changes the state only.
pub proof fn lemma_key_asks_nothing(s: ViewerState, key: Key)
    ensures
        match command_of(key) {
            Some(command) => s.request_of(command) is None,
            None => true,
        },
{
}

/// No key presses lead out of the well-formed states.
pub proof fn lemma_press_all_preserves_wf(s: ViewerState, keys: Seq<Key>)
    requires
        s.wf(),
    ensures
        s.press_all(keys).wf(),
        s.press_all(keys).slides == s.slides,
    decreases keys.len(),
{
    if keys.len() > 0 {
        lemma_press_all_preserves_wf(s, keys.drop_last());
        match command_of(keys.last()) {
            Some(command) => lemma_apply_preserves_wf(s.press_all(keys.drop_last()), command),
            None => {},
        }
    }
}

/// No frame's input leads out of the well-formed states, and none changes
/// the slides.
pub proof fn lemma_handle_input_preserves_wf(s: ViewerState, input: FrameInput)
    requires
        s.wf(),
    ensures
        s.handle_input(input).wf(),
        s.handle_input(input).slides == s.slides,
{
    lemma_press_all_preserves_wf(s, input.keys@);
}

/// At the first slide, a step back changes nothing.
pub proof fn lemma_previous_at_first(s: ViewerState)
    requires
        s.wf(),
        s.current == 0,
    ensures
        s.previous() == s,
{
}

/// Steps forward add up until the last slide is reached, and stop there:
/// `count` of them lead from slide `i` to slide `i + count`, or to the last
/// slide where that lies before. Nothing but the index changes.
pub proof fn lemma_next_times(s: ViewerState, count: nat)
    requires
        s.wf(),
    ensures
        s.next_times(count) == (ViewerState {
            current: if s.current + count < s.slides.len() {
                s.current + count
            } else {
                s.slides.len() - 1
            },
            ..s
        }),
    decreases count,
{
    if count > 0 {
        lemma_next_times(s, (count - 1) as nat);
    }
}

/// From the first of `n` slides, `n - 1` steps forward reach the last
/// slide, and one more step changes nothing: the show does not wrap
/// around.
pub proof fn lemma_next_reaches_last_and_stays(s: ViewerState)
    requires
        s.wf(),
        s.current == 0,
    ensures
        s.next_times((s.slides.len() - 1) as nat).current == s.slides.len() - 1,
        s.next_times((s.slides.len() - 1) as nat).next() == s.next_times(
            (s.slides.len() - 1) as nat,
        ),
{
    lemma_next_times(s, (s.slides.len() - 1) as nat);
}

/// A jump to an index that no slide has leaves the state as it was.
pub proof fn lemma_goto_out_of_range(s: ViewerState, index: int)
    requires
        index < 0 || index >= s.slides.len(),
    ensures
        s.goto(index) == s,
{
}

/// However the font size is changed, and however often, it stays within
/// the allowed range.
pub proof fn lemma_font_size_stays_in_range(s: ViewerState, deltas: Seq<int>)
    requires
        s.wf(),
    ensures
        MIN_FONT_SIZE <= s.adjust_font_size_all(deltas).font_size <= MAX_FONT_SIZE,
    decreases deltas.len(),
{
    if deltas.len() > 0 {
        lemma_font_size_stays_in_range(s, deltas.drop_last());
    }
}

/// Switching auto-advance twice gives the setting back, and each switch
/// forgets the time of the last change.
pub proof fn lemma_toggle_auto_advance_twice(s: ViewerState)
    ensures
        s.toggle_auto_advance().last_advance_time is None,
        s.toggle_auto_advance().toggle_auto_advance().last_advance_time is None,
        s.toggle_auto_advance().toggle_auto_advance().auto_advance == s.auto_advance,
        s.toggle_auto_advance().toggle_auto_advance() == (ViewerState {
            last_advance_time: None,
            ..s
        }),
{
}

/// With auto-advance off, the passing of time changes nothing: neither the
/// slide on show nor the time noted.
pub proof fn lemma_tick_without_auto_advance(s: ViewerState, now: int)
    requires
        !s.auto_advance,
    ensures
        s.tick(now) == s,
{
}

} // verus!
