//! Keyboard bindings, the per-frame key handling, and the input source switch.

use vstd::prelude::*;

use crate::direction::Direction;
use crate::events::{GameCommand, GameEvent};
use crate::layout::{spec_layout, Layout, WindowSize};

verus! {

/// Phases of a frame's input handling: first the event pump is drained, then
/// systems react to what it produced.
#[derive(Debug, Hash, PartialEq, Eq, Clone, Copy, Structural)]
pub enum InputSet {
    Drain,
    React,
}

/// Who steers Pac-Man.
#[derive(Debug, Default, Clone, Copy, PartialEq, Eq, Structural)]
pub enum InputSource {
    #[default]
    Human,
    Ai,
}

impl InputSource {
    /// Whether a human steers.
    pub fn is_human(self) -> (r: bool)
        ensures
            r == (self == InputSource::Human),
    {
        match self {
            InputSource::Human => true,
            InputSource::Ai => false,
        }
    }

    /// Whether the demo AI steers.
    pub fn is_ai(self) -> (r: bool)
        ensures
            r == (self == InputSource::Ai),
    {
        match self {
            InputSource::Human => false,
            InputSource::Ai => true,
        }
    }
}

/// Whether a human pressed a key or began a click or tap this frame.
#[derive(Debug, Default, Clone, Copy)]
pub struct HumanInput {
    pub active: bool,
}

/// A keyboard key, as far as the game distinguishes keys.
#[derive(Debug, Clone, Copy, PartialEq, Eq, Hash, Structural)]
pub enum Key {
    Up,
    Down,
    Left,
    Right,
    W,
    A,
    S,
    D,
    Escape,
    Space,
    M,
    R,
    T,
    Q,
    F,
    /// Any other key, by its platform key code.
    Other(i32),
}

/// A key going down or up.
#[derive(Debug, Clone, Copy, PartialEq, Eq, Structural)]
pub enum SimpleKeyEvent {
    KeyDown(Key),
    KeyUp(Key),
}

/// The command a key is bound to.
pub open spec fn spec_binding(key: Key) -> Option<GameCommand> {
    match key {
        Key::Up | Key::W => Some(GameCommand::MovePlayer(Direction::Up)),
        Key::Down | Key::S => Some(GameCommand::MovePlayer(Direction::Down)),
        Key::Left | Key::A => Some(GameCommand::MovePlayer(Direction::Left)),
        Key::Right | Key::D => Some(GameCommand::MovePlayer(Direction::Right)),
        Key::Escape => Some(GameCommand::TogglePause),
        Key::Space => Some(GameCommand::ToggleDebug),
        Key::M => Some(GameCommand::MuteAudio),
        Key::R => Some(GameCommand::ResetLevel),
        Key::T => Some(GameCommand::SingleTick),
        Key::Q => Some(GameCommand::Exit),
        Key::F => Some(GameCommand::ToggleFullscreen),
        Key::Other(_) => None,
    }
}

/// Whether a key steers Pac-Man.
pub open spec fn spec_is_movement_key(key: Key) -> bool {
    match key {
        Key::Up | Key::Down | Key::Left | Key::Right | Key::W | Key::A | Key::S | Key::D => true,
        _ => false,
    }
}

/// `s` without any occurrence of `key`.
pub open spec fn spec_without(s: Seq<Key>, key: Key) -> Seq<Key> {
    s.filter(spec_other_than(key))
}

/// The predicate "is not `key`".
pub open spec fn spec_other_than(key: Key) -> spec_fn(Key) -> bool {
    |k: Key| k != key
}

/// The events emitted for a binding lookup.
pub open spec fn spec_emit(key: Key) -> Seq<GameEvent> {
    match spec_binding(key) {
        Some(c) => seq![GameEvent::Command(c)],
        None => seq![],
    }
}

/// Key events of a frame handled in order, starting from the held movement keys
/// `held`, the events emitted so far and whether a movement key went down this
/// frame. Returns the held keys, the emitted events and the movement flag after
/// the last event.
pub open spec fn spec_key_events(
    held: Seq<Key>,
    emitted: Seq<GameEvent>,
    moved: bool,
    events: Seq<SimpleKeyEvent>,
) -> (Seq<Key>, Seq<GameEvent>, bool)
    decreases events.len(),
{
    if events.len() == 0 {
        (held, emitted, moved)
    } else {
        let rest = events.drop_first();
        match events[0] {
            SimpleKeyEvent::KeyDown(k) => {
                let emitted2 = emitted + spec_emit(k);
                if spec_is_movement_key(k) {
                    let held2 = if held.contains(k) {
                        held
                    } else {
                        held.push(k)
                    };
                    spec_key_events(held2, emitted2, true, rest)
                } else {
                    spec_key_events(held, emitted2, moved, rest)
                }
            },
            SimpleKeyEvent::KeyUp(k) => {
                if spec_is_movement_key(k) {
                    spec_key_events(spec_without(held, k), emitted, moved, rest)
                } else {
                    spec_key_events(held, emitted, moved, rest)
                }
            },
        }
    }
}

/// The held keys and the events of a frame: the key events in order, then, if no
/// movement key went down this frame, the command of the most recently pressed
/// movement key still held.
pub open spec fn spec_frame(held: Seq<Key>, events: Seq<SimpleKeyEvent>) -> (Seq<Key>, Seq<
    GameEvent,
>) {
    let (h, e, moved) = spec_key_events(held, seq![], false, events);
    if !moved && h.len() > 0 {
        (h, e + spec_emit(h.last()))
    } else {
        (h, e)
    }
}

/// Held movement keys are distinct movement keys.
pub open spec fn spec_held_ok(held: Seq<Key>) -> bool {
    &&& held.no_duplicates()
    &&& forall|i: int| 0 <= i < held.len() ==> spec_is_movement_key(#[trigger] held[i])
}

/// Key bindings and the movement keys held down, in the order they were pressed.
#[derive(Debug)]
pub struct Bindings {
    pressed_movement_keys: Vec<Key>,
}

impl Bindings {
    /// The movement keys held down, oldest first.
    pub closed spec fn held(self) -> Seq<Key> {
        self.pressed_movement_keys@
    }

    #[verifier::type_invariant]
    spec fn inv(self) -> bool {
        spec_held_ok(self.held())
    }

    /// The command bound to `key`, if any.
    pub fn command_for(&self, key: Key) -> (r: Option<GameCommand>)
        ensures
            r == spec_binding(key),
    {
        match key {
            Key::Up | Key::W => Some(GameCommand::MovePlayer(Direction::Up)),
            Key::Down | Key::S => Some(GameCommand::MovePlayer(Direction::Down)),
            Key::Left | Key::A => Some(GameCommand::MovePlayer(Direction::Left)),
            Key::Right | Key::D => Some(GameCommand::MovePlayer(Direction::Right)),
            Key::Escape => Some(GameCommand::TogglePause),
            Key::Space => Some(GameCommand::ToggleDebug),
            Key::M => Some(GameCommand::MuteAudio),
            Key::R => Some(GameCommand::ResetLevel),
            Key::T => Some(GameCommand::SingleTick),
            Key::Q => Some(GameCommand::Exit),
            Key::F => Some(GameCommand::ToggleFullscreen),
            Key::Other(_) => None,
        }
    }

    /// Whether `key` steers Pac-Man.
    pub fn is_movement_key(&self, key: Key) -> (r: bool)
        ensures
            r == spec_is_movement_key(key),
    {
        match key {
            Key::Up | Key::Down | Key::Left | Key::Right | Key::W | Key::A | Key::S | Key::D => true,
            _ => false,
        }
    }

    /// The movement keys held down, oldest first.
    pub fn pressed_movement_keys(&self) -> (r: Vec<Key>)
        ensures
            r@ == self.held(),
    {
        self.pressed_movement_keys.clone()
    }
}

impl Clone for Bindings {
    fn clone(&self) -> (r: Self)
        ensures
            r.held() == self.held(),
    {
        proof { use_type_invariant(self); }
        Bindings { pressed_movement_keys: self.pressed_movement_keys.clone() }
    }
}

impl Default for Bindings {
    fn default() -> (r: Self)
        ensures
            r.held() == Seq::<Key>::empty(),
    {
        Bindings { pressed_movement_keys: Vec::new() }
    }
}

fn contains_key(keys: &Vec<Key>, key: Key) -> (r: bool)
    ensures
        r == keys@.contains(key),
{
    let mut i: usize = 0;
    while i < keys.len()
        invariant
            0 <= i <= keys.len(),
            forall|j: int| 0 <= j < i ==> keys@[j] != key,
        decreases keys.len() - i,
    {
        if keys[i] == key {
            return true;
        }
        i = i + 1;
    }
    false
}

fn without_key(keys: &Vec<Key>, key: Key) -> (r: Vec<Key>)
    ensures
        r@ == spec_without(keys@, key),
{
    let mut r: Vec<Key> = Vec::new();
    let mut i: usize = 0;
    while i < keys.len()
        invariant
            0 <= i <= keys.len(),
            r@ == spec_without(keys@.take(i as int), key),
        decreases keys.len() - i,
    {
        proof {
            assert(keys@.take(i + 1).drop_last() =~= keys@.take(i as int));
            reveal_with_fuel(Seq::filter, 1);
        }
        if keys[i] != key {
            r.push(keys[i]);
        }
        i = i + 1;
    }
    proof {
        assert(keys@.take(keys.len() as int) =~= keys@);
    }
    r
}

/// Filtering a sequence without duplicates leaves none.
proof fn lemma_filter_no_dup(s: Seq<Key>, f: spec_fn(Key) -> bool)
    requires
        s.no_duplicates(),
    ensures
        s.filter(f).no_duplicates(),
    decreases s.len(),
{
    reveal_with_fuel(Seq::filter, 1);
    if s.len() > 0 {
        let d = s.drop_last();
        assert(d.no_duplicates()) by {
            assert forall|a: int, b: int| 0 <= a < b < d.len() implies d[a] != d[b] by {
                assert(d[a] == s[a] && d[b] == s[b]);
            }
        }
        lemma_filter_no_dup(d, f);
        d.filter_lemma(f);
        if f(s.last()) {
            let sub = d.filter(f);
            assert(!sub.contains(s.last())) by {
                if sub.contains(s.last()) {
                    d.lemma_filter_contains_rev(f, s.last());
                    let k = choose|k: int| 0 <= k < d.len() && d[k] == s.last();
                    assert(s[k] == s[s.len() - 1]);
                }
            }
            let p = sub.push(s.last());
            assert forall|a: int, b: int| 0 <= a < b < p.len() implies p[a] != p[b] by {
                if b == p.len() - 1 {
                    assert(sub.contains(p[a]));
                } else {
                    assert(p[a] == sub[a] && p[b] == sub[b]);
                }
            }
        }
    }
}

/// Removing a key keeps held keys distinct movement keys.
proof fn lemma_without_keeps_ok(held: Seq<Key>, key: Key)
    requires
        spec_held_ok(held),
    ensures
        spec_held_ok(spec_without(held, key)),
        !spec_without(held, key).contains(key),
{
    let f = spec_other_than(key);
    held.filter_lemma(f);
    lemma_filter_no_dup(held, f);
    let w = spec_without(held, key);
    assert forall|i: int| 0 <= i < w.len() implies spec_is_movement_key(#[trigger] w[i]) by {
        assert(w.contains(w[i]));
        held.lemma_filter_contains_rev(f, w[i]);
    }
}

/// Handles a frame's key events. A key going down emits its bound command; a
/// movement key going down is also recorded as held (once). A movement key
/// going up is no longer held. If no movement key went down this frame, the
/// command of the most recently pressed movement key still held is emitted again,
/// so holding a key keeps Pac-Man going.
pub fn process_simple_key_events(bindings: &mut Bindings, frame_events: &Vec<SimpleKeyEvent>) -> (r:
    Vec<GameEvent>)
    ensures
        (final(bindings).held(), r@) == spec_frame(old(bindings).held(), frame_events@),
        spec_held_ok(final(bindings).held()),
{
    proof { use_type_invariant(&*bindings); }
    let mut emitted: Vec<GameEvent> = Vec::new();
    let mut movement_key_pressed = false;
    let mut pressed = bindings.pressed_movement_keys.clone();
    let mut i: usize = 0;
    proof {
        assert(frame_events@.skip(0) =~= frame_events@);
    }
    while i < frame_events.len()
        invariant
            0 <= i <= frame_events.len(),
            spec_held_ok(pressed@),
            spec_key_events(old(bindings).held(), seq![], false, frame_events@) == spec_key_events(
                pressed@,
                emitted@,
                movement_key_pressed,
                frame_events@.skip(i as int),
            ),
        decreases frame_events.len() - i,
    {
        proof {
            assert(frame_events@.skip(i as int).drop_first() =~= frame_events@.skip(i + 1));
        }
        match frame_events[i] {
            SimpleKeyEvent::KeyDown(key) => {
                let ghost e0 = emitted@;
                if let Some(command) = bindings.command_for(key) {
                    emitted.push(GameEvent::Command(command));
                }
                proof {
                    assert(emitted@ =~= e0 + spec_emit(key));
                }
                if bindings.is_movement_key(key) {
                    movement_key_pressed = true;
                    if !contains_key(&pressed, key) {
                        pressed.push(key);
                        proof {
                            assert forall|j: int| 0 <= j < pressed@.len() implies spec_is_movement_key(#[trigger] pressed@[j]) by {
                                if j < pressed@.len() - 1 {
                                    assert(pressed@[j] == pressed@.drop_last()[j]);
                                }
                            }
                            assert(pressed@.no_duplicates()) by {
                                assert forall|a: int, b: int| 0 <= a < b < pressed@.len() implies pressed@[a] != pressed@[b] by {
                                    if b == pressed@.len() - 1 {
                                        assert(pressed@.drop_last()[a] == pressed@[a]);
                                    } else {
                                        assert(pressed@.drop_last()[a] == pressed@[a]);
                                        assert(pressed@.drop_last()[b] == pressed@[b]);
                                    }
                                }
                            }
                        }
                    }
                }
            },
            SimpleKeyEvent::KeyUp(key) => {
                if bindings.is_movement_key(key) {
                    proof {
                        lemma_without_keeps_ok(pressed@, key);
                    }
                    pressed = without_key(&pressed, key);
                }
            },
        }
        i = i + 1;
    }
    proof {
        assert(frame_events@.skip(i as int) =~= Seq::<SimpleKeyEvent>::empty());
    }
    if !movement_key_pressed && pressed.len() > 0 {
        let last = pressed[pressed.len() - 1];
        if let Some(command) = bindings.command_for(last) {
            emitted.push(GameEvent::Command(command));
        }
    }
    bindings.pressed_movement_keys = pressed;
    emitted
}

/// The pending canvas size word: width in the high half, height in the low half.
pub open spec fn spec_pack(width: u32, height: u32) -> int {
    (width as int) * 0x1_0000_0000 + (height as int)
}

/// Packs a browser-requested canvas size into one word (`0` means none pending).
pub fn request_canvas_resize(width: u32, height: u32) -> (packed: u64)
    ensures
        packed == spec_pack(width, height),
        packed == 0 <==> (width == 0 && height == 0),
{
    let w = width as u64;
    let h = height as u64;
    assert(w * 0x1_0000_0000 <= 0xffff_ffff_0000_0000u64) by (nonlinear_arith)
        requires w <= 0xffff_ffff;
    w * 0x1_0000_0000 + h
}

/// The size to apply for a pending word, unless nothing is pending or the window
/// already has that size.
pub fn pending_resize(packed: u64, current_width: u32, current_height: u32) -> (r: Option<(u32, u32)>)
    ensures
        packed == 0 ==> r is None,
        packed != 0 ==> (r == (if (packed / 0x1_0000_0000) as u32 == current_width && (packed
            % 0x1_0000_0000) as u32 == current_height {
            None
        } else {
            Some(((packed / 0x1_0000_0000) as u32, (packed % 0x1_0000_0000) as u32))
        })),
{
    if packed == 0 {
        return None;
    }
    let width = (packed / 0x1_0000_0000) as u32;
    let height = (packed % 0x1_0000_0000) as u32;
    if width == current_width && height == current_height {
        None
    } else {
        Some((width, height))
    }
}

/// Unpacking a packed size gives the size back.
pub proof fn lemma_pack_roundtrip(width: u32, height: u32)
    ensures
        spec_pack(width, height) / 0x1_0000_0000 == width,
        spec_pack(width, height) % 0x1_0000_0000 == height,
{
    let p = spec_pack(width, height);
    vstd::arithmetic::div_mod::lemma_fundamental_div_mod_converse(
        p as int,
        0x1_0000_0000int,
        width as int,
        height as int,
    );
}

/// A window-system event of a frame, as far as the input rules read it. Pointer
/// motion and release are handled by the pointer tracking alone.
#[derive(Debug, Clone, Copy, PartialEq, Eq, Structural)]
pub enum FrameEvent {
    /// The window was closed.
    Quit,
    /// A key went down; `key` is `None` for keys without a code.
    KeyDown { key: Option<Key>, repeat: bool },
    /// A key went up.
    KeyUp { key: Option<Key>, repeat: bool },
    /// A mouse button went down or a finger touched.
    PointerDown,
    /// The window was resized (or reported its new size).
    Resized { width: i32, height: i32 },
    /// Anything else.
    Other,
}

/// What a frame of input amounts to.
#[derive(Debug, Clone)]
pub struct FrameOutcome {
    /// The game should exit after this frame.
    pub exit: bool,
    /// A human pressed a key or began a click or tap this frame.
    pub human_active: bool,
    /// The game events to deliver, in order.
    pub events: Vec<GameEvent>,
}

/// Whether an event shows a human acting: a fresh key press with a code, or a
/// click or tap.
pub open spec fn spec_starts_human(e: FrameEvent) -> bool {
    match e {
        FrameEvent::KeyDown { key: Some(_), repeat: false } => true,
        FrameEvent::PointerDown => true,
        _ => false,
    }
}

/// The key events of a frame that the bindings see: presses and releases with a
/// code, repeats left out.
pub open spec fn spec_simple_keys(fs: Seq<FrameEvent>) -> Seq<SimpleKeyEvent>
    decreases fs.len(),
{
    if fs.len() == 0 {
        seq![]
    } else {
        let rest = spec_simple_keys(fs.drop_last());
        match fs.last() {
            FrameEvent::KeyDown { key: Some(k), repeat: false } => rest.push(SimpleKeyEvent::KeyDown(k)),
            FrameEvent::KeyUp { key: Some(k), repeat: false } => rest.push(SimpleKeyEvent::KeyUp(k)),
            _ => rest,
        }
    }
}

/// Whether an emitted event is delivered: the exit command is acted on at once
/// instead, and while the AI drives, human movement is dropped.
pub open spec fn spec_delivered(e: GameEvent, source: InputSource) -> bool {
    match e {
        GameEvent::Command(GameCommand::Exit) => false,
        GameEvent::Command(GameCommand::MovePlayer(_)) => source != InputSource::Ai,
        _ => true,
    }
}

/// The emitted events that are delivered, in order.
pub open spec fn spec_route(es: Seq<GameEvent>, source: InputSource) -> Seq<GameEvent>
    decreases es.len(),
{
    if es.len() == 0 {
        seq![]
    } else {
        let rest = spec_route(es.drop_last(), source);
        if spec_delivered(es.last(), source) {
            rest.push(es.last())
        } else {
            rest
        }
    }
}

/// The window size a resize reports, negative sizes read as zero.
pub open spec fn spec_reported_size(width: i32, height: i32) -> WindowSize {
    WindowSize { x: if width < 0 { 0 } else { width as u32 }, y: if height < 0 { 0 } else { height as u32 } }
}

/// The layout after a frame's resizes: each one that reports a size other than
/// the current window's recomputes the layout.
pub open spec fn spec_layout_after(layout: Layout, fs: Seq<FrameEvent>) -> Layout
    decreases fs.len(),
{
    if fs.len() == 0 {
        layout
    } else {
        let l = spec_layout_after(layout, fs.drop_last());
        match fs.last() {
            FrameEvent::Resized { width, height } => {
                let size = spec_reported_size(width, height);
                if size != l.window {
                    spec_layout(size)
                } else {
                    l
                }
            },
            _ => l,
        }
    }
}

/// Handles a frame of window-system events. The key presses and releases (not
/// repeats) go through the bindings; of the commands they emit, exit ends the
/// game instead of being delivered, and human movement is dropped while the AI
/// drives. Closing the window also ends the game. Each resize to a new size
/// recomputes the layout.
pub fn input_frame(
    bindings: &mut Bindings,
    source: InputSource,
    layout: &mut Layout,
    frame: &Vec<FrameEvent>,
) -> (r: FrameOutcome)
    ensures
        ({
            let (held, emitted) = spec_frame(old(bindings).held(), spec_simple_keys(frame@));
            &&& final(bindings).held() == held
            &&& r.events@ == spec_route(emitted, source)
            &&& r.exit == ((exists|i: int| 0 <= i < frame@.len() && frame@[i] is Quit) || emitted.contains(
                GameEvent::Command(GameCommand::Exit),
            ))
        }),
        r.human_active == exists|i: int| 0 <= i < frame@.len() && spec_starts_human(#[trigger] frame@[i]),
        *final(layout) == spec_layout_after(*old(layout), frame@),
{
    let mut human_active = false;
    let mut quit = false;
    let mut keys: Vec<SimpleKeyEvent> = Vec::new();
    let mut i: usize = 0;
    while i < frame.len()
        invariant
            0 <= i <= frame.len(),
            human_active == exists|j: int| 0 <= j < i && spec_starts_human(#[trigger] frame@[j]),
            quit == exists|j: int| 0 <= j < i && frame@[j] is Quit,
            keys@ == spec_simple_keys(frame@.subrange(0, i as int)),
            *layout == spec_layout_after(*old(layout), frame@.subrange(0, i as int)),
        decreases frame.len() - i,
    {
        proof {
            assert(frame@.subrange(0, i + 1).drop_last() =~= frame@.subrange(0, i as int));
        }
        match frame[i] {
            FrameEvent::Quit => {
                quit = true;
            },
            FrameEvent::KeyDown { key, repeat } => {
                if let Some(k) = key {
                    if !repeat {
                        human_active = true;
                        keys.push(SimpleKeyEvent::KeyDown(k));
                    }
                }
            },
            FrameEvent::KeyUp { key, repeat } => {
                if let Some(k) = key {
                    if !repeat {
                        keys.push(SimpleKeyEvent::KeyUp(k));
                    }
                }
            },
            FrameEvent::PointerDown => {
                human_active = true;
            },
            FrameEvent::Resized { width, height } => {
                let size = WindowSize {
                    x: if width < 0 { 0 } else { width as u32 },
                    y: if height < 0 { 0 } else { height as u32 },
                };
                if size != layout.window {
                    *layout = Layout::compute(size);
                }
            },
            FrameEvent::Other => {},
        }
        i = i + 1;
    }
    proof {
        assert(frame@.subrange(0, frame.len() as int) =~= frame@);
    }
    let emitted = process_simple_key_events(bindings, &keys);
    let mut events: Vec<GameEvent> = Vec::new();
    let mut exit = quit;
    let mut k: usize = 0;
    while k < emitted.len()
        invariant
            0 <= k <= emitted.len(),
            events@ == spec_route(emitted@.subrange(0, k as int), source),
            exit == (quit || emitted@.subrange(0, k as int).contains(GameEvent::Command(GameCommand::Exit))),
        decreases emitted.len() - k,
    {
        let e = emitted[k];
        proof {
            let x = GameEvent::Command(GameCommand::Exit);
            let prev = emitted@.subrange(0, k as int);
            assert(emitted@.subrange(0, k + 1) =~= prev.push(e));
            assert(prev.push(e).drop_last() =~= prev);
            if prev.contains(x) {
                let j = choose|j: int| 0 <= j < prev.len() && #[trigger] prev[j] == x;
                assert(prev.push(e)[j] == x);
            }
            if e == x {
                assert(prev.push(e)[prev.len() as int] == x);
            }
            if prev.push(e).contains(x) {
                let j = choose|j: int| 0 <= j < prev.len() + 1 && #[trigger] prev.push(e)[j] == x;
                if j < prev.len() {
                    assert(prev[j] == x);
                }
            }
        }
        match e {
            GameEvent::Command(GameCommand::Exit) => {
                exit = true;
            },
            GameEvent::Command(GameCommand::MovePlayer(d)) => {
                if source != InputSource::Ai {
                    events.push(e);
                }
            },
            _ => {
                events.push(e);
            },
        }
        k = k + 1;
    }
    proof {
        assert(emitted@.subrange(0, emitted.len() as int) =~= emitted@);
    }
    FrameOutcome { exit, human_active, events }
}

/// Holding a movement key keeps Pac-Man going: a frame without key events
/// repeats the command of the most recently pressed key still held.
pub proof fn lemma_held_key_repeats(held: Seq<Key>)
    requires
        held.len() > 0,
    ensures
        spec_frame(held, Seq::<SimpleKeyEvent>::empty()) == (held, spec_emit(held.last())),
{
    assert(Seq::<GameEvent>::empty() + spec_emit(held.last()) =~= spec_emit(held.last()));
}

/// Pressing and releasing a movement key within one frame emits its command
/// once and leaves nothing new held.
pub proof fn lemma_tap_emits_once(k: Key)
    requires
        spec_is_movement_key(k),
    ensures
        spec_frame(
            Seq::<Key>::empty(),
            seq![SimpleKeyEvent::KeyDown(k), SimpleKeyEvent::KeyUp(k)],
        ) == (Seq::<Key>::empty(), spec_emit(k)),
{
    let evs = seq![SimpleKeyEvent::KeyDown(k), SimpleKeyEvent::KeyUp(k)];
    let one = Seq::<Key>::empty().push(k);
    let f = spec_other_than(k);
    one.filter_lemma(f);
    if one.filter(f).len() > 0 {
        let x = one.filter(f)[0];
        assert(f(x));
        assert(one.filter(f).contains(x));
        one.lemma_filter_contains_rev(f, x);
        assert(one[0] == k);
    }
    assert(spec_without(one, k) =~= Seq::<Key>::empty());
    assert(!Seq::<Key>::empty().contains(k));
    assert(evs[0] == SimpleKeyEvent::KeyDown(k));
    assert(evs.drop_first() =~= seq![SimpleKeyEvent::KeyUp(k)]);
    assert(evs.drop_first().drop_first() =~= Seq::<SimpleKeyEvent>::empty());
    let e1 = Seq::<GameEvent>::empty() + spec_emit(k);
    assert(spec_key_events(Seq::<Key>::empty(), seq![], false, evs) == spec_key_events(one, e1, true, evs.drop_first()));
    assert(spec_key_events(one, e1, true, evs.drop_first()) == spec_key_events(
        Seq::<Key>::empty(),
        e1,
        true,
        evs.drop_first().drop_first(),
    ));
    assert(Seq::<GameEvent>::empty() + spec_emit(k) =~= spec_emit(k));
}

/// The arrow key of a direction.
pub open spec fn spec_arrow_key(d: Direction) -> Key {
    match d {
        Direction::Up => Key::Up,
        Direction::Down => Key::Down,
        Direction::Left => Key::Left,
        Direction::Right => Key::Right,
    }
}

/// The W, A, S or D key of a direction.
pub open spec fn spec_wasd_key(d: Direction) -> Key {
    match d {
        Direction::Up => Key::W,
        Direction::Down => Key::S,
        Direction::Left => Key::A,
        Direction::Right => Key::D,
    }
}

/// Each direction's arrow key and its W/A/S/D key both steer Pac-Man that way,
/// and are movement keys; the keys that steer are exactly these eight, and each
/// steers one way only.
pub proof fn lemma_keys_steer_their_way(d: Direction, k: Key)
    ensures
        spec_binding(spec_arrow_key(d)) == Some(GameCommand::MovePlayer(d)),
        spec_binding(spec_wasd_key(d)) == Some(GameCommand::MovePlayer(d)),
        spec_is_movement_key(spec_arrow_key(d)) && spec_is_movement_key(spec_wasd_key(d)),
        spec_binding(k) == Some(GameCommand::MovePlayer(d)) <==> (k == spec_arrow_key(d) || k == spec_wasd_key(d)),
        spec_is_movement_key(k) <==> (spec_binding(k) matches Some(GameCommand::MovePlayer(_))),
{
}

/// The other keys: Escape pauses, Space toggles the debug view, M mutes, R
/// resets the level, T steps one tick, Q quits and F toggles fullscreen; no key
/// outside these fifteen does anything.
pub proof fn lemma_command_keys(code: i32)
    ensures
        spec_binding(Key::Escape) == Some(GameCommand::TogglePause),
        spec_binding(Key::Space) == Some(GameCommand::ToggleDebug),
        spec_binding(Key::M) == Some(GameCommand::MuteAudio),
        spec_binding(Key::R) == Some(GameCommand::ResetLevel),
        spec_binding(Key::T) == Some(GameCommand::SingleTick),
        spec_binding(Key::Q) == Some(GameCommand::Exit),
        spec_binding(Key::F) == Some(GameCommand::ToggleFullscreen),
        spec_binding(Key::Other(code)) is None,
        !spec_is_movement_key(Key::Other(code)),
{
}

/// Pressing a movement key with nothing held emits exactly its steering
/// command, and the key is then held.
pub proof fn lemma_press_steers(d: Direction, wasd: bool)
    ensures
        ({
            let k = if wasd { spec_wasd_key(d) } else { spec_arrow_key(d) };
            spec_frame(Seq::<Key>::empty(), seq![SimpleKeyEvent::KeyDown(k)]) == (
                seq![k],
                seq![GameEvent::Command(GameCommand::MovePlayer(d))],
            )
        }),
{
    let k = if wasd { spec_wasd_key(d) } else { spec_arrow_key(d) };
    let evs = seq![SimpleKeyEvent::KeyDown(k)];
    assert(evs.drop_first() =~= Seq::<SimpleKeyEvent>::empty());
    assert(!Seq::<Key>::empty().contains(k));
    assert(Seq::<Key>::empty().push(k) =~= seq![k]);
    assert(Seq::<GameEvent>::empty() + spec_emit(k) =~= seq![GameEvent::Command(GameCommand::MovePlayer(d))]);
    lemma_keys_steer_their_way(d, k);
    assert(evs[0] == SimpleKeyEvent::KeyDown(k));
    let e1 = Seq::<GameEvent>::empty() + spec_emit(k);
    assert(spec_key_events(Seq::<Key>::empty(), seq![], false, evs) == spec_key_events(
        Seq::<Key>::empty().push(k),
        e1,
        true,
        evs.drop_first(),
    ));
    assert(spec_key_events(Seq::<Key>::empty().push(k), e1, true, evs.drop_first()) == (
        Seq::<Key>::empty().push(k),
        e1,
        true,
    ));
}

} // verus!
