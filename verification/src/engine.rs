//! The modal core: keys, canonical key sets, the per-mode dispatch table,
//! and the engine that owns the current mode.

use vstd::prelude::*;
use vstd::string::StringExecFns;

verus! {

/// The closed set of semantic keys the engine understands.
///
/// The declaration order is also the canonical sort order of a key set.
#[derive(Clone, Copy, Debug, PartialEq, Eq, Structural)]
pub enum Key {
    Control,
    Space,
    J,
    K,
    H,
    L,
    I,
    Escape,
}

/// Position of a key in the canonical order.
pub open spec fn key_rank(k: Key) -> int {
    match k {
        Key::Control => 0,
        Key::Space => 1,
        Key::J => 2,
        Key::K => 3,
        Key::H => 4,
        Key::L => 5,
        Key::I => 6,
        Key::Escape => 7,
    }
}

/// The first occurrences of at most two distinct keys of `s`, in input
/// order, appended to the keys already collected in `acc`.
pub open spec fn first_two_distinct(s: Seq<Key>, acc: Seq<Key>) -> Seq<Key>
    decreases s.len(),
{
    if s.len() == 0 || acc.len() >= 2 {
        acc
    } else if acc.contains(s[0]) {
        first_two_distinct(s.drop_first(), acc)
    } else {
        first_two_distinct(s.drop_first(), acc.push(s[0]))
    }
}

/// Sort a sequence of at most two keys by `key_rank`.
pub open spec fn sort_two(s: Seq<Key>) -> Seq<Key> {
    if s.len() == 2 && key_rank(s[1]) < key_rank(s[0]) {
        seq![s[1], s[0]]
    } else {
        s
    }
}

/// The canonical key set of a raw chord: keep the first two distinct keys,
/// then sort them, so that the same chord compares equal whatever the press
/// order and however often the platform repeated a key.
pub open spec fn canon(s: Seq<Key>) -> Seq<Key> {
    sort_two(first_two_distinct(s, Seq::empty()))
}

/// A chord of simultaneously pressed keys, as handed in by the caller;
/// `get` yields its canonical form.
#[derive(Clone)]
pub struct Keys {
    keys: Vec<Key>,
}

impl View for Keys {
    type V = Seq<Key>;

    closed spec fn view(&self) -> Seq<Key> {
        self.keys@
    }
}

impl Keys {
    pub fn new(keys: Vec<Key>) -> (r: Self)
        ensures
            r@ == keys@,
    {
        Self { keys }
    }

    /// The canonical form of the chord: deduplicated, capped at two keys,
    /// sorted into canonical order.
    pub fn get(&self) -> (r: Vec<Key>)
        ensures
            r@ == canon(self@),
    {
        let mut r: Vec<Key> = Vec::new();
        let mut i: usize = 0;
        proof {
            assert(self.keys@.skip(0) =~= self.keys@);
        }
        while i < self.keys.len() && r.len() < 2
            invariant
                i <= self.keys@.len(),
                r@.len() <= 2,
                first_two_distinct(self.keys@, Seq::empty()) == first_two_distinct(
                    self.keys@.skip(i as int),
                    r@,
                ),
            decreases self.keys@.len() - i,
        {
            let k = self.keys[i];
            let duplicate = r.len() == 1 && r[0] == k;
            proof {
                assert(self.keys@.skip(i as int)[0] == self.keys@[i as int]);
                assert(self.keys@.skip(i as int).drop_first() =~= self.keys@.skip(i as int + 1));
                if duplicate {
                    assert(r@.contains(k));
                } else {
                    assert(!r@.contains(k)) by {
                        if r@.contains(k) {
                            let j = choose|j: int| 0 <= j < r@.len() && r@[j] == k;
                            assert(r@.len() == 1 && r@[0] == k);
                        }
                    }
                }
            }
            if !duplicate {
                r.push(k);
            }
            i += 1;
        }
        proof {
            if i == self.keys@.len() {
                assert(self.keys@.skip(i as int).len() == 0);
            }
            assert(first_two_distinct(self.keys@.skip(i as int), r@) == r@);
        }
        if r.len() == 2 {
            let a = r[0];
            let b = r[1];
            if rank(&b) < rank(&a) {
                let mut swapped: Vec<Key> = Vec::new();
                swapped.push(b);
                swapped.push(a);
                proof {
                    assert(swapped@ =~= sort_two(r@));
                }
                return swapped;
            }
        }
        r
    }
}

/// Canonical position of a key, as executable code.
fn rank(k: &Key) -> (r: u8)
    ensures
        r as int == key_rank(*k),
{
    match k {
        Key::Control => 0,
        Key::Space => 1,
        Key::J => 2,
        Key::K => 3,
        Key::H => 4,
        Key::L => 5,
        Key::I => 6,
        Key::Escape => 7,
    }
}

/// Element-wise comparison of two key vectors.
fn keys_eq(a: &Vec<Key>, b: &Vec<Key>) -> (r: bool)
    ensures
        r == (a@ == b@),
{
    if a.len() != b.len() {
        return false;
    }
    let mut i: usize = 0;
    while i < a.len()
        invariant
            a@.len() == b@.len(),
            i <= a@.len(),
            forall|j: int| 0 <= j < i ==> a@[j] == b@[j],
        decreases a@.len() - i,
    {
        if a[i] != b[i] {
            return false;
        }
        i += 1;
    }
    proof {
        assert(a@ =~= b@);
    }
    true
}

/// The modal state: idle, or driving the cursor.
#[derive(Clone, Copy, Debug, PartialEq, Eq, Structural)]
pub enum MODE {
    IDLE,
    CURSOR,
}

/// What a submitted chord amounts to. The engine only reports the event;
/// it never moves the mouse or notifies anyone itself.
#[derive(Clone, Copy, Debug, PartialEq, Eq, Structural)]
pub enum Event {
    Nothing,
    ChangedMode(MODE),
    MovedCursor(i32, i32),
    Clicked,
}

/// Base cursor displacement of a directional key.
pub const NORMAL_MOVEMENT_WIDTH: i32 = 10;

/// Displacement of a directional key sped up by the Control modifier.
pub const SPEED_UP_MOVEMENT_WIDTH: i32 = 30;

/// The event an idle engine assigns to a canonical key set: only the
/// Control-Space chord does anything, namely switch into cursor mode.
pub open spec fn idle_event(ks: Seq<Key>) -> Event {
    if ks == seq![Key::Control, Key::Space] {
        Event::ChangedMode(MODE::CURSOR)
    } else {
        Event::Nothing
    }
}

/// The event a cursor-mode engine assigns to a canonical key set. The
/// mapping is total: every key set outside the table resolves to no event,
/// never to an error.
pub open spec fn cursor_event(ks: Seq<Key>) -> Event {
    if ks == seq![Key::J] {
        Event::MovedCursor(0, 10)
    } else if ks == seq![Key::Control, Key::J] {
        Event::MovedCursor(0, 30)
    } else if ks == seq![Key::K] {
        Event::MovedCursor(0, -10i32)
    } else if ks == seq![Key::Control, Key::K] {
        Event::MovedCursor(0, -30i32)
    } else if ks == seq![Key::H] {
        Event::MovedCursor(-10i32, 0)
    } else if ks == seq![Key::Control, Key::H] {
        Event::MovedCursor(-30i32, 0)
    } else if ks == seq![Key::L] {
        Event::MovedCursor(10, 0)
    } else if ks == seq![Key::Control, Key::L] {
        Event::MovedCursor(30, 0)
    } else if ks == seq![Key::Escape] {
        Event::ChangedMode(MODE::IDLE)
    } else if ks == seq![Key::I] {
        Event::Clicked
    } else {
        Event::Nothing
    }
}

/// The cursor-mode dispatch table as a sequence of bindings: each canonical
/// key set beside the event it produces.
pub open spec fn cursor_bindings() -> Seq<(Seq<Key>, Event)> {
    seq![
        (seq![Key::J], Event::MovedCursor(0, 10)),
        (seq![Key::Control, Key::J], Event::MovedCursor(0, 30)),
        (seq![Key::K], Event::MovedCursor(0, -10i32)),
        (seq![Key::Control, Key::K], Event::MovedCursor(0, -30i32)),
        (seq![Key::H], Event::MovedCursor(-10i32, 0)),
        (seq![Key::Control, Key::H], Event::MovedCursor(-30i32, 0)),
        (seq![Key::L], Event::MovedCursor(10, 0)),
        (seq![Key::Control, Key::L], Event::MovedCursor(30, 0)),
        (seq![Key::Escape], Event::ChangedMode(MODE::IDLE)),
        (seq![Key::I], Event::Clicked),
    ]
}

/// Ground facts about the chord literals of the dispatch tables: their
/// lengths and elements, so that two distinct chords can be told apart.
proof fn lemma_chord_literals()
    ensures
        seq![Key::J].len() == 1 && seq![Key::J][0] == Key::J,
        seq![Key::K].len() == 1 && seq![Key::K][0] == Key::K,
        seq![Key::H].len() == 1 && seq![Key::H][0] == Key::H,
        seq![Key::L].len() == 1 && seq![Key::L][0] == Key::L,
        seq![Key::I].len() == 1 && seq![Key::I][0] == Key::I,
        seq![Key::Escape].len() == 1 && seq![Key::Escape][0] == Key::Escape,
        seq![Key::Control, Key::J].len() == 2 && seq![Key::Control, Key::J][0] == Key::Control
            && seq![Key::Control, Key::J][1] == Key::J,
        seq![Key::Control, Key::K].len() == 2 && seq![Key::Control, Key::K][0] == Key::Control
            && seq![Key::Control, Key::K][1] == Key::K,
        seq![Key::Control, Key::H].len() == 2 && seq![Key::Control, Key::H][0] == Key::Control
            && seq![Key::Control, Key::H][1] == Key::H,
        seq![Key::Control, Key::L].len() == 2 && seq![Key::Control, Key::L][0] == Key::Control
            && seq![Key::Control, Key::L][1] == Key::L,
        seq![Key::Control, Key::Space].len() == 2 && seq![Key::Control, Key::Space][0]
            == Key::Control && seq![Key::Control, Key::Space][1] == Key::Space,
{
}

/// A binding that matches a key set is bound to exactly the event
/// `cursor_event` assigns to it, and a key set that no binding matches is
/// assigned no event: the table and the mapping agree everywhere.
pub proof fn lemma_cursor_bindings_agree(ks: Seq<Key>)
    ensures
        forall|j: int|
            0 <= j < cursor_bindings().len() && (#[trigger] cursor_bindings()[j]).0 == ks
                ==> cursor_bindings()[j].1 == cursor_event(ks),
        (forall|j: int| 0 <= j < cursor_bindings().len() ==> (#[trigger] cursor_bindings()[j]).0
            != ks) ==> cursor_event(ks) == Event::Nothing,
{
    lemma_chord_literals();
    assert forall|j: int|
        0 <= j < cursor_bindings().len() && (#[trigger] cursor_bindings()[j]).0 == ks implies
        cursor_bindings()[j].1 == cursor_event(ks) by {
        lemma_chord_literals();
        if j == 0 {
            assert(ks == seq![Key::J]);
        } else if j == 1 {
            assert(ks == seq![Key::Control, Key::J]);
        } else if j == 2 {
            assert(ks == seq![Key::K]);
        } else if j == 3 {
            assert(ks == seq![Key::Control, Key::K]);
        } else if j == 4 {
            assert(ks == seq![Key::H]);
        } else if j == 5 {
            assert(ks == seq![Key::Control, Key::H]);
        } else if j == 6 {
            assert(ks == seq![Key::L]);
        } else if j == 7 {
            assert(ks == seq![Key::Control, Key::L]);
        } else if j == 8 {
            assert(ks == seq![Key::Escape]);
        } else {
            assert(j == 9 && ks == seq![Key::I]);
        }
    }
}

/// The bindings of an executable table, as a mathematical sequence.
pub open spec fn table_view(events: Seq<(Vec<Key>, Event)>) -> Seq<(Seq<Key>, Event)> {
    events.map_values(|p: (Vec<Key>, Event)| (p.0@, p.1))
}

/// The cursor-mode dispatch table, built once as data: a vector of
/// (canonical key set, event) bindings queried by linear lookup.
pub struct CursorEventDispatcher {
    events: Vec<(Vec<Key>, Event)>,
}

impl CursorEventDispatcher {
    /// The table's bindings as a mathematical sequence.
    pub closed spec fn table(&self) -> Seq<(Seq<Key>, Event)> {
        table_view(self.events@)
    }

    /// Build the table: one pair of bindings per direction (base step and
    /// sped-up step), then the bindings that leave cursor mode and click.
    pub fn new() -> (d: Self)
        ensures
            d.table() == cursor_bindings(),
    {
        let mut events: Vec<(Vec<Key>, Event)> = Vec::new();
        push_direction_bindings(&mut events, Key::J, 0, 1);
        push_direction_bindings(&mut events, Key::K, 0, -1);
        push_direction_bindings(&mut events, Key::H, -1, 0);
        push_direction_bindings(&mut events, Key::L, 1, 0);
        let mut escape_keys: Vec<Key> = Vec::new();
        escape_keys.push(Key::Escape);
        proof {
            assert(escape_keys@ =~= seq![Key::Escape]);
        }
        events.push((escape_keys, Event::ChangedMode(MODE::IDLE)));
        let mut click_keys: Vec<Key> = Vec::new();
        click_keys.push(Key::I);
        proof {
            assert(click_keys@ =~= seq![Key::I]);
        }
        events.push((click_keys, Event::Clicked));
        let d = Self { events };
        proof {
            let t = d.table();
            assert(t.len() == 10);
            assert(t[0] =~~= cursor_bindings()[0]);
            assert(t[1] =~~= cursor_bindings()[1]);
            assert(t[2] =~~= cursor_bindings()[2]);
            assert(t[3] =~~= cursor_bindings()[3]);
            assert(t[4] =~~= cursor_bindings()[4]);
            assert(t[5] =~~= cursor_bindings()[5]);
            assert(t[6] =~~= cursor_bindings()[6]);
            assert(t[7] =~~= cursor_bindings()[7]);
            assert(t[8] =~~= cursor_bindings()[8]);
            assert(t[9] =~~= cursor_bindings()[9]);
            assert(d.table() =~~= cursor_bindings());
        }
        d
    }

    /// Look the canonical form of a chord up in the table; a miss resolves
    /// to no event.
    pub fn handle(&self, keys: Keys) -> (e: Event)
        requires
            self.table() == cursor_bindings(),
        ensures
            e == cursor_event(canon(keys@)),
    {
        let ks = keys.get();
        let n = self.events.len();
        let mut i: usize = 0;
        proof {
            lemma_cursor_bindings_agree(ks@);
            assert(n == cursor_bindings().len());
        }
        while i < n
            invariant
                self.table() == cursor_bindings(),
                n == self.events@.len(),
                i <= n,
                ks@ == canon(keys@),
                forall|j: int| 0 <= j < i ==> (#[trigger] cursor_bindings()[j]).0 != ks@,
            decreases n - i,
        {
            proof {
                assert(self.table()[i as int] == (self.events@[i as int].0@,
                    self.events@[i as int].1));
            }
            if keys_eq(&self.events[i].0, &ks) {
                proof {
                    lemma_cursor_bindings_agree(ks@);
                    assert(cursor_bindings()[i as int].0 == ks@);
                }
                return self.events[i].1;
            }
            i += 1;
        }
        proof {
            lemma_cursor_bindings_agree(ks@);
        }
        Event::Nothing
    }
}

/// Push the pair of bindings of one direction: the bare key at the base
/// step, and the Control-augmented chord at the sped-up step.
fn push_direction_bindings(events: &mut Vec<(Vec<Key>, Event)>, key: Key, dx: i32, dy: i32)
    requires
        -1 <= dx <= 1,
        -1 <= dy <= 1,
    ensures
        final(events)@.len() == old(events)@.len() + 2,
        forall|i: int| 0 <= i < old(events)@.len() ==> final(events)@[i] == old(events)@[i],
        final(events)@[old(events)@.len() as int].0@ == seq![key],
        final(events)@[old(events)@.len() as int].1 == Event::MovedCursor(
            (dx * NORMAL_MOVEMENT_WIDTH) as i32,
            (dy * NORMAL_MOVEMENT_WIDTH) as i32,
        ),
        final(events)@[old(events)@.len() as int + 1].0@ == seq![Key::Control, key],
        final(events)@[old(events)@.len() as int + 1].1 == Event::MovedCursor(
            (dx * SPEED_UP_MOVEMENT_WIDTH) as i32,
            (dy * SPEED_UP_MOVEMENT_WIDTH) as i32,
        ),
{
    let mut normal_keys: Vec<Key> = Vec::new();
    normal_keys.push(key);
    proof {
        assert(normal_keys@ =~= seq![key]);
    }
    let normal = Event::MovedCursor(dx * NORMAL_MOVEMENT_WIDTH, dy * NORMAL_MOVEMENT_WIDTH);
    events.push((normal_keys, normal));
    let mut speed_keys: Vec<Key> = Vec::new();
    speed_keys.push(Key::Control);
    speed_keys.push(key);
    proof {
        assert(speed_keys@ =~= seq![Key::Control, key]);
    }
    let speed = Event::MovedCursor(dx * SPEED_UP_MOVEMENT_WIDTH, dy * SPEED_UP_MOVEMENT_WIDTH);
    events.push((speed_keys, speed));
}

/// The event a chord produces in a given mode.
pub open spec fn evaluate(m: MODE, ks: Seq<Key>) -> Event {
    match m {
        MODE::IDLE => idle_event(ks),
        MODE::CURSOR => cursor_event(ks),
    }
}

/// The mode after a chord has been submitted: a mode-change event installs
/// its target mode, every other event leaves the mode as it was.
pub open spec fn next_mode(m: MODE, ks: Seq<Key>) -> MODE {
    match evaluate(m, ks) {
        Event::ChangedMode(m2) => m2,
        _ => m,
    }
}

/// The label under which a mode is announced to a presentation layer.
pub open spec fn label_spec(m: MODE) -> Seq<char> {
    match m {
        MODE::IDLE => "Idle"@,
        MODE::CURSOR => "Cursor"@,
    }
}

impl MODE {
    /// The mode's label.
    pub fn label(&self) -> (s: String)
        ensures
            s@ == label_spec(*self),
    {
        match self {
            MODE::IDLE => String::from_str("Idle"),
            MODE::CURSOR => String::from_str("Cursor"),
        }
    }

    /// The event a chord fires in this mode.
    pub fn fire_event(&self, keys: Keys) -> (e: Event)
        ensures
            e == evaluate(*self, canon(keys@)),
    {
        match self {
            MODE::IDLE => {
                let ks = keys.get();
                let mut chord: Vec<Key> = Vec::new();
                chord.push(Key::Control);
                chord.push(Key::Space);
                proof {
                    assert(chord@ =~= seq![Key::Control, Key::Space]);
                }
                if keys_eq(&ks, &chord) {
                    Event::ChangedMode(MODE::CURSOR)
                } else {
                    Event::Nothing
                }
            },
            MODE::CURSOR => CursorEventDispatcher::new().handle(keys),
        }
    }
}

/// The engine: the sole owner of the current mode. Submitting a chord
/// returns the event it produces and applies any resulting mode change.
pub struct NinCore {
    mode: MODE,
}

impl NinCore {
    /// The current mode, as a mathematical value.
    pub closed spec fn mode_spec(&self) -> MODE {
        self.mode
    }

    /// A fresh engine starts idle.
    pub fn new() -> (c: Self)
        ensures
            c.mode_spec() == MODE::IDLE,
    {
        Self { mode: MODE::IDLE }
    }

    /// Whether the engine is idle; never mutates.
    pub fn is_idle(&self) -> (b: bool)
        ensures
            b == (self.mode_spec() == MODE::IDLE),
    {
        self.mode == MODE::IDLE
    }

    /// Submit a chord: return the event its canonical form produces in the
    /// current mode, after installing the target mode of a mode-change
    /// event. Every input resolves to a defined event; nothing fails.
    pub fn pass_key(&mut self, keys: Vec<Key>) -> (e: Event)
        ensures
            e == evaluate(old(self).mode_spec(), canon(keys@)),
            final(self).mode_spec() == next_mode(old(self).mode_spec(), canon(keys@)),
    {
        let event = self.mode.fire_event(Keys::new(keys));
        match event {
            Event::ChangedMode(mode) => {
                self.mode = mode;
            },
            _ => {},
        }
        event
    }
}

} // verus!
