//! The executors around the engine: they parse a raw platform key snapshot
//! into the engine's key vocabulary, submit it, and forward the resulting
//! event to a mouse actuator or a mode notifier supplied by the caller.

use vstd::prelude::*;

use crate::engine::{canon, evaluate, next_mode, Event, Key, NinCore, MODE};

verus! {

/// A raw platform key identifier, as the input source reports it: the eight
/// semantic keys, the four directional pseudo-keys, and everything else
/// collapsed into `Other`.
#[derive(Clone, Copy, Debug, PartialEq, Eq, Structural)]
pub enum RawKey {
    Space,
    Escape,
    LControl,
    J,
    K,
    H,
    L,
    I,
    Down,
    Up,
    Left,
    Right,
    Other,
}

/// What a raw key contributes to the semantic chord: a direct key maps to
/// itself, a directional pseudo-key expands to its Control-augmented chord,
/// and an unrecognized key contributes nothing.
pub open spec fn expand_spec(r: RawKey) -> Seq<Key> {
    match r {
        RawKey::Space => seq![Key::Space],
        RawKey::Escape => seq![Key::Escape],
        RawKey::LControl => seq![Key::Control],
        RawKey::J => seq![Key::J],
        RawKey::K => seq![Key::K],
        RawKey::H => seq![Key::H],
        RawKey::L => seq![Key::L],
        RawKey::I => seq![Key::I],
        RawKey::Down => seq![Key::Control, Key::J],
        RawKey::Up => seq![Key::Control, Key::K],
        RawKey::Left => seq![Key::Control, Key::H],
        RawKey::Right => seq![Key::Control, Key::L],
        RawKey::Other => Seq::empty(),
    }
}

/// Whether a raw key means anything to the engine.
pub open spec fn recognized(r: RawKey) -> bool {
    !(r is Other)
}

/// The first `n` recognized raw keys of `s`, in input order; unrecognized
/// keys are silently dropped, never an error.
pub open spec fn take_recognized(s: Seq<RawKey>, n: nat) -> Seq<RawKey>
    decreases s.len(),
{
    if s.len() == 0 || n == 0 {
        Seq::empty()
    } else if recognized(s[0]) {
        seq![s[0]] + take_recognized(s.drop_first(), (n - 1) as nat)
    } else {
        take_recognized(s.drop_first(), n)
    }
}

/// The raw keys that survive truncation: the first two recognized entries.
pub open spec fn truncate_spec(s: Seq<RawKey>) -> Seq<RawKey> {
    take_recognized(s, 2)
}

/// The concatenated expansions of a sequence of raw keys.
pub open spec fn expand_all(s: Seq<RawKey>) -> Seq<Key>
    decreases s.len(),
{
    if s.len() == 0 {
        Seq::empty()
    } else {
        expand_spec(s[0]) + expand_all(s.drop_first())
    }
}

/// The semantic keys a raw snapshot parses to: truncate, then expand.
pub open spec fn parse_spec(s: Seq<RawKey>) -> Seq<Key> {
    expand_all(truncate_spec(s))
}

/// The chord a raw snapshot finally submits to the engine: parsed, then
/// canonicalized.
pub open spec fn submitted(s: Seq<RawKey>) -> Seq<Key> {
    canon(parse_spec(s))
}

/// Turns a raw platform key snapshot into the engine's key vocabulary.
pub struct InputParser {
    inputs: Vec<RawKey>,
}

impl View for InputParser {
    type V = Seq<RawKey>;

    closed spec fn view(&self) -> Seq<RawKey> {
        self.inputs@
    }
}

impl InputParser {
    pub fn new(inputs: Vec<RawKey>) -> (p: Self)
        ensures
            p@ == inputs@,
    {
        Self { inputs }
    }

    /// Keep only the first two recognized raw keys, in input order.
    pub fn truncate(&self) -> (r: Vec<RawKey>)
        ensures
            r@ == truncate_spec(self@),
    {
        let mut r: Vec<RawKey> = Vec::new();
        let mut i: usize = 0;
        proof {
            assert(self.inputs@.skip(0) =~= self.inputs@);
            assert(r@ + take_recognized(self.inputs@, 2) =~= take_recognized(self.inputs@, 2));
        }
        while i < self.inputs.len() && r.len() < 2
            invariant
                i <= self.inputs@.len(),
                r@.len() <= 2,
                truncate_spec(self.inputs@) == r@ + take_recognized(
                    self.inputs@.skip(i as int),
                    (2 - r@.len()) as nat,
                ),
            decreases self.inputs@.len() - i,
        {
            let k = self.inputs[i];
            let ghost rest = self.inputs@.skip(i as int);
            proof {
                assert(rest[0] == self.inputs@[i as int]);
                assert(rest.drop_first() =~= self.inputs@.skip(i as int + 1));
            }
            if !matches!(k, RawKey::Other) {
                proof {
                    assert(recognized(rest[0]));
                    assert(take_recognized(rest, (2 - r@.len()) as nat) == seq![k]
                        + take_recognized(rest.drop_first(), (2 - r@.len() - 1) as nat));
                    assert(r@ + (seq![k] + take_recognized(rest.drop_first(), (2 - r@.len()
                        - 1) as nat)) =~= r@.push(k) + take_recognized(rest.drop_first(), (2
                        - r@.len() - 1) as nat));
                }
                r.push(k);
            } else {
                proof {
                    assert(!recognized(rest[0]));
                }
            }
            i += 1;
        }
        proof {
            if r@.len() < 2 {
                assert(self.inputs@.skip(i as int).len() == 0);
            }
            assert(take_recognized(self.inputs@.skip(i as int), (2 - r@.len()) as nat)
                =~= Seq::<RawKey>::empty());
            assert(r@ + Seq::<RawKey>::empty() =~= r@);
        }
        r
    }

    /// Parse the snapshot: truncate, then expand each surviving raw key.
    pub fn parse(&self) -> (r: Vec<Key>)
        ensures
            r@ == parse_spec(self@),
    {
        let inputs = self.truncate();
        let mut result: Vec<Key> = Vec::new();
        let mut i: usize = 0;
        proof {
            assert(inputs@.skip(0) =~= inputs@);
            assert(result@ + expand_all(inputs@) =~= expand_all(inputs@));
        }
        while i < inputs.len()
            invariant
                i <= inputs@.len(),
                expand_all(inputs@) == result@ + expand_all(inputs@.skip(i as int)),
            decreases inputs@.len() - i,
        {
            let k = inputs[i];
            let ghost rest = inputs@.skip(i as int);
            let ghost before = result@;
            proof {
                assert(rest[0] == inputs@[i as int]);
                assert(rest.drop_first() =~= inputs@.skip(i as int + 1));
            }
            match k {
                RawKey::Space => result.push(Key::Space),
                RawKey::Escape => result.push(Key::Escape),
                RawKey::LControl => result.push(Key::Control),
                RawKey::J => result.push(Key::J),
                RawKey::K => result.push(Key::K),
                RawKey::H => result.push(Key::H),
                RawKey::L => result.push(Key::L),
                RawKey::I => result.push(Key::I),
                RawKey::Down => {
                    result.push(Key::Control);
                    result.push(Key::J);
                },
                RawKey::Up => {
                    result.push(Key::Control);
                    result.push(Key::K);
                },
                RawKey::Left => {
                    result.push(Key::Control);
                    result.push(Key::H);
                },
                RawKey::Right => {
                    result.push(Key::Control);
                    result.push(Key::L);
                },
                RawKey::Other => {},
            }
            proof {
                assert(result@ =~= before + expand_spec(k));
                assert(before + (expand_spec(k) + expand_all(rest.drop_first()))
                    =~= (before + expand_spec(k)) + expand_all(rest.drop_first()));
            }
            i += 1;
        }
        proof {
            assert(inputs@.skip(i as int).len() == 0);
            assert(result@ + expand_all(inputs@.skip(i as int)) =~= result@);
        }
        result
    }
}

/// Receives the label of the mode the engine switched into; implemented by
/// the caller (a presentation layer, a test double).
pub trait EmitExecuter {
    fn change_mode(&self, mode: String);
}

/// Performs the physical mouse work; implemented by the caller (a platform
/// actuator, a test double).
pub trait MouseController {
    fn move_cursor(&mut self, x: i32, y: i32);

    fn click(&mut self);
}

/// Feeds raw snapshots to its own engine and notifies the emitter whenever
/// the submission actually changed the mode, with the label of the new mode.
pub struct EmitCommand<E: EmitExecuter> {
    nin: NinCore,
    emitter: E,
}

impl<E: EmitExecuter> EmitCommand<E> {
    /// The mode of the owned engine.
    pub closed spec fn mode_spec(&self) -> MODE {
        self.nin.mode_spec()
    }

    pub fn new(nin: NinCore, emitter: E) -> (c: Self)
        ensures
            c.mode_spec() == nin.mode_spec(),
    {
        EmitCommand { nin, emitter }
    }

    /// Submit a raw snapshot; on a mode-change event, forward the new
    /// mode's label to the emitter.
    pub fn execute(&mut self, keys: Vec<RawKey>)
        ensures
            final(self).mode_spec() == next_mode(old(self).mode_spec(), submitted(keys@)),
    {
        let inputs = InputParser::new(keys).parse();
        let event = self.nin.pass_key(inputs);
        match event {
            Event::ChangedMode(mode) => {
                self.emitter.change_mode(mode.label());
            },
            _ => {},
        }
    }
}

/// Feeds raw snapshots to its own engine and forwards movement and click
/// events to the mouse controller; every other event moves nothing.
pub struct NinCursorExecuter<M: MouseController> {
    nin: NinCore,
    mouse_controller: M,
}

impl<M: MouseController> NinCursorExecuter<M> {
    /// The mode of the owned engine.
    pub closed spec fn mode_spec(&self) -> MODE {
        self.nin.mode_spec()
    }

    pub fn new(nin: NinCore, mouse_controller: M) -> (c: Self)
        ensures
            c.mode_spec() == nin.mode_spec(),
    {
        Self { nin, mouse_controller }
    }

    /// Submit a raw snapshot; on a movement event, move the cursor by the
    /// event's displacement, and on a click event, click.
    pub fn execute(&mut self, keys: Vec<RawKey>)
        ensures
            final(self).mode_spec() == next_mode(old(self).mode_spec(), submitted(keys@)),
    {
        let inputs = InputParser::new(keys).parse();
        let event = self.nin.pass_key(inputs);
        match event {
            Event::MovedCursor(x, y) => {
                self.mouse_controller.move_cursor(x, y);
            },
            Event::Clicked => {
                self.mouse_controller.click();
            },
            _ => {},
        }
    }
}

} // verus!
