//! Input state for the fixed-rate schedule.
//!
//! The frame loop samples a device once per frame; a fixed step runs zero,
//! one or many times per frame. [`FixedInput`] gathers the edges of every
//! frame and gives them up only when a fixed step has run, so that every edge
//! is seen by exactly one fixed step.

use bevy::input::Input;
use std::hash::Hash;
use vstd::prelude::*;

verus! {

/// Bevy's `Input`: the state of the buttons of one device. Its contents are
/// known here only through [`held_codes`], [`pressed_edges`] and
/// [`released_edges`].
#[verifier::external_type_specification]
#[verifier::external_body]
#[verifier::reject_recursive_types(T)]
pub struct ExInput<T: Copy + Eq + Hash + Send + Sync + 'static>(Input<T>);

/// The codes that `input` holds as pressed.
pub uninterp spec fn held_codes(input: Input<u64>) -> Set<u64>;

/// The codes that `input` marks as just pressed.
pub uninterp spec fn pressed_edges(input: Input<u64>) -> Set<u64>;

/// The codes that `input` marks as just released.
pub uninterp spec fn released_edges(input: Input<u64>) -> Set<u64>;

/// What an input state holds: the codes that are held down, and the codes
/// with an edge that no fixed step has seen yet.
#[verifier::ext_equal]
pub struct InputView {
    /// The codes that are held down.
    pub held: Set<u64>,
    /// The codes that went down.
    pub just_pressed: Set<u64>,
    /// The codes that went up.
    pub just_released: Set<u64>,
}

impl InputView {
    /// The state of `input`.
    pub open spec fn of(input: Input<u64>) -> InputView {
        InputView {
            held: held_codes(input),
            just_pressed: pressed_edges(input),
            just_released: released_edges(input),
        }
    }

    /// The state in which nothing is held and nothing has an edge.
    pub open spec fn idle() -> InputView {
        InputView { held: Set::empty(), just_pressed: Set::empty(), just_released: Set::empty() }
    }

    /// This state after a press of every code in `codes`: each is held, and
    /// just pressed unless it was held before.
    pub open spec fn pressed(self, codes: Set<u64>) -> InputView {
        InputView {
            held: self.held.union(codes),
            just_pressed: self.just_pressed.union(codes.difference(self.held)),
            just_released: self.just_released,
        }
    }

    /// This state after a release of every code in `codes`: none is held, and
    /// each that was held is just released.
    pub open spec fn released(self, codes: Set<u64>) -> InputView {
        InputView {
            held: self.held.difference(codes),
            just_pressed: self.just_pressed,
            just_released: self.just_released.union(codes.intersect(self.held)),
        }
    }

    /// This state after one frame in which the device reported `pressed` as
    /// newly pressed and `released` as newly released: the presses are taken
    /// first, then the releases.
    pub open spec fn updated(self, pressed: Set<u64>, released: Set<u64>) -> InputView {
        self.pressed(pressed).released(released)
    }

    /// This state after a fixed step: the edges are gone, what is held stays.
    pub open spec fn cleared(self) -> InputView {
        InputView { held: self.held, just_pressed: Set::empty(), just_released: Set::empty() }
    }

    /// This state after the frames `frames`, each a pair of the codes newly
    /// pressed and newly released, with no fixed step in between.
    pub open spec fn after_frames(self, frames: Seq<(Set<u64>, Set<u64>)>) -> InputView
        decreases frames.len(),
    {
        if frames.len() == 0 {
            self
        } else {
            self.after_frames(frames.drop_last()).updated(frames.last().0, frames.last().1)
        }
    }
}

/// `Input::default`: a state in which no code is held and none has an edge.
#[verifier::external_body]
fn input_default() -> (input: Input<u64>)
    ensures
        InputView::of(input) == InputView::idle(),
{
    Input::default()
}

/// `Input::press`: the code becomes held, and just pressed unless it was
/// held already; the release markers stay.
#[verifier::external_body]
fn input_press(input: &mut Input<u64>, code: u64)
    ensures
        InputView::of(*final(input)) == InputView::of(*old(input)).pressed(set![code]),
{
    input.press(code)
}

/// `Input::release`: the code is no longer held, and just released if it
/// was held; the press markers stay.
#[verifier::external_body]
fn input_release(input: &mut Input<u64>, code: u64)
    ensures
        InputView::of(*final(input)) == InputView::of(*old(input)).released(set![code]),
{
    input.release(code)
}

/// `Input::clear`: both kinds of marker are emptied; what is held stays.
#[verifier::external_body]
fn input_clear(input: &mut Input<u64>)
    ensures
        InputView::of(*final(input)) == InputView::of(*old(input)).cleared(),
{
    input.clear()
}

/// `Input::pressed`: whether the code is held.
#[verifier::external_body]
fn input_pressed(input: &Input<u64>, code: u64) -> (held: bool)
    ensures
        held == held_codes(*input).contains(code),
{
    input.pressed(code)
}

/// `Input::just_pressed`: whether the code is marked as just pressed.
#[verifier::external_body]
fn input_just_pressed(input: &Input<u64>, code: u64) -> (edge: bool)
    ensures
        edge == pressed_edges(*input).contains(code),
{
    input.just_pressed(code)
}

/// `Input::just_released`: whether the code is marked as just released.
#[verifier::external_body]
fn input_just_released(input: &Input<u64>, code: u64) -> (edge: bool)
    ensures
        edge == released_edges(*input).contains(code),
{
    input.just_released(code)
}

/// `Input::get_just_pressed`: every code marked as just pressed, once each,
/// in an order that is not fixed.
#[verifier::external_body]
fn input_get_just_pressed(input: &Input<u64>) -> (codes: Vec<u64>)
    ensures
        codes@.to_set() == pressed_edges(*input),
        codes@.no_duplicates(),
{
    input.get_just_pressed().copied().collect()
}

/// `Input::get_just_released`: every code marked as just released, once
/// each, in an order that is not fixed.
#[verifier::external_body]
fn input_get_just_released(input: &Input<u64>) -> (codes: Vec<u64>)
    ensures
        codes@.to_set() == released_edges(*input),
        codes@.no_duplicates(),
{
    input.get_just_released().copied().collect()
}

/// The input state that systems of the fixed-rate schedule read.
///
/// It answers the same questions as the state that the frame loop keeps for
/// the device, over the edges since the last fixed step.
#[derive(Debug)]
pub struct FixedInput {
    input: Input<u64>,
}

impl View for FixedInput {
    type V = InputView;

    closed spec fn view(&self) -> InputView {
        InputView::of(self.input)
    }
}

impl Default for FixedInput {
    fn default() -> (fixed_input: FixedInput)
        ensures
            fixed_input@ == InputView::idle(),
    {
        FixedInput { input: input_default() }
    }
}

impl FixedInput {
    /// Whether `code` is held down.
    pub fn pressed(&self, code: u64) -> (held: bool)
        ensures
            held == self@.held.contains(code),
    {
        input_pressed(&self.input, code)
    }

    /// Whether `code` went down since the last fixed step.
    pub fn just_pressed(&self, code: u64) -> (edge: bool)
        ensures
            edge == self@.just_pressed.contains(code),
    {
        input_just_pressed(&self.input, code)
    }

    /// Whether `code` went up since the last fixed step.
    pub fn just_released(&self, code: u64) -> (edge: bool)
        ensures
            edge == self@.just_released.contains(code),
    {
        input_just_released(&self.input, code)
    }

    /// Registers a press of `code`.
    pub fn press(&mut self, code: u64)
        ensures
            final(self)@ == old(self)@.pressed(set![code]),
    {
        input_press(&mut self.input, code);
    }

    /// Registers a release of `code`.
    pub fn release(&mut self, code: u64)
        ensures
            final(self)@ == old(self)@.released(set![code]),
    {
        input_release(&mut self.input, code);
    }

    /// Forgets the edges; what is held stays.
    pub fn clear(&mut self)
        ensures
            final(self)@ == old(self)@.cleared(),
    {
        input_clear(&mut self.input);
    }
}

/// The codes among the first `k` of `codes`.
spec fn seen(codes: Seq<u64>, k: int) -> Set<u64> {
    codes.take(k).to_set()
}

proof fn lemma_seen_next(codes: Seq<u64>, k: int)
    requires
        0 <= k < codes.len(),
    ensures
        seen(codes, k + 1) == seen(codes, k).insert(codes[k]),
        seen(codes, 0) == Set::<u64>::empty(),
        seen(codes, codes.len() as int) == codes.to_set(),
{
    let next = codes.take(k + 1);
    let prev = codes.take(k);
    assert forall|c: u64| seen(codes, k + 1).contains(c) <==> seen(codes, k).insert(
        codes[k],
    ).contains(c) by {
        if next.contains(c) {
            let i = choose|i: int| 0 <= i < next.len() && next[i] == c;
            if i < k {
                assert(prev[i] == c);
            }
        }
        if prev.contains(c) {
            let i = choose|i: int| 0 <= i < prev.len() && prev[i] == c;
            assert(next[i] == c);
        }
        assert(next[k] == codes[k]);
    }
    assert(seen(codes, k + 1) =~= seen(codes, k).insert(codes[k]));
    assert(seen(codes, 0) =~= Set::<u64>::empty());
    assert(codes.take(codes.len() as int) =~= codes);
}

/// Takes the edges of one frame into the fixed-rate state: every code in
/// `just_pressed` is pressed, then every code in `just_released` is
/// released.
///
/// The order of the codes within each list, and a code that is listed twice,
/// make no difference.
pub fn fixed_input_record(
    fixed_input: &mut FixedInput,
    just_pressed: &Vec<u64>,
    just_released: &Vec<u64>,
)
    ensures
        final(fixed_input)@ == old(fixed_input)@.updated(
            just_pressed@.to_set(),
            just_released@.to_set(),
        ),
{
    let ghost start = fixed_input@;
    let mut i: usize = 0;
    assert(seen(just_pressed@, 0) =~= Set::<u64>::empty());
    assert(fixed_input@ =~= start.pressed(seen(just_pressed@, 0)));
    while i < just_pressed.len()
        invariant
            i <= just_pressed.len(),
            fixed_input@ == start.pressed(seen(just_pressed@, i as int)),
        decreases just_pressed.len() - i,
    {
        let pressed = just_pressed[i];
        proof {
            lemma_seen_next(just_pressed@, i as int);
        }
        fixed_input.press(pressed);
        assert(fixed_input@ =~= start.pressed(seen(just_pressed@, i + 1)));
        i += 1;
    }
    assert(seen(just_pressed@, just_pressed@.len() as int) == just_pressed@.to_set()) by {
        assert(just_pressed@.take(just_pressed@.len() as int) =~= just_pressed@);
    }
    let ghost middle = fixed_input@;
    let mut j: usize = 0;
    assert(seen(just_released@, 0) =~= Set::<u64>::empty());
    assert(fixed_input@ =~= middle.released(seen(just_released@, 0)));
    while j < just_released.len()
        invariant
            j <= just_released.len(),
            fixed_input@ == middle.released(seen(just_released@, j as int)),
        decreases just_released.len() - j,
    {
        let released = just_released[j];
        proof {
            lemma_seen_next(just_released@, j as int);
        }
        fixed_input.release(released);
        assert(fixed_input@ =~= middle.released(seen(just_released@, j + 1)));
        j += 1;
    }
    assert(seen(just_released@, just_released@.len() as int) == just_released@.to_set()) by {
        assert(just_released@.take(just_released@.len() as int) =~= just_released@);
    }
}

/// Takes the edges that `input` holds for the current frame into the
/// fixed-rate state.
///
/// Runs once per frame, after the device state has been sampled.
pub fn fixed_input_update(fixed_input: &mut FixedInput, input: &Input<u64>)
    ensures
        final(fixed_input)@ == old(fixed_input)@.updated(
            pressed_edges(*input),
            released_edges(*input),
        ),
{
    let just_pressed = input_get_just_pressed(input);
    let just_released = input_get_just_released(input);
    fixed_input_record(fixed_input, &just_pressed, &just_released);
}

/// Forgets the edges once a fixed step has seen them; what is held stays.
///
/// Runs at the end of every fixed step, after the systems that read the
/// state.
pub fn fixed_input_clear(fixed_input: &mut FixedInput)
    ensures
        final(fixed_input)@ == old(fixed_input)@.cleared(),
{
    fixed_input.clear();
}

/// An edge waits for a fixed step: a code that is marked as just pressed, or
/// as just released, keeps its mark through any number of frames in which no
/// fixed step runs.
pub proof fn law_edges_persist(state: InputView, frames: Seq<(Set<u64>, Set<u64>)>, code: u64)
    ensures
        state.just_pressed.contains(code) ==> state.after_frames(frames).just_pressed.contains(
            code,
        ),
        state.just_released.contains(code) ==> state.after_frames(frames).just_released.contains(
            code,
        ),
    decreases frames.len(),
{
    if frames.len() > 0 {
        law_edges_persist(state, frames.drop_last(), code);
    }
}

/// A press is seen: a code that was not held and that a frame reports as
/// newly pressed is marked as just pressed after that frame, and is held
/// unless the same frame reports it as newly released.
pub proof fn law_press_is_recorded(
    state: InputView,
    pressed: Set<u64>,
    released: Set<u64>,
    code: u64,
)
    requires
        pressed.contains(code),
        !state.held.contains(code),
    ensures
        state.updated(pressed, released).just_pressed.contains(code),
        state.updated(pressed, released).held.contains(code) == !released.contains(code),
{
}

/// A held code stays held through every frame that does not report its
/// release, and through every fixed step.
pub proof fn law_held_until_released(
    state: InputView,
    frames: Seq<(Set<u64>, Set<u64>)>,
    code: u64,
)
    requires
        state.held.contains(code),
        forall|i: int| 0 <= i < frames.len() ==> !(#[trigger] frames[i]).1.contains(code),
    ensures
        state.after_frames(frames).held.contains(code),
        state.after_frames(frames).cleared().held.contains(code),
    decreases frames.len(),
{
    if frames.len() > 0 {
        let earlier = frames.drop_last();
        assert forall|i: int| 0 <= i < earlier.len() implies !(#[trigger] earlier[i]).1.contains(
            code,
        ) by {
            assert(earlier[i] == frames[i]);
        }
        law_held_until_released(state, earlier, code);
        assert(!frames[frames.len() - 1].1.contains(code));
    }
}

/// A fixed step uses the edges up: after it no code is just pressed or just
/// released, what is held is unchanged, and a second step that follows at
/// once finds the state that the first one left.
pub proof fn law_step_consumes_edges(state: InputView)
    ensures
        state.cleared().just_pressed == Set::<u64>::empty(),
        state.cleared().just_released == Set::<u64>::empty(),
        state.cleared().held == state.held,
        state.cleared().cleared() == state.cleared(),
{
}

/// No edge without a report: after a fixed step, a code is marked as just
/// pressed, or as just released, only if one of the frames since has
/// reported it so.
pub proof fn law_no_edge_without_report(
    state: InputView,
    frames: Seq<(Set<u64>, Set<u64>)>,
    code: u64,
)
    ensures
        state.cleared().after_frames(frames).just_pressed.contains(code) ==> exists|i: int|
            0 <= i < frames.len() && (#[trigger] frames[i]).0.contains(code),
        state.cleared().after_frames(frames).just_released.contains(code) ==> exists|i: int|
            0 <= i < frames.len() && (#[trigger] frames[i]).1.contains(code),
    decreases frames.len(),
{
    if frames.len() > 0 {
        let earlier = frames.drop_last();
        let last = frames.len() - 1;
        law_no_edge_without_report(state, earlier, code);
        if state.cleared().after_frames(frames).just_pressed.contains(code) {
            if frames[last].0.contains(code) {
            } else {
                let i = choose|i: int| 0 <= i < earlier.len() && (#[trigger] earlier[i]).0.contains(code);
                assert(frames[i].0.contains(code));
            }
        }
        if state.cleared().after_frames(frames).just_released.contains(code) {
            if frames[last].1.contains(code) {
            } else {
                let i = choose|i: int| 0 <= i < earlier.len() && (#[trigger] earlier[i]).1.contains(code);
                assert(frames[i].1.contains(code));
            }
        }
    }
}

} // verus!
