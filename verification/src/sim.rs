//! A whole simulation: the settings of the round, its boxes, and the
//! switches of the drag gesture, taken from frame to frame.
//!
//! The host owns the window. Once per frame it gathers what happened (keys,
//! the request for a new round, the pointer of a drag) and hands it to
//! `Simulation::update`, which decides everything else.

use vstd::prelude::*;
use crate::drag::{dragged, lemma_follow_keeps_speed, on_moves};
use crate::model::{Bounds, BouncePolicy, DragMode, MovingBox, Point, Rgb};
use crate::motion::{advance, advanced, all_wf, lemma_advanced_wf};
use crate::spawn::{initialize, is_round, spawn_error, SpawnError};
use crate::text::{count_of, parse_count, parse_quantity, quantity_of};

verus! {

/// The parameters of a round.
#[derive(Clone, Copy, Debug, PartialEq, Eq, Structural)]
pub struct Settings {
    /// How many boxes the round holds.
    pub count: usize,
    /// The side of every box, in grid steps.
    pub size: i32,
    /// The largest speed along one axis that a box starts with, in grid
    /// steps per frame.
    pub speed_limit: i32,
}

/// A key that went down or up.
#[derive(Clone, Copy, Debug, PartialEq, Eq, Structural)]
pub struct KeyEvent {
    /// Whether it is the key that switches dragging on and off.
    pub drag_key: bool,
    /// Whether the key went down.
    pub pressed: bool,
    /// Whether the event comes from a key held down.
    pub repeat: bool,
}

/// The three text fields of a request for a new round.
#[derive(Clone, Debug)]
pub struct RoundRequest {
    pub count: String,
    pub size: String,
    pub speed_limit: String,
}

/// What happened since the last frame.
#[derive(Clone, Debug)]
pub struct FrameInput {
    /// The key events, oldest first.
    pub keys: Vec<KeyEvent>,
    /// The text fields, where the user has asked for a new round.
    pub request: Option<RoundRequest>,
    /// Whether the user has turned the drag switch over by hand.
    pub switch_flipped: bool,
    /// The new drag mode, where the user has chosen one.
    pub drag_mode: Option<DragMode>,
    /// The place of the pointer, while a drag gesture lasts.
    pub pointer: Option<Point>,
}

/// What a frame did.
#[derive(Clone, Copy, Debug, PartialEq, Eq, Structural)]
pub enum Frame {
    /// A new round was started; its boxes have not moved yet.
    Started,
    /// A new round was due and its parameters were refused: there are no
    /// boxes.
    Refused(SpawnError),
    /// The boxes of the running round were moved or dragged.
    Moved,
}

/// The state of a simulation.
#[derive(Clone, Debug)]
pub struct Simulation {
    /// Whether a round is running. Where none is, the next frame starts one.
    pub ready: bool,
    pub settings: Settings,
    pub boxes: Vec<MovingBox>,
    /// Whether a drag gesture takes hold of the boxes.
    pub draggable: bool,
    pub drag_mode: DragMode,
    pub policy: BouncePolicy,
    /// How many grid steps make one unit of the numbers that the user types.
    pub steps_per_unit: u32,
}

/// Whether a key event switches dragging: the drag key going down, not held.
pub open spec fn is_toggle(e: KeyEvent) -> bool {
    e.drag_key && e.pressed && !e.repeat
}

/// The drag switch after a row of key events, each toggle turning it over.
pub open spec fn after_keys(draggable: bool, keys: Seq<KeyEvent>) -> bool
    decreases keys.len(),
{
    if keys.len() == 0 {
        draggable
    } else if is_toggle(keys.last()) {
        !after_keys(draggable, keys.drop_last())
    } else {
        after_keys(draggable, keys.drop_last())
    }
}

/// The settings after a request: each field takes the number that its text
/// holds, and keeps its value where the text holds none.
pub open spec fn requested(
    s: Settings,
    count: Seq<char>,
    size: Seq<char>,
    speed_limit: Seq<char>,
    steps_per_unit: u32,
) -> Settings {
    Settings {
        count: match count_of(count) {
            Some(n) => n,
            None => s.count,
        },
        size: match quantity_of(size, steps_per_unit) {
            Some(v) => v,
            None => s.size,
        },
        speed_limit: match quantity_of(speed_limit, steps_per_unit) {
            Some(v) => v,
            None => s.speed_limit,
        },
    }
}

/// The gesture that takes hold of the boxes in a frame, if any: the pointer
/// of a drag, together with the mode, while dragging is switched on.
pub open spec fn active_drag(draggable: bool, mode: DragMode, pointer: Option<Point>) -> Option<
    (DragMode, Point),
> {
    match pointer {
        Some(p) if draggable => Some((mode, p)),
        _ => None,
    }
}

/// What a frame makes of one box: dragged where a gesture holds it, else
/// advanced by one step.
pub open spec fn framed(
    b: MovingBox,
    bounds: Bounds,
    policy: BouncePolicy,
    drag: Option<(DragMode, Point)>,
) -> MovingBox {
    match drag {
        Some((mode, p)) => dragged(mode, b, p),
        None => advanced(b, bounds, policy),
    }
}

/// A value that the user may have set anew: the new one where there is
/// one, else the one at hand.
pub open spec fn chosen<T>(choice: Option<T>, current: T) -> T {
    match choice {
        Some(v) => v,
        None => current,
    }
}

/// The settings after a frame of a running round.
pub open spec fn settings_after(s: Settings, request: Option<RoundRequest>, steps_per_unit: u32)
    -> Settings {
    match request {
        Some(r) => requested(s, r.count@, r.size@, r.speed_limit@, steps_per_unit),
        None => s,
    }
}

/// **A round keeps its boxes as they were made.** Whatever a frame does to
/// a box, moved or dragged, its side and its colour stay, and a well-formed
/// box stays well formed.
pub proof fn lemma_frame_keeps_box(
    b: MovingBox,
    bounds: Bounds,
    policy: BouncePolicy,
    drag: Option<(DragMode, Point)>,
)
    requires
        b.wf(),
    ensures
        framed(b, bounds, policy, drag).size == b.size,
        framed(b, bounds, policy, drag).color == b.color,
        framed(b, bounds, policy, drag).wf(),
{
    match drag {
        Some((DragMode::Collect, p)) => {},
        Some((DragMode::Follow, p)) => {
            if p.x != b.x || p.y != b.y {
                lemma_follow_keeps_speed(b, p);
            }
        },
        None => {
            lemma_advanced_wf(b, bounds, policy);
        },
    }
}

impl FrameInput {
    /// The input of a frame in which nothing happened.
    pub fn new() -> (input: FrameInput)
        ensures
            input.keys@.len() == 0,
            input.request is None,
            !input.switch_flipped,
            input.drag_mode is None,
            input.pointer is None,
    {
        FrameInput {
            keys: Vec::new(),
            request: None,
            switch_flipped: false,
            drag_mode: None,
            pointer: None,
        }
    }
}

impl Default for Settings {
    /// Ten boxes of side ten, at most one grid step fast along each axis.
    fn default() -> (s: Settings)
        ensures
            s == (Settings { count: 10, size: 10, speed_limit: 1 }),
    {
        Settings { count: 10, size: 10, speed_limit: 1 }
    }
}

impl Settings {
    /// Takes over the numbers of a request, field by field. A text that
    /// holds no number is passed over in silence.
    pub fn set_parameters(
        &mut self,
        count: &str,
        size: &str,
        speed_limit: &str,
        steps_per_unit: u32,
    )
        ensures
            *final(self) == requested(*old(self), count@, size@, speed_limit@, steps_per_unit),
            count_of(count@) is None ==> final(self).count == old(self).count,
            quantity_of(size@, steps_per_unit) is None ==> final(self).size == old(self).size,
            quantity_of(speed_limit@, steps_per_unit) is None ==> final(self).speed_limit == old(
                self,
            ).speed_limit,
    {
        if let Some(n) = parse_count(count) {
            self.count = n;
        }
        if let Some(s) = parse_quantity(size, steps_per_unit) {
            self.size = s;
        }
        if let Some(s) = parse_quantity(speed_limit, steps_per_unit) {
            self.speed_limit = s;
        }
    }
}

impl Default for Simulation {
    /// The simulation before its first frame, as `Simulation::new` makes it.
    fn default() -> (sim: Simulation)
        ensures
            !sim.ready,
            sim.settings == (Settings { count: 10, size: 10, speed_limit: 1 }),
            sim.boxes@.len() == 0,
            sim.draggable,
            sim.drag_mode == DragMode::Collect,
            sim.policy == BouncePolicy::Center,
            sim.steps_per_unit == 1,
            sim.wf(),
    {
        Simulation::new()
    }
}

impl Simulation {
    /// A simulation is well formed when all its boxes are.
    pub open spec fn wf(&self) -> bool {
        all_wf(self.boxes@)
    }

    /// A simulation before its first frame: no round runs yet, the settings
    /// are the default ones, dragging is switched on and collects, boxes
    /// turn around when their centre reaches a border, and one grid step is
    /// one unit.
    pub fn new() -> (sim: Simulation)
        ensures
            !sim.ready,
            sim.settings == (Settings { count: 10, size: 10, speed_limit: 1 }),
            sim.boxes@.len() == 0,
            sim.draggable,
            sim.drag_mode == DragMode::Collect,
            sim.policy == BouncePolicy::Center,
            sim.steps_per_unit == 1,
            sim.wf(),
    {
        Simulation {
            ready: false,
            settings: Settings::default(),
            boxes: Vec::new(),
            draggable: true,
            drag_mode: DragMode::Collect,
            policy: BouncePolicy::Center,
            steps_per_unit: 1,
        }
    }

    /// Takes a request for a new round: the settings take over the numbers
    /// that the texts hold, and the running round is marked as over, so that
    /// the next frame starts a new one. This happens whatever the texts hold.
    /// The boxes stay as they are until then.
    pub fn set_parameters(&mut self, count: &str, size: &str, speed_limit: &str)
        ensures
            final(self).settings == requested(
                old(self).settings,
                count@,
                size@,
                speed_limit@,
                old(self).steps_per_unit,
            ),
            count_of(count@) is None ==> final(self).settings.count == old(self).settings.count,
            !final(self).ready,
            final(self).boxes == old(self).boxes,
            final(self).draggable == old(self).draggable,
            final(self).drag_mode == old(self).drag_mode,
            final(self).policy == old(self).policy,
            final(self).steps_per_unit == old(self).steps_per_unit,
    {
        self.settings.set_parameters(count, size, speed_limit, self.steps_per_unit);
        self.ready = false;
    }

    /// Starts a new round from the settings, in place of the boxes there
    /// were. Where the settings are refused there are no boxes afterwards.
    /// Either way a round is running.
    pub fn start_round(&mut self, bounds: Bounds, palette: &[Rgb]) -> (done: Result<
        (),
        SpawnError,
    >)
        ensures
            final(self).ready,
            final(self).settings == old(self).settings,
            final(self).draggable == old(self).draggable,
            final(self).drag_mode == old(self).drag_mode,
            final(self).policy == old(self).policy,
            final(self).steps_per_unit == old(self).steps_per_unit,
            final(self).wf(),
            match done {
                Ok(_) => {
                    &&& spawn_error(
                        old(self).settings.size as int,
                        old(self).settings.speed_limit as int,
                        bounds,
                        palette@.len() as int,
                    ) is None
                    &&& is_round(
                        final(self).boxes@,
                        old(self).settings.count,
                        old(self).settings.size,
                        old(self).settings.speed_limit,
                        bounds,
                        palette@,
                    )
                },
                Err(e) => {
                    &&& spawn_error(
                        old(self).settings.size as int,
                        old(self).settings.speed_limit as int,
                        bounds,
                        palette@.len() as int,
                    ) == Some(e)
                    &&& final(self).boxes@.len() == 0
                },
            },
    {
        self.ready = true;
        match initialize(
            self.settings.count,
            self.settings.size,
            self.settings.speed_limit,
            bounds,
            palette,
        ) {
            Ok(boxes) => {
                self.boxes = boxes;
                Ok(())
            },
            Err(e) => {
                self.boxes = Vec::new();
                Err(e)
            },
        }
    }

    /// Goes through the key events of a frame and turns the drag switch over
    /// once for every fresh press of the drag key.
    pub fn handle_keys(&mut self, keys: &[KeyEvent])
        ensures
            final(self).draggable == after_keys(old(self).draggable, keys@),
            final(self).ready == old(self).ready,
            final(self).settings == old(self).settings,
            final(self).boxes == old(self).boxes,
            final(self).drag_mode == old(self).drag_mode,
            final(self).policy == old(self).policy,
            final(self).steps_per_unit == old(self).steps_per_unit,
    {
        let n: usize = keys.len();
        let mut i: usize = 0;
        assert(keys@.take(0) =~= Seq::<KeyEvent>::empty());
        while i < n
            invariant
                i <= n,
                n == keys@.len(),
                self.draggable == after_keys(old(self).draggable, keys@.take(i as int)),
                self.ready == old(self).ready,
                self.settings == old(self).settings,
                self.boxes == old(self).boxes,
                self.drag_mode == old(self).drag_mode,
                self.policy == old(self).policy,
                self.steps_per_unit == old(self).steps_per_unit,
            decreases n - i,
        {
            let e = keys[i];
            assert(keys@.take(i + 1).drop_last() =~= keys@.take(i as int));
            if e.drag_key && e.pressed && !e.repeat {
                self.draggable = !self.draggable;
            }
            i += 1;
        }
        assert(keys@.take(n as int) =~= keys@);
    }

    /// Moves the boxes of one frame: dragged where a gesture holds them,
    /// advanced by one step otherwise.
    pub fn move_boxes(&mut self, bounds: Bounds, pointer: Option<Point>)
        requires
            old(self).wf(),
        ensures
            final(self).boxes@.len() == old(self).boxes@.len(),
            forall|i: int|
                0 <= i < old(self).boxes@.len() ==> #[trigger] final(self).boxes@[i] == framed(
                    old(self).boxes@[i],
                    bounds,
                    old(self).policy,
                    active_drag(old(self).draggable, old(self).drag_mode, pointer),
                ),
            final(self).wf(),
            final(self).ready == old(self).ready,
            final(self).settings == old(self).settings,
            final(self).draggable == old(self).draggable,
            final(self).drag_mode == old(self).drag_mode,
            final(self).policy == old(self).policy,
            final(self).steps_per_unit == old(self).steps_per_unit,
    {
        match pointer {
            Some(p) if self.draggable => {
                on_moves(&mut self.boxes, self.drag_mode, p);
            },
            _ => {
                advance(&mut self.boxes, bounds, self.policy);
            },
        }
    }

    /// Takes the simulation through one frame.
    ///
    /// Where no round is running, one is started from the settings and
    /// nothing else happens: the input of that frame is passed over and the
    /// new boxes do not move yet. Otherwise, in this order: the key events
    /// turn the drag switch; a request for a new round is taken, which ends
    /// the running round; the drag switch is turned over once more where the
    /// user has flipped it by hand, and the drag mode that the user has
    /// chosen is taken; and the boxes are moved, dragged where the switch is
    /// on and a gesture lasts, advanced by one step where not.
    pub fn update(&mut self, bounds: Bounds, palette: &[Rgb], input: &FrameInput) -> (frame: Frame)
        requires
            old(self).ready ==> old(self).wf(),
        ensures
            final(self).wf(),
            final(self).policy == old(self).policy,
            final(self).steps_per_unit == old(self).steps_per_unit,
            !old(self).ready ==> {
                &&& final(self).ready
                &&& final(self).settings == old(self).settings
                &&& final(self).draggable == old(self).draggable
                &&& final(self).drag_mode == old(self).drag_mode
                &&& match spawn_error(
                    old(self).settings.size as int,
                    old(self).settings.speed_limit as int,
                    bounds,
                    palette@.len() as int,
                ) {
                    None => {
                        &&& frame == Frame::Started
                        &&& is_round(
                            final(self).boxes@,
                            old(self).settings.count,
                            old(self).settings.size,
                            old(self).settings.speed_limit,
                            bounds,
                            palette@,
                        )
                    },
                    Some(e) => frame == Frame::Refused(e) && final(self).boxes@.len() == 0,
                }
            },
            old(self).ready ==> {
                &&& frame == Frame::Moved
                &&& final(self).ready == (input.request is None)
                &&& final(self).settings == settings_after(
                    old(self).settings,
                    input.request,
                    old(self).steps_per_unit,
                )
                &&& final(self).draggable == (after_keys(old(self).draggable, input.keys@)
                    != input.switch_flipped)
                &&& final(self).drag_mode == chosen(input.drag_mode, old(self).drag_mode)
                &&& final(self).boxes@.len() == old(self).boxes@.len()
                &&& forall|i: int|
                    0 <= i < old(self).boxes@.len() ==> #[trigger] final(self).boxes@[i] == framed(
                        old(self).boxes@[i],
                        bounds,
                        old(self).policy,
                        active_drag(final(self).draggable, final(self).drag_mode, input.pointer),
                    )
            },
    {
        if !self.ready {
            return match self.start_round(bounds, palette) {
                Ok(_) => Frame::Started,
                Err(e) => Frame::Refused(e),
            };
        }
        self.handle_keys(input.keys.as_slice());
        if let Some(r) = &input.request {
            self.set_parameters(r.count.as_str(), r.size.as_str(), r.speed_limit.as_str());
        }
        if input.switch_flipped {
            self.draggable = !self.draggable;
        }
        if let Some(m) = input.drag_mode {
            self.drag_mode = m;
        }
        self.move_boxes(bounds, input.pointer);
        Frame::Moved
    }
}

} // verus!
