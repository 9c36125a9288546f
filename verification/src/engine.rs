//! The show interpreter: runs a show program opcode by opcode, without USB or terminal.

use vstd::prelude::*;

use crate::catalog::{op_refs_known, Catalog, CatalogError, Op, Show, Wait};
use crate::patterns::{
    marquee_left, marquee_right, rotate13, solid, spec_marquee_left, spec_marquee_right,
    spec_rotate13, Packet, DARK, PACKET_LEN,
};

verus! {

/// Full brightness: emitting leaves the packet as it is.
pub const BRIGHTNESS_MAX: u8 = 255;

/// The step of the operator's `<` and `>` keys.
pub const BRIGHTNESS_STEP: u8 = 16;

/// A packet the sequencer should send, and the time (ms) before which the next opcode
/// may not run.
#[derive(Debug, Clone, PartialEq, Eq)]
pub struct Step {
    pub packet: Packet,
    pub deadline: u64,
}

/// Why a show could not go on.
#[derive(Debug, PartialEq, Eq)]
pub enum PlayerError {
    /// The program names a frame the catalog does not hold.
    UnknownFrame { frame: String },
    /// The program names a wait that is not one of the named delays.
    UnknownWait { name: String },
    /// The program ran a whole round of opcodes without emitting a packet.
    NeverEmits { show: String },
}

/// What went wrong, by the names involved.
pub enum PlayerFault {
    UnknownFrame(Seq<char>),
    UnknownWait(Seq<char>),
    NeverEmits(Seq<char>),
}

impl View for PlayerError {
    type V = PlayerFault;

    open spec fn view(&self) -> PlayerFault {
        match self {
            PlayerError::UnknownFrame { frame } => PlayerFault::UnknownFrame(frame@),
            PlayerError::UnknownWait { name } => PlayerFault::UnknownWait(name@),
            PlayerError::NeverEmits { show } => PlayerFault::NeverEmits(show@),
        }
    }
}

/// The operator-facing text of a fault.
pub open spec fn fault_message(f: PlayerFault) -> Seq<char> {
    match f {
        PlayerFault::UnknownFrame(frame) => "unknown frame `"@ + frame + "`"@,
        PlayerFault::UnknownWait(name) => "unknown wait name `"@ + name + "`"@,
        PlayerFault::NeverEmits(show) => "show '"@ + show
            + "' never emits a packet (program is only transforms?)"@,
    }
}

impl PlayerError {
    /// The operator-facing text of the error.
    pub open spec fn spec_message(&self) -> Seq<char> {
        fault_message(self@)
    }

    /// Renders the error for the operator.
    pub fn message(&self) -> (s: String)
        ensures
            s@ == self.spec_message(),
    {
        match self {
            PlayerError::UnknownFrame { frame } => {
                let mut s = String::from_str("unknown frame `");
                s.append(frame.as_str());
                s.append("`");
                s
            },
            PlayerError::UnknownWait { name } => {
                let mut s = String::from_str("unknown wait name `");
                s.append(name.as_str());
                s.append("`");
                s
            },
            PlayerError::NeverEmits { show } => {
                let mut s = String::from_str("show '");
                s.append(show.as_str());
                s.append("' never emits a packet (program is only transforms?)");
                s
            },
        }
    }
}

/// `p` with every byte multiplied by `brightness / 255` (rounded down).
pub open spec fn scaled(p: Seq<u8>, brightness: u8) -> Seq<u8> {
    Seq::new(p.len(), |k: int| (p[k] * brightness / 255) as u8)
}

/// Multiplies RGB by `brightness / 255`: `0` gives dark, `255` gives the packet unchanged.
pub fn scale_rgb(packet: &Packet, brightness: u8) -> (out: Packet)
    ensures
        out@ == scaled(packet@, brightness),
        forall|k: int| 0 <= k < PACKET_LEN ==> #[trigger] out@[k] as int == packet@[k] * brightness
            / 255,
{
    if brightness == 0 {
        assert(DARK@ =~= scaled(packet@, brightness));
        return DARK;
    }
    if brightness == BRIGHTNESS_MAX {
        assert forall|k: int| 0 <= k < PACKET_LEN implies #[trigger] scaled(packet@, brightness)[k]
            == packet@[k] by {
            assert(packet@[k] * 255 / 255 == packet@[k]) by (nonlinear_arith);
        }
        assert(packet@ =~= scaled(packet@, brightness));
        return *packet;
    }
    let mut out = *packet;
    let mut k: usize = 0;
    while k < PACKET_LEN
        invariant
            k <= PACKET_LEN,
            out@.len() == PACKET_LEN,
            forall|m: int| 0 <= m < k ==> out@[m] == scaled(packet@, brightness)[m],
            forall|m: int| k <= m < PACKET_LEN ==> out@[m] == packet@[m],
        decreases PACKET_LEN - k,
    {
        let x = out[k] as u16;
        let b = brightness as u16;
        assert(x * b <= 255 * 255) by (nonlinear_arith)
            requires
                x <= 255,
                b <= 255,
        ;
        assert(x * b / 255 <= 255) by (nonlinear_arith)
            requires
                x * b <= 255 * 255,
        ;
        out[k] = (x * b / 255) as u8;
        k = k + 1;
    }
    proof {
        assert forall|m: int| 0 <= m < PACKET_LEN implies #[trigger] out@[m] as int == packet@[m]
            * brightness / 255 by {
            assert(packet@[m] * brightness <= 255 * 255) by (nonlinear_arith)
                requires
                    packet@[m] <= 255,
                    brightness <= 255,
            ;
            assert(packet@[m] * brightness / 255 <= 255) by (nonlinear_arith)
                requires
                    packet@[m] * brightness <= 255 * 255,
            ;
        }
    }
    assert(out@ =~= scaled(packet@, brightness));
    out
}

/// Brightness 0 darkens every packet; brightness 255 changes none.
pub proof fn lemma_scaled_extremes(p: Seq<u8>)
    requires
        p.len() == PACKET_LEN,
    ensures
        scaled(p, 0) == solid(0),
        scaled(p, 255) == p,
{
    assert forall|k: int| 0 <= k < PACKET_LEN implies #[trigger] scaled(p, 255)[k] == p[k] by {
        assert(p[k] * 255 / 255 == p[k]) by (nonlinear_arith);
    }
    assert(scaled(p, 0) =~= solid(0));
    assert(scaled(p, 255) =~= p);
}

/// Scaling never makes a byte brighter.
pub proof fn lemma_scaled_dims(p: Seq<u8>, b: u8, k: int)
    requires
        0 <= k < p.len(),
    ensures
        scaled(p, b)[k] <= p[k],
{
    assert(p[k] * b <= p[k] * 255) by (nonlinear_arith)
        requires
            b <= 255,
            p[k] >= 0,
    ;
    assert(p[k] * b / 255 <= p[k]) by (nonlinear_arith)
        requires
            p[k] * b <= p[k] * 255,
            p[k] >= 0,
            b >= 0,
    ;
}

/// The state of a player, as the show semantics sees it.
pub struct PlayerView {
    pub program: Seq<Op>,
    pub pc: nat,
    pub looping: bool,
    pub working: Seq<u8>,
    pub brightness: u8,
    pub deadline: Option<u64>,
    pub running: bool,
    pub show_name: Seq<char>,
    pub loop_pass: usize,
}

/// What running the program up to its next wait gives.
pub enum Run {
    /// A packet was emitted, to be held until the deadline; the player's new state.
    Emitted(PlayerView, Seq<u8>, u64),
    /// The program failed; the player's state at that point.
    Failed(PlayerView, PlayerFault),
    /// A one-shot program ran out; the player is idle.
    Stopped(PlayerView),
    /// An opcode that emits nothing ran; the program goes on from this state.
    Moved(PlayerView),
}

/// The idle name shown when no show runs.
pub open spec fn idle_name() -> Seq<char> {
    "IDLE"@
}

/// The player after it stops by itself: not running, no deadline, named idle.
pub open spec fn finished(v: PlayerView) -> PlayerView {
    PlayerView { running: false, deadline: None, show_name: idle_name(), ..v }
}

/// `v` with the program counter one further.
pub open spec fn advanced(v: PlayerView) -> PlayerView {
    PlayerView { pc: v.pc + 1, ..v }
}

/// `now + ms`, or the largest time when that does not fit.
pub open spec fn later(now: u64, ms: u64) -> u64 {
    if now + ms <= u64::MAX {
        (now + ms) as u64
    } else {
        u64::MAX
    }
}

/// Holding `packet` for `wait` from state `v` (whose counter has already moved on).
pub open spec fn hold_for(v: PlayerView, packet: Seq<u8>, wait: Wait, now: u64) -> Run {
    match wait.spec_duration() {
        Some(ms) => Run::Emitted(
            PlayerView { deadline: Some(later(now, ms)), ..v },
            packet,
            later(now, ms),
        ),
        None => Run::Failed(
            v,
            match wait {
                Wait::Named(n) => PlayerFault::UnknownWait(n@),
                Wait::Ms(_) => PlayerFault::UnknownWait(Seq::empty()),
            },
        ),
    }
}

/// One opcode (or the wrap-around at the end of the program) from state `v`, with the
/// catalog's frames `frames`, at time `now`.
pub open spec fn tick(v: PlayerView, frames: Map<Seq<char>, Seq<u8>>, now: u64) -> Run {
    if v.pc >= v.program.len() {
        if v.looping {
            Run::Moved(
                PlayerView {
                    pc: 0,
                    loop_pass: if v.loop_pass == usize::MAX {
                        v.loop_pass
                    } else {
                        (v.loop_pass + 1) as usize
                    },
                    ..v
                },
            )
        } else {
            Run::Stopped(finished(v))
        }
    } else {
        match v.program[v.pc as int] {
            Op::Hold { frame, wait } => if frames.contains_key(frame@) {
                hold_for(advanced(v), scaled(frames[frame@], v.brightness), wait, now)
            } else {
                Run::Failed(v, PlayerFault::UnknownFrame(frame@))
            },
            Op::LoadWorking { frame } => if v.loop_pass != 0 {
                Run::Moved(advanced(v))
            } else if frames.contains_key(frame@) {
                Run::Moved(PlayerView { working: frames[frame@], ..advanced(v) })
            } else {
                Run::Failed(advanced(v), PlayerFault::UnknownFrame(frame@))
            },
            Op::HoldWorking { wait } => hold_for(
                advanced(v),
                scaled(v.working, v.brightness),
                wait,
                now,
            ),
            Op::Rotate13 => Run::Moved(
                PlayerView { working: spec_rotate13(v.working), ..advanced(v) },
            ),
            Op::MarqueeLeft => Run::Moved(
                PlayerView { working: spec_marquee_left(v.working), ..advanced(v) },
            ),
            Op::MarqueeRight => Run::Moved(
                PlayerView { working: spec_marquee_right(v.working), ..advanced(v) },
            ),
        }
    }
}

/// Up to `fuel` ticks from `v`, stopping at the first that does not just move on; when
/// the fuel runs out the show is reported as never emitting.
pub open spec fn run(v: PlayerView, frames: Map<Seq<char>, Seq<u8>>, now: u64, fuel: nat) -> Run
    decreases fuel,
{
    if fuel == 0 {
        Run::Failed(v, PlayerFault::NeverEmits(v.show_name))
    } else {
        match tick(v, frames, now) {
            Run::Moved(next) => run(next, frames, now, (fuel - 1) as nat),
            other => other,
        }
    }
}

/// How many ticks a program of `len` opcodes gets before it counts as never emitting.
pub open spec fn tick_limit(len: nat) -> nat {
    if len * 2 <= usize::MAX {
        if len * 2 >= 1 {
            len * 2
        } else {
            1
        }
    } else {
        usize::MAX as nat
    }
}

/// Running from `v` until the program waits, emits, stops or fails.
pub open spec fn execute(v: PlayerView, frames: Map<Seq<char>, Seq<u8>>, now: u64) -> Run {
    if v.program.len() == 0 {
        Run::Stopped(finished(v))
    } else {
        run(v, frames, now, tick_limit(v.program.len()))
    }
}

/// The player's state after `r`, and what a call that ran `r` returns.
pub open spec fn run_matches(r: Run, after: PlayerView, res: Result<Option<Step>, PlayerError>) -> bool {
    match r {
        Run::Emitted(v, p, d) => {
            &&& after == v
            &&& res matches Ok(Some(step))
            &&& step.packet@ == p
            &&& step.deadline == d
        },
        Run::Failed(v, f) => {
            &&& after == v
            &&& res matches Err(e)
            &&& e@ == f
        },
        Run::Stopped(v) => after == v && res matches Ok(None),
        Run::Moved(v) => false,
    }
}

/// Interprets a show program without talking to USB or the terminal.
#[derive(Debug, Clone)]
pub struct Player {
    program: Vec<Op>,
    pc: usize,
    looping: bool,
    working: Packet,
    brightness: u8,
    deadline: Option<u64>,
    running: bool,
    show_name: String,
    loop_pass: usize,
}

impl View for Player {
    type V = PlayerView;

    closed spec fn view(&self) -> PlayerView {
        PlayerView {
            program: self.program@,
            pc: self.pc as nat,
            looping: self.looping,
            working: self.working@,
            brightness: self.brightness,
            deadline: self.deadline,
            running: self.running,
            show_name: self.show_name@,
            loop_pass: self.loop_pass,
        }
    }
}

/// A player that has never run a show: idle, dark, at full brightness.
pub open spec fn fresh_player(v: PlayerView) -> bool {
    &&& v.program.len() == 0
    &&& v.pc == 0
    &&& !v.looping
    &&& v.working == DARK@
    &&& v.brightness == BRIGHTNESS_MAX
    &&& v.deadline is None
    &&& !v.running
    &&& v.show_name == idle_name()
    &&& v.loop_pass == 0
}

/// The player after `start` loaded `show` and before it runs anything.
pub open spec fn loaded(v: PlayerView, show: Show) -> PlayerView {
    PlayerView {
        program: show.program@,
        pc: 0,
        looping: show.looping,
        working: DARK@,
        brightness: v.brightness,
        deadline: None,
        running: true,
        show_name: show.name@,
        loop_pass: 0,
    }
}

/// The player after `stop`.
pub open spec fn stopped(v: PlayerView) -> PlayerView {
    PlayerView {
        program: Seq::empty(),
        pc: 0,
        looping: false,
        running: false,
        deadline: None,
        show_name: idle_name(),
        ..v
    }
}

/// Whether `advance` at time `now` has anything to do: the show runs and its deadline,
/// if any, has come.
pub open spec fn due(v: PlayerView, now: u64) -> bool {
    v.running && match v.deadline {
        Some(d) => now >= d,
        None => true,
    }
}

impl Default for Player {
    fn default() -> (p: Self)
        ensures
            fresh_player(p@),
    {
        Player {
            program: Vec::new(),
            pc: 0,
            looping: false,
            working: DARK,
            brightness: BRIGHTNESS_MAX,
            deadline: None,
            running: false,
            show_name: String::from_str("IDLE"),
            loop_pass: 0,
        }
    }
}

impl Player {
    /// A player that runs nothing yet.
    pub fn new() -> (p: Self)
        ensures
            fresh_player(p@),
    {
        Self::default()
    }

    /// Whether a show is running.
    pub fn is_running(&self) -> (b: bool)
        ensures
            b == self@.running,
    {
        self.running
    }

    /// Whether a looping show is running.
    pub fn is_looping(&self) -> (b: bool)
        ensures
            b == (self@.running && self@.looping),
    {
        self.running && self.looping
    }

    /// The name of the running show, or `IDLE`.
    pub fn show_name(&self) -> (s: &str)
        ensures
            s@ == self@.show_name,
    {
        self.show_name.as_str()
    }

    /// The time (ms) before which the next opcode may not run.
    pub fn deadline(&self) -> (d: Option<u64>)
        ensures
            d == self@.deadline,
    {
        self.deadline
    }

    /// The current brightness, `0..=255`.
    pub fn brightness(&self) -> (b: u8)
        ensures
            b == self@.brightness,
    {
        self.brightness
    }

    /// Loads `show` and runs it until its first emit (or until it finishes or fails).
    pub fn start(&mut self, show: &Show, catalog: &Catalog, now: u64) -> (res: Result<
        Option<Step>,
        PlayerError,
    >)
        ensures
            run_matches(execute(loaded(old(self)@, *show), catalog@.frames, now), final(self)@, res),
    {
        let program = show.program.clone();
        assert(program@ =~= show.program@);
        self.program = program;
        self.pc = 0;
        self.looping = show.looping;
        self.working = DARK;
        self.running = true;
        self.show_name = show.name.clone();
        self.deadline = None;
        self.loop_pass = 0;
        assert(self@ == loaded(old(self)@, *show));
        self.execute_until_wait(catalog, now)
    }

    /// Stops at once; the sequencer may send an explicit dark packet.
    pub fn stop(&mut self)
        ensures
            final(self)@ == stopped(old(self)@),
    {
        self.program.clear();
        self.pc = 0;
        self.looping = false;
        self.running = false;
        self.deadline = None;
        self.show_name = String::from_str("IDLE");
        assert(self@.program =~= Seq::<Op>::empty());
    }

    /// Runs the show on when `now` has reached the deadline; before that, or when no show
    /// runs, nothing happens.
    pub fn advance(&mut self, catalog: &Catalog, now: u64) -> (res: Result<Option<Step>, PlayerError>)
        ensures
            if due(old(self)@, now) {
                run_matches(execute(old(self)@, catalog@.frames, now), final(self)@, res)
            } else {
                final(self)@ == old(self)@ && res matches Ok(None)
            },
    {
        if !self.running {
            return Ok(None);
        }
        if let Some(deadline) = self.deadline {
            if now < deadline {
                return Ok(None);
            }
        }
        self.execute_until_wait(catalog, now)
    }

    /// One step dimmer, stopping at 0.
    pub fn dimmer(&mut self)
        ensures
            final(self)@ == (PlayerView { brightness: dimmed(old(self)@.brightness), ..old(self)@ }),
    {
        self.brightness = self.brightness.saturating_sub(BRIGHTNESS_STEP);
    }

    /// One step brighter, stopping at 255.
    pub fn brighter(&mut self)
        ensures
            final(self)@ == (PlayerView { brightness: brightened(old(self)@.brightness), ..old(self)@ }),
    {
        self.brightness = self.brightness.saturating_add(BRIGHTNESS_STEP);
    }

    fn finish_idle(&mut self)
        ensures
            final(self)@ == finished(old(self)@),
    {
        self.running = false;
        self.deadline = None;
        self.show_name = String::from_str("IDLE");
    }

    fn emit_frame(&self, catalog: &Catalog, frame: &String) -> (res: Result<Packet, PlayerError>)
        ensures
            match res {
                Ok(p) => catalog@.frames.contains_key(frame@) && p@ == scaled(
                    catalog@.frames[frame@],
                    self@.brightness,
                ),
                Err(e) => !catalog@.frames.contains_key(frame@) && e@ == PlayerFault::UnknownFrame(
                    frame@,
                ),
            },
    {
        match catalog.frame(frame.as_str()) {
            Some(packet) => Ok(scale_rgb(packet, self.brightness)),
            None => Err(PlayerError::UnknownFrame { frame: frame.clone() }),
        }
    }

    fn hold(&mut self, packet: Packet, wait: &Wait, now: u64) -> (res: Result<Step, PlayerError>)
        ensures
            match hold_for(old(self)@, packet@, *wait, now) {
                Run::Emitted(v, p, d) => {
                    &&& final(self)@ == v
                    &&& res matches Ok(step)
                    &&& step.packet@ == p
                    &&& step.deadline == d
                },
                Run::Failed(v, f) => {
                    &&& final(self)@ == v
                    &&& res matches Err(e)
                    &&& e@ == f
                },
                _ => false,
            },
    {
        match wait.duration() {
            Ok(ms) => {
                let deadline = now.saturating_add(ms);
                self.deadline = Some(deadline);
                Ok(Step { packet, deadline })
            },
            Err(CatalogError::UnknownWait { name }) => Err(PlayerError::UnknownWait { name }),
            Err(_) => {
                assert(false);
                Err(PlayerError::UnknownWait { name: String::new() })
            },
        }
    }

    fn execute_until_wait(&mut self, catalog: &Catalog, now: u64) -> (res: Result<
        Option<Step>,
        PlayerError,
    >)
        ensures
            run_matches(execute(old(self)@, catalog@.frames, now), final(self)@, res),
    {
        if self.program.len() == 0 {
            self.finish_idle();
            return Ok(None);
        }
        let len = self.program.len();
        let limit: usize = if len <= usize::MAX / 2 {
            len * 2
        } else {
            usize::MAX
        };
        let ghost frames = catalog@.frames;
        let ghost total = run(old(self)@, frames, now, limit as nat);
        assert(limit as nat == tick_limit(len as nat));
        assert(total == execute(old(self)@, frames, now));
        let mut n: usize = 0;
        while n < limit
            invariant
                n <= limit,
                frames == catalog@.frames,
                total == execute(old(self)@, frames, now),
                total == run(self@, frames, now, (limit - n) as nat),
            decreases limit - n,
        {
            let ghost before = self@;
            if self.pc >= self.program.len() {
                if self.looping {
                    self.pc = 0;
                    self.loop_pass = self.loop_pass.saturating_add(1);
                    assert(tick(before, frames, now) == Run::Moved(self@));
                    n = n + 1;
                    continue;
                }
                self.finish_idle();
                assert(tick(before, frames, now) == Run::Stopped(self@));
                return Ok(None);
            }
            let op = self.program[self.pc].clone();
            match op {
                Op::Hold { frame, wait } => {
                    let packet = match self.emit_frame(catalog, &frame) {
                        Ok(p) => p,
                        Err(e) => {
                            return Err(e);
                        },
                    };
                    self.pc = self.pc + 1;
                    assert(self@ == advanced(before));
                    let step = self.hold(packet, &wait, now);
                    return match step {
                        Ok(s) => Ok(Some(s)),
                        Err(e) => Err(e),
                    };
                },
                Op::LoadWorking { frame } => {
                    self.pc = self.pc + 1;
                    if self.loop_pass == 0 {
                        match catalog.frame(frame.as_str()) {
                            Some(p) => {
                                self.working = *p;
                            },
                            None => {
                                return Err(PlayerError::UnknownFrame { frame: frame.clone() });
                            },
                        }
                    }
                },
                Op::HoldWorking { wait } => {
                    let packet = scale_rgb(&self.working, self.brightness);
                    self.pc = self.pc + 1;
                    assert(self@ == advanced(before));
                    assert(packet@ == scaled(before.working, before.brightness));
                    assert(tick(before, frames, now) == hold_for(advanced(before), packet@, wait, now));
                    let step = self.hold(packet, &wait, now);
                    return match step {
                        Ok(s) => Ok(Some(s)),
                        Err(e) => Err(e),
                    };
                },
                Op::Rotate13 => {
                    rotate13(&mut self.working);
                    self.pc = self.pc + 1;
                },
                Op::MarqueeLeft => {
                    marquee_left(&mut self.working);
                    self.pc = self.pc + 1;
                },
                Op::MarqueeRight => {
                    marquee_right(&mut self.working);
                    self.pc = self.pc + 1;
                },
            }
            assert(tick(before, frames, now) == Run::Moved(self@));
            n = n + 1;
        }
        Err(PlayerError::NeverEmits { show: self.show_name.clone() })
    }
}

/// One brightness step down, stopping at 0.
pub open spec fn dimmed(b: u8) -> u8 {
    if b >= BRIGHTNESS_STEP {
        (b - BRIGHTNESS_STEP) as u8
    } else {
        0
    }
}

/// One brightness step up, stopping at 255.
pub open spec fn brightened(b: u8) -> u8 {
    if b + BRIGHTNESS_STEP <= BRIGHTNESS_MAX {
        (b + BRIGHTNESS_STEP) as u8
    } else {
        BRIGHTNESS_MAX
    }
}

/// A step brighter undoes a step dimmer unless the dimming stopped at 0, and a step dimmer
/// undoes a step brighter unless the brightening stopped at 255.
pub proof fn lemma_brightness_steps_undo(b: u8)
    ensures
        b >= BRIGHTNESS_STEP ==> brightened(dimmed(b)) == b,
        b + BRIGHTNESS_STEP <= BRIGHTNESS_MAX ==> dimmed(brightened(b)) == b,
{
}

/// Sixteen steps dimmer from any brightness reach 0, and sixteen steps brighter reach 255.
pub proof fn lemma_brightness_steps_saturate(b: u8)
    ensures
        dimmed(dimmed(dimmed(dimmed(dimmed(dimmed(dimmed(dimmed(dimmed(dimmed(dimmed(dimmed(
            dimmed(dimmed(dimmed(dimmed(b)))))))))))))))) == 0,
        brightened(brightened(brightened(brightened(brightened(brightened(brightened(brightened(
            brightened(brightened(brightened(brightened(brightened(brightened(brightened(
            brightened(b)))))))))))))))) == BRIGHTNESS_MAX,
{
}

/// A player that was stopped does nothing when asked to run on, whatever the time.
pub proof fn lemma_stopped_is_inert(v: PlayerView, now: u64)
    ensures
        !due(stopped(v), now),
        !due(finished(v), now),
{
}

/// One tick keeps the program, the looping flag, the brightness and the name of the show,
/// unless it finishes the show.
proof fn lemma_tick_keeps(v: PlayerView, frames: Map<Seq<char>, Seq<u8>>, now: u64)
    ensures
        match tick(v, frames, now) {
            Run::Moved(w) => w.looping == v.looping && w.program == v.program && w.running
                == v.running && w.brightness == v.brightness && w.show_name == v.show_name,
            Run::Stopped(w) => !v.looping,
            _ => true,
        },
{
}

proof fn lemma_run_looping_never_stops(
    v: PlayerView,
    frames: Map<Seq<char>, Seq<u8>>,
    now: u64,
    fuel: nat,
)
    requires
        v.looping,
    ensures
        !(run(v, frames, now, fuel) is Stopped),
    decreases fuel,
{
    if fuel > 0 {
        lemma_tick_keeps(v, frames, now);
        if let Run::Moved(w) = tick(v, frames, now) {
            lemma_run_looping_never_stops(w, frames, now, (fuel - 1) as nat);
        }
    }
}

/// A looping show with opcodes never stops by itself: running it on either emits or fails.
pub proof fn lemma_looping_show_never_stops(v: PlayerView, frames: Map<Seq<char>, Seq<u8>>, now: u64)
    requires
        v.looping,
        v.program.len() > 0,
    ensures
        !(execute(v, frames, now) is Stopped),
{
    lemma_run_looping_never_stops(v, frames, now, tick_limit(v.program.len()));
}

/// An emitted packet is held until `now` plus its wait: the new deadline is the one the
/// step reports, it is no earlier than `now`, and the show goes on running.
pub proof fn lemma_emit_sets_deadline(v: PlayerView, frames: Map<Seq<char>, Seq<u8>>, now: u64, fuel: nat)
    requires
        v.running,
    ensures
        run(v, frames, now, fuel) matches Run::Emitted(w, p, d) ==> w.deadline == Some(d) && d
            >= now && w.running,
    decreases fuel,
{
    if fuel > 0 {
        lemma_tick_keeps(v, frames, now);
        if let Run::Moved(w) = tick(v, frames, now) {
            lemma_emit_sets_deadline(w, frames, now, (fuel - 1) as nat);
        }
    }
}

proof fn lemma_run_known_refs(v: PlayerView, frames: Map<Seq<char>, Seq<u8>>, now: u64, fuel: nat)
    requires
        forall|j: int| 0 <= j < v.program.len() ==> op_refs_known(frames, #[trigger] v.program[j]),
    ensures
        run(v, frames, now, fuel) matches Run::Failed(w, f) ==> f is NeverEmits,
    decreases fuel,
{
    if fuel > 0 {
        lemma_tick_keeps(v, frames, now);
        if v.pc < v.program.len() {
            assert(op_refs_known(frames, v.program[v.pc as int]));
        }
        if let Run::Moved(w) = tick(v, frames, now) {
            lemma_run_known_refs(w, frames, now, (fuel - 1) as nat);
        }
    }
}

/// A show whose frames and wait names are all known (as in a checked catalog) never
/// fails on an unknown frame or wait: the only way it can fail is by never emitting.
pub proof fn lemma_known_refs_only_fail_by_never_emitting(
    v: PlayerView,
    frames: Map<Seq<char>, Seq<u8>>,
    now: u64,
)
    requires
        forall|j: int| 0 <= j < v.program.len() ==> op_refs_known(frames, #[trigger] v.program[j]),
    ensures
        execute(v, frames, now) matches Run::Failed(w, f) ==> f is NeverEmits,
{
    if v.program.len() > 0 {
        lemma_run_known_refs(v, frames, now, tick_limit(v.program.len()));
    }
}

/// Starting a show forgets the previous one: what `start` loads depends on the player
/// only through its brightness.
pub proof fn lemma_start_forgets_previous_show(v1: PlayerView, v2: PlayerView, show: Show)
    requires
        v1.brightness == v2.brightness,
    ensures
        loaded(v1, show) == loaded(v2, show),
{
}

/// A scaled byte never exceeds the brightness it was scaled by.
proof fn lemma_scaled_at_most(p: Seq<u8>, b: u8, k: int)
    requires
        0 <= k < p.len(),
    ensures
        scaled(p, b)[k] <= b,
{
    assert(p[k] * b <= 255 * b) by (nonlinear_arith)
        requires
            p[k] <= 255,
            b >= 0,
    ;
    assert(p[k] * b / 255 <= b) by (nonlinear_arith)
        requires
            p[k] * b <= 255 * b,
            p[k] >= 0,
            b >= 0,
    ;
}

/// Scaling by full brightness changes nothing, whatever the length.
proof fn lemma_scaled_full(p: Seq<u8>)
    ensures
        scaled(p, 255) == p,
{
    assert forall|k: int| 0 <= k < p.len() implies #[trigger] scaled(p, 255)[k] == p[k] by {
        assert(p[k] * 255 / 255 == p[k]) by (nonlinear_arith);
    }
    assert(scaled(p, 255) =~= p);
}

proof fn lemma_run_emits_dimmed(v: PlayerView, frames: Map<Seq<char>, Seq<u8>>, now: u64, fuel: nat)
    ensures
        run(v, frames, now, fuel) matches Run::Emitted(w, p, d) ==> forall|k: int|
            0 <= k < p.len() ==> #[trigger] p[k] <= v.brightness,
    decreases fuel,
{
    if fuel > 0 {
        lemma_tick_keeps(v, frames, now);
        match tick(v, frames, now) {
            Run::Moved(w) => {
                lemma_run_emits_dimmed(w, frames, now, (fuel - 1) as nat);
            },
            Run::Emitted(w, p, d) => {
                let src = if v.pc < v.program.len() {
                    match v.program[v.pc as int] {
                        Op::Hold { frame, wait } => frames[frame@],
                        _ => v.working,
                    }
                } else {
                    v.working
                };
                assert(p == scaled(src, v.brightness));
                assert forall|k: int| 0 <= k < p.len() implies #[trigger] p[k] <= v.brightness by {
                    lemma_scaled_at_most(src, v.brightness, k);
                }
            },
            _ => {},
        }
    }
}

/// Every packet a show emits, from a frame or from the working buffer, is dimmed to the
/// player's brightness: no byte exceeds it, so at brightness 0 every emitted packet is dark.
pub proof fn lemma_emitted_packets_are_dimmed(v: PlayerView, frames: Map<Seq<char>, Seq<u8>>, now: u64)
    ensures
        execute(v, frames, now) matches Run::Emitted(w, p, d) ==> forall|k: int|
            0 <= k < p.len() ==> #[trigger] p[k] <= v.brightness,
        v.brightness == 0 ==> (execute(v, frames, now) matches Run::Emitted(w, p, d) ==> forall|
            k: int,
        | 0 <= k < p.len() ==> #[trigger] p[k] == 0),
{
    if v.program.len() > 0 {
        lemma_run_emits_dimmed(v, frames, now, tick_limit(v.program.len()));
    }
}

/// `v` at brightness `b`.
pub open spec fn at_brightness(v: PlayerView, b: u8) -> PlayerView {
    PlayerView { brightness: b, ..v }
}

proof fn lemma_tick_brightness(v: PlayerView, b: u8, frames: Map<Seq<char>, Seq<u8>>, now: u64)
    ensures
        match tick(at_brightness(v, 255), frames, now) {
            Run::Emitted(w, q, d) => tick(at_brightness(v, b), frames, now) == Run::Emitted(
                at_brightness(w, b),
                scaled(q, b),
                d,
            ),
            Run::Failed(w, f) => tick(at_brightness(v, b), frames, now) == Run::Failed(
                at_brightness(w, b),
                f,
            ),
            Run::Stopped(w) => tick(at_brightness(v, b), frames, now) == Run::Stopped(
                at_brightness(w, b),
            ),
            Run::Moved(w) => tick(at_brightness(v, b), frames, now) == Run::Moved(
                at_brightness(w, b),
            ),
        },
{
    let u = at_brightness(v, b);
    let f = at_brightness(v, 255);
    lemma_scaled_full(v.working);
    if v.pc < v.program.len() {
        match v.program[v.pc as int] {
            Op::Hold { frame, wait } => {
                lemma_scaled_full(frames[frame@]);
                assert(advanced(u) == at_brightness(advanced(f), b));
            },
            Op::HoldWorking { wait } => {
                assert(advanced(u) == at_brightness(advanced(f), b));
            },
            Op::LoadWorking { frame } => {
                assert(advanced(u) == at_brightness(advanced(f), b));
            },
            _ => {
                assert(advanced(u) == at_brightness(advanced(f), b));
            },
        }
    }
}

proof fn lemma_run_brightness(v: PlayerView, b: u8, frames: Map<Seq<char>, Seq<u8>>, now: u64, fuel: nat)
    ensures
        match run(at_brightness(v, 255), frames, now, fuel) {
            Run::Emitted(w, q, d) => run(at_brightness(v, b), frames, now, fuel) == Run::Emitted(
                at_brightness(w, b),
                scaled(q, b),
                d,
            ),
            Run::Failed(w, f) => run(at_brightness(v, b), frames, now, fuel) == Run::Failed(
                at_brightness(w, b),
                f,
            ),
            Run::Stopped(w) => run(at_brightness(v, b), frames, now, fuel) == Run::Stopped(
                at_brightness(w, b),
            ),
            Run::Moved(w) => true,
        },
    decreases fuel,
{
    if fuel > 0 {
        lemma_tick_brightness(v, b, frames, now);
        lemma_tick_keeps(at_brightness(v, 255), frames, now);
        if let Run::Moved(w) = tick(at_brightness(v, 255), frames, now) {
            assert(at_brightness(w, 255) == w);
            lemma_run_brightness(w, b, frames, now, (fuel - 1) as nat);
        }
    } else {
        assert(at_brightness(at_brightness(v, 255), b) == at_brightness(v, b));
    }
}

/// Brightness only dims what a show emits: the same player at brightness `b` runs exactly
/// as at full brightness, except that each emitted packet is the full-brightness packet
/// scaled by `b`.
pub proof fn lemma_brightness_only_scales(
    v: PlayerView,
    b: u8,
    frames: Map<Seq<char>, Seq<u8>>,
    now: u64,
)
    ensures
        match execute(at_brightness(v, 255), frames, now) {
            Run::Emitted(w, q, d) => execute(at_brightness(v, b), frames, now) == Run::Emitted(
                at_brightness(w, b),
                scaled(q, b),
                d,
            ),
            Run::Failed(w, f) => execute(at_brightness(v, b), frames, now) == Run::Failed(
                at_brightness(w, b),
                f,
            ),
            Run::Stopped(w) => execute(at_brightness(v, b), frames, now) == Run::Stopped(
                at_brightness(w, b),
            ),
            Run::Moved(w) => true,
        },
{
    if v.program.len() > 0 {
        lemma_run_brightness(v, b, frames, now, tick_limit(v.program.len()));
    } else {
        assert(finished(at_brightness(v, b)) == at_brightness(finished(at_brightness(v, 255)), b));
    }
}

proof fn lemma_run_keeps_name(v: PlayerView, frames: Map<Seq<char>, Seq<u8>>, now: u64, fuel: nat)
    ensures
        run(v, frames, now, fuel) matches Run::Emitted(w, p, d) ==> w.show_name == v.show_name
            && w.running == v.running && w.looping == v.looping,
    decreases fuel,
{
    if fuel > 0 {
        lemma_tick_keeps(v, frames, now);
        if let Run::Moved(w) = tick(v, frames, now) {
            lemma_run_keeps_name(w, frames, now, (fuel - 1) as nat);
        }
    }
}

/// Emitting keeps the show's name, its running flag and its looping flag.
pub proof fn lemma_emit_keeps_name(v: PlayerView, frames: Map<Seq<char>, Seq<u8>>, now: u64)
    ensures
        execute(v, frames, now) matches Run::Emitted(w, p, d) ==> w.show_name == v.show_name
            && w.running == v.running && w.looping == v.looping,
{
    if v.program.len() > 0 {
        lemma_run_keeps_name(v, frames, now, tick_limit(v.program.len()));
    }
}

proof fn lemma_run_not_moved(v: PlayerView, frames: Map<Seq<char>, Seq<u8>>, now: u64, fuel: nat)
    ensures
        !(run(v, frames, now, fuel) is Moved),
    decreases fuel,
{
    if fuel > 0 {
        if let Run::Moved(w) = tick(v, frames, now) {
            lemma_run_not_moved(w, frames, now, (fuel - 1) as nat);
        }
    }
}

/// Running a show always ends in an emit, a stop or a failure.
pub proof fn lemma_execute_settles(v: PlayerView, frames: Map<Seq<char>, Seq<u8>>, now: u64)
    ensures
        !(execute(v, frames, now) is Moved),
{
    if v.program.len() > 0 {
        lemma_run_not_moved(v, frames, now, tick_limit(v.program.len()));
    }
}

} // verus!
