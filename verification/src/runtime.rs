//! The operator sequencer: keys, deadlines and USB reports in; packets and dashboard out.

use vstd::prelude::*;

use crate::catalog::{Catalog, CatalogView};
use crate::engine::{
    due, execute, fault_message, fresh_player, loaded, stopped, dimmed, brightened, Player,
    PlayerView, Run,
};
use crate::patterns::{Packet, DARK};
use crate::term::{ready_message, LoopStatus, UiState, UiView};
use crate::text::{decimal, push_decimal};

verus! {

/// A key press handed to the sequencer: a character, or the quit chord.
#[derive(Debug, Clone, Copy, PartialEq, Eq, Structural)]
pub enum KeyCmd {
    Char(char),
    Quit,
}

/// What the USB writer reports about one packet.
#[derive(Debug, Clone, PartialEq, Eq)]
pub enum UsbReport {
    Sent,
    Failed(String),
}

/// Whether the program goes on after a key.
#[derive(Debug, Clone, Copy, PartialEq, Eq, Structural)]
pub enum SeqOutcome {
    Continue,
    Quit,
}

/// Owns show playback, brightness, and the dashboard state.
pub struct Sequencer {
    catalog: Catalog,
    player: Player,
    ui: UiState,
}

/// What a sequencer holds: its catalog, its player and its dashboard.
pub struct SequencerView {
    pub catalog: CatalogView,
    pub player: PlayerView,
    pub ui: UiView,
}

impl View for Sequencer {
    type V = SequencerView;

    closed spec fn view(&self) -> SequencerView {
        SequencerView { catalog: self.catalog@, player: self.player@, ui: self.ui@ }
    }
}

/// The bytes of an optional packet.
pub open spec fn packet_view(p: Option<Packet>) -> Option<Seq<u8>> {
    match p {
        Some(x) => Some(x@),
        None => None,
    }
}

/// The dashboard going idle with `message`, or the ready message when there is none.
pub open spec fn idled(u: UiView, message: Option<Seq<char>>) -> UiView {
    UiView {
        current_routine: "IDLE"@,
        loop_status: LoopStatus::Idle,
        status_message: Some(
            match message {
                Some(m) => m,
                None => ready_message(),
            },
        ),
        ..u
    }
}

/// The packet counter after one more packet (it stops at its largest value).
pub open spec fn counted(count: u64) -> u64 {
    if count == u64::MAX {
        count
    } else {
        (count + 1) as u64
    }
}

/// The dashboard after packet `p` was handed out.
pub open spec fn noted(u: UiView, p: Seq<u8>) -> UiView {
    UiView { last_packet: p, packet_count: counted(u.packet_count), ..u }
}

/// The dashboard showing the routine that player `v` runs.
pub open spec fn synced(u: UiView, v: PlayerView) -> UiView {
    UiView {
        current_routine: v.show_name,
        loop_status: if v.running && v.looping {
            LoopStatus::Looping
        } else {
            LoopStatus::Idle
        },
        ..u
    }
}

/// The dashboard reporting an error.
pub open spec fn errored(u: UiView, message: Seq<char>) -> UiView {
    UiView { is_error: true, status_message: Some(message), ..u }
}

/// Starting the show bound to `key`, if there is one.
pub open spec fn start_show_spec(s: SequencerView, key: char, now: u64) -> (
    SequencerView,
    SeqOutcome,
    Option<Seq<u8>>,
) {
    if !s.catalog.shows.contains_key(key) {
        (s, SeqOutcome::Continue, None)
    } else {
        let show = s.catalog.shows[key];
        match execute(loaded(s.player, show), s.catalog.frames, now) {
            Run::Emitted(v, p, d) => (
                SequencerView {
                    player: v,
                    ui: noted(
                        UiView {
                            status_message: Some("Playing "@ + show.name@),
                            is_error: false,
                            ..synced(s.ui, v)
                        },
                        p,
                    ),
                    ..s
                },
                SeqOutcome::Continue,
                Some(p),
            ),
            Run::Stopped(v) => (
                SequencerView {
                    player: v,
                    ui: idled(s.ui, Some(show.name@ + " produced no packets"@)),
                    ..s
                },
                SeqOutcome::Continue,
                None,
            ),
            Run::Failed(v, f) => (
                SequencerView { player: v, ui: errored(s.ui, fault_message(f)), ..s },
                SeqOutcome::Continue,
                None,
            ),
            Run::Moved(v) => (s, SeqOutcome::Continue, None),
        }
    }
}

/// What a key does: `Quit` and `.` stop and quit; `,` stops and darkens; `<` and `>`
/// change the brightness; any other key starts the show bound to it, if any.
pub open spec fn on_key_spec(s: SequencerView, cmd: KeyCmd, now: u64) -> (
    SequencerView,
    SeqOutcome,
    Option<Seq<u8>>,
) {
    match cmd {
        KeyCmd::Quit => (
            SequencerView { player: stopped(s.player), ui: idled(s.ui, None), ..s },
            SeqOutcome::Quit,
            None,
        ),
        KeyCmd::Char(c) => if c == '.' {
            (
                SequencerView {
                    player: stopped(s.player),
                    ui: idled(
                        UiView { last_key: Some('.'), ..s.ui },
                        Some("Shutting down..."@),
                    ),
                    ..s
                },
                SeqOutcome::Quit,
                None,
            )
        } else if c == ',' {
            (
                SequencerView {
                    player: stopped(s.player),
                    ui: noted(
                        idled(UiView { last_key: Some(','), ..s.ui }, Some("Stopped"@)),
                        DARK@,
                    ),
                    ..s
                },
                SeqOutcome::Continue,
                Some(DARK@),
            )
        } else if c == '<' {
            let b = dimmed(s.player.brightness);
            (
                SequencerView {
                    player: PlayerView { brightness: b, ..s.player },
                    ui: UiView {
                        last_key: Some('<'),
                        status_message: Some("Brightness "@ + decimal(b as nat)),
                        is_error: false,
                        ..s.ui
                    },
                    ..s
                },
                SeqOutcome::Continue,
                None,
            )
        } else if c == '>' {
            let b = brightened(s.player.brightness);
            (
                SequencerView {
                    player: PlayerView { brightness: b, ..s.player },
                    ui: UiView {
                        last_key: Some('>'),
                        status_message: Some("Brightness "@ + decimal(b as nat)),
                        is_error: false,
                        ..s.ui
                    },
                    ..s
                },
                SeqOutcome::Continue,
                None,
            )
        } else {
            start_show_spec(SequencerView { ui: UiView { last_key: Some(c), ..s.ui }, ..s }, c, now)
        },
    }
}

/// What a tick at time `now` does: runs the show on when it is due, and shows the
/// dashboard idle when no show runs.
pub open spec fn on_tick_spec(s: SequencerView, now: u64) -> (SequencerView, Option<Seq<u8>>) {
    if due(s.player, now) {
        match execute(s.player, s.catalog.frames, now) {
            Run::Emitted(v, p, d) => (
                SequencerView { player: v, ui: noted(synced(s.ui, v), p), ..s },
                Some(p),
            ),
            Run::Stopped(v) => (
                SequencerView {
                    player: v,
                    ui: if !v.running {
                        idled(s.ui, s.ui.status_message)
                    } else {
                        s.ui
                    },
                    ..s
                },
                None,
            ),
            Run::Failed(v, f) => (
                SequencerView { player: v, ui: errored(s.ui, fault_message(f)), ..s },
                None,
            ),
            Run::Moved(v) => (s, None),
        }
    } else {
        (
            SequencerView {
                ui: if !s.player.running {
                    idled(s.ui, s.ui.status_message)
                } else {
                    s.ui
                },
                ..s
            },
            None,
        )
    }
}

impl Sequencer {
    /// A sequencer for `catalog`, with nothing playing; the dashboard says whether a
    /// device is connected, and that nothing can play when the catalog has no show.
    pub fn new(catalog: Catalog, device_connected: bool, ui: UiState) -> (s: Self)
        ensures
            s@.catalog == catalog@,
            fresh_player(s@.player),
            s@.ui == (UiView {
                device_connected,
                status_message: if catalog@.shows.dom().len() == 0 {
                    Some("No shows loaded \u{2014} idle"@)
                } else {
                    ui@.status_message
                },
                ..ui@
            }),
    {
        let mut ui = ui;
        ui.device_connected = device_connected;
        if catalog.is_empty() {
            ui.status_message = Some(String::from_str("No shows loaded \u{2014} idle"));
        }
        Sequencer { catalog, player: Player::new(), ui }
    }

    /// A copy of the dashboard state.
    pub fn snapshot(&self) -> (u: UiState)
        ensures
            u@ == self@.ui,
    {
        self.ui.copy()
    }

    /// When the running show next needs a tick.
    pub fn deadline(&self) -> (d: Option<u64>)
        ensures
            d == self@.player.deadline,
    {
        self.player.deadline()
    }

    /// How long (ms) from `now` until the running show needs a tick: zero when the
    /// deadline has passed, `None` when nothing waits.
    pub fn time_to_deadline(&self, now: u64) -> (w: Option<u64>)
        ensures
            w == (match self@.player.deadline {
                Some(d) => Some(if d > now {
                    (d - now) as u64
                } else {
                    0u64
                }),
                None => None::<u64>,
            }),
    {
        match self.player.deadline() {
            Some(d) => Some(d.saturating_sub(now)),
            None => None,
        }
    }

    /// Handles a key at once, even in the middle of a cue; returns whether to go on and
    /// the packet to send, if any.
    pub fn on_key(&mut self, cmd: KeyCmd, now: u64) -> (res: (SeqOutcome, Option<Packet>))
        ensures
            ({
                let r = on_key_spec(old(self)@, cmd, now);
                &&& final(self)@ == r.0
                &&& res.0 == r.1
                &&& packet_view(res.1) == r.2
            }),
    {
        match cmd {
            KeyCmd::Quit => {
                self.player.stop();
                self.idle_ui(None);
                (SeqOutcome::Quit, None)
            },
            KeyCmd::Char(c) => {
                if c == '.' {
                    self.player.stop();
                    self.ui.last_key = Some('.');
                    self.idle_ui(Some(String::from_str("Shutting down...")));
                    (SeqOutcome::Quit, None)
                } else if c == ',' {
                    self.ui.last_key = Some(',');
                    self.player.stop();
                    self.idle_ui(Some(String::from_str("Stopped")));
                    (SeqOutcome::Continue, Some(self.note_packet(DARK)))
                } else if c == '<' {
                    self.ui.last_key = Some('<');
                    self.player.dimmer();
                    self.ui.status_message = Some(brightness_message(self.player.brightness()));
                    self.ui.is_error = false;
                    (SeqOutcome::Continue, None)
                } else if c == '>' {
                    self.ui.last_key = Some('>');
                    self.player.brighter();
                    self.ui.status_message = Some(brightness_message(self.player.brightness()));
                    self.ui.is_error = false;
                    (SeqOutcome::Continue, None)
                } else {
                    self.ui.last_key = Some(c);
                    self.start_show(c, now)
                }
            },
        }
    }

    /// Runs the player on when its deadline has come; returns the packet to send, if any.
    pub fn on_tick(&mut self, now: u64) -> (res: Option<Packet>)
        ensures
            ({
                let r = on_tick_spec(old(self)@, now);
                &&& final(self)@ == r.0
                &&& packet_view(res) == r.1
            }),
    {
        match self.player.advance(&self.catalog, now) {
            Ok(Some(step)) => {
                self.sync_routine_ui();
                Some(self.note_packet(step.packet))
            },
            Ok(None) => {
                if !self.player.is_running() {
                    let message = match &self.ui.status_message {
                        Some(m) => Some(m.clone()),
                        None => None,
                    };
                    self.idle_ui(message);
                }
                None
            },
            Err(err) => {
                self.ui.is_error = true;
                self.ui.status_message = Some(err.message());
                None
            },
        }
    }

    /// Records what the USB writer reported: an error is shown; success after an error
    /// clears it.
    pub fn on_usb(&mut self, report: UsbReport)
        ensures
            final(self)@ == (match report {
                UsbReport::Sent => if old(self)@.ui.is_error {
                    SequencerView {
                        ui: UiView {
                            is_error: false,
                            status_message: Some("USB recovered"@),
                            ..old(self)@.ui
                        },
                        ..old(self)@
                    }
                } else {
                    old(self)@
                },
                UsbReport::Failed(msg) => SequencerView { ui: errored(old(self)@.ui, msg@), ..old(self)@ },
            }),
    {
        match report {
            UsbReport::Sent => {
                if self.ui.is_error {
                    self.ui.is_error = false;
                    self.ui.status_message = Some(String::from_str("USB recovered"));
                }
            },
            UsbReport::Failed(msg) => {
                self.ui.is_error = true;
                self.ui.status_message = Some(msg);
            },
        }
    }

    fn start_show(&mut self, key: char, now: u64) -> (res: (SeqOutcome, Option<Packet>))
        ensures
            ({
                let r = start_show_spec(old(self)@, key, now);
                &&& final(self)@ == r.0
                &&& res.0 == r.1
                &&& packet_view(res.1) == r.2
            }),
    {
        let show = match self.catalog.show_for_key(key) {
            Some(show) => show,
            None => {
                return (SeqOutcome::Continue, None);
            },
        };
        match self.player.start(show, &self.catalog, now) {
            Ok(Some(step)) => {
                let mut message = String::from_str("Playing ");
                message.append(show.name.as_str());
                self.sync_routine_ui();
                self.ui.status_message = Some(message);
                self.ui.is_error = false;
                (SeqOutcome::Continue, Some(self.note_packet(step.packet)))
            },
            Ok(None) => {
                let mut message = show.name.clone();
                message.append(" produced no packets");
                self.idle_ui(Some(message));
                (SeqOutcome::Continue, None)
            },
            Err(err) => {
                self.ui.is_error = true;
                self.ui.status_message = Some(err.message());
                (SeqOutcome::Continue, None)
            },
        }
    }

    fn sync_routine_ui(&mut self)
        ensures
            final(self)@ == (SequencerView { ui: synced(old(self)@.ui, old(self)@.player), ..old(self)@ }),
    {
        self.ui.current_routine = String::from_str(self.player.show_name());
        self.ui.loop_status = if self.player.is_looping() {
            LoopStatus::Looping
        } else {
            LoopStatus::Idle
        };
    }

    fn idle_ui(&mut self, message: Option<String>)
        ensures
            final(self)@ == (SequencerView { ui: idled(old(self)@.ui, crate::term::text_view(message)), ..old(self)@ }),
    {
        self.ui.current_routine = String::from_str("IDLE");
        self.ui.loop_status = LoopStatus::Idle;
        self.ui.status_message = match message {
            Some(m) => Some(m),
            None => Some(String::from_str("System Ready - Listening for commands")),
        };
    }

    fn note_packet(&mut self, packet: Packet) -> (p: Packet)
        ensures
            p == packet,
            final(self)@ == (SequencerView { ui: noted(old(self)@.ui, packet@), ..old(self)@ }),
    {
        self.ui.last_packet = packet;
        self.ui.packet_count = self.ui.packet_count.saturating_add(1);
        packet
    }
}

/// `Brightness <b>`, the status line after a brightness key.
fn brightness_message(b: u8) -> (s: String)
    ensures
        s@ == "Brightness "@ + decimal(b as nat),
{
    let mut s = String::from_str("Brightness ");
    push_decimal(&mut s, b as u64);
    s
}

/// Every packet the sequencer hands out, on a key or on a tick, becomes the dashboard's
/// last packet and is counted once; when it hands out none, the last packet and the count
/// stay as they were.
pub proof fn lemma_packets_are_counted(s: SequencerView, cmd: KeyCmd, now: u64)
    ensures
        ({
            let r = on_key_spec(s, cmd, now);
            match r.2 {
                Some(p) => r.0.ui.last_packet == p && r.0.ui.packet_count == counted(
                    s.ui.packet_count,
                ),
                None => r.0.ui.last_packet == s.ui.last_packet && r.0.ui.packet_count
                    == s.ui.packet_count,
            }
        }),
        ({
            let r = on_tick_spec(s, now);
            match r.1 {
                Some(p) => r.0.ui.last_packet == p && r.0.ui.packet_count == counted(
                    s.ui.packet_count,
                ),
                None => r.0.ui.last_packet == s.ui.last_packet && r.0.ui.packet_count
                    == s.ui.packet_count,
            }
        }),
{
}

/// `,` stops whatever plays and sends dark; `.` and the quit chord stop and quit without a
/// packet; after any of them no show runs and the dashboard is idle.
pub proof fn lemma_stop_keys(s: SequencerView, now: u64)
    ensures
        on_key_spec(s, KeyCmd::Char(','), now).1 == SeqOutcome::Continue,
        on_key_spec(s, KeyCmd::Char(','), now).2 == Some(DARK@),
        !on_key_spec(s, KeyCmd::Char(','), now).0.player.running,
        on_key_spec(s, KeyCmd::Char(','), now).0.ui.current_routine == "IDLE"@,
        on_key_spec(s, KeyCmd::Char('.'), now).1 == SeqOutcome::Quit,
        on_key_spec(s, KeyCmd::Char('.'), now).2 is None,
        !on_key_spec(s, KeyCmd::Char('.'), now).0.player.running,
        on_key_spec(s, KeyCmd::Quit, now).1 == SeqOutcome::Quit,
        on_key_spec(s, KeyCmd::Quit, now).2 is None,
        !on_key_spec(s, KeyCmd::Quit, now).0.player.running,
{
}

/// A key that is bound to no show and is none of `,` `.` `<` `>` only records itself as
/// the last key: the player, the catalog and the rest of the dashboard stay as they were.
pub proof fn lemma_unbound_key_is_ignored(s: SequencerView, c: char, now: u64)
    requires
        c != ',' && c != '.' && c != '<' && c != '>',
        !s.catalog.shows.contains_key(c),
    ensures
        on_key_spec(s, KeyCmd::Char(c), now) == (
            SequencerView { ui: UiView { last_key: Some(c), ..s.ui }, ..s },
            SeqOutcome::Continue,
            None::<Seq<u8>>,
        ),
{
}

/// The command a key press stands for: Ctrl-C is the quit chord, a character key is
/// itself, any other key is nothing.
pub fn key_command(control: bool, key: Option<char>) -> (cmd: Option<KeyCmd>)
    ensures
        cmd == (match key {
            Some(c) => if control && c == 'c' {
                Some(KeyCmd::Quit)
            } else {
                Some(KeyCmd::Char(c))
            },
            None => None::<KeyCmd>,
        }),
{
    match key {
        Some(c) => if control && c == 'c' {
            Some(KeyCmd::Quit)
        } else {
            Some(KeyCmd::Char(c))
        },
        None => None,
    }
}

/// A key bound to a show starts that show at once, even in the middle of another: the
/// player becomes what running the freshly loaded show gives, and the packet handed out
/// is the one that run emits.
pub proof fn lemma_bound_key_starts_show_mid_cue(s: SequencerView, c: char, now: u64)
    requires
        c != ',' && c != '.' && c != '<' && c != '>',
        s.catalog.shows.contains_key(c),
    ensures
        ({
            let r = on_key_spec(s, KeyCmd::Char(c), now);
            let show = s.catalog.shows[c];
            &&& r.1 == SeqOutcome::Continue
            &&& r.0.catalog == s.catalog
            &&& r.0.ui.last_key == Some(c)
            &&& match execute(loaded(s.player, show), s.catalog.frames, now) {
                Run::Emitted(v, p, d) => {
                    &&& r.0.player == v
                    &&& r.2 == Some(p)
                    &&& r.0.ui.last_packet == p
                    &&& r.0.ui.current_routine == show.name@
                },
                Run::Stopped(v) => r.0.player == v && r.2 is None,
                Run::Failed(v, f) => r.0.player == v && r.2 is None && r.0.ui.is_error,
                Run::Moved(v) => true,
            }
        }),
{
    let show = s.catalog.shows[c];
    let u = SequencerView { ui: UiView { last_key: Some(c), ..s.ui }, ..s };
    match execute(loaded(s.player, show), s.catalog.frames, now) {
        Run::Emitted(v, p, d) => {
            crate::engine::lemma_emit_keeps_name(loaded(s.player, show), s.catalog.frames, now);
        },
        _ => {},
    }
}

/// What a bound key does does not depend on what was playing: two sequencers that differ
/// only in their player's state (not its brightness) end in the same state and hand out
/// the same packet.
pub proof fn lemma_bound_key_ignores_previous_show(
    s1: SequencerView,
    s2: SequencerView,
    c: char,
    now: u64,
)
    requires
        c != ',' && c != '.' && c != '<' && c != '>',
        s1.catalog == s2.catalog,
        s1.ui == s2.ui,
        s1.player.brightness == s2.player.brightness,
        s1.catalog.shows.contains_key(c),
    ensures
        on_key_spec(s1, KeyCmd::Char(c), now) == on_key_spec(s2, KeyCmd::Char(c), now),
{
    let show = s1.catalog.shows[c];
    assert(loaded(s1.player, show) == loaded(s2.player, show));
    crate::engine::lemma_execute_settles(loaded(s1.player, show), s1.catalog.frames, now);
}

} // verus!
