//! Dashboard state and the operator's command reference.

use vstd::prelude::*;

use crate::patterns::{Packet, CHANNELS, DARK};
use crate::text::push_char;

verus! {

/// Whether the dashboard shows a looping routine.
#[derive(Debug, Clone, Copy, PartialEq, Eq, Structural)]
pub enum LoopStatus {
    Idle,
    Looping,
}

/// One hotkey of the command reference.
#[derive(Debug, Clone, PartialEq, Eq)]
pub struct CommandInfo {
    pub key: char,
    pub name: &'static str,
    pub desc: &'static str,
}

/// A titled group of hotkeys.
#[derive(Debug, Clone, PartialEq, Eq)]
pub struct RoutineCategory {
    pub title: &'static str,
    pub commands: Vec<CommandInfo>,
}

impl View for CommandInfo {
    type V = (char, Seq<char>, Seq<char>);

    open spec fn view(&self) -> (char, Seq<char>, Seq<char>) {
        (self.key, self.name@, self.desc@)
    }
}

impl View for RoutineCategory {
    type V = (Seq<char>, Seq<(char, Seq<char>, Seq<char>)>);

    open spec fn view(&self) -> (Seq<char>, Seq<(char, Seq<char>, Seq<char>)>) {
        (self.title@, self.commands@.map_values(|c: CommandInfo| c@))
    }
}

/// The command reference: four titled groups of `(hotkey, name, description)`.
pub open spec fn spec_categories() -> Seq<(Seq<char>, Seq<(char, Seq<char>, Seq<char>)>)> {
    seq![
        (
            "Flashes & Solids"@,
            seq![
            ('r', "Red Flash"@, "Solid red pulse"@),
            ('e', "Green Flash"@, "Solid green pulse"@),
            ('b', "Blue Flash"@, "Solid blue pulse"@),
            ('g', "Gold Flash"@, "Gold/yellow pulse"@),
            ('w', "White Flash"@, "White pulse"@),
            ('m', "Magenta Flash"@, "Magenta pulse"@),
            ('y', "Yellow Flash"@, "Yellow pulse"@),
            ('k', "Cyan Flash"@, "Cyan pulse"@),
            ('d', "Dark"@, "All channels off"@),
            ('n', "Gold Loop"@, "Continuous gold hold"@),
            ('o', "White Loop"@, "Continuous white hold"@),
            ],
        ),
        (
            "Twinkles & Sparkles"@,
            seq![
            ('a', "Asterion Twinkle"@, "12-step twinkle loop"@),
            ('c', "Christmas Sparkle"@, "4-phase sparkle loop"@),
            ('q', "Sparkle Cycle"@, "Rainbow sparkle loop"@),
            ('x', "Christmas Solid"@, "Solid holiday hold"@),
            ('z', "Slow Twinkle"@, "Slow holiday shimmer"@),
            ('f', "Twink 8"@, "Twinkle step 8 pulse"@),
            ('h', "Twink 9"@, "Twinkle step 9 pulse"@),
            ('j', "Twink 10"@, "Twinkle step 10 pulse"@),
            ('l', "Twink 11"@, "Twinkle step 11 pulse"@),
            ],
        ),
        (
            "Animations & Marquees"@,
            seq![
            ('s', "Rainbow Short"@, "4-color rainbow pass"@),
            ('p', "Rainbow Med"@, "Multi-stage rainbow sweep"@),
            ('[', "Marquee Left"@, "Scrolling left loop"@),
            (']', "Marquee Right"@, "Scrolling right loop"@),
            ('6', "Falldown"@, "Cascading channel drop"@),
            ('7', "Channel Stagger"@, "Continuous channel stagger"@),
            ],
        ),
        (
            "Holiday & Specials"@,
            seq![
            ('1', "Snowman 1"@, "Snowman rotation loop"@),
            ('2', "Snowman 2"@, "Snowman alternate loop"@),
            ('3', "Tree 1"@, "Gold/Red tree sparkle loop"@),
            ('4', "Tree 2"@, "White/Red/Gold tree loop"@),
            ('5', "Idaho Spelloff"@, "V-A-N-D-A-L-S sequence"@),
            ('t', "Test RGB"@, "RGB channel test loop"@),
            ],
        ),
    ]
}

/// The command reference shown on the dashboard, group by group.
pub fn get_categories() -> (cats: Vec<RoutineCategory>)
    ensures
        cats@.map_values(|c: RoutineCategory| c@) == spec_categories(),
{
    let mut cats: Vec<RoutineCategory> = Vec::new();
    let mut c0: Vec<CommandInfo> = Vec::new();
    c0.push(CommandInfo { key: 'r', name: "Red Flash", desc: "Solid red pulse" });
    c0.push(CommandInfo { key: 'e', name: "Green Flash", desc: "Solid green pulse" });
    c0.push(CommandInfo { key: 'b', name: "Blue Flash", desc: "Solid blue pulse" });
    c0.push(CommandInfo { key: 'g', name: "Gold Flash", desc: "Gold/yellow pulse" });
    c0.push(CommandInfo { key: 'w', name: "White Flash", desc: "White pulse" });
    c0.push(CommandInfo { key: 'm', name: "Magenta Flash", desc: "Magenta pulse" });
    c0.push(CommandInfo { key: 'y', name: "Yellow Flash", desc: "Yellow pulse" });
    c0.push(CommandInfo { key: 'k', name: "Cyan Flash", desc: "Cyan pulse" });
    c0.push(CommandInfo { key: 'd', name: "Dark", desc: "All channels off" });
    c0.push(CommandInfo { key: 'n', name: "Gold Loop", desc: "Continuous gold hold" });
    c0.push(CommandInfo { key: 'o', name: "White Loop", desc: "Continuous white hold" });
    assert(c0@.map_values(|c: CommandInfo| c@) =~= spec_categories()[0].1);
    cats.push(RoutineCategory { title: "Flashes & Solids", commands: c0 });
    assert(cats@[0]@ == spec_categories()[0]);
    let mut c1: Vec<CommandInfo> = Vec::new();
    c1.push(CommandInfo { key: 'a', name: "Asterion Twinkle", desc: "12-step twinkle loop" });
    c1.push(CommandInfo { key: 'c', name: "Christmas Sparkle", desc: "4-phase sparkle loop" });
    c1.push(CommandInfo { key: 'q', name: "Sparkle Cycle", desc: "Rainbow sparkle loop" });
    c1.push(CommandInfo { key: 'x', name: "Christmas Solid", desc: "Solid holiday hold" });
    c1.push(CommandInfo { key: 'z', name: "Slow Twinkle", desc: "Slow holiday shimmer" });
    c1.push(CommandInfo { key: 'f', name: "Twink 8", desc: "Twinkle step 8 pulse" });
    c1.push(CommandInfo { key: 'h', name: "Twink 9", desc: "Twinkle step 9 pulse" });
    c1.push(CommandInfo { key: 'j', name: "Twink 10", desc: "Twinkle step 10 pulse" });
    c1.push(CommandInfo { key: 'l', name: "Twink 11", desc: "Twinkle step 11 pulse" });
    assert(c1@.map_values(|c: CommandInfo| c@) =~= spec_categories()[1].1);
    cats.push(RoutineCategory { title: "Twinkles & Sparkles", commands: c1 });
    assert(cats@[1]@ == spec_categories()[1]);
    let mut c2: Vec<CommandInfo> = Vec::new();
    c2.push(CommandInfo { key: 's', name: "Rainbow Short", desc: "4-color rainbow pass" });
    c2.push(CommandInfo { key: 'p', name: "Rainbow Med", desc: "Multi-stage rainbow sweep" });
    c2.push(CommandInfo { key: '[', name: "Marquee Left", desc: "Scrolling left loop" });
    c2.push(CommandInfo { key: ']', name: "Marquee Right", desc: "Scrolling right loop" });
    c2.push(CommandInfo { key: '6', name: "Falldown", desc: "Cascading channel drop" });
    c2.push(CommandInfo { key: '7', name: "Channel Stagger", desc: "Continuous channel stagger" });
    assert(c2@.map_values(|c: CommandInfo| c@) =~= spec_categories()[2].1);
    cats.push(RoutineCategory { title: "Animations & Marquees", commands: c2 });
    assert(cats@[2]@ == spec_categories()[2]);
    let mut c3: Vec<CommandInfo> = Vec::new();
    c3.push(CommandInfo { key: '1', name: "Snowman 1", desc: "Snowman rotation loop" });
    c3.push(CommandInfo { key: '2', name: "Snowman 2", desc: "Snowman alternate loop" });
    c3.push(CommandInfo { key: '3', name: "Tree 1", desc: "Gold/Red tree sparkle loop" });
    c3.push(CommandInfo { key: '4', name: "Tree 2", desc: "White/Red/Gold tree loop" });
    c3.push(CommandInfo { key: '5', name: "Idaho Spelloff", desc: "V-A-N-D-A-L-S sequence" });
    c3.push(CommandInfo { key: 't', name: "Test RGB", desc: "RGB channel test loop" });
    assert(c3@.map_values(|c: CommandInfo| c@) =~= spec_categories()[3].1);
    cats.push(RoutineCategory { title: "Holiday & Specials", commands: c3 });
    assert(cats@[3]@ == spec_categories()[3]);
    assert(cats@.map_values(|c: RoutineCategory| c@) =~= spec_categories());
    cats
}

/// What the dashboard shows.
#[derive(Debug, Clone, PartialEq, Eq)]
pub struct UiState {
    pub current_routine: String,
    pub loop_status: LoopStatus,
    pub last_key: Option<char>,
    pub packet_count: u64,
    pub last_packet: Packet,
    pub status_message: Option<String>,
    pub is_error: bool,
    pub device_connected: bool,
    pub simulated: bool,
}

/// The dashboard's content, with texts as character sequences.
pub struct UiView {
    pub current_routine: Seq<char>,
    pub loop_status: LoopStatus,
    pub last_key: Option<char>,
    pub packet_count: u64,
    pub last_packet: Seq<u8>,
    pub status_message: Option<Seq<char>>,
    pub is_error: bool,
    pub device_connected: bool,
    pub simulated: bool,
}

/// The characters of an optional text.
pub open spec fn text_view(t: Option<String>) -> Option<Seq<char>> {
    match t {
        Some(s) => Some(s@),
        None => None,
    }
}

impl View for UiState {
    type V = UiView;

    open spec fn view(&self) -> UiView {
        UiView {
            current_routine: self.current_routine@,
            loop_status: self.loop_status,
            last_key: self.last_key,
            packet_count: self.packet_count,
            last_packet: self.last_packet@,
            status_message: text_view(self.status_message),
            is_error: self.is_error,
            device_connected: self.device_connected,
            simulated: self.simulated,
        }
    }
}

/// The message the dashboard shows when nothing has happened.
pub open spec fn ready_message() -> Seq<char> {
    "System Ready - Listening for commands"@
}

/// The dashboard before anything has happened: idle, no key, no packet, ready, a real
/// device assumed connected.
pub open spec fn initial_ui(u: UiView) -> bool {
    &&& u.current_routine == "IDLE"@
    &&& u.loop_status == LoopStatus::Idle
    &&& u.last_key is None
    &&& u.packet_count == 0
    &&& u.last_packet == DARK@
    &&& u.status_message == Some(ready_message())
    &&& !u.is_error
    &&& u.device_connected
    &&& !u.simulated
}

impl Default for UiState {
    fn default() -> (s: Self)
        ensures
            initial_ui(s@),
    {
        UiState {
            current_routine: String::from_str("IDLE"),
            loop_status: LoopStatus::Idle,
            last_key: None,
            packet_count: 0,
            last_packet: DARK,
            status_message: Some(String::from_str("System Ready - Listening for commands")),
            is_error: false,
            device_connected: true,
            simulated: false,
        }
    }
}

impl UiState {
    /// A copy of the dashboard state.
    pub(crate) fn copy(&self) -> (c: Self)
        ensures
            c == *self,
    {
        UiState {
            current_routine: self.current_routine.clone(),
            loop_status: self.loop_status,
            last_key: self.last_key,
            packet_count: self.packet_count,
            last_packet: self.last_packet,
            status_message: match &self.status_message {
                Some(m) => Some(m.clone()),
                None => None,
            },
            is_error: self.is_error,
            device_connected: self.device_connected,
            simulated: self.simulated,
        }
    }
}

/// The header's connection badge: a simulated link first, then online or offline.
pub open spec fn spec_connection_badge(simulated: bool, connected: bool) -> Seq<char> {
    if simulated {
        "\u{25c6} SIMULATED"@
    } else if connected {
        "\u{25cf} ONLINE"@
    } else {
        "\u{25cb} OFFLINE"@
    }
}

/// The connection badge for the dashboard header.
pub fn connection_badge(state: &UiState) -> (s: &'static str)
    ensures
        s@ == spec_connection_badge(state.simulated, state.device_connected),
{
    if state.simulated {
        "\u{25c6} SIMULATED"
    } else if state.device_connected {
        "\u{25cf} ONLINE"
    } else {
        "\u{25cb} OFFLINE"
    }
}

/// The badge of the loop status: `[IDLE]` or `[LOOPING]`.
pub fn loop_badge(status: LoopStatus) -> (s: &'static str)
    ensures
        s@ == (match status {
            LoopStatus::Idle => "[IDLE]"@,
            LoopStatus::Looping => "[LOOPING]"@,
        }),
{
    match status {
        LoopStatus::Idle => "[IDLE]",
        LoopStatus::Looping => "[LOOPING]",
    }
}

/// How the last key is shown: quoted, or `None`.
pub fn key_label(key: Option<char>) -> (s: String)
    ensures
        s@ == (match key {
            Some(k) => seq!['\'', k, '\''],
            None => "None"@,
        }),
{
    match key {
        Some(k) => {
            let mut s = String::new();
            push_char(&mut s, '\'');
            push_char(&mut s, k);
            push_char(&mut s, '\'');
            assert(s@ =~= seq!['\'', k, '\'']);
            s
        },
        None => String::from_str("None"),
    }
}

/// The colour of channel `ch` in the visualizer: `None` when the channel is off.
pub fn channel_color(packet: &Packet, ch: usize) -> (c: Option<(u8, u8, u8)>)
    requires
        ch < CHANNELS,
    ensures
        ({
            let r = packet@[3 * ch as int];
            let g = packet@[3 * ch as int + 1];
            let b = packet@[3 * ch as int + 2];
            c == if r == 0 && g == 0 && b == 0 {
                None
            } else {
                Some((r, g, b))
            }
        }),
{
    let r = packet[ch * 3];
    let g = packet[ch * 3 + 1];
    let b = packet[ch * 3 + 2];
    if r == 0 && g == 0 && b == 0 {
        None
    } else {
        Some((r, g, b))
    }
}

/// The message line of the status panel: whether it reports an error, and its text
/// (the status message, or `Hardware Error` / `System Idle` when there is none).
pub fn status_line(state: &UiState) -> (line: (bool, String))
    ensures
        line.0 == state.is_error,
        line.1@ == (match text_view(state.status_message) {
            Some(m) => m,
            None => if state.is_error {
                "Hardware Error"@
            } else {
                "System Idle"@
            },
        }),
{
    let text = match &state.status_message {
        Some(m) => m.clone(),
        None => if state.is_error {
            String::from_str("Hardware Error")
        } else {
            String::from_str("System Idle")
        },
    };
    (state.is_error, text)
}

} // verus!
