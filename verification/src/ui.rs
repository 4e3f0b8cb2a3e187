//! The state shown on the controller screen, and how events, keys and the
//! outcomes of outside work change it.

use vstd::prelude::*;
use crate::keys::{KeyCode, KeyEvent, actionable, quits, volume_delta, is_actionable_key_event, is_quit_key, volume_delta_for_key};
use crate::naming::DEVICE_NAME_PREFIX;
use crate::player::{AudioItem, PlayerEvent, artist_text, artist_name};
use crate::text::{clock_text, format_time, decimal, push_decimal, parse_decimal, is_decimal_digit, lemma_decimal_text};

verus! {

/// Everything the screen shows.
pub struct UiState {
    pub device_name: String,
    pub track: String,
    pub artist: String,
    pub position_ms: u32,
    pub duration_ms: u32,
    pub playing: bool,
    pub connection: String,
    pub output: String,
    pub volume_percent: u8,
    pub status: String,
    pub bars_phase: usize,
}

/// The screen state with its texts as character sequences.
pub ghost struct UiView {
    pub device_name: Seq<char>,
    pub track: Seq<char>,
    pub artist: Seq<char>,
    pub position_ms: u32,
    pub duration_ms: u32,
    pub playing: bool,
    pub connection: Seq<char>,
    pub output: Seq<char>,
    pub volume_percent: u8,
    pub status: Seq<char>,
    pub bars_phase: usize,
}

impl View for UiState {
    type V = UiView;

    open spec fn view(&self) -> UiView {
        UiView {
            device_name: self.device_name@,
            track: self.track@,
            artist: self.artist@,
            position_ms: self.position_ms,
            duration_ms: self.duration_ms,
            playing: self.playing,
            connection: self.connection@,
            output: self.output@,
            volume_percent: self.volume_percent,
            status: self.status@,
            bars_phase: self.bars_phase,
        }
    }
}

/// What the outside world is asked to do after a key press.
#[derive(Clone, Copy, Debug, PartialEq, Eq, Structural)]
pub enum KeyAction {
    /// Nothing.
    Ignore,
    /// Shut down.
    Quit,
    /// Ask the player for the previous track.
    Previous,
    /// Ask the player to toggle play and pause.
    PlayPause,
    /// Ask the player for the next track.
    Next,
    /// Change the output volume by this many percent.
    AdjustVolume(i8),
}

/// The screen before anything has happened.
pub open spec fn initial_view() -> UiView {
    UiView {
        device_name: DEVICE_NAME_PREFIX@,
        track: "Waiting for a Spotify Connect selection"@,
        artist: "Select TinyConnect from a Spotify client"@,
        position_ms: 0,
        duration_ms: 0,
        playing: false,
        connection: "Advertising"@,
        output: "Resolving Windows output..."@,
        volume_percent: 0,
        status: "No credentials or audio cache are stored"@,
        bars_phase: 0,
    }
}

/// The screen after a player event.
pub open spec fn after_player_event(ui: UiView, event: PlayerEvent) -> UiView {
    match event {
        PlayerEvent::TrackChanged { audio_item } => UiView {
            track: audio_item.name@,
            artist: artist_text(audio_item.unique_fields),
            duration_ms: audio_item.duration_ms,
            position_ms: 0,
            status: "Track metadata received"@,
            ..ui
        },
        PlayerEvent::Playing { position_ms } => UiView {
            playing: true,
            position_ms,
            connection: "Connected"@,
            status: "Playing"@,
            ..ui
        },
        PlayerEvent::Paused { position_ms } => UiView {
            playing: false,
            position_ms,
            status: "Paused"@,
            ..ui
        },
        PlayerEvent::PositionChanged { position_ms } => UiView { position_ms, ..ui },
        PlayerEvent::PositionCorrection { position_ms } => UiView { position_ms, ..ui },
        PlayerEvent::Seeked { position_ms } => UiView { position_ms, ..ui },
        PlayerEvent::Loading => UiView { status: "Loading track"@, ..ui },
        PlayerEvent::Stopped => UiView { playing: false, status: "Stopped"@, ..ui },
        PlayerEvent::SessionConnected => UiView { connection: "Connected"@, ..ui },
        PlayerEvent::SessionDisconnected => UiView {
            connection: "Reconnecting"@,
            playing: false,
            ..ui
        },
        PlayerEvent::Other => ui,
    }
}

/// What a key asks for, given whether a playback session is connected.
pub open spec fn key_action(key: KeyEvent, connected: bool) -> KeyAction {
    if !actionable(key) {
        KeyAction::Ignore
    } else if quits(key) {
        KeyAction::Quit
    } else {
        match key.code {
            KeyCode::Left => if connected {
                KeyAction::Previous
            } else {
                KeyAction::Ignore
            },
            KeyCode::Char(c) => if c == ' ' && connected {
                KeyAction::PlayPause
            } else {
                KeyAction::Ignore
            },
            KeyCode::Right => if connected {
                KeyAction::Next
            } else {
                KeyAction::Ignore
            },
            KeyCode::Up => KeyAction::AdjustVolume(volume_delta(key.code)->0),
            KeyCode::Down => KeyAction::AdjustVolume(volume_delta(key.code)->0),
            KeyCode::Other => KeyAction::Ignore,
        }
    }
}

/// The screen once a key's action is known.
pub open spec fn after_key(ui: UiView, action: KeyAction) -> UiView {
    match action {
        KeyAction::Previous => UiView { status: "Previous requested"@, ..ui },
        KeyAction::PlayPause => UiView { status: "Play/pause requested"@, ..ui },
        KeyAction::Next => UiView { status: "Next requested"@, ..ui },
        _ => ui,
    }
}

/// The screen once a volume change has been tried.
pub open spec fn after_volume_change(ui: UiView, delta: i8, result: Result<u8, Seq<char>>) -> UiView {
    match result {
        Ok(volume_percent) => UiView {
            volume_percent,
            status: if delta > 0 {
                "Windows volume increased"@
            } else {
                "Windows volume decreased"@
            },
            ..ui
        },
        Err(error) => UiView { status: "Windows volume change failed: "@ + error, ..ui },
    }
}

/// The screen after one animation tick, with the output volume if it could
/// be read.
pub open spec fn after_tick(ui: UiView, volume_percent: Option<u8>) -> UiView {
    UiView {
        bars_phase: ((ui.bars_phase + 1) % 8) as usize,
        volume_percent: match volume_percent {
            Some(v) => v,
            None => ui.volume_percent,
        },
        ..ui
    }
}

/// The screen once a client has selected this device.
pub open spec fn after_connect_selected(ui: UiView, connected: bool) -> UiView {
    if connected {
        ui
    } else {
        UiView { status: "Connect selected; establishing session"@, ..ui }
    }
}

/// The screen once establishing a session has succeeded or failed.
pub open spec fn after_connect_result(ui: UiView, result: Result<(), Seq<char>>) -> UiView {
    match result {
        Ok(()) => UiView { connection: "Connected"@, status: "Session ready"@, ..ui },
        Err(error) => UiView {
            connection: "Disconnected"@,
            status: "Connect failed: "@ + error,
            ..ui
        },
    }
}

/// The playback line: the state, then the position and the duration.
pub open spec fn playback_text(ui: UiView) -> Seq<char> {
    (if ui.playing {
        "Playing"@
    } else {
        "Paused"@
    }) + "  "@ + clock_text(ui.position_ms) + " / "@ + clock_text(ui.duration_ms)
}

/// The runtime lines: connection, output, volume and status.
pub open spec fn runtime_texts(ui: UiView) -> Seq<Seq<char>> {
    seq![
        "Connection: "@ + ui.connection,
        "Output: "@ + ui.output,
        "Volume: "@ + decimal(ui.volume_percent as nat) + "%"@,
        "Status: "@ + ui.status,
    ]
}

fn text(s: &str) -> (r: String)
    ensures
        r@ == s@,
{
    s.to_owned()
}

impl Default for UiState {
    fn default() -> (ui: UiState)
        ensures
            ui@ == initial_view(),
    {
        UiState {
            device_name: text(DEVICE_NAME_PREFIX),
            track: text("Waiting for a Spotify Connect selection"),
            artist: text("Select TinyConnect from a Spotify client"),
            position_ms: 0,
            duration_ms: 0,
            playing: false,
            connection: text("Advertising"),
            output: text("Resolving Windows output..."),
            volume_percent: 0,
            status: text("No credentials or audio cache are stored"),
            bars_phase: 0,
        }
    }
}

impl UiState {
    /// The initial screen for a known device name and output endpoint.
    pub fn with_audio(device_name: String, output: String, volume_percent: u8) -> (ui: UiState)
        ensures
            ui@ == (UiView { device_name: device_name@, output: output@, volume_percent, ..initial_view() }),
    {
        let base = UiState::default();
        UiState { device_name, output, volume_percent, ..base }
    }

    /// The playback line.
    pub fn playback_line(&self) -> (line: String)
        ensures
            line@ == playback_text(self@),
    {
        let mut line = if self.playing {
            text("Playing")
        } else {
            text("Paused")
        };
        line.append("  ");
        line.append(format_time(self.position_ms).as_str());
        line.append(" / ");
        line.append(format_time(self.duration_ms).as_str());
        line
    }

    /// The runtime lines.
    pub fn runtime_lines(&self) -> (lines: Vec<String>)
        ensures
            lines@.map_values(|l: String| l@) == runtime_texts(self@),
    {
        let mut connection = text("Connection: ");
        connection.append(self.connection.as_str());
        let mut output = text("Output: ");
        output.append(self.output.as_str());
        let mut volume = text("Volume: ");
        push_decimal(&mut volume, self.volume_percent as u32);
        volume.append("%");
        let mut status = text("Status: ");
        status.append(self.status.as_str());
        let lines = vec![connection, output, volume, status];
        assert(lines@.map_values(|l: String| l@) =~= runtime_texts(self@));
        lines
    }
}

/// Brings the screen up to date with a player event.
pub fn apply_player_event(ui: &mut UiState, event: PlayerEvent)
    ensures
        final(ui)@ == after_player_event(old(ui)@, event),
{
    match event {
        PlayerEvent::TrackChanged { audio_item } => {
            let artist = artist_name(&audio_item);
            let AudioItem { name, duration_ms, unique_fields: _ } = audio_item;
            ui.track = name;
            ui.artist = artist;
            ui.duration_ms = duration_ms;
            ui.position_ms = 0;
            ui.status = text("Track metadata received");
        },
        PlayerEvent::Playing { position_ms } => {
            ui.playing = true;
            ui.position_ms = position_ms;
            ui.connection = text("Connected");
            ui.status = text("Playing");
        },
        PlayerEvent::Paused { position_ms } => {
            ui.playing = false;
            ui.position_ms = position_ms;
            ui.status = text("Paused");
        },
        PlayerEvent::PositionChanged { position_ms }
        | PlayerEvent::PositionCorrection { position_ms }
        | PlayerEvent::Seeked { position_ms } => {
            ui.position_ms = position_ms;
        },
        PlayerEvent::Loading => {
            ui.status = text("Loading track");
        },
        PlayerEvent::Stopped => {
            ui.playing = false;
            ui.status = text("Stopped");
        },
        PlayerEvent::SessionConnected => {
            ui.connection = text("Connected");
        },
        PlayerEvent::SessionDisconnected => {
            ui.connection = text("Reconnecting");
            ui.playing = false;
        },
        PlayerEvent::Other => {},
    }
}

/// Decides what a key asks for and notes a transport request on the
/// screen; the caller carries the action out.
pub fn handle_key(key: &KeyEvent, ui: &mut UiState, connected: bool) -> (action: KeyAction)
    ensures
        action == key_action(*key, connected),
        final(ui)@ == after_key(old(ui)@, action),
{
    if !is_actionable_key_event(key) {
        return KeyAction::Ignore;
    }
    if is_quit_key(key) {
        return KeyAction::Quit;
    }
    match key.code {
        KeyCode::Left => {
            if connected {
                ui.status = text("Previous requested");
                KeyAction::Previous
            } else {
                KeyAction::Ignore
            }
        },
        KeyCode::Char(' ') => {
            if connected {
                ui.status = text("Play/pause requested");
                KeyAction::PlayPause
            } else {
                KeyAction::Ignore
            }
        },
        KeyCode::Right => {
            if connected {
                ui.status = text("Next requested");
                KeyAction::Next
            } else {
                KeyAction::Ignore
            }
        },
        KeyCode::Up | KeyCode::Down => {
            match volume_delta_for_key(key.code) {
                Some(delta) => KeyAction::AdjustVolume(delta),
                None => KeyAction::Ignore,
            }
        },
        _ => KeyAction::Ignore,
    }
}

/// Notes on the screen how a volume change of `delta` percent went: the new
/// volume, or the error's text.
pub fn apply_volume_result(ui: &mut UiState, delta: i8, result: Result<u8, String>)
    ensures
        final(ui)@ == after_volume_change(
            old(ui)@,
            delta,
            match result {
                Ok(v) => Ok(v),
                Err(e) => Err(e@),
            },
        ),
{
    match result {
        Ok(volume_percent) => {
            ui.volume_percent = volume_percent;
            ui.status = if delta > 0 {
                text("Windows volume increased")
            } else {
                text("Windows volume decreased")
            };
        },
        Err(error) => {
            let mut status = text("Windows volume change failed: ");
            status.append(error.as_str());
            ui.status = status;
        },
    }
}

/// Advances the animation by one step and shows the output volume, if it
/// could be read.
pub fn on_tick(ui: &mut UiState, volume_percent: Option<u8>)
    ensures
        final(ui)@ == after_tick(old(ui)@, volume_percent),
{
    ui.bars_phase = (ui.bars_phase % 8 + 1) % 8;
    if let Some(v) = volume_percent {
        ui.volume_percent = v;
    }
}

/// A client has selected this device: returns whether a session should be
/// established, which is when none is connected yet.
pub fn on_connect_selected(ui: &mut UiState, connected: bool) -> (establish: bool)
    ensures
        establish == !connected,
        final(ui)@ == after_connect_selected(old(ui)@, connected),
{
    if !connected {
        ui.status = text("Connect selected; establishing session");
        true
    } else {
        false
    }
}

/// Notes on the screen whether establishing a session succeeded, or the
/// error's text.
pub fn on_connect_result(ui: &mut UiState, result: Result<(), String>)
    ensures
        final(ui)@ == after_connect_result(
            old(ui)@,
            match result {
                Ok(()) => Ok(()),
                Err(e) => Err(e@),
            },
        ),
{
    match result {
        Ok(()) => {
            ui.connection = text("Connected");
            ui.status = text("Session ready");
        },
        Err(error) => {
            ui.connection = text("Disconnected");
            let mut status = text("Connect failed: ");
            status.append(error.as_str());
            ui.status = status;
        },
    }
}

/// The screen after `n` animation ticks in which the volume could not be
/// read.
pub open spec fn after_ticks(ui: UiView, n: nat) -> UiView
    decreases n,
{
    if n == 0 {
        ui
    } else {
        after_tick(after_ticks(ui, (n - 1) as nat), None)
    }
}

/// Keys that repeat or go up ask for nothing and leave the screen as it is,
/// whether or not a session is connected.
pub proof fn lemma_only_presses_act(ui: UiView, key: KeyEvent, connected: bool)
    requires
        !actionable(key),
    ensures
        key_action(key, connected) == KeyAction::Ignore,
        after_key(ui, key_action(key, connected)) == ui,
{
}

/// The quit keys quit whether or not a session is connected, and change
/// nothing on the screen.
pub proof fn lemma_quit_is_always_available(ui: UiView, key: KeyEvent, connected: bool)
    requires
        actionable(key),
        quits(key),
    ensures
        key_action(key, connected) == KeyAction::Quit,
        after_key(ui, key_action(key, connected)) == ui,
{
}

/// Without a connected session the transport keys ask for nothing and leave
/// the screen as it is; the volume keys work either way.
pub proof fn lemma_transport_needs_session(ui: UiView, key: KeyEvent)
    requires
        actionable(key),
        !quits(key),
    ensures
        key.code == KeyCode::Left || key.code == KeyCode::Right || key.code == KeyCode::Char(' ')
            ==> key_action(key, false) == KeyAction::Ignore && after_key(
            ui,
            key_action(key, false),
        ) == ui,
        key.code == KeyCode::Up ==> key_action(key, false) == KeyAction::AdjustVolume(5)
            && key_action(key, true) == KeyAction::AdjustVolume(5),
        key.code == KeyCode::Down ==> key_action(key, false) == KeyAction::AdjustVolume(-5i8)
            && key_action(key, true) == KeyAction::AdjustVolume(-5i8),
{
}

/// A key press changes at most the status line.
pub proof fn lemma_keys_touch_only_status(ui: UiView, key: KeyEvent, connected: bool)
    ensures
        after_key(ui, key_action(key, connected)) == (UiView {
            status: after_key(ui, key_action(key, connected)).status,
            ..ui
        }),
{
}

/// Player events never change the device name, the output, the volume or
/// the animation.
pub proof fn lemma_player_events_keep_runtime(ui: UiView, event: PlayerEvent)
    ensures
        after_player_event(ui, event).device_name == ui.device_name,
        after_player_event(ui, event).output == ui.output,
        after_player_event(ui, event).volume_percent == ui.volume_percent,
        after_player_event(ui, event).bars_phase == ui.bars_phase,
{
}

proof fn lemma_after_ticks(ui: UiView, n: nat)
    requires
        ui.bars_phase < 8,
    ensures
        after_ticks(ui, n) == (UiView { bars_phase: ((ui.bars_phase + n) % 8) as usize, ..ui }),
    decreases n,
{
    if n > 0 {
        lemma_after_ticks(ui, (n - 1) as nat);
        let prev = after_ticks(ui, (n - 1) as nat);
        let p: int = ui.bars_phase as int;
        assert(prev.bars_phase == (p + n - 1) % 8);
        assert(((p + n - 1) % 8 + 1) % 8 == (p + n) % 8) by (nonlinear_arith)
            requires
                p >= 0,
                n >= 1,
        ;
        assert(after_ticks(ui, n) == after_tick(prev, None));
    }
}

/// The animation phase stays below eight, and eight ticks bring the screen
/// back to where it was.
pub proof fn lemma_ticks_cycle(ui: UiView, volume_percent: Option<u8>)
    ensures
        after_tick(ui, volume_percent).bars_phase < 8,
        ui.bars_phase < 8 ==> after_ticks(ui, 8) == ui,
{
    if ui.bars_phase < 8 {
        lemma_after_ticks(ui, 8);
        assert((ui.bars_phase + 8) % 8 == ui.bars_phase);
    }
}

/// One thing that can happen in the controller's event loop, with the
/// outcome of the outside work it leads to: the volume read on a tick, the
/// result of a volume change a key may ask for, and the result that
/// establishing a session would give when a client selects the device.
pub ghost enum LoopEvent {
    Tick(Option<u8>),
    Key(KeyEvent, Result<u8, Seq<char>>),
    Player(PlayerEvent),
    Credentials(Result<(), Seq<char>>),
}

/// The screen and whether a session is connected, after a client selects
/// the device: with a session nothing happens; without one the outcome of
/// establishing a session is shown, and a session is held when it succeeded.
pub open spec fn after_credentials(ui: UiView, connected: bool, outcome: Result<(), Seq<char>>) -> (
    UiView,
    bool,
) {
    if connected {
        (after_connect_selected(ui, true), true)
    } else {
        (after_connect_result(after_connect_selected(ui, false), outcome), outcome is Ok)
    }
}

/// One step of the event loop on the screen and the session flag.
pub open spec fn loop_step(state: (UiView, bool), event: LoopEvent) -> (UiView, bool) {
    let (ui, connected) = state;
    match event {
        LoopEvent::Tick(volume_percent) => (after_tick(ui, volume_percent), connected),
        LoopEvent::Key(key, volume_result) => {
            let action = key_action(key, connected);
            let shown = after_key(ui, action);
            match action {
                KeyAction::AdjustVolume(delta) => (
                    after_volume_change(shown, delta, volume_result),
                    connected,
                ),
                _ => (shown, connected),
            }
        },
        LoopEvent::Player(player_event) => (after_player_event(ui, player_event), connected),
        LoopEvent::Credentials(outcome) => after_credentials(ui, connected, outcome),
    }
}

/// The state after the events of `events`, in order.
pub open spec fn run_loop(state: (UiView, bool), events: Seq<LoopEvent>) -> (UiView, bool)
    decreases events.len(),
{
    if events.len() == 0 {
        state
    } else {
        loop_step(run_loop(state, events.drop_last()), events.last())
    }
}

/// A client selected the device and establishing a session succeeded.
pub open spec fn session_established(event: LoopEvent) -> bool {
    event matches LoopEvent::Credentials(outcome) && outcome is Ok
}

/// While a session is held, a client selecting the device again changes
/// nothing; without one, a failure shows "Disconnected" and the error and
/// leaves the device without a session.
pub proof fn lemma_credentials_step(ui: UiView, outcome: Result<(), Seq<char>>)
    ensures
        after_credentials(ui, true, outcome) == (ui, true),
        outcome matches Err(error) ==> after_credentials(ui, false, outcome) == (
            UiView {
                connection: "Disconnected"@,
                status: "Connect failed: "@ + error,
                ..ui
            },
            false,
        ),
        outcome is Ok ==> after_credentials(ui, false, outcome) == (
            UiView { connection: "Connected"@, status: "Session ready"@, ..ui },
            true,
        ),
{
}

/// Over any run of the event loop the session slot only fills: it is held
/// at the end exactly when it was held at the start or some client's
/// selection established a session, and once held it is never given up;
/// and the animation phase stays below eight throughout.
pub proof fn lemma_session_slot_only_fills(state: (UiView, bool), events: Seq<LoopEvent>)
    ensures
        run_loop(state, events).1 <==> (state.1 || exists|i: int|
            0 <= i < events.len() && #[trigger] session_established(events[i])),
        forall|i: int, j: int|
            0 <= i <= j <= events.len() && #[trigger] run_loop(state, events.take(i)).1 ==> #[trigger] run_loop(
                state,
                events.take(j),
            ).1,
        state.0.bars_phase < 8 ==> run_loop(state, events).0.bars_phase < 8,
    decreases events.len(),
{
    if events.len() > 0 {
        let prefix = events.drop_last();
        lemma_session_slot_only_fills(state, prefix);
        let before = run_loop(state, prefix);
        let last = events.last();
        assert(run_loop(state, events) == loop_step(before, last));
        if state.1 || exists|i: int| 0 <= i < events.len() && #[trigger] session_established(events[i]) {
            if !state.1 && !session_established(last) {
                let i = choose|i: int| 0 <= i < events.len() && #[trigger] session_established(events[i]);
                assert(i < events.len() - 1);
                assert(prefix[i] == events[i]);
            }
        } else {
            assert forall|i: int| 0 <= i < prefix.len() implies !#[trigger] session_established(prefix[i]) by {
                assert(prefix[i] == events[i]);
                assert(!session_established(events[i]));
            }
            assert(!session_established(events[events.len() - 1]));
        }
        if exists|i: int| 0 <= i < prefix.len() && #[trigger] session_established(prefix[i]) {
            let i = choose|i: int| 0 <= i < prefix.len() && #[trigger] session_established(prefix[i]);
            assert(events[i] == prefix[i]);
        }
        assert forall|i: int, j: int|
            0 <= i <= j <= events.len() && #[trigger] run_loop(state, events.take(i)).1 implies #[trigger] run_loop(
                state,
                events.take(j),
            ).1 by {
            if j == events.len() {
                assert(events.take(j) =~= events);
                if i == events.len() {
                } else {
                    assert(events.take(i) =~= prefix.take(i));
                    assert(prefix.take(prefix.len() as int) =~= prefix);
                }
            } else {
                assert(events.take(i) =~= prefix.take(i));
                assert(events.take(j) =~= prefix.take(j));
            }
        }
    } else {
        assert forall|i: int, j: int|
            0 <= i <= j <= events.len() && #[trigger] run_loop(state, events.take(i)).1 implies #[trigger] run_loop(
                state,
                events.take(j),
            ).1 by {
            assert(events.take(i) =~= events.take(j));
        }
    }
}

/// A position update (periodic, corrected or after a seek) moves only the
/// position: the playing state and every other field stay as they were.
pub proof fn lemma_position_updates_move_only_position(ui: UiView, position_ms: u32)
    ensures
        after_player_event(ui, PlayerEvent::PositionChanged { position_ms }) == (UiView {
            position_ms,
            ..ui
        }),
        after_player_event(ui, PlayerEvent::PositionCorrection { position_ms }) == (UiView {
            position_ms,
            ..ui
        }),
        after_player_event(ui, PlayerEvent::Seeked { position_ms }) == (UiView {
            position_ms,
            ..ui
        }),
        after_player_event(ui, PlayerEvent::PositionChanged { position_ms }).playing == ui.playing,
{
}

/// What each player event does to the screen, field by field: a new item
/// replaces track, artist and duration and restarts the position without
/// touching the playing state or the connection; playing and pausing set
/// the playing state and the position; loading only notes it; stopping and
/// losing the session clear the playing state; any other event changes
/// nothing.
pub proof fn lemma_player_event_effects(ui: UiView, event: PlayerEvent)
    ensures
        ({
            let after = after_player_event(ui, event);
            match event {
                PlayerEvent::TrackChanged { audio_item } => {
                    &&& after.track == audio_item.name@
                    &&& after.artist == artist_text(audio_item.unique_fields)
                    &&& after.duration_ms == audio_item.duration_ms
                    &&& after.position_ms == 0
                    &&& after.playing == ui.playing
                    &&& after.connection == ui.connection
                    &&& after.status == "Track metadata received"@
                },
                PlayerEvent::Playing { position_ms } => {
                    &&& after.playing
                    &&& after.position_ms == position_ms
                    &&& after.connection == "Connected"@
                    &&& after.status == "Playing"@
                    &&& after.track == ui.track && after.artist == ui.artist
                    &&& after.duration_ms == ui.duration_ms
                },
                PlayerEvent::Paused { position_ms } => {
                    &&& !after.playing
                    &&& after.position_ms == position_ms
                    &&& after.connection == ui.connection
                    &&& after.status == "Paused"@
                    &&& after.track == ui.track && after.artist == ui.artist
                    &&& after.duration_ms == ui.duration_ms
                },
                PlayerEvent::Loading => after == (UiView { status: "Loading track"@, ..ui }),
                PlayerEvent::Stopped => after == (UiView {
                    playing: false,
                    status: "Stopped"@,
                    ..ui
                }),
                PlayerEvent::SessionConnected => after == (UiView { connection: "Connected"@, ..ui }),
                PlayerEvent::SessionDisconnected => after == (UiView {
                    playing: false,
                    connection: "Reconnecting"@,
                    ..ui
                }),
                PlayerEvent::Other => after == ui,
                _ => after == (UiView { position_ms: after.position_ms, ..ui }),
            }
        }),
{
}

/// With a session, a pressed Left, Space or Right asks for the previous
/// track, play/pause or the next track and says so on the status line;
/// any other non-volume, non-quit key asks for nothing.
pub proof fn lemma_transport_with_session(ui: UiView, key: KeyEvent)
    requires
        actionable(key),
        !quits(key),
    ensures
        key.code == KeyCode::Left ==> key_action(key, true) == KeyAction::Previous && after_key(
            ui,
            KeyAction::Previous,
        ) == (UiView { status: "Previous requested"@, ..ui }),
        key.code == KeyCode::Char(' ') ==> key_action(key, true) == KeyAction::PlayPause && after_key(
            ui,
            KeyAction::PlayPause,
        ) == (UiView { status: "Play/pause requested"@, ..ui }),
        key.code == KeyCode::Right ==> key_action(key, true) == KeyAction::Next && after_key(
            ui,
            KeyAction::Next,
        ) == (UiView { status: "Next requested"@, ..ui }),
        key.code == KeyCode::Other ==> key_action(key, true) == KeyAction::Ignore,
        (key.code matches KeyCode::Char(c) && c != ' ') ==> key_action(key, true) == KeyAction::Ignore,
{
}

/// A volume change that worked shows the new volume and whether it went up
/// or down; one that failed keeps the volume and shows the error after a
/// fixed prefix. Nothing else on the screen changes.
pub proof fn lemma_volume_change_effects(ui: UiView, delta: i8, result: Result<u8, Seq<char>>)
    ensures
        ({
            let after = after_volume_change(ui, delta, result);
            &&& after == (UiView { volume_percent: after.volume_percent, status: after.status, ..ui })
            &&& match result {
                Ok(v) => after.volume_percent == v && (delta > 0 ==> after.status
                    == "Windows volume increased"@) && (delta <= 0 ==> after.status
                    == "Windows volume decreased"@),
                Err(e) => after.volume_percent == ui.volume_percent && after.status
                    == "Windows volume change failed: "@ + e,
            }
        }),
{
}

/// A tick moves the animation one phase on (wrapping after eight), shows the
/// volume when it could be read and keeps the old one otherwise; nothing
/// else changes.
pub proof fn lemma_tick_effects(ui: UiView, volume_percent: Option<u8>)
    ensures
        ({
            let after = after_tick(ui, volume_percent);
            &&& after == (UiView {
                bars_phase: after.bars_phase,
                volume_percent: after.volume_percent,
                ..ui
            })
            &&& ui.bars_phase < 7 ==> after.bars_phase == ui.bars_phase + 1
            &&& ui.bars_phase == 7 ==> after.bars_phase == 0
            &&& after.volume_percent == match volume_percent {
                Some(v) => v,
                None => ui.volume_percent,
            }
        }),
{
}

/// The playback line starts with "Playing" or "Paused" as the screen is
/// playing or not, and then shows the position's and the duration's clock
/// texts separated by " / ".
pub proof fn lemma_playback_line_layout(ui: UiView)
    ensures
        ({
            let line = playback_text(ui);
            let word = if ui.playing {
                "Playing"@
            } else {
                "Paused"@
            };
            let pos = clock_text(ui.position_ms);
            let dur = clock_text(ui.duration_ms);
            &&& line.len() == word.len() + 2 + pos.len() + 3 + dur.len()
            &&& line.subrange(0, word.len() as int) == word
            &&& line.subrange(word.len() + 2int, word.len() + 2int + pos.len()) == pos
            &&& line.subrange(line.len() - dur.len(), line.len() as int) == dur
        }),
{
    let word = if ui.playing {
        "Playing"@
    } else {
        "Paused"@
    };
    let pos = clock_text(ui.position_ms);
    let dur = clock_text(ui.duration_ms);
    let line = playback_text(ui);
    reveal_strlit("  ");
    reveal_strlit(" / ");
    assert(line == word + "  "@ + pos + " / "@ + dur);
    assert(line.subrange(0, word.len() as int) =~= word);
    assert(line.subrange(word.len() + 2int, word.len() + 2int + pos.len()) =~= pos);
    assert(line.subrange(line.len() - dur.len(), line.len() as int) =~= dur);
}

/// The runtime lines are four: connection, output, volume and status, each
/// after its label; the volume is written in decimal digits that read back
/// as the volume, followed by `%`.
pub proof fn lemma_runtime_lines_layout(ui: UiView)
    ensures
        ({
            let lines = runtime_texts(ui);
            let volume = lines[2];
            let digits = volume.subrange(8, volume.len() - 1);
            &&& lines.len() == 4
            &&& lines[0] == "Connection: "@ + ui.connection
            &&& lines[1] == "Output: "@ + ui.output
            &&& lines[3] == "Status: "@ + ui.status
            &&& volume.len() >= 10
            &&& volume.subrange(0, 8) == "Volume: "@
            &&& volume.last() == '%'
            &&& parse_decimal(digits) == ui.volume_percent
            &&& forall|i: int| 0 <= i < digits.len() ==> #[trigger] is_decimal_digit(digits[i])
        }),
{
    let d = decimal(ui.volume_percent as nat);
    lemma_decimal_text(ui.volume_percent as nat);
    let lines = runtime_texts(ui);
    let volume = lines[2];
    reveal_strlit("Volume: ");
    reveal_strlit("%");
    assert(volume == "Volume: "@ + d + "%"@);
    assert(volume.subrange(8, volume.len() - 1) =~= d);
    assert(volume.subrange(0, 8) =~= "Volume: "@);
}

} // verus!
