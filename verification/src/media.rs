//! `javax.microedition.media`: player states and events, controls, and the
//! SMAF player, whose sound the audio backend plays.
use vstd::prelude::*;

use crate::errors::UiError;

verus! {

/// `javax.microedition.media.Player`: the states a player reports.
pub struct Player;

impl Player {
    pub const UNREALIZED: i32 = 100;
    pub const REALIZED: i32 = 200;
    pub const PREFETCHED: i32 = 300;
    pub const STARTED: i32 = 400;
    pub const CLOSED: i32 = 0;
    /// A time or duration the player does not know.
    pub const TIME_UNKNOWN: i64 = -1;
}

/// The events a player reports to its listeners.
#[derive(Debug, Clone, Copy, PartialEq, Eq, Structural)]
pub enum PlayerEvent {
    Started,
    Stopped,
    EndOfMedia,
    DurationUpdated,
    DeviceUnavailable,
    DeviceAvailable,
    VolumeChanged,
    Error,
    Closed,
}

/// The name each event is reported under.
pub open spec fn player_event_name(e: PlayerEvent) -> Seq<char> {
    match e {
        PlayerEvent::Started => "started"@,
        PlayerEvent::Stopped => "stopped"@,
        PlayerEvent::EndOfMedia => "endOfMedia"@,
        PlayerEvent::DurationUpdated => "durationUpdated"@,
        PlayerEvent::DeviceUnavailable => "deviceUnavailable"@,
        PlayerEvent::DeviceAvailable => "deviceAvailable"@,
        PlayerEvent::VolumeChanged => "volumeChanged"@,
        PlayerEvent::Error => "error"@,
        PlayerEvent::Closed => "closed"@,
    }
}

/// `javax.microedition.media.PlayerListener`: the event names.
pub struct PlayerListener;

impl PlayerListener {
    /// The name `event` is reported under.
    pub fn event_name(event: PlayerEvent) -> (r: &'static str)
        ensures
            r@ == player_event_name(event),
    {
        match event {
            PlayerEvent::Started => "started",
            PlayerEvent::Stopped => "stopped",
            PlayerEvent::EndOfMedia => "endOfMedia",
            PlayerEvent::DurationUpdated => "durationUpdated",
            PlayerEvent::DeviceUnavailable => "deviceUnavailable",
            PlayerEvent::DeviceAvailable => "deviceAvailable",
            PlayerEvent::VolumeChanged => "volumeChanged",
            PlayerEvent::Error => "error",
            PlayerEvent::Closed => "closed",
        }
    }
}

/// `javax.microedition.media.Control`: a control of a player.
pub struct Control;

/// `javax.microedition.media.Controllable`: what offers controls.
pub trait Controllable {
    /// The control of `control_type`, if offered; a missing type is refused.
    fn get_control(&self, control_type: Option<&str>) -> Result<Option<Control>, UiError>;

    /// Every control offered.
    fn get_controls(&self) -> Vec<Control>;
}

/// `net.wie.SmafPlayer`: plays a SMAF sound loaded into the audio backend.
/// It has no controls and cannot seek; it reports itself prefetched.
pub struct SmafPlayer {
    audio_handle: u32,
}

impl SmafPlayer {
    /// A player of the sound the backend loaded under `audio_handle`.
    pub fn new(audio_handle: u32) -> (r: SmafPlayer)
        ensures
            r.spec_audio_handle() == audio_handle,
    {
        SmafPlayer { audio_handle }
    }

    pub closed spec fn spec_audio_handle(&self) -> u32 {
        self.audio_handle
    }

    /// The backend handle the player plays, stops and closes.
    pub fn audio_handle(&self) -> (r: u32)
        ensures
            r == self.spec_audio_handle(),
    {
        self.audio_handle
    }

    pub fn get_state(&self) -> (r: i32)
        ensures
            r == Player::PREFETCHED,
    {
        Player::PREFETCHED
    }

    pub fn get_media_time(&self) -> (r: i64)
        ensures
            r == Player::TIME_UNKNOWN,
    {
        Player::TIME_UNKNOWN
    }

    pub fn get_duration(&self) -> (r: i64)
        ensures
            r == Player::TIME_UNKNOWN,
    {
        Player::TIME_UNKNOWN
    }

    pub fn get_content_type(&self) -> (r: &'static str)
        ensures
            r@ == "application/vnd.smaf"@,
    {
        "application/vnd.smaf"
    }

    /// Seeking is not supported.
    pub fn set_media_time(&self, now: i64) -> (r: Result<i64, UiError>)
        ensures
            r == Err::<i64, UiError>(UiError::Media),
    {
        Err(UiError::Media)
    }

    /// A loop count is positive, or -1 for looping forever; others are refused.
    pub fn set_loop_count(&self, count: i32) -> (r: Result<(), UiError>)
        ensures
            r == (if count == 0 || count < -1 {
                Err(UiError::IllegalArgument)
            } else {
                Ok(())
            }),
    {
        if count == 0 || count < -1 {
            Err(UiError::IllegalArgument)
        } else {
            Ok(())
        }
    }
}

impl Controllable for SmafPlayer {
    fn get_control(&self, control_type: Option<&str>) -> (r: Result<Option<Control>, UiError>)
        ensures
            control_type is None ==> (r matches Err(e) && e == UiError::IllegalArgument),
            control_type is Some ==> (r matches Ok(c) && c is None),
    {
        match control_type {
            None => Err(UiError::IllegalArgument),
            Some(_) => Ok(None),
        }
    }

    fn get_controls(&self) -> (r: Vec<Control>)
        ensures
            r@.len() == 0,
    {
        Vec::new()
    }
}

} // verus!
