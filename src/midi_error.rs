use vstd::prelude::*;

use crate::text::{contains_seq, text_contains};

verus! {

/// The operating system a hint is written for.
#[derive(Debug, Clone, Copy, PartialEq, Eq, Structural)]
pub enum Platform {
    MacOs,
    Linux,
    Windows,
    Other,
}

/// Setup advice for a platform that has some.
pub open spec fn hint_text_of(platform: Platform) -> Seq<char> {
    match platform {
        Platform::MacOs => MACOS_HINT@,
        Platform::Linux => LINUX_HINT@,
        Platform::Windows => WINDOWS_HINT@,
        Platform::Other => Seq::empty(),
    }
}

/// A message about a missing destination: it says "no ports" or "not found".
pub open spec fn reports_missing_port(message: Seq<char>) -> bool {
    contains_seq(message, NO_PORTS@) || contains_seq(message, NOT_FOUND@)
}

/// The advice attached to `message` on `platform`.
pub open spec fn platform_hint_of(message: Seq<char>, platform: Platform) -> Option<Seq<char>> {
    if platform != Platform::Other && reports_missing_port(message) {
        Some(hint_text_of(platform))
    } else {
        None
    }
}

/// Marks a message about an empty destination list.
pub const NO_PORTS: &'static str = "no ports";

/// Marks a message about a destination that was not found.
pub const NOT_FOUND: &'static str = "not found";

/// Setup advice for macOS.
pub const MACOS_HINT: &'static str = "macOS MIDI Setup:\n\
    1. Open 'Audio MIDI Setup' application (in /Applications/Utilities/)\n\
    2. Go to Window → Show MIDI Studio\n\
    3. Enable 'IAC Driver' for virtual MIDI ports\n\
    4. Or connect a physical MIDI device\n\
    5. If using virtual instrument (e.g., Logic, GarageBand), launch it first";

/// Setup advice for Linux.
pub const LINUX_HINT: &'static str = "Linux ALSA Setup:\n\
    1. Install ALSA utilities: sudo apt-get install alsa-utils\n\
    2. Check ALSA devices: aconnect -l\n\
    3. Create virtual MIDI port: sudo modprobe snd-virmidi\n\
    4. Or use software synth: timidity -iA (install via: sudo apt-get install timidity)\n\
    5. Check permissions: user should be in 'audio' group";

/// Setup advice for Windows.
pub const WINDOWS_HINT: &'static str = "Windows MIDI Setup:\n\
    1. Install a virtual MIDI driver (e.g., loopMIDI from Tobias Erichsen)\n\
    2. Download from: https://www.tobias-erichsen.de/software/loopmidi.html\n\
    3. Create a virtual port in loopMIDI\n\
    4. Or connect a physical MIDI device\n\
    5. Check Device Manager for MIDI device status";

/// An output-device error with platform-specific setup advice.
#[derive(Debug)]
pub struct MidiError {
    /// What went wrong.
    pub message: String,
    /// How to set up a device, when the message is about a missing one.
    pub platform_hint: Option<String>,
}

impl MidiError {
    /// An error with the advice that fits `message` on `platform`.
    pub fn new(message: String, platform: Platform) -> (r: Self)
        ensures
            r.message@ == message@,
            r.platform_hint matches Some(h) ==> platform_hint_of(message@, platform) == Some(h@),
            r.platform_hint is None ==> platform_hint_of(message@, platform) is None,
    {
        let platform_hint = Self::get_platform_hint(message.as_str(), platform);
        MidiError { message, platform_hint }
    }

    /// The advice for `message` on `platform`, if any.
    pub fn get_platform_hint(message: &str, platform: Platform) -> (r: Option<String>)
        ensures
            r matches Some(h) ==> platform_hint_of(message@, platform) == Some(h@),
            r is None ==> platform_hint_of(message@, platform) is None,
    {
        if !text_contains(message, NO_PORTS) && !text_contains(message, NOT_FOUND) {
            return None;
        }
        match platform {
            Platform::MacOs => Some(String::from_str(MACOS_HINT)),
            Platform::Linux => Some(String::from_str(LINUX_HINT)),
            Platform::Windows => Some(String::from_str(WINDOWS_HINT)),
            Platform::Other => None,
        }
    }
}

} // verus!
