use vstd::prelude::*;

verus! {

/// What a keyboard reader does after it has waited for input.
#[derive(Debug, Clone, Copy, PartialEq, Eq, Structural)]
pub enum KeyAction {
    /// Leave the loop: the stop signal has arrived.
    Stop,
    /// Wait again: there was nothing to read.
    Ignore,
    /// Push the character that was read.
    Push(char),
}

/// The decision of a keyboard reader, given what its wait has reported. The
/// stop signal goes before any input. Input counts only if the input was
/// reported ready and exactly one byte was read from it.
pub open spec fn spec_key_action(
    stop_ready: bool,
    input_ready: bool,
    bytes_read: usize,
    byte: u8,
) -> KeyAction {
    if stop_ready {
        KeyAction::Stop
    } else if !input_ready || bytes_read != 1 {
        KeyAction::Ignore
    } else {
        KeyAction::Push(byte as char)
    }
}

/// Decides what a keyboard reader does next. `bytes_read` and `byte` are
/// looked at only where the input was reported ready.
pub fn key_action(stop_ready: bool, input_ready: bool, bytes_read: usize, byte: u8) -> (action:
    KeyAction)
    ensures
        action == spec_key_action(stop_ready, input_ready, bytes_read, byte),
{
    if stop_ready {
        KeyAction::Stop
    } else if !input_ready || bytes_read != 1 {
        KeyAction::Ignore
    } else {
        KeyAction::Push(byte as char)
    }
}

/// The local modes of a terminal that hands over every key at once and
/// does not echo it: `local_modes` without the bits of `canonical` and of
/// `echo`.
pub fn unbuffered_modes(local_modes: u32, canonical: u32, echo: u32) -> (modes: u32)
    ensures
        modes == local_modes & !(canonical | echo),
{
    local_modes & !(canonical | echo)
}

} // verus!
