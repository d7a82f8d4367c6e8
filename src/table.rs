use vstd::prelude::*;

use crate::definitions::{is_packable, pack, packed, Action, State};

verus! {

/// C0 controls that are executed in most states: all of `0x00..=0x1f` but
/// CAN, SUB and ESC, which the `Anywhere` overlay handles.
pub open spec fn is_c0_execute(byte: u8) -> bool {
    byte <= 0x17 || byte == 0x19 || (0x1c <= byte && byte <= 0x1f)
}

/// Bytes that make up a numeric parameter: the digits and `;`.
pub open spec fn is_param_byte(byte: u8) -> bool {
    (0x30 <= byte && byte <= 0x39) || byte == 0x3b
}

/// The transition of the escape sequence machine from `state` on `byte`:
/// the next state and the transition action. `(Anywhere, Noop)` stands for
/// "no transition"; in the `Anywhere` overlay it means "no override".
pub open spec fn vt_transition(state: State, byte: u8) -> (State, Action) {
    let none = (State::Anywhere, Action::Noop);
    match state {
        State::Anywhere => {
            if byte == 0x18 || byte == 0x1a {
                (State::Ground, Action::Execute)
            } else if byte == 0x1b {
                (State::Escape, Action::Noop)
            } else {
                none
            }
        },
        State::Ground => {
            if is_c0_execute(byte) {
                (State::Anywhere, Action::Execute)
            } else if 0x20 <= byte && byte <= 0x7f {
                (State::Anywhere, Action::Print)
            } else if byte >= 0x80 {
                (State::Utf8, Action::BeginUtf8)
            } else {
                none
            }
        },
        State::Escape => {
            if is_c0_execute(byte) {
                (State::Anywhere, Action::Execute)
            } else if byte == 0x7f {
                (State::Anywhere, Action::Ignore)
            } else if 0x20 <= byte && byte <= 0x2f {
                (State::EscapeIntermediate, Action::Collect)
            } else if byte == 0x50 {
                (State::DcsEntry, Action::CheckDcsSosPmApc)
            } else if byte == 0x58 || byte == 0x5e || byte == 0x5f {
                (State::SosPmApcString, Action::CheckDcsSosPmApc)
            } else if byte == 0x5b {
                (State::CsiEntry, Action::Noop)
            } else if byte == 0x5d {
                (State::OscString, Action::Noop)
            } else if 0x30 <= byte && byte <= 0x7e {
                (State::Ground, Action::EscDispatch)
            } else {
                none
            }
        },
        State::EscapeIntermediate => {
            if is_c0_execute(byte) {
                (State::Anywhere, Action::Execute)
            } else if 0x20 <= byte && byte <= 0x2f {
                (State::Anywhere, Action::Collect)
            } else if byte == 0x7f {
                (State::Anywhere, Action::Ignore)
            } else if 0x30 <= byte && byte <= 0x7e {
                (State::Ground, Action::EscDispatch)
            } else {
                none
            }
        },
        State::CsiEntry => {
            if is_c0_execute(byte) {
                (State::Anywhere, Action::Execute)
            } else if byte == 0x7f {
                (State::Anywhere, Action::Ignore)
            } else if 0x20 <= byte && byte <= 0x2f {
                (State::CsiIntermediate, Action::Collect)
            } else if byte == 0x3a {
                (State::CsiIgnore, Action::Noop)
            } else if is_param_byte(byte) {
                (State::CsiParam, Action::Param)
            } else if 0x3c <= byte && byte <= 0x3f {
                (State::CsiParam, Action::Collect)
            } else if 0x40 <= byte && byte <= 0x7e {
                (State::Ground, Action::CsiDispatch)
            } else {
                none
            }
        },
        State::CsiIgnore => {
            if is_c0_execute(byte) {
                (State::Anywhere, Action::Execute)
            } else if (0x20 <= byte && byte <= 0x3f) || byte == 0x7f {
                (State::Anywhere, Action::Ignore)
            } else if 0x40 <= byte && byte <= 0x7e {
                (State::Ground, Action::Noop)
            } else {
                none
            }
        },
        State::CsiParam => {
            if is_c0_execute(byte) {
                (State::Anywhere, Action::Execute)
            } else if is_param_byte(byte) {
                (State::Anywhere, Action::Param)
            } else if byte == 0x7f {
                (State::Anywhere, Action::Ignore)
            } else if byte == 0x3a || (0x3c <= byte && byte <= 0x3f) {
                (State::CsiIgnore, Action::Noop)
            } else if 0x20 <= byte && byte <= 0x2f {
                (State::CsiIntermediate, Action::Collect)
            } else if 0x40 <= byte && byte <= 0x7e {
                (State::Ground, Action::CsiDispatch)
            } else {
                none
            }
        },
        State::CsiIntermediate => {
            if is_c0_execute(byte) {
                (State::Anywhere, Action::Execute)
            } else if 0x20 <= byte && byte <= 0x2f {
                (State::Anywhere, Action::Collect)
            } else if byte == 0x7f {
                (State::Anywhere, Action::Ignore)
            } else if 0x30 <= byte && byte <= 0x3f {
                (State::CsiIgnore, Action::Noop)
            } else if 0x40 <= byte && byte <= 0x7e {
                (State::Ground, Action::CsiDispatch)
            } else {
                none
            }
        },
        State::DcsEntry => {
            if is_c0_execute(byte) || byte == 0x7f {
                (State::Anywhere, Action::Ignore)
            } else if byte == 0x3a {
                (State::DcsIgnore, Action::Noop)
            } else if 0x20 <= byte && byte <= 0x2f {
                (State::DcsIntermediate, Action::Collect)
            } else if is_param_byte(byte) {
                (State::DcsParam, Action::Param)
            } else if 0x3c <= byte && byte <= 0x3f {
                (State::DcsParam, Action::Collect)
            } else if 0x40 <= byte && byte <= 0x7e {
                (State::DcsPassthrough, Action::Noop)
            } else {
                none
            }
        },
        State::DcsIntermediate => {
            if is_c0_execute(byte) || byte == 0x7f {
                (State::Anywhere, Action::Ignore)
            } else if 0x20 <= byte && byte <= 0x2f {
                (State::Anywhere, Action::Collect)
            } else if 0x30 <= byte && byte <= 0x3f {
                (State::DcsIgnore, Action::Noop)
            } else if 0x40 <= byte && byte <= 0x7e {
                (State::DcsPassthrough, Action::Noop)
            } else {
                none
            }
        },
        State::DcsIgnore => {
            if is_c0_execute(byte) || (0x20 <= byte && byte <= 0x7f) {
                (State::Anywhere, Action::Ignore)
            } else if byte == 0x9c {
                (State::Ground, Action::Noop)
            } else {
                none
            }
        },
        State::DcsParam => {
            if is_c0_execute(byte) || byte == 0x7f {
                (State::Anywhere, Action::Ignore)
            } else if is_param_byte(byte) {
                (State::Anywhere, Action::Param)
            } else if byte == 0x3a || (0x3c <= byte && byte <= 0x3f) {
                (State::DcsIgnore, Action::Noop)
            } else if 0x20 <= byte && byte <= 0x2f {
                (State::DcsIntermediate, Action::Collect)
            } else if 0x40 <= byte && byte <= 0x7e {
                (State::DcsPassthrough, Action::Noop)
            } else {
                none
            }
        },
        State::DcsPassthrough => {
            if is_c0_execute(byte) || (0x20 <= byte && byte <= 0x7e) {
                (State::Anywhere, Action::Put)
            } else if byte == 0x7f {
                (State::Anywhere, Action::Ignore)
            } else if byte == 0x9c {
                (State::Ground, Action::Noop)
            } else {
                none
            }
        },
        State::SosPmApcString => {
            if is_c0_execute(byte) || (0x20 <= byte && byte <= 0x7f) {
                (State::Anywhere, Action::OpaquePut)
            } else if byte == 0x9c {
                (State::Ground, Action::Noop)
            } else {
                none
            }
        },
        State::OscString => {
            if byte == 0x07 {
                (State::Ground, Action::Noop)
            } else if is_c0_execute(byte) {
                (State::Anywhere, Action::Ignore)
            } else if byte >= 0x20 {
                (State::Anywhere, Action::OscPut)
            } else {
                none
            }
        },
        State::Utf8 => none,
    }
}

/// The action performed on entering a state.
pub open spec fn entry_action(state: State) -> Action {
    match state {
        State::CsiEntry | State::DcsEntry | State::Escape => Action::Clear,
        State::DcsPassthrough => Action::Hook,
        State::OscString => Action::OscStart,
        _ => Action::Noop,
    }
}

/// The action performed on leaving a state.
pub open spec fn exit_action(state: State) -> Action {
    match state {
        State::DcsPassthrough => Action::Unhook,
        State::OscString => Action::OscEnd,
        _ => Action::Noop,
    }
}

/// Every transition of the table has an action that fits in four bits.
pub proof fn lemma_transition_packable(state: State, byte: u8)
    ensures
        is_packable(vt_transition(state, byte).1),
{
}

/// A CSI sequence is dispatched only on a transition back to `Ground`.
pub proof fn lemma_csi_dispatch_to_ground(state: State, byte: u8)
    ensures
        vt_transition(state, byte).1 == Action::CsiDispatch ==> vt_transition(state, byte).0
            == State::Ground,
{
}

/// In the `Anywhere` overlay, a zero packed byte means "no override".
pub proof fn lemma_anywhere_zero(byte: u8)
    ensures
        (packed_transition(State::Anywhere, byte) == 0) == (vt_transition(State::Anywhere, byte)
            == (State::Anywhere, Action::Noop)),
{
}

/// The packed transition byte of `state` on `byte`.
pub open spec fn packed_transition(state: State, byte: u8) -> u8 {
    packed(vt_transition(state, byte).0, vt_transition(state, byte).1)
}

fn c0_execute(byte: u8) -> (r: bool)
    ensures
        r == is_c0_execute(byte),
{
    byte <= 0x17 || byte == 0x19 || (0x1c <= byte && byte <= 0x1f)
}

fn param_byte(byte: u8) -> (r: bool)
    ensures
        r == is_param_byte(byte),
{
    (0x30 <= byte && byte <= 0x39) || byte == 0x3b
}

/// Looks up the transition of `state` on `byte`, packed into one byte.
pub fn state_change(state: State, byte: u8) -> (r: u8)
    ensures
        r == packed_transition(state, byte),
{
    let none = (State::Anywhere, Action::Noop);
    let (next, action) = match state {
        State::Anywhere => {
            if byte == 0x18 || byte == 0x1a {
                (State::Ground, Action::Execute)
            } else if byte == 0x1b {
                (State::Escape, Action::Noop)
            } else {
                none
            }
        },
        State::Ground => {
            if c0_execute(byte) {
                (State::Anywhere, Action::Execute)
            } else if 0x20 <= byte && byte <= 0x7f {
                (State::Anywhere, Action::Print)
            } else if byte >= 0x80 {
                (State::Utf8, Action::BeginUtf8)
            } else {
                none
            }
        },
        State::Escape => {
            if c0_execute(byte) {
                (State::Anywhere, Action::Execute)
            } else if byte == 0x7f {
                (State::Anywhere, Action::Ignore)
            } else if 0x20 <= byte && byte <= 0x2f {
                (State::EscapeIntermediate, Action::Collect)
            } else if byte == 0x50 {
                (State::DcsEntry, Action::CheckDcsSosPmApc)
            } else if byte == 0x58 || byte == 0x5e || byte == 0x5f {
                (State::SosPmApcString, Action::CheckDcsSosPmApc)
            } else if byte == 0x5b {
                (State::CsiEntry, Action::Noop)
            } else if byte == 0x5d {
                (State::OscString, Action::Noop)
            } else if 0x30 <= byte && byte <= 0x7e {
                (State::Ground, Action::EscDispatch)
            } else {
                none
            }
        },
        State::EscapeIntermediate => {
            if c0_execute(byte) {
                (State::Anywhere, Action::Execute)
            } else if 0x20 <= byte && byte <= 0x2f {
                (State::Anywhere, Action::Collect)
            } else if byte == 0x7f {
                (State::Anywhere, Action::Ignore)
            } else if 0x30 <= byte && byte <= 0x7e {
                (State::Ground, Action::EscDispatch)
            } else {
                none
            }
        },
        State::CsiEntry => {
            if c0_execute(byte) {
                (State::Anywhere, Action::Execute)
            } else if byte == 0x7f {
                (State::Anywhere, Action::Ignore)
            } else if 0x20 <= byte && byte <= 0x2f {
                (State::CsiIntermediate, Action::Collect)
            } else if byte == 0x3a {
                (State::CsiIgnore, Action::Noop)
            } else if param_byte(byte) {
                (State::CsiParam, Action::Param)
            } else if 0x3c <= byte && byte <= 0x3f {
                (State::CsiParam, Action::Collect)
            } else if 0x40 <= byte && byte <= 0x7e {
                (State::Ground, Action::CsiDispatch)
            } else {
                none
            }
        },
        State::CsiIgnore => {
            if c0_execute(byte) {
                (State::Anywhere, Action::Execute)
            } else if (0x20 <= byte && byte <= 0x3f) || byte == 0x7f {
                (State::Anywhere, Action::Ignore)
            } else if 0x40 <= byte && byte <= 0x7e {
                (State::Ground, Action::Noop)
            } else {
                none
            }
        },
        State::CsiParam => {
            if c0_execute(byte) {
                (State::Anywhere, Action::Execute)
            } else if param_byte(byte) {
                (State::Anywhere, Action::Param)
            } else if byte == 0x7f {
                (State::Anywhere, Action::Ignore)
            } else if byte == 0x3a || (0x3c <= byte && byte <= 0x3f) {
                (State::CsiIgnore, Action::Noop)
            } else if 0x20 <= byte && byte <= 0x2f {
                (State::CsiIntermediate, Action::Collect)
            } else if 0x40 <= byte && byte <= 0x7e {
                (State::Ground, Action::CsiDispatch)
            } else {
                none
            }
        },
        State::CsiIntermediate => {
            if c0_execute(byte) {
                (State::Anywhere, Action::Execute)
            } else if 0x20 <= byte && byte <= 0x2f {
                (State::Anywhere, Action::Collect)
            } else if byte == 0x7f {
                (State::Anywhere, Action::Ignore)
            } else if 0x30 <= byte && byte <= 0x3f {
                (State::CsiIgnore, Action::Noop)
            } else if 0x40 <= byte && byte <= 0x7e {
                (State::Ground, Action::CsiDispatch)
            } else {
                none
            }
        },
        State::DcsEntry => {
            if c0_execute(byte) || byte == 0x7f {
                (State::Anywhere, Action::Ignore)
            } else if byte == 0x3a {
                (State::DcsIgnore, Action::Noop)
            } else if 0x20 <= byte && byte <= 0x2f {
                (State::DcsIntermediate, Action::Collect)
            } else if param_byte(byte) {
                (State::DcsParam, Action::Param)
            } else if 0x3c <= byte && byte <= 0x3f {
                (State::DcsParam, Action::Collect)
            } else if 0x40 <= byte && byte <= 0x7e {
                (State::DcsPassthrough, Action::Noop)
            } else {
                none
            }
        },
        State::DcsIntermediate => {
            if c0_execute(byte) || byte == 0x7f {
                (State::Anywhere, Action::Ignore)
            } else if 0x20 <= byte && byte <= 0x2f {
                (State::Anywhere, Action::Collect)
            } else if 0x30 <= byte && byte <= 0x3f {
                (State::DcsIgnore, Action::Noop)
            } else if 0x40 <= byte && byte <= 0x7e {
                (State::DcsPassthrough, Action::Noop)
            } else {
                none
            }
        },
        State::DcsIgnore => {
            if c0_execute(byte) || (0x20 <= byte && byte <= 0x7f) {
                (State::Anywhere, Action::Ignore)
            } else if byte == 0x9c {
                (State::Ground, Action::Noop)
            } else {
                none
            }
        },
        State::DcsParam => {
            if c0_execute(byte) || byte == 0x7f {
                (State::Anywhere, Action::Ignore)
            } else if param_byte(byte) {
                (State::Anywhere, Action::Param)
            } else if byte == 0x3a || (0x3c <= byte && byte <= 0x3f) {
                (State::DcsIgnore, Action::Noop)
            } else if 0x20 <= byte && byte <= 0x2f {
                (State::DcsIntermediate, Action::Collect)
            } else if 0x40 <= byte && byte <= 0x7e {
                (State::DcsPassthrough, Action::Noop)
            } else {
                none
            }
        },
        State::DcsPassthrough => {
            if c0_execute(byte) || (0x20 <= byte && byte <= 0x7e) {
                (State::Anywhere, Action::Put)
            } else if byte == 0x7f {
                (State::Anywhere, Action::Ignore)
            } else if byte == 0x9c {
                (State::Ground, Action::Noop)
            } else {
                none
            }
        },
        State::SosPmApcString => {
            if c0_execute(byte) || (0x20 <= byte && byte <= 0x7f) {
                (State::Anywhere, Action::OpaquePut)
            } else if byte == 0x9c {
                (State::Ground, Action::Noop)
            } else {
                none
            }
        },
        State::OscString => {
            if byte == 0x07 {
                (State::Ground, Action::Noop)
            } else if c0_execute(byte) {
                (State::Anywhere, Action::Ignore)
            } else if byte >= 0x20 {
                (State::Anywhere, Action::OscPut)
            } else {
                none
            }
        },
        State::Utf8 => none,
    };
    pack(next, action)
}

/// The action performed on entering `state`.
pub fn entry_action_of(state: State) -> (r: Action)
    ensures
        r == entry_action(state),
{
    match state {
        State::CsiEntry | State::DcsEntry | State::Escape => Action::Clear,
        State::DcsPassthrough => Action::Hook,
        State::OscString => Action::OscStart,
        _ => Action::Noop,
    }
}

/// The action performed on leaving `state`.
pub fn exit_action_of(state: State) -> (r: Action)
    ensures
        r == exit_action(state),
{
    match state {
        State::DcsPassthrough => Action::Unhook,
        State::OscString => Action::OscEnd,
        _ => Action::Noop,
    }
}

} // verus!
