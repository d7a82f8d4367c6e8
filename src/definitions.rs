use vstd::prelude::*;

verus! {

/// States of the escape sequence machine.
///
/// `Anywhere` is an overlay consulted before the current state and is never
/// the current state itself; `Utf8` means that a multi-byte UTF-8 sequence
/// is being decoded.
#[derive(Debug, Clone, Copy, PartialEq, Eq, Structural)]
pub enum State {
    Anywhere,
    CsiEntry,
    CsiIgnore,
    CsiIntermediate,
    CsiParam,
    DcsEntry,
    DcsIgnore,
    DcsIntermediate,
    DcsParam,
    DcsPassthrough,
    Escape,
    EscapeIntermediate,
    Ground,
    OscString,
    SosPmApcString,
    Utf8,
}

/// Actions of the escape sequence machine.
///
/// The first thirteen fit in the four action bits of a packed transition;
/// the rest only occur as entry or exit actions of a state.
#[derive(Debug, Clone, Copy, PartialEq, Eq, Structural)]
pub enum Action {
    Noop,
    Collect,
    CsiDispatch,
    EscDispatch,
    Execute,
    Ignore,
    OscPut,
    Param,
    Print,
    Put,
    BeginUtf8,
    /// A byte of an SOS, PM or APC string; the string's content is discarded.
    OpaquePut,
    /// The introducer of a DCS, SOS, PM or APC string, which is refused when
    /// those strings are disabled.
    CheckDcsSosPmApc,
    Clear,
    Hook,
    Unhook,
    OscStart,
    OscEnd,
}

/// Kinds of opaque strings: Start of String, Privacy Message and
/// Application Program Command.
#[derive(Debug, Clone, Copy, PartialEq, Eq, Structural)]
pub enum OpaqueSequenceKind {
    Sos,
    Pm,
    Apc,
}

/// The four-bit code of a state in a packed transition.
pub open spec fn state_code(state: State) -> u8 {
    match state {
        State::Anywhere => 0,
        State::CsiEntry => 1,
        State::CsiIgnore => 2,
        State::CsiIntermediate => 3,
        State::CsiParam => 4,
        State::DcsEntry => 5,
        State::DcsIgnore => 6,
        State::DcsIntermediate => 7,
        State::DcsParam => 8,
        State::DcsPassthrough => 9,
        State::Escape => 10,
        State::EscapeIntermediate => 11,
        State::Ground => 12,
        State::OscString => 13,
        State::SosPmApcString => 14,
        State::Utf8 => 15,
    }
}

/// The state with a given four-bit code.
pub open spec fn state_of_code(code: u8) -> State {
    if code == 0 {
        State::Anywhere
    } else if code == 1 {
        State::CsiEntry
    } else if code == 2 {
        State::CsiIgnore
    } else if code == 3 {
        State::CsiIntermediate
    } else if code == 4 {
        State::CsiParam
    } else if code == 5 {
        State::DcsEntry
    } else if code == 6 {
        State::DcsIgnore
    } else if code == 7 {
        State::DcsIntermediate
    } else if code == 8 {
        State::DcsParam
    } else if code == 9 {
        State::DcsPassthrough
    } else if code == 10 {
        State::Escape
    } else if code == 11 {
        State::EscapeIntermediate
    } else if code == 12 {
        State::Ground
    } else if code == 13 {
        State::OscString
    } else if code == 14 {
        State::SosPmApcString
    } else {
        State::Utf8
    }
}

/// Whether an action has a four-bit code and can stand in a packed transition.
pub open spec fn is_packable(action: Action) -> bool {
    match action {
        Action::Clear | Action::Hook | Action::Unhook | Action::OscStart | Action::OscEnd => false,
        _ => true,
    }
}

/// The four-bit code of a packable action.
pub open spec fn action_code(action: Action) -> u8 {
    match action {
        Action::Noop => 0,
        Action::Collect => 1,
        Action::CsiDispatch => 2,
        Action::EscDispatch => 3,
        Action::Execute => 4,
        Action::Ignore => 5,
        Action::OscPut => 6,
        Action::Param => 7,
        Action::Print => 8,
        Action::Put => 9,
        Action::BeginUtf8 => 10,
        Action::OpaquePut => 11,
        Action::CheckDcsSosPmApc => 12,
        _ => 0,
    }
}

/// The action with a given four-bit code; codes without an action stand for
/// `Noop`.
pub open spec fn action_of_code(code: u8) -> Action {
    if code == 1 {
        Action::Collect
    } else if code == 2 {
        Action::CsiDispatch
    } else if code == 3 {
        Action::EscDispatch
    } else if code == 4 {
        Action::Execute
    } else if code == 5 {
        Action::Ignore
    } else if code == 6 {
        Action::OscPut
    } else if code == 7 {
        Action::Param
    } else if code == 8 {
        Action::Print
    } else if code == 9 {
        Action::Put
    } else if code == 10 {
        Action::BeginUtf8
    } else if code == 11 {
        Action::OpaquePut
    } else if code == 12 {
        Action::CheckDcsSosPmApc
    } else {
        Action::Noop
    }
}

/// The packed transition byte: the action in the high four bits, the state
/// in the low four bits.
pub open spec fn packed(state: State, action: Action) -> u8 {
    (action_code(action) * 16 + state_code(state)) as u8
}

/// Packs a state and an action into one transition byte.
pub fn pack(state: State, action: Action) -> (r: u8)
    ensures
        r == packed(state, action),
        r & 0x0f == state_code(state),
        r >> 4u8 == action_code(action),
{
    let s: u8 = match state {
        State::Anywhere => 0,
        State::CsiEntry => 1,
        State::CsiIgnore => 2,
        State::CsiIntermediate => 3,
        State::CsiParam => 4,
        State::DcsEntry => 5,
        State::DcsIgnore => 6,
        State::DcsIntermediate => 7,
        State::DcsParam => 8,
        State::DcsPassthrough => 9,
        State::Escape => 10,
        State::EscapeIntermediate => 11,
        State::Ground => 12,
        State::OscString => 13,
        State::SosPmApcString => 14,
        State::Utf8 => 15,
    };
    let a: u8 = match action {
        Action::Noop => 0,
        Action::Collect => 1,
        Action::CsiDispatch => 2,
        Action::EscDispatch => 3,
        Action::Execute => 4,
        Action::Ignore => 5,
        Action::OscPut => 6,
        Action::Param => 7,
        Action::Print => 8,
        Action::Put => 9,
        Action::BeginUtf8 => 10,
        Action::OpaquePut => 11,
        Action::CheckDcsSosPmApc => 12,
        _ => 0,
    };
    let r: u8 = a * 16 + s;
    assert(r & 0x0f == s && r >> 4u8 == a) by (bit_vector)
        requires
            r == a * 16 + s,
            s < 16,
            a < 16,
    ;
    r
}

/// Unpacks a transition byte into its state (low four bits) and action
/// (high four bits).
pub fn unpack(delta: u8) -> (r: (State, Action))
    ensures
        r.0 == state_of_code(delta & 0x0f),
        r.1 == action_of_code(delta >> 4u8),
{
    let s = delta & 0x0f;
    let a = delta >> 4u8;
    let state = if s == 0 {
        State::Anywhere
    } else if s == 1 {
        State::CsiEntry
    } else if s == 2 {
        State::CsiIgnore
    } else if s == 3 {
        State::CsiIntermediate
    } else if s == 4 {
        State::CsiParam
    } else if s == 5 {
        State::DcsEntry
    } else if s == 6 {
        State::DcsIgnore
    } else if s == 7 {
        State::DcsIntermediate
    } else if s == 8 {
        State::DcsParam
    } else if s == 9 {
        State::DcsPassthrough
    } else if s == 10 {
        State::Escape
    } else if s == 11 {
        State::EscapeIntermediate
    } else if s == 12 {
        State::Ground
    } else if s == 13 {
        State::OscString
    } else if s == 14 {
        State::SosPmApcString
    } else {
        State::Utf8
    };
    let action = if a == 1 {
        Action::Collect
    } else if a == 2 {
        Action::CsiDispatch
    } else if a == 3 {
        Action::EscDispatch
    } else if a == 4 {
        Action::Execute
    } else if a == 5 {
        Action::Ignore
    } else if a == 6 {
        Action::OscPut
    } else if a == 7 {
        Action::Param
    } else if a == 8 {
        Action::Print
    } else if a == 9 {
        Action::Put
    } else if a == 10 {
        Action::BeginUtf8
    } else if a == 11 {
        Action::OpaquePut
    } else if a == 12 {
        Action::CheckDcsSosPmApc
    } else {
        Action::Noop
    };
    (state, action)
}

/// Unpacking a packed transition gives back its state and, for a packable
/// action, its action.
pub proof fn lemma_unpack_pack(state: State, action: Action)
    requires
        is_packable(action),
    ensures
        state_of_code(packed(state, action) & 0x0f) == state,
        action_of_code(packed(state, action) >> 4u8) == action,
{
    let s = state_code(state);
    let a = action_code(action);
    let r = packed(state, action);
    assert(r & 0x0f == s && r >> 4u8 == a) by (bit_vector)
        requires
            r == a * 16 + s,
            s < 16,
            a < 16,
    ;
}

} // verus!
