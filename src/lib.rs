//! Parser for the byte protocol spoken between programs and virtual
//! terminals.
//!
//! [`Parser`] follows Paul Williams' state machine for DEC ANSI parsers,
//! extended with UTF-8 input, OSC strings terminated by BEL, and a switch
//! that disables DCS, SOS, PM and APC strings. It assigns no meaning to the
//! sequences: it reports each of them as an [`Event`], or delivers it to a
//! [`Perform`] of the caller's.
//!
//! Its behaviour is stated by [`vt_step`], one byte at a time, and
//! [`vt_run`], on a whole input.
use vstd::prelude::*;

pub mod ansi;
pub mod definitions;
pub mod laws;
pub mod sync;
pub mod table;
pub mod utf8;

use crate::definitions::{lemma_unpack_pack, unpack, Action, State};
use crate::table::{lemma_anywhere_zero, lemma_transition_packable};
use crate::table::{
    entry_action, entry_action_of, exit_action, exit_action_of, state_change, vt_transition,
};
use crate::utf8::{ground_model, utf8_step, Decoded, Utf8Model};

verus! {

/// Intermediates kept for one sequence; more set the `ignore` flag.
pub const MAX_INTERMEDIATES: usize = 2;

/// Parameters kept for one sequence; more set the `ignore` flag.
pub const MAX_PARAMS: usize = 16;

/// An event as the parser emits it.
#[derive(Debug, Clone, PartialEq, Eq)]
pub enum Event {
    /// A character to display.
    Print(char),
    /// A C0 or C1 control function to execute.
    Execute(u8),
    /// The final character of a DCS introducer has arrived.
    Hook { params: Vec<i64>, intermediates: Vec<u8>, ignore: bool, action: char },
    /// A byte of a DCS string.
    Put(u8),
    /// A DCS string has ended.
    Unhook,
    /// An operating system command, split at its `;` separators.
    OscDispatch { params: Vec<Vec<u8>>, bell_terminated: bool },
    /// A CSI sequence has ended with its final character.
    CsiDispatch { params: Vec<i64>, intermediates: Vec<u8>, ignore: bool, action: char },
    /// An escape sequence has ended with its final byte.
    EscDispatch { intermediates: Vec<u8>, ignore: bool, byte: u8 },
}

/// The mathematical value of an [`Event`].
pub enum EventView {
    Print(char),
    Execute(u8),
    Hook { params: Seq<i64>, intermediates: Seq<u8>, ignore: bool, action: char },
    Put(u8),
    Unhook,
    OscDispatch { params: Seq<Seq<u8>>, bell_terminated: bool },
    CsiDispatch { params: Seq<i64>, intermediates: Seq<u8>, ignore: bool, action: char },
    EscDispatch { intermediates: Seq<u8>, ignore: bool, byte: u8 },
}

impl View for Event {
    type V = EventView;

    open spec fn view(&self) -> EventView {
        match self {
            Event::Print(c) => EventView::Print(*c),
            Event::Execute(b) => EventView::Execute(*b),
            Event::Hook { params, intermediates, ignore, action } => EventView::Hook {
                params: params@,
                intermediates: intermediates@,
                ignore: *ignore,
                action: *action,
            },
            Event::Put(b) => EventView::Put(*b),
            Event::Unhook => EventView::Unhook,
            Event::OscDispatch { params, bell_terminated } => EventView::OscDispatch {
                params: params@.map_values(|p: Vec<u8>| p@),
                bell_terminated: *bell_terminated,
            },
            Event::CsiDispatch { params, intermediates, ignore, action } => EventView::CsiDispatch {
                params: params@,
                intermediates: intermediates@,
                ignore: *ignore,
                action: *action,
            },
            Event::EscDispatch { intermediates, ignore, byte } => EventView::EscDispatch {
                intermediates: intermediates@,
                ignore: *ignore,
                byte: *byte,
            },
        }
    }
}

/// The values of a sequence of events.
pub open spec fn views(events: Seq<Event>) -> Seq<EventView> {
    events.map_values(|e: Event| e@)
}

/// The abstract state of a [`Parser`].
pub struct VtModel {
    pub state: State,
    pub intermediates: Seq<u8>,
    pub params: Seq<i64>,
    /// The parameter being accumulated.
    pub param: i64,
    /// The bytes of the current OSC string, without its separators.
    pub osc_raw: Seq<u8>,
    /// The begin and end offsets of each OSC parameter in `osc_raw`.
    pub osc_params: Seq<(usize, usize)>,
    pub ignoring: bool,
    pub utf8: Utf8Model,
    pub no_dcs_sos_pm_apc: bool,
    /// Intermediates collected since the last `Clear`, kept or not.
    pub collected: nat,
    /// Parameters ended since the last `Clear`, kept or not.
    pub committed: nat,
}

impl VtModel {
    /// The OSC parameter offsets are contiguous, in order, and within the
    /// raw buffer, the first one starting at offset zero.
    pub open spec fn osc_wf(self) -> bool {
        forall|i: int|
            0 <= i < self.osc_params.len() ==> {
                &&& (#[trigger] self.osc_params[i]).0 <= self.osc_params[i].1
                &&& self.osc_params[i].1 <= self.osc_raw.len()
                &&& i == 0 ==> self.osc_params[i].0 == 0
                &&& i > 0 ==> self.osc_params[i].0 == self.osc_params[i - 1].1
            }
    }

    /// The invariant of every parser state.
    pub open spec fn wf(self) -> bool {
        &&& self.intermediates.len() <= MAX_INTERMEDIATES
        &&& self.params.len() <= MAX_PARAMS
        &&& self.osc_params.len() <= MAX_PARAMS
        &&& self.osc_raw.len() <= usize::MAX
        &&& self.osc_wf()
        &&& self.intermediates.len() == (if self.collected > MAX_INTERMEDIATES {
            MAX_INTERMEDIATES as nat
        } else {
            self.collected
        })
        &&& self.params.len() == (if self.committed > MAX_PARAMS {
            MAX_PARAMS as nat
        } else {
            self.committed
        })
        &&& self.ignoring == (self.collected > MAX_INTERMEDIATES || self.committed > MAX_PARAMS)
    }
}

/// The state of a new parser.
pub open spec fn initial_model() -> VtModel {
    VtModel {
        state: State::Ground,
        intermediates: seq![],
        params: seq![],
        param: 0,
        osc_raw: seq![],
        osc_params: seq![],
        ignoring: false,
        utf8: ground_model(),
        no_dcs_sos_pm_apc: false,
        collected: 0,
        committed: 0,
    }
}

/// `x` clamped to the range of `i64`.
pub open spec fn sat_i64(x: int) -> i64 {
    if x > i64::MAX {
        i64::MAX
    } else if x < i64::MIN {
        i64::MIN
    } else {
        x as i64
    }
}

/// The parameter after one more decimal digit: a saturating multiplication
/// by ten, then a saturating addition of the digit.
pub open spec fn accumulate(acc: i64, digit: u8) -> i64 {
    sat_i64(sat_i64(acc * 10) + digit)
}

/// Resets the intermediates, the parameters and the `ignoring` flag.
pub open spec fn clear_model(m: VtModel) -> VtModel {
    VtModel {
        intermediates: seq![],
        params: seq![],
        param: 0,
        ignoring: false,
        collected: 0,
        committed: 0,
        ..m
    }
}

/// Commits the pending parameter before a dispatch, or sets `ignoring` where
/// there is no room for it.
pub open spec fn commit_param(m: VtModel) -> VtModel {
    if m.params.len() >= MAX_PARAMS {
        VtModel { ignoring: true, committed: m.committed + 1, ..m }
    } else {
        VtModel { params: m.params.push(m.param), committed: m.committed + 1, ..m }
    }
}

/// Where the next OSC parameter begins.
pub open spec fn osc_next_begin(m: VtModel) -> usize {
    if m.osc_params.len() == 0 {
        0
    } else {
        m.osc_params.last().1
    }
}

/// Ends the current OSC parameter at the end of the raw buffer.
pub open spec fn osc_commit(m: VtModel) -> VtModel {
    VtModel {
        osc_params: m.osc_params.push((osc_next_begin(m), m.osc_raw.len() as usize)),
        ..m
    }
}

/// The OSC parameters, as slices of the raw buffer.
pub open spec fn osc_slices(m: VtModel) -> Seq<Seq<u8>> {
    Seq::new(
        m.osc_params.len(),
        |i: int| m.osc_raw.subrange(m.osc_params[i].0 as int, m.osc_params[i].1 as int),
    )
}

/// Feeds a byte to the UTF-8 decoder: a completed code point or an invalid
/// sequence is printed and returns the parser to `Ground`. The flag tells
/// whether the decoder consumed the byte.
pub open spec fn utf8_feed(m: VtModel, byte: u8) -> (VtModel, Seq<EventView>, bool) {
    let (u, out, consumed) = utf8_step(m.utf8, byte);
    match out {
        Decoded::Incomplete => (VtModel { utf8: u, ..m }, seq![], consumed),
        Decoded::Codepoint(c) => (
            VtModel { utf8: u, state: State::Ground, ..m },
            seq![EventView::Print(c)],
            consumed,
        ),
        Decoded::Invalid => (
            VtModel { utf8: u, state: State::Ground, ..m },
            seq![EventView::Print('\u{FFFD}')],
            consumed,
        ),
    }
}

/// The effect of one action on `byte`.
#[verifier::opaque]
pub open spec fn perform_action(m: VtModel, action: Action, byte: u8) -> (VtModel, Seq<EventView>) {
    match action {
        Action::Print => (m, seq![EventView::Print(byte as char)]),
        Action::Execute => (m, seq![EventView::Execute(byte)]),
        Action::Hook => {
            let c = commit_param(m);
            (
                c,
                seq![
                    EventView::Hook {
                        params: c.params,
                        intermediates: c.intermediates,
                        ignore: c.ignoring,
                        action: byte as char,
                    },
                ],
            )
        },
        Action::Put => (m, seq![EventView::Put(byte)]),
        Action::Unhook => (m, seq![EventView::Unhook]),
        Action::OscStart => (VtModel { osc_raw: seq![], osc_params: seq![], ..m }, seq![]),
        Action::OscPut => {
            if byte == 0x3b && m.osc_params.len() < MAX_PARAMS {
                (osc_commit(m), seq![])
            } else if m.osc_raw.len() < usize::MAX {
                (VtModel { osc_raw: m.osc_raw.push(byte), ..m }, seq![])
            } else {
                (m, seq![])
            }
        },
        Action::OscEnd => {
            let c = if m.osc_params.len() < MAX_PARAMS {
                osc_commit(m)
            } else {
                m
            };
            (
                c,
                seq![
                    EventView::OscDispatch { params: osc_slices(c), bell_terminated: byte == 0x07 },
                ],
            )
        },
        Action::CsiDispatch => {
            let c = commit_param(m);
            (
                c,
                seq![
                    EventView::CsiDispatch {
                        params: c.params,
                        intermediates: c.intermediates,
                        ignore: c.ignoring,
                        action: byte as char,
                    },
                ],
            )
        },
        Action::EscDispatch => (
            m,
            seq![
                EventView::EscDispatch {
                    intermediates: m.intermediates,
                    ignore: m.ignoring,
                    byte,
                },
            ],
        ),
        Action::Collect => {
            if m.intermediates.len() >= MAX_INTERMEDIATES {
                (VtModel { ignoring: true, collected: m.collected + 1, ..m }, seq![])
            } else {
                (
                    VtModel {
                        intermediates: m.intermediates.push(byte),
                        collected: m.collected + 1,
                        ..m
                    },
                    seq![],
                )
            }
        },
        Action::Param => {
            if byte == 0x3b {
                if m.params.len() >= MAX_PARAMS {
                    (VtModel { ignoring: true, committed: m.committed + 1, ..m }, seq![])
                } else {
                    (
                        VtModel {
                            params: m.params.push(m.param),
                            param: 0,
                            committed: m.committed + 1,
                            ..m
                        },
                        seq![],
                    )
                }
            } else if 0x30 <= byte && byte <= 0x39 {
                (VtModel { param: accumulate(m.param, (byte - 0x30) as u8), ..m }, seq![])
            } else {
                (m, seq![])
            }
        },
        Action::Clear => (clear_model(m), seq![]),
        Action::BeginUtf8 => {
            let (n, events, _) = utf8_feed(m, byte);
            (n, events)
        },
        Action::CheckDcsSosPmApc => {
            if m.no_dcs_sos_pm_apc {
                (
                    VtModel { state: State::Ground, ..clear_model(m) },
                    seq![EventView::EscDispatch { intermediates: seq![], ignore: false, byte }],
                )
            } else {
                (m, seq![])
            }
        },
        Action::Noop | Action::Ignore | Action::OpaquePut => (m, seq![]),
    }
}

/// Performs `action` unless it is `Noop`.
pub open spec fn maybe_action(m: VtModel, action: Action, byte: u8) -> (VtModel, Seq<EventView>) {
    if action == Action::Noop {
        (m, seq![])
    } else {
        perform_action(m, action, byte)
    }
}

/// A transition to `next` with `action`: a transition to `Anywhere` only
/// performs the action; any other runs the exit action of the current
/// state, the transition action, then the entry action of the state that
/// the parser is then in.
pub open spec fn change_state(m: VtModel, next: State, action: Action, byte: u8) -> (
    VtModel,
    Seq<EventView>,
) {
    if next == State::Anywhere {
        perform_action(m, action, byte)
    } else {
        let (m1, e1) = maybe_action(m, exit_action(m.state), byte);
        let m2 = VtModel { state: next, ..m1 };
        let (m3, e2) = maybe_action(m2, action, byte);
        let (m4, e3) = maybe_action(m3, entry_action(m3.state), byte);
        (m4, e1 + e2 + e3)
    }
}

/// The transition taken on `byte`: the `Anywhere` overlay where it has
/// one, else that of the current state.
pub open spec fn lookup(state: State, byte: u8) -> (State, Action) {
    if vt_transition(State::Anywhere, byte) != (State::Anywhere, Action::Noop) {
        vt_transition(State::Anywhere, byte)
    } else {
        vt_transition(state, byte)
    }
}

/// The effect of one byte outside of a UTF-8 sequence.
pub open spec fn table_step(m: VtModel, byte: u8) -> (VtModel, Seq<EventView>) {
    let (next, action) = lookup(m.state, byte);
    change_state(m, next, action, byte)
}

/// The effect of one byte: the next state and the events it emits. Within
/// a UTF-8 sequence the byte goes to the decoder; a byte that does not
/// continue the sequence is processed again from `Ground`.
pub open spec fn vt_step(m: VtModel, byte: u8) -> (VtModel, Seq<EventView>) {
    if m.state == State::Utf8 {
        let (m1, e1, consumed) = utf8_feed(m, byte);
        if consumed {
            (m1, e1)
        } else {
            let (m2, e2) = table_step(m1, byte);
            (m2, e1 + e2)
        }
    } else {
        table_step(m, byte)
    }
}

/// The effect of a sequence of bytes, fed one after the other.
pub open spec fn vt_run(m: VtModel, bytes: Seq<u8>) -> (VtModel, Seq<EventView>)
    decreases bytes.len(),
{
    if bytes.len() == 0 {
        (m, seq![])
    } else {
        let (m1, e1) = vt_run(m, bytes.drop_last());
        let (m2, e2) = vt_step(m1, bytes.last());
        (m2, e1 + e2)
    }
}

/// The effect of the end of the input: an incomplete UTF-8 sequence is
/// printed as one U+FFFD, and the parser returns to `Ground`.
pub open spec fn vt_end(m: VtModel) -> (VtModel, Seq<EventView>) {
    if m.state == State::Utf8 {
        (
            VtModel { state: State::Ground, utf8: ground_model(), ..m },
            if m.utf8.state != utf8::State::Ground {
                seq![EventView::Print('\u{FFFD}')]
            } else {
                seq![]
            },
        )
    } else {
        (VtModel { state: State::Ground, ..m }, seq![])
    }
}

/// Receives the events of a [`Parser`].
///
/// The methods correspond to the actions of the state machine at
/// <https://vt100.net/emu/dec_ansi_parser>.
pub trait Perform {
    /// Draw a character to the screen and update states.
    fn print(&mut self, c: char);

    /// Execute a C0 or C1 control function.
    fn execute(&mut self, byte: u8);

    /// The final character of a DCS introducer has arrived; `put` receives
    /// the bytes of the string that follows. `ignore` tells that
    /// intermediates or parameters were dropped.
    fn hook(&mut self, params: &[i64], intermediates: &[u8], ignore: bool, action: char);

    /// A byte of a DCS string, C0 controls included.
    fn put(&mut self, byte: u8);

    /// The DCS string has ended.
    fn unhook(&mut self);

    /// An operating system command.
    fn osc_dispatch(&mut self, params: &[&[u8]], bell_terminated: bool);

    /// A CSI sequence has ended with its final character. `ignore` tells
    /// that intermediates or parameters were dropped.
    fn csi_dispatch(&mut self, params: &[i64], intermediates: &[u8], ignore: bool, action: char);

    /// An escape sequence has ended with its final byte. `ignore` tells that
    /// intermediates were dropped.
    fn esc_dispatch(&mut self, intermediates: &[u8], ignore: bool, byte: u8);

    /// Whether the parser should stop before the rest of the current input.
    fn terminated(&self) -> bool {
        false
    }
}

/// Hands one event to a performer.
pub fn deliver<P: Perform>(performer: &mut P, event: &Event) {
    match event {
        Event::Print(c) => performer.print(*c),
        Event::Execute(b) => performer.execute(*b),
        Event::Hook { params, intermediates, ignore, action } => {
            performer.hook(params.as_slice(), intermediates.as_slice(), *ignore, *action)
        },
        Event::Put(b) => performer.put(*b),
        Event::Unhook => performer.unhook(),
        Event::OscDispatch { params, bell_terminated } => {
            let mut slices: Vec<&[u8]> = Vec::new();
            let mut i: usize = 0;
            while i < params.len()
                invariant
                    i <= params.len(),
                decreases params.len() - i,
            {
                slices.push(params[i].as_slice());
                i = i + 1;
            }
            performer.osc_dispatch(slices.as_slice(), *bell_terminated)
        },
        Event::CsiDispatch { params, intermediates, ignore, action } => {
            performer.csi_dispatch(params.as_slice(), intermediates.as_slice(), *ignore, *action)
        },
        Event::EscDispatch { intermediates, ignore, byte } => {
            performer.esc_dispatch(intermediates.as_slice(), *ignore, *byte)
        },
    }
}

/// Hands a sequence of events to a performer, in order.
pub fn deliver_all<P: Perform>(performer: &mut P, events: &Vec<Event>) {
    let mut i: usize = 0;
    while i < events.len()
        invariant
            i <= events.len(),
        decreases events.len() - i,
    {
        deliver(performer, &events[i]);
        i = i + 1;
    }
}

/// A copy of `v`.
fn copy_vec<T: Copy>(v: &Vec<T>) -> (r: Vec<T>)
    ensures
        r@ == v@,
{
    let mut r: Vec<T> = Vec::new();
    let mut i: usize = 0;
    while i < v.len()
        invariant
            i <= v.len(),
            r@ == v@.subrange(0, i as int),
        decreases v.len() - i,
    {
        r.push(v[i]);
        i = i + 1;
        assert(r@ =~= v@.subrange(0, i as int));
    }
    assert(r@ =~= v@);
    r
}

/// A copy of `v[begin..end]`.
pub(crate) fn copy_range(v: &Vec<u8>, begin: usize, end: usize) -> (r: Vec<u8>)
    requires
        begin <= end <= v.len(),
    ensures
        r@ == v@.subrange(begin as int, end as int),
{
    let mut r: Vec<u8> = Vec::new();
    let mut i: usize = begin;
    while i < end
        invariant
            begin <= i <= end,
            end <= v.len(),
            r@ == v@.subrange(begin as int, i as int),
        decreases end - i,
    {
        r.push(v[i]);
        i = i + 1;
        assert(r@ =~= v@.subrange(begin as int, i as int));
    }
    r
}

/// Committing an OSC parameter keeps the offsets well formed.
pub proof fn lemma_osc_commit_wf(m: VtModel)
    requires
        m.wf(),
    ensures
        osc_commit(m).osc_wf(),
        osc_commit(m).osc_raw.len() <= usize::MAX,
{
    let c = osc_commit(m);
    assert forall|i: int| 0 <= i < c.osc_params.len() implies {
        &&& (#[trigger] c.osc_params[i]).0 <= c.osc_params[i].1
        &&& c.osc_params[i].1 <= c.osc_raw.len()
        &&& i == 0 ==> c.osc_params[i].0 == 0
        &&& i > 0 ==> c.osc_params[i].0 == c.osc_params[i - 1].1
    } by {
        if i < m.osc_params.len() {
            assert(c.osc_params[i] == m.osc_params[i]);
        }
    }
}

/// Every action keeps a parser state well formed.
pub proof fn lemma_perform_action_wf(m: VtModel, action: Action, byte: u8)
    requires
        m.wf(),
    ensures
        perform_action(m, action, byte).0.wf(),
        maybe_action(m, action, byte).0.wf(),
{
    lemma_osc_commit_wf(m);
    reveal(perform_action);
    let n = perform_action(m, action, byte).0;
    match action {
        Action::OscPut => {
            if !(byte == 0x3b && m.osc_params.len() < MAX_PARAMS) && m.osc_raw.len() < usize::MAX {
                assert forall|i: int| 0 <= i < n.osc_params.len() implies {
                    &&& (#[trigger] n.osc_params[i]).0 <= n.osc_params[i].1
                    &&& n.osc_params[i].1 <= n.osc_raw.len()
                    &&& i == 0 ==> n.osc_params[i].0 == 0
                    &&& i > 0 ==> n.osc_params[i].0 == n.osc_params[i - 1].1
                } by {
                    assert(n.osc_params[i] == m.osc_params[i]);
                }
            }
        },
        _ => {},
    }
}

/// Appending one event appends its value.
proof fn lemma_views_push(events: Seq<Event>, e: Event)
    ensures
        views(events.push(e)) == views(events).push(e@),
{
    assert(views(events.push(e)) =~= views(events).push(e@));
}

/// Appends `e` to `events`.
fn emit(events: &mut Vec<Event>, e: Event)
    ensures
        views(final(events)@) == views(old(events)@).push(e@),
{
    proof {
        lemma_views_push(old(events)@, e);
    }
    events.push(e);
}

/// The parameter after one more decimal digit.
fn accumulate_digit(acc: i64, digit: u8) -> (r: i64)
    ensures
        r == accumulate(acc, digit),
{
    let m: i64 = match acc.checked_mul(10) {
        Some(v) => v,
        None => if acc < 0 {
            i64::MIN
        } else {
            i64::MAX
        },
    };
    match m.checked_add(digit as i64) {
        Some(v) => v,
        None => i64::MAX,
    }
}

/// Parser for the terminal byte protocol; it reports what it recognises as
/// [`Event`]s, or to a [`Perform`].
pub struct Parser {
    state: State,
    intermediates: Vec<u8>,
    params: Vec<i64>,
    param: i64,
    osc_raw: Vec<u8>,
    osc_params: Vec<(usize, usize)>,
    ignoring: bool,
    utf8_parser: utf8::Parser,
    no_dcs_sos_pm_apc: bool,
    collected: Ghost<nat>,
    committed: Ghost<nat>,
}

impl View for Parser {
    type V = VtModel;

    closed spec fn view(&self) -> VtModel {
        VtModel {
            state: self.state,
            intermediates: self.intermediates@,
            params: self.params@,
            param: self.param,
            osc_raw: self.osc_raw@,
            osc_params: self.osc_params@,
            ignoring: self.ignoring,
            utf8: self.utf8_parser@,
            no_dcs_sos_pm_apc: self.no_dcs_sos_pm_apc,
            collected: self.collected@,
            committed: self.committed@,
        }
    }
}

impl Parser {
    /// Creates a parser in the `Ground` state, with DCS, SOS, PM and APC
    /// strings enabled.
    pub fn new() -> (r: Parser)
        ensures
            r@ == initial_model(),
            r@.wf(),
    {
        Parser {
            state: State::Ground,
            intermediates: Vec::new(),
            params: Vec::new(),
            param: 0,
            osc_raw: Vec::new(),
            osc_params: Vec::new(),
            ignoring: false,
            utf8_parser: utf8::Parser::new(),
            no_dcs_sos_pm_apc: false,
            collected: Ghost(0),
            committed: Ghost(0),
        }
    }

    /// Enables or disables DCS, SOS, PM and APC strings. While they are
    /// disabled, their introducer is dispatched as an escape sequence and
    /// the parser returns to `Ground`.
    pub fn set_dcs_sos_pm_apc(&mut self, dcs_sos_pm_apc: bool)
        ensures
            final(self)@ == (VtModel { no_dcs_sos_pm_apc: !dcs_sos_pm_apc, ..old(self)@ }),
    {
        self.no_dcs_sos_pm_apc = !dcs_sos_pm_apc;
    }

    fn clear(&mut self)
        ensures
            final(self)@ == clear_model(old(self)@),
    {
        self.intermediates.clear();
        self.params.clear();
        self.param = 0;
        self.ignoring = false;
        proof {
            self.collected = Ghost(0);
            self.committed = Ghost(0);
        }
    }

    fn commit_param(&mut self)
        ensures
            final(self)@ == commit_param(old(self)@),
    {
        if self.params.len() >= MAX_PARAMS {
            self.ignoring = true;
        } else {
            self.params.push(self.param);
        }
        proof {
            self.committed = Ghost(self.committed@ + 1);
        }
    }

    fn osc_commit(&mut self)
        ensures
            final(self)@ == osc_commit(old(self)@),
    {
        let begin = if self.osc_params.len() == 0 {
            0
        } else {
            self.osc_params[self.osc_params.len() - 1].1
        };
        let end = self.osc_raw.len();
        self.osc_params.push((begin, end));
    }

    fn osc_params_copy(&self) -> (r: Vec<Vec<u8>>)
        requires
            self@.osc_wf(),
        ensures
            r@.map_values(|p: Vec<u8>| p@) == osc_slices(self@),
    {
        let mut r: Vec<Vec<u8>> = Vec::new();
        let mut i: usize = 0;
        while i < self.osc_params.len()
            invariant
                i <= self.osc_params.len(),
                self@.osc_wf(),
                r@.len() == i,
                forall|k: int| 0 <= k < i ==> (#[trigger] r@[k])@ == osc_slices(self@)[k],
            decreases self.osc_params.len() - i,
        {
            let (begin, end) = self.osc_params[i];
            assert(self@.osc_params[i as int] == (begin, end));
            r.push(copy_range(&self.osc_raw, begin, end));
            i = i + 1;
        }
        assert(r@.map_values(|p: Vec<u8>| p@) =~= osc_slices(self@));
        r
    }

    /// Feeds `byte` to the UTF-8 decoder; returns whether it was consumed.
    fn utf8_feed(&mut self, byte: u8, events: &mut Vec<Event>) -> (consumed: bool)
        ensures
            final(self)@ == utf8_feed(old(self)@, byte).0,
            views(final(events)@) == views(old(events)@) + utf8_feed(old(self)@, byte).1,
            consumed == utf8_feed(old(self)@, byte).2,
    {
        let (out, consumed) = self.utf8_parser.decode(byte);
        match out {
            Decoded::Incomplete => {
                assert(views(events@) =~= views(events@) + seq![]);
            },
            Decoded::Codepoint(c) => {
                self.state = State::Ground;
                emit(events, Event::Print(c));
                assert(seq![EventView::Print(c)] =~= seq![].push(EventView::Print(c)));
            },
            Decoded::Invalid => {
                self.state = State::Ground;
                emit(events, Event::Print('\u{FFFD}'));
                assert(seq![EventView::Print('\u{FFFD}')] =~= seq![].push(
                    EventView::Print('\u{FFFD}'),
                ));
            },
        }
        consumed
    }

    fn perform_action(&mut self, action: Action, byte: u8, events: &mut Vec<Event>)
        requires
            old(self)@.wf(),
        ensures
            final(self)@ == perform_action(old(self)@, action, byte).0,
            views(final(events)@) == views(old(events)@) + perform_action(
                old(self)@,
                action,
                byte,
            ).1,
    {
        let ghost m = self@;
        let ghost before = views(events@);
        reveal(perform_action);
        match action {
            Action::Print => {
                emit(events, Event::Print(byte as char));
            },
            Action::Execute => {
                emit(events, Event::Execute(byte));
            },
            Action::Hook => {
                self.commit_param();
                let e = Event::Hook {
                    params: copy_vec(&self.params),
                    intermediates: copy_vec(&self.intermediates),
                    ignore: self.ignoring,
                    action: byte as char,
                };
                emit(events, e);
            },
            Action::Put => {
                emit(events, Event::Put(byte));
            },
            Action::Unhook => {
                emit(events, Event::Unhook);
            },
            Action::OscStart => {
                self.osc_raw.clear();
                self.osc_params.clear();
            },
            Action::OscPut => {
                if byte == 0x3b && self.osc_params.len() < MAX_PARAMS {
                    self.osc_commit();
                } else if self.osc_raw.len() < usize::MAX {
                    self.osc_raw.push(byte);
                }
            },
            Action::OscEnd => {
                proof {
                    lemma_osc_commit_wf(self@);
                }
                if self.osc_params.len() < MAX_PARAMS {
                    self.osc_commit();
                }
                let params = self.osc_params_copy();
                emit(events, Event::OscDispatch { params, bell_terminated: byte == 0x07 });
            },
            Action::CsiDispatch => {
                self.commit_param();
                let e = Event::CsiDispatch {
                    params: copy_vec(&self.params),
                    intermediates: copy_vec(&self.intermediates),
                    ignore: self.ignoring,
                    action: byte as char,
                };
                emit(events, e);
            },
            Action::EscDispatch => {
                let e = Event::EscDispatch {
                    intermediates: copy_vec(&self.intermediates),
                    ignore: self.ignoring,
                    byte,
                };
                emit(events, e);
            },
            Action::Collect => {
                if self.intermediates.len() >= MAX_INTERMEDIATES {
                    self.ignoring = true;
                } else {
                    self.intermediates.push(byte);
                }
                proof {
                    self.collected = Ghost(self.collected@ + 1);
                }
            },
            Action::Param => {
                if byte == 0x3b {
                    if self.params.len() >= MAX_PARAMS {
                        self.ignoring = true;
                    } else {
                        self.params.push(self.param);
                        self.param = 0;
                    }
                    proof {
                        self.committed = Ghost(self.committed@ + 1);
                    }
                } else if 0x30 <= byte && byte <= 0x39 {
                    self.param = accumulate_digit(self.param, byte - 0x30);
                }
            },
            Action::Clear => {
                self.clear();
            },
            Action::BeginUtf8 => {
                self.utf8_feed(byte, events);
            },
            Action::CheckDcsSosPmApc => {
                if self.no_dcs_sos_pm_apc {
                    self.clear();
                    emit(
                        events,
                        Event::EscDispatch { intermediates: Vec::new(), ignore: false, byte },
                    );
                    self.state = State::Ground;
                }
            },
            Action::Noop | Action::Ignore | Action::OpaquePut => {},
        }
        proof {
            let evs = perform_action(m, action, byte).1;
            if evs.len() == 1 {
                assert(evs =~= seq![].push(evs[0]));
            } else if evs.len() == 0 {
                assert(before + evs =~= before);
            }
        }
    }

    fn maybe_action(&mut self, action: Action, byte: u8, events: &mut Vec<Event>)
        requires
            old(self)@.wf(),
        ensures
            final(self)@ == maybe_action(old(self)@, action, byte).0,
            views(final(events)@) == views(old(events)@) + maybe_action(
                old(self)@,
                action,
                byte,
            ).1,
    {
        match action {
            Action::Noop => {
                assert(views(events@) + seq![] =~= views(events@));
            },
            _ => self.perform_action(action, byte, events),
        }
    }

    fn change_state(&mut self, next: State, action: Action, byte: u8, events: &mut Vec<Event>)
        requires
            old(self)@.wf(),
        ensures
            final(self)@ == change_state(old(self)@, next, action, byte).0,
            final(self)@.wf(),
            views(final(events)@) == views(old(events)@) + change_state(
                old(self)@,
                next,
                action,
                byte,
            ).1,
    {
        let ghost m = self@;
        let ghost e0 = views(events@);
        proof {
            lemma_perform_action_wf(m, action, byte);
            lemma_perform_action_wf(m, exit_action(m.state), byte);
        }
        match next {
            State::Anywhere => {
                self.perform_action(action, byte, events);
            },
            _ => {
                self.maybe_action(exit_action_of(self.state), byte, events);
                let ghost e1 = views(events@);
                self.state = next;
                let ghost m2 = self@;
                proof {
                    lemma_perform_action_wf(m2, action, byte);
                }
                self.maybe_action(action, byte, events);
                let ghost e2 = views(events@);
                let ghost m3 = self@;
                proof {
                    lemma_perform_action_wf(m3, entry_action(m3.state), byte);
                }
                self.maybe_action(entry_action_of(self.state), byte, events);
                proof {
                    let (_, x1) = maybe_action(m, exit_action(m.state), byte);
                    let (_, x2) = maybe_action(m2, action, byte);
                    let (_, x3) = maybe_action(m3, entry_action(m3.state), byte);
                    assert(views(events@) == e0 + x1 + x2 + x3);
                    assert(e0 + x1 + x2 + x3 =~= e0 + (x1 + x2 + x3));
                }
            },
        }
    }

    fn table_step(&mut self, byte: u8, events: &mut Vec<Event>)
        requires
            old(self)@.wf(),
        ensures
            final(self)@ == table_step(old(self)@, byte).0,
            final(self)@.wf(),
            views(final(events)@) == views(old(events)@) + table_step(old(self)@, byte).1,
    {
        proof {
            lemma_anywhere_zero(byte);
            lemma_transition_packable(State::Anywhere, byte);
            lemma_transition_packable(self@.state, byte);
            lemma_unpack_pack(
                vt_transition(State::Anywhere, byte).0,
                vt_transition(State::Anywhere, byte).1,
            );
            lemma_unpack_pack(vt_transition(self@.state, byte).0, vt_transition(self@.state, byte).1);
        }
        let mut change = state_change(State::Anywhere, byte);
        if change == 0 {
            change = state_change(self.state, byte);
        }
        let (next, action) = unpack(change);
        assert((next, action) == lookup(self@.state, byte));
        self.change_state(next, action, byte, events);
    }

    /// Processes one byte, appending the events it emits to `events`.
    pub fn step(&mut self, byte: u8, events: &mut Vec<Event>)
        requires
            old(self)@.wf(),
        ensures
            final(self)@ == vt_step(old(self)@, byte).0,
            final(self)@.wf(),
            views(final(events)@) == views(old(events)@) + vt_step(old(self)@, byte).1,
    {
        if self.state == State::Utf8 {
            let ghost e0 = views(events@);
            let consumed = self.utf8_feed(byte, events);
            if !consumed {
                let ghost e1 = views(events@);
                self.table_step(byte, events);
                proof {
                    let (m1, x1, _) = utf8_feed(old(self)@, byte);
                    let (_, x2) = table_step(m1, byte);
                    assert(e0 + x1 + x2 =~= e0 + (x1 + x2));
                }
            }
        } else {
            self.table_step(byte, events);
        }
    }

    /// Processes `bytes` and returns the events they emit.
    pub fn feed(&mut self, bytes: &[u8]) -> (events: Vec<Event>)
        requires
            old(self)@.wf(),
        ensures
            final(self)@ == vt_run(old(self)@, bytes@).0,
            final(self)@.wf(),
            views(events@) == vt_run(old(self)@, bytes@).1,
    {
        let ghost start = self@;
        let mut events: Vec<Event> = Vec::new();
        let mut i: usize = 0;
        assert(views(events@) =~= seq![]);
        assert(bytes@.subrange(0, 0) =~= seq![]);
        while i < bytes.len()
            invariant
                i <= bytes.len(),
                self@.wf(),
                self@ == vt_run(start, bytes@.subrange(0, i as int)).0,
                views(events@) == vt_run(start, bytes@.subrange(0, i as int)).1,
            decreases bytes.len() - i,
        {
            self.step(bytes[i], &mut events);
            proof {
                lemma_run_prefix(start, bytes@, i as int);
            }
            i = i + 1;
        }
        assert(bytes@.subrange(0, i as int) =~= bytes@);
        events
    }

    /// Processes `bytes`, handing the events to `performer` as they come.
    pub fn advance<P: Perform>(&mut self, performer: &mut P, bytes: &[u8])
        requires
            old(self)@.wf(),
        ensures
            final(self)@ == vt_run(old(self)@, bytes@).0,
            final(self)@.wf(),
    {
        let ghost start = self@;
        let mut i: usize = 0;
        assert(bytes@.subrange(0, 0) =~= seq![]);
        while i < bytes.len()
            invariant
                i <= bytes.len(),
                self@.wf(),
                self@ == vt_run(start, bytes@.subrange(0, i as int)).0,
            decreases bytes.len() - i,
        {
            let mut events: Vec<Event> = Vec::new();
            self.step(bytes[i], &mut events);
            deliver_all(performer, &events);
            proof {
                lemma_run_prefix(start, bytes@, i as int);
            }
            i = i + 1;
        }
        assert(bytes@.subrange(0, i as int) =~= bytes@);
    }

    /// Processes `bytes` until `performer` asks to stop, which it is asked
    /// after each byte. Returns the number of bytes processed: all of them,
    /// or those up to and including the byte after which it asked to stop.
    pub fn advance_until_terminated<P: Perform>(&mut self, performer: &mut P, bytes: &[u8]) -> (n:
        usize)
        requires
            old(self)@.wf(),
        ensures
            n <= bytes.len(),
            bytes.len() > 0 ==> n > 0,
            final(self)@ == vt_run(old(self)@, bytes@.subrange(0, n as int)).0,
            final(self)@.wf(),
    {
        let ghost start = self@;
        let mut i: usize = 0;
        let mut stop = false;
        assert(bytes@.subrange(0, 0) =~= seq![]);
        while i < bytes.len() && !stop
            invariant
                i <= bytes.len(),
                stop ==> i > 0,
                self@.wf(),
                self@ == vt_run(start, bytes@.subrange(0, i as int)).0,
            decreases bytes.len() - i,
        {
            let mut events: Vec<Event> = Vec::new();
            self.step(bytes[i], &mut events);
            deliver_all(performer, &events);
            proof {
                lemma_run_prefix(start, bytes@, i as int);
            }
            i = i + 1;
            stop = performer.terminated();
        }
        i
    }

    /// Ends the input and returns the events that this emits.
    pub fn finish(&mut self) -> (events: Vec<Event>)
        requires
            old(self)@.wf(),
        ensures
            final(self)@ == vt_end(old(self)@).0,
            final(self)@.wf(),
            views(events@) == vt_end(old(self)@).1,
    {
        let mut events: Vec<Event> = Vec::new();
        if self.state == State::Utf8 {
            if self.utf8_parser.finish() {
                emit(&mut events, Event::Print('\u{FFFD}'));
                assert(views(events@) =~= seq![EventView::Print('\u{FFFD}')]);
            } else {
                assert(views(events@) =~= seq![]);
            }
        } else {
            assert(views(events@) =~= seq![]);
        }
        self.state = State::Ground;
        events
    }

    /// Ends the input: an incomplete UTF-8 sequence is handed to
    /// `performer` as one U+FFFD, and the parser returns to `Ground`.
    pub fn end<P: Perform>(&mut self, performer: &mut P)
        requires
            old(self)@.wf(),
        ensures
            final(self)@ == vt_end(old(self)@).0,
            final(self)@.wf(),
    {
        let events = self.finish();
        deliver_all(performer, &events);
    }
}

/// Running one more byte of a prefix is one more step.
pub proof fn lemma_run_prefix(m: VtModel, bytes: Seq<u8>, i: int)
    requires
        0 <= i < bytes.len(),
    ensures
        vt_run(m, bytes.subrange(0, i + 1)).0 == vt_step(vt_run(m, bytes.subrange(0, i)).0, bytes[i]).0,
        vt_run(m, bytes.subrange(0, i + 1)).1 == vt_run(m, bytes.subrange(0, i)).1 + vt_step(
            vt_run(m, bytes.subrange(0, i)).0,
            bytes[i],
        ).1,
{
    let p = bytes.subrange(0, i + 1);
    assert(p.drop_last() =~= bytes.subrange(0, i));
    assert(p.last() == bytes[i]);
}

} // verus!
