//! Properties of the parser that relate several inputs or calls.
use vstd::prelude::*;
use vstd::utf8::{
    char_u32_cast, decode_first_scalar, decode_utf8, is_leading_byte_width_1,
    is_leading_byte_width_2, is_leading_byte_width_3, is_leading_byte_width_4,
    length_of_first_scalar, pop_first_scalar, take_first_scalar, valid_first_scalar, valid_utf8,
};

use crate::definitions::{Action, State};
use crate::table::{entry_action, exit_action, lemma_csi_dispatch_to_ground};
use crate::utf8::{char_of_point, ground_model};
use crate::{
    accumulate, change_state, clear_model, initial_model, lemma_perform_action_wf, maybe_action,
    osc_next_begin, osc_slices, perform_action, table_step, utf8_feed, vt_end, vt_run, vt_step,
    EventView, VtModel, MAX_INTERMEDIATES, MAX_PARAMS,
};

verus! {

broadcast use vstd::seq::group_seq_axioms;

/// Feeding `a` and then `b` leaves the parser where feeding `a + b` does,
/// and the events of the two calls, one after the other, are those of the
/// single call.
pub proof fn lemma_run_append(m: VtModel, a: Seq<u8>, b: Seq<u8>)
    ensures
        vt_run(m, a + b).0 == vt_run(vt_run(m, a).0, b).0,
        vt_run(m, a + b).1 == vt_run(m, a).1 + vt_run(vt_run(m, a).0, b).1,
    decreases b.len(),
{
    if b.len() == 0 {
        assert(a + b =~= a);
        assert(vt_run(m, a).1 + seq![] =~= vt_run(m, a).1);
    } else {
        let ab = a + b;
        assert(ab.drop_last() =~= a + b.drop_last());
        assert(ab.last() == b.last());
        lemma_run_append(m, a, b.drop_last());
        let (ma, ea) = vt_run(m, a);
        let (mb, eb) = vt_run(ma, b.drop_last());
        let (_, es) = vt_step(mb, b.last());
        assert(ea + eb + es =~= ea + (eb + es));
    }
}

/// The effect of feeding a sequence of chunks, one call per chunk.
pub open spec fn run_chunks(m: VtModel, chunks: Seq<Seq<u8>>) -> (VtModel, Seq<EventView>)
    decreases chunks.len(),
{
    if chunks.len() == 0 {
        (m, seq![])
    } else {
        let (m1, e1) = vt_run(m, chunks[0]);
        let (m2, e2) = run_chunks(m1, chunks.drop_first());
        (m2, e1 + e2)
    }
}

/// However a byte stream is cut into chunks, feeding the chunks one after
/// the other emits the same events, and leaves the parser in the same
/// state, as feeding the stream byte by byte.
pub proof fn lemma_chunking(m: VtModel, chunks: Seq<Seq<u8>>)
    ensures
        run_chunks(m, chunks) == vt_run(m, chunks.flatten()),
    decreases chunks.len(),
{
    if chunks.len() == 0 {
        assert(chunks.flatten() =~= seq![]);
    } else {
        lemma_chunking(vt_run(m, chunks[0]).0, chunks.drop_first());
        assert(chunks.flatten() == chunks[0] + chunks.drop_first().flatten());
        lemma_run_append(m, chunks[0], chunks.drop_first().flatten());
    }
}

/// Ending the input after any byte stream emits at most one more event,
/// and that one prints U+FFFD.
pub proof fn lemma_end_at_most_one_replacement(bytes: Seq<u8>)
    ensures
        vt_end(vt_run(initial_model(), bytes).0).1.len() <= 1,
        vt_end(vt_run(initial_model(), bytes).0).1.len() == 1 ==> vt_end(
            vt_run(initial_model(), bytes).0,
        ).1[0] == EventView::Print('\u{FFFD}'),
{
}

/// A transition keeps a parser state well formed.
pub proof fn lemma_change_state_wf(m: VtModel, next: State, action: Action, byte: u8)
    requires
        m.wf(),
    ensures
        change_state(m, next, action, byte).0.wf(),
{
    lemma_perform_action_wf(m, action, byte);
    let (m1, _) = maybe_action(m, exit_action(m.state), byte);
    lemma_perform_action_wf(m, exit_action(m.state), byte);
    let m2 = VtModel { state: next, ..m1 };
    lemma_perform_action_wf(m2, action, byte);
    let (m3, _) = maybe_action(m2, action, byte);
    lemma_perform_action_wf(m3, entry_action(m3.state), byte);
}

/// One byte keeps a parser state well formed.
pub proof fn lemma_step_wf(m: VtModel, byte: u8)
    requires
        m.wf(),
    ensures
        vt_step(m, byte).0.wf(),
{
    let (m1, _, _) = utf8_feed(m, byte);
    assert(m1.wf());
    lemma_change_state_wf(m, lookup_next(m.state, byte), lookup_action(m.state, byte), byte);
    lemma_change_state_wf(m1, lookup_next(m1.state, byte), lookup_action(m1.state, byte), byte);
}

spec fn lookup_next(state: State, byte: u8) -> State {
    crate::lookup(state, byte).0
}

spec fn lookup_action(state: State, byte: u8) -> Action {
    crate::lookup(state, byte).1
}

/// Every state that a byte stream leads a new parser to is well formed.
pub proof fn lemma_run_wf(m: VtModel, bytes: Seq<u8>)
    requires
        m.wf(),
    ensures
        vt_run(m, bytes).0.wf(),
    decreases bytes.len(),
{
    if bytes.len() > 0 {
        lemma_run_wf(m, bytes.drop_last());
        lemma_step_wf(vt_run(m, bytes.drop_last()).0, bytes.last());
    }
}

/// The OSC parameters of a well-formed state, one after the other, are
/// the raw buffer up to the end of the last one: they are contiguous,
/// disjoint, in order, and the first begins at the start.
pub proof fn lemma_osc_params_tile_raw(m: VtModel)
    requires
        m.wf(),
    ensures
        osc_slices(m).flatten() == m.osc_raw.subrange(0, osc_next_begin(m) as int),
    decreases m.osc_params.len(),
{
    if m.osc_params.len() > 0 {
        let n = m.osc_params.len() - 1;
        let shorter = VtModel { osc_params: m.osc_params.drop_last(), ..m };
        assert(shorter.wf()) by {
            assert forall|i: int| 0 <= i < shorter.osc_params.len() implies {
                &&& (#[trigger] shorter.osc_params[i]).0 <= shorter.osc_params[i].1
                &&& shorter.osc_params[i].1 <= shorter.osc_raw.len()
                &&& i == 0 ==> shorter.osc_params[i].0 == 0
                &&& i > 0 ==> shorter.osc_params[i].0 == shorter.osc_params[i - 1].1
            } by {
                assert(shorter.osc_params[i] == m.osc_params[i]);
                if i > 0 {
                    assert(shorter.osc_params[i - 1] == m.osc_params[i - 1]);
                }
            }
        }
        lemma_osc_params_tile_raw(shorter);
        let slices = osc_slices(m);
        assert(slices.drop_last() =~= osc_slices(shorter));
        slices.drop_last().lemma_flatten_push(slices.last());
        assert(slices =~= slices.drop_last().push(slices.last()));
        let (b, e) = m.osc_params[n];
        assert(b == osc_next_begin(shorter)) by {
            assert(m.osc_params[n as int] == m.osc_params[n as int]);
            if n > 0 {
                assert(shorter.osc_params.last() == m.osc_params[n - 1]);
            }
        }
        assert(m.osc_raw.subrange(0, b as int) + m.osc_raw.subrange(b as int, e as int)
            =~= m.osc_raw.subrange(0, e as int));
    } else {
        assert(osc_slices(m) =~= seq![]);
        assert(osc_slices(m).flatten() =~= seq![]);
        assert(m.osc_raw.subrange(0, 0) =~= seq![]);
    }
}

/// Whether every byte is a decimal digit.
pub open spec fn is_decimal(digits: Seq<u8>) -> bool {
    forall|i: int| 0 <= i < digits.len() ==> 0x30 <= #[trigger] digits[i] <= 0x39
}

/// The value of decimal digits.
pub open spec fn decimal_value(digits: Seq<u8>) -> nat
    decreases digits.len(),
{
    if digits.len() == 0 {
        0
    } else {
        decimal_value(digits.drop_last()) * 10 + (digits.last() - 0x30) as nat
    }
}

/// The parameter that decimal digits accumulate to: from zero, each digit
/// multiplies by ten and adds itself, both saturating.
pub open spec fn param_value(digits: Seq<u8>) -> i64
    decreases digits.len(),
{
    if digits.len() == 0 {
        0
    } else {
        accumulate(param_value(digits.drop_last()), (digits.last() - 0x30) as u8)
    }
}

/// The accumulated parameter is the decimal value, clamped at `i64::MAX`.
pub proof fn lemma_param_value_clamps(digits: Seq<u8>)
    requires
        is_decimal(digits),
    ensures
        param_value(digits) == (if decimal_value(digits) > i64::MAX {
            i64::MAX as int
        } else {
            decimal_value(digits) as int
        }),
    decreases digits.len(),
{
    if digits.len() > 0 {
        let p = digits.drop_last();
        assert(is_decimal(p)) by {
            assert forall|i: int| 0 <= i < p.len() implies 0x30 <= #[trigger] p[i] <= 0x39 by {
                assert(p[i] == digits[i]);
            }
        }
        lemma_param_value_clamps(p);
        let d = digits.last() - 0x30;
        assert(0 <= d <= 9) by {
            assert(0x30 <= digits[digits.len() - 1] <= 0x39);
        }
        let v = decimal_value(p);
        let pv = param_value(p);
        if v > i64::MAX {
            assert(v * 10 + d > i64::MAX) by (nonlinear_arith)
                requires
                    v > i64::MAX,
                    d >= 0,
            ;
        } else {
            assert(pv * 10 + d == v * 10 + d);
        }
    }
}

/// The state of a new parser after `ESC [`.
pub open spec fn csi_entry_model() -> VtModel {
    VtModel { state: State::CsiEntry, ..initial_model() }
}

/// The state of a new parser after `ESC [` and digits that accumulated to
/// `param`.
pub open spec fn csi_param_model(param: i64) -> VtModel {
    VtModel { state: State::CsiParam, param, ..initial_model() }
}

proof fn lemma_csi_prefix(digits: Seq<u8>)
    requires
        is_decimal(digits),
    ensures
        digits.len() == 0 ==> vt_run(initial_model(), seq![0x1bu8, 0x5bu8] + digits) == (
            csi_entry_model(),
            Seq::<EventView>::empty(),
        ),
        digits.len() > 0 ==> vt_run(initial_model(), seq![0x1bu8, 0x5bu8] + digits) == (
            csi_param_model(param_value(digits)),
            Seq::<EventView>::empty(),
        ),
    decreases digits.len(),
{
    reveal(perform_action);
    let m0 = initial_model();
    let input = seq![0x1bu8, 0x5bu8] + digits;
    if digits.len() == 0 {
        let esc: Seq<u8> = seq![0x1bu8];
        let none: Seq<u8> = seq![];
        assert(input.drop_last() =~= esc);
        assert(esc.drop_last() =~= none);
        let m1 = VtModel { state: State::Escape, ..m0 };
        assert(vt_step(m0, 0x1b) == (m1, Seq::<EventView>::empty())) by {
            assert(clear_model(m1) == m1);
        }
        assert(vt_run(m0, none) == (m0, Seq::<EventView>::empty()));
        assert(esc.last() == 0x1b);
        assert(Seq::<EventView>::empty() + Seq::<EventView>::empty() =~= Seq::<EventView>::empty());
        assert(vt_run(m0, esc) == (m1, Seq::<EventView>::empty()));
        assert(vt_step(m1, 0x5b) == (csi_entry_model(), Seq::<EventView>::empty())) by {
            assert(clear_model(csi_entry_model()) == csi_entry_model());
        }
        assert(input =~= esc.push(0x5b));
    } else {
        let p = digits.drop_last();
        let d = digits.last();
        assert(is_decimal(p)) by {
            assert forall|i: int| 0 <= i < p.len() implies 0x30 <= #[trigger] p[i] <= 0x39 by {
                assert(p[i] == digits[i]);
            }
        }
        assert(0x30 <= d <= 0x39) by {
            assert(0x30 <= digits[digits.len() - 1] <= 0x39);
        }
        lemma_csi_prefix(p);
        assert(input.drop_last() =~= seq![0x1bu8, 0x5bu8] + p);
        assert(input.last() == d);
        if p.len() == 0 {
            assert(param_value(p) == 0);
        }
    }
}

/// In any CSI or DCS parameter field that has just begun (its value is
/// zero, as after the introducer or a `;`), a run of decimal digits emits
/// nothing and leaves as the field's value what the digits accumulate to
/// from zero by saturating multiplication and addition, whatever the
/// position of the field.
pub proof fn lemma_param_field_accumulates(m: VtModel, digits: Seq<u8>)
    requires
        m.state == State::CsiParam || m.state == State::DcsParam,
        m.param == 0,
        is_decimal(digits),
    ensures
        vt_run(m, digits) == (VtModel { param: param_value(digits), ..m }, Seq::<EventView>::empty()),
    decreases digits.len(),
{
    reveal(perform_action);
    if digits.len() == 0 {
        assert(VtModel { param: param_value(digits), ..m } == m);
    } else {
        let p = digits.drop_last();
        let d = digits.last();
        assert(is_decimal(p)) by {
            assert forall|i: int| 0 <= i < p.len() implies 0x30 <= #[trigger] p[i] <= 0x39 by {
                assert(p[i] == digits[i]);
            }
        }
        assert(0x30 <= d <= 0x39) by {
            assert(0x30 <= digits[digits.len() - 1] <= 0x39);
        }
        lemma_param_field_accumulates(m, p);
        let mp = VtModel { param: param_value(p), ..m };
        assert(vt_step(mp, d) == (
            VtModel { param: param_value(digits), ..m },
            Seq::<EventView>::empty(),
        ));
        assert(Seq::<EventView>::empty() + Seq::<EventView>::empty() =~= Seq::<EventView>::empty());
    }
}

/// A CSI sequence with one parameter of decimal digits, from a new parser,
/// dispatches that parameter as the digits accumulate it: saturating
/// multiplication and addition from zero, so a value past `i64::MAX` is
/// delivered as `i64::MAX`.
pub proof fn lemma_csi_param_saturates(digits: Seq<u8>)
    requires
        digits.len() > 0,
        is_decimal(digits),
    ensures
        vt_run(initial_model(), seq![0x1bu8, 0x5bu8] + digits + seq![0x6du8]).1 == seq![
            EventView::CsiDispatch {
                params: seq![param_value(digits)],
                intermediates: seq![],
                ignore: false,
                action: 'm',
            },
        ],
{
    reveal(perform_action);
    lemma_csi_prefix(digits);
    let input = seq![0x1bu8, 0x5bu8] + digits + seq![0x6du8];
    assert(input.drop_last() =~= seq![0x1bu8, 0x5bu8] + digits);
    assert(input.last() == 0x6d);
    let m = csi_param_model(param_value(digits));
    let pushed: Seq<i64> = seq![param_value(digits)];
    assert(Seq::<i64>::empty().push(param_value(digits)) =~= pushed);
    assert(Seq::<EventView>::empty() + vt_step(m, 0x6d).1 =~= vt_step(m, 0x6d).1);
    assert(0x6du8 as char == 'm');
}

/// A CSI dispatch keeps at most two intermediates and sixteen parameters,
/// and its `ignore` flag tells whether, since the last `Clear`, more
/// intermediates were collected or more parameters ended than are kept, in
/// the state `n` that the dispatch leaves.
pub open spec fn csi_dispatch_ok(e: EventView, n: VtModel) -> bool {
    match e {
        EventView::CsiDispatch { params, intermediates, ignore, .. } => {
            &&& intermediates.len() <= MAX_INTERMEDIATES
            &&& params.len() <= MAX_PARAMS
            &&& ignore == (n.collected > MAX_INTERMEDIATES || n.committed > MAX_PARAMS)
        },
        _ => true,
    }
}

/// Whether no event is a CSI dispatch.
pub open spec fn no_csi_dispatch(events: Seq<EventView>) -> bool {
    forall|i: int| 0 <= i < events.len() ==> !(#[trigger] events[i] is CsiDispatch)
}

/// Whether every CSI dispatch among `events` is sound for the state `n`.
pub open spec fn csi_dispatches_ok(events: Seq<EventView>, n: VtModel) -> bool {
    forall|i: int| 0 <= i < events.len() ==> csi_dispatch_ok(#[trigger] events[i], n)
}

proof fn lemma_no_csi_concat(a: Seq<EventView>, b: Seq<EventView>)
    requires
        no_csi_dispatch(a),
        no_csi_dispatch(b),
    ensures
        no_csi_dispatch(a + b),
{
    assert forall|i: int| 0 <= i < (a + b).len() implies !(#[trigger] (a + b)[i] is CsiDispatch) by {
        if i < a.len() {
            assert((a + b)[i] == a[i]);
        } else {
            assert((a + b)[i] == b[i - a.len()]);
        }
    }
}

/// Only the `CsiDispatch` action dispatches a CSI sequence.
proof fn lemma_other_actions_no_csi(m: VtModel, action: Action, byte: u8)
    requires
        action != Action::CsiDispatch,
    ensures
        no_csi_dispatch(perform_action(m, action, byte).1),
        no_csi_dispatch(maybe_action(m, action, byte).1),
{
    reveal(perform_action);
    let evs = perform_action(m, action, byte).1;
    assert forall|i: int| 0 <= i < evs.len() implies !(#[trigger] evs[i] is CsiDispatch) by {
        if action == Action::BeginUtf8 {
            let (_, e, _) = utf8_feed(m, byte);
            assert(e.len() == 0 || e[0] is Print);
        }
    }
    let mevs = maybe_action(m, action, byte).1;
    assert forall|i: int| 0 <= i < mevs.len() implies !(#[trigger] mevs[i] is CsiDispatch) by {
        assert(mevs[i] == evs[i]);
    }
}

/// Every CSI sequence that one byte dispatches keeps at most two
/// intermediates and sixteen parameters, and reports `ignore` exactly when
/// more intermediates were collected, or more parameters ended, since the
/// last `Clear` than are kept.
pub proof fn lemma_csi_dispatch_step(m: VtModel, byte: u8)
    requires
        m.wf(),
    ensures
        csi_dispatches_ok(vt_step(m, byte).1, vt_step(m, byte).0),
{
    reveal(perform_action);
    let (n, evs) = vt_step(m, byte);
    if m.state == State::Utf8 {
        let (m1, e1, consumed) = utf8_feed(m, byte);
        assert(no_csi_dispatch(e1)) by {
            assert(e1.len() == 0 || e1[0] is Print);
        }
        if !consumed {
            lemma_table_step_csi(m1, byte);
            let (_, e2) = table_step(m1, byte);
            assert forall|i: int| 0 <= i < evs.len() implies csi_dispatch_ok(#[trigger] evs[i], n) by {
                if i < e1.len() {
                    assert(evs[i] == e1[i]);
                } else {
                    assert(evs[i] == e2[i - e1.len()]);
                }
            }
        } else {
            assert forall|i: int| 0 <= i < evs.len() implies csi_dispatch_ok(#[trigger] evs[i], n) by {
                assert(evs[i] == e1[i]);
            }
        }
    } else {
        lemma_table_step_csi(m, byte);
    }
}

proof fn lemma_table_step_csi(m: VtModel, byte: u8)
    requires
        m.wf(),
    ensures
        csi_dispatches_ok(table_step(m, byte).1, table_step(m, byte).0),
{
    let (next, action) = crate::lookup(m.state, byte);
    lemma_csi_dispatch_to_ground(State::Anywhere, byte);
    lemma_csi_dispatch_to_ground(m.state, byte);
    let (n, evs) = table_step(m, byte);
    if next == State::Anywhere {
        assert(action != Action::CsiDispatch);
        lemma_other_actions_no_csi(m, action, byte);
    } else {
        let exit = exit_action(m.state);
        let (m1, e1) = maybe_action(m, exit, byte);
        lemma_other_actions_no_csi(m, exit, byte);
        let m2 = VtModel { state: next, ..m1 };
        lemma_perform_action_wf(m, exit, byte);
        let (m3, e2) = maybe_action(m2, action, byte);
        let entry = entry_action(m3.state);
        let (m4, e3) = maybe_action(m3, entry, byte);
        lemma_other_actions_no_csi(m3, entry, byte);
        if action == Action::CsiDispatch {
            reveal(perform_action);
            assert(next == State::Ground);
            assert(m3.state == State::Ground);
            assert(entry == Action::Noop);
            assert(m4 == m3);
            lemma_perform_action_wf(m2, action, byte);
            assert(csi_dispatch_ok(e2[0], m4));
            assert forall|i: int| 0 <= i < evs.len() implies csi_dispatch_ok(#[trigger] evs[i], n) by {
                if i < e1.len() {
                    assert(evs[i] == e1[i]);
                } else if i < e1.len() + e2.len() {
                    assert(evs[i] == e2[i - e1.len()]);
                } else {
                    assert(evs[i] == e3[i - e1.len() - e2.len()]);
                }
            }
        } else {
            lemma_other_actions_no_csi(m2, action, byte);
            lemma_no_csi_concat(e1, e2);
            lemma_no_csi_concat(e1 + e2, e3);
        }
    }
}

/// From a new parser, every CSI sequence that any byte stream dispatches
/// keeps at most two intermediates and sixteen parameters.
pub proof fn lemma_csi_dispatch_bounds(bytes: Seq<u8>)
    ensures
        forall|i: int|
            0 <= i < vt_run(initial_model(), bytes).1.len() ==> match #[trigger] vt_run(
                initial_model(),
                bytes,
            ).1[i] {
                EventView::CsiDispatch { params, intermediates, .. } => {
                    &&& intermediates.len() <= MAX_INTERMEDIATES
                    &&& params.len() <= MAX_PARAMS
                },
                _ => true,
            },
    decreases bytes.len(),
{
    if bytes.len() > 0 {
        let p = bytes.drop_last();
        lemma_csi_dispatch_bounds(p);
        let (m, e1) = vt_run(initial_model(), p);
        lemma_run_wf(initial_model(), p);
        lemma_csi_dispatch_step(m, bytes.last());
        let (n, e2) = vt_step(m, bytes.last());
        let evs = vt_run(initial_model(), bytes).1;
        assert(evs == e1 + e2);
        assert forall|i: int| 0 <= i < evs.len() implies match #[trigger] evs[i] {
            EventView::CsiDispatch { params, intermediates, .. } => {
                &&& intermediates.len() <= MAX_INTERMEDIATES
                &&& params.len() <= MAX_PARAMS
            },
            _ => true,
        } by {
            if i < e1.len() {
                assert(evs[i] == e1[i]);
            } else {
                assert(evs[i] == e2[i - e1.len()]);
                assert(csi_dispatch_ok(e2[i - e1.len()], n));
            }
        }
    }
}

/// A parser in `Ground` with its UTF-8 decoder at rest.
pub open spec fn at_ground(g: VtModel) -> bool {
    g.state == State::Ground && g.utf8 == ground_model()
}

proof fn lemma_run_push(m: VtModel, s: Seq<u8>, b: u8)
    ensures
        vt_run(m, s.push(b)) == (
            vt_step(vt_run(m, s).0, b).0,
            vt_run(m, s).1 + vt_step(vt_run(m, s).0, b).1,
        ),
{
    assert(s.push(b).drop_last() =~= s);
    assert(s.push(b).last() == b);
}

proof fn lemma_run_empty(m: VtModel)
    ensures
        vt_run(m, Seq::<u8>::empty()) == (m, Seq::<EventView>::empty()),
{
}

/// From `Ground`, a lead byte of a multi-byte sequence starts the decoder.
proof fn lemma_lead_step(g: VtModel, b: u8)
    requires
        at_ground(g),
        b >= 0x80,
        crate::utf8::utf8_step(ground_model(), b).1 is Incomplete,
    ensures
        vt_step(g, b) == (
            VtModel { state: State::Utf8, utf8: crate::utf8::utf8_step(ground_model(), b).0, ..g },
            Seq::<EventView>::empty(),
        ),
{
    reveal(perform_action);
    assert(Seq::<EventView>::empty() + Seq::<EventView>::empty() + Seq::<EventView>::empty()
        =~= Seq::<EventView>::empty());
}

/// A one-byte scalar prints itself.
proof fn lemma_scalar_run_1(g: VtModel, bytes: Seq<u8>)
    requires
        at_ground(g),
        valid_first_scalar(bytes),
        bytes[0] >= 0x20,
        is_leading_byte_width_1(bytes[0]),
    ensures
        vt_run(g, take_first_scalar(bytes)) == (
            g,
            seq![EventView::Print(decode_first_scalar(bytes) as char)],
        ),
{
    reveal(perform_action);
    let t = take_first_scalar(bytes);
    let none: Seq<u8> = Seq::empty();
    let noev: Seq<EventView> = Seq::empty();
    lemma_run_empty(g);
    let b0 = bytes[0];
    assert(t =~= none.push(b0));
    lemma_run_push(g, none, b0);
    let c = decode_first_scalar(bytes);
    assert(c == b0 as u32) by (bit_vector)
        requires
            c == (b0 & 0x7f) as u32,
            b0 <= 0x7f,
    ;
    assert((b0 as char) as u32 == b0 as u32);
    char_u32_cast(b0 as char, c);
    assert(noev + seq![EventView::Print(b0 as char)] =~= seq![EventView::Print(b0 as char)]);
}

/// A two-byte scalar prints its code point.
#[verifier::rlimit(40)]
proof fn lemma_scalar_run_2(g: VtModel, bytes: Seq<u8>)
    requires
        at_ground(g),
        valid_first_scalar(bytes),
        bytes[0] >= 0x20,
        is_leading_byte_width_2(bytes[0]),
    ensures
        vt_run(g, take_first_scalar(bytes)) == (
            g,
            seq![EventView::Print(decode_first_scalar(bytes) as char)],
        ),
{
    reveal(perform_action);
    let t = take_first_scalar(bytes);
    let none: Seq<u8> = Seq::empty();
    let noev: Seq<EventView> = Seq::empty();
    lemma_run_empty(g);
    let b0 = bytes[0];
    let b1 = bytes[1];
    let c = decode_first_scalar(bytes);
    assert(0xc2 <= b0 && c <= 0x7ff) by (bit_vector)
        requires
            0xc0 <= b0 <= 0xdf,
            0x80 <= b1 <= 0xbf,
            c == (((b0 & 0x1f) as u32) << 6u32) | ((b1 & 0x3f) as u32),
            0x80 <= c,
    ;
    let acc1: u32 = 0u32 | (((b0 & 0x1f) as u32) << 6u32);
    lemma_lead_step(g, b0);
    let m1 = VtModel {
        state: State::Utf8,
        utf8: crate::utf8::Utf8Model { state: crate::utf8::State::Tail1, point: acc1 },
        ..g
    };
    assert(t =~= none.push(b0).push(b1));
    lemma_run_push(g, none, b0);
    lemma_run_push(g, none.push(b0), b1);
    assert(vt_run(g, none.push(b0)) == (m1, noev));
    assert(acc1 | ((b1 & 0x3f) as u32) == c) by (bit_vector)
        requires
            acc1 == 0u32 | (((b0 & 0x1f) as u32) << 6u32),
            c == (((b0 & 0x1f) as u32) << 6u32) | ((b1 & 0x3f) as u32),
    ;
    assert(char_of_point(c) == c as char);
    assert(noev + seq![EventView::Print(c as char)] =~= seq![EventView::Print(c as char)]);
}

/// A three-byte scalar prints its code point.
#[verifier::rlimit(60)]
proof fn lemma_scalar_run_3(g: VtModel, bytes: Seq<u8>)
    requires
        at_ground(g),
        valid_first_scalar(bytes),
        bytes[0] >= 0x20,
        is_leading_byte_width_3(bytes[0]),
    ensures
        vt_run(g, take_first_scalar(bytes)) == (
            g,
            seq![EventView::Print(decode_first_scalar(bytes) as char)],
        ),
{
    reveal(perform_action);
    let t = take_first_scalar(bytes);
    let none: Seq<u8> = Seq::empty();
    let noev: Seq<EventView> = Seq::empty();
    lemma_run_empty(g);
    let b0 = bytes[0];
    let b1 = bytes[1];
    let b2 = bytes[2];
    let c = decode_first_scalar(bytes);
    assert(c <= 0xffff && (b0 == 0xe0 ==> b1 >= 0xa0) && (b0 == 0xed ==> b1 <= 0x9f))
        by (bit_vector)
        requires
            0xe0 <= b0 <= 0xef,
            0x80 <= b1 <= 0xbf,
            0x80 <= b2 <= 0xbf,
            c == (((b0 & 0x0f) as u32) << 12u32) | (((b1 & 0x3f) as u32) << 6u32) | ((b2
                & 0x3f) as u32),
            0x800 <= c,
            !(0xD800 <= c <= 0xDFFF),
    ;
    let acc1: u32 = 0u32 | (((b0 & 0x0f) as u32) << 12u32);
    let acc2: u32 = acc1 | (((b1 & 0x3f) as u32) << 6u32);
    let s1 = if b0 == 0xe0 {
        crate::utf8::State::U3_2_e0
    } else if b0 == 0xed {
        crate::utf8::State::U3_2_ed
    } else {
        crate::utf8::State::Tail2
    };
    lemma_lead_step(g, b0);
    let m1 = VtModel {
        state: State::Utf8,
        utf8: crate::utf8::Utf8Model { state: s1, point: acc1 },
        ..g
    };
    let m2 = VtModel {
        state: State::Utf8,
        utf8: crate::utf8::Utf8Model { state: crate::utf8::State::Tail1, point: acc2 },
        ..g
    };
    assert(t =~= none.push(b0).push(b1).push(b2));
    lemma_run_push(g, none, b0);
    lemma_run_push(g, none.push(b0), b1);
    lemma_run_push(g, none.push(b0).push(b1), b2);
    assert(vt_run(g, none.push(b0)) == (m1, noev));
    assert(vt_step(m1, b1) == (m2, noev));
    assert(noev + noev =~= noev);
    assert(vt_run(g, none.push(b0).push(b1)) == (m2, noev));
    assert(acc2 | ((b2 & 0x3f) as u32) == c) by (bit_vector)
        requires
            acc1 == 0u32 | (((b0 & 0x0f) as u32) << 12u32),
            acc2 == acc1 | (((b1 & 0x3f) as u32) << 6u32),
            c == (((b0 & 0x0f) as u32) << 12u32) | (((b1 & 0x3f) as u32) << 6u32) | ((b2
                & 0x3f) as u32),
    ;
    assert(char_of_point(c) == c as char);
    assert(noev + seq![EventView::Print(c as char)] =~= seq![EventView::Print(c as char)]);
}

/// A four-byte scalar prints its code point.
#[verifier::rlimit(60)]
proof fn lemma_scalar_run_4(g: VtModel, bytes: Seq<u8>)
    requires
        at_ground(g),
        valid_first_scalar(bytes),
        bytes[0] >= 0x20,
        is_leading_byte_width_4(bytes[0]),
    ensures
        vt_run(g, take_first_scalar(bytes)) == (
            g,
            seq![EventView::Print(decode_first_scalar(bytes) as char)],
        ),
{
    reveal(perform_action);
    let t = take_first_scalar(bytes);
    let none: Seq<u8> = Seq::empty();
    let noev: Seq<EventView> = Seq::empty();
    lemma_run_empty(g);
    let b0 = bytes[0];
    let b1 = bytes[1];
    let b2 = bytes[2];
    let b3 = bytes[3];
    let c = decode_first_scalar(bytes);
    assert(b0 <= 0xf4 && (b0 == 0xf0 ==> b1 >= 0x90) && (b0 == 0xf4 ==> b1 <= 0x8f))
        by (bit_vector)
        requires
            0xf0 <= b0 <= 0xf7,
            0x80 <= b1 <= 0xbf,
            0x80 <= b2 <= 0xbf,
            0x80 <= b3 <= 0xbf,
            c == (((b0 & 0x07) as u32) << 18u32) | (((b1 & 0x3f) as u32) << 12u32) | (((b2
                & 0x3f) as u32) << 6u32) | ((b3 & 0x3f) as u32),
            0x10000 <= c <= 0x10ffff,
    ;
    let acc1: u32 = 0u32 | (((b0 & 0x07) as u32) << 18u32);
    let acc2: u32 = acc1 | (((b1 & 0x3f) as u32) << 12u32);
    let acc3: u32 = acc2 | (((b2 & 0x3f) as u32) << 6u32);
    let s1 = if b0 == 0xf0 {
        crate::utf8::State::Utf8_4_3_f0
    } else if b0 == 0xf4 {
        crate::utf8::State::Utf8_4_3_f4
    } else {
        crate::utf8::State::Tail3
    };
    lemma_lead_step(g, b0);
    let m1 = VtModel {
        state: State::Utf8,
        utf8: crate::utf8::Utf8Model { state: s1, point: acc1 },
        ..g
    };
    let m2 = VtModel {
        state: State::Utf8,
        utf8: crate::utf8::Utf8Model { state: crate::utf8::State::Tail2, point: acc2 },
        ..g
    };
    let m3 = VtModel {
        state: State::Utf8,
        utf8: crate::utf8::Utf8Model { state: crate::utf8::State::Tail1, point: acc3 },
        ..g
    };
    assert(t =~= none.push(b0).push(b1).push(b2).push(b3));
    lemma_run_push(g, none, b0);
    lemma_run_push(g, none.push(b0), b1);
    lemma_run_push(g, none.push(b0).push(b1), b2);
    lemma_run_push(g, none.push(b0).push(b1).push(b2), b3);
    assert(vt_run(g, none.push(b0)) == (m1, noev));
    assert(vt_step(m1, b1) == (m2, noev));
    assert(vt_step(m2, b2) == (m3, noev));
    assert(noev + noev =~= noev);
    assert(vt_run(g, none.push(b0).push(b1)) == (m2, noev));
    assert(vt_run(g, none.push(b0).push(b1).push(b2)) == (m3, noev));
    assert(acc3 | ((b3 & 0x3f) as u32) == c) by (bit_vector)
        requires
            acc1 == 0u32 | (((b0 & 0x07) as u32) << 18u32),
            acc2 == acc1 | (((b1 & 0x3f) as u32) << 12u32),
            acc3 == acc2 | (((b2 & 0x3f) as u32) << 6u32),
            c == (((b0 & 0x07) as u32) << 18u32) | (((b1 & 0x3f) as u32) << 12u32) | (((b2
                & 0x3f) as u32) << 6u32) | ((b3 & 0x3f) as u32),
    ;
    assert(char_of_point(c) == c as char);
    assert(noev + seq![EventView::Print(c as char)] =~= seq![EventView::Print(c as char)]);
}

/// The first scalar of valid UTF-8, fed to a parser at rest in `Ground`,
/// prints that scalar and leaves the parser as it was.
proof fn lemma_scalar_run(g: VtModel, bytes: Seq<u8>)
    requires
        at_ground(g),
        valid_first_scalar(bytes),
        bytes[0] >= 0x20,
    ensures
        vt_run(g, take_first_scalar(bytes)) == (
            g,
            seq![EventView::Print(decode_first_scalar(bytes) as char)],
        ),
{
    if is_leading_byte_width_1(bytes[0]) {
        lemma_scalar_run_1(g, bytes);
    } else if is_leading_byte_width_2(bytes[0]) {
        lemma_scalar_run_2(g, bytes);
    } else if is_leading_byte_width_3(bytes[0]) {
        lemma_scalar_run_3(g, bytes);
    } else {
        lemma_scalar_run_4(g, bytes);
    }
}

/// Whether `events` print `chars`, one event per character.
pub open spec fn prints(events: Seq<EventView>, chars: Seq<char>) -> bool {
    &&& events.len() == chars.len()
    &&& forall|i: int| 0 <= i < chars.len() ==> #[trigger] events[i] == EventView::Print(chars[i])
}

/// Valid UTF-8 without C0 controls, fed to a parser at rest in `Ground`,
/// prints exactly its decoded characters, with no other event, and leaves
/// the parser as it was.
pub proof fn lemma_valid_utf8_prints(g: VtModel, bytes: Seq<u8>)
    requires
        at_ground(g),
        valid_utf8(bytes),
        forall|i: int| 0 <= i < bytes.len() ==> #[trigger] bytes[i] >= 0x20,
    ensures
        vt_run(g, bytes).0 == g,
        prints(vt_run(g, bytes).1, decode_utf8(bytes)),
    decreases bytes.len(),
{
    if bytes.len() == 0 {
        lemma_run_empty(g);
        assert(decode_utf8(bytes) == Seq::<char>::empty());
    } else {
        let t = take_first_scalar(bytes);
        let r = pop_first_scalar(bytes);
        assert(bytes =~= t + r);
        assert(r.len() < bytes.len());
        lemma_scalar_run(g, bytes);
        lemma_run_append(g, t, r);
        assert forall|i: int| 0 <= i < r.len() implies #[trigger] r[i] >= 0x20 by {
            assert(r[i] == bytes[i + length_of_first_scalar(bytes)]);
        }
        lemma_valid_utf8_prints(g, r);
        let first = decode_first_scalar(bytes) as char;
        let d = decode_utf8(bytes);
        let dr = decode_utf8(r);
        assert(d == seq![first] + dr);
        let e1 = vt_run(g, t).1;
        let e2 = vt_run(g, r).1;
        let evs = vt_run(g, bytes).1;
        assert(evs == e1 + e2);
        assert forall|i: int| 0 <= i < d.len() implies #[trigger] evs[i] == EventView::Print(d[i]) by {
            if i == 0 {
                assert(evs[0] == e1[0]);
            } else {
                assert(evs[i] == e2[i - 1]);
                assert(d[i] == dr[i - 1]);
            }
        }
    }
}

/// Valid UTF-8 without C0 controls, fed to a new parser, prints exactly
/// its decoded characters, with no other event.
pub proof fn lemma_new_parser_prints_valid_utf8(bytes: Seq<u8>)
    requires
        valid_utf8(bytes),
        forall|i: int| 0 <= i < bytes.len() ==> #[trigger] bytes[i] >= 0x20,
    ensures
        prints(vt_run(initial_model(), bytes).1, decode_utf8(bytes)),
{
    lemma_valid_utf8_prints(initial_model(), bytes);
}

} // verus!
