//! Synchronized updates (DEC private mode 2026): between `CSI ? 2026 h` and
//! `CSI ? 2026 l` the bytes are buffered, then parsed all at once.
use core::time::Duration;
use std::time::Instant;

use vstd::prelude::*;
use vstd::slice::slice_subrange;

use crate::laws::lemma_run_append;
use crate::{
    copy_range, deliver_all, initial_model, views, vt_run, vt_step, Event, EventView, Parser, Perform,
    VtModel,
};

verus! {

/// Maximum number of bytes held during one synchronized update (2 MiB).
pub const SYNC_BUFFER_SIZE: usize = 0x20_0000;

/// Number of bytes in the BSU and ESU sequences.
pub const SYNC_ESCAPE_LEN: usize = 8;

/// Milliseconds before a synchronized update is aborted.
pub const SYNC_UPDATE_TIMEOUT_MS: u64 = 150;

/// `CSI ? 2026 h`: begins or extends a synchronized update.
pub open spec fn bsu_csi() -> Seq<u8> {
    seq![0x1bu8, 0x5bu8, 0x3fu8, 0x32u8, 0x30u8, 0x32u8, 0x36u8, 0x68u8]
}

/// `CSI ? 2026 l`: ends a synchronized update.
pub open spec fn esu_csi() -> Seq<u8> {
    seq![0x1bu8, 0x5bu8, 0x3fu8, 0x32u8, 0x30u8, 0x32u8, 0x36u8, 0x6cu8]
}

/// The eight bytes at `p`.
pub open spec fn window(buf: Seq<u8>, p: int) -> Seq<u8> {
    buf.subrange(p, p + SYNC_ESCAPE_LEN)
}

/// Whether an event begins a synchronized update: private mode 2026 set by
/// a CSI sequence that dropped nothing.
pub open spec fn is_sync_begin(e: EventView) -> bool {
    match e {
        EventView::CsiDispatch { params, intermediates, ignore, action } => {
            &&& !ignore
            &&& intermediates == seq![0x3fu8]
            &&& action == 'h'
            &&& params.contains(2026)
        },
        _ => false,
    }
}

/// The outcome of a scan of `buf` for BSU and ESU sequences starting in
/// `start..end`, from right to left: `esu` is the rightmost ESU, if any;
/// `bsu` is the leftmost BSU to the right of it (of the whole range where
/// there is no ESU), if any.
pub open spec fn scan_outcome(
    buf: Seq<u8>,
    start: int,
    end: int,
    bsu: Option<usize>,
    esu: Option<usize>,
) -> bool {
    let lo: int = match esu {
        Some(e) => e + 1,
        None => start,
    };
    &&& match esu {
        Some(e) => start <= e < end && window(buf, e as int) == esu_csi(),
        None => true,
    }
    &&& forall|p: int| lo <= p < end ==> window(buf, p) != esu_csi()
    &&& match bsu {
        Some(b) => {
            &&& lo <= b < end
            &&& window(buf, b as int) == bsu_csi()
            &&& forall|p: int| lo <= p < b ==> window(buf, p) != bsu_csi()
        },
        None => forall|p: int| lo <= p < end ==> window(buf, p) != bsu_csi(),
    }
}

/// Where the scan of held bytes starts, when the last `new_bytes` of `len`
/// are new: an escape may begin up to seven bytes before them.
pub open spec fn scan_start(len: int, new_bytes: int) -> int {
    if len - new_bytes > SYNC_ESCAPE_LEN - 1 {
        len - new_bytes - (SYNC_ESCAPE_LEN - 1)
    } else {
        0
    }
}

/// Where the scan of `len` held bytes ends: the last position at which a
/// whole escape fits, exclusive.
pub open spec fn scan_end(len: int) -> int {
    if len > SYNC_ESCAPE_LEN - 1 {
        len - (SYNC_ESCAPE_LEN - 1)
    } else {
        0
    }
}

/// The outcome of the scan of held bytes `buffer` whose last `new_bytes`
/// are new: the BSU and ESU positions that `scan_outcome` describes, which
/// are unique (`lemma_scan_outcome_unique`).
pub open spec fn scan_choice(buffer: Seq<u8>, new_bytes: int) -> (Option<usize>, Option<usize>) {
    choose|o: (Option<usize>, Option<usize>)|
        scan_outcome(
            buffer,
            scan_start(buffer.len() as int, new_bytes),
            scan_end(buffer.len() as int),
            o.0,
            o.1,
        )
}

/// The processor that has been fed `fed` and holds `buffer`.
pub open spec fn processor_model(fed: Seq<u8>, buffer: Seq<u8>, pending: bool) -> ProcessorModel {
    ProcessorModel { parser: vt_run(initial_model(), fed).0, buffer, fed, pending }
}

/// A synchronized update ended: every held byte parsed, nothing held, the
/// timeout cleared.
pub open spec fn flushed(m: ProcessorModel) -> ProcessorModel {
    processor_model(m.fed + m.buffer, Seq::empty(), false)
}

/// The processor after the escapes of the held bytes `buffer`, its last
/// `new_bytes` new, were handled, from fed bytes `fed`: each BSU sets the
/// timeout; at an ESU the held bytes are parsed up to the first BSU after
/// it, which stays held with the update pending, or all of them, which
/// ends the update.
pub open spec fn scan_effect(
    fed: Seq<u8>,
    buffer: Seq<u8>,
    new_bytes: int,
    pending: bool,
) -> ProcessorModel {
    let (bsu, esu) = scan_choice(buffer, new_bytes);
    match esu {
        None => processor_model(fed, buffer, pending || bsu.is_some()),
        Some(_) => match bsu {
            Some(b) => processor_model(
                fed + buffer.subrange(0, b as int),
                buffer.subrange(b as int, buffer.len() as int),
                true,
            ),
            None => flushed(processor_model(fed, buffer, pending)),
        },
    }
}

/// Whether the events of byte `i` of `bytes`, fed after the bytes before it
/// to a parser in state `m`, begin a synchronized update.
pub open spec fn sync_begins_at(m: VtModel, bytes: Seq<u8>, i: int) -> bool {
    let evs = vt_step(vt_run(m, bytes.subrange(0, i)).0, bytes[i]).1;
    exists|k: int| 0 <= k < evs.len() && is_sync_begin(#[trigger] evs[k])
}

/// How many bytes are parsed directly, looking from `i` on: up to and
/// including the first byte whose events begin a synchronized update, or
/// all of them.
pub open spec fn direct_count(m: VtModel, bytes: Seq<u8>, i: int) -> int
    decreases bytes.len() - i,
{
    if i >= bytes.len() {
        bytes.len() as int
    } else if sync_begins_at(m, bytes, i) {
        i + 1
    } else {
        direct_count(m, bytes, i + 1)
    }
}

/// Parsing `bytes` directly: the processor after, and how many bytes were
/// parsed. The byte that begins a synchronized update is the last one
/// parsed, and sets the timeout.
pub open spec fn direct_effect(m: ProcessorModel, bytes: Seq<u8>) -> (ProcessorModel, int) {
    let n = direct_count(m.parser, bytes, 0);
    (
        processor_model(
            m.fed + bytes.subrange(0, n),
            m.buffer,
            m.pending || (n > 0 && sync_begins_at(m.parser, bytes, n - 1)),
        ),
        n,
    )
}

/// One round of `Processor::advance` on the bytes not yet taken: the
/// processor after, and how many bytes were taken. During an update the
/// bytes are held and their escapes handled, unless the buffer would reach
/// `SYNC_BUFFER_SIZE - 1` bytes: then the update ends and they are parsed
/// directly. Outside of one, bytes still held are parsed first, then the
/// new ones directly.
#[verifier::opaque]
pub open spec fn proc_step(m: ProcessorModel, bytes: Seq<u8>) -> (ProcessorModel, int) {
    if m.pending {
        if m.buffer.len() + bytes.len() >= SYNC_BUFFER_SIZE - 1 {
            direct_effect(flushed(m), bytes)
        } else {
            (scan_effect(m.fed, m.buffer + bytes, bytes.len() as int, m.pending), bytes.len() as int)
        }
    } else {
        direct_effect(
            if m.buffer.len() > 0 {
                flushed(m)
            } else {
                m
            },
            bytes,
        )
    }
}

/// `Processor::advance`: rounds of `proc_step` until every byte is taken.
pub open spec fn proc_run(m: ProcessorModel, bytes: Seq<u8>) -> ProcessorModel
    decreases bytes.len(),
{
    if bytes.len() == 0 {
        m
    } else {
        let (m1, n) = proc_step(m, bytes);
        if 0 < n <= bytes.len() {
            proc_run(m1, bytes.subrange(n, bytes.len() as int))
        } else {
            m1
        }
    }
}

/// One round of `proc_run`.
pub proof fn lemma_proc_run_round(m: ProcessorModel, bytes: Seq<u8>)
    requires
        bytes.len() > 0,
        0 < proc_step(m, bytes).1 <= bytes.len(),
    ensures
        proc_run(m, bytes) == proc_run(
            proc_step(m, bytes).0,
            bytes.subrange(proc_step(m, bytes).1, bytes.len() as int),
        ),
{
}

/// The scan's choice is the outcome that the scan found.
pub proof fn lemma_scan_choice(buffer: Seq<u8>, new_bytes: int, bsu: Option<usize>, esu: Option<usize>)
    requires
        scan_outcome(
            buffer,
            scan_start(buffer.len() as int, new_bytes),
            scan_end(buffer.len() as int),
            bsu,
            esu,
        ),
    ensures
        scan_choice(buffer, new_bytes) == (bsu, esu),
{
    let st = scan_start(buffer.len() as int, new_bytes);
    let en = scan_end(buffer.len() as int);
    lemma_scan_outcome_unique(buffer, st, en, bsu, esu);
    assert(scan_outcome(buffer, st, en, (bsu, esu).0, (bsu, esu).1));
    let o = scan_choice(buffer, new_bytes);
    assert(scan_outcome(buffer, st, en, o.0, o.1));
}

/// At most one outcome meets `scan_outcome`: the rightmost ESU and the
/// leftmost BSU after it are unique.
pub proof fn lemma_scan_outcome_unique(
    buf: Seq<u8>,
    start: int,
    end: int,
    bsu: Option<usize>,
    esu: Option<usize>,
)
    requires
        scan_outcome(buf, start, end, bsu, esu),
    ensures
        forall|b: Option<usize>, e: Option<usize>| #[trigger]
            scan_outcome(buf, start, end, b, e) ==> b == bsu && e == esu,
{
    assert forall|b: Option<usize>, e: Option<usize>| #[trigger]
        scan_outcome(buf, start, end, b, e) implies b == bsu && e == esu by {
        match (esu, e) {
            (Some(x), Some(y)) => {
                if x < y {
                    assert(window(buf, y as int) == esu_csi());
                } else if y < x {
                    assert(window(buf, x as int) == esu_csi());
                }
            },
            (Some(x), None) => {
                assert(window(buf, x as int) == esu_csi());
            },
            (None, Some(y)) => {
                assert(window(buf, y as int) == esu_csi());
            },
            (None, None) => {},
        }
        assert(e == esu);
        match (bsu, b) {
            (Some(x), Some(y)) => {
                if x < y {
                    assert(window(buf, x as int) == bsu_csi());
                } else if y < x {
                    assert(window(buf, y as int) == bsu_csi());
                }
            },
            (Some(x), None) => {
                assert(window(buf, x as int) == bsu_csi());
            },
            (None, Some(y)) => {
                assert(window(buf, y as int) == bsu_csi());
            },
            (None, None) => {},
        }
    }
}

/// Relies on `memchr::memchr_iter`: every position of `needle` in
/// `haystack`, in increasing order.
#[verifier::external_body]
fn positions_of(needle: u8, haystack: &[u8]) -> (r: Vec<usize>)
    ensures
        forall|k: int|
            0 <= k < r@.len() ==> r@[k] < haystack@.len() && haystack@[r@[k] as int] == needle,
        forall|k: int, l: int| 0 <= k < l < r@.len() ==> r@[k] < r@[l],
        forall|i: int|
            0 <= i < haystack@.len() && haystack@[i] == needle ==> exists|k: int|
                0 <= k < r@.len() && r@[k] == i,
{
    memchr::memchr_iter(needle, haystack).collect()
}

/// Relies on `Duration::from_millis`: a duration of `ms` milliseconds.
#[verifier::external_body]
fn duration_from_millis(ms: u64) -> Duration {
    Duration::from_millis(ms)
}

/// Relies on `Instant::now`: the current moment.
#[verifier::external_body]
fn instant_now() -> Instant {
    Instant::now()
}

/// Relies on `Instant::checked_add`: the moment `duration` after `instant`,
/// or `None` where it cannot be represented.
#[verifier::external_body]
fn instant_checked_add(instant: Instant, duration: Duration) -> Option<Instant> {
    instant.checked_add(duration)
}

#[verifier::external_type_specification]
#[verifier::external_body]
pub struct ExInstant(Instant);

/// Creates timeouts and checks their expiry, for a [`Processor`].
pub trait Timeout {
    /// Whether a timeout is set and has not yet expired.
    spec fn is_pending(&self) -> bool;

    /// Sets the timeout of the next synchronized update.
    fn set_timeout(&mut self, duration: Duration)
        ensures
            final(self).is_pending(),
    ;

    /// Clears the current timeout.
    fn clear_timeout(&mut self)
        ensures
            !final(self).is_pending(),
    ;

    /// Whether a timeout is set and has not yet expired.
    fn pending_timeout(&self) -> (r: bool)
        ensures
            r == self.is_pending(),
    ;
}

/// A [`Timeout`] that keeps the deadline of the current synchronized update.
pub struct StdSyncHandler {
    timeout: Option<Instant>,
}

impl StdSyncHandler {
    /// A handler with no timeout set.
    pub fn new() -> (r: StdSyncHandler)
        ensures
            r.deadline().is_none(),
            !r.is_pending(),
    {
        StdSyncHandler { timeout: None }
    }

    /// The deadline, if a timeout is set.
    pub closed spec fn deadline(&self) -> Option<Instant> {
        self.timeout
    }

    /// Synchronized update expiration time.
    pub fn sync_timeout(&self) -> (r: Option<Instant>)
        ensures
            r == self.deadline(),
            r.is_some() == self.is_pending(),
    {
        self.timeout
    }
}

impl Timeout for StdSyncHandler {
    /// A deadline is set.
    closed spec fn is_pending(&self) -> bool {
        self.timeout.is_some()
    }

    /// Sets the deadline `duration` from now; a duration that takes it past
    /// what `Instant` can represent makes it expire at once.
    fn set_timeout(&mut self, duration: Duration) {
        let now = instant_now();
        self.timeout = match instant_checked_add(now, duration) {
            Some(deadline) => Some(deadline),
            None => Some(now),
        };
    }

    fn clear_timeout(&mut self) {
        self.timeout = None;
    }

    fn pending_timeout(&self) -> bool {
        self.timeout.is_some()
    }
}

/// The abstract state of a [`Processor`].
pub struct ProcessorModel {
    /// The state of the parser.
    pub parser: VtModel,
    /// The bytes held back during a synchronized update.
    pub buffer: Seq<u8>,
    /// Every byte the parser has been fed, in order.
    pub fed: Seq<u8>,
    /// Whether a synchronized update is pending.
    pub pending: bool,
}

/// A [`Parser`] that holds back the bytes of synchronized updates.
pub struct Processor<T: Timeout> {
    parser: Parser,
    timeout: T,
    buffer: Vec<u8>,
    fed: Ghost<Seq<u8>>,
}

impl<T: Timeout> View for Processor<T> {
    type V = ProcessorModel;

    closed spec fn view(&self) -> ProcessorModel {
        ProcessorModel {
            parser: self.parser@,
            buffer: self.buffer@,
            fed: self.fed@,
            pending: self.timeout.is_pending(),
        }
    }
}

impl<T: Timeout> Processor<T> {
    /// The invariant of a processor: the parser is where the bytes it was
    /// fed leave a new parser, and the buffer holds at most
    /// `SYNC_BUFFER_SIZE - 2` bytes.
    pub open spec fn wf(&self) -> bool {
        &&& self@.parser.wf()
        &&& self@.parser == vt_run(initial_model(), self@.fed).0
        &&& self@.buffer.len() <= SYNC_BUFFER_SIZE - 2
    }

    /// A processor with an empty buffer, a new parser, and `timeout`
    /// cleared.
    pub fn new(timeout: T) -> (r: Self)
        ensures
            r.wf(),
            r@.parser == initial_model(),
            r@.buffer == Seq::<u8>::empty(),
            r@.fed == Seq::<u8>::empty(),
            !r@.pending,
    {
        let ghost empty: Seq<u8> = Seq::empty();
        let mut timeout = timeout;
        timeout.clear_timeout();
        Processor { parser: Parser::new(), timeout, buffer: Vec::new(), fed: Ghost(empty) }
    }

    /// The timeout of synchronized updates.
    pub fn sync_timeout(&self) -> &T {
        &self.timeout
    }

    /// Number of bytes in the synchronization buffer.
    pub fn sync_bytes_count(&self) -> (r: usize)
        ensures
            r == self@.buffer.len(),
    {
        self.buffer.len()
    }

    /// Feeds `bytes` to the parser until one of them ends an event that
    /// begins a synchronized update; that byte is the last one fed, and
    /// sets the timeout. Returns the number of bytes fed.
    fn advance_direct<P: Perform>(&mut self, performer: &mut P, bytes: &[u8]) -> (n: usize)
        requires
            old(self).wf(),
        ensures
            final(self).wf(),
            n <= bytes@.len(),
            bytes@.len() > 0 ==> n > 0,
            (final(self)@, n as int) == direct_effect(old(self)@, bytes@),
    {
        let ghost fed0 = self.fed@;
        let ghost p0 = self@.parser;
        let mut i: usize = 0;
        let mut begun = false;
        assert(bytes@.subrange(0, 0) =~= seq![]);
        assert(fed0 + seq![] =~= fed0);
        while i < bytes.len() && !begun
            invariant
                i <= bytes@.len(),
                begun ==> i > 0,
                self.wf(),
                self@.fed == fed0 + bytes@.subrange(0, i as int),
                self@.buffer == old(self)@.buffer,
                p0 == old(self)@.parser,
                p0 == vt_run(initial_model(), fed0).0,
                !begun ==> direct_count(p0, bytes@, 0) == direct_count(p0, bytes@, i as int),
                !begun ==> self@.pending == old(self)@.pending,
                !begun && i > 0 ==> !sync_begins_at(p0, bytes@, i - 1),
                begun ==> direct_count(p0, bytes@, 0) == i && sync_begins_at(p0, bytes@, i - 1)
                    && self@.pending,
            decreases bytes@.len() - i,
        {
            let ghost before = self@;
            let mut events: Vec<Event> = Vec::new();
            assert(views(events@) =~= Seq::<EventView>::empty());
            self.parser.step(bytes[i], &mut events);
            deliver_all(performer, &events);
            begun = begins_sync(&events);
            if begun {
                self.timeout.set_timeout(duration_from_millis(SYNC_UPDATE_TIMEOUT_MS));
            }
            proof {
                let b = bytes[i as int];
                lemma_run_append(initial_model(), before.fed, seq![b]);
                assert(seq![b].drop_last() =~= seq![]);
                assert(seq![b].last() == b);
                let e: Seq<u8> = seq![];
                assert(vt_run(before.parser, e) == (before.parser, Seq::<EventView>::empty()));
                assert(vt_run(before.parser, seq![b]).0 == vt_step(before.parser, b).0);
                assert(bytes@.subrange(0, i + 1) =~= bytes@.subrange(0, i as int) + seq![b]);
                assert(fed0 + bytes@.subrange(0, i + 1) =~= before.fed + seq![b]);
                self.fed = Ghost(before.fed + seq![b]);
                lemma_run_append(initial_model(), fed0, bytes@.subrange(0, i as int));
                assert(before.parser == vt_run(p0, bytes@.subrange(0, i as int)).0);
                let evs = vt_step(before.parser, b).1;
                assert(views(events@) =~= evs);
                if begun {
                    let k = choose|k: int| 0 <= k < events@.len() && is_sync_begin(#[trigger] events@[k]@);
                    assert(evs[k] == events@[k]@);
                    assert(sync_begins_at(p0, bytes@, i as int));
                } else {
                    assert forall|k: int| 0 <= k < evs.len() implies !is_sync_begin(#[trigger] evs[k]) by {
                        assert(evs[k] == events@[k]@);
                    }
                    assert(!sync_begins_at(p0, bytes@, i as int));
                }
            }
            i = i + 1;
        }
        i
    }

    /// Parses the held bytes up to `bsu_offset`, or all of them. With an
    /// offset the rest stays held; without one the update is over: the
    /// buffer is emptied, the timeout cleared, and, where `report` holds,
    /// the performer is told that the mode was reset.
    fn stop_sync_internal<P: Perform>(
        &mut self,
        performer: &mut P,
        bsu_offset: Option<usize>,
        report: bool,
    )
        requires
            old(self).wf(),
            match bsu_offset {
                Some(o) => o <= old(self)@.buffer.len(),
                None => true,
            },
        ensures
            final(self).wf(),
            final(self)@ == match bsu_offset {
                Some(o) => processor_model(
                    old(self)@.fed + old(self)@.buffer.subrange(0, o as int),
                    old(self)@.buffer.subrange(o as int, old(self)@.buffer.len() as int),
                    old(self)@.pending,
                ),
                None => flushed(old(self)@),
            },
    {
        let ghost old_model = self@;
        let len = self.buffer.len();
        let offset = match bsu_offset {
            Some(o) => o,
            None => len,
        };
        let ghost start = self.parser@;
        self.parser.advance(performer, slice_subrange(self.buffer.as_slice(), 0, offset));
        proof {
            let flushed_bytes = old_model.buffer.subrange(0, offset as int);
            lemma_run_append(initial_model(), old_model.fed, flushed_bytes);
            self.fed = Ghost(old_model.fed + flushed_bytes);
        }
        match bsu_offset {
            Some(o) => {
                self.buffer = copy_range(&self.buffer, o, len);
            },
            None => {
                assert(old_model.buffer.subrange(0, len as int) =~= old_model.buffer);
                if report {
                    let mut params: Vec<i64> = Vec::new();
                    params.push(2026);
                    let mut intermediates: Vec<u8> = Vec::new();
                    intermediates.push(0x3f);
                    let mut events: Vec<Event> = Vec::new();
                    events.push(
                        Event::CsiDispatch { params, intermediates, ignore: false, action: 'l' },
                    );
                    deliver_all(performer, &events);
                }
                self.timeout.clear_timeout();
                self.buffer.clear();
                assert(self@.buffer =~= Seq::<u8>::empty());
            },
        }
    }

    /// Ends a synchronized update: parses the held bytes, tells the
    /// performer that the mode was reset, and clears the timeout.
    pub fn stop_sync<P: Perform>(&mut self, performer: &mut P)
        requires
            old(self).wf(),
        ensures
            final(self).wf(),
            final(self)@ == flushed(old(self)@),
            final(self)@.fed == old(self)@.fed + old(self)@.buffer,
            final(self)@.buffer == Seq::<u8>::empty(),
            !final(self)@.pending,
    {
        self.stop_sync_internal(performer, None, true);
    }

    /// Processes bytes from the terminal, in rounds of `proc_step`: outside
    /// of a synchronized update they are parsed as they come, up to a BSU;
    /// during one they are held until an ESU ends it or the buffer would
    /// overflow. Bytes held past the expiry of the timeout are parsed before
    /// any new ones. No byte is lost or reordered.
    pub fn advance<P: Perform>(&mut self, performer: &mut P, bytes: &[u8])
        requires
            old(self).wf(),
        ensures
            final(self).wf(),
            final(self)@ == proc_run(old(self)@, bytes@),
            final(self)@.fed + final(self)@.buffer == old(self)@.fed + old(self)@.buffer + bytes@,
    {
        let ghost total = self@.fed + self@.buffer;
        let ghost start = self@;
        let mut processed: usize = 0;
        assert(total + bytes@.subrange(0, 0) =~= total);
        assert(bytes@.subrange(0, bytes@.len() as int) =~= bytes@);
        while processed < bytes.len()
            invariant
                processed <= bytes@.len(),
                self.wf(),
                self@.fed + self@.buffer == total + bytes@.subrange(0, processed as int),
                proc_run(self@, bytes@.subrange(processed as int, bytes@.len() as int)) == proc_run(
                    start,
                    bytes@,
                ),
                start == old(self)@,
            decreases bytes@.len() - processed,
        {
            let rest = slice_subrange(bytes, processed, bytes.len());
            let ghost before = self@;
            let n = self.advance_round(performer, rest);
            proof {
                lemma_proc_run_round(before, rest@);
                assert(rest@.subrange(n as int, rest@.len() as int) =~= bytes@.subrange(
                    processed + n,
                    bytes@.len() as int,
                ));
                assert(rest@.subrange(0, n as int) =~= bytes@.subrange(
                    processed as int,
                    processed + n,
                ));
                assert(bytes@.subrange(0, processed + n) =~= bytes@.subrange(0, processed as int)
                    + bytes@.subrange(processed as int, processed + n));
                assert(self@.fed + self@.buffer =~= before.fed + before.buffer + rest@.subrange(
                    0,
                    n as int,
                ));
            }
            processed = processed + n;
        }
        assert(bytes@.subrange(0, processed as int) =~= bytes@);
        assert(bytes@.subrange(processed as int, bytes@.len() as int) =~= Seq::<u8>::empty());
    }

    /// One round of `advance` on the bytes not yet taken; returns how many
    /// it took.
    fn advance_round<P: Perform>(&mut self, performer: &mut P, bytes: &[u8]) -> (n: usize)
        requires
            old(self).wf(),
        ensures
            final(self).wf(),
            n <= bytes@.len(),
            bytes@.len() > 0 ==> n > 0,
            (final(self)@, n as int) == proc_step(old(self)@, bytes@),
            final(self)@.fed + final(self)@.buffer == old(self)@.fed + old(self)@.buffer
                + bytes@.subrange(0, n as int),
    {
        let ghost before = self@;
        reveal(proc_step);
        if self.timeout.pending_timeout() {
            self.advance_sync(performer, bytes)
        } else {
            if self.buffer.len() > 0 {
                self.stop_sync_internal(performer, None, true);
            }
            assert(self@.buffer =~= seq![]);
            assert(self@.fed + self@.buffer =~= before.fed + before.buffer);
            let n = self.advance_direct(performer, bytes);
            assert(self@.fed + self@.buffer =~= before.fed + before.buffer + bytes@.subrange(
                0,
                n as int,
            ));
            n
        }
    }

    /// Processes bytes during a synchronized update: holds them and handles
    /// their escapes, or, where the buffer would reach
    /// `SYNC_BUFFER_SIZE - 1` bytes, ends the update and parses them
    /// directly. Returns the number of bytes taken.
    fn advance_sync<P: Perform>(&mut self, performer: &mut P, bytes: &[u8]) -> (n: usize)
        requires
            old(self).wf(),
        ensures
            final(self).wf(),
            n <= bytes@.len(),
            bytes@.len() > 0 ==> n > 0,
            final(self)@.fed + final(self)@.buffer == old(self)@.fed + old(self)@.buffer
                + bytes@.subrange(0, n as int),
            old(self)@.buffer.len() + bytes@.len() >= SYNC_BUFFER_SIZE - 1 ==> (
            final(self)@,
            n as int,
            ) == direct_effect(flushed(old(self)@), bytes@),
            old(self)@.buffer.len() + bytes@.len() < SYNC_BUFFER_SIZE - 1 ==> {
                &&& n == bytes@.len()
                &&& final(self)@ == scan_effect(
                    old(self)@.fed,
                    old(self)@.buffer + bytes@,
                    bytes@.len() as int,
                    old(self)@.pending,
                )
            },
    {
        let ghost total = self@.fed + self@.buffer;
        if bytes.len() >= SYNC_BUFFER_SIZE - 1 - self.buffer.len() {
            self.stop_sync_internal(performer, None, true);
            assert(self@.fed + self@.buffer =~= total);
            let n = self.advance_direct(performer, bytes);
            assert(self@.buffer =~= seq![]);
            assert(self@.fed + self@.buffer =~= total + bytes@.subrange(0, n as int));
            n
        } else {
            let mut i: usize = 0;
            let ghost buf0 = self@.buffer;
            assert(buf0 + bytes@.subrange(0, 0) =~= buf0);
            while i < bytes.len()
                invariant
                    i <= bytes@.len(),
                    buf0.len() + bytes@.len() < SYNC_BUFFER_SIZE - 1,
                    self@.parser == old(self)@.parser,
                    self@.fed == old(self)@.fed,
                    self@.pending == old(self)@.pending,
                    self@.buffer == buf0 + bytes@.subrange(0, i as int),
                    buf0 == old(self)@.buffer,
                decreases bytes@.len() - i,
            {
                self.buffer.push(bytes[i]);
                i = i + 1;
                assert(self@.buffer =~= buf0 + bytes@.subrange(0, i as int));
            }
            assert(bytes@.subrange(0, i as int) =~= bytes@);
            let ghost held = self@;
            assert(held.buffer =~= old(self)@.buffer + bytes@);
            self.advance_sync_csi(performer, bytes.len());
            assert(total + bytes@ =~= held.fed + held.buffer);
            bytes.len()
        }
    }

    /// Looks for BSU and ESU sequences that begin in the last
    /// `new_bytes` held bytes, or end there, from right to left. A BSU
    /// refreshes the timeout; the rightmost ESU ends the update, but for the
    /// bytes from the first BSU after it, which stay held.
    fn advance_sync_csi<P: Perform>(&mut self, performer: &mut P, new_bytes: usize)
        requires
            old(self).wf(),
            new_bytes <= old(self)@.buffer.len(),
        ensures
            final(self).wf(),
            final(self)@.fed + final(self)@.buffer == old(self)@.fed + old(self)@.buffer,
            final(self)@ == scan_effect(
                old(self)@.fed,
                old(self)@.buffer,
                new_bytes as int,
                old(self)@.pending,
            ),
    {
        let len = self.buffer.len();
        let first_new = len - new_bytes;
        let start = if first_new > SYNC_ESCAPE_LEN - 1 {
            first_new - (SYNC_ESCAPE_LEN - 1)
        } else {
            0
        };
        let end = if len > SYNC_ESCAPE_LEN - 1 {
            len - (SYNC_ESCAPE_LEN - 1)
        } else {
            0
        };
        assert(start == scan_start(len as int, new_bytes as int));
        assert(end == scan_end(len as int));
        let ghost before = self@;
        if start < end {
            let (bsu, esu) = self.scan_sync_escapes(start, end);
            proof {
                lemma_scan_choice(before.buffer, new_bytes as int, bsu, esu);
            }
            if esu.is_some() {
                self.stop_sync_internal(performer, bsu, false);
                proof {
                    match bsu {
                        Some(o) => {
                            assert(before.buffer.subrange(0, o as int) + before.buffer.subrange(
                                o as int,
                                before.buffer.len() as int,
                            ) =~= before.buffer);
                            assert(self@.fed + self@.buffer =~= before.fed + before.buffer);
                        },
                        None => {
                            assert(self@.fed + self@.buffer =~= before.fed + before.buffer);
                        },
                    }
                }
            }
        } else {
            proof {
                let none: Option<usize> = None;
                assert(scan_outcome(before.buffer, start as int, end as int, none, none));
                lemma_scan_choice(before.buffer, new_bytes as int, none, none);
            }
        }
    }


    /// Scans the held bytes for BSU and ESU sequences that start in
    /// `start..end`, from right to left, setting the timeout for each BSU
    /// until an ESU is met.
    fn scan_sync_escapes(&mut self, start: usize, end: usize) -> (r: (Option<usize>, Option<usize>))
        requires
            start <= end,
            end + SYNC_ESCAPE_LEN <= old(self)@.buffer.len() + 1,
        ensures
            final(self)@ == (ProcessorModel { pending: old(self)@.pending || r.0.is_some(), ..old(self)@ }),
            scan_outcome(old(self)@.buffer, start as int, end as int, r.0, r.1),
    {
        let ghost buf = self.buffer@;
        let hay = slice_subrange(self.buffer.as_slice(), start, end);
        let positions = positions_of(0x1b, hay);
        proof {
            assert forall|j: int| 0 <= j < positions@.len() implies start + positions@[j] < end
                && buf[start + positions@[j]] == 0x1b by {
                assert(hay@[positions@[j] as int] == buf[start + positions@[j]]);
            }
            assert forall|p: int| start <= p < end && buf[p] == 0x1b implies exists|j: int|
                0 <= j < positions@.len() && start + positions@[j] == p by {
                assert(hay@[p - start] == buf[p]);
            }
        }
        let mut bsu: Option<usize> = None;
        let mut k = positions.len();
        let mut cursor = end;
        while k > 0
            invariant
                self@ == (ProcessorModel { pending: old(self)@.pending || bsu.is_some(), ..old(self)@ }),
                buf == self.buffer@,
                k <= positions@.len(),
                start <= cursor <= end,
                end + SYNC_ESCAPE_LEN <= buf.len() + 1,
                forall|j: int| 0 <= j < positions@.len() ==> start + positions@[j] < end && buf[start + positions@[j]] == 0x1b,
                forall|a: int, b: int| 0 <= a < b < positions@.len() ==> positions@[a] < positions@[b],
                forall|p: int| start <= p < end && buf[p] == 0x1b ==> exists|j: int| 0 <= j < positions@.len() && start + positions@[j] == p,
                k < positions@.len() ==> cursor == start + positions@[k as int],
                k == positions@.len() ==> cursor == end,
                forall|j: int| 0 <= j < k ==> start + positions@[j] < cursor,
                forall|p: int| cursor <= p < end ==> window(buf, p) != esu_csi(),
                match bsu {
                    Some(b) => {
                        &&& cursor <= b < end
                        &&& window(buf, b as int) == bsu_csi()
                        &&& forall|p: int| cursor <= p < b ==> window(buf, p) != bsu_csi()
                    },
                    None => forall|p: int| cursor <= p < end ==> window(buf, p) != bsu_csi(),
                },
            decreases k,
        {
            k = k - 1;
            let offset = start + positions[k];
            let prev = cursor;
            proof {
                assert forall|p: int| offset < p < prev implies window(buf, p) != esu_csi() && window(buf, p) != bsu_csi() by {
                    if buf[p] == 0x1b {
                        let j = choose|j: int| 0 <= j < positions@.len() && start + positions@[j] == p;
                        if j <= k {
                            assert(positions@[j] <= positions@[k as int]);
                        }
                    }
                    assert(window(buf, p)[0] == buf[p]);
                }
            }
            cursor = offset;
            if is_escape(&self.buffer, offset, 0x68) {
                self.timeout.set_timeout(duration_from_millis(SYNC_UPDATE_TIMEOUT_MS));
                bsu = Some(offset);
            } else if is_escape(&self.buffer, offset, 0x6c) {
                return (bsu, Some(offset));
            }
        }
        proof {
            assert forall|p: int| start <= p < cursor implies window(buf, p) != esu_csi() && window(buf, p) != bsu_csi() by {
                if buf[p] == 0x1b {
                    let j = choose|j: int| 0 <= j < positions@.len() && start + positions@[j] == p;
                }
                assert(window(buf, p)[0] == buf[p]);
            }
        }
        (bsu, None)
    }
}

/// Whether the eight bytes at `offset` are `CSI ? 2026` followed by `last`.
fn is_escape(buf: &Vec<u8>, offset: usize, last: u8) -> (r: bool)
    requires
        offset + SYNC_ESCAPE_LEN <= buf.len(),
    ensures
        r == (window(buf@, offset as int) == seq![
            0x1bu8,
            0x5bu8,
            0x3fu8,
            0x32u8,
            0x30u8,
            0x32u8,
            0x36u8,
            last,
        ]),
{
    let r = buf[offset] == 0x1b && buf[offset + 1] == 0x5b && buf[offset + 2] == 0x3f && buf[offset
        + 3] == 0x32 && buf[offset + 4] == 0x30 && buf[offset + 5] == 0x32 && buf[offset + 6]
        == 0x36 && buf[offset + 7] == last;
    let ghost w = window(buf@, offset as int);
    let ghost e = seq![0x1bu8, 0x5bu8, 0x3fu8, 0x32u8, 0x30u8, 0x32u8, 0x36u8, last];
    proof {
        if r {
            assert(w =~= e);
        } else {
            if w == e {
                assert(w[0] == e[0] && w[1] == e[1] && w[2] == e[2] && w[3] == e[3]);
                assert(w[4] == e[4] && w[5] == e[5] && w[6] == e[6] && w[7] == e[7]);
            }
        }
    }
    r
}

/// Whether one of `events` begins a synchronized update.
fn begins_sync(events: &Vec<Event>) -> (r: bool)
    ensures
        r == exists|i: int| 0 <= i < events@.len() && is_sync_begin(#[trigger] events@[i]@),
{
    let mut i: usize = 0;
    while i < events.len()
        invariant
            i <= events@.len(),
            forall|j: int| 0 <= j < i ==> !is_sync_begin(#[trigger] events@[j]@),
        decreases events@.len() - i,
    {
        if event_begins_sync(&events[i]) {
            return true;
        }
        i = i + 1;
    }
    false
}

fn event_begins_sync(e: &Event) -> (r: bool)
    ensures
        r == is_sync_begin(e@),
{
    match e {
        Event::CsiDispatch { params, intermediates, ignore, action } => {
            let r = csi_begins_sync(params, intermediates, *ignore, *action);
            proof {
                assert(e@ == EventView::CsiDispatch {
                    params: params@,
                    intermediates: intermediates@,
                    ignore: *ignore,
                    action: *action,
                });
            }
            r
        },
        _ => false,
    }
}

fn csi_begins_sync(params: &Vec<i64>, intermediates: &Vec<u8>, ignore: bool, action: char) -> (r:
    bool)
    ensures
        r == is_sync_begin(
            EventView::CsiDispatch {
                params: params@,
                intermediates: intermediates@,
                ignore,
                action,
            },
        ),
{
    if ignore || action != 'h' || intermediates.len() != 1 || intermediates[0] != 0x3f {
        proof {
            if intermediates@ == seq![0x3fu8] {
                assert(intermediates@[0] == 0x3f);
            }
        }
        return false;
    }
    assert(intermediates@ =~= seq![0x3fu8]);
    let mut i: usize = 0;
    while i < params.len()
        invariant
            i <= params@.len(),
            !ignore,
            action == 'h',
            intermediates@ == seq![0x3fu8],
            forall|j: int| 0 <= j < i ==> params@[j] != 2026,
        decreases params@.len() - i,
    {
        if params[i] == 2026 {
            assert(params@.contains(2026)) by {
                assert(params@[i as int] == 2026);
            }
            return true;
        }
        i = i + 1;
    }
    false
}

} // verus!
