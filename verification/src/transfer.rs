//! Reporting on file transfers.

use vstd::prelude::*;

use crate::device::DeviceId;
use crate::text;
use crate::text::{digits_text, join3, same};

verus! {

/// The shortest time between two progress reports of one transfer, in
/// milliseconds.
pub const PROGRESS_MIN_INTERVAL: u64 = 200;

/// How many transfers the service remembers.
pub const SERVICE_TRANSFERS: usize = 50;

/// How many transfers the applet shows.
pub const MAX_RECENT_TRANSFERS: usize = 20;

/// Which way a transfer goes.
#[derive(Debug, Clone, Copy, PartialEq, Eq, Structural)]
pub enum TransferDirection {
    Incoming,
    Outgoing,
}

/// How far a transfer has come.
#[derive(Debug, PartialEq, Eq)]
pub enum TransferState {
    Receiving,
    Completed,
    Failed { stage: String, reason: String },
}

impl TransferState {
    /// The same state again.
    pub fn copy(&self) -> (r: TransferState)
        ensures
            r == *self,
    {
        match self {
            TransferState::Receiving => TransferState::Receiving,
            TransferState::Completed => TransferState::Completed,
            TransferState::Failed { stage, reason } => TransferState::Failed {
                stage: stage.clone(),
                reason: reason.clone(),
            },
        }
    }
}

/// A report on one transfer.
#[derive(Debug, PartialEq, Eq)]
pub struct TransferStatus {
    pub transfer_id: String,
    pub device_id: String,
    pub direction: TransferDirection,
    pub filename: Option<String>,
    pub expected_size: Option<u64>,
    pub received_bytes: u64,
    pub state: TransferState,
    pub saved_path: Option<String>,
}

/// The same optional text again.
pub fn copy_text(s: &Option<String>) -> (r: Option<String>)
    ensures
        r == *s,
{
    match s {
        Some(t) => Some(t.clone()),
        None => None,
    }
}

impl TransferStatus {
    /// The same report again.
    pub fn copy(&self) -> (r: TransferStatus)
        ensures
            r == *self,
    {
        TransferStatus {
            transfer_id: self.transfer_id.clone(),
            device_id: self.device_id.clone(),
            direction: self.direction,
            filename: copy_text(&self.filename),
            expected_size: self.expected_size,
            received_bytes: self.received_bytes,
            state: self.state.copy(),
            saved_path: copy_text(&self.saved_path),
        }
    }
}

/// Digits with leading zeros up to four places.
pub open spec fn padded(d: Seq<char>) -> Seq<char>
    decreases 4 - d.len(),
{
    if d.len() >= 4 {
        d
    } else {
        padded(seq!['0'] + d)
    }
}

/// The identifier of the transfer that began at `millis` as the `counter`-th.
pub open spec fn transfer_id(millis: nat, counter: nat) -> Seq<char> {
    text::digits(millis, 16) + "-"@ + padded(text::digits(counter, 16))
}

fn pad(d: String) -> (r: String)
    ensures
        r@ == padded(d@),
{
    let mut r = d;
    let mut n: usize = text::chars_of(&r).len();
    while n < 4
        invariant
            r@.len() == n,
            padded(r@) == padded(d@),
        decreases 4 - n,
    {
        let ghost before = r@;
        r = text::join2("0", &r);
        proof {
            reveal_strlit("0");
            assert("0"@ =~= seq!['0']);
        }
        n = n + 1;
    }
    r
}

/// Reports on one incoming transfer. Progress is throttled; the end of a
/// transfer consumes the reporter, so it is told exactly once.
#[derive(Debug, PartialEq, Eq)]
pub struct IncomingTransfer {
    status: TransferStatus,
    last_progress: Option<u64>,
}

impl IncomingTransfer {
    /// The report as it stands before any progress.
    pub closed spec fn base(&self) -> TransferStatus {
        self.status
    }

    /// When progress was last reported.
    pub closed spec fn last(&self) -> Option<u64> {
        self.last_progress
    }

    /// Reports on a transfer from the device. `millis` and `counter` make its
    /// identifier.
    pub fn new(
        device_id: &DeviceId,
        filename: Option<String>,
        expected_size: Option<u64>,
        millis: u128,
        counter: u32,
    ) -> (r: IncomingTransfer)
        ensures
            r.last() is None,
            r.base().transfer_id@ == transfer_id(millis as nat, counter as nat),
            r.base().device_id@ == device_id@,
            r.base().direction == TransferDirection::Incoming,
            r.base().filename == filename,
            r.base().expected_size == expected_size,
            r.base().received_bytes == 0,
            r.base().state is Receiving,
            r.base().saved_path is None,
    {
        let id = join3(
            &digits_text(millis, 16),
            "-",
            &pad(digits_text(counter as u128, 16)),
        );
        IncomingTransfer {
            status: TransferStatus {
                transfer_id: id,
                device_id: device_id.0.clone(),
                direction: TransferDirection::Incoming,
                filename,
                expected_size,
                received_bytes: 0,
                state: TransferState::Receiving,
                saved_path: None,
            },
            last_progress: None,
        }
    }

    /// The identifier of the transfer.
    pub fn id(&self) -> (r: &str)
        ensures
            r@ == self.base().transfer_id@,
    {
        self.status.transfer_id.as_str()
    }

    /// The first report: reception is starting.
    pub fn started(&self) -> (r: TransferStatus)
        ensures
            r == self.base(),
    {
        self.status.copy()
    }

    /// A progress report at the time `now` (in milliseconds of a clock that
    /// never goes back), unless the last one is too recent.
    pub fn progress(&mut self, now: u64, received_bytes: u64) -> (r: Option<TransferStatus>)
        ensures
            final(self).base() == old(self).base(),
            r is Some <==> (old(self).last() is None || now - old(self).last()->0
                >= PROGRESS_MIN_INTERVAL),
            r is Some <==> (old(self).last() is None || now >= old(self).last()->0 + 200),
            r is Some ==> r->0 == (TransferStatus { received_bytes, ..old(self).base() }),
            r is Some ==> final(self).last() == Some(now),
            r is None ==> final(self).last() == old(self).last(),
    {
        let due = match self.last_progress {
            Some(last) => now >= last && now - last >= PROGRESS_MIN_INTERVAL,
            None => true,
        };
        if !due {
            return None;
        }
        self.last_progress = Some(now);
        let mut status = self.status.copy();
        status.received_bytes = received_bytes;
        Some(status)
    }

    /// The last report of a transfer that was saved at the path.
    pub fn completed(self, saved_path: String, received_bytes: u64) -> (r: TransferStatus)
        ensures
            r == (TransferStatus {
                state: TransferState::Completed,
                saved_path: Some(saved_path),
                received_bytes,
                ..self.base()
            }),
    {
        TransferStatus {
            state: TransferState::Completed,
            saved_path: Some(saved_path),
            received_bytes,
            ..self.status
        }
    }

    /// The last report of a transfer that failed at the stage.
    pub fn failed(self, stage: &str, reason: String) -> (r: TransferStatus)
        ensures
            r.state matches TransferState::Failed { stage: s, reason: why } && s@ == stage@ && why
                == reason,
            r == (TransferStatus { state: r.state, ..self.base() }),
    {
        TransferStatus {
            state: TransferState::Failed { stage: stage.to_owned(), reason },
            ..self.status
        }
    }
}

/// Counts what an outgoing transfer has handed out.
#[derive(Debug, PartialEq, Eq)]
pub struct TransferAdapter {
    pub transfer_bytes: usize,
    pub total_size: u64,
    pub processed_percent: u8,
}

impl TransferAdapter {
    /// Nothing handed out yet.
    pub fn new(total_size: u64) -> (r: TransferAdapter)
        ensures
            r == (TransferAdapter { transfer_bytes: 0, total_size, processed_percent: 0 }),
    {
        TransferAdapter { transfer_bytes: 0, total_size, processed_percent: 0 }
    }

    /// Counts the bytes that a read brought.
    pub fn count(&mut self, filled: usize)
        requires
            old(self).transfer_bytes + filled <= usize::MAX,
        ensures
            *final(self) == (TransferAdapter {
                transfer_bytes: (old(self).transfer_bytes + filled) as usize,
                ..*old(self)
            }),
    {
        self.transfer_bytes = self.transfer_bytes + filled;
    }

    /// The progress to show after a read that brought `filled` bytes, with
    /// `percent` of the whole handed out: the end of the data is shown at once,
    /// anything else when the ticker says so.
    pub fn report(&mut self, complete: bool, filled: usize, percent: u8, ticked: bool) -> (r: Option<
        u8,
    >)
        ensures
            *final(self) == (TransferAdapter { processed_percent: percent, ..*old(self) }),
            r == (if complete && filled == 0 {
                Some(100u8)
            } else if ticked {
                Some(percent)
            } else {
                None
            }),
    {
        self.processed_percent = percent;
        if complete && filled == 0 {
            Some(100)
        } else if ticked {
            Some(percent)
        } else {
            None
        }
    }
}

/// The latest reports, newest transfer first.
#[derive(Debug, PartialEq, Eq)]
pub struct RecentTransfers {
    items: Vec<TransferStatus>,
    cap: usize,
}

/// No transfer stands twice.
pub open spec fn distinct_transfers(items: Seq<TransferStatus>) -> bool {
    forall|i: int, j: int|
        #![trigger items[i], items[j]]
        0 <= i < j < items.len() ==> items[i].transfer_id@ != items[j].transfer_id@
}

/// Where the transfer stands among the reports, or how many there are.
pub open spec fn transfer_at(items: Seq<TransferStatus>, id: Seq<char>) -> int
    decreases items.len(),
{
    if items.len() == 0 || items[0].transfer_id@ == id {
        0
    } else {
        1 + transfer_at(items.skip(1), id)
    }
}

/// The reports after one more: a known transfer is brought up to date in its
/// place, a new one comes first and the oldest beyond the limit goes.
pub open spec fn with_report(items: Seq<TransferStatus>, cap: int, status: TransferStatus) -> Seq<
    TransferStatus,
> {
    let at = transfer_at(items, status.transfer_id@);
    if at < items.len() {
        items.update(at, status)
    } else {
        let all = seq![status] + items;
        if all.len() > cap {
            all.take(cap)
        } else {
            all
        }
    }
}

proof fn lemma_transfer_at(items: Seq<TransferStatus>, id: Seq<char>)
    ensures
        0 <= transfer_at(items, id) <= items.len(),
        transfer_at(items, id) < items.len() ==> items[transfer_at(items, id)].transfer_id@ == id,
        forall|j: int|
            0 <= j < transfer_at(items, id) ==> (#[trigger] items[j]).transfer_id@ != id,
    decreases items.len(),
{
    if items.len() > 0 && items[0].transfer_id@ != id {
        lemma_transfer_at(items.skip(1), id);
        assert forall|j: int| 0 <= j < transfer_at(items, id) implies (
        #[trigger] items[j]).transfer_id@ != id by {
            if j > 0 {
                assert(items.skip(1)[j - 1] == items[j]);
            }
        }
    }
}

/// Taking in a report keeps the list within its limit and each transfer in it
/// once, and the newest report of the transfer is in it.
pub proof fn lemma_reports_stay_bounded(items: Seq<TransferStatus>, cap: int, status: TransferStatus)
    requires
        distinct_transfers(items),
        items.len() <= cap,
        cap >= 1,
    ensures
        with_report(items, cap, status).len() <= cap,
        distinct_transfers(with_report(items, cap, status)),
        with_report(items, cap, status).contains(status),
{
    let id = status.transfer_id@;
    lemma_transfer_at(items, id);
    let at = transfer_at(items, id);
    let now = with_report(items, cap, status);
    if at < items.len() {
        assert(now[at] == status);
        assert forall|i: int, j: int|
            #![trigger now[i], now[j]]
            0 <= i < j < now.len() implies now[i].transfer_id@ != now[j].transfer_id@ by {
            assert(items[i].transfer_id@ != items[j].transfer_id@);
        }
    } else {
        assert(now[0] == status);
        assert forall|i: int, j: int|
            #![trigger now[i], now[j]]
            0 <= i < j < now.len() implies now[i].transfer_id@ != now[j].transfer_id@ by {
            assert(now[j] == items[j - 1]);
            if i > 0 {
                assert(now[i] == items[i - 1]);
                assert(items[i - 1].transfer_id@ != items[j - 1].transfer_id@);
            }
        }
    }
}

impl RecentTransfers {
    /// The reports.
    pub closed spec fn list(&self) -> Seq<TransferStatus> {
        self.items@
    }

    /// How many reports are kept.
    pub closed spec fn limit(&self) -> nat {
        self.cap as nat
    }

    /// The list keeps its limit, and each transfer stands in it once.
    pub open spec fn wf(&self) -> bool {
        &&& 1 <= self.limit() <= usize::MAX
        &&& self.list().len() <= self.limit()
        &&& distinct_transfers(self.list())
    }

    /// No reports yet.
    pub fn new(cap: usize) -> (r: RecentTransfers)
        requires
            cap >= 1,
        ensures
            r.wf(),
            r.list().len() == 0,
            r.limit() == cap,
    {
        RecentTransfers { items: Vec::new(), cap }
    }

    /// Takes in a report.
    pub fn record(&mut self, status: TransferStatus)
        requires
            old(self).wf(),
        ensures
            final(self).wf(),
            final(self).limit() == old(self).limit(),
            final(self).list() == with_report(old(self).list(), old(self).limit() as int, status),
    {
        let ghost before = self.items@;
        proof {
            lemma_reports_stay_bounded(before, self.cap as int, status);
            lemma_transfer_at(before, status.transfer_id@);
            assert(before.skip(0) == before);
        }
        let mut i: usize = 0;
        while i < self.items.len() && !same(&self.items[i].transfer_id, &status.transfer_id)
            invariant
                i <= before.len(),
                self.items@ == before,
                self.cap == old(self).cap,
                transfer_at(before, status.transfer_id@) == i + transfer_at(
                    before.skip(i as int),
                    status.transfer_id@,
                ),
            decreases before.len() - i,
        {
            proof {
                assert(before.skip(i as int).skip(1) == before.skip(i + 1));
            }
            i = i + 1;
        }
        proof {
            if i == before.len() {
                assert(before.skip(i as int).len() == 0);
            }
        }
        if i < self.items.len() {
            self.items.set(i, status);
        } else {
            self.items.insert(0, status);
            proof {
                assert(self.items@ =~= seq![status] + before);
            }
            self.items.truncate(self.cap);
            proof {
                let all = seq![status] + before;
                if all.len() > self.cap {
                    assert(all.subrange(0, self.cap as int) =~= all.take(self.cap as int));
                }
            }
        }
    }

    /// The reports on transfers of the device.
    pub fn of_device(&self, device_id: &str) -> (r: Vec<TransferStatus>)
        ensures
            r@ == self.list().filter(|s: TransferStatus| s.device_id@ == device_id@),
    {
        let mut r: Vec<TransferStatus> = Vec::new();
        let ghost pick = |s: TransferStatus| s.device_id@ == device_id@;
        let mut i: usize = 0;
        while i < self.items.len()
            invariant
                i <= self.items@.len(),
                pick == (|s: TransferStatus| s.device_id@ == device_id@),
                r@ == self.items@.take(i as int).filter(pick),
            decreases self.items@.len() - i,
        {
            proof {
                assert(self.items@.take(i + 1) == self.items@.take(i as int).push(
                    self.items@[i as int],
                ));
                self.items@.take(i as int).lemma_filter_push(self.items@[i as int], pick);
            }
            if same(&self.items[i].device_id, device_id) {
                r.push(self.items[i].copy());
            }
            i = i + 1;
        }
        proof {
            assert(self.items@.take(i as int) == self.items@);
        }
        r
    }
}

/// Two reports are on the same transfer.
pub open spec fn same_transfer(a: TransferStatus, b: TransferStatus) -> bool {
    &&& a.transfer_id == b.transfer_id
    &&& a.device_id == b.device_id
    &&& a.direction == b.direction
    &&& a.filename == b.filename
    &&& a.expected_size == b.expected_size
}

/// Every report of a transfer, from the first to the last, names the same
/// transfer, device and file.
pub proof fn lemma_reports_name_one_transfer(
    base: TransferStatus,
    received_bytes: u64,
    state: TransferState,
    path: Option<String>,
)
    ensures
        same_transfer(base, base),
        same_transfer((TransferStatus { received_bytes, ..base }), base),
        same_transfer((TransferStatus { state, ..base }), base),
        same_transfer((TransferStatus { state, saved_path: path, received_bytes, ..base }), base),
{
}

/// Where a report goes: one on a known transfer takes the place of the earlier
/// one, and all others stay; one on a new transfer comes first, and the others
/// follow in their order as far as the limit allows.
pub proof fn lemma_reports_take_their_place(
    items: Seq<TransferStatus>,
    cap: int,
    status: TransferStatus,
    i: int,
)
    requires
        distinct_transfers(items),
        items.len() <= cap,
        cap >= 1,
    ensures
        ({
            let now = with_report(items, cap, status);
            &&& 0 <= i < items.len() && items[i].transfer_id@ == status.transfer_id@ ==> now.len()
                == items.len() && now[i] == status && forall|j: int|
                0 <= j < items.len() && j != i ==> #[trigger] now[j] == items[j]
            &&& (forall|j: int|
                0 <= j < items.len() ==> (#[trigger] items[j]).transfer_id@ != status.transfer_id@)
                ==> now.len() == (if items.len() < cap {
                items.len() as int + 1
            } else {
                cap
            }) && now[0] == status && forall|j: int|
                1 <= j < now.len() ==> #[trigger] now[j] == items[j - 1]
        }),
{
    lemma_transfer_at(items, status.transfer_id@);
    let at = transfer_at(items, status.transfer_id@);
    if 0 <= i < items.len() && items[i].transfer_id@ == status.transfer_id@ {
        if at < i {
            assert(items[at].transfer_id@ != items[i].transfer_id@);
        }
        assert(at == i);
    }
}

/// Padding puts zeros before the digits, up to four places, and keeps the digits.
pub proof fn lemma_padding(d: Seq<char>)
    ensures
        padded(d).len() == (if d.len() < 4 {
            4
        } else {
            d.len()
        }),
        padded(d).skip(padded(d).len() - d.len()) == d,
        forall|i: int|
            0 <= i < padded(d).len() - d.len() ==> #[trigger] padded(d)[i] == '0',
    decreases 4 - d.len(),
{
    if d.len() < 4 {
        let e = seq!['0'] + d;
        lemma_padding(e);
        let p = padded(d);
        assert(p == padded(e));
        assert(p.skip(p.len() - d.len()) =~= p.skip(p.len() - e.len()).skip(1));
        assert(e.skip(1) =~= d);
        assert forall|i: int| 0 <= i < p.len() - d.len() implies #[trigger] p[i] == '0' by {
            if i == p.len() - e.len() {
                assert(p.skip(p.len() - e.len())[0] == e[0]);
            }
        }
    } else {
        assert(d.skip(0) =~= d);
    }
}

/// The identifier of a transfer is when it began, a dash, and its number.
pub proof fn lemma_identifiers(millis: nat, counter: nat)
    ensures
        ({
            let id = transfer_id(millis, counter);
            let m = text::digits(millis, 16);
            &&& text::begins(id, m)
            &&& id[m.len() as int] == '-'
            &&& id.skip(m.len() as int + 1) == padded(text::digits(counter, 16))
        }),
{
    reveal_strlit("-");
    let id = transfer_id(millis, counter);
    let m = text::digits(millis, 16);
    assert(id.take(m.len() as int) =~= m);
    assert(id.skip(m.len() as int + 1) =~= padded(text::digits(counter, 16)));
}

} // verus!
