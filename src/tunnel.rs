//! The tunnel: what each copy direction does with what it read, the
//! traffic record of each write, and the shared cancellation.
use vstd::prelude::*;
use crate::headers::{remove_headers, strip_headers};
use crate::model::{TrafficInfo, UserInfo};

verus! {

/// Bytes read per direction at a time.
pub const BUFFER_SIZE: usize = 51200;
/// Pause after end of input before a direction exits, in milliseconds.
pub const EOF_LINGER_MS: u64 = 50;

/// What a copy direction observed.
pub enum CopyEvent {
    /// Bytes read from the source.
    Data(Vec<u8>),
    /// The source reached end of input.
    Eof,
    /// The tunnel's canceller fired.
    Cancelled,
    /// Reading the source failed.
    Failed,
}

/// What a copy direction does next.
#[derive(Debug)]
pub enum CopyAction {
    /// Write these bytes to the destination, then report their count.
    Write(Vec<u8>),
    /// Wait this many milliseconds, then exit.
    LingerThenExit(u64),
    /// Exit now.
    Exit,
}

/// The step of one direction. With the header filter installed (the
/// client-to-server direction of a relayed HTTP request) data is written
/// without its `PROXY` header lines; otherwise as read.
pub fn copy_step(filter: bool, event: CopyEvent) -> (r: CopyAction)
    ensures
        match event {
            CopyEvent::Data(d) => match r {
                CopyAction::Write(w) => w@ == (if filter { strip_headers(d@, "PROXY"@) } else { d@ }),
                _ => false,
            },
            CopyEvent::Eof => r == CopyAction::LingerThenExit(50),
            CopyEvent::Cancelled => r == CopyAction::Exit,
            CopyEvent::Failed => r == CopyAction::Exit,
        },
{
    match event {
        CopyEvent::Data(d) => {
            if filter {
                CopyAction::Write(remove_headers(d.as_slice(), "PROXY"))
            } else {
                CopyAction::Write(d)
            }
        },
        CopyEvent::Eof => CopyAction::LingerThenExit(EOF_LINGER_MS),
        CopyEvent::Cancelled => CopyAction::Exit,
        CopyEvent::Failed => CopyAction::Exit,
    }
}

/// The traffic record of one successful write of `written` bytes.
pub fn traffic_event(
    user_info: &UserInfo,
    hostname: &str,
    local_ip: &str,
    remote_ip: &str,
    written: u64,
    is_upload: bool,
) -> (r: TrafficInfo)
    ensures
        r.user_id == user_info.user_id,
        r.user_plan_id == user_info.user_plan_id,
        r.host@ == hostname@,
        r.local_ip@ == local_ip@,
        r.remote_ip@ == remote_ip@,
        r.upload == (if is_upload { written } else { 0 }),
        r.download == (if is_upload { 0 } else { written }),
{
    TrafficInfo::new(user_info.user_id, user_info.user_plan_id, hostname, written, is_upload, remote_ip, local_ip)
}

/// The traffic a record carries.
pub open spec fn carried(t: TrafficInfo) -> nat {
    (t.upload + t.download) as nat
}

/// `t` is the record of a write of `w.0` bytes in the direction `w.1`.
pub open spec fn records_write(t: TrafficInfo, w: (u64, bool)) -> bool {
    &&& t.upload == (if w.1 { w.0 } else { 0 })
    &&& t.download == (if w.1 { 0 } else { w.0 })
}

pub open spec fn total_carried(ts: Seq<TrafficInfo>) -> nat
    decreases ts.len(),
{
    if ts.len() == 0 {
        0
    } else {
        total_carried(ts.drop_last()) + carried(ts.last())
    }
}

pub open spec fn total_written(ws: Seq<(u64, bool)>) -> nat
    decreases ws.len(),
{
    if ws.len() == 0 {
        0
    } else {
        total_written(ws.drop_last()) + ws.last().0 as nat
    }
}

/// When each write of a tunnel is reported by its record, the records carry
/// exactly the bytes written, both directions together.
pub proof fn lemma_traffic_conservation(ts: Seq<TrafficInfo>, ws: Seq<(u64, bool)>)
    requires
        ts.len() == ws.len(),
        forall|i: int| 0 <= i < ts.len() ==> records_write(#[trigger] ts[i], ws[i]),
    ensures
        total_carried(ts) == total_written(ws),
    decreases ts.len(),
{
    if ts.len() > 0 {
        let n = (ts.len() - 1) as int;
        assert forall|i: int| 0 <= i < ts.drop_last().len() implies records_write(#[trigger] ts.drop_last()[i], ws.drop_last()[i]) by {
            assert(ts.drop_last()[i] == ts[i]);
            assert(ws.drop_last()[i] == ws[i]);
        }
        lemma_traffic_conservation(ts.drop_last(), ws.drop_last());
        assert(records_write(ts[n], ws[n]));
    }
}

/// The account of one copy direction: every completed write and the
/// traffic record reported for it, one record per write, in order.
pub struct CopyMeter {
    pub upload: bool,
    pub writes: Ghost<Seq<(u64, bool)>>,
    pub records: Ghost<Seq<TrafficInfo>>,
}

impl CopyMeter {
    /// Each record reports its write.
    pub open spec fn wf(&self) -> bool {
        &&& self.records@.len() == self.writes@.len()
        &&& forall|i: int| 0 <= i < self.records@.len() ==> records_write(#[trigger] self.records@[i], self.writes@[i])
    }

    /// A direction that has written nothing.
    pub fn new(upload: bool) -> (r: CopyMeter)
        ensures
            r.wf(),
            r.upload == upload,
            r.writes@.len() == 0,
    {
        CopyMeter { upload, writes: Ghost(Seq::empty()), records: Ghost(Seq::empty()) }
    }

    /// A write of `written` bytes completed: the record to report for it.
    /// The records reported so far carry exactly the bytes written so far.
    pub fn written(
        &mut self,
        user_info: &UserInfo,
        hostname: &str,
        local_ip: &str,
        remote_ip: &str,
        written: u64,
    ) -> (r: TrafficInfo)
        requires
            old(self).wf(),
        ensures
            final(self).wf(),
            final(self).upload == old(self).upload,
            final(self).writes@ == old(self).writes@.push((written, old(self).upload)),
            final(self).records@ == old(self).records@.push(r),
            r.user_id == user_info.user_id,
            r.user_plan_id == user_info.user_plan_id,
            r.host@ == hostname@,
            r.local_ip@ == local_ip@,
            r.remote_ip@ == remote_ip@,
            total_carried(final(self).records@) == total_written(final(self).writes@),
    {
        let r = traffic_event(user_info, hostname, local_ip, remote_ip, written, self.upload);
        let ghost w = (written, self.upload);
        self.writes = Ghost(self.writes@.push(w));
        self.records = Ghost(self.records@.push(r));
        proof {
            assert forall|i: int| 0 <= i < self.records@.len() implies records_write(#[trigger] self.records@[i], self.writes@[i]) by {
                if i < self.records@.len() - 1 {
                    assert(self.records@[i] == old(self).records@[i]);
                    assert(self.writes@[i] == old(self).writes@[i]);
                }
            }
            lemma_traffic_conservation(self.records@, self.writes@);
        }
        r
    }
}

/// The two directions of one tunnel and its canceller.
pub struct TunnelState {
    pub upload_open: bool,
    pub download_open: bool,
    pub cancelled: bool,
}

impl TunnelState {
    pub fn new() -> (r: TunnelState)
        ensures
            r.upload_open && r.download_open && !r.cancelled,
    {
        TunnelState { upload_open: true, download_open: true, cancelled: false }
    }

    /// A direction exited. The first exit fires the canceller (returns
    /// `true`) so that the other direction stops too.
    pub fn direction_exited(&mut self, upload: bool) -> (fire: bool)
        ensures
            fire == !old(self).cancelled,
            final(self).cancelled,
            final(self).upload_open == (old(self).upload_open && !upload),
            final(self).download_open == (old(self).download_open && upload),
    {
        if upload {
            self.upload_open = false;
        } else {
            self.download_open = false;
        }
        let fire = !self.cancelled;
        self.cancelled = true;
        fire
    }

    /// The canceller fired from outside (the user was disabled, or shutdown).
    pub fn cancel(&mut self)
        ensures
            final(self).cancelled,
            final(self).upload_open == old(self).upload_open,
            final(self).download_open == old(self).download_open,
    {
        self.cancelled = true;
    }

    /// Both directions have exited: the sockets are shut down and the
    /// registry entry removed.
    pub fn finished(&self) -> (r: bool)
        ensures
            r == (!self.upload_open && !self.download_open),
    {
        !self.upload_open && !self.download_open
    }
}

} // verus!
