//! The collector wire protocol.
//!
//! A snapshot request is a single trigger byte; the response is a
//! machine-word little-endian length prefix followed by exactly that many
//! payload bytes, which encode the whole snapshot in a compact binary
//! record format. This module is that format: every integer is eight bytes
//! little-endian, byte strings carry their length first, options a one-byte
//! tag, lists their element count. Encoding then decoding a snapshot yields
//! the same snapshot, proved below; a payload that does not decode is a
//! [`CollectorError::DecodeFailure`].

use vstd::prelude::*;

use crate::sample::{sample_views, GpuUsage, ProcessData, ProcessDataView};

verus! {

/// Why one snapshot request failed. Either error is fatal to that refresh
/// cycle only; the caller keeps its last-known-good summaries.
#[derive(Clone, Copy, PartialEq, Eq, Structural, Debug)]
pub enum CollectorError {
    /// The byte stream to the collector broke or delivered a short read.
    ChannelFailure,
    /// The payload did not decode as a snapshot.
    DecodeFailure,
}

/// The single byte that triggers one snapshot over the collector stream.
pub fn request_byte() -> (r: u8)
    ensures
        r == 10u8,
{
    10
}

// ---------------------------------------------------------------------------
// Integers: eight bytes, little-endian.
// ---------------------------------------------------------------------------

/// The eight little-endian bytes of `v`.
pub open spec fn spec_enc_u64(v: u64) -> Seq<u8> {
    seq![
        v as u8,
        (v >> 8) as u8,
        (v >> 16) as u8,
        (v >> 24) as u8,
        (v >> 32) as u8,
        (v >> 40) as u8,
        (v >> 48) as u8,
        (v >> 56) as u8,
    ]
}

/// Reads eight little-endian bytes off the front of `t`.
pub open spec fn spec_dec_u64(t: Seq<u8>) -> Option<(u64, Seq<u8>)> {
    if t.len() >= 8 {
        let v = (t[0] as u64) | ((t[1] as u64) << 8) | ((t[2] as u64) << 16) | ((t[3] as u64)
            << 24) | ((t[4] as u64) << 32) | ((t[5] as u64) << 40) | ((t[6] as u64) << 48) | ((
        t[7] as u64) << 56);
        Some((v, t.skip(8)))
    } else {
        None
    }
}

/// Decoding undoes encoding for a single integer, whatever follows it.
proof fn lemma_dec_enc_u64(v: u64, rest: Seq<u8>)
    ensures
        spec_dec_u64(spec_enc_u64(v) + rest) == Some((v, rest)),
{
    let t = spec_enc_u64(v) + rest;
    assert(t.len() >= 8);
    assert(t[0] == v as u8 && t[1] == (v >> 8) as u8 && t[2] == (v >> 16) as u8 && t[3] == (v
        >> 24) as u8 && t[4] == (v >> 32) as u8 && t[5] == (v >> 40) as u8 && t[6] == (v >> 48)
        as u8 && t[7] == (v >> 56) as u8);
    assert(((v as u8) as u64) | (((v >> 8) as u8 as u64) << 8) | (((v >> 16) as u8 as u64) << 16)
        | (((v >> 24) as u8 as u64) << 24) | (((v >> 32) as u8 as u64) << 32) | (((v >> 40) as u8
        as u64) << 40) | (((v >> 48) as u8 as u64) << 48) | (((v >> 56) as u8 as u64) << 56)
        == v) by (bit_vector);
    assert(t.skip(8) =~= rest);
}

/// Appends the eight little-endian bytes of `v`.
fn emit_u64(out: &mut Vec<u8>, v: u64)
    ensures
        final(out)@ == old(out)@ + spec_enc_u64(v),
{
    out.push(#[verifier::truncate] (v as u8));
    out.push(#[verifier::truncate] ((v >> 8) as u8));
    out.push(#[verifier::truncate] ((v >> 16) as u8));
    out.push(#[verifier::truncate] ((v >> 24) as u8));
    out.push(#[verifier::truncate] ((v >> 32) as u8));
    out.push(#[verifier::truncate] ((v >> 40) as u8));
    out.push(#[verifier::truncate] ((v >> 48) as u8));
    out.push(#[verifier::truncate] ((v >> 56) as u8));
    proof {
        assert(out@ =~= old(out)@ + spec_enc_u64(v));
    }
}

/// Reads the eight little-endian bytes at `i`, returning the integer and
/// the offset after it.
fn read_u64(b: &Vec<u8>, i: usize) -> (r: Option<(u64, usize)>)
    requires
        i <= b@.len(),
    ensures
        match r {
            Some((v, j)) => i <= j <= b@.len() && spec_dec_u64(b@.skip(i as int)) == Some(
                (v, b@.skip(j as int)),
            ),
            None => spec_dec_u64(b@.skip(i as int)) is None,
        },
{
    if b.len() - i < 8 {
        return None;
    }
    let v: u64 = (b[i] as u64) | ((b[i + 1] as u64) << 8) | ((b[i + 2] as u64) << 16) | ((b[i + 3]
        as u64) << 24) | ((b[i + 4] as u64) << 32) | ((b[i + 5] as u64) << 40) | ((b[i + 6]
        as u64) << 48) | ((b[i + 7] as u64) << 56);
    proof {
        let t = b@.skip(i as int);
        assert(t.len() >= 8);
        assert(t[0] == b@[i as int] && t[1] == b@[i as int + 1] && t[2] == b@[i as int + 2]
            && t[3] == b@[i as int + 3] && t[4] == b@[i as int + 4] && t[5] == b@[i as int + 5]
            && t[6] == b@[i as int + 6] && t[7] == b@[i as int + 7]);
        assert(t.skip(8) =~= b@.skip(i as int + 8));
    }
    Some((v, i + 8))
}

// ---------------------------------------------------------------------------
// Booleans, options, byte strings.
// ---------------------------------------------------------------------------

/// One tag byte for a boolean.
pub open spec fn spec_enc_bool(x: bool) -> Seq<u8> {
    seq![
        if x {
            1u8
        } else {
            0u8
        },
    ]
}

/// Reads a boolean tag byte; anything but 0 and 1 is malformed.
pub open spec fn spec_dec_bool(t: Seq<u8>) -> Option<(bool, Seq<u8>)> {
    if t.len() >= 1 {
        if t[0] == 1u8 {
            Some((true, t.skip(1)))
        } else if t[0] == 0u8 {
            Some((false, t.skip(1)))
        } else {
            None
        }
    } else {
        None
    }
}

proof fn lemma_dec_enc_bool(x: bool, rest: Seq<u8>)
    ensures
        spec_dec_bool(spec_enc_bool(x) + rest) == Some((x, rest)),
{
    assert((spec_enc_bool(x) + rest).skip(1) =~= rest);
}

/// An optional integer: a presence tag, then the integer where present.
#[verifier::opaque]
pub open spec fn spec_enc_opt_u64(o: Option<u64>) -> Seq<u8> {
    match o {
        None => seq![0u8],
        Some(v) => seq![1u8] + spec_enc_u64(v),
    }
}

#[verifier::opaque]
pub open spec fn spec_dec_opt_u64(t: Seq<u8>) -> Option<(Option<u64>, Seq<u8>)> {
    if t.len() >= 1 {
        if t[0] == 0u8 {
            Some((None, t.skip(1)))
        } else if t[0] == 1u8 {
            match spec_dec_u64(t.skip(1)) {
                Some((v, r)) => Some((Some(v), r)),
                None => None,
            }
        } else {
            None
        }
    } else {
        None
    }
}

proof fn lemma_dec_enc_opt_u64(o: Option<u64>, rest: Seq<u8>)
    ensures
        spec_dec_opt_u64(spec_enc_opt_u64(o) + rest) == Some((o, rest)),
{
    reveal(spec_enc_opt_u64);
    reveal(spec_dec_opt_u64);
    match o {
        None => {
            assert((spec_enc_opt_u64(o) + rest).skip(1) =~= rest);
        },
        Some(v) => {
            assert((spec_enc_opt_u64(o) + rest).skip(1) =~= spec_enc_u64(v) + rest);
            lemma_dec_enc_u64(v, rest);
        },
    }
}

/// A byte string: its length, then its bytes.
#[verifier::opaque]
pub open spec fn spec_enc_bytes(s: Seq<u8>) -> Seq<u8> {
    spec_enc_u64(s.len() as u64) + s
}

#[verifier::opaque]
pub open spec fn spec_dec_bytes(t: Seq<u8>) -> Option<(Seq<u8>, Seq<u8>)> {
    match spec_dec_u64(t) {
        Some((n, r)) => if n as int <= r.len() {
            Some((r.take(n as int), r.skip(n as int)))
        } else {
            None
        },
        None => None,
    }
}

proof fn lemma_dec_enc_bytes(s: Seq<u8>, rest: Seq<u8>)
    requires
        s.len() <= u64::MAX,
    ensures
        spec_dec_bytes(spec_enc_bytes(s) + rest) == Some((s, rest)),
{
    reveal(spec_enc_bytes);
    reveal(spec_dec_bytes);
    assert(spec_enc_bytes(s) + rest =~= spec_enc_u64(s.len() as u64) + (s + rest));
    lemma_dec_enc_u64(s.len() as u64, s + rest);
    assert((s + rest).take(s.len() as int) =~= s);
    assert((s + rest).skip(s.len() as int) =~= rest);
}

/// An optional byte string: a presence tag, then the string where present.
#[verifier::opaque]
pub open spec fn spec_enc_opt_bytes(o: Option<Seq<u8>>) -> Seq<u8> {
    match o {
        None => seq![0u8],
        Some(s) => seq![1u8] + spec_enc_bytes(s),
    }
}

#[verifier::opaque]
pub open spec fn spec_dec_opt_bytes(t: Seq<u8>) -> Option<(Option<Seq<u8>>, Seq<u8>)> {
    if t.len() >= 1 {
        if t[0] == 0u8 {
            Some((None, t.skip(1)))
        } else if t[0] == 1u8 {
            match spec_dec_bytes(t.skip(1)) {
                Some((s, r)) => Some((Some(s), r)),
                None => None,
            }
        } else {
            None
        }
    } else {
        None
    }
}

proof fn lemma_dec_enc_opt_bytes(o: Option<Seq<u8>>, rest: Seq<u8>)
    requires
        o matches Some(s) ==> s.len() <= u64::MAX,
    ensures
        spec_dec_opt_bytes(spec_enc_opt_bytes(o) + rest) == Some((o, rest)),
{
    reveal(spec_enc_opt_bytes);
    reveal(spec_dec_opt_bytes);
    match o {
        None => {
            assert((spec_enc_opt_bytes(o) + rest).skip(1) =~= rest);
        },
        Some(s) => {
            assert((spec_enc_opt_bytes(o) + rest).skip(1) =~= spec_enc_bytes(s) + rest);
            lemma_dec_enc_bytes(s, rest);
        },
    }
}

// ---------------------------------------------------------------------------
// Per-GPU stats and their list.
// ---------------------------------------------------------------------------

/// One GPU's stats: five integers and the percent-based flag.
#[verifier::opaque]
pub open spec fn spec_enc_gpu(g: GpuUsage) -> Seq<u8> {
    spec_enc_u64(g.slot) + (spec_enc_u64(g.gfx) + (spec_enc_u64(g.enc) + (spec_enc_u64(g.dec) + (
    spec_enc_u64(g.mem) + spec_enc_bool(g.percent_based)))))
}

#[verifier::opaque]
pub open spec fn spec_dec_gpu(t: Seq<u8>) -> Option<(GpuUsage, Seq<u8>)> {
    match spec_dec_u64(t) {
        Some((slot, r1)) => match spec_dec_u64(r1) {
            Some((gfx, r2)) => match spec_dec_u64(r2) {
                Some((enc_v, r3)) => match spec_dec_u64(r3) {
                    Some((dec_v, r4)) => match spec_dec_u64(r4) {
                        Some((mem, r5)) => match spec_dec_bool(r5) {
                            Some((pb, r6)) => Some(
                                (
                                    GpuUsage {
                                        slot,
                                        gfx,
                                        enc: enc_v,
                                        dec: dec_v,
                                        mem,
                                        percent_based: pb,
                                    },
                                    r6,
                                ),
                            ),
                            None => None,
                        },
                        None => None,
                    },
                    None => None,
                },
                None => None,
            },
            None => None,
        },
        None => None,
    }
}

#[verifier::rlimit(100)]
proof fn lemma_dec_enc_gpu(g: GpuUsage, rest: Seq<u8>)
    ensures
        spec_dec_gpu(spec_enc_gpu(g) + rest) == Some((g, rest)),
{
    reveal(spec_enc_gpu);
    reveal(spec_dec_gpu);
    let e6 = spec_enc_bool(g.percent_based);
    let t5 = spec_enc_u64(g.mem) + e6;
    let t4 = spec_enc_u64(g.dec) + t5;
    let t3 = spec_enc_u64(g.enc) + t4;
    let t2 = spec_enc_u64(g.gfx) + t3;
    assert(spec_enc_gpu(g) + rest =~= spec_enc_u64(g.slot) + (t2 + rest));
    lemma_dec_enc_u64(g.slot, t2 + rest);
    assert(t2 + rest =~= spec_enc_u64(g.gfx) + (t3 + rest));
    lemma_dec_enc_u64(g.gfx, t3 + rest);
    assert(t3 + rest =~= spec_enc_u64(g.enc) + (t4 + rest));
    lemma_dec_enc_u64(g.enc, t4 + rest);
    assert(t4 + rest =~= spec_enc_u64(g.dec) + (t5 + rest));
    lemma_dec_enc_u64(g.dec, t5 + rest);
    assert(t5 + rest =~= spec_enc_u64(g.mem) + (e6 + rest));
    lemma_dec_enc_u64(g.mem, e6 + rest);
    lemma_dec_enc_bool(g.percent_based, rest);
}

/// The GPU entries back to back, without their count.
pub open spec fn spec_enc_gpu_list(s: Seq<GpuUsage>) -> Seq<u8>
    decreases s.len(),
{
    if s.len() == 0 {
        Seq::empty()
    } else {
        spec_enc_gpu(s[0]) + spec_enc_gpu_list(s.drop_first())
    }
}

/// Reads exactly `n` GPU entries off the front of `t`.
pub open spec fn spec_dec_gpu_list(t: Seq<u8>, n: nat) -> Option<(Seq<GpuUsage>, Seq<u8>)>
    decreases n,
{
    if n == 0 {
        Some((Seq::empty(), t))
    } else {
        match spec_dec_gpu(t) {
            Some((g, r)) => match spec_dec_gpu_list(r, (n - 1) as nat) {
                Some((s, r2)) => Some((seq![g] + s, r2)),
                None => None,
            },
            None => None,
        }
    }
}

#[verifier::rlimit(100)]
proof fn lemma_dec_enc_gpu_list(s: Seq<GpuUsage>, rest: Seq<u8>)
    ensures
        spec_dec_gpu_list(spec_enc_gpu_list(s) + rest, s.len()) == Some((s, rest)),
    decreases s.len(),
{
    if s.len() == 0 {
        assert(spec_enc_gpu_list(s) + rest =~= rest);
        assert(Seq::<GpuUsage>::empty() =~= s);
    } else {
        assert(spec_enc_gpu_list(s) + rest =~= spec_enc_gpu(s[0]) + (spec_enc_gpu_list(
            s.drop_first(),
        ) + rest));
        lemma_dec_enc_gpu(s[0], spec_enc_gpu_list(s.drop_first()) + rest);
        lemma_dec_enc_gpu_list(s.drop_first(), rest);
        assert(seq![s[0]] + s.drop_first() =~= s);
    }
}

/// The whole per-GPU mapping: the entry count, then the entries.
pub open spec fn spec_enc_gpus(s: Seq<GpuUsage>) -> Seq<u8> {
    spec_enc_u64(s.len() as u64) + spec_enc_gpu_list(s)
}

pub open spec fn spec_dec_gpus(t: Seq<u8>) -> Option<(Seq<GpuUsage>, Seq<u8>)> {
    match spec_dec_u64(t) {
        Some((n, r)) => spec_dec_gpu_list(r, n as nat),
        None => None,
    }
}

proof fn lemma_dec_enc_gpus(s: Seq<GpuUsage>, rest: Seq<u8>)
    requires
        s.len() <= u64::MAX,
    ensures
        spec_dec_gpus(spec_enc_gpus(s) + rest) == Some((s, rest)),
{
    assert(spec_enc_gpus(s) + rest =~= spec_enc_u64(s.len() as u64) + (spec_enc_gpu_list(s)
        + rest));
    lemma_dec_enc_u64(s.len() as u64, spec_enc_gpu_list(s) + rest);
    lemma_dec_enc_gpu_list(s, rest);
}

// ---------------------------------------------------------------------------
// One sample, and the whole snapshot.
// ---------------------------------------------------------------------------

/// Whether a sample fits the format's length fields. Every sample held in
/// vectors does; the bound matters only for the mathematical statement.
pub open spec fn encodable_sample(d: ProcessDataView) -> bool {
    &&& d.commandline.len() <= u64::MAX
    &&& (d.app_id matches Some(s) ==> s.len() <= u64::MAX)
    &&& d.gpu_usage_stats.len() <= u64::MAX
}

/// Whether a snapshot fits the format's length fields.
pub open spec fn encodable(s: Seq<ProcessDataView>) -> bool {
    &&& s.len() <= u64::MAX
    &&& forall|i: int| 0 <= i < s.len() ==> encodable_sample(#[trigger] s[i])
}

/// The fixed-width front of one sample: the three identifiers and the
/// five plain counters.
pub ghost struct SampleHead {
    pub pid: u32,
    pub parent_pid: u32,
    pub uid: u32,
    pub user_cpu_time: u64,
    pub system_cpu_time: u64,
    pub memory_usage: u64,
    pub starttime: u64,
    pub timestamp: u64,
}

pub open spec fn head_of(d: ProcessDataView) -> SampleHead {
    SampleHead {
        pid: d.pid,
        parent_pid: d.parent_pid,
        uid: d.uid,
        user_cpu_time: d.user_cpu_time,
        system_cpu_time: d.system_cpu_time,
        memory_usage: d.memory_usage,
        starttime: d.starttime,
        timestamp: d.timestamp,
    }
}

pub open spec fn spec_enc_head(h: SampleHead) -> Seq<u8> {
    spec_enc_u64(h.pid as u64) + (spec_enc_u64(h.parent_pid as u64) + (spec_enc_u64(h.uid as u64)
        + (spec_enc_u64(h.user_cpu_time) + (spec_enc_u64(h.system_cpu_time) + (spec_enc_u64(
        h.memory_usage,
    ) + (spec_enc_u64(h.starttime) + spec_enc_u64(h.timestamp)))))))
}

pub open spec fn spec_dec_head(t: Seq<u8>) -> Option<(SampleHead, Seq<u8>)> {
    match spec_dec_u64(t) {
        Some((pid, r1)) => if pid > u32::MAX as u64 {
            None
        } else {
            match spec_dec_u64(r1) {
                Some((parent_pid, r2)) => if parent_pid > u32::MAX as u64 {
                    None
                } else {
                    match spec_dec_u64(r2) {
                        Some((uid, r3)) => if uid > u32::MAX as u64 {
                            None
                        } else {
                            match spec_dec_u64(r3) {
                                Some((user_cpu_time, r4)) => match spec_dec_u64(r4) {
                                    Some((system_cpu_time, r5)) => match spec_dec_u64(r5) {
                                        Some((memory_usage, r6)) => match spec_dec_u64(r6) {
                                            Some((starttime, r7)) => match spec_dec_u64(r7) {
                                                Some((timestamp, r8)) => Some(
                                                    (
                                                        SampleHead {
                                                            pid: pid as u32,
                                                            parent_pid: parent_pid as u32,
                                                            uid: uid as u32,
                                                            user_cpu_time,
                                                            system_cpu_time,
                                                            memory_usage,
                                                            starttime,
                                                            timestamp,
                                                        },
                                                        r8,
                                                    ),
                                                ),
                                                None => None,
                                            },
                                            None => None,
                                        },
                                        None => None,
                                    },
                                    None => None,
                                },
                                None => None,
                            }
                        },
                        None => None,
                    }
                },
                None => None,
            }
        },
        None => None,
    }
}

#[verifier::rlimit(100)]
proof fn lemma_dec_enc_head(h: SampleHead, rest: Seq<u8>)
    ensures
        spec_dec_head(spec_enc_head(h) + rest) == Some((h, rest)),
{
    let e8 = spec_enc_u64(h.timestamp);
    let t7 = spec_enc_u64(h.starttime) + e8;
    let t6 = spec_enc_u64(h.memory_usage) + t7;
    let t5 = spec_enc_u64(h.system_cpu_time) + t6;
    let t4 = spec_enc_u64(h.user_cpu_time) + t5;
    let t3 = spec_enc_u64(h.uid as u64) + t4;
    let t2 = spec_enc_u64(h.parent_pid as u64) + t3;
    assert(spec_enc_head(h) + rest =~= spec_enc_u64(h.pid as u64) + (t2 + rest));
    lemma_dec_enc_u64(h.pid as u64, t2 + rest);
    assert(t2 + rest =~= spec_enc_u64(h.parent_pid as u64) + (t3 + rest));
    lemma_dec_enc_u64(h.parent_pid as u64, t3 + rest);
    assert(t3 + rest =~= spec_enc_u64(h.uid as u64) + (t4 + rest));
    lemma_dec_enc_u64(h.uid as u64, t4 + rest);
    assert(t4 + rest =~= spec_enc_u64(h.user_cpu_time) + (t5 + rest));
    lemma_dec_enc_u64(h.user_cpu_time, t5 + rest);
    assert(t5 + rest =~= spec_enc_u64(h.system_cpu_time) + (t6 + rest));
    lemma_dec_enc_u64(h.system_cpu_time, t6 + rest);
    assert(t6 + rest =~= spec_enc_u64(h.memory_usage) + (t7 + rest));
    lemma_dec_enc_u64(h.memory_usage, t7 + rest);
    assert(t7 + rest =~= spec_enc_u64(h.starttime) + (e8 + rest));
    lemma_dec_enc_u64(h.starttime, e8 + rest);
    lemma_dec_enc_u64(h.timestamp, rest);
}

/// The variable-width back of one sample: the optional I/O counters, the
/// command line, the application identity and the per-GPU stats.
pub open spec fn spec_enc_tail(d: ProcessDataView) -> Seq<u8> {
    spec_enc_opt_u64(d.read_bytes) + (spec_enc_opt_u64(d.write_bytes) + (spec_enc_bytes(
        d.commandline,
    ) + (spec_enc_opt_bytes(d.app_id) + spec_enc_gpus(d.gpu_usage_stats))))
}

pub open spec fn spec_dec_tail(t: Seq<u8>) -> Option<
    ((Option<u64>, Option<u64>, Seq<u8>, Option<Seq<u8>>, Seq<GpuUsage>), Seq<u8>),
> {
    match spec_dec_opt_u64(t) {
        Some((read_bytes, r1)) => match spec_dec_opt_u64(r1) {
            Some((write_bytes, r2)) => match spec_dec_bytes(r2) {
                Some((commandline, r3)) => match spec_dec_opt_bytes(r3) {
                    Some((app_id, r4)) => match spec_dec_gpus(r4) {
                        Some((gpus, r5)) => Some(
                            ((read_bytes, write_bytes, commandline, app_id, gpus), r5),
                        ),
                        None => None,
                    },
                    None => None,
                },
                None => None,
            },
            None => None,
        },
        None => None,
    }
}

#[verifier::rlimit(100)]
proof fn lemma_dec_enc_tail(d: ProcessDataView, rest: Seq<u8>)
    requires
        encodable_sample(d),
    ensures
        spec_dec_tail(spec_enc_tail(d) + rest) == Some(
            ((d.read_bytes, d.write_bytes, d.commandline, d.app_id, d.gpu_usage_stats), rest),
        ),
{
    let e5 = spec_enc_gpus(d.gpu_usage_stats);
    let t4 = spec_enc_opt_bytes(d.app_id) + e5;
    let t3 = spec_enc_bytes(d.commandline) + t4;
    let t2 = spec_enc_opt_u64(d.write_bytes) + t3;
    assert(spec_enc_tail(d) + rest =~= spec_enc_opt_u64(d.read_bytes) + (t2 + rest));
    lemma_dec_enc_opt_u64(d.read_bytes, t2 + rest);
    assert(t2 + rest =~= spec_enc_opt_u64(d.write_bytes) + (t3 + rest));
    lemma_dec_enc_opt_u64(d.write_bytes, t3 + rest);
    assert(t3 + rest =~= spec_enc_bytes(d.commandline) + (t4 + rest));
    lemma_dec_enc_bytes(d.commandline, t4 + rest);
    assert(t4 + rest =~= spec_enc_opt_bytes(d.app_id) + (e5 + rest));
    lemma_dec_enc_opt_bytes(d.app_id, e5 + rest);
    lemma_dec_enc_gpus(d.gpu_usage_stats, rest);
}

/// One sample: the fixed-width head, then the variable-width tail.
#[verifier::opaque]
pub open spec fn spec_enc_sample(d: ProcessDataView) -> Seq<u8> {
    spec_enc_head(head_of(d)) + spec_enc_tail(d)
}

#[verifier::opaque]
pub open spec fn spec_dec_sample(t: Seq<u8>) -> Option<(ProcessDataView, Seq<u8>)> {
    match spec_dec_head(t) {
        Some((h, r)) => match spec_dec_tail(r) {
            Some(((read_bytes, write_bytes, commandline, app_id, gpus), r2)) => Some(
                (
                    ProcessDataView {
                        pid: h.pid,
                        parent_pid: h.parent_pid,
                        uid: h.uid,
                        commandline,
                        user_cpu_time: h.user_cpu_time,
                        system_cpu_time: h.system_cpu_time,
                        read_bytes,
                        write_bytes,
                        memory_usage: h.memory_usage,
                        starttime: h.starttime,
                        timestamp: h.timestamp,
                        app_id,
                        gpu_usage_stats: gpus,
                    },
                    r2,
                ),
            ),
            None => None,
        },
        None => None,
    }
}

#[verifier::rlimit(100)]
proof fn lemma_dec_enc_sample(d: ProcessDataView, rest: Seq<u8>)
    requires
        encodable_sample(d),
    ensures
        spec_dec_sample(spec_enc_sample(d) + rest) == Some((d, rest)),
{
    reveal(spec_enc_sample);
    reveal(spec_dec_sample);
    assert(spec_enc_sample(d) + rest =~= spec_enc_head(head_of(d)) + (spec_enc_tail(d) + rest));
    lemma_dec_enc_head(head_of(d), spec_enc_tail(d) + rest);
    lemma_dec_enc_tail(d, rest);
}

/// The samples back to back, without their count.
pub open spec fn spec_enc_sample_list(s: Seq<ProcessDataView>) -> Seq<u8>
    decreases s.len(),
{
    if s.len() == 0 {
        Seq::empty()
    } else {
        spec_enc_sample(s[0]) + spec_enc_sample_list(s.drop_first())
    }
}

/// Reads exactly `n` samples off the front of `t`.
pub open spec fn spec_dec_sample_list(t: Seq<u8>, n: nat) -> Option<
    (Seq<ProcessDataView>, Seq<u8>),
>
    decreases n,
{
    if n == 0 {
        Some((Seq::empty(), t))
    } else {
        match spec_dec_sample(t) {
            Some((d, r)) => match spec_dec_sample_list(r, (n - 1) as nat) {
                Some((s, r2)) => Some((seq![d] + s, r2)),
                None => None,
            },
            None => None,
        }
    }
}

#[verifier::rlimit(100)]
proof fn lemma_dec_enc_sample_list(s: Seq<ProcessDataView>, rest: Seq<u8>)
    requires
        forall|i: int| 0 <= i < s.len() ==> encodable_sample(#[trigger] s[i]),
    ensures
        spec_dec_sample_list(spec_enc_sample_list(s) + rest, s.len()) == Some((s, rest)),
    decreases s.len(),
{
    if s.len() == 0 {
        assert(spec_enc_sample_list(s) + rest =~= rest);
        assert(Seq::<ProcessDataView>::empty() =~= s);
    } else {
        assert(spec_enc_sample_list(s) + rest =~= spec_enc_sample(s[0]) + (spec_enc_sample_list(
            s.drop_first(),
        ) + rest));
        lemma_dec_enc_sample(s[0], spec_enc_sample_list(s.drop_first()) + rest);
        assert(forall|i: int|
            0 <= i < s.drop_first().len() ==> encodable_sample(#[trigger] s.drop_first()[i]));
        lemma_dec_enc_sample_list(s.drop_first(), rest);
        assert(seq![s[0]] + s.drop_first() =~= s);
    }
}

/// A whole snapshot payload: the sample count, then the samples.
pub open spec fn spec_encode_snapshot(s: Seq<ProcessDataView>) -> Seq<u8> {
    spec_enc_u64(s.len() as u64) + spec_enc_sample_list(s)
}

/// What a payload decodes to: the samples, provided nothing is malformed
/// and nothing trails the last one.
pub open spec fn spec_decode_snapshot(b: Seq<u8>) -> Option<Seq<ProcessDataView>> {
    match spec_dec_u64(b) {
        Some((n, r)) => match spec_dec_sample_list(r, n as nat) {
            Some((s, r2)) => if r2.len() == 0 {
                Some(s)
            } else {
                None
            },
            None => None,
        },
        None => None,
    }
}

/// Round trip: encoding a snapshot and decoding the payload yields the
/// same snapshot, sample for sample and field for field.
#[verifier::rlimit(100)]
pub proof fn lemma_snapshot_round_trip(s: Seq<ProcessDataView>)
    requires
        encodable(s),
    ensures
        spec_decode_snapshot(spec_encode_snapshot(s)) == Some(s),
{
    assert(spec_encode_snapshot(s) =~= spec_enc_u64(s.len() as u64) + (spec_enc_sample_list(s)
        + Seq::<u8>::empty()));
    lemma_dec_enc_u64(s.len() as u64, spec_enc_sample_list(s) + Seq::<u8>::empty());
    lemma_dec_enc_sample_list(s, Seq::<u8>::empty());
}

// ---------------------------------------------------------------------------
// The executable encoder.
// ---------------------------------------------------------------------------

proof fn lemma_enc_gpu_list_push(s: Seq<GpuUsage>, g: GpuUsage)
    ensures
        spec_enc_gpu_list(s.push(g)) == spec_enc_gpu_list(s) + spec_enc_gpu(g),
    decreases s.len(),
{
    if s.len() == 0 {
        assert(s.push(g).drop_first() =~= Seq::<GpuUsage>::empty());
        assert(s.push(g)[0] == g);
        assert(spec_enc_gpu_list(s) == Seq::<u8>::empty());
        assert(spec_enc_gpu_list(s.push(g).drop_first()) == Seq::<u8>::empty());
        assert(spec_enc_gpu_list(s.push(g)) == spec_enc_gpu(g) + Seq::<u8>::empty());
        assert(spec_enc_gpu(g) + Seq::<u8>::empty() =~= Seq::<u8>::empty() + spec_enc_gpu(g));
    } else {
        assert(s.push(g).drop_first() =~= s.drop_first().push(g));
        lemma_enc_gpu_list_push(s.drop_first(), g);
        assert(spec_enc_gpu(s[0]) + (spec_enc_gpu_list(s.drop_first()) + spec_enc_gpu(g))
            =~= (spec_enc_gpu(s[0]) + spec_enc_gpu_list(s.drop_first())) + spec_enc_gpu(g));
    }
}

proof fn lemma_enc_sample_list_push(s: Seq<ProcessDataView>, d: ProcessDataView)
    ensures
        spec_enc_sample_list(s.push(d)) == spec_enc_sample_list(s) + spec_enc_sample(d),
    decreases s.len(),
{
    if s.len() == 0 {
        assert(s.push(d).drop_first() =~= Seq::<ProcessDataView>::empty());
        assert(s.push(d)[0] == d);
        assert(spec_enc_sample_list(s) == Seq::<u8>::empty());
        assert(spec_enc_sample_list(s.push(d).drop_first()) == Seq::<u8>::empty());
        assert(spec_enc_sample_list(s.push(d)) == spec_enc_sample(d) + Seq::<u8>::empty());
        assert(spec_enc_sample(d) + Seq::<u8>::empty() =~= Seq::<u8>::empty() + spec_enc_sample(d));
    } else {
        assert(s.push(d).drop_first() =~= s.drop_first().push(d));
        lemma_enc_sample_list_push(s.drop_first(), d);
        assert(spec_enc_sample(s[0]) + (spec_enc_sample_list(s.drop_first()) + spec_enc_sample(d))
            =~= (spec_enc_sample(s[0]) + spec_enc_sample_list(s.drop_first())) + spec_enc_sample(
            d,
        ));
    }
}

/// Appends the tag byte of a boolean.
fn emit_bool(out: &mut Vec<u8>, x: bool)
    ensures
        final(out)@ == old(out)@ + spec_enc_bool(x),
{
    if x {
        out.push(1);
    } else {
        out.push(0);
    }
    proof {
        assert(out@ =~= old(out)@ + spec_enc_bool(x));
    }
}

/// Appends an optional integer.
fn emit_opt_u64(out: &mut Vec<u8>, o: Option<u64>)
    ensures
        final(out)@ == old(out)@ + spec_enc_opt_u64(o),
{
    proof {
        reveal(spec_enc_opt_u64);
    }
    match o {
        None => {
            out.push(0);
            proof {
                assert(out@ =~= old(out)@ + spec_enc_opt_u64(o));
            }
        },
        Some(v) => {
            out.push(1);
            emit_u64(out, v);
            proof {
                assert(out@ =~= old(out)@ + spec_enc_opt_u64(o));
            }
        },
    }
}

/// Appends a byte string behind its length.
fn emit_bytes(out: &mut Vec<u8>, v: &Vec<u8>)
    ensures
        final(out)@ == old(out)@ + spec_enc_bytes(v@),
{
    emit_u64(out, v.len() as u64);
    let mut i: usize = 0;
    while i < v.len()
        invariant
            i <= v@.len(),
            out@ == old(out)@ + spec_enc_u64(v@.len() as u64) + v@.take(i as int),
        decreases v.len() - i,
    {
        out.push(v[i]);
        proof {
            assert(v@.take(i as int + 1) =~= v@.take(i as int).push(v@[i as int]));
        }
        i = i + 1;
    }
    proof {
        reveal(spec_enc_bytes);
        assert(v@.take(v@.len() as int) =~= v@);
        assert(out@ =~= old(out)@ + spec_enc_bytes(v@));
    }
}

/// Appends an optional byte string.
fn emit_opt_bytes(out: &mut Vec<u8>, o: &Option<Vec<u8>>)
    ensures
        final(out)@ == old(out)@ + spec_enc_opt_bytes(crate::util::opt_bytes_view(*o)),
{
    proof {
        reveal(spec_enc_opt_bytes);
    }
    match o {
        None => {
            out.push(0);
            proof {
                assert(out@ =~= old(out)@ + spec_enc_opt_bytes(crate::util::opt_bytes_view(*o)));
            }
        },
        Some(v) => {
            out.push(1);
            emit_bytes(out, v);
            proof {
                assert(out@ =~= old(out)@ + spec_enc_opt_bytes(crate::util::opt_bytes_view(*o)));
            }
        },
    }
}

/// Appends one GPU's stats.
fn emit_gpu(out: &mut Vec<u8>, g: GpuUsage)
    ensures
        final(out)@ == old(out)@ + spec_enc_gpu(g),
{
    emit_u64(out, g.slot);
    emit_u64(out, g.gfx);
    emit_u64(out, g.enc);
    emit_u64(out, g.dec);
    emit_u64(out, g.mem);
    emit_bool(out, g.percent_based);
    proof {
        reveal(spec_enc_gpu);
        assert(out@ =~= old(out)@ + spec_enc_gpu(g));
    }
}

/// Appends the per-GPU mapping behind its entry count.
fn emit_gpus(out: &mut Vec<u8>, s: &Vec<GpuUsage>)
    ensures
        final(out)@ == old(out)@ + spec_enc_gpus(s@),
{
    emit_u64(out, s.len() as u64);
    let mut i: usize = 0;
    while i < s.len()
        invariant
            i <= s@.len(),
            out@ == old(out)@ + spec_enc_u64(s@.len() as u64) + spec_enc_gpu_list(
                s@.take(i as int),
            ),
        decreases s.len() - i,
    {
        let ghost prefix = s@.take(i as int);
        emit_gpu(out, s[i]);
        proof {
            assert(s@.take(i as int + 1) =~= prefix.push(s@[i as int]));
            lemma_enc_gpu_list_push(prefix, s@[i as int]);
            assert(out@ =~= old(out)@ + spec_enc_u64(s@.len() as u64) + spec_enc_gpu_list(
                s@.take(i as int + 1),
            ));
        }
        i = i + 1;
    }
    proof {
        assert(s@.take(s@.len() as int) =~= s@);
        assert(out@ =~= old(out)@ + spec_enc_gpus(s@));
    }
}

/// Appends one whole sample.
fn emit_sample(out: &mut Vec<u8>, d: &ProcessData)
    ensures
        final(out)@ == old(out)@ + spec_enc_sample(d@),
{
    emit_u64(out, d.pid as u64);
    emit_u64(out, d.parent_pid as u64);
    emit_u64(out, d.uid as u64);
    emit_u64(out, d.user_cpu_time);
    emit_u64(out, d.system_cpu_time);
    emit_u64(out, d.memory_usage);
    emit_u64(out, d.starttime);
    emit_u64(out, d.timestamp);
    proof {
        assert(out@ =~= old(out)@ + spec_enc_head(head_of(d@)));
    }
    let ghost mid = out@;
    emit_opt_u64(out, d.read_bytes);
    emit_opt_u64(out, d.write_bytes);
    emit_bytes(out, &d.commandline);
    emit_opt_bytes(out, &d.app_id);
    emit_gpus(out, &d.gpu_usage_stats);
    proof {
        assert(out@ =~= mid + spec_enc_tail(d@));
        reveal(spec_enc_sample);
        assert(out@ =~= old(out)@ + spec_enc_sample(d@));
    }
}

/// Encodes a whole snapshot into one payload.
pub fn encode_snapshot(samples: &Vec<ProcessData>) -> (r: Vec<u8>)
    ensures
        r@ == spec_encode_snapshot(sample_views(samples@)),
{
    let mut out: Vec<u8> = Vec::new();
    emit_u64(&mut out, samples.len() as u64);
    let mut i: usize = 0;
    while i < samples.len()
        invariant
            i <= samples@.len(),
            out@ == spec_enc_u64(samples@.len() as u64) + spec_enc_sample_list(
                sample_views(samples@.take(i as int)),
            ),
        decreases samples.len() - i,
    {
        let ghost prefix = sample_views(samples@.take(i as int));
        emit_sample(&mut out, &samples[i]);
        proof {
            assert(sample_views(samples@.take(i as int + 1)) =~= prefix.push(
                samples@[i as int]@,
            ));
            lemma_enc_sample_list_push(prefix, samples@[i as int]@);
            assert(out@ =~= spec_enc_u64(samples@.len() as u64) + spec_enc_sample_list(
                sample_views(samples@.take(i as int + 1)),
            ));
        }
        i = i + 1;
    }
    proof {
        assert(samples@.take(samples@.len() as int) =~= samples@);
        assert(sample_views(samples@).len() == samples@.len());
        assert(out@ =~= spec_encode_snapshot(sample_views(samples@)));
    }
    out
}

/// The machine-word little-endian length prefix written before a payload.
pub fn encode_frame_prefix(payload_len: u64) -> (r: Vec<u8>)
    ensures
        r@ == spec_enc_u64(payload_len),
{
    let mut out: Vec<u8> = Vec::new();
    emit_u64(&mut out, payload_len);
    proof {
        assert(Seq::<u8>::empty() + spec_enc_u64(payload_len) =~= spec_enc_u64(payload_len));
    }
    out
}

/// Reads the payload length out of the eight prefix bytes of a frame.
pub fn decode_frame_prefix(prefix: &Vec<u8>) -> (r: Option<u64>)
    ensures
        r is Some <==> prefix@.len() >= 8,
        r matches Some(v) ==> spec_dec_u64(prefix@) matches Some(p) && p.0 == v,
{
    proof {
        assert(prefix@.skip(0) =~= prefix@);
    }
    match read_u64(prefix, 0) {
        Some((v, _)) => Some(v),
        None => None,
    }
}


// ---------------------------------------------------------------------------
// The executable decoder.
// ---------------------------------------------------------------------------

/// Reads a boolean tag byte at `i`.
fn read_bool(b: &Vec<u8>, i: usize) -> (r: Option<(bool, usize)>)
    requires
        i <= b@.len(),
    ensures
        match r {
            Some((x, j)) => i <= j <= b@.len() && spec_dec_bool(b@.skip(i as int)) == Some(
                (x, b@.skip(j as int)),
            ),
            None => spec_dec_bool(b@.skip(i as int)) is None,
        },
{
    if b.len() - i < 1 {
        return None;
    }
    proof {
        assert(b@.skip(i as int)[0] == b@[i as int]);
        assert(b@.skip(i as int).skip(1) =~= b@.skip(i as int + 1));
    }
    if b[i] == 1 {
        Some((true, i + 1))
    } else if b[i] == 0 {
        Some((false, i + 1))
    } else {
        None
    }
}

/// Reads an optional integer at `i`.
fn read_opt_u64(b: &Vec<u8>, i: usize) -> (r: Option<(Option<u64>, usize)>)
    requires
        i <= b@.len(),
    ensures
        match r {
            Some((o, j)) => i <= j <= b@.len() && spec_dec_opt_u64(b@.skip(i as int)) == Some(
                (o, b@.skip(j as int)),
            ),
            None => spec_dec_opt_u64(b@.skip(i as int)) is None,
        },
{
    proof {
        reveal(spec_dec_opt_u64);
    }
    if b.len() - i < 1 {
        return None;
    }
    proof {
        assert(b@.skip(i as int)[0] == b@[i as int]);
        assert(b@.skip(i as int).skip(1) =~= b@.skip(i as int + 1));
    }
    if b[i] == 0 {
        Some((None, i + 1))
    } else if b[i] == 1 {
        match read_u64(b, i + 1) {
            Some((v, j)) => Some((Some(v), j)),
            None => None,
        }
    } else {
        None
    }
}

/// Reads a length-prefixed byte string at `i`.
fn read_bytes(b: &Vec<u8>, i: usize) -> (r: Option<(Vec<u8>, usize)>)
    requires
        i <= b@.len(),
    ensures
        match r {
            Some((v, j)) => i <= j <= b@.len() && spec_dec_bytes(b@.skip(i as int)) == Some(
                (v@, b@.skip(j as int)),
            ),
            None => spec_dec_bytes(b@.skip(i as int)) is None,
        },
{
    proof {
        reveal(spec_dec_bytes);
    }
    match read_u64(b, i) {
        Some((n, j)) => {
            if n > (b.len() - j) as u64 {
                return None;
            }
            let len: usize = n as usize;
            let end: usize = j + len;
            let mut out: Vec<u8> = Vec::new();
            let mut m: usize = j;
            while m < end
                invariant
                    j <= m <= end,
                    end <= b@.len(),
                    out@ == b@.subrange(j as int, m as int),
                decreases end - m,
            {
                out.push(b[m]);
                proof {
                    assert(b@.subrange(j as int, m as int + 1) =~= b@.subrange(
                        j as int,
                        m as int,
                    ).push(b@[m as int]));
                }
                m = m + 1;
            }
            proof {
                assert(b@.skip(j as int).take(n as int) =~= b@.subrange(
                    j as int,
                    j as int + len as int,
                ));
                assert(b@.skip(j as int).skip(n as int) =~= b@.skip(j as int + len as int));
            }
            Some((out, end))
        },
        None => None,
    }
}

/// Reads an optional length-prefixed byte string at `i`.
fn read_opt_bytes(b: &Vec<u8>, i: usize) -> (r: Option<(Option<Vec<u8>>, usize)>)
    requires
        i <= b@.len(),
    ensures
        match r {
            Some((o, j)) => i <= j <= b@.len() && spec_dec_opt_bytes(b@.skip(i as int)) == Some(
                (crate::util::opt_bytes_view(o), b@.skip(j as int)),
            ),
            None => spec_dec_opt_bytes(b@.skip(i as int)) is None,
        },
{
    proof {
        reveal(spec_dec_opt_bytes);
    }
    if b.len() - i < 1 {
        return None;
    }
    proof {
        assert(b@.skip(i as int)[0] == b@[i as int]);
        assert(b@.skip(i as int).skip(1) =~= b@.skip(i as int + 1));
    }
    if b[i] == 0 {
        Some((None, i + 1))
    } else if b[i] == 1 {
        match read_bytes(b, i + 1) {
            Some((v, j)) => Some((Some(v), j)),
            None => None,
        }
    } else {
        None
    }
}

/// Reads one GPU's stats at `i`.
fn read_gpu(b: &Vec<u8>, i: usize) -> (r: Option<(GpuUsage, usize)>)
    requires
        i <= b@.len(),
    ensures
        match r {
            Some((g, j)) => i <= j <= b@.len() && spec_dec_gpu(b@.skip(i as int)) == Some(
                (g, b@.skip(j as int)),
            ),
            None => spec_dec_gpu(b@.skip(i as int)) is None,
        },
{
    proof {
        reveal(spec_dec_gpu);
    }
    let (slot, j1) = match read_u64(b, i) {
        Some(p) => p,
        None => {
            return None;
        },
    };
    let (gfx, j2) = match read_u64(b, j1) {
        Some(p) => p,
        None => {
            return None;
        },
    };
    let (enc_v, j3) = match read_u64(b, j2) {
        Some(p) => p,
        None => {
            return None;
        },
    };
    let (dec_v, j4) = match read_u64(b, j3) {
        Some(p) => p,
        None => {
            return None;
        },
    };
    let (mem, j5) = match read_u64(b, j4) {
        Some(p) => p,
        None => {
            return None;
        },
    };
    let (pb, j6) = match read_bool(b, j5) {
        Some(p) => p,
        None => {
            return None;
        },
    };
    Some((GpuUsage { slot, gfx, enc: enc_v, dec: dec_v, mem, percent_based: pb }, j6))
}

/// Reads exactly `n` GPU entries at `i`.
fn read_gpu_list(b: &Vec<u8>, i: usize, n: u64) -> (r: Option<(Vec<GpuUsage>, usize)>)
    requires
        i <= b@.len(),
    ensures
        match r {
            Some((v, j)) => i <= j <= b@.len() && spec_dec_gpu_list(b@.skip(i as int), n as nat)
                == Some((v@, b@.skip(j as int))),
            None => spec_dec_gpu_list(b@.skip(i as int), n as nat) is None,
        },
{
    let mut acc: Vec<GpuUsage> = Vec::new();
    let mut j: usize = i;
    let mut k: u64 = 0;
    while k < n
        invariant
            i <= j <= b@.len(),
            k <= n,
            spec_dec_gpu_list(b@.skip(i as int), n as nat) == (match spec_dec_gpu_list(
                b@.skip(j as int),
                (n - k) as nat,
            ) {
                Some((s, r)) => Some((acc@ + s, r)),
                None => None::<(Seq<GpuUsage>, Seq<u8>)>,
            }),
        decreases n - k,
    {
        match read_gpu(b, j) {
            Some((g, j2)) => {
                proof {
                    let tail = spec_dec_gpu_list(b@.skip(j2 as int), (n - k - 1) as nat);
                    match tail {
                        Some((s2, r2)) => {
                            assert(acc@ + (seq![g] + s2) =~= acc@.push(g) + s2);
                        },
                        None => {},
                    }
                }
                acc.push(g);
                j = j2;
                k = k + 1;
            },
            None => {
                return None;
            },
        }
    }
    proof {
        assert(spec_dec_gpu_list(b@.skip(j as int), 0) == Some(
            (Seq::<GpuUsage>::empty(), b@.skip(j as int)),
        ));
        assert(acc@ + Seq::<GpuUsage>::empty() =~= acc@);
    }
    Some((acc, j))
}

/// Reads the fixed-width front of one sample at `i`.
#[verifier::rlimit(100)]
fn read_head(b: &Vec<u8>, i: usize) -> (r: Option<((u32, u32, u32, u64, u64, u64, u64, u64), usize)>)
    requires
        i <= b@.len(),
    ensures
        match r {
            Some(((pid, parent_pid, uid, user_cpu_time, system_cpu_time, memory_usage, starttime,
                timestamp), j)) => i <= j <= b@.len() && spec_dec_head(b@.skip(i as int)) == Some(
                (
                    SampleHead {
                        pid,
                        parent_pid,
                        uid,
                        user_cpu_time,
                        system_cpu_time,
                        memory_usage,
                        starttime,
                        timestamp,
                    },
                    b@.skip(j as int),
                ),
            ),
            None => spec_dec_head(b@.skip(i as int)) is None,
        },
{
    let (pid64, j1) = match read_u64(b, i) {
        Some(p) => p,
        None => {
            return None;
        },
    };
    if pid64 > u32::MAX as u64 {
        return None;
    }
    let (ppid64, j2) = match read_u64(b, j1) {
        Some(p) => p,
        None => {
            return None;
        },
    };
    if ppid64 > u32::MAX as u64 {
        return None;
    }
    let (uid64, j3) = match read_u64(b, j2) {
        Some(p) => p,
        None => {
            return None;
        },
    };
    if uid64 > u32::MAX as u64 {
        return None;
    }
    let (user_cpu_time, j4) = match read_u64(b, j3) {
        Some(p) => p,
        None => {
            return None;
        },
    };
    let (system_cpu_time, j5) = match read_u64(b, j4) {
        Some(p) => p,
        None => {
            return None;
        },
    };
    let (memory_usage, j6) = match read_u64(b, j5) {
        Some(p) => p,
        None => {
            return None;
        },
    };
    let (starttime, j7) = match read_u64(b, j6) {
        Some(p) => p,
        None => {
            return None;
        },
    };
    let (timestamp, j8) = match read_u64(b, j7) {
        Some(p) => p,
        None => {
            return None;
        },
    };
    Some(
        (
            (
                pid64 as u32,
                ppid64 as u32,
                uid64 as u32,
                user_cpu_time,
                system_cpu_time,
                memory_usage,
                starttime,
                timestamp,
            ),
            j8,
        ),
    )
}

/// Reads the variable-width back of one sample at `i`.
#[verifier::rlimit(100)]
fn read_tail(b: &Vec<u8>, i: usize) -> (r: Option<
    ((Option<u64>, Option<u64>, Vec<u8>, Option<Vec<u8>>, Vec<GpuUsage>), usize),
>)
    requires
        i <= b@.len(),
    ensures
        match r {
            Some(((read_bytes_v, write_bytes_v, commandline, app_id, gpus), j)) => i <= j
                <= b@.len() && spec_dec_tail(b@.skip(i as int)) == Some(
                (
                    (
                        read_bytes_v,
                        write_bytes_v,
                        commandline@,
                        crate::util::opt_bytes_view(app_id),
                        gpus@,
                    ),
                    b@.skip(j as int),
                ),
            ),
            None => spec_dec_tail(b@.skip(i as int)) is None,
        },
{
    let (read_bytes_v, j1) = match read_opt_u64(b, i) {
        Some(p) => p,
        None => {
            return None;
        },
    };
    let (write_bytes_v, j2) = match read_opt_u64(b, j1) {
        Some(p) => p,
        None => {
            return None;
        },
    };
    let (commandline, j3) = match read_bytes(b, j2) {
        Some(p) => p,
        None => {
            return None;
        },
    };
    let (app_id, j4) = match read_opt_bytes(b, j3) {
        Some(p) => p,
        None => {
            return None;
        },
    };
    let (gpu_count, j5) = match read_u64(b, j4) {
        Some(p) => p,
        None => {
            return None;
        },
    };
    let (gpus, j6) = match read_gpu_list(b, j5, gpu_count) {
        Some(p) => p,
        None => {
            return None;
        },
    };
    Some(((read_bytes_v, write_bytes_v, commandline, app_id, gpus), j6))
}

/// Reads one whole sample at `i`.
fn read_sample(b: &Vec<u8>, i: usize) -> (r: Option<(ProcessData, usize)>)
    requires
        i <= b@.len(),
    ensures
        match r {
            Some((d, j)) => i <= j <= b@.len() && spec_dec_sample(b@.skip(i as int)) == Some(
                (d@, b@.skip(j as int)),
            ),
            None => spec_dec_sample(b@.skip(i as int)) is None,
        },
{
    proof {
        reveal(spec_dec_sample);
    }
    let ((pid, parent_pid, uid, user_cpu_time, system_cpu_time, memory_usage, starttime,
        timestamp), j1) = match read_head(b, i) {
        Some(p) => p,
        None => {
            return None;
        },
    };
    let ((read_bytes_v, write_bytes_v, commandline, app_id, gpu_usage_stats), j2) = match
        read_tail(b, j1) {
        Some(p) => p,
        None => {
            return None;
        },
    };
    let d = ProcessData {
        pid,
        parent_pid,
        uid,
        commandline,
        user_cpu_time,
        system_cpu_time,
        read_bytes: read_bytes_v,
        write_bytes: write_bytes_v,
        memory_usage,
        starttime,
        timestamp,
        app_id,
        gpu_usage_stats,
    };
    Some((d, j2))
}

/// Decodes a whole payload back into its snapshot: every sample, in order,
/// with nothing trailing; anything else is a decode failure.
pub fn decode_snapshot(b: &Vec<u8>) -> (r: Result<Vec<ProcessData>, CollectorError>)
    ensures
        match spec_decode_snapshot(b@) {
            Some(s) => r matches Ok(v) && sample_views(v@) == s,
            None => r == Err::<Vec<ProcessData>, CollectorError>(CollectorError::DecodeFailure),
        },
{
    proof {
        assert(b@.skip(0) =~= b@);
    }
    let (n, start) = match read_u64(b, 0) {
        Some(p) => p,
        None => {
            return Err(CollectorError::DecodeFailure);
        },
    };
    let mut acc: Vec<ProcessData> = Vec::new();
    let mut j: usize = start;
    let mut k: u64 = 0;
    while k < n
        invariant
            j <= b@.len(),
            k <= n,
            spec_dec_u64(b@) == Some((n, b@.skip(start as int))),
            spec_dec_sample_list(b@.skip(start as int), n as nat) == (match spec_dec_sample_list(
                b@.skip(j as int),
                (n - k) as nat,
            ) {
                Some((s, r)) => Some((sample_views(acc@) + s, r)),
                None => None::<(Seq<ProcessDataView>, Seq<u8>)>,
            }),
        decreases n - k,
    {
        match read_sample(b, j) {
            Some((d, j2)) => {
                proof {
                    let tail = spec_dec_sample_list(b@.skip(j2 as int), (n - k - 1) as nat);
                    match tail {
                        Some((s2, r2)) => {
                            assert(sample_views(acc@.push(d)) =~= sample_views(acc@).push(d@));
                            assert(sample_views(acc@) + (seq![d@] + s2) =~= sample_views(
                                acc@,
                            ).push(d@) + s2);
                        },
                        None => {
                            assert(sample_views(acc@.push(d)) =~= sample_views(acc@).push(d@));
                        },
                    }
                }
                acc.push(d);
                j = j2;
                k = k + 1;
            },
            None => {
                return Err(CollectorError::DecodeFailure);
            },
        }
    }
    proof {
        assert(spec_dec_sample_list(b@.skip(j as int), 0) == Some(
            (Seq::<ProcessDataView>::empty(), b@.skip(j as int)),
        ));
        assert(sample_views(acc@) + Seq::<ProcessDataView>::empty() =~= sample_views(acc@));
    }
    if j == b.len() {
        proof {
            assert(b@.skip(j as int).len() == 0);
        }
        Ok(acc)
    } else {
        proof {
            assert(b@.skip(j as int).len() > 0);
        }
        Err(CollectorError::DecodeFailure)
    }
}

} // verus!
