//! The persistence codec: the timer snapshot as a structured text file.
//!
//! The file is a sequence of newline-terminated tokens. A number token is
//! the decimal digits of a `u64` (no leading zeros) and a newline; a string
//! token is a number token carrying the byte length, the raw UTF-8 bytes,
//! and a newline. The snapshot is a count followed by that many timer
//! records; a record lists id, action, target, creation time, then message,
//! warning list and recurrence, each optional field behind a 0/1 flag.
//!
//! `spec_encode` and the parser `spec_decode` define the format; encoding
//! a snapshot and decoding the bytes gives the snapshot back (`lemma_round_trip`).

use vstd::prelude::*;

use vstd::slice::{slice_subrange, slice_to_vec};
use vstd::string::StringSliceAdditionalSpecFns;
use vstd::utf8::{decode_utf8, encode_utf8, encode_utf8_decode_utf8, encode_utf8_valid_utf8,
    valid_utf8};

use crate::store::timers_view;
use crate::types::{strings_view, RecurrenceConfig, RecurrenceConfigView, RecurrencePreset,
    TimerAction, TimerInfo, TimerView};

verus! {

/// The token terminator.
pub const NL_BYTE: u8 = 10;

pub open spec fn is_digit_byte(b: u8) -> bool {
    48 <= b <= 57
}

/// Decimal digits of `n`, most significant first.
pub open spec fn dec_digits(n: nat) -> Seq<u8>
    decreases n,
{
    if n < 10 {
        seq![(48 + n) as u8]
    } else {
        dec_digits(n / 10) + seq![(48 + (n % 10)) as u8]
    }
}

/// One number token.
pub open spec fn enc_u64(n: u64) -> Seq<u8> {
    dec_digits(n as nat) + seq![NL_BYTE]
}

/// One byte-string token.
pub open spec fn enc_byte_str(bs: Seq<u8>) -> Seq<u8> {
    enc_u64(bs.len() as u64) + bs + seq![NL_BYTE]
}

/// One text token: the UTF-8 bytes of the characters.
pub open spec fn enc_string(s: Seq<char>) -> Seq<u8> {
    enc_byte_str(encode_utf8(s))
}

pub open spec fn action_tag(a: TimerAction) -> u64 {
    match a {
        TimerAction::Popup => 0,
        TimerAction::Lock => 1,
        TimerAction::Shutdown => 2,
        TimerAction::Reboot => 3,
    }
}

pub open spec fn preset_tag(p: RecurrencePreset) -> u64 {
    match p {
        RecurrencePreset::Daily => 0,
        RecurrencePreset::Weekdays => 1,
        RecurrencePreset::SpecificDays => 2,
        RecurrencePreset::EveryNHours => 3,
        RecurrencePreset::EveryNMinutes => 4,
    }
}

pub open spec fn enc_flag(on: bool) -> Seq<u8> {
    if on {
        enc_u64(1)
    } else {
        enc_u64(0)
    }
}

pub open spec fn enc_opt_u32(o: Option<u32>) -> Seq<u8> {
    match o {
        None => enc_flag(false),
        Some(v) => enc_flag(true) + enc_u64(v as u64),
    }
}

pub open spec fn enc_u32_list(vs: Seq<u32>) -> Seq<u8>
    decreases vs.len(),
{
    if vs.len() == 0 {
        Seq::empty()
    } else {
        enc_u64(vs[0] as u64) + enc_u32_list(vs.drop_first())
    }
}

pub open spec fn enc_opt_warnings(o: Option<Seq<u32>>) -> Seq<u8> {
    match o {
        None => enc_flag(false),
        Some(vs) => enc_flag(true) + enc_u64(vs.len() as u64) + enc_u32_list(vs),
    }
}

pub open spec fn enc_string_list(ds: Seq<Seq<char>>) -> Seq<u8>
    decreases ds.len(),
{
    if ds.len() == 0 {
        Seq::empty()
    } else {
        enc_string(ds[0]) + enc_string_list(ds.drop_first())
    }
}

pub open spec fn enc_opt_days(o: Option<Seq<Seq<char>>>) -> Seq<u8> {
    match o {
        None => enc_flag(false),
        Some(ds) => enc_flag(true) + enc_u64(ds.len() as u64) + enc_string_list(ds),
    }
}

pub open spec fn enc_rec(c: RecurrenceConfigView) -> Seq<u8> {
    enc_u64(preset_tag(c.preset)) + enc_opt_u32(c.interval_hours) + enc_opt_u32(c.interval_minutes)
        + enc_opt_days(c.days_of_week)
}

pub open spec fn enc_opt_rec(o: Option<RecurrenceConfigView>) -> Seq<u8> {
    match o {
        None => enc_flag(false),
        Some(c) => enc_flag(true) + enc_rec(c),
    }
}

pub open spec fn enc_opt_string(o: Option<Seq<char>>) -> Seq<u8> {
    match o {
        None => enc_flag(false),
        Some(s) => enc_flag(true) + enc_string(s),
    }
}

/// One timer record.
pub open spec fn enc_timer(t: TimerView) -> Seq<u8> {
    enc_string(t.id) + enc_u64(action_tag(t.action)) + enc_u64(t.target_time) + enc_u64(
        t.created_at,
    ) + enc_opt_string(t.message) + enc_opt_warnings(t.pre_warning_minutes) + enc_opt_rec(
        t.recurrence,
    )
}

pub open spec fn enc_timer_list(ts: Seq<TimerView>) -> Seq<u8>
    decreases ts.len(),
{
    if ts.len() == 0 {
        Seq::empty()
    } else {
        enc_timer(ts[0]) + enc_timer_list(ts.drop_first())
    }
}

/// The whole snapshot.
pub open spec fn spec_encode(ts: Seq<TimerView>) -> Seq<u8> {
    enc_u64(ts.len() as u64) + enc_timer_list(ts)
}

// ───────────────────────── the parser ─────────────────────────

/// Scan decimal digits, accumulating, until the newline; fail on overflow or
/// any other byte.
pub open spec fn sp_digits(b: Seq<u8>, pos: int, acc: int) -> Option<(u64, int)>
    decreases b.len() - pos,
{
    if !(0 <= pos < b.len()) {
        None
    } else if is_digit_byte(b[pos]) {
        let d = b[pos] - 48;
        if acc * 10 + d > u64::MAX {
            None
        } else {
            sp_digits(b, pos + 1, acc * 10 + d)
        }
    } else if b[pos] == NL_BYTE {
        Some((acc as u64, pos + 1))
    } else {
        None
    }
}

/// One number token: at least one digit, no leading zeros, a newline.
pub open spec fn sp_read_u64(b: Seq<u8>, pos: int) -> Option<(u64, int)> {
    if !(0 <= pos < b.len()) {
        None
    } else if !is_digit_byte(b[pos]) {
        None
    } else if b[pos] == 48 {
        if pos + 1 < b.len() && b[pos + 1] == NL_BYTE {
            Some((0, pos + 2))
        } else {
            None
        }
    } else {
        sp_digits(b, pos, 0)
    }
}

/// One byte-string token.
pub open spec fn sp_read_byte_str(b: Seq<u8>, pos: int) -> Option<(Seq<u8>, int)> {
    match sp_read_u64(b, pos) {
        None => None,
        Some((n, p)) => {
            let end = p + n;
            if end < b.len() && b[end] == NL_BYTE {
                Some((b.subrange(p, end), end + 1))
            } else {
                None
            }
        },
    }
}

/// One text token: the bytes must be valid UTF-8.
pub open spec fn sp_read_string(b: Seq<u8>, pos: int) -> Option<(Seq<char>, int)> {
    match sp_read_byte_str(b, pos) {
        None => None,
        Some((bs, p)) => if valid_utf8(bs) {
            Some((decode_utf8(bs), p))
        } else {
            None
        },
    }
}

pub open spec fn sp_read_u32(b: Seq<u8>, pos: int) -> Option<(u32, int)> {
    match sp_read_u64(b, pos) {
        None => None,
        Some((v, p)) => if v <= u32::MAX {
            Some((v as u32, p))
        } else {
            None
        },
    }
}

pub open spec fn sp_read_flag(b: Seq<u8>, pos: int) -> Option<(bool, int)> {
    match sp_read_u64(b, pos) {
        None => None,
        Some((v, p)) => if v == 0 {
            Some((false, p))
        } else if v == 1 {
            Some((true, p))
        } else {
            None
        },
    }
}

pub open spec fn sp_read_action(b: Seq<u8>, pos: int) -> Option<(TimerAction, int)> {
    match sp_read_u64(b, pos) {
        None => None,
        Some((v, p)) => if v == 0 {
            Some((TimerAction::Popup, p))
        } else if v == 1 {
            Some((TimerAction::Lock, p))
        } else if v == 2 {
            Some((TimerAction::Shutdown, p))
        } else if v == 3 {
            Some((TimerAction::Reboot, p))
        } else {
            None
        },
    }
}

pub open spec fn sp_read_preset(b: Seq<u8>, pos: int) -> Option<(RecurrencePreset, int)> {
    match sp_read_u64(b, pos) {
        None => None,
        Some((v, p)) => if v == 0 {
            Some((RecurrencePreset::Daily, p))
        } else if v == 1 {
            Some((RecurrencePreset::Weekdays, p))
        } else if v == 2 {
            Some((RecurrencePreset::SpecificDays, p))
        } else if v == 3 {
            Some((RecurrencePreset::EveryNHours, p))
        } else if v == 4 {
            Some((RecurrencePreset::EveryNMinutes, p))
        } else {
            None
        },
    }
}

pub open spec fn sp_read_opt_u32(b: Seq<u8>, pos: int) -> Option<(Option<u32>, int)> {
    match sp_read_flag(b, pos) {
        None => None,
        Some((false, p)) => Some((None, p)),
        Some((true, p)) => match sp_read_u32(b, p) {
            None => None,
            Some((v, p2)) => Some((Some(v), p2)),
        },
    }
}

pub open spec fn sp_read_opt_string(b: Seq<u8>, pos: int) -> Option<(Option<Seq<char>>, int)> {
    match sp_read_flag(b, pos) {
        None => None,
        Some((false, p)) => Some((None, p)),
        Some((true, p)) => match sp_read_string(b, p) {
            None => None,
            Some((s, p2)) => Some((Some(s), p2)),
        },
    }
}

pub open spec fn sp_read_u32_list(b: Seq<u8>, pos: int, n: u64) -> Option<(Seq<u32>, int)>
    decreases n,
{
    if n == 0 {
        Some((Seq::empty(), pos))
    } else {
        match sp_read_u32(b, pos) {
            None => None,
            Some((v, p)) => match sp_read_u32_list(b, p, (n - 1) as u64) {
                None => None,
                Some((vs, p2)) => Some((seq![v] + vs, p2)),
            },
        }
    }
}

pub open spec fn sp_read_opt_warnings(b: Seq<u8>, pos: int) -> Option<(Option<Seq<u32>>, int)> {
    match sp_read_flag(b, pos) {
        None => None,
        Some((false, p)) => Some((None, p)),
        Some((true, p)) => match sp_read_u64(b, p) {
            None => None,
            Some((n, p2)) => match sp_read_u32_list(b, p2, n) {
                None => None,
                Some((vs, p3)) => Some((Some(vs), p3)),
            },
        },
    }
}

pub open spec fn sp_read_string_list(b: Seq<u8>, pos: int, n: u64) -> Option<(Seq<Seq<char>>, int)>
    decreases n,
{
    if n == 0 {
        Some((Seq::empty(), pos))
    } else {
        match sp_read_string(b, pos) {
            None => None,
            Some((s, p)) => match sp_read_string_list(b, p, (n - 1) as u64) {
                None => None,
                Some((ds, p2)) => Some((seq![s] + ds, p2)),
            },
        }
    }
}

pub open spec fn sp_read_opt_days(b: Seq<u8>, pos: int) -> Option<(Option<Seq<Seq<char>>>, int)> {
    match sp_read_flag(b, pos) {
        None => None,
        Some((false, p)) => Some((None, p)),
        Some((true, p)) => match sp_read_u64(b, p) {
            None => None,
            Some((n, p2)) => match sp_read_string_list(b, p2, n) {
                None => None,
                Some((ds, p3)) => Some((Some(ds), p3)),
            },
        },
    }
}

pub open spec fn sp_read_rec(b: Seq<u8>, pos: int) -> Option<(RecurrenceConfigView, int)> {
    match sp_read_preset(b, pos) {
        None => None,
        Some((preset, p)) => match sp_read_opt_u32(b, p) {
            None => None,
            Some((hours, p2)) => match sp_read_opt_u32(b, p2) {
                None => None,
                Some((minutes, p3)) => match sp_read_opt_days(b, p3) {
                    None => None,
                    Some((days, p4)) => Some(
                        (
                            RecurrenceConfigView {
                                preset,
                                interval_hours: hours,
                                interval_minutes: minutes,
                                days_of_week: days,
                            },
                            p4,
                        ),
                    ),
                },
            },
        },
    }
}

pub open spec fn sp_read_opt_rec(b: Seq<u8>, pos: int) -> Option<
    (Option<RecurrenceConfigView>, int),
> {
    match sp_read_flag(b, pos) {
        None => None,
        Some((false, p)) => Some((None, p)),
        Some((true, p)) => match sp_read_rec(b, p) {
            None => None,
            Some((c, p2)) => Some((Some(c), p2)),
        },
    }
}

pub open spec fn sp_read_timer(b: Seq<u8>, pos: int) -> Option<(TimerView, int)> {
    match sp_read_string(b, pos) {
        None => None,
        Some((id, p1)) => match sp_read_action(b, p1) {
            None => None,
            Some((action, p2)) => match sp_read_u64(b, p2) {
                None => None,
                Some((target, p3)) => match sp_read_u64(b, p3) {
                    None => None,
                    Some((created, p4)) => match sp_read_opt_string(b, p4) {
                        None => None,
                        Some((message, p5)) => match sp_read_opt_warnings(b, p5) {
                            None => None,
                            Some((warnings, p6)) => match sp_read_opt_rec(b, p6) {
                                None => None,
                                Some((recurrence, p7)) => Some(
                                    (
                                        TimerView {
                                            id,
                                            action,
                                            target_time: target,
                                            recurrence,
                                            pre_warning_minutes: warnings,
                                            message,
                                            created_at: created,
                                        },
                                        p7,
                                    ),
                                ),
                            },
                        },
                    },
                },
            },
        },
    }
}

pub open spec fn sp_read_timer_list(b: Seq<u8>, pos: int, n: u64) -> Option<(Seq<TimerView>, int)>
    decreases n,
{
    if n == 0 {
        Some((Seq::empty(), pos))
    } else {
        match sp_read_timer(b, pos) {
            None => None,
            Some((t, p)) => match sp_read_timer_list(b, p, (n - 1) as u64) {
                None => None,
                Some((ts, p2)) => Some((seq![t] + ts, p2)),
            },
        }
    }
}

/// The whole snapshot: the count, that many records, nothing after.
pub open spec fn spec_decode(b: Seq<u8>) -> Option<Seq<TimerView>> {
    match sp_read_u64(b, 0) {
        None => None,
        Some((n, p)) => match sp_read_timer_list(b, p, n) {
            None => None,
            Some((ts, p2)) => if p2 == b.len() {
                Some(ts)
            } else {
                None
            },
        },
    }
}

// ───────────────────────── the encoder ─────────────────────────

/// Append one number token.
fn write_u64(out: &mut Vec<u8>, n: u64)
    ensures
        final(out)@ == old(out)@ + enc_u64(n),
{
    let ghost base = out@;
    let mut tmp: Vec<u8> = Vec::new();
    let mut m: u64 = n;
    while m >= 10
        invariant
            dec_digits(n as nat) == dec_digits(m as nat) + tmp@.reverse(),
        decreases m,
    {
        let d: u8 = (m % 10) as u8 + 48;
        proof {
            let pre = tmp@;
            assert(pre.push(d).reverse() =~= seq![d] + pre.reverse());
            assert(dec_digits(m as nat) == dec_digits((m as nat) / 10) + seq![d]);
            assert(dec_digits((m as nat) / 10) + (seq![d] + pre.reverse()) =~= (dec_digits(
                (m as nat) / 10,
            ) + seq![d]) + pre.reverse());
        }
        tmp.push(d);
        m = m / 10;
    }
    out.push(m as u8 + 48);
    proof {
        assert(dec_digits(m as nat) =~= seq![(m as u8 + 48) as u8]);
        assert(out@ + tmp@.reverse() =~= base + dec_digits(n as nat));
    }
    while tmp.len() > 0
        invariant
            out@ + tmp@.reverse() == base + dec_digits(n as nat),
        decreases tmp@.len(),
    {
        let ghost pre = tmp@;
        let d = match tmp.pop() {
            Some(d) => d,
            None => 0,
        };
        out.push(d);
        proof {
            assert(pre.reverse() =~= seq![pre.last()] + pre.drop_last().reverse());
            assert(out@ + tmp@.reverse() =~= base + dec_digits(n as nat));
        }
    }
    out.push(NL_BYTE);
    proof {
        assert(tmp@.reverse() =~= Seq::<u8>::empty());
        assert(out@ =~= base + enc_u64(n));
    }
}

/// Append one byte-string token.
fn write_byte_str(out: &mut Vec<u8>, bs: &[u8])
    ensures
        final(out)@ == old(out)@ + enc_byte_str(bs@),
{
    let ghost base = out@;
    write_u64(out, bs.len() as u64);
    let len = bs.len();
    let mut i: usize = 0;
    while i < len
        invariant
            i <= len,
            len == bs@.len(),
            out@ == base + enc_u64(bs@.len() as u64) + bs@.subrange(0, i as int),
        decreases len - i,
    {
        out.push(*vstd::slice::slice_index_get(bs, i));
        proof {
            assert(bs@.subrange(0, i as int).push(bs@[i as int]) =~= bs@.subrange(
                0,
                i as int + 1,
            ));
            assert(out@ =~= base + enc_u64(bs@.len() as u64) + bs@.subrange(0, i as int + 1));
        }
        i = i + 1;
    }
    out.push(NL_BYTE);
    proof {
        assert(bs@.subrange(0, len as int) =~= bs@);
        assert(out@ =~= base + enc_byte_str(bs@));
    }
}

/// Append one text token.
fn write_string(out: &mut Vec<u8>, s: &str)
    ensures
        final(out)@ == old(out)@ + enc_string(s@),
{
    write_byte_str(out, s.as_bytes());
}

fn write_flag(out: &mut Vec<u8>, on: bool)
    ensures
        final(out)@ == old(out)@ + enc_flag(on),
{
    if on {
        write_u64(out, 1);
    } else {
        write_u64(out, 0);
    }
}

/// Append the warning list field.
fn write_warnings(out: &mut Vec<u8>, o: &Option<Vec<u32>>)
    ensures
        final(out)@ == old(out)@ + enc_opt_warnings(match o {
            Some(ws) => Some(ws@),
            None => None,
        }),
{
    let ghost base = out@;
    match o {
        None => write_flag(out, false),
        Some(ws) => {
            write_flag(out, true);
            write_u64(out, ws.len() as u64);
            let ghost head = base + enc_flag(true) + enc_u64(ws@.len() as u64);
            proof {
                assert(ws@.skip(0) =~= ws@);
                assert(out@ + enc_u32_list(ws@.skip(0)) =~= head + enc_u32_list(ws@));
            }
            let len = ws.len();
            let mut i: usize = 0;
            while i < len
                invariant
                    i <= len,
                    len == ws@.len(),
                    out@ + enc_u32_list(ws@.skip(i as int)) == head + enc_u32_list(ws@),
                decreases len - i,
            {
                write_u64(out, ws[i] as u64);
                proof {
                    assert(ws@.skip(i as int).drop_first() =~= ws@.skip(i as int + 1));
                    assert(enc_u32_list(ws@.skip(i as int)) =~= enc_u64(ws@[i as int] as u64)
                        + enc_u32_list(ws@.skip(i as int + 1)));
                    assert(out@ + enc_u32_list(ws@.skip(i as int + 1)) =~= head + enc_u32_list(
                        ws@,
                    ));
                }
                i = i + 1;
            }
            proof {
                assert(ws@.skip(len as int) =~= Seq::<u32>::empty());
                assert(out@ + enc_u32_list(ws@.skip(len as int)) =~= out@);
                assert(out@ =~= base + enc_opt_warnings(Some(ws@)));
            }
        },
    }
}

/// Append the day-name list field.
fn write_days(out: &mut Vec<u8>, o: &Option<Vec<String>>)
    ensures
        final(out)@ == old(out)@ + enc_opt_days(match o {
            Some(ds) => Some(strings_view(ds@)),
            None => None,
        }),
{
    let ghost base = out@;
    match o {
        None => write_flag(out, false),
        Some(ds) => {
            write_flag(out, true);
            write_u64(out, ds.len() as u64);
            let ghost sv = strings_view(ds@);
            let ghost head = base + enc_flag(true) + enc_u64(ds@.len() as u64);
            proof {
                assert(sv.skip(0) =~= sv);
                assert(out@ + enc_string_list(sv.skip(0)) =~= head + enc_string_list(sv));
            }
            let len = ds.len();
            let mut i: usize = 0;
            while i < len
                invariant
                    i <= len,
                    len == ds@.len(),
                    sv == strings_view(ds@),
                    out@ + enc_string_list(sv.skip(i as int)) == head + enc_string_list(sv),
                decreases len - i,
            {
                proof {
                    assert(sv[i as int] == ds@[i as int]@);
                }
                write_string(out, ds[i].as_str());
                proof {
                    assert(sv.skip(i as int).drop_first() =~= sv.skip(i as int + 1));
                    assert(enc_string_list(sv.skip(i as int)) =~= enc_string(sv[i as int])
                        + enc_string_list(sv.skip(i as int + 1)));
                    assert(out@ + enc_string_list(sv.skip(i as int + 1)) =~= head
                        + enc_string_list(sv));
                }
                i = i + 1;
            }
            proof {
                assert(sv.skip(len as int) =~= Seq::<Seq<char>>::empty());
                assert(out@ + enc_string_list(sv.skip(len as int)) =~= out@);
                assert(out@ =~= base + enc_opt_days(Some(sv)));
            }
        },
    }
}

/// Append the recurrence field.
#[verifier::rlimit(60)]
fn write_recurrence(out: &mut Vec<u8>, o: &Option<RecurrenceConfig>)
    ensures
        final(out)@ == old(out)@ + enc_opt_rec(match o {
            Some(c) => Some(c@),
            None => None,
        }),
{
    let ghost base = out@;
    match o {
        None => write_flag(out, false),
        Some(c) => {
            write_flag(out, true);
            write_u64(out, match c.preset {
                RecurrencePreset::Daily => 0,
                RecurrencePreset::Weekdays => 1,
                RecurrencePreset::SpecificDays => 2,
                RecurrencePreset::EveryNHours => 3,
                RecurrencePreset::EveryNMinutes => 4,
            });
            match c.interval_hours {
                None => write_flag(out, false),
                Some(h) => {
                    write_flag(out, true);
                    write_u64(out, h as u64);
                },
            }
            match c.interval_minutes {
                None => write_flag(out, false),
                Some(m) => {
                    write_flag(out, true);
                    write_u64(out, m as u64);
                },
            }
            proof {
                assert(out@ =~= base + enc_flag(true) + enc_u64(preset_tag(c@.preset))
                    + enc_opt_u32(c@.interval_hours) + enc_opt_u32(c@.interval_minutes));
            }
            write_days(out, &c.days_of_week);
            proof {
                assert(out@ =~= base + enc_opt_rec(Some(c@)));
            }
        },
    }
}

/// Append one timer record.
#[verifier::rlimit(60)]
fn write_timer(out: &mut Vec<u8>, t: &TimerInfo)
    ensures
        final(out)@ == old(out)@ + enc_timer(t@),
{
    let ghost base = out@;
    write_string(out, t.id.as_str());
    write_u64(out, match t.action {
        TimerAction::Popup => 0,
        TimerAction::Lock => 1,
        TimerAction::Shutdown => 2,
        TimerAction::Reboot => 3,
    });
    write_u64(out, t.target_time);
    write_u64(out, t.created_at);
    match &t.message {
        None => write_flag(out, false),
        Some(m) => {
            write_flag(out, true);
            write_string(out, m.as_str());
        },
    }
    proof {
        assert(out@ =~= base + enc_string(t@.id) + enc_u64(action_tag(t@.action)) + enc_u64(
            t@.target_time,
        ) + enc_u64(t@.created_at) + enc_opt_string(t@.message));
    }
    write_warnings(out, &t.pre_warning_minutes);
    write_recurrence(out, &t.recurrence);
    proof {
        assert(out@ =~= base + enc_timer(t@));
    }
}

/// Encode the timer snapshot for the persisted file.
pub fn encode_timers(ts: &Vec<TimerInfo>) -> (r: Vec<u8>)
    ensures
        r@ == spec_encode(timers_view(ts@)),
{
    let ghost tv = timers_view(ts@);
    let mut out: Vec<u8> = Vec::new();
    write_u64(&mut out, ts.len() as u64);
    proof {
        assert(out@ =~= enc_u64(tv.len() as u64));
        assert(tv.skip(0) =~= tv);
        assert(out@ + enc_timer_list(tv.skip(0)) =~= enc_u64(tv.len() as u64) + enc_timer_list(
            tv,
        ));
    }
    let len = ts.len();
    let mut i: usize = 0;
    while i < len
        invariant
            i <= len,
            len == ts@.len(),
            tv == timers_view(ts@),
            out@ + enc_timer_list(tv.skip(i as int)) == enc_u64(tv.len() as u64)
                + enc_timer_list(tv),
        decreases len - i,
    {
        write_timer(&mut out, &ts[i]);
        proof {
            assert(tv.skip(i as int).drop_first() =~= tv.skip(i as int + 1));
            assert(tv.skip(i as int)[0] == tv[i as int]);
            assert(enc_timer_list(tv.skip(i as int)) =~= enc_timer(tv[i as int])
                + enc_timer_list(tv.skip(i as int + 1)));
            assert(out@ + enc_timer_list(tv.skip(i as int + 1)) =~= enc_u64(tv.len() as u64)
                + enc_timer_list(tv));
        }
        i = i + 1;
    }
    proof {
        assert(tv.skip(len as int) =~= Seq::<TimerView>::empty());
        assert(out@ =~= spec_encode(tv));
    }
    out
}

// ───────────────────────── the decoder ─────────────────────────

/// Relies on `core::str::from_utf8`: succeeds exactly on valid UTF-8, and
/// the returned slice views the same bytes.
#[verifier::external_body]
fn utf8_to_str<'a>(v: &'a [u8]) -> (r: Option<&'a str>)
    ensures
        r is Some <==> valid_utf8(v@),
        r matches Some(s) ==> s.spec_bytes() == v@,
{
    core::str::from_utf8(v).ok()
}

/// One number token.
fn read_u64(b: &Vec<u8>, pos: usize) -> (r: Option<(u64, usize)>)
    ensures
        match r {
            Some(vp) => sp_read_u64(b@, pos as int) == Some((vp.0, vp.1 as int)) && vp.1
                <= b@.len(),
            None => sp_read_u64(b@, pos as int) is None,
        },
{
    if pos >= b.len() {
        return None;
    }
    let c = b[pos];
    if !(48 <= c && c <= 57) {
        return None;
    }
    if c == 48 {
        if pos + 1 < b.len() && b[pos + 1] == NL_BYTE {
            return Some((0, pos + 2));
        }
        return None;
    }
    let mut p = pos;
    let mut acc: u64 = 0;
    loop
        invariant
            pos <= p <= b@.len(),
            sp_digits(b@, pos as int, 0) == sp_digits(b@, p as int, acc as int),
            sp_read_u64(b@, pos as int) == sp_digits(b@, pos as int, 0),
        decreases b@.len() - p,
    {
        if p >= b.len() {
            return None;
        }
        let d = b[p];
        if 48 <= d && d <= 57 {
            let dv = (d - 48) as u64;
            match acc.checked_mul(10) {
                None => {
                    return None;
                },
                Some(m) => match m.checked_add(dv) {
                    None => {
                        return None;
                    },
                    Some(a2) => {
                        acc = a2;
                        p = p + 1;
                    },
                },
            }
        } else if d == NL_BYTE {
            return Some((acc, p + 1));
        } else {
            return None;
        }
    }
}

/// One byte-string token.
fn read_byte_vec(b: &Vec<u8>, pos: usize) -> (r: Option<(Vec<u8>, usize)>)
    ensures
        match r {
            Some(vp) => sp_read_byte_str(b@, pos as int) == Some((vp.0@, vp.1 as int)) && vp.1
                <= b@.len(),
            None => sp_read_byte_str(b@, pos as int) is None,
        },
{
    match read_u64(b, pos) {
        None => None,
        Some((n, p)) => {
            if n > (b.len() - p) as u64 {
                return None;
            }
            let end = p + (n as usize);
            if end >= b.len() || b[end] != NL_BYTE {
                return None;
            }
            let bytes = slice_to_vec(slice_subrange(b.as_slice(), p, end));
            Some((bytes, end + 1))
        },
    }
}

/// One text token.
fn read_string(b: &Vec<u8>, pos: usize) -> (r: Option<(String, usize)>)
    ensures
        match r {
            Some(vp) => sp_read_string(b@, pos as int) == Some((vp.0@, vp.1 as int)) && vp.1
                <= b@.len(),
            None => sp_read_string(b@, pos as int) is None,
        },
{
    match read_byte_vec(b, pos) {
        None => None,
        Some((bytes, p)) => match utf8_to_str(bytes.as_slice()) {
            None => None,
            Some(st) => {
                let owned = st.to_owned();
                proof {
                    broadcast use encode_utf8_decode_utf8;

                    assert(encode_utf8(owned@) == bytes@);
                    assert(decode_utf8(bytes@) == owned@);
                }
                Some((owned, p))
            },
        },
    }
}

fn read_u32(b: &Vec<u8>, pos: usize) -> (r: Option<(u32, usize)>)
    ensures
        match r {
            Some(vp) => sp_read_u32(b@, pos as int) == Some((vp.0, vp.1 as int)) && vp.1
                <= b@.len(),
            None => sp_read_u32(b@, pos as int) is None,
        },
{
    match read_u64(b, pos) {
        None => None,
        Some((v, p)) => if v <= u32::MAX as u64 {
            Some((v as u32, p))
        } else {
            None
        },
    }
}

fn read_flag(b: &Vec<u8>, pos: usize) -> (r: Option<(bool, usize)>)
    ensures
        match r {
            Some(vp) => sp_read_flag(b@, pos as int) == Some((vp.0, vp.1 as int)) && vp.1
                <= b@.len(),
            None => sp_read_flag(b@, pos as int) is None,
        },
{
    match read_u64(b, pos) {
        None => None,
        Some((v, p)) => if v == 0 {
            Some((false, p))
        } else if v == 1 {
            Some((true, p))
        } else {
            None
        },
    }
}

fn read_action(b: &Vec<u8>, pos: usize) -> (r: Option<(TimerAction, usize)>)
    ensures
        match r {
            Some(vp) => sp_read_action(b@, pos as int) == Some((vp.0, vp.1 as int)) && vp.1
                <= b@.len(),
            None => sp_read_action(b@, pos as int) is None,
        },
{
    match read_u64(b, pos) {
        None => None,
        Some((v, p)) => if v == 0 {
            Some((TimerAction::Popup, p))
        } else if v == 1 {
            Some((TimerAction::Lock, p))
        } else if v == 2 {
            Some((TimerAction::Shutdown, p))
        } else if v == 3 {
            Some((TimerAction::Reboot, p))
        } else {
            None
        },
    }
}

fn read_preset(b: &Vec<u8>, pos: usize) -> (r: Option<(RecurrencePreset, usize)>)
    ensures
        match r {
            Some(vp) => sp_read_preset(b@, pos as int) == Some((vp.0, vp.1 as int)) && vp.1
                <= b@.len(),
            None => sp_read_preset(b@, pos as int) is None,
        },
{
    match read_u64(b, pos) {
        None => None,
        Some((v, p)) => if v == 0 {
            Some((RecurrencePreset::Daily, p))
        } else if v == 1 {
            Some((RecurrencePreset::Weekdays, p))
        } else if v == 2 {
            Some((RecurrencePreset::SpecificDays, p))
        } else if v == 3 {
            Some((RecurrencePreset::EveryNHours, p))
        } else if v == 4 {
            Some((RecurrencePreset::EveryNMinutes, p))
        } else {
            None
        },
    }
}

fn read_opt_u32(b: &Vec<u8>, pos: usize) -> (r: Option<(Option<u32>, usize)>)
    ensures
        match r {
            Some(vp) => sp_read_opt_u32(b@, pos as int) == Some((vp.0, vp.1 as int)) && vp.1
                <= b@.len(),
            None => sp_read_opt_u32(b@, pos as int) is None,
        },
{
    match read_flag(b, pos) {
        None => None,
        Some((false, p)) => Some((None, p)),
        Some((true, p)) => match read_u32(b, p) {
            None => None,
            Some((v, p2)) => Some((Some(v), p2)),
        },
    }
}

fn read_opt_string(b: &Vec<u8>, pos: usize) -> (r: Option<(Option<String>, usize)>)
    ensures
        match r {
            Some(vp) => sp_read_opt_string(b@, pos as int) == Some(
                (
                    match vp.0 {
                        Some(s) => Some(s@),
                        None => None,
                    },
                    vp.1 as int,
                ),
            ) && vp.1 <= b@.len(),
            None => sp_read_opt_string(b@, pos as int) is None,
        },
{
    match read_flag(b, pos) {
        None => None,
        Some((false, p)) => Some((None, p)),
        Some((true, p)) => match read_string(b, p) {
            None => None,
            Some((s, p2)) => Some((Some(s), p2)),
        },
    }
}

/// The warning list field.
fn read_warnings(b: &Vec<u8>, pos: usize) -> (r: Option<(Option<Vec<u32>>, usize)>)
    ensures
        match r {
            Some(vp) => sp_read_opt_warnings(b@, pos as int) == Some(
                (
                    match vp.0 {
                        Some(ws) => Some(ws@),
                        None => None,
                    },
                    vp.1 as int,
                ),
            ) && vp.1 <= b@.len(),
            None => sp_read_opt_warnings(b@, pos as int) is None,
        },
{
    match read_flag(b, pos) {
        None => None,
        Some((false, p)) => Some((None, p)),
        Some((true, p)) => match read_u64(b, p) {
            None => None,
            Some((n, p2)) => {
                let mut out: Vec<u32> = Vec::new();
                let mut i: u64 = 0;
                let mut cur: usize = p2;
                while i < n
                    invariant
                        i <= n,
                        cur <= b@.len(),
                        sp_read_flag(b@, pos as int) == Some((true, p as int)),
                        sp_read_u64(b@, p as int) == Some((n, p2 as int)),
                        sp_read_u32_list(b@, p2 as int, n) == (match sp_read_u32_list(
                            b@,
                            cur as int,
                            (n - i) as u64,
                        ) {
                            Some((vs, q)) => Some((out@ + vs, q)),
                            None => None::<(Seq<u32>, int)>,
                        }),
                    decreases n - i,
                {
                    match read_u32(b, cur) {
                        None => {
                            return None;
                        },
                        Some((v, q)) => {
                            proof {
                                let rest = sp_read_u32_list(b@, q as int, (n - i - 1) as u64);
                                if rest is Some {
                                    assert(out@.push(v) + (rest->0).0 =~= out@ + (seq![v]
                                        + (rest->0).0));
                                }
                            }
                            out.push(v);
                            cur = q;
                        },
                    }
                    i = i + 1;
                }
                proof {
                    assert(out@ + Seq::<u32>::empty() =~= out@);
                }
                Some((Some(out), cur))
            },
        },
    }
}

/// The day-name list field.
fn read_days(b: &Vec<u8>, pos: usize) -> (r: Option<(Option<Vec<String>>, usize)>)
    ensures
        match r {
            Some(vp) => sp_read_opt_days(b@, pos as int) == Some(
                (
                    match vp.0 {
                        Some(ds) => Some(strings_view(ds@)),
                        None => None,
                    },
                    vp.1 as int,
                ),
            ) && vp.1 <= b@.len(),
            None => sp_read_opt_days(b@, pos as int) is None,
        },
{
    match read_flag(b, pos) {
        None => None,
        Some((false, p)) => Some((None, p)),
        Some((true, p)) => match read_u64(b, p) {
            None => None,
            Some((n, p2)) => {
                let mut out: Vec<String> = Vec::new();
                let mut i: u64 = 0;
                let mut cur: usize = p2;
                while i < n
                    invariant
                        i <= n,
                        cur <= b@.len(),
                        sp_read_flag(b@, pos as int) == Some((true, p as int)),
                        sp_read_u64(b@, p as int) == Some((n, p2 as int)),
                        sp_read_string_list(b@, p2 as int, n) == (match sp_read_string_list(
                            b@,
                            cur as int,
                            (n - i) as u64,
                        ) {
                            Some((ds, q)) => Some((strings_view(out@) + ds, q)),
                            None => None::<(Seq<Seq<char>>, int)>,
                        }),
                    decreases n - i,
                {
                    match read_string(b, cur) {
                        None => {
                            return None;
                        },
                        Some((s, q)) => {
                            proof {
                                let rest = sp_read_string_list(b@, q as int, (n - i - 1) as u64);
                                if rest is Some {
                                    assert(strings_view(out@.push(s)) =~= strings_view(
                                        out@,
                                    ).push(s@));
                                    assert(strings_view(out@).push(s@) + (rest->0).0
                                        =~= strings_view(out@) + (seq![s@] + (rest->0).0));
                                }
                            }
                            out.push(s);
                            cur = q;
                        },
                    }
                    i = i + 1;
                }
                proof {
                    assert(strings_view(out@) + Seq::<Seq<char>>::empty() =~= strings_view(out@));
                }
                Some((Some(out), cur))
            },
        },
    }
}

/// The recurrence field.
fn read_recurrence(b: &Vec<u8>, pos: usize) -> (r: Option<(Option<RecurrenceConfig>, usize)>)
    ensures
        match r {
            Some(vp) => sp_read_opt_rec(b@, pos as int) == Some(
                (
                    match vp.0 {
                        Some(c) => Some(c@),
                        None => None,
                    },
                    vp.1 as int,
                ),
            ) && vp.1 <= b@.len(),
            None => sp_read_opt_rec(b@, pos as int) is None,
        },
{
    match read_flag(b, pos) {
        None => None,
        Some((false, p)) => Some((None, p)),
        Some((true, p)) => match read_preset(b, p) {
            None => None,
            Some((preset, p2)) => match read_opt_u32(b, p2) {
                None => None,
                Some((hours, p3)) => match read_opt_u32(b, p3) {
                    None => None,
                    Some((minutes, p4)) => match read_days(b, p4) {
                        None => None,
                        Some((days, p5)) => Some(
                            (
                                Some(
                                    RecurrenceConfig {
                                        preset,
                                        interval_hours: hours,
                                        interval_minutes: minutes,
                                        days_of_week: days,
                                    },
                                ),
                                p5,
                            ),
                        ),
                    },
                },
            },
        },
    }
}

/// One timer record.
fn read_timer(b: &Vec<u8>, pos: usize) -> (r: Option<(TimerInfo, usize)>)
    ensures
        match r {
            Some(vp) => sp_read_timer(b@, pos as int) == Some((vp.0@, vp.1 as int)) && vp.1
                <= b@.len(),
            None => sp_read_timer(b@, pos as int) is None,
        },
{
    match read_string(b, pos) {
        None => None,
        Some((id, p1)) => match read_action(b, p1) {
            None => None,
            Some((action, p2)) => match read_u64(b, p2) {
                None => None,
                Some((target, p3)) => match read_u64(b, p3) {
                    None => None,
                    Some((created, p4)) => match read_opt_string(b, p4) {
                        None => None,
                        Some((message, p5)) => match read_warnings(b, p5) {
                            None => None,
                            Some((warnings, p6)) => match read_recurrence(b, p6) {
                                None => None,
                                Some((recurrence, p7)) => Some(
                                    (
                                        TimerInfo {
                                            id,
                                            action,
                                            target_time: target,
                                            recurrence,
                                            pre_warning_minutes: warnings,
                                            message,
                                            created_at: created,
                                        },
                                        p7,
                                    ),
                                ),
                            },
                        },
                    },
                },
            },
        },
    }
}

/// Decode a persisted snapshot; `None` for a malformed file.
pub fn decode_timers(b: &Vec<u8>) -> (r: Option<Vec<TimerInfo>>)
    ensures
        match r {
            Some(ts) => spec_decode(b@) == Some(timers_view(ts@)),
            None => spec_decode(b@) is None,
        },
{
    match read_u64(b, 0) {
        None => None,
        Some((n, p0)) => {
            let mut out: Vec<TimerInfo> = Vec::new();
            let mut i: u64 = 0;
            let mut cur: usize = p0;
            while i < n
                invariant
                    i <= n,
                    cur <= b@.len(),
                    sp_read_u64(b@, 0) == Some((n, p0 as int)),
                    sp_read_timer_list(b@, p0 as int, n) == (match sp_read_timer_list(
                        b@,
                        cur as int,
                        (n - i) as u64,
                    ) {
                        Some((ts, q)) => Some((timers_view(out@) + ts, q)),
                        None => None::<(Seq<TimerView>, int)>,
                    }),
                decreases n - i,
            {
                match read_timer(b, cur) {
                    None => {
                        return None;
                    },
                    Some((t, q)) => {
                        proof {
                            let rest = sp_read_timer_list(b@, q as int, (n - i - 1) as u64);
                            if rest is Some {
                                assert(timers_view(out@.push(t)) =~= timers_view(out@).push(t@));
                                assert(timers_view(out@).push(t@) + (rest->0).0 =~= timers_view(
                                    out@,
                                ) + (seq![t@] + (rest->0).0));
                            }
                        }
                        out.push(t);
                        cur = q;
                    },
                }
                i = i + 1;
            }
            proof {
                assert(timers_view(out@) + Seq::<TimerView>::empty() =~= timers_view(out@));
            }
            if cur == b.len() {
                Some(out)
            } else {
                None
            }
        },
    }
}

// ─────────────────── the round trip ───────────────────

/// `t` stands at position `pos` of `b`.
pub open spec fn starts_with_at(b: Seq<u8>, pos: int, t: Seq<u8>) -> bool {
    0 <= pos && pos + t.len() <= b.len() && b.subrange(pos, pos + t.len()) == t
}

proof fn lemma_split(b: Seq<u8>, pos: int, t1: Seq<u8>, t2: Seq<u8>)
    requires
        starts_with_at(b, pos, t1 + t2),
    ensures
        starts_with_at(b, pos, t1),
        starts_with_at(b, pos + t1.len(), t2),
{
    let l1 = t1.len() as int;
    let l2 = t2.len() as int;
    assert forall|i: int| 0 <= i < l1 implies b.subrange(pos, pos + l1)[i] == t1[i] by {
        assert(b.subrange(pos, pos + l1 + l2)[i] == (t1 + t2)[i]);
    }
    assert(b.subrange(pos, pos + l1) =~= t1);
    assert forall|i: int| 0 <= i < l2 implies b.subrange(pos + l1, pos + l1 + l2)[i] == t2[i] by {
        assert(b.subrange(pos, pos + l1 + l2)[l1 + i] == (t1 + t2)[l1 + i]);
    }
    assert(b.subrange(pos + l1, pos + l1 + l2) =~= t2);
}

proof fn lemma_dec_digits_props(n: nat)
    ensures
        dec_digits(n).len() >= 1,
        forall|i: int| 0 <= i < dec_digits(n).len() ==> is_digit_byte(#[trigger] dec_digits(n)[i]),
        n >= 1 ==> dec_digits(n)[0] != 48,
        n == 0 ==> dec_digits(n) == seq![48u8],
    decreases n,
{
    if n < 10 {
        assert(dec_digits(n) == seq![(48 + n) as u8]);
        if n == 0 {
            assert(dec_digits(n) =~= seq![48u8]);
        }
    } else {
        lemma_dec_digits_props(n / 10);
        assert forall|i: int| 0 <= i < dec_digits(n).len() implies is_digit_byte(
            #[trigger] dec_digits(n)[i],
        ) by {
            if i < dec_digits(n / 10).len() {
                assert(dec_digits(n)[i] == dec_digits(n / 10)[i]);
            } else {
                assert(dec_digits(n)[i] == (48 + (n % 10)) as u8);
            }
        }
        assert(dec_digits(n)[0] == dec_digits(n / 10)[0]);
    }
}

/// Folding digits onto an accumulator, most significant first.
pub open spec fn combined(acc: int, ds: Seq<u8>) -> int
    decreases ds.len(),
{
    if ds.len() == 0 {
        acc
    } else {
        combined(acc * 10 + (ds[0] - 48), ds.drop_first())
    }
}

proof fn lemma_combined_snoc(acc: int, ds: Seq<u8>, d: u8)
    ensures
        combined(acc, ds + seq![d]) == combined(acc, ds) * 10 + (d - 48),
    decreases ds.len(),
{
    if ds.len() == 0 {
        assert((ds + seq![d]).drop_first() =~= Seq::<u8>::empty());
        assert((ds + seq![d])[0] == d);
        assert(combined(acc * 10 + (d - 48), Seq::<u8>::empty()) == acc * 10 + (d - 48));
    } else {
        assert((ds + seq![d]).drop_first() =~= ds.drop_first() + seq![d]);
        assert((ds + seq![d])[0] == ds[0]);
        lemma_combined_snoc(acc * 10 + (ds[0] - 48), ds.drop_first(), d);
        assert(combined(acc, ds + seq![d]) == combined(
            acc * 10 + (ds[0] - 48),
            ds.drop_first() + seq![d],
        ));
    }
}

proof fn lemma_combined_digits(n: nat)
    ensures
        combined(0, dec_digits(n)) == n,
    decreases n,
{
    if n < 10 {
        assert(dec_digits(n).drop_first() =~= Seq::<u8>::empty());
        assert(dec_digits(n)[0] == (48 + n) as u8);
        assert(combined(0 * 10 + ((48 + n) as u8 - 48), Seq::<u8>::empty()) == n);
    } else {
        lemma_combined_digits(n / 10);
        lemma_combined_snoc(0, dec_digits(n / 10), (48 + (n % 10)) as u8);
        vstd::arithmetic::div_mod::lemma_fundamental_div_mod(n as int, 10);
    }
}

proof fn lemma_combined_ge(acc: int, ds: Seq<u8>)
    requires
        acc >= 0,
        forall|i: int| 0 <= i < ds.len() ==> is_digit_byte(#[trigger] ds[i]),
    ensures
        combined(acc, ds) >= acc,
    decreases ds.len(),
{
    if ds.len() == 0 {
    } else {
        assert(is_digit_byte(ds[0]));
        lemma_combined_ge(acc * 10 + (ds[0] - 48), ds.drop_first());
    }
}

proof fn lemma_sp_digits_inv(b: Seq<u8>, pos: int, acc: int, ds: Seq<u8>)
    requires
        forall|i: int| 0 <= i < ds.len() ==> is_digit_byte(#[trigger] ds[i]),
        starts_with_at(b, pos, ds + seq![NL_BYTE]),
        acc >= 0,
        combined(acc, ds) <= u64::MAX,
    ensures
        sp_digits(b, pos, acc) == Some((combined(acc, ds) as u64, pos + ds.len() + 1)),
    decreases ds.len(),
{
    let full = ds + seq![NL_BYTE];
    assert(b.subrange(pos, pos + full.len())[0] == b[pos]);
    assert(b.subrange(pos, pos + full.len())[0] == full[0]);
    if ds.len() == 0 {
        assert(full[0] == NL_BYTE);
        assert(b[pos] == NL_BYTE);
    } else {
        assert(full[0] == ds[0]);
        assert(b[pos] == ds[0]);
        let d = ds[0] - 48;
        lemma_combined_ge(acc * 10 + d, ds.drop_first());
        assert(starts_with_at(b, pos + 1, ds.drop_first() + seq![NL_BYTE])) by {
            let tail = ds.drop_first() + seq![NL_BYTE];
            assert(tail =~= full.drop_first());
            let tl = tail.len() as int;
            assert forall|i: int| 0 <= i < tl implies b.subrange(pos + 1, pos + 1 + tl)[i]
                == tail[i] by {
                assert(b.subrange(pos, pos + full.len())[i + 1] == b[pos + i + 1]);
                assert(b.subrange(pos, pos + full.len())[i + 1] == full[i + 1]);
                assert(tail[i] == full[i + 1]);
            }
            assert(b.subrange(pos + 1, pos + 1 + tl) =~= tail);
        }
        lemma_sp_digits_inv(b, pos + 1, acc * 10 + d, ds.drop_first());
    }
}

proof fn lemma_read_u64_inv(b: Seq<u8>, pos: int, n: u64)
    requires
        starts_with_at(b, pos, enc_u64(n)),
    ensures
        sp_read_u64(b, pos) == Some((n, pos + enc_u64(n).len())),
{
    lemma_dec_digits_props(n as nat);
    lemma_split(b, pos, dec_digits(n as nat), seq![NL_BYTE]);
    assert(b.subrange(pos, pos + dec_digits(n as nat).len())[0] == b[pos]);
    assert(b[pos] == dec_digits(n as nat)[0]);
    if n == 0 {
        assert(b[pos] == 48);
        assert(b.subrange(pos + 1, pos + 2)[0] == b[pos + 1]);
        assert(b[pos + 1] == NL_BYTE);
    } else {
        lemma_combined_digits(n as nat);
        lemma_sp_digits_inv(b, pos, 0, dec_digits(n as nat));
    }
}

proof fn lemma_read_byte_str_inv(b: Seq<u8>, pos: int, bs: Seq<u8>)
    requires
        starts_with_at(b, pos, enc_byte_str(bs)),
        bs.len() <= u64::MAX,
    ensures
        sp_read_byte_str(b, pos) == Some((bs, pos + enc_byte_str(bs).len())),
{
    let lentok = enc_u64(bs.len() as u64);
    lemma_split(b, pos, lentok + bs, seq![NL_BYTE]);
    lemma_split(b, pos, lentok, bs);
    lemma_read_u64_inv(b, pos, bs.len() as u64);
    let p = pos + lentok.len();
    let end = p + bs.len();
    assert(b.subrange(end, end + 1)[0] == b[end]);
    assert(b[end] == NL_BYTE);
    assert(b.subrange(p, end) == bs);
}

proof fn lemma_read_string_inv(b: Seq<u8>, pos: int, s: Seq<char>)
    requires
        starts_with_at(b, pos, enc_string(s)),
        encode_utf8(s).len() <= u64::MAX,
    ensures
        sp_read_string(b, pos) == Some((s, pos + enc_string(s).len())),
{
    broadcast use encode_utf8_valid_utf8, encode_utf8_decode_utf8;

    lemma_read_byte_str_inv(b, pos, encode_utf8(s));
}

proof fn lemma_read_flag_inv(b: Seq<u8>, pos: int, on: bool)
    requires
        starts_with_at(b, pos, enc_flag(on)),
    ensures
        sp_read_flag(b, pos) == Some((on, pos + enc_flag(on).len())),
{
    if on {
        lemma_read_u64_inv(b, pos, 1);
    } else {
        lemma_read_u64_inv(b, pos, 0);
    }
}

proof fn lemma_read_opt_u32_inv(b: Seq<u8>, pos: int, o: Option<u32>)
    requires
        starts_with_at(b, pos, enc_opt_u32(o)),
    ensures
        sp_read_opt_u32(b, pos) == Some((o, pos + enc_opt_u32(o).len())),
{
    match o {
        None => {
            lemma_read_flag_inv(b, pos, false);
        },
        Some(v) => {
            lemma_split(b, pos, enc_flag(true), enc_u64(v as u64));
            lemma_read_flag_inv(b, pos, true);
            lemma_read_u64_inv(b, pos + enc_flag(true).len(), v as u64);
        },
    }
}

proof fn lemma_read_u32_list_inv(b: Seq<u8>, pos: int, vs: Seq<u32>)
    requires
        starts_with_at(b, pos, enc_u32_list(vs)),
        vs.len() <= u64::MAX,
    ensures
        sp_read_u32_list(b, pos, vs.len() as u64) == Some((vs, pos + enc_u32_list(vs).len())),
    decreases vs.len(),
{
    if vs.len() == 0 {
        assert(vs =~= Seq::<u32>::empty());
    } else {
        lemma_split(b, pos, enc_u64(vs[0] as u64), enc_u32_list(vs.drop_first()));
        lemma_read_u64_inv(b, pos, vs[0] as u64);
        lemma_read_u32_list_inv(b, pos + enc_u64(vs[0] as u64).len(), vs.drop_first());
        assert(seq![vs[0]] + vs.drop_first() =~= vs);
    }
}

proof fn lemma_read_warnings_inv(b: Seq<u8>, pos: int, o: Option<Seq<u32>>)
    requires
        starts_with_at(b, pos, enc_opt_warnings(o)),
        o matches Some(vs) ==> vs.len() <= u64::MAX,
    ensures
        sp_read_opt_warnings(b, pos) == Some((o, pos + enc_opt_warnings(o).len())),
{
    match o {
        None => {
            lemma_read_flag_inv(b, pos, false);
        },
        Some(vs) => {
            lemma_split(b, pos, enc_flag(true) + enc_u64(vs.len() as u64), enc_u32_list(vs));
            lemma_split(b, pos, enc_flag(true), enc_u64(vs.len() as u64));
            lemma_read_flag_inv(b, pos, true);
            lemma_read_u64_inv(b, pos + enc_flag(true).len(), vs.len() as u64);
            lemma_read_u32_list_inv(
                b,
                pos + enc_flag(true).len() + enc_u64(vs.len() as u64).len(),
                vs,
            );
        },
    }
}

proof fn lemma_read_string_list_inv(b: Seq<u8>, pos: int, ds: Seq<Seq<char>>)
    requires
        starts_with_at(b, pos, enc_string_list(ds)),
        ds.len() <= u64::MAX,
        forall|i: int| 0 <= i < ds.len() ==> encode_utf8(#[trigger] ds[i]).len() <= u64::MAX,
    ensures
        sp_read_string_list(b, pos, ds.len() as u64) == Some(
            (ds, pos + enc_string_list(ds).len()),
        ),
    decreases ds.len(),
{
    if ds.len() == 0 {
        assert(ds =~= Seq::<Seq<char>>::empty());
    } else {
        lemma_split(b, pos, enc_string(ds[0]), enc_string_list(ds.drop_first()));
        lemma_read_string_inv(b, pos, ds[0]);
        lemma_read_string_list_inv(b, pos + enc_string(ds[0]).len(), ds.drop_first());
        assert(seq![ds[0]] + ds.drop_first() =~= ds);
    }
}

proof fn lemma_read_days_inv(b: Seq<u8>, pos: int, o: Option<Seq<Seq<char>>>)
    requires
        starts_with_at(b, pos, enc_opt_days(o)),
        o matches Some(ds) ==> ds.len() <= u64::MAX && forall|i: int|
            0 <= i < ds.len() ==> encode_utf8(#[trigger] ds[i]).len() <= u64::MAX,
    ensures
        sp_read_opt_days(b, pos) == Some((o, pos + enc_opt_days(o).len())),
{
    match o {
        None => {
            lemma_read_flag_inv(b, pos, false);
        },
        Some(ds) => {
            lemma_split(b, pos, enc_flag(true) + enc_u64(ds.len() as u64), enc_string_list(ds));
            lemma_split(b, pos, enc_flag(true), enc_u64(ds.len() as u64));
            lemma_read_flag_inv(b, pos, true);
            lemma_read_u64_inv(b, pos + enc_flag(true).len(), ds.len() as u64);
            lemma_read_string_list_inv(
                b,
                pos + enc_flag(true).len() + enc_u64(ds.len() as u64).len(),
                ds,
            );
        },
    }
}

/// A snapshot entry small enough for its tokens: every length fits in `u64`.
pub open spec fn persistable_str(s: Seq<char>) -> bool {
    encode_utf8(s).len() <= u64::MAX
}

pub open spec fn persistable(t: TimerView) -> bool {
    &&& persistable_str(t.id)
    &&& match t.message {
        Some(m) => persistable_str(m),
        None => true,
    }
    &&& match t.pre_warning_minutes {
        Some(ws) => ws.len() <= u64::MAX,
        None => true,
    }
    &&& match t.recurrence {
        Some(c) => match c.days_of_week {
            Some(ds) => ds.len() <= u64::MAX && forall|i: int|
                0 <= i < ds.len() ==> persistable_str(#[trigger] ds[i]),
            None => true,
        },
        None => true,
    }
}

proof fn lemma_read_rec_inv(b: Seq<u8>, pos: int, o: Option<RecurrenceConfigView>)
    requires
        starts_with_at(b, pos, enc_opt_rec(o)),
        o matches Some(c) ==> (match c.days_of_week {
            Some(ds) => ds.len() <= u64::MAX && forall|i: int|
                0 <= i < ds.len() ==> persistable_str(#[trigger] ds[i]),
            None => true,
        }),
    ensures
        sp_read_opt_rec(b, pos) == Some((o, pos + enc_opt_rec(o).len())),
{
    match o {
        None => {
            lemma_read_flag_inv(b, pos, false);
        },
        Some(c) => {
            let f = enc_flag(true);
            let t1 = enc_u64(preset_tag(c.preset));
            let t2 = enc_opt_u32(c.interval_hours);
            let t3 = enc_opt_u32(c.interval_minutes);
            let t4 = enc_opt_days(c.days_of_week);
            assert(enc_opt_rec(o) =~= f + t1 + t2 + t3 + t4);
            lemma_split(b, pos, f + t1 + t2 + t3, t4);
            lemma_split(b, pos, f + t1 + t2, t3);
            lemma_split(b, pos, f + t1, t2);
            lemma_split(b, pos, f, t1);
            lemma_read_flag_inv(b, pos, true);
            lemma_read_u64_inv(b, pos + f.len(), preset_tag(c.preset));
            lemma_read_opt_u32_inv(b, pos + f.len() + t1.len(), c.interval_hours);
            lemma_read_opt_u32_inv(b, pos + f.len() + t1.len() + t2.len(), c.interval_minutes);
            lemma_read_days_inv(
                b,
                pos + f.len() + t1.len() + t2.len() + t3.len(),
                c.days_of_week,
            );
        },
    }
}

proof fn lemma_read_opt_string_inv(b: Seq<u8>, pos: int, o: Option<Seq<char>>)
    requires
        starts_with_at(b, pos, enc_opt_string(o)),
        o matches Some(s) ==> persistable_str(s),
    ensures
        sp_read_opt_string(b, pos) == Some((o, pos + enc_opt_string(o).len())),
{
    match o {
        None => {
            lemma_read_flag_inv(b, pos, false);
        },
        Some(s) => {
            lemma_split(b, pos, enc_flag(true), enc_string(s));
            lemma_read_flag_inv(b, pos, true);
            lemma_read_string_inv(b, pos + enc_flag(true).len(), s);
        },
    }
}

#[verifier::rlimit(80)]
proof fn lemma_read_timer_inv(b: Seq<u8>, pos: int, t: TimerView)
    requires
        starts_with_at(b, pos, enc_timer(t)),
        persistable(t),
    ensures
        sp_read_timer(b, pos) == Some((t, pos + enc_timer(t).len())),
{
    let t1 = enc_string(t.id);
    let t2 = enc_u64(action_tag(t.action));
    let t3 = enc_u64(t.target_time);
    let t4 = enc_u64(t.created_at);
    let t5 = enc_opt_string(t.message);
    let t6 = enc_opt_warnings(t.pre_warning_minutes);
    let t7 = enc_opt_rec(t.recurrence);
    lemma_split(b, pos, t1 + t2 + t3 + t4 + t5 + t6, t7);
    lemma_split(b, pos, t1 + t2 + t3 + t4 + t5, t6);
    lemma_split(b, pos, t1 + t2 + t3 + t4, t5);
    lemma_split(b, pos, t1 + t2 + t3, t4);
    lemma_split(b, pos, t1 + t2, t3);
    lemma_split(b, pos, t1, t2);
    lemma_read_string_inv(b, pos, t.id);
    let p1 = pos + t1.len();
    lemma_read_u64_inv(b, p1, action_tag(t.action));
    let p2 = p1 + t2.len();
    lemma_read_u64_inv(b, p2, t.target_time);
    let p3 = p2 + t3.len();
    lemma_read_u64_inv(b, p3, t.created_at);
    let p4 = p3 + t4.len();
    lemma_read_opt_string_inv(b, p4, t.message);
    let p5 = p4 + t5.len();
    lemma_read_warnings_inv(b, p5, t.pre_warning_minutes);
    let p6 = p5 + t6.len();
    lemma_read_rec_inv(b, p6, t.recurrence);
}

#[verifier::rlimit(80)]
proof fn lemma_read_timer_list_inv(b: Seq<u8>, pos: int, ts: Seq<TimerView>)
    requires
        starts_with_at(b, pos, enc_timer_list(ts)),
        ts.len() <= u64::MAX,
        forall|i: int| 0 <= i < ts.len() ==> persistable(#[trigger] ts[i]),
    ensures
        sp_read_timer_list(b, pos, ts.len() as u64) == Some(
            (ts, pos + enc_timer_list(ts).len()),
        ),
    decreases ts.len(),
{
    if ts.len() == 0 {
        assert(ts =~= Seq::<TimerView>::empty());
    } else {
        lemma_split(b, pos, enc_timer(ts[0]), enc_timer_list(ts.drop_first()));
        lemma_read_timer_inv(b, pos, ts[0]);
        lemma_read_timer_list_inv(b, pos + enc_timer(ts[0]).len(), ts.drop_first());
        assert(seq![ts[0]] + ts.drop_first() =~= ts);
    }
}

/// Law: decoding an encoded snapshot yields exactly the snapshot; persisting
/// a set of timers and reloading it gives the same set, in the same order.
pub proof fn lemma_round_trip(ts: Seq<TimerView>)
    requires
        ts.len() <= u64::MAX,
        forall|i: int| 0 <= i < ts.len() ==> persistable(#[trigger] ts[i]),
    ensures
        spec_decode(spec_encode(ts)) == Some(ts),
{
    let b = spec_encode(ts);
    assert(b.subrange(0, b.len() as int) =~= b);
    lemma_split(b, 0, enc_u64(ts.len() as u64), enc_timer_list(ts));
    lemma_read_u64_inv(b, 0, ts.len() as u64);
    lemma_read_timer_list_inv(b, 0 + enc_u64(ts.len() as u64).len() as int, ts);
}

} // verus!
