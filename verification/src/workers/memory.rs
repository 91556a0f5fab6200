//! Memory load: the size of the held buffer, and keeping its pages resident.
use vstd::prelude::*;

use crate::text::{chars_of, line_bounds, lines, parse_decimal, parse_unsigned, pieces_are,
    slice_starts_with, starts_with, word_bounds, words};

verus! {

pub open spec fn saturating_mul(a: u64, b: u64) -> u64 {
    if a * b > u64::MAX {
        u64::MAX
    } else {
        (a * b) as u64
    }
}

/// The buffer size: `total * max% * duty% / 10000` (products saturating),
/// none when not allowed or the total is unknown. (`as usize` cuts like the
/// cast.)
pub open spec fn target_size(allowed: bool, total: u64, max_percent: u8, duty_percent: u8) -> usize {
    (if allowed && total > 0 {
        saturating_mul(saturating_mul(total, max_percent as u64), duty_percent as u64) / 10_000
    } else {
        0
    }) as usize
}

fn sat_mul(a: u64, b: u64) -> (r: u64)
    ensures
        r == saturating_mul(a, b),
{
    match a.checked_mul(b) {
        Some(v) => v,
        None => u64::MAX,
    }
}

pub fn memory_target_size(allowed: bool, total: u64, max_percent: u8, duty_percent: u8) -> (size:
    usize)
    ensures
        size == target_size(allowed, total, max_percent, duty_percent),
{
    (if allowed && total > 0 {
        sat_mul(sat_mul(total, max_percent as u64), duty_percent as u64) / 10_000
    } else {
        0
    }) as usize
}

/// The buffer is the duty's share of the allowed share of memory: when
/// allowed, with the total known and the product `total * max% * duty%`
/// within 64 bits, it is `total * max% * duty% / 10000` bytes (as far as a
/// `usize` holds it); when not allowed or the total is unknown it is empty;
/// and it never shrinks as the duty grows.
pub proof fn lemma_buffer_share(total: u64, max_percent: u8, duty_percent: u8, more_duty: u8)
    ensures
        total > 0 && total * max_percent * duty_percent <= u64::MAX && total * max_percent
            * duty_percent / 10_000 <= usize::MAX ==> target_size(
            true,
            total,
            max_percent,
            duty_percent,
        ) == total * max_percent * duty_percent / 10_000,
        target_size(false, total, max_percent, duty_percent) == 0,
        target_size(true, 0, max_percent, duty_percent) == 0,
        total * max_percent * more_duty <= u64::MAX && total * max_percent * more_duty / 10_000
            <= usize::MAX && duty_percent <= more_duty ==> target_size(
            true,
            total,
            max_percent,
            duty_percent,
        ) <= target_size(true, total, max_percent, more_duty),
{
    let tm = total * max_percent;
    assert(tm * duty_percent == total * max_percent * duty_percent) by (nonlinear_arith)
        requires
            tm == total * max_percent,
    ;
    assert(tm * more_duty == total * max_percent * more_duty) by (nonlinear_arith)
        requires
            tm == total * max_percent,
    ;
    assert(tm >= 0) by (nonlinear_arith)
        requires
            tm == total * max_percent,
            total >= 0,
            max_percent >= 0,
    ;
    if duty_percent > 0 && total * max_percent * duty_percent <= u64::MAX {
        assert(tm <= tm * duty_percent) by (nonlinear_arith)
            requires
                duty_percent >= 1,
                tm >= 0,
        ;
        assert(saturating_mul(total, max_percent as u64) == tm);
        assert(saturating_mul(tm as u64, duty_percent as u64) == tm * duty_percent);
    }
    if duty_percent == 0 {
        let x = saturating_mul(total, max_percent as u64);
        assert(x * 0 == 0);
        assert(saturating_mul(x, 0) == 0);
        assert(total * max_percent * duty_percent == 0) by (nonlinear_arith)
            requires
                duty_percent == 0,
        ;
    }
    if more_duty > 0 && total * max_percent * more_duty <= u64::MAX {
        assert(tm <= tm * more_duty) by (nonlinear_arith)
            requires
                more_duty >= 1,
                tm >= 0,
        ;
    }
    if duty_percent <= more_duty {
        assert(tm * duty_percent <= tm * more_duty) by (nonlinear_arith)
            requires
                duty_percent <= more_duty,
                tm >= 0,
        ;
        assert(tm * duty_percent / 10_000 <= tm * more_duty / 10_000) by (nonlinear_arith)
            requires
                tm * duty_percent <= tm * more_duty,
                tm * duty_percent >= 0,
        ;
    }
}

pub open spec fn page_touched(b: u8) -> u8 {
    if b == 255 {
        0
    } else {
        (b + 1) as u8
    }
}

/// The first byte of every 4 KiB page bumped by one (wrapping), so that the
/// pages stay resident.
pub open spec fn touched(s: Seq<u8>) -> Seq<u8> {
    Seq::new(
        s.len(),
        |i: int|
            if i % 4096 == 0 {
                page_touched(s[i])
            } else {
                s[i]
            },
    )
}

/// Bumps the first byte of every 4 KiB page.
pub fn touch_buffer(buffer: &mut Vec<u8>)
    ensures
        final(buffer)@ == touched(old(buffer)@),
{
    let ghost orig = buffer@;
    let len = buffer.len();
    if len == 0 {
        assert(buffer@ =~= touched(orig));
        return ;
    }
    let mut index: usize = 0;
    loop
        invariant_except_break
            forall|k: int| 0 <= k < index ==> #[trigger] buffer@[k] == touched(orig)[k],
            forall|k: int| index <= k < len ==> #[trigger] buffer@[k] == orig[k],
        invariant
            len == buffer@.len(),
            len == orig.len(),
            index < len,
            index % 4096 == 0,
        ensures
            buffer@ =~= touched(orig),
        decreases len - index,
    {
        let b = buffer[index];
        buffer.set(index, b.wrapping_add(1));
        if len - index <= 4096 {
            assert forall|k: int| index < k < len implies buffer@[k] == touched(orig)[k] by {
                assert(k % 4096 != 0);
            }
            break ;
        }
        assert forall|k: int| index < k < index + 4096 implies buffer@[k] == touched(orig)[k] by {
            assert(k % 4096 != 0);
        }
        index = index + 4096;
    }
}

/// The buffer after resizing to `target`: emptied for zero, grown with
/// zeros and then touched, or cut.
pub open spec fn resized(s: Seq<u8>, target: usize) -> Seq<u8> {
    if target == 0 {
        Seq::empty()
    } else if s.len() < target {
        touched(s + Seq::new((target - s.len()) as nat, |i: int| 0u8))
    } else if s.len() > target {
        s.subrange(0, target as int)
    } else {
        s
    }
}

/// `Vec::shrink_to`: lowers the capacity; the contents stay as they are.
#[verifier::external_body]
fn shrink_to(buffer: &mut Vec<u8>, min_capacity: usize)
    ensures
        final(buffer)@ == old(buffer)@,
{
    buffer.shrink_to(min_capacity);
}

/// Grows or shrinks the buffer to `target_size` bytes, releasing the memory
/// it no longer needs.
pub fn resize_buffer(buffer: &mut Vec<u8>, target_size: usize)
    ensures
        final(buffer)@ == resized(old(buffer)@, target_size),
        final(buffer)@.len() == target_size,
{
    let ghost orig = buffer@;
    if target_size == 0 {
        buffer.clear();
        shrink_to(buffer, 0);
        assert(buffer@ =~= resized(orig, target_size));
        return ;
    }
    if buffer.len() < target_size {
        buffer.resize(target_size, 0);
        assert(buffer@ =~= orig + Seq::new((target_size - orig.len()) as nat, |i: int| 0u8)) by {
            assert forall|i: int| orig.len() <= i < target_size implies buffer@[i] == 0u8 by {
                assert(cloned::<u8>(0u8, buffer@[i]));
            }
            assert forall|i: int| 0 <= i < orig.len() implies buffer@[i] == orig[i] by {
                assert(buffer@.subrange(0, orig.len() as int)[i] == buffer@[i]);
            }
        }
        touch_buffer(buffer);
    } else if buffer.len() > target_size {
        buffer.truncate(target_size);
        shrink_to(buffer, target_size);
    }
}

/// The `MemTotal` of `/proc/meminfo`, in KiB: the second column of the
/// first line that starts with `MemTotal:`.
pub open spec fn mem_total_kib_of(content: Seq<char>) -> Option<nat> {
    match first_line_with(lines(content), "MemTotal:"@, 0) {
        None => None,
        Some(l) => {
            let ws = words(l);
            if ws.len() < 2 {
                None
            } else {
                parse_unsigned(ws[1], u64::MAX as nat)
            }
        },
    }
}

/// The first line from index `i` on that starts with `p`.
pub open spec fn first_line_with(ls: Seq<Seq<char>>, p: Seq<char>, i: int) -> Option<Seq<char>>
    decreases ls.len() - i,
{
    if i < 0 || i >= ls.len() {
        None
    } else if starts_with(ls[i], p) {
        Some(ls[i])
    } else {
        first_line_with(ls, p, i + 1)
    }
}

/// Reads the total memory, in KiB, from `/proc/meminfo` content.
pub fn mem_total_kib(content: &str) -> (r: Option<u64>)
    ensures
        match mem_total_kib_of(content@) {
            Some(k) => r == Some(k as u64),
            None => r is None,
        },
{
    let s = chars_of(content);
    let lb = line_bounds(&s);
    let ghost ls = lines(s@);
    let mut i: usize = 0;
    while i < lb.len()
        invariant
            ls == lines(s@),
            s@ == content@,
            pieces_are(s@, lb@, ls),
            i <= lb@.len(),
            first_line_with(ls, "MemTotal:"@, 0) == first_line_with(ls, "MemTotal:"@, i as int),
        decreases lb@.len() - i,
    {
        let (a, b) = lb[i];
        assert(lb@[i as int] == (a, b));
        let line = &s[a..b];
        if slice_starts_with(line, "MemTotal:") {
            let wb = word_bounds(line);
            if wb.len() < 2 {
                return None;
            }
            let (wa, wz) = wb[1];
            assert(wb@[1] == (wa, wz));
            return parse_decimal(line, wa, wz, u64::MAX);
        }
        i = i + 1;
    }
    None
}

/// KiB to bytes.
pub fn kib_to_bytes(kib: u64) -> (bytes: u64)
    requires
        kib * 1024 <= u64::MAX,
    ensures
        bytes == kib * 1024,
{
    kib * 1024
}

} // verus!
