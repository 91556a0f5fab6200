//! CPU load: how many thousandths of a core each burner thread spins.
use vstd::prelude::*;

verus! {

/// The CPU budget in thousandths of a core: `cores * max% * duty%`, at most
/// every core in full, none when not allowed. (`as u32` cuts like the cast.)
pub open spec fn target_units(allowed: bool, cores: u64, max_percent: u8, duty_percent: u8) -> u32 {
    if allowed {
        let want = cores * max_percent * duty_percent * 10 / 100;
        let cap = cores * 1000;
        (if want < cap {
            want
        } else {
            cap
        }) as u32
    } else {
        0
    }
}

/// The products fit in 64 bits.
pub open spec fn target_units_fit(allowed: bool, cores: u64, max_percent: u8, duty_percent: u8) -> bool {
    allowed ==> cores * max_percent <= u64::MAX && cores * max_percent * duty_percent * 10
        <= u64::MAX && cores * 1000 <= u64::MAX
}

pub fn cpu_target_units(allowed: bool, cores: u64, max_percent: u8, duty_percent: u8) -> (units:
    u32)
    requires
        target_units_fit(allowed, cores, max_percent, duty_percent),
    ensures
        units == target_units(allowed, cores, max_percent, duty_percent),
{
    if allowed {
        assert(cores * max_percent * duty_percent <= u64::MAX) by (nonlinear_arith)
            requires
                cores * max_percent * duty_percent * 10 <= u64::MAX,
        ;
        let want = cores * (max_percent as u64) * (duty_percent as u64) * 10 / 100;
        let cap = cores * 1000;
        (if want < cap {
            want
        } else {
            cap
        }) as u32
    } else {
        0
    }
}

/// The share of thread `i`: a thousand units to each thread in turn until
/// the target is spent.
pub open spec fn share(target: u32, i: int) -> u32 {
    let left = target - 1000 * i;
    if left <= 0 {
        0
    } else if left >= 1000 {
        1000
    } else {
        left as u32
    }
}

/// The units handed to threads `0..n`.
pub open spec fn shares_total(target: u32, n: nat) -> nat
    decreases n,
{
    if n == 0 {
        0
    } else {
        shares_total(target, (n - 1) as nat) + share(target, n - 1) as nat
    }
}

/// Spreads `target_units` over the threads, a thousand each in turn.
pub fn apply_target_units(duties: &mut Vec<u32>, target_units: u32)
    ensures
        final(duties)@.len() == old(duties)@.len(),
        forall|i: int| 0 <= i < final(duties)@.len() ==> #[trigger] final(duties)@[i] == share(target_units, i),
{
    let n = duties.len();
    let mut remaining = target_units;
    let mut i: usize = 0;
    while i < n
        invariant
            i <= n,
            n == duties@.len(),
            remaining as int == (if target_units - 1000 * i > 0 {
                target_units - 1000 * i
            } else {
                0
            }),
            forall|k: int| 0 <= k < i ==> #[trigger] duties@[k] == share(target_units, k),
        decreases n - i,
    {
        let assigned = if remaining < 1000 {
            remaining
        } else {
            1000
        };
        duties.set(i, assigned);
        remaining = remaining - assigned;
        i = i + 1;
    }
}

/// The threads together get all of the target, up to a thousand each.
pub proof fn lemma_shares_add_up(target: u32, n: nat)
    ensures
        shares_total(target, n) == if target < 1000 * n {
            target as int
        } else {
            1000 * n as int
        },
    decreases n,
{
    if n > 0 {
        lemma_shares_add_up(target, (n - 1) as nat);
    }
}

/// Each thread gets at most a thousand units: a full core.
pub proof fn lemma_share_at_most_a_core(target: u32, i: int)
    ensures
        share(target, i) <= 1000,
{
}

/// The busy part, in milliseconds, of a burner's 100 ms cycle.
pub open spec fn busy_millis_of(units: u32) -> u64 {
    let d = if units < 1000 {
        units
    } else {
        1000
    };
    let busy = (100 * d / 1000) as u64;
    if busy < 100 {
        busy
    } else {
        100
    }
}

/// The busy part, in milliseconds, of a burner's 100 ms cycle at the given
/// units (thousandths of a core, at most a thousand counted).
pub fn busy_millis(units: u32) -> (ms: u64)
    ensures
        ms == busy_millis_of(units),
        ms <= 100,
{
    let d = if units < 1000 {
        units
    } else {
        1000
    };
    let busy = (100 * d / 1000) as u64;
    if busy < 100 {
        busy
    } else {
        100
    }
}

/// The CPU budget is the duty's share of the allowed share of every core, in
/// thousandths of a core, never more than all cores: none when not allowed;
/// `cores * max% * duty% / 10` when that stays below all cores and fits in
/// 32 bits; all cores at full duty with a maximum of 100%; and it never
/// shrinks as the duty grows.
pub proof fn lemma_cpu_budget(cores: u64, max_percent: u8, duty_percent: u8, more_duty: u8)
    ensures
        target_units(false, cores, max_percent, duty_percent) == 0,
        cores * max_percent * duty_percent / 10 < cores * 1000 && cores * max_percent * duty_percent
            / 10 <= u32::MAX ==> target_units(true, cores, max_percent, duty_percent) == cores
            * max_percent * duty_percent / 10,
        cores * 1000 <= u32::MAX ==> target_units(true, cores, 100, 100) == cores * 1000,
        cores * 1000 <= u32::MAX && duty_percent <= more_duty ==> target_units(
            true,
            cores,
            max_percent,
            duty_percent,
        ) <= target_units(true, cores, max_percent, more_duty),
{
    let cm = cores * max_percent;
    assert(cm >= 0) by (nonlinear_arith)
        requires
            cm == cores * max_percent,
            cores >= 0,
            max_percent >= 0,
    ;
    assert(cm * duty_percent * 10 / 100 == cm * duty_percent / 10) by (nonlinear_arith)
        requires
            cm >= 0,
            duty_percent >= 0,
    ;
    assert(cores * max_percent * duty_percent == cm * duty_percent) by (nonlinear_arith)
        requires
            cm == cores * max_percent,
    ;
    assert(cores * max_percent * more_duty == cm * more_duty) by (nonlinear_arith)
        requires
            cm == cores * max_percent,
    ;
    assert(cores * 100 * 100 * 10 / 100 == cores * 1000) by (nonlinear_arith)
        requires
            cores >= 0,
    ;
    assert(cm * more_duty * 10 / 100 == cm * more_duty / 10) by (nonlinear_arith)
        requires
            cm >= 0,
            more_duty >= 0,
    ;
    if duty_percent <= more_duty {
        assert(cm * duty_percent / 10 <= cm * more_duty / 10) by (nonlinear_arith)
            requires
                duty_percent <= more_duty,
                cm >= 0,
                duty_percent >= 0,
        ;
    }
}

/// A burner is busy for a tenth of its units in milliseconds of each 100 ms
/// cycle, and the whole cycle from a full core on.
pub proof fn lemma_busy_share(units: u32)
    ensures
        units < 1000 ==> busy_millis_of(units) == units / 10,
        units >= 1000 ==> busy_millis_of(units) == 100,
{
}

} // verus!
