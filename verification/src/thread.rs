//! Which processor cores are busy.
//!
//! The kernel keeps one 16-bit word for all cores; bit `i` is set while core
//! `i` is busy. The word changes by compare-and-exchange only, so every
//! change is one of the steps below applied to the value that the word held
//! at that moment.

use vstd::prelude::*;

verus! {

/// The number of bits in the word: cores beyond it cannot be claimed.
pub const CORES: usize = 16;

/// The word when the kernel starts: core 0 runs the kernel, cores 1 and 2
/// are free, and there are no others.
pub const BOOT_CPUS: u16 = 0xfff9;

/// The word with every core busy.
pub const ALL_BUSY: u16 = 0xffff;

/// Machine words in the stack of a core that is started.
pub const STACK_WORDS: usize = 1024;

/// Core `core` is busy in `used`.
pub open spec fn busy(used: u16, core: int) -> bool {
    (used >> (core as u16)) & 1 == 1
}

/// The number of free cores below `n`.
pub open spec fn free_below(used: u16, n: nat) -> nat
    decreases n,
{
    if n == 0 {
        0
    } else {
        free_below(used, (n - 1) as nat) + if busy(used, n - 1) {
            0nat
        } else {
            1nat
        }
    }
}

/// The number of free cores.
pub open spec fn free_count(used: u16) -> nat {
    free_below(used, CORES as nat)
}

/// The word `used` with core `core` marked busy.
pub open spec fn with_busy(used: u16, core: int) -> u16 {
    used | (1u16 << (core as u16))
}

/// The word `used` with core `core` marked free.
pub open spec fn with_free(used: u16, core: int) -> u16 {
    used & !(1u16 << (core as u16))
}

/// The lowest free core of `used`, looked for from `from` on.
pub open spec fn lowest_free(used: u16, from: int) -> Option<int>
    decreases CORES - from,
{
    if from < 0 || from >= CORES {
        None
    } else if !busy(used, from) {
        Some(from)
    } else {
        lowest_free(used, from + 1)
    }
}

/// Marking a core changes that core's bit and no other.
pub proof fn lemma_mark(used: u16, core: int, other: int)
    requires
        0 <= core < CORES,
        0 <= other < CORES,
    ensures
        busy(with_busy(used, core), other) == (other == core || busy(used, other)),
        busy(with_free(used, core), other) == (other != core && busy(used, other)),
{
    let c = core as u16;
    let o = other as u16;
    assert(((used | (1u16 << c)) >> o) & 1 == 1 <==> (o == c || (used >> o) & 1 == 1))
        by (bit_vector)
        requires
            c < 16,
            o < 16,
    ;
    assert(((used & !(1u16 << c)) >> o) & 1 == 1 <==> (o != c && (used >> o) & 1 == 1))
        by (bit_vector)
        requires
            c < 16,
            o < 16,
    ;
}

/// What a caller that wants a core does with the value it loaded from the
/// word, or got back from a failed exchange.
#[derive(Clone, Copy, Debug, PartialEq, Eq, Structural)]
pub enum SpawnStep {
    /// Every core is busy: load the word again.
    Wait,
    /// Exchange `current` for `new` in the word. Where that succeeds, core
    /// `core` is the caller's; where it fails, take this step again with the
    /// value found.
    Exchange { core: usize, current: u16, new: u16 },
}

/// The lowest free core of `used` and the word with that core marked busy;
/// `None` where every core is busy.
pub fn claim(used: u16) -> (r: Option<(usize, u16)>)
    ensures
        match r {
            Some((core, new)) => lowest_free(used, 0) == Some(core as int) && core < CORES
                && new == with_busy(used, core as int),
            None => lowest_free(used, 0) is None,
        },
{
    let mut core: usize = 0;
    while core < CORES
        invariant
            core <= CORES,
            lowest_free(used, core as int) == lowest_free(used, 0),
        decreases CORES - core,
    {
        if (used >> (core as u16)) & 1 != 1 {
            return Some((core, used | (1u16 << (core as u16))));
        }
        core = core + 1;
    }
    None
}

/// The step of a caller that wants a core and has seen `used` in the word.
pub fn spawn(used: u16) -> (r: SpawnStep)
    ensures
        r == match lowest_free(used, 0) {
            Some(core) => SpawnStep::Exchange {
                core: core as usize,
                current: used,
                new: with_busy(used, core),
            },
            None => SpawnStep::Wait,
        },
{
    match claim(used) {
        Some((core, new)) => SpawnStep::Exchange { core, current: used, new },
        None => SpawnStep::Wait,
    }
}

/// The word `used` with core `core` marked free: what a core that is done
/// exchanges for `used`. A core beyond the word changes nothing.
pub fn release(used: u16, core: usize) -> (r: u16)
    ensures
        r == if core < CORES {
            with_free(used, core as int)
        } else {
            used
        },
{
    if core < CORES {
        used & !(1u16 << (core as u16))
    } else {
        used
    }
}

/// The core that is granted is free before and busy after, it is the lowest
/// such, and no other core changes.
pub proof fn lemma_claim_marks_one(used: u16)
    ensures
        match lowest_free(used, 0) {
            Some(core) => 0 <= core < CORES && !busy(used, core) && busy(
                with_busy(used, core),
                core,
            ) && (forall|c: int| 0 <= c < core ==> busy(used, c)) && (forall|c: int|
                0 <= c < CORES && c != core ==> busy(with_busy(used, core), c) == busy(used, c)),
            None => forall|c: int| 0 <= c < CORES ==> busy(used, c),
        },
{
    lemma_lowest_free(used, 0);
    if let Some(core) = lowest_free(used, 0) {
        assert forall|c: int| 0 <= c < CORES implies busy(with_busy(used, core), c) == (c == core
            || busy(used, c)) by {
            lemma_mark(used, core, c);
        }
    }
}

proof fn lemma_lowest_free(used: u16, from: int)
    requires
        0 <= from <= CORES,
    ensures
        match lowest_free(used, from) {
            Some(core) => from <= core < CORES && !busy(used, core) && forall|c: int|
                from <= c < core ==> busy(used, c),
            None => forall|c: int| from <= c < CORES ==> busy(used, c),
        },
    decreases CORES - from,
{
    if from < CORES && busy(used, from) {
        lemma_lowest_free(used, from + 1);
    }
}

proof fn lemma_free_below_mark(used: u16, core: int, n: nat)
    requires
        0 <= core < CORES,
        n <= CORES,
        !busy(used, core),
    ensures
        free_below(with_busy(used, core), n) == free_below(used, n) - if core < n {
            1int
        } else {
            0int
        },
    decreases n,
{
    if n > 0 {
        lemma_free_below_mark(used, core, (n - 1) as nat);
        lemma_mark(used, core, n - 1);
    }
}

proof fn lemma_free_below_none(used: u16, n: nat)
    requires
        n <= CORES,
        forall|c: int| 0 <= c < CORES ==> busy(used, c),
    ensures
        free_below(used, n) == 0,
    decreases n,
{
    if n > 0 {
        lemma_free_below_none(used, (n - 1) as nat);
    }
}

proof fn lemma_free_below_some(used: u16, core: int, n: nat)
    requires
        0 <= core < n <= CORES,
        !busy(used, core),
    ensures
        free_below(used, n) > 0,
    decreases n,
{
    if n - 1 > core {
        lemma_free_below_some(used, core, (n - 1) as nat);
    }
}

/// The word after `k` callers in a row were served, each one that found a
/// free core taking the lowest.
pub open spec fn after_claims(used: u16, k: nat) -> u16
    decreases k,
{
    if k == 0 {
        used
    } else {
        let before = after_claims(used, (k - 1) as nat);
        match lowest_free(before, 0) {
            Some(core) => with_busy(before, core),
            None => before,
        }
    }
}

/// The core granted to caller `k` of a row of callers, counted from 0.
pub open spec fn granted(used: u16, k: nat) -> Option<int> {
    lowest_free(after_claims(used, k), 0)
}

proof fn lemma_after_claims(used: u16, k: nat)
    ensures
        free_count(after_claims(used, k)) == if k <= free_count(used) {
            free_count(used) - k
        } else {
            0
        },
        forall|c: int| 0 <= c < CORES && busy(used, c) ==> busy(after_claims(used, k), c),
    decreases k,
{
    if k > 0 {
        lemma_after_claims(used, (k - 1) as nat);
        let before = after_claims(used, (k - 1) as nat);
        lemma_claim_marks_one(before);
        match lowest_free(before, 0) {
            Some(core) => {
                lemma_free_below_mark(before, core, CORES as nat);
                lemma_free_below_some(before, core, CORES as nat);
            },
            None => {
                lemma_free_below_none(before, CORES as nat);
            },
        }
    }
}

/// No core is granted twice: of callers served in a row, with no core
/// given back in between, no two get the same core.
pub proof fn lemma_grants_differ(used: u16, i: nat, j: nat)
    requires
        i < j,
        granted(used, i) is Some,
        granted(used, j) is Some,
    ensures
        granted(used, i) != granted(used, j),
{
    let core = granted(used, i)->0;
    lemma_claim_marks_one(after_claims(used, i));
    lemma_claim_marks_one(after_claims(used, j));
    lemma_stays_busy(after_claims(used, (i + 1) as nat), core, (j - i - 1) as nat);
    lemma_after_claims_add(used, (i + 1) as nat, (j - i - 1) as nat);
}

proof fn lemma_after_claims_add(used: u16, a: nat, b: nat)
    ensures
        after_claims(after_claims(used, a), b) == after_claims(used, a + b),
    decreases b,
{
    if b > 0 {
        lemma_after_claims_add(used, a, (b - 1) as nat);
    }
}

proof fn lemma_stays_busy(used: u16, core: int, k: nat)
    requires
        0 <= core < CORES,
        busy(used, core),
    ensures
        busy(after_claims(used, k), core),
{
    lemma_after_claims(used, k);
}

/// With `m` cores free, exactly the first `m` callers in a row get a core;
/// every later one has to wait.
pub proof fn lemma_grants_are_bounded(used: u16, k: nat)
    ensures
        granted(used, k) is Some <==> k < free_count(used),
{
    lemma_after_claims(used, k);
    let now = after_claims(used, k);
    lemma_claim_marks_one(now);
    match lowest_free(now, 0) {
        Some(core) => {
            lemma_free_below_some(now, core, CORES as nat);
        },
        None => {
            lemma_free_below_none(now, CORES as nat);
        },
    }
}

} // verus!
