use vstd::prelude::*;
use crate::decimal::{
    decimal_digits, i32_of, is_digit, lemma_decimal_digits, parse_i32, push_decimal, without_plus,
};

verus! {

/// Width of the right-aligned process identifier in a lock file.
pub const PID_WIDTH: usize = 10;

/// The lock on a numbered X display, held by this process. Dropping the
/// handle does not release the lock: the owner removes the lock file.
#[derive(Debug)]
pub struct X11Lock {
    display: u32,
}

impl X11Lock {
    pub closed spec fn spec_display(&self) -> u32 {
        self.display
    }

    /// The handle for `display`, once its lock file holds this process's text.
    pub fn held(display: u32) -> (r: X11Lock)
        ensures
            r.spec_display() == display,
    {
        X11Lock { display }
    }

    pub fn display(&self) -> (r: u32)
        ensures
            r == self.spec_display(),
    {
        self.display
    }
}

/// White space as `str::trim` sees it among ASCII bytes.
pub open spec fn is_space(b: u8) -> bool {
    b == 32 || (9 <= b <= 13)
}

/// The index of the first byte at or after `i` that is no white space.
pub open spec fn skip_spaces(s: Seq<u8>, i: int) -> int
    decreases s.len() - i,
{
    if 0 <= i < s.len() && is_space(s[i]) {
        skip_spaces(s, i + 1)
    } else {
        i
    }
}

/// The end of `s[lo..j]` once white space at its end is taken off.
pub open spec fn trim_end(s: Seq<u8>, lo: int, j: int) -> int
    decreases j - lo,
{
    if lo < j && j <= s.len() && is_space(s[j - 1]) {
        trim_end(s, lo, j - 1)
    } else {
        j
    }
}

/// `s` without white space at either end.
pub open spec fn trimmed(s: Seq<u8>) -> Seq<u8> {
    let lo = skip_spaces(s, 0);
    s.subrange(lo, trim_end(s, lo, s.len() as int))
}

/// The process identifier that a lock file's text names, if it names one.
pub open spec fn lock_holder(content: Seq<u8>) -> Option<i32> {
    i32_of(trimmed(content))
}

/// Number of spaces that right-align `n` in the identifier field.
pub open spec fn pad_len(n: nat) -> nat {
    if decimal_digits(n).len() < PID_WIDTH {
        (PID_WIDTH - decimal_digits(n).len()) as nat
    } else {
        0
    }
}

/// The text a holder writes into its lock file: its identifier right-aligned
/// in ten columns, then a newline.
pub open spec fn lock_text(pid: nat) -> Seq<u8> {
    Seq::new(pad_len(pid), |i: int| 32u8) + decimal_digits(pid) + seq![10u8]
}

/// The lock file's text for process `pid`.
pub fn lock_file_text(pid: u32) -> (r: Vec<u8>)
    ensures
        r@ == lock_text(pid as nat),
{
    let mut digits: Vec<u8> = Vec::new();
    push_decimal(&mut digits, pid);
    assert(digits@ =~= decimal_digits(pid as nat));
    let mut r: Vec<u8> = Vec::new();
    let pad: usize = if digits.len() < PID_WIDTH {
        PID_WIDTH - digits.len()
    } else {
        0
    };
    let mut i: usize = 0;
    while i < pad
        invariant
            i <= pad,
            pad == pad_len(pid as nat),
            r@ =~= Seq::new(i as nat, |k: int| 32u8),
        decreases pad - i,
    {
        r.push(32u8);
        i = i + 1;
    }
    let mut j: usize = 0;
    while j < digits.len()
        invariant
            j <= digits@.len(),
            digits@ == decimal_digits(pid as nat),
            r@ =~= Seq::new(pad as nat, |k: int| 32u8) + digits@.take(j as int),
        decreases digits@.len() - j,
    {
        r.push(digits[j]);
        j = j + 1;
    }
    r.push(10u8);
    assert(digits@.take(j as int) =~= digits@);
    r
}

/// Reads the holder's process identifier out of a lock file's text.
pub fn parse_lock_holder(content: &[u8]) -> (r: Option<i32>)
    ensures
        r == lock_holder(content@),
{
    let mut lo: usize = 0;
    while lo < content.len() && (content[lo] == 32 || (9 <= content[lo] && content[lo] <= 13))
        invariant
            lo <= content@.len(),
            skip_spaces(content@, lo as int) == skip_spaces(content@, 0),
        decreases content@.len() - lo,
    {
        lo = lo + 1;
    }
    let mut hi: usize = content.len();
    while hi > lo && (content[hi - 1] == 32 || (9 <= content[hi - 1] && content[hi - 1] <= 13))
        invariant
            lo <= hi <= content@.len(),
            lo as int == skip_spaces(content@, 0),
            trim_end(content@, lo as int, hi as int) == trim_end(
                content@,
                lo as int,
                content@.len() as int,
            ),
        decreases hi - lo,
    {
        hi = hi - 1;
    }
    parse_i32(content, lo, hi)
}

/// What a liveness probe of the recorded holder found.
#[derive(Clone, Copy, Debug, PartialEq, Eq, Structural)]
pub enum ProbeResult {
    /// The process exists and can be signalled.
    Alive,
    /// There is no such process.
    NoSuchProcess,
    /// The process has exited and awaits reaping.
    Zombie,
    /// The probe failed for another reason (for instance, no permission).
    Failed,
}

/// Whether the recorded holder may still hold the display. A lock file that
/// names no process has no live holder; a failed probe counts as alive,
/// since only a missing or exited process is certainly gone.
pub open spec fn spec_holder_alive(probe: Option<ProbeResult>) -> bool {
    match probe {
        Some(ProbeResult::Alive) | Some(ProbeResult::Failed) => true,
        _ => false,
    }
}

pub fn holder_alive(probe: Option<ProbeResult>) -> (r: bool)
    ensures
        r == spec_holder_alive(probe),
{
    match probe {
        Some(ProbeResult::Alive) | Some(ProbeResult::Failed) => true,
        _ => false,
    }
}

/// What to do when the lock file of the display exists already.
#[derive(Clone, Copy, Debug, PartialEq, Eq, Structural)]
pub enum LockDecision {
    /// A live holder has the display and the caller does not force: fail.
    Conflict,
    /// Remove the lock file and try to create it again.
    Reclaim,
}

/// The decision on an existing lock file, given the probe of the holder it
/// names (`None` when it names none).
pub open spec fn spec_existing_lock(force: bool, probe: Option<ProbeResult>) -> LockDecision {
    if spec_holder_alive(probe) && !force {
        LockDecision::Conflict
    } else {
        LockDecision::Reclaim
    }
}

/// Decides on an existing lock file: a live holder wins unless the caller
/// forces; a gone holder's file is reclaimed.
pub fn on_existing_lock(force: bool, probe: Option<ProbeResult>) -> (r: LockDecision)
    ensures
        r == spec_existing_lock(force, probe),
        force ==> r == LockDecision::Reclaim,
        r == LockDecision::Conflict <==> (!force && spec_holder_alive(probe)),
{
    if holder_alive(probe) && !force {
        LockDecision::Conflict
    } else {
        LockDecision::Reclaim
    }
}

proof fn lemma_skip_padding(t: Seq<u8>, p: int, i: int)
    requires
        0 <= i <= p < t.len(),
        forall|k: int| 0 <= k < p ==> is_space(#[trigger] t[k]),
        !is_space(t[p]),
    ensures
        skip_spaces(t, i) == p,
    decreases p - i,
{
    if i < p {
        lemma_skip_padding(t, p, i + 1);
    }
}

/// The text a holder writes names that holder again when it is read back.
pub proof fn lemma_lock_text_round_trip(pid: u32)
    requires
        pid <= i32::MAX,
    ensures
        lock_holder(lock_text(pid as nat)) == Some(pid as i32),
{
    let n = pid as nat;
    let d = decimal_digits(n);
    lemma_decimal_digits(n);
    let t = lock_text(n);
    let p = pad_len(n) as int;
    let e = t.len() as int;
    assert(e == p + d.len() + 1);
    assert(forall|k: int| 0 <= k < p ==> t[k] == 32u8);
    assert(t[p] == d[0]);
    assert(is_digit(d[0]));
    lemma_skip_padding(t, p, 0);
    assert(t[e - 1] == 10u8);
    assert(t[e - 2] == d[d.len() - 1]);
    assert(is_digit(d[d.len() - 1]));
    assert(trim_end(t, p, e - 1) == e - 1);
    assert(trim_end(t, p, e) == e - 1);
    assert(trimmed(t) =~= d);
    assert(without_plus(d) == d);
}

} // verus!
