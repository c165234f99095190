//! Sizing of worker thread pools: half the available CPUs, at least one,
//! unless a configured value overrides it.
use vstd::prelude::*;

verus! {

/// The value of a run of decimal digits.
pub open spec fn decimal_value(d: Seq<char>) -> nat
    decreases d.len(),
{
    if d.len() == 0 {
        0
    } else {
        decimal_value(d.drop_last()) * 10 + ((d.last() as u32) - ('0' as u32)) as nat
    }
}

/// What `str::parse::<usize>` makes of a string: an optional `+`, then one
/// or more ASCII digits whose value fits in a `usize`; nothing otherwise.
pub open spec fn parsed_usize(s: Seq<char>) -> Option<usize> {
    let d = if s.len() > 0 && s[0] == '+' { s.drop_first() } else { s };
    if d.len() > 0 && (forall|i: int| 0 <= i < d.len() ==> '0' <= #[trigger] d[i] <= '9')
        && decimal_value(d) <= usize::MAX {
        Some(decimal_value(d) as usize)
    } else {
        None
    }
}

/// Relies on `str::parse::<usize>` (`usize::from_str_radix` in base 10),
/// whose documentation gives the accepted form and an error on overflow.
#[verifier::external_body]
fn parse_usize(s: &str) -> (r: Option<usize>)
    ensures
        r == parsed_usize(s@),
{
    s.parse::<usize>().ok()
}

/// Relies on `num_cpus::get`: the number of CPUs this process may use,
/// documented to be at least one. It depends on the machine, so nothing
/// more is stated of it.
#[verifier::external_body]
fn available_cpus() -> (r: usize)
    ensures
        r >= 1,
{
    num_cpus::get()
}

/// The thread count for a configured value (if any) and a CPU count.
pub open spec fn thread_count_spec(configured: Option<usize>, cpus: usize) -> usize {
    let base: usize = match configured {
        Some(n) => n,
        None => (cpus / 2) as usize,
    };
    if base < 1 { 1 } else { base }
}

/// Picks the thread count: the configured value, else half of `cpus`,
/// raised to one where it would be zero.
pub fn resolve_thread_count(configured: Option<usize>, cpus: usize) -> (r: usize)
    ensures
        r == thread_count_spec(configured, cpus),
        r >= 1,
{
    let base: usize = match configured {
        Some(n) => n,
        None => cpus / 2,
    };
    if base < 1 {
        1
    } else {
        base
    }
}

/// The number that the override setting's text gives, if any.
pub open spec fn configured_threads(configured: Option<&str>) -> Option<usize> {
    match configured {
        Some(s) => parsed_usize(s@),
        None => None,
    }
}

/// Whether `t` is a thread count for the setting `configured`: the
/// configured number (at least one), else half of some CPU count (at least one).
pub open spec fn thread_count_allowed(configured: Option<&str>, t: usize) -> bool {
    match configured_threads(configured) {
        Some(n) => t == thread_count_spec(Some(n), 0),
        None => exists|c: usize| c >= 1 && t == thread_count_spec(None, c),
    }
}

/// Twice `t`, saturating at the largest `usize`.
pub open spec fn doubled_spec(t: usize) -> usize {
    if 2 * t > usize::MAX { usize::MAX } else { (2 * t) as usize }
}

/// The thread count, where `configured` is the text of the override
/// setting when one is set. Text that is not a number is ignored.
pub fn get_thread_count(configured: Option<&str>) -> (r: usize)
    ensures
        r >= 1,
        thread_count_allowed(configured, r),
{
    let parsed: Option<usize> = match configured {
        Some(s) => parse_usize(s),
        None => None,
    };
    match parsed {
        Some(n) => resolve_thread_count(Some(n), 0),
        None => {
            let cpus = available_cpus();
            resolve_thread_count(None, cpus)
        },
    }
}

/// Twice a thread count, saturating at the largest `usize`.
pub fn doubled_thread_count(t: usize) -> (r: usize)
    ensures
        r == doubled_spec(t),
{
    if t > usize::MAX / 2 {
        usize::MAX
    } else {
        2 * t
    }
}

/// Twice the thread count, saturating at the largest `usize`.
pub fn get_max_thread_count(configured: Option<&str>) -> (r: usize)
    ensures
        r >= 2,
        exists|t: usize| thread_count_allowed(configured, t) && r == doubled_spec(t),
{
    let t = get_thread_count(configured);
    doubled_thread_count(t)
}

} // verus!
