//! The ways of reading an entry's type and length, and the choice among
//! them, made once before the scan starts.

use vstd::prelude::*;
use crate::objects::Config;
use crate::worker::EntryKind;

verus! {

/// A way of reading an entry's type and length.
#[derive(Clone, Copy, Debug, PartialEq, Eq, Structural)]
pub enum Strategy {
    /// One portable metadata call for each entry.
    Standard,
    /// The platform's extended metadata call.
    FastExtended,
    /// An external helper that reports the size of a file.
    ExternalShortcut,
}

/// Whether an entry of the sample is known to be a regular file.
pub open spec fn is_regular(kind: Option<EntryKind>) -> bool {
    kind == Some(EntryKind::RegularFile)
}

/// The entry on which the fast way is tried: the first regular file of the
/// root directory. Directories, other entries and entries whose type could
/// not be read are passed over.
pub fn probe_target(kinds: &Vec<Option<EntryKind>>) -> (target: Option<usize>)
    ensures
        match target {
            Some(i) => i < kinds.len() && is_regular(kinds[i as int]) && forall|j: int|
                0 <= j < i ==> !is_regular(#[trigger] kinds[j]),
            None => forall|j: int| 0 <= j < kinds.len() ==> !is_regular(#[trigger] kinds[j]),
        },
{
    let mut i: usize = 0;
    while i < kinds.len()
        invariant
            i <= kinds.len(),
            forall|j: int| 0 <= j < i ==> !is_regular(#[trigger] kinds[j]),
        decreases kinds.len() - i,
    {
        match kinds[i] {
            Some(EntryKind::RegularFile) => {
                return Some(i);
            },
            _ => {},
        }
        i += 1;
    }
    None
}

/// Whether the fast way may be used: it is not switched off, and the trial
/// on the sample entry succeeded. `probe` is `None` where there was no entry
/// to try it on.
pub open spec fn fast_allowed(conf: Config, probe: Option<bool>) -> bool {
    !conf.prevent_statx && probe == Some(true)
}

/// Decides whether the fast way may be used.
pub fn statx_supported(conf: &Config, probe: Option<bool>) -> (ok: bool)
    ensures
        ok == fast_allowed(*conf, probe),
{
    if conf.prevent_statx {
        return false;
    }
    match probe {
        Some(passed) => passed,
        None => false,
    }
}

/// The way of reading metadata for a scan: the external helper where it is
/// asked for, else the fast way where it may be used, else the standard one.
pub open spec fn strategy_for(conf: Config, probe: Option<bool>) -> Strategy {
    if conf.external_shortcut {
        Strategy::ExternalShortcut
    } else if fast_allowed(conf, probe) {
        Strategy::FastExtended
    } else {
        Strategy::Standard
    }
}

/// Chooses the way of reading metadata for a scan.
pub fn select_strategy(conf: &Config, probe: Option<bool>) -> (s: Strategy)
    ensures
        s == strategy_for(*conf, probe),
{
    if conf.external_shortcut {
        Strategy::ExternalShortcut
    } else if statx_supported(conf, probe) {
        Strategy::FastExtended
    } else {
        Strategy::Standard
    }
}

/// A scan whose trial of the fast way failed reads metadata as a scan does
/// for which the fast way is switched off.
pub proof fn law_failed_probe_falls_back(conf: Config, off: Config, probe: Option<bool>)
    requires
        probe != Some(true),
        off.prevent_statx,
        off.external_shortcut == conf.external_shortcut,
    ensures
        strategy_for(conf, probe) == strategy_for(off, probe),
        strategy_for(conf, probe) == strategy_for(off, Some(true)),
        !conf.external_shortcut ==> strategy_for(conf, probe) == Strategy::Standard,
{
}

/// Space, tab, line feed or carriage return.
pub open spec fn is_space(b: u8) -> bool {
    b == 32 || b == 9 || b == 10 || b == 13
}

/// One of the bytes `0` to `9`.
pub open spec fn is_digit_byte(b: u8) -> bool {
    48 <= b && b <= 57
}

/// `s` without the spaces at its start.
pub open spec fn skip_spaces(s: Seq<u8>) -> Seq<u8>
    decreases s.len(),
{
    if s.len() > 0 && is_space(s[0]) {
        skip_spaces(s.drop_first())
    } else {
        s
    }
}

/// `s` without the spaces at its end.
pub open spec fn drop_spaces(s: Seq<u8>) -> Seq<u8>
    decreases s.len(),
{
    if s.len() > 0 && is_space(s.last()) {
        drop_spaces(s.drop_last())
    } else {
        s
    }
}

/// Every byte of `s` is a digit.
pub open spec fn all_digits(s: Seq<u8>) -> bool {
    forall|i: int| 0 <= i < s.len() ==> is_digit_byte(#[trigger] s[i])
}

/// The number that the digits `s` write in base ten.
pub open spec fn digits_value(s: Seq<u8>) -> nat
    decreases s.len(),
{
    if s.len() == 0 {
        0
    } else {
        digits_value(s.drop_last()) * 10 + (s.last() - 48) as nat
    }
}

/// The size that the helper's output states: the output without the spaces
/// around it must be one or more digits that write a number of 64 bits.
pub open spec fn parsed_size(out: Seq<u8>) -> Option<u64> {
    let t = drop_spaces(skip_spaces(out));
    if t.len() > 0 && all_digits(t) && digits_value(t) <= u64::MAX {
        Some(digits_value(t) as u64)
    } else {
        None
    }
}

/// The digits at the start of a number write no more than the whole.
pub proof fn lemma_digits_value_prefix(s: Seq<u8>, k: int)
    requires
        0 <= k <= s.len(),
        all_digits(s),
    ensures
        digits_value(s.take(k)) <= digits_value(s),
    decreases s.len(),
{
    if k == s.len() {
        assert(s.take(k) =~= s);
    } else {
        let front = s.drop_last();
        assert(front.take(k) =~= s.take(k));
        assert(all_digits(front)) by {
            assert forall|i: int| 0 <= i < front.len() implies is_digit_byte(
                #[trigger] front[i],
            ) by {
                assert(front[i] == s[i]);
            }
        }
        assert(is_digit_byte(s[s.len() - 1]));
        lemma_digits_value_prefix(front, k);
    }
}

fn is_space_byte(b: u8) -> (r: bool)
    ensures
        r == is_space(b),
{
    b == 32 || b == 9 || b == 10 || b == 13
}

/// Reads the size that the helper's output states.
pub fn parse_size(out: &[u8]) -> (size: Option<u64>)
    ensures
        size == parsed_size(out@),
{
    let n = out.len();
    let mut start: usize = 0;
    assert(out@.subrange(0, n as int) =~= out@);
    while start < n && is_space_byte(out[start])
        invariant
            start <= n,
            n == out@.len(),
            skip_spaces(out@) == skip_spaces(out@.subrange(start as int, n as int)),
        decreases n - start,
    {
        assert(out@.subrange(start as int, n as int).drop_first() =~= out@.subrange(
            start + 1,
            n as int,
        ));
        start += 1;
    }
    let ghost tail = out@.subrange(start as int, n as int);
    assert(skip_spaces(out@) == tail);
    let mut end: usize = n;
    while end > start && is_space_byte(out[end - 1])
        invariant
            start <= end <= n,
            n == out@.len(),
            tail == out@.subrange(start as int, n as int),
            drop_spaces(tail) == drop_spaces(out@.subrange(start as int, end as int)),
        decreases end - start,
    {
        assert(out@.subrange(start as int, end as int).drop_last() =~= out@.subrange(
            start as int,
            end - 1,
        ));
        end -= 1;
    }
    let ghost t = out@.subrange(start as int, end as int);
    assert(drop_spaces(skip_spaces(out@)) == t);
    if start == end {
        return None;
    }
    let mut value: u64 = 0;
    let mut i: usize = start;
    assert(t.take(0) =~= Seq::<u8>::empty());
    while i < end
        invariant
            start <= i <= end <= n,
            n == out@.len(),
            t == out@.subrange(start as int, end as int),
            t == drop_spaces(skip_spaces(out@)),
            all_digits(t.take(i - start)),
            value == digits_value(t.take(i - start)),
        decreases end - i,
    {
        let b = out[i];
        if b < 48 || b > 57 {
            assert(!is_digit_byte(t[i - start]));
            return None;
        }
        let ghost front = t.take(i - start);
        let ghost next = t.take(i - start + 1);
        assert(next.drop_last() =~= front);
        assert(next.last() == b);
        assert(all_digits(next)) by {
            assert forall|j: int| 0 <= j < next.len() implies is_digit_byte(#[trigger] next[j]) by {
                if j < front.len() {
                    assert(next[j] == front[j]);
                }
            }
        }
        let grown = match value.checked_mul(10) {
            Some(v) => v.checked_add((b - 48) as u64),
            None => None,
        };
        match grown {
            Some(v) => {
                value = v;
            },
            None => {
                proof {
                    assert(digits_value(next) > u64::MAX);
                    if all_digits(t) {
                        lemma_digits_value_prefix(t, i - start + 1);
                    }
                }
                return None;
            },
        }
        i += 1;
    }
    assert(t.take(end - start) =~= t);
    Some(value)
}

/// What came of one call of the external helper.
#[derive(Clone, Debug, PartialEq, Eq)]
pub struct HelperOutput {
    /// Whether the helper could be started at all.
    pub launched: bool,
    /// The helper's exit status, 0 for success.
    pub exit_code: i32,
    /// What the helper wrote to its output.
    pub stdout: Vec<u8>,
}

/// The size that one call of the helper gives: it must have been started,
/// have ended with success and have written a size.
pub open spec fn helper_size(h: HelperOutput) -> Option<u64> {
    if h.launched && h.exit_code == 0 {
        parsed_size(h.stdout@)
    } else {
        None
    }
}

/// What the scan does with one answer of the external helper.
#[derive(Clone, Copy, Debug, PartialEq, Eq, Structural)]
pub enum HelperVerdict {
    /// The helper stated this size.
    Size(u64),
    /// The helper failed: from now on the scan reads metadata the standard
    /// way, and this is to be reported once.
    FellBack,
    /// The scan does not use the helper; the answer counts for nothing.
    Ignored,
}

/// The way of reading metadata that is in force during a scan.
#[derive(Clone, Copy, Debug, PartialEq, Eq, Structural)]
pub struct StatPolicy {
    pub strategy: Strategy,
}

impl StatPolicy {
    /// The verdict on an answer of the helper under the strategy `s`.
    pub open spec fn verdict_for(s: Strategy, h: HelperOutput) -> HelperVerdict {
        if s != Strategy::ExternalShortcut {
            HelperVerdict::Ignored
        } else {
            match helper_size(h) {
                Some(size) => HelperVerdict::Size(size),
                None => HelperVerdict::FellBack,
            }
        }
    }

    /// The strategy in force after an answer of the helper under `s`.
    pub open spec fn strategy_after(s: Strategy, h: HelperOutput) -> Strategy {
        if s == Strategy::ExternalShortcut && helper_size(h).is_none() {
            Strategy::Standard
        } else {
            s
        }
    }

    /// The policy of a scan that starts with `strategy`.
    pub fn new(strategy: Strategy) -> (p: StatPolicy)
        ensures
            p.strategy == strategy,
    {
        StatPolicy { strategy }
    }

    /// Takes one answer of the external helper. A failed answer ends the use
    /// of the helper for the rest of the scan.
    pub fn on_helper(&mut self, h: &HelperOutput) -> (v: HelperVerdict)
        ensures
            v == Self::verdict_for(old(self).strategy, *h),
            final(self).strategy == Self::strategy_after(old(self).strategy, *h),
    {
        match self.strategy {
            Strategy::ExternalShortcut => {
                let size = if h.launched && h.exit_code == 0 {
                    parse_size(h.stdout.as_slice())
                } else {
                    None
                };
                match size {
                    Some(n) => HelperVerdict::Size(n),
                    None => {
                        self.strategy = Strategy::Standard;
                        HelperVerdict::FellBack
                    },
                }
            },
            _ => HelperVerdict::Ignored,
        }
    }
}

/// The fall back to the standard way happens at most once in a scan: after
/// it no answer of the helper is taken any more, and the strategy stays.
pub proof fn law_falls_back_once(s: Strategy, failed: HelperOutput, later: HelperOutput)
    requires
        StatPolicy::verdict_for(s, failed) == HelperVerdict::FellBack,
    ensures
        StatPolicy::strategy_after(s, failed) == Strategy::Standard,
        StatPolicy::verdict_for(StatPolicy::strategy_after(s, failed), later)
            == HelperVerdict::Ignored,
        StatPolicy::strategy_after(StatPolicy::strategy_after(s, failed), later)
            == Strategy::Standard,
{
}

} // verus!
