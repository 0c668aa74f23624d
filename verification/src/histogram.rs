//! The fixed partition of file sizes into histogram buckets.

use vstd::prelude::*;
use crate::objects::Result;

verus! {

/// One range of the size histogram. The ranges are closed below and open
/// above, listed here from the smallest sizes to the largest.
#[derive(Clone, Copy, Debug, PartialEq, Eq, Structural)]
pub enum Bucket {
    /// Exactly 0 bytes.
    Empty,
    /// 1 to 3 999 bytes.
    LessThan4K,
    /// 4 000 to 7 999 bytes.
    Between4K8K,
    /// 8 000 to 15 999 bytes.
    Between8K16K,
    /// 16 000 to 31 999 bytes.
    Between16K32K,
    /// 32 000 to 63 999 bytes.
    Between32K64K,
    /// 64 000 to 127 999 bytes.
    Between64K128K,
    /// 128 000 to 255 999 bytes.
    Between128K256K,
    /// 256 000 to 511 999 bytes.
    Between256K512K,
    /// 512 000 to 999 999 bytes.
    Between512K1M,
    /// 1 000 000 to 9 999 999 bytes.
    Between1M10M,
    /// 10 000 000 to 99 999 999 bytes.
    Between10M100M,
    /// 100 000 000 to 999 999 999 bytes.
    Between100M1G,
    /// 1 000 000 000 bytes and more.
    MoreThan1G,
}

impl Bucket {
    /// The smallest length that falls into this bucket.
    pub open spec fn lower(self) -> nat {
        match self {
            Bucket::Empty => 0,
            Bucket::LessThan4K => 1,
            Bucket::Between4K8K => 4_000,
            Bucket::Between8K16K => 8_000,
            Bucket::Between16K32K => 16_000,
            Bucket::Between32K64K => 32_000,
            Bucket::Between64K128K => 64_000,
            Bucket::Between128K256K => 128_000,
            Bucket::Between256K512K => 256_000,
            Bucket::Between512K1M => 512_000,
            Bucket::Between1M10M => 1_000_000,
            Bucket::Between10M100M => 10_000_000,
            Bucket::Between100M1G => 100_000_000,
            Bucket::MoreThan1G => 1_000_000_000,
        }
    }

    /// The first length above this bucket; `None` for the last bucket, which
    /// has no upper end.
    pub open spec fn upper(self) -> Option<nat> {
        match self {
            Bucket::Empty => Some(1nat),
            Bucket::LessThan4K => Some(4_000nat),
            Bucket::Between4K8K => Some(8_000nat),
            Bucket::Between8K16K => Some(16_000nat),
            Bucket::Between16K32K => Some(32_000nat),
            Bucket::Between32K64K => Some(64_000nat),
            Bucket::Between64K128K => Some(128_000nat),
            Bucket::Between128K256K => Some(256_000nat),
            Bucket::Between256K512K => Some(512_000nat),
            Bucket::Between512K1M => Some(1_000_000nat),
            Bucket::Between1M10M => Some(10_000_000nat),
            Bucket::Between10M100M => Some(100_000_000nat),
            Bucket::Between100M1G => Some(1_000_000_000nat),
            Bucket::MoreThan1G => None,
        }
    }

    /// Whether a file of `len` bytes is counted in this bucket.
    pub open spec fn holds(self, len: nat) -> bool {
        self.lower() <= len && match self.upper() {
            Some(end) => len < end,
            None => true,
        }
    }

    /// Position of the bucket in the report, 0 for the empty files.
    pub open spec fn position(self) -> nat {
        match self {
            Bucket::Empty => 0,
            Bucket::LessThan4K => 1,
            Bucket::Between4K8K => 2,
            Bucket::Between8K16K => 3,
            Bucket::Between16K32K => 4,
            Bucket::Between32K64K => 5,
            Bucket::Between64K128K => 6,
            Bucket::Between128K256K => 7,
            Bucket::Between256K512K => 8,
            Bucket::Between512K1M => 9,
            Bucket::Between1M10M => 10,
            Bucket::Between10M100M => 11,
            Bucket::Between100M1G => 12,
            Bucket::MoreThan1G => 13,
        }
    }
}

/// The bucket of a file of `len` bytes.
pub open spec fn bucket_of(len: nat) -> Bucket {
    if len == 0 {
        Bucket::Empty
    } else if len < 4_000 {
        Bucket::LessThan4K
    } else if len < 8_000 {
        Bucket::Between4K8K
    } else if len < 16_000 {
        Bucket::Between8K16K
    } else if len < 32_000 {
        Bucket::Between16K32K
    } else if len < 64_000 {
        Bucket::Between32K64K
    } else if len < 128_000 {
        Bucket::Between64K128K
    } else if len < 256_000 {
        Bucket::Between128K256K
    } else if len < 512_000 {
        Bucket::Between256K512K
    } else if len < 1_000_000 {
        Bucket::Between512K1M
    } else if len < 10_000_000 {
        Bucket::Between1M10M
    } else if len < 100_000_000 {
        Bucket::Between10M100M
    } else if len < 1_000_000_000 {
        Bucket::Between100M1G
    } else {
        Bucket::MoreThan1G
    }
}

/// Every length lies in exactly one bucket: the buckets leave no gap and do
/// not overlap.
pub proof fn law_buckets_partition(len: nat, b: Bucket)
    ensures
        b.holds(len) <==> b == bucket_of(len),
{
}

/// Larger files never fall into an earlier bucket.
pub proof fn law_buckets_are_ordered(a: nat, b: nat)
    requires
        a <= b,
    ensures
        bucket_of(a).position() <= bucket_of(b).position(),
{
}

/// Finds the bucket of a file of `len` bytes.
pub fn classify_size(len: u64) -> (b: Bucket)
    ensures
        b == bucket_of(len as nat),
        b.holds(len as nat),
{
    if len == 0 {
        Bucket::Empty
    } else if len < 4_000 {
        Bucket::LessThan4K
    } else if len < 8_000 {
        Bucket::Between4K8K
    } else if len < 16_000 {
        Bucket::Between8K16K
    } else if len < 32_000 {
        Bucket::Between16K32K
    } else if len < 64_000 {
        Bucket::Between32K64K
    } else if len < 128_000 {
        Bucket::Between64K128K
    } else if len < 256_000 {
        Bucket::Between128K256K
    } else if len < 512_000 {
        Bucket::Between256K512K
    } else if len < 1_000_000 {
        Bucket::Between512K1M
    } else if len < 10_000_000 {
        Bucket::Between1M10M
    } else if len < 100_000_000 {
        Bucket::Between10M100M
    } else if len < 1_000_000_000 {
        Bucket::Between100M1G
    } else {
        Bucket::MoreThan1G
    }
}

/// Counts one regular file of `len` bytes: its bucket and the files counter
/// each grow by one, and nothing else changes.
pub fn handle_file(len: u64, res: &mut Result)
    requires
        old(res)@.consistent(),
        old(res).files < usize::MAX,
    ensures
        final(res)@ == old(res)@.record_file(len as nat),
        final(res)@.consistent(),
{
    match classify_size(len) {
        Bucket::Empty => {
            res.empty_file += 1;
        },
        Bucket::LessThan4K => {
            res.less_than_4_k += 1;
        },
        Bucket::Between4K8K => {
            res.between_4_k_8_k += 1;
        },
        Bucket::Between8K16K => {
            res.between_8_k_16_k += 1;
        },
        Bucket::Between16K32K => {
            res.between_16_k_32_k += 1;
        },
        Bucket::Between32K64K => {
            res.between_32_k_64_k += 1;
        },
        Bucket::Between64K128K => {
            res.between_64_k_128_k += 1;
        },
        Bucket::Between128K256K => {
            res.between_128_k_256_k += 1;
        },
        Bucket::Between256K512K => {
            res.between_256_k_512_k += 1;
        },
        Bucket::Between512K1M => {
            res.between_512_k_1_m += 1;
        },
        Bucket::Between1M10M => {
            res.between_1_m_10_m += 1;
        },
        Bucket::Between10M100M => {
            res.between_10_m_100_m += 1;
        },
        Bucket::Between100M1G => {
            res.between_100_m_1_g += 1;
        },
        Bucket::MoreThan1G => {
            res.more_than_1_g += 1;
        },
    }
    res.files += 1;
    assert(final(res)@.histogram =~= old(res)@.record_file(len as nat).histogram);
}

} // verus!
