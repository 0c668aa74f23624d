use fs_scan::histogram::{classify_size, handle_file, Bucket};
use fs_scan::objects::build_result;

#[test]
fn bucket_boundaries_are_exact() {
    assert_eq!(classify_size(0), Bucket::Empty);
    assert_eq!(classify_size(1), Bucket::LessThan4K);
    assert_eq!(classify_size(3_999), Bucket::LessThan4K);
    assert_eq!(classify_size(4_000), Bucket::Between4K8K);
    assert_eq!(classify_size(7_999), Bucket::Between4K8K);
    assert_eq!(classify_size(8_000), Bucket::Between8K16K);
    assert_eq!(classify_size(999_999_999), Bucket::Between100M1G);
    assert_eq!(classify_size(1_000_000_000), Bucket::MoreThan1G);
}

#[test]
fn every_boundary_opens_its_bucket() {
    let table: [(u64, Bucket); 14] = [
        (0, Bucket::Empty),
        (1, Bucket::LessThan4K),
        (4_000, Bucket::Between4K8K),
        (8_000, Bucket::Between8K16K),
        (16_000, Bucket::Between16K32K),
        (32_000, Bucket::Between32K64K),
        (64_000, Bucket::Between64K128K),
        (128_000, Bucket::Between128K256K),
        (256_000, Bucket::Between256K512K),
        (512_000, Bucket::Between512K1M),
        (1_000_000, Bucket::Between1M10M),
        (10_000_000, Bucket::Between10M100M),
        (100_000_000, Bucket::Between100M1G),
        (1_000_000_000, Bucket::MoreThan1G),
    ];
    for i in 0..table.len() {
        let (low, bucket) = table[i];
        assert_eq!(classify_size(low), bucket);
        if i + 1 < table.len() {
            assert_eq!(classify_size(table[i + 1].0 - 1), bucket);
        }
    }
    assert_eq!(classify_size(u64::MAX), Bucket::MoreThan1G);
}

#[test]
fn handle_file_counts_one_bucket_and_the_total() {
    let mut res = build_result("/data");
    handle_file(0, &mut res);
    handle_file(5_000, &mut res);
    handle_file(5_001, &mut res);
    handle_file(2_000_000_000, &mut res);
    assert_eq!(res.files, 4);
    assert_eq!(res.empty_file, 1);
    assert_eq!(res.between_4_k_8_k, 2);
    assert_eq!(res.more_than_1_g, 1);
    assert_eq!(res.less_than_4_k, 0);
    assert_eq!(res.directories, 0);
    assert_eq!(res.bucket_count(Bucket::Between4K8K), 2);
    assert_eq!(res.bucket_count(Bucket::Between1M10M), 0);
    assert!(res.is_consistent());
}

#[test]
fn files_equal_the_sum_of_the_buckets() {
    let mut res = build_result("/data");
    let mut len: u64 = 0;
    for _ in 0..200 {
        handle_file(len, &mut res);
        len = len * 3 + 1_234;
        if len > 5_000_000_000 {
            len %= 977;
        }
    }
    let sum = res.empty_file + res.less_than_4_k + res.between_4_k_8_k + res.between_8_k_16_k
        + res.between_16_k_32_k + res.between_32_k_64_k + res.between_64_k_128_k
        + res.between_128_k_256_k + res.between_256_k_512_k + res.between_512_k_1_m
        + res.between_1_m_10_m + res.between_10_m_100_m + res.between_100_m_1_g
        + res.more_than_1_g;
    assert_eq!(res.files, 200);
    assert_eq!(sum, 200);
    assert!(res.is_consistent());
}

#[test]
fn a_tampered_result_is_not_consistent() {
    let mut res = build_result("/data");
    handle_file(10, &mut res);
    res.files = 5;
    assert!(!res.is_consistent());
}

#[test]
fn build_result_starts_at_zero() {
    let res = build_result("/some/root");
    assert_eq!(res.path, "/some/root");
    assert_eq!(res.duration.secs, 0);
    assert_eq!(res.duration.nanos, 0);
    assert_eq!(res.files, 0);
    assert_eq!(res.directories, 0);
    assert_eq!(res.empty_file, 0);
    assert_eq!(res.more_than_1_g, 0);
    assert!(res.is_consistent());
}
