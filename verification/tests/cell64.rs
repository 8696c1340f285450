use subatomic::Plain64;
use subatomic::Subatomic64;
use subatomic::TagCount;

#[test]
fn round_trip_after_new_u64() {
    let cell = Subatomic64::new(0xdead_beef_cafe_f00du64);
    assert_eq!(cell.load(), 0xdead_beef_cafe_f00du64);
}

#[test]
fn round_trip_after_new_i64() {
    let cell = Subatomic64::new(-9_876_543_210i64);
    assert_eq!(cell.load(), -9_876_543_210i64);
}

#[test]
fn round_trip_after_new_tag_count() {
    let cell = Subatomic64::new(TagCount { tag: 7, count: 40 });
    assert_eq!(cell.load(), TagCount { tag: 7, count: 40 });
}

#[test]
fn store_then_load_u64() {
    let mut cell = Subatomic64::new(1u64);
    cell.store(u64::MAX);
    assert_eq!(cell.load(), u64::MAX);
}

#[test]
fn swap_returns_prior_u64() {
    let mut cell = Subatomic64::new(11u64);
    assert_eq!(cell.swap(22), 11);
    assert_eq!(cell.load(), 22);
}

#[test]
fn compare_exchange_success_u64() {
    let mut cell = Subatomic64::new(5u64);
    assert_eq!(cell.compare_exchange(5, 9), Ok(5));
    assert_eq!(cell.load(), 9);
}

#[test]
fn compare_exchange_failure_u64() {
    let mut cell = Subatomic64::new(5u64);
    assert_eq!(cell.compare_exchange(4, 9), Err(5));
    assert_eq!(cell.load(), 5);
}

#[test]
fn weak_retry_converges_u64() {
    let mut cell = Subatomic64::new(5u64);
    let mut done = false;
    for _ in 0..1000 {
        match cell.compare_exchange_weak(5, 9) {
            Ok(prev) => {
                assert_eq!(prev, 5);
                done = true;
                break;
            }
            Err(actual) => {
                assert_eq!(actual, 5);
            }
        }
    }
    assert!(done);
    assert_eq!(cell.load(), 9);
}

#[test]
fn tag_count_end_to_end() {
    let mut cell = Subatomic64::new(TagCount { tag: 1, count: 0 });
    assert_eq!(cell.load(), TagCount { tag: 1, count: 0 });

    let prev = cell.swap(TagCount { tag: 1, count: 5 });
    assert_eq!(prev, TagCount { tag: 1, count: 0 });
    assert_eq!(cell.load(), TagCount { tag: 1, count: 5 });

    let r = cell.compare_exchange(TagCount { tag: 1, count: 5 }, TagCount { tag: 2, count: 0 });
    assert_eq!(r, Ok(TagCount { tag: 1, count: 5 }));
    assert_eq!(cell.load(), TagCount { tag: 2, count: 0 });

    let r = cell.compare_exchange(TagCount { tag: 1, count: 5 }, TagCount { tag: 9, count: 9 });
    assert_eq!(r, Err(TagCount { tag: 2, count: 0 }));
    assert_eq!(cell.load(), TagCount { tag: 2, count: 0 });
}

#[test]
fn default_cell_holds_default_tag_count() {
    let cell = Subatomic64::<TagCount>::default();
    assert_eq!(cell.load(), TagCount::default());
    assert_eq!(cell.load(), TagCount { tag: 0, count: 0 });
}

#[test]
fn tag_count_bits_pack_tag_high() {
    assert_eq!(TagCount { tag: 1, count: 5 }.to_bits(), 0x0000_0001_0000_0005u64);
    assert_eq!(
        TagCount::from_bits(0x0000_0001_0000_0005u64),
        TagCount { tag: 1, count: 5 }
    );
    assert_eq!(
        TagCount { tag: 0xffff_ffff, count: 0 }.to_bits(),
        0xffff_ffff_0000_0000u64
    );
}

#[test]
fn i64_bits_are_twos_complement() {
    assert_eq!((-1i64).to_bits(), u64::MAX);
    assert_eq!(i64::from_bits(u64::MAX), -1i64);
}

#[test]
fn swap_run_accounts_for_every_value_tag_count() {
    let mut cell = Subatomic64::new(TagCount { tag: 0, count: 0 });
    let mut seen = Vec::new();
    for tag in 1u32..=5 {
        seen.push(cell.swap(TagCount { tag, count: tag }));
    }
    seen.push(cell.load());
    let mut tags: Vec<u32> = seen.iter().map(|v| v.tag).collect();
    tags.sort();
    assert_eq!(tags, vec![0, 1, 2, 3, 4, 5]);
}
