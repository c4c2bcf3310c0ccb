use m61_modulus::parallelized::clamp_thread_count;
use m61_modulus::parallelized::combine;
use m61_modulus::parallelized::reduce_chunked;
use m61_modulus::parallelized::reduce_u16;
use m61_modulus::parallelized::reduce_u32;
use m61_modulus::parallelized::reduce_u64;
use m61_modulus::parallelized::reduce_u8;
use m61_modulus::parallelized::ChunkPlan;
use m61_modulus::parallelized::THRESHOLD;
use m61_modulus::M61Reduction;
use m61_modulus::M61;

#[test]
fn reduce_u8_parallelized_correct() {
    for i in 0..1000 {
        let v = vec![1; i];
        assert_eq!(reduce_u8(&v, 16), v.reduce_m61());
    }
}

#[test]
fn reduce_u16_parallelized_correct() {
    for i in 0..1000 {
        let v = vec![1; i];
        assert_eq!(reduce_u16(&v, 16), v.reduce_m61());
    }
}

#[test]
fn reduce_u32_parallelized_correct() {
    for i in 0..1000 {
        let v = vec![1; i];
        assert_eq!(reduce_u32(&v, 16), v.reduce_m61());
    }
}

#[test]
fn reduce_u64_parallelized_correct() {
    for i in 0..1000 {
        let v = vec![1; i];
        assert_eq!(reduce_u64(&v, 16), v.reduce_m61());
    }
}

#[test]
fn chunked_reduction_agrees_for_every_length() {
    // a threshold of 32 digits makes short inputs run through the chunks
    for i in 0..1000 {
        let v = vec![1u8; i];
        assert_eq!(reduce_chunked(&v, 16, 32), v.reduce_m61());
        let v = vec![1u16; i];
        assert_eq!(reduce_chunked(&v, 16, 32), v.reduce_m61());
        let v = vec![1u32; i];
        assert_eq!(reduce_chunked(&v, 16, 32), v.reduce_m61());
        let v = vec![1u64; i];
        assert_eq!(reduce_chunked(&v, 16, 32), v.reduce_m61());
        let v = vec![1usize; i];
        assert_eq!(reduce_chunked(&v, 16, 32), v.reduce_m61());
    }
}

#[test]
fn chunked_reduction_agrees_for_every_worker_count_and_threshold() {
    let digits: Vec<u32> = (0..700u32).map(|i| i.wrapping_mul(2654435761)).collect();
    let expected = digits.reduce_m61();
    for workers in 0..20 {
        for threshold in [0, 1, 2, 3, 7, 32, 100, 699, 700, 701, 5000] {
            assert_eq!(reduce_chunked(&digits, workers, threshold), expected);
        }
    }
}

#[test]
fn parallel_reduction_of_a_long_input() {
    let v = vec![1u8; 100_000];
    assert_eq!(v.reduce_m61_parallelized(8), v.reduce_m61());
    assert_eq!(reduce_u8(&v, 8), v.reduce_m61());
    let v = vec![u64::MAX; 40_000];
    for workers in 1..=8 {
        assert_eq!(v.reduce_m61_parallelized(workers), v.reduce_m61());
    }
}

#[test]
fn thread_count_is_clamped() {
    assert_eq!(clamp_thread_count(Some(8), 4), 4);
    assert_eq!(clamp_thread_count(Some(2), 16), 2);
    assert_eq!(clamp_thread_count(Some(4), 4), 4);
    assert_eq!(clamp_thread_count(None, 16), 1);
    assert_eq!(clamp_thread_count(Some(8), 0), 1);
    assert_eq!(clamp_thread_count(Some(0), 5), 1);
    assert_eq!(clamp_thread_count(None, 0), 1);
}

#[test]
fn chunk_plan_partitions_the_digits() {
    assert_eq!(THRESHOLD, 1 << 14);
    // six chunks of 16384 digits fit; the last one takes the rest
    let plan = ChunkPlan::new(100_000, 8, THRESHOLD);
    assert_eq!(plan.count(), 6);
    assert_eq!(plan.range(0), (0, 16384));
    assert_eq!(plan.range(1), (16384, 32768));
    assert_eq!(plan.range(4), (65536, 81920));
    assert_eq!(plan.range(5), (81920, 100_000));
    // 2^(8 * 16384) is 2^44, since 8 * 16384 is 44 modulo 61
    assert_eq!(plan.scale::<u8>().get(), 1 << 44);

    let plan = ChunkPlan::new(100_001, 2, 32);
    assert_eq!(plan.count(), 2);
    assert_eq!(plan.range(0), (0, 50_000));
    assert_eq!(plan.range(1), (50_000, 100_001));
    assert_eq!(plan.scale::<u64>().get(), 2);
    assert_eq!(plan.scale::<u16>().get(), 1 << ((16 * 50_000) % 61));

    let plan = ChunkPlan::new(64, 2, 32);
    assert_eq!(plan.count(), 2);
    assert_eq!(plan.range(0), (0, 32));
    assert_eq!(plan.range(1), (32, 64));

    // an input just over the threshold makes a single chunk
    let plan = ChunkPlan::new(40, 8, 32);
    assert_eq!(plan.count(), 1);
    assert_eq!(plan.range(0), (0, 40));

    // no more chunks than workers
    let plan = ChunkPlan::new(10, 4, 0);
    assert_eq!(plan.count(), 4);
    assert_eq!(plan.range(0), (0, 2));
    assert_eq!(plan.range(2), (4, 6));
    assert_eq!(plan.range(3), (6, 10));

    let plan = ChunkPlan::new(0, 4, 0);
    assert_eq!(plan.count(), 1);
    assert_eq!(plan.range(0), (0, 0));

    let plan = ChunkPlan::new(10, 0, 3);
    assert_eq!(plan.count(), 1);
    assert_eq!(plan.range(0), (0, 10));

    let plan = ChunkPlan::new(10, 100, 0);
    assert_eq!(plan.count(), 10);
    assert_eq!(plan.range(9), (9, 10));
}

#[test]
fn combine_weighs_each_chunk_by_its_place() {
    let scale = M61::from(1u64 << 7);
    let partials = [M61::from(3u8), M61::from(5u8), M61::from(11u8)];
    assert_eq!(combine(&partials, scale).get(), 3 + 5 * 128 + 11 * 128 * 128);
    assert_eq!(combine(&[], scale).get(), 0);
    assert_eq!(combine(&partials[..1], scale).get(), 3);
}

#[test]
fn chunks_reduced_in_any_order_recombine() {
    let digits: Vec<u16> = (0..1000u32).map(|i| (i * 40503) as u16).collect();
    let plan = ChunkPlan::new(digits.len(), 3, 64);
    let count = plan.count();
    assert_eq!(count, 3);
    let mut partials = vec![M61::default(); count];
    for i in (0..count).rev() {
        let (from, to) = plan.range(i);
        partials[i] = digits[from..to].reduce_m61();
    }
    assert_eq!(combine(&partials, plan.scale::<u16>()), digits.reduce_m61());
}
