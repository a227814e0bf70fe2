use heatshrink_stream::decoder::HeatshrinkDecoder;
use heatshrink_stream::encoder::HeatshrinkEncoder;
use heatshrink_stream::encoder_to::{self, HeatshrinkEncoderTo};
use heatshrink_stream::encoder_to_vec::{self, after_sink, HeatshrinkEncoderToVec, PushStep};
use heatshrink_stream::engine::_heatshrink_encoder;
use heatshrink_stream::source::{ByteSource, VecSource};
use rand::rngs::StdRng;
use rand::{Rng, SeedableRng};

fn drain<S: ByteSource>(s: &mut S) -> Vec<u8> {
    let mut out = Vec::new();
    while let Some(b) = s.next_byte() {
        out.push(b);
    }
    out
}

fn words_to_bytes(words: &[u32]) -> Vec<u8> {
    words.iter().flat_map(|w| w.to_le_bytes()).collect()
}

fn bytes_to_words(bytes: &[u8]) -> Vec<u32> {
    bytes
        .chunks(4)
        .map(|c| {
            let mut v = [0u8; 4];
            v.copy_from_slice(c);
            u32::from_le_bytes(v)
        })
        .collect()
}

#[test]
fn encoder_to_encode_to_basic() {
    let mut rng = rand::thread_rng();
    let dest = vec![0u8; 4096];
    let mut src = Vec::new();
    let mut in_count = 0usize;

    let mut encoder = HeatshrinkEncoderTo::dest(dest);

    let res = loop {
        let v = rng.gen_range(0..u32::MAX);
        src.push(v);

        match encoder.push(v) {
            encoder_to::Result::Continue(e) => {
                encoder = e;
                in_count += 4;
            }
            encoder_to::Result::Done(result) => {
                in_count += 4;
                break result;
            }
            encoder_to::Result::Overflow => panic!("overrun"),
        }
    };

    let normaly_encoded =
        drain(&mut HeatshrinkEncoder::source(VecSource::new(words_to_bytes(&src))));
    let r = drain(&mut HeatshrinkDecoder::source(VecSource::new(res.clone())));
    assert_eq!(res, normaly_encoded);
    assert_eq!(r.len(), in_count);
    assert_eq!(bytes_to_words(&r), src);
}

#[test]
fn encoder_to_vec_encode_to_basic() {
    let mut rng = rand::thread_rng();
    let dest = Vec::with_capacity(4096);
    let mut src = Vec::new();
    let mut in_count = 0usize;

    let mut encoder = HeatshrinkEncoderToVec::dest(dest, 0);

    let res = loop {
        let v = rng.gen_range(0..u32::MAX);
        src.push(v);

        match encoder.push(v) {
            encoder_to_vec::Result::Continue(e) => {
                encoder = e;
                in_count += 4;
            }
            encoder_to_vec::Result::Done(result) => {
                in_count += 4;
                break result;
            }
            encoder_to_vec::Result::Overflow => panic!("overrun"),
        }
    };

    let normaly_encoded =
        drain(&mut HeatshrinkEncoder::source(VecSource::new(words_to_bytes(&src))));
    let r = drain(&mut HeatshrinkDecoder::source(VecSource::new(res.clone())));
    assert_eq!(res, normaly_encoded);
    assert_eq!(r.len(), in_count);
    assert_eq!(bytes_to_words(&r), src);
}

#[test]
fn encode_to_with_offset() {
    const OFFSET: usize = 16;

    // A fixed seed keeps the run reproducible. The encoder finishes once its
    // normal region is used up; with incompressible data and this offset,
    // what has been pushed by then sometimes compresses to more than the
    // capacity, and the outcome is then, rightly, `Overflow`.
    let mut rng = StdRng::seed_from_u64(0x1617);
    let mut dest = Vec::with_capacity(4096);
    let mut src = Vec::new();
    let mut in_count = 0usize;

    for i in 0..OFFSET {
        dest.push(i as u8);
    }

    let mut encoder = HeatshrinkEncoderToVec::dest(dest, OFFSET);

    let res = loop {
        let v = rng.gen_range(0..u32::MAX);
        src.push(v);

        match encoder.push(v) {
            encoder_to_vec::Result::Continue(e) => {
                encoder = e;
                in_count += 4;
            }
            encoder_to_vec::Result::Done(result) => {
                in_count += 4;
                break result;
            }
            encoder_to_vec::Result::Overflow => panic!("overrun"),
        }
    };
    assert!(in_count > 0);

    assert_eq!(res[0..OFFSET], (0..OFFSET).map(|i| i as u8).collect::<Vec<_>>());
}

#[test]
fn encode_interrupt() {
    let mut rng = rand::thread_rng();
    let dest = Vec::with_capacity(4096);
    let mut src = Vec::new();
    let mut in_count = 0usize;

    let mut encoder = HeatshrinkEncoderToVec::dest(dest, 0);

    let res = loop {
        let v = rng.gen_range(0..u32::MAX);
        src.push(v);

        match encoder.push(v) {
            encoder_to_vec::Result::Continue(e) => {
                encoder = e;
                in_count += 4;
            }
            encoder_to_vec::Result::Done(result) => {
                in_count += 4;
                break result;
            }
            encoder_to_vec::Result::Overflow => panic!("overrun"),
        }

        if src.len() > 1500 / 4 {
            match encoder.finish() {
                encoder_to_vec::Result::Done(result) => {
                    break result;
                }
                _ => panic!(),
            }
        }
    };

    let r = drain(&mut HeatshrinkDecoder::source(VecSource::new(res.clone())));
    assert_eq!(r.len(), in_count);
    assert_eq!(bytes_to_words(&r), src);
}

#[test]
fn input_buffer_size_is_window() {
    assert_eq!(_heatshrink_encoder::input_buffer_size(), 256);
}

#[test]
fn too_small_destination_overflows() {
    let encoder = HeatshrinkEncoderToVec::dest(vec![0u8; 100], 0);
    assert!(matches!(encoder.push(7u32), encoder_to_vec::Result::Overflow));

    let encoder = HeatshrinkEncoderToVec::dest(vec![0u8; 100], 0);
    assert!(matches!(encoder.finish(), encoder_to_vec::Result::Overflow));
}

#[test]
fn header_without_room_overflows() {
    let encoder = HeatshrinkEncoderToVec::dest(vec![9u8, 8, 7], 3);
    assert!(matches!(encoder.push_bytes(&[0u8; 8]), encoder_to_vec::Result::Overflow));
}

#[test]
fn offset_past_reserved_region_overflows() {
    let dest = vec![7u8; 300];
    let encoder = HeatshrinkEncoderToVec::dest(dest, 200);
    assert!(matches!(encoder.finish(), encoder_to_vec::Result::Overflow));
}

#[test]
fn finish_with_nothing_pushed_is_empty() {
    let encoder = HeatshrinkEncoderTo::dest(vec![0u8; 256]);
    match encoder.finish() {
        encoder_to::Result::Done(v) => assert!(v.is_empty()),
        _ => panic!(),
    }
}

#[test]
fn zeros_into_bounded_destination() {
    let encoder = HeatshrinkEncoderTo::dest(vec![0xffu8; 512]);
    let encoder = match encoder.push_bytes(&[0u8; 8]) {
        encoder_to::Result::Continue(e) => e,
        _ => panic!(),
    };
    match encoder.finish() {
        encoder_to::Result::Done(v) => assert_eq!(v, vec![0x00, 0x38]),
        _ => panic!(),
    }
}

#[test]
fn header_kept_with_zeros() {
    let mut dest = Vec::with_capacity(512);
    dest.extend_from_slice(&[9u8, 8, 7]);
    let encoder = HeatshrinkEncoderToVec::dest(dest, 3);
    let encoder = match encoder.push_bytes(&[0u8; 8]) {
        encoder_to_vec::Result::Continue(e) => e,
        _ => panic!(),
    };
    match encoder.finish() {
        encoder_to_vec::Result::Done(v) => assert_eq!(v, vec![9, 8, 7, 0x00, 0x38]),
        _ => panic!(),
    }
}

#[test]
fn incompressible_data_overflows_small_destination() {
    let mut rng = rand::thread_rng();
    let mut encoder = HeatshrinkEncoderTo::dest(vec![0u8; 300]);
    let mut overflowed = false;
    for _ in 0..1000 {
        let chunk: Vec<u8> = (0..64).map(|_| rng.gen::<u8>()).collect();
        match encoder.push_bytes(&chunk) {
            encoder_to::Result::Continue(e) => encoder = e,
            encoder_to::Result::Done(v) => {
                assert!(v.len() <= 300);
                return;
            }
            encoder_to::Result::Overflow => {
                overflowed = true;
                break;
            }
        }
    }
    assert!(overflowed);
}

#[test]
fn large_push_overflows() {
    let encoder = HeatshrinkEncoderTo::dest(vec![0u8; 4096]);
    let data = vec![5u8; 2000];
    assert!(matches!(encoder.push_bytes(&data), encoder_to::Result::Overflow));
}

#[test]
fn bounded_output_decodes_for_many_sizes() {
    for cap in [256usize, 300, 512, 1024, 4096] {
        let data: Vec<u8> = (0..10_000u32).map(|n| (n % 97) as u8).collect();
        let mut encoder = HeatshrinkEncoderTo::dest(vec![0u8; cap]);
        let mut pushed = Vec::new();
        let out = loop {
            let chunk = &data[pushed.len()..pushed.len() + 10];
            match encoder.push_bytes(chunk) {
                encoder_to::Result::Continue(e) => {
                    encoder = e;
                    pushed.extend_from_slice(chunk);
                    if pushed.len() + 10 > data.len() {
                        match encoder.finish() {
                            encoder_to::Result::Done(v) => break Some(v),
                            _ => break None,
                        }
                    }
                }
                encoder_to::Result::Done(v) => {
                    pushed.extend_from_slice(chunk);
                    break Some(v);
                }
                encoder_to::Result::Overflow => break None,
            }
        };
        if let Some(v) = out {
            assert!(v.len() <= cap);
            let back = drain(&mut HeatshrinkDecoder::source(VecSource::new(v)));
            assert_eq!(back, pushed);
        }
    }
}

#[test]
fn write_cursor_never_moves_back() {
    let mut rng = rand::thread_rng();
    let mut encoder = HeatshrinkEncoderToVec::dest(Vec::with_capacity(2048), 0);
    let cap = 2048;
    let mut last = encoder.written();
    assert_eq!(last, 0);
    for _ in 0..10_000 {
        let chunk: Vec<u8> = (0..7).map(|_| rng.gen::<u8>()).collect();
        match encoder.push_bytes(&chunk) {
            encoder_to_vec::Result::Continue(e) => {
                assert!(e.written() >= last);
                assert!(e.written() < cap);
                last = e.written();
                encoder = e;
            }
            encoder_to_vec::Result::Done(v) => {
                assert!(v.len() >= last);
                return;
            }
            encoder_to_vec::Result::Overflow => return,
        }
    }
}

#[test]
fn write_cursor_starts_at_offset() {
    let mut dest = Vec::with_capacity(1024);
    dest.extend_from_slice(&[1u8, 2, 3, 4]);
    let encoder = HeatshrinkEncoderToVec::dest(dest, 4);
    assert_eq!(encoder.written(), 4);
    let encoder = HeatshrinkEncoderTo::dest(vec![0u8; 1024]);
    assert_eq!(encoder.written(), 0);
}

#[test]
fn empty_push_continues() {
    let encoder = HeatshrinkEncoderTo::dest(vec![0u8; 512]);
    assert!(matches!(encoder.push_bytes(&[]), encoder_to::Result::Continue(_)));
}

#[test]
fn after_sink_decides_each_case() {
    assert!(matches!(after_sink(10, 10), PushStep::Continue));
    assert!(matches!(after_sink(0, 0), PushStep::Continue));
    assert!(matches!(after_sink(300, 59), PushStep::Drain));
    assert!(matches!(after_sink(300, 58), PushStep::Overflow));
    assert!(matches!(after_sink(241, 0), PushStep::Drain));
    assert!(matches!(after_sink(242, 0), PushStep::Overflow));
}

#[test]
fn typed_values_go_in_little_endian() {
    let encoder = HeatshrinkEncoderTo::dest(vec![0u8; 512]);
    let encoder = match encoder.push(0x0102u16) {
        encoder_to::Result::Continue(e) => e,
        _ => panic!(),
    };
    let encoder = match encoder.push(0x0a0b0c0du32) {
        encoder_to::Result::Continue(e) => e,
        _ => panic!(),
    };
    let encoder = match encoder.push(0x1112131415161718u64) {
        encoder_to::Result::Continue(e) => e,
        _ => panic!(),
    };
    let encoder = match encoder.push(0xeeu8) {
        encoder_to::Result::Continue(e) => e,
        _ => panic!(),
    };
    let out = match encoder.finish() {
        encoder_to::Result::Done(v) => v,
        _ => panic!(),
    };
    let back = drain(&mut HeatshrinkDecoder::source(VecSource::new(out)));
    assert_eq!(
        back,
        vec![2, 1, 0x0d, 0x0c, 0x0b, 0x0a, 0x18, 0x17, 0x16, 0x15, 0x14, 0x13, 0x12, 0x11, 0xee]
    );
}

#[test]
fn small_push_only_stages() {
    let encoder = HeatshrinkEncoderTo::dest(vec![0u8; 512]);
    match encoder.push_bytes(&[1, 2, 3]) {
        encoder_to::Result::Continue(e) => assert_eq!(e.written(), 0),
        _ => panic!(),
    }
}

fn exact_fit_data() -> Vec<u8> {
    let mut data: Vec<u8> = (1..=251u32).map(|b| b as u8).collect();
    data.push(0);
    data.push(0);
    data
}

#[test]
fn room_to_spare_finishes_done() {
    let data = exact_fit_data();
    let encoder = HeatshrinkEncoderTo::dest(vec![0u8; 285]);
    let encoder = match encoder.push_bytes(&data) {
        encoder_to::Result::Continue(e) => e,
        _ => panic!(),
    };
    match encoder.finish() {
        encoder_to::Result::Done(v) => {
            assert_eq!(v.len(), 284);
            assert_eq!(drain(&mut HeatshrinkDecoder::source(VecSource::new(v))), data);
        }
        _ => panic!(),
    }
}

#[test]
fn exact_fit_never_gives_bad_output() {
    let data = exact_fit_data();
    let encoder = HeatshrinkEncoderTo::dest(vec![0u8; 284]);
    let encoder = match encoder.push_bytes(&data) {
        encoder_to::Result::Continue(e) => e,
        _ => panic!(),
    };
    match encoder.finish() {
        encoder_to::Result::Done(v) => {
            assert_eq!(drain(&mut HeatshrinkDecoder::source(VecSource::new(v))), data);
        }
        encoder_to::Result::Overflow => {}
        encoder_to::Result::Continue(_) => panic!(),
    }
}

#[test]
fn staged_bytes_count_toward_remainder() {
    let encoder = HeatshrinkEncoderTo::dest(vec![0u8; 4096]);
    let encoder = match encoder.push_bytes(&[3u8; 200]) {
        encoder_to::Result::Continue(e) => e,
        _ => panic!(),
    };
    assert!(matches!(encoder.push_bytes(&[4u8; 300]), encoder_to::Result::Overflow));
}
