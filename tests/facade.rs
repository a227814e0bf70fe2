use heatshrink_stream::decoder::HeatshrinkDecoder;
use heatshrink_stream::engine::{Finish, Poll, Sink, _heatshrink_encoder};
use heatshrink_stream::source::{ByteSource, VecSource};

fn decode_all(data: Vec<u8>) -> Vec<u8> {
    let mut dec = HeatshrinkDecoder::source(VecSource::new(data));
    let mut out = Vec::new();
    while let Some(b) = dec.next_byte() {
        out.push(b);
    }
    out
}

fn finish_into(encoder: &mut _heatshrink_encoder, out: &mut Vec<u8>) {
    let mut buf = vec![0u8; 1024];
    loop {
        match encoder.finish() {
            Finish::Done => return,
            Finish::More => {}
        }
        loop {
            match encoder.poll(&mut buf) {
                Poll::Empty(n) => {
                    out.extend_from_slice(&buf[..n]);
                    break;
                }
                Poll::More(n) => out.extend_from_slice(&buf[..n]),
                Poll::Refused => panic!(),
            }
        }
    }
}

#[test]
fn facade_full_staging_area_round_trip() {
    let size = _heatshrink_encoder::input_buffer_size();
    let src = (0..size).map(|n| (n & 0xff) as u8).collect::<Vec<u8>>();
    let mut encoder = _heatshrink_encoder::new();

    match encoder.sink(&src) {
        Sink::Accepted(n) => assert_eq!(n, src.len()),
        Sink::Refused => panic!(),
    }

    let mut out_buf = vec![0u8; size * 2];
    let written = match encoder.poll(&mut out_buf) {
        Poll::Empty(n) => n,
        _ => panic!(),
    };
    assert!(written <= out_buf.len());
    let mut out = out_buf[..written].to_vec();

    finish_into(&mut encoder, &mut out);
    assert_eq!(decode_all(out), src);
}

#[test]
fn facade_half_staging_area_waits_for_finish() {
    let size = _heatshrink_encoder::input_buffer_size();
    let src = (0..size / 2).map(|n| (n & 0xff) as u8).collect::<Vec<u8>>();
    let mut encoder = _heatshrink_encoder::new();

    match encoder.sink(&src) {
        Sink::Accepted(n) => assert_eq!(n, src.len()),
        Sink::Refused => panic!(),
    }
    let mut out_buf = vec![0u8; size * 2];
    assert!(matches!(encoder.poll(&mut out_buf), Poll::Empty(0)));

    let mut out = Vec::new();
    finish_into(&mut encoder, &mut out);
    assert!(!out.is_empty());
    assert_eq!(decode_all(out), src);
}

#[test]
fn facade_full_staging_area_refuses_more() {
    let size = _heatshrink_encoder::input_buffer_size();
    let src = (0..size).map(|n| (n & 0xff) as u8).collect::<Vec<u8>>();
    let mut encoder = _heatshrink_encoder::new();

    assert!(matches!(encoder.sink(&src), Sink::Accepted(n) if n == size));
    assert!(matches!(encoder.sink(&src), Sink::Refused));

    let mut out_buf = vec![0u8; size * 2];
    assert!(matches!(encoder.poll(&mut out_buf), Poll::Empty(_)));
    match encoder.sink(&src) {
        Sink::Accepted(n) => assert!(n < src.len()),
        Sink::Refused => panic!(),
    }
}

#[test]
fn facade_refuses_input_while_finishing() {
    let mut encoder = _heatshrink_encoder::new();
    assert!(matches!(encoder.finish(), Finish::More));
    assert!(matches!(encoder.sink(&[1, 2, 3]), Sink::Refused));
}

#[test]
fn facade_poll_fills_small_buffer() {
    let mut encoder = _heatshrink_encoder::new();
    assert!(matches!(encoder.sink(&[0u8; 8]), Sink::Accepted(8)));
    let _ = encoder.finish();
    let mut one = [0xaau8; 1];
    assert!(matches!(encoder.poll(&mut one), Poll::More(1)));
    assert_eq!(one, [0x00]);
}

#[test]
fn facade_reset_starts_over() {
    let mut encoder = _heatshrink_encoder::new();
    let _ = encoder.sink(&[5u8; 40]);
    let _ = encoder.finish();
    encoder.reset();
    assert!(matches!(encoder.sink(&[0u8; 8]), Sink::Accepted(8)));
    let mut out = Vec::new();
    finish_into(&mut encoder, &mut out);
    assert_eq!(out, vec![0x00, 0x38]);
}
