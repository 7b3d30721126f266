use deflate_stream::bufread::BufReader;
use deflate_stream::codec::Compression;
use deflate_stream::deflate::{
    DecoderReader, DecoderReaderBuf, DecoderWriter, EncoderReader, EncoderWriter,
};
use deflate_stream::error::Error;
use deflate_stream::stream::{LimitedWriter, MemPipe, MemReader, MemWriter, Sink, Source};

/// A small deterministic pseudo-random generator, so the heavy tests run on
/// incompressible data without drawing in a random-number dependency.
struct XorShift {
    s: u64,
}

impl XorShift {
    fn new(seed: u64) -> XorShift {
        XorShift { s: seed | 1 }
    }

    fn next(&mut self) -> u64 {
        let mut x = self.s;
        x ^= x << 13;
        x ^= x >> 7;
        x ^= x << 17;
        self.s = x;
        x
    }

    fn bytes(&mut self, n: usize) -> Vec<u8> {
        let mut v = Vec::with_capacity(n);
        for _ in 0..n {
            v.push((self.next() >> 32) as u8);
        }
        v
    }

    fn below(&mut self, n: usize) -> usize {
        (self.next() % n as u64) as usize
    }
}

fn compress_all(data: &[u8]) -> Vec<u8> {
    let mut w = EncoderWriter::new(MemWriter::new(), Compression::default());
    w.write_all(data).unwrap();
    w.finish().unwrap().into_vec()
}

fn decompress_all(data: Vec<u8>) -> Vec<u8> {
    let mut r = DecoderReader::new(MemReader::new(data));
    let mut out = Vec::new();
    r.read_to_end(&mut out).unwrap();
    out
}

#[test]
fn roundtrip() {
    let mut rng = XorShift::new(7);
    let mut real = Vec::new();
    let mut w = EncoderWriter::new(MemWriter::new(), Compression::default());
    let v = rng.bytes(1024);
    for _ in 0..200 {
        let to_write = &v[..rng.below(v.len())];
        real.extend(to_write.iter().map(|x| *x));
        w.write_all(to_write).unwrap();
    }
    let result = w.finish().unwrap().into_vec();
    let ret = decompress_all(result);
    assert!(ret == real);
}

#[test]
fn drop_writes() {
    let mut w = EncoderWriter::new(MemWriter::new(), Compression::default());
    w.write_all(b"foo").unwrap();
    let data = w.finish().unwrap().into_vec();
    let ret = decompress_all(data);
    assert!(ret == b"foo");
}

#[test]
fn total_in() {
    let mut rng = XorShift::new(11);
    let mut real = Vec::new();
    let mut w = EncoderWriter::new(MemWriter::new(), Compression::default());
    let v = rng.bytes(1024);
    for _ in 0..200 {
        let to_write = &v[..rng.below(v.len())];
        real.extend(to_write.iter().map(|x| *x));
        w.write_all(to_write).unwrap();
    }
    let mut result = w.finish().unwrap().into_vec();

    let result_len = result.len();

    for _ in 0..200 {
        result.extend(v.iter().map(|x| *x));
    }

    let mut r = DecoderReader::new(MemReader::new(result));
    let mut ret = Vec::new();
    r.read_to_end(&mut ret).unwrap();
    assert!(ret == real);
    assert_eq!(r.total_in(), result_len as u64);
}

#[test]
fn roundtrip2() {
    let mut rng = XorShift::new(13);
    let v = rng.bytes(1024 * 1024);
    let enc = EncoderReader::new(MemReader::new(v.clone()), Compression::default());
    let mut r = DecoderReader::new(enc);
    let mut ret = Vec::new();
    r.read_to_end(&mut ret).unwrap();
    assert_eq!(ret, v);
}

#[test]
fn roundtrip3() {
    let mut rng = XorShift::new(17);
    let v = rng.bytes(1024 * 1024);
    let mut w = EncoderWriter::new(DecoderWriter::new(MemWriter::new()), Compression::default());
    w.write_all(&v).unwrap();
    let w = w.finish().unwrap().finish().unwrap().into_vec();
    assert!(w == v);
}

#[test]
fn reset_writer() {
    let mut rng = XorShift::new(19);
    let v = rng.bytes(1024 * 1024);
    let mut w = EncoderWriter::new(MemWriter::new(), Compression::default());
    w.write_all(&v).unwrap();
    let a = w.reset(MemWriter::new()).unwrap().into_vec();
    w.write_all(&v).unwrap();
    let b = w.finish().unwrap().into_vec();

    let mut w = EncoderWriter::new(MemWriter::new(), Compression::default());
    w.write_all(&v).unwrap();
    let c = w.finish().unwrap().into_vec();
    assert!(a == b && b == c);
}

#[test]
fn reset_reader() {
    let mut rng = XorShift::new(23);
    let v = rng.bytes(1024 * 1024);
    let (mut a, mut b, mut c) = (Vec::new(), Vec::new(), Vec::new());
    let mut r = EncoderReader::new(MemReader::new(v.clone()), Compression::default());
    r.read_to_end(&mut a).unwrap();
    r.reset(MemReader::new(v.clone()));
    r.read_to_end(&mut b).unwrap();

    let mut r = EncoderReader::new(MemReader::new(v.clone()), Compression::default());
    r.read_to_end(&mut c).unwrap();
    assert!(a == b && b == c);
}

#[test]
fn reset_decoder() {
    let mut rng = XorShift::new(29);
    let v = rng.bytes(1024 * 1024);
    let mut w = EncoderWriter::new(MemWriter::new(), Compression::default());
    w.write_all(&v).unwrap();
    let data = w.finish().unwrap().into_vec();

    {
        let (mut a, mut b, mut c) = (Vec::new(), Vec::new(), Vec::new());
        let mut r = DecoderReader::new(MemReader::new(data.clone()));
        r.read_to_end(&mut a).unwrap();
        r.reset(MemReader::new(data.clone()));
        r.read_to_end(&mut b).unwrap();

        let mut r = DecoderReader::new(MemReader::new(data.clone()));
        r.read_to_end(&mut c).unwrap();
        assert!(a == b && b == c && c == v);
    }

    {
        let mut w = DecoderWriter::new(MemWriter::new());
        w.write_all(&data).unwrap();
        let a = w.reset(MemWriter::new()).unwrap().into_vec();
        w.write_all(&data).unwrap();
        let b = w.finish().unwrap().into_vec();

        let mut w = DecoderWriter::new(MemWriter::new());
        w.write_all(&data).unwrap();
        let c = w.finish().unwrap().into_vec();
        assert!(a == b && b == c && c == v);
    }
}

#[test]
fn zero_length_read_with_data() {
    let m = vec![3u8; 128 * 1024 + 1];
    let mut c = EncoderReader::new(MemReader::new(m), Compression::default());

    let mut result = Vec::new();
    c.read_to_end(&mut result).unwrap();

    let mut d = DecoderReader::new(MemReader::new(result));
    let mut data = Vec::new();
    assert!(d.read(&mut data).unwrap() == 0);
}

#[test]
fn qc_reader() {
    let mut rng = XorShift::new(31);
    let mut cases: Vec<Vec<u8>> = vec![Vec::new(), vec![0u8], b"abcabcabcabc".to_vec()];
    for i in 0..8 {
        cases.push(rng.bytes(1 + i * 137));
    }
    for v in cases {
        let enc = EncoderReader::new(MemReader::new(v.clone()), Compression::default());
        let mut r = DecoderReader::new(enc);
        let mut v2 = Vec::new();
        r.read_to_end(&mut v2).unwrap();
        assert!(v == v2);
    }
}

#[test]
fn qc_writer() {
    let mut rng = XorShift::new(37);
    let mut cases: Vec<Vec<u8>> = vec![Vec::new(), vec![0u8], b"foofoofoofoo".to_vec()];
    for i in 0..8 {
        cases.push(rng.bytes(1 + i * 1733));
    }
    for v in cases {
        let mut w =
            EncoderWriter::new(DecoderWriter::new(MemWriter::new()), Compression::default());
        w.write_all(&v).unwrap();
        let out = w.finish().unwrap().finish().unwrap().into_vec();
        assert!(v == out);
    }
}

#[test]
fn empty_roundtrip() {
    let data = compress_all(b"");
    assert!(!data.is_empty());
    let ret = decompress_all(data);
    assert!(ret.is_empty());
}

#[test]
fn foo_scenario() {
    let data = compress_all(b"foo");
    let mut d = DecoderReader::new(MemReader::new(data));
    let mut out = Vec::new();
    let n = d.read_to_end(&mut out).unwrap();
    assert_eq!(n, 3);
    assert_eq!(out, b"foo".to_vec());
}

#[test]
fn zero_length_read_after_drain_keeps_counters() {
    let data = compress_all(b"some small payload");
    let mut d = DecoderReader::new(MemReader::new(data));
    let mut out = Vec::new();
    d.read_to_end(&mut out).unwrap();
    let tin = d.total_in();
    let tout = d.total_out();
    let mut empty = Vec::new();
    assert_eq!(d.read(&mut empty).unwrap(), 0);
    let mut buf = vec![0u8; 64];
    assert_eq!(d.read(&mut buf).unwrap(), 0);
    assert_eq!(d.total_in(), tin);
    assert_eq!(d.total_out(), tout);
}

#[test]
fn partial_write_sink_gets_everything() {
    let mut rng = XorShift::new(41);
    let v = rng.bytes(100 * 1024);
    let data = compress_all(&v);

    let mut w = DecoderWriter::new(LimitedWriter::new(7));
    w.write_all(&data).unwrap();
    let total_out = w.total_out();
    let sink = w.finish().unwrap();
    assert_eq!(sink.as_vec().len() as u64, total_out);
    assert!(*sink.as_vec() == v);
}

#[test]
fn trailing_garbage_not_consumed() {
    let mut data = compress_all(b"payload");
    let stream_len = data.len() as u64;
    data.extend(vec![0xA5u8; 4096]);
    let mut d = DecoderReader::new(MemReader::new(data));
    let mut out = Vec::new();
    d.read_to_end(&mut out).unwrap();
    assert_eq!(out, b"payload".to_vec());
    assert_eq!(d.total_in(), stream_len);
    let mut buf = vec![0u8; 16];
    assert_eq!(d.read(&mut buf).unwrap(), 0);
    assert_eq!(d.read(&mut buf).unwrap(), 0);
    assert_eq!(d.total_in(), stream_len);
}

#[test]
fn corrupt_data_is_a_data_error() {
    let junk = vec![0xFFu8; 64];
    let mut d = DecoderReader::new(MemReader::new(junk));
    let mut buf = vec![0u8; 64];
    let mut saw_err = None;
    for _ in 0..4 {
        match d.read(&mut buf) {
            Ok(_) => {},
            Err(e) => {
                saw_err = Some(e);
                break;
            },
        }
    }
    assert_eq!(saw_err, Some(Error::Corrupt));
}

#[test]
fn truncated_stream_fails_finish() {
    let data = compress_all(b"a somewhat longer payload so the stream is not tiny");
    let cut = &data[..data.len() - 4];
    let mut w = DecoderWriter::new(MemWriter::new());
    w.write_all(cut).unwrap();
    assert_eq!(w.finish().err(), Some(Error::Corrupt));
}

#[test]
fn write_after_stream_end_is_refused() {
    let data = compress_all(b"payload");
    let mut w = DecoderWriter::new(MemWriter::new());
    w.write_all(&data).unwrap();
    assert_eq!(w.write_all(b"junk").err(), Some(Error::WriteZero));
    let sink = w.finish().unwrap();
    assert!(*sink.as_vec() == b"payload");
}

#[test]
fn flush_finish_keeps_stream_open() {
    let mut w = EncoderWriter::new(MemWriter::new(), Compression::default());
    w.write_all(b"hello").unwrap();
    let data = w.flush_finish().unwrap().into_vec();
    let mut d = DecoderReader::new(MemReader::new(data));
    let mut out = Vec::new();
    d.read_to_end(&mut out).unwrap();
    assert_eq!(out, b"hello".to_vec());
}

#[test]
fn compression_levels_roundtrip() {
    let mut rng = XorShift::new(43);
    let v = rng.bytes(40 * 1024);
    for level in [Compression::no_compression(), Compression::fast(), Compression::best()] {
        let mut w = EncoderWriter::new(MemWriter::new(), level);
        w.write_all(&v).unwrap();
        let data = w.finish().unwrap().into_vec();
        assert!(decompress_all(data) == v);
    }
}

#[test]
fn flush_mid_stream_then_more_data() {
    let mut w = EncoderWriter::new(MemWriter::new(), Compression::default());
    w.write_all(b"first half ").unwrap();
    w.flush().unwrap();
    w.write_all(b"second half").unwrap();
    let data = w.finish().unwrap().into_vec();
    assert_eq!(decompress_all(data), b"first half second half".to_vec());
}

#[test]
fn reset_data_continues_on_same_source() {
    let a = compress_all(b"one");
    let b = compress_all(b"two");
    let mut both = a.clone();
    both.extend(b.iter().map(|x| *x));
    let mut d = DecoderReaderBuf::new(BufReader::new(MemReader::new(both)));
    let mut out = Vec::new();
    d.read_to_end(&mut out).unwrap();
    assert_eq!(out, b"one".to_vec());
    d.reset_data();
    let mut out2 = Vec::new();
    d.read_to_end(&mut out2).unwrap();
    assert_eq!(out2, b"two".to_vec());
}

#[test]
fn try_finish_is_idempotent() {
    let mut w = EncoderWriter::new(MemWriter::new(), Compression::default());
    w.write_all(b"idempotence check").unwrap();
    w.try_finish().unwrap();
    w.try_finish().unwrap();
    let data = w.finish().unwrap().into_vec();
    assert_eq!(decompress_all(data), b"idempotence check".to_vec());
}

#[test]
fn empty_write_is_a_no_op() {
    let mut w = EncoderWriter::new(MemWriter::new(), Compression::default());
    assert_eq!(w.write(&[]).unwrap(), 0);
    w.write_all(b"xy").unwrap();
    assert_eq!(w.write(&[]).unwrap(), 0);
    let data = w.finish().unwrap().into_vec();
    assert_eq!(decompress_all(data), b"xy".to_vec());
}

#[test]
fn pass_through_read_on_push_adapter() {
    let pipe = MemPipe::new(b"raw side".to_vec());
    let mut e = EncoderWriter::new(pipe, Compression::default());
    e.write_all(b"compressed side").unwrap();
    let mut buf = vec![0u8; 8];
    let n = e.read(&mut buf).unwrap();
    assert_eq!(n, 8);
    assert_eq!(buf, b"raw side".to_vec());
    let pipe = e.finish().unwrap();
    assert_eq!(decompress_all(pipe.into_written()), b"compressed side".to_vec());
}

#[test]
fn pass_through_write_on_pull_adapter() {
    let payload = compress_all(b"pulled");
    let mut d = DecoderReader::new(MemPipe::new(payload));
    d.write(b"note").unwrap();
    d.flush().unwrap();
    let mut out = Vec::new();
    d.read_to_end(&mut out).unwrap();
    assert_eq!(out, b"pulled".to_vec());
    assert_eq!(d.into_inner().into_written(), b"note".to_vec());
}
