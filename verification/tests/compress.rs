use std::io::Read;

use debrep::compress::{
    assemble, compress, Codec, Compressor, GZ_COMPRESS, UNCOMPRESSED, XZ_COMPRESS, ZSTD_COMPRESS,
};
use debrep::error::Error;

fn gunzip(bytes: &[u8]) -> Vec<u8> {
    let mut decoder = libflate::gzip::Decoder::new(bytes).unwrap();
    let mut out = Vec::new();
    decoder.read_to_end(&mut out).unwrap();
    out
}

fn unxz(bytes: &[u8]) -> Vec<u8> {
    let mut decoder = xz2::read::XzDecoder::new(bytes);
    let mut out = Vec::new();
    decoder.read_to_end(&mut out).unwrap();
    out
}

fn stream() -> Vec<Vec<u8>> {
    let mut chunks = Vec::new();
    for i in 0..200 {
        chunks.push(format!("Package: pkg{}\nVersion: {}.0\n", i, i).into_bytes());
        chunks.push(vec![b'\n']);
    }
    chunks
}

#[test]
fn every_format_holds_the_same_stream() {
    let chunks = stream();
    let whole: Vec<u8> = chunks.concat();
    let files = compress("Packages", &chunks, UNCOMPRESSED | GZ_COMPRESS | XZ_COMPRESS).unwrap();
    assert_eq!(files.len(), 3);
    assert_eq!(files[0].name, "Packages");
    assert_eq!(files[0].codec, Codec::Plain);
    assert_eq!(files[0].bytes, whole);
    assert_eq!(files[1].name, "Packages.gz");
    assert_eq!(files[1].codec, Codec::Gzip);
    assert_ne!(files[1].bytes, whole);
    assert_eq!(gunzip(&files[1].bytes), whole);
    assert_eq!(files[2].name, "Packages.xz");
    assert_eq!(files[2].codec, Codec::Xz);
    assert_ne!(files[2].bytes, whole);
    assert_eq!(unxz(&files[2].bytes), whole);
    assert_eq!(gunzip(&files[1].bytes), unxz(&files[2].bytes));
}

#[test]
fn only_the_formats_asked_for_are_written() {
    let chunks = stream();
    assert_eq!(compress("x", &chunks, 0).unwrap().len(), 0);
    assert_eq!(compress("x", &chunks, ZSTD_COMPRESS).unwrap().len(), 0);
    let plain = compress("x", &chunks, UNCOMPRESSED).unwrap();
    assert_eq!(plain.len(), 1);
    assert_eq!(plain[0].name, "x");
    let gz = compress("x", &chunks, GZ_COMPRESS).unwrap();
    assert_eq!(gz.len(), 1);
    assert_eq!(gz[0].name, "x.gz");
    assert_eq!(gunzip(&gz[0].bytes), chunks.concat());
    let xz = compress("x", &chunks, XZ_COMPRESS | ZSTD_COMPRESS).unwrap();
    assert_eq!(xz.len(), 1);
    assert_eq!(xz[0].name, "x.xz");
    assert_eq!(unxz(&xz[0].bytes), chunks.concat());
    let both = compress("x", &chunks, GZ_COMPRESS | XZ_COMPRESS).unwrap();
    assert_eq!(both.len(), 2);
    assert_eq!(both[0].codec, Codec::Gzip);
    assert_eq!(both[1].codec, Codec::Xz);
}

#[test]
fn an_empty_stream_is_written_too() {
    let files = compress("Release", &Vec::new(), UNCOMPRESSED | GZ_COMPRESS | XZ_COMPRESS).unwrap();
    assert_eq!(files[0].bytes, Vec::<u8>::new());
    assert_eq!(gunzip(&files[1].bytes), Vec::<u8>::new());
    assert_eq!(unxz(&files[2].bytes), Vec::<u8>::new());
}

#[test]
fn a_failing_encoder_fails_the_whole() {
    let failed = assemble(
        "Packages",
        Some(b"plain".to_vec()),
        Some(Err("disk full".to_owned())),
        Some(Ok(b"xz".to_vec())),
    );
    assert_eq!(
        failed.err(),
        Some(Error::CompressionIO {
            destination: "Packages.gz".to_owned(),
            reason: "disk full".to_owned()
        })
    );
    let failed = assemble("Packages", None, Some(Ok(b"gz".to_vec())), Some(Err("no memory".to_owned())));
    assert_eq!(
        failed.err(),
        Some(Error::CompressionIO {
            destination: "Packages.xz".to_owned(),
            reason: "no memory".to_owned()
        })
    );
    let files = assemble("P", Some(b"p".to_vec()), None, Some(Ok(b"x".to_vec()))).unwrap();
    assert_eq!(files.len(), 2);
    assert_eq!((files[0].name.as_str(), files[0].codec, files[0].bytes.as_slice()), ("P", Codec::Plain, &b"p"[..]));
    assert_eq!((files[1].name.as_str(), files[1].codec, files[1].bytes.as_slice()), ("P.xz", Codec::Xz, &b"x"[..]));
    assert_eq!(assemble("P", None, None, None).unwrap().len(), 0);
}

#[test]
fn chunks_written_one_by_one_give_the_same_files() {
    let chunks = stream();
    let mut step = Compressor::new(UNCOMPRESSED | GZ_COMPRESS | XZ_COMPRESS);
    for chunk in chunks.iter() {
        step = step.write(chunk);
    }
    let files = step.finish("Packages").unwrap();
    let whole = compress("Packages", &chunks, UNCOMPRESSED | GZ_COMPRESS | XZ_COMPRESS).unwrap();
    assert_eq!(files.len(), 3);
    for i in 0..3 {
        assert_eq!(files[i].name, whole[i].name);
        assert_eq!(files[i].codec, whole[i].codec);
        assert_eq!(files[i].bytes, whole[i].bytes);
    }
    assert_eq!(files[0].bytes, chunks.concat());
    assert_eq!(gunzip(&files[1].bytes), chunks.concat());
    assert_eq!(unxz(&files[2].bytes), chunks.concat());

    let none = Compressor::new(0).write(b"abc").finish("x").unwrap();
    assert_eq!(none.len(), 0);
    let plain = Compressor::new(UNCOMPRESSED).write(b"ab").write(b"").write(b"c").finish("x").unwrap();
    assert_eq!(plain.len(), 1);
    assert_eq!(plain[0].bytes, b"abc");
}
