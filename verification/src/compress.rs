//! Writing one stream in several formats at once.
//!
//! A stream is handed on chunk by chunk to every format that was asked
//! for, in one pass. What comes out is held in memory until the stream
//! ends.

use std::io::Write;
use vstd::prelude::*;
use crate::error::Error;
use crate::seqs::push_bytes;
use crate::text::{push_str, string_of};

verus! {

/// The stream is written as it is.
pub const UNCOMPRESSED: u8 = 1;

/// The stream is written as gzip, at the best level.
pub const GZ_COMPRESS: u8 = 2;

/// The stream is written as xz, at level 9.
pub const XZ_COMPRESS: u8 = 4;

/// Reserved for zstd; nothing is written for it.
pub const ZSTD_COMPRESS: u8 = 8;

/// A `deflate::write::GzEncoder` that writes into a buffer in memory. The
/// encoder is bounded by `std::io::Write`, so it is held here unseen.
#[verifier::external_body]
pub struct GzSink {
    encoder: deflate::write::GzEncoder<Vec<u8>>,
}

/// An `xz2::write::XzEncoder` that writes into a buffer in memory. The
/// encoder is bounded by `std::io::Write`, so it is held here unseen.
#[verifier::external_body]
pub struct XzSink {
    encoder: xz2::write::XzEncoder<Vec<u8>>,
}

/// What was handed to a gzip encoder so far, write by write.
pub uninterp spec fn gz_input(sink: GzSink) -> Seq<Seq<u8>>;

/// The gzip stream that `deflate::write::GzEncoder`, at the level
/// `Compression::Best`, has written when it ends after these writes.
pub uninterp spec fn gzip_best_of(writes: Seq<Seq<u8>>) -> Seq<u8>;

/// What was handed to an xz encoder so far, write by write.
pub uninterp spec fn xz_input(sink: XzSink) -> Seq<Seq<u8>>;

/// The xz stream that `xz2::write::XzEncoder`, at level 9, has written when
/// it ends after these writes.
pub uninterp spec fn xz9_of(writes: Seq<Seq<u8>>) -> Seq<u8>;

/// Makes a gzip encoder with `GzEncoder::new`, at the level
/// `Compression::Best`, over an empty buffer: nothing was handed to it yet.
#[verifier::external_body]
fn gz_new() -> (sink: GzSink)
    ensures
        gz_input(sink) == Seq::<Seq<u8>>::empty(),
{
    GzSink { encoder: deflate::write::GzEncoder::new(Vec::new(), deflate::Compression::Best) }
}

/// Hands `data` to the gzip encoder with `write_all`. The encoder writes
/// into memory, which takes every write, and `write_all` tries again where
/// the encoder asks for it: the call succeeds, and the encoder has then
/// been handed one write more.
#[verifier::external_body]
fn gz_write(sink: &mut GzSink, data: &[u8]) -> (r: Result<(), String>)
    ensures
        r is Ok,
        gz_input(*final(sink)) == gz_input(*old(sink)).push(data@),
{
    sink.encoder.write_all(data).map_err(|e| e.to_string())
}

/// Ends the gzip stream with `GzEncoder::finish` and returns what the
/// encoder wrote: the call succeeds on a buffer in memory, and the bytes
/// depend on the writes alone.
#[verifier::external_body]
fn gz_finish(sink: GzSink) -> (r: Result<Vec<u8>, String>)
    ensures
        r is Ok,
        r->Ok_0@ == gzip_best_of(gz_input(sink)),
{
    sink.encoder.finish().map_err(|e| e.to_string())
}

/// Makes an xz encoder with `XzEncoder::new`, at level 9, over an empty
/// buffer: nothing was handed to it yet.
#[verifier::external_body]
fn xz_new() -> (sink: XzSink)
    ensures
        xz_input(sink) == Seq::<Seq<u8>>::empty(),
{
    XzSink { encoder: xz2::write::XzEncoder::new(Vec::new(), 9) }
}

/// Hands `data` to the xz encoder with `write_all`. The encoder writes into
/// memory and returns no error of its own from a write: the call succeeds,
/// and the encoder has then been handed one write more.
#[verifier::external_body]
fn xz_write(sink: &mut XzSink, data: &[u8]) -> (r: Result<(), String>)
    ensures
        r is Ok,
        xz_input(*final(sink)) == xz_input(*old(sink)).push(data@),
{
    sink.encoder.write_all(data).map_err(|e| e.to_string())
}

/// Ends the xz stream with `XzEncoder::finish` and returns what the encoder
/// wrote. On a buffer in memory the call fails only where the encoder runs
/// out of memory, of which no contract here speaks; the bytes depend on the
/// writes alone.
#[verifier::external_body]
fn xz_finish(sink: XzSink) -> (r: Result<Vec<u8>, String>)
    ensures
        r is Ok,
        r->Ok_0@ == xz9_of(xz_input(sink)),
{
    sink.encoder.finish().map_err(|e| e.to_string())
}

/// The format of a written file.
#[derive(Clone, Copy, PartialEq, Eq, Debug, Structural)]
pub enum Codec {
    Plain,
    Gzip,
    Xz,
}

/// A file as it is written: its name, its format and its bytes.
pub struct Compressed {
    pub name: String,
    pub codec: Codec,
    pub bytes: Vec<u8>,
}

impl View for Compressed {
    type V = (Seq<char>, Codec, Seq<u8>);

    open spec fn view(&self) -> (Seq<char>, Codec, Seq<u8>) {
        (self.name@, self.codec, self.bytes@)
    }
}

/// Names, formats and bytes of a list of written files.
pub open spec fn file_views(files: Seq<Compressed>) -> Seq<(Seq<char>, Codec, Seq<u8>)> {
    files.map_values(|f: Compressed| f@)
}

/// The chunks of a stream, one after the other.
pub open spec fn stream_of(chunks: Seq<Seq<u8>>) -> Seq<u8>
    decreases chunks.len(),
{
    if chunks.len() == 0 {
        Seq::empty()
    } else {
        stream_of(chunks.drop_last()) + chunks.last()
    }
}

/// The bytes of a list of chunks.
pub open spec fn chunk_views(chunks: Seq<Vec<u8>>) -> Seq<Seq<u8>> {
    chunks.map_values(|c: Vec<u8>| c@)
}

/// The files that are put together from what each format gave, a format
/// that was not asked for giving nothing: the plain stream under `name`,
/// then the gzip stream under `name` with `.gz`, then the xz stream under
/// `name` with `.xz`.
pub open spec fn assembled(
    name: Seq<char>,
    plain: Option<Seq<u8>>,
    gz: Option<Seq<u8>>,
    xz: Option<Seq<u8>>,
) -> Seq<(Seq<char>, Codec, Seq<u8>)> {
    (match plain {
        Some(bytes) => seq![(name, Codec::Plain, bytes)],
        None => Seq::empty(),
    }) + (match gz {
        Some(bytes) => seq![(name + ".gz"@, Codec::Gzip, bytes)],
        None => Seq::empty(),
    }) + (match xz {
        Some(bytes) => seq![(name + ".xz"@, Codec::Xz, bytes)],
        None => Seq::empty(),
    })
}

/// The files that are written for the stream `name`, handed over in the
/// chunks `chunks`, in the formats `support`: the stream itself under
/// `name`, what the gzip encoder makes of the chunks under `name` with
/// `.gz`, what the xz encoder makes of them under `name` with `.xz`, each
/// where its format is asked for.
pub open spec fn compressed(name: Seq<char>, support: u8, chunks: Seq<Seq<u8>>) -> Seq<
    (Seq<char>, Codec, Seq<u8>),
> {
    assembled(
        name,
        if support & UNCOMPRESSED != 0 {
            Some(stream_of(chunks))
        } else {
            None
        },
        if support & GZ_COMPRESS != 0 {
            Some(gzip_best_of(chunks))
        } else {
            None
        },
        if support & XZ_COMPRESS != 0 {
            Some(xz9_of(chunks))
        } else {
            None
        },
    )
}

/// The bytes that a format gave, where it gave any.
pub open spec fn given(result: Option<Result<Vec<u8>, String>>) -> Option<Seq<u8>> {
    match result {
        Some(Ok(bytes)) => Some(bytes@),
        _ => None,
    }
}

/// The bytes of an optional buffer.
pub open spec fn held(buffer: Option<Vec<u8>>) -> Option<Seq<u8>> {
    match buffer {
        Some(bytes) => Some(bytes@),
        None => None,
    }
}

/// Whether `r` is what is put together from what each format gave.
///
/// Where no encoder failed these are the files of `assembled`. The failure
/// of an encoder is the failure of the whole, gzip before xz, and names the
/// file that the encoder would have written.
pub open spec fn is_assembled(
    name: Seq<char>,
    plain: Option<Vec<u8>>,
    gz: Option<Result<Vec<u8>, String>>,
    xz: Option<Result<Vec<u8>, String>>,
    r: Result<Vec<Compressed>, Error>,
) -> bool {
    match (gz, xz) {
        (Some(Err(why)), _) => r matches Err(Error::CompressionIO { destination, reason })
            && destination@ == name + ".gz"@ && reason@ == why@,
        (_, Some(Err(why))) => r matches Err(Error::CompressionIO { destination, reason })
            && destination@ == name + ".xz"@ && reason@ == why@,
        _ => r matches Ok(files) && file_views(files@) == assembled(
            name,
            held(plain),
            given(gz),
            given(xz),
        ),
    }
}

fn with_extension(name: &str, extension: &str) -> (r: String)
    ensures
        r@ == name@ + extension@,
{
    let mut out: Vec<char> = Vec::new();
    push_str(&mut out, name);
    push_str(&mut out, extension);
    let r = string_of(out.as_slice());
    assert(r@ =~= name@ + extension@);
    r
}

/// Puts together what is written from what each format gave.
pub fn assemble(
    name: &str,
    plain: Option<Vec<u8>>,
    gz: Option<Result<Vec<u8>, String>>,
    xz: Option<Result<Vec<u8>, String>>,
) -> (r: Result<Vec<Compressed>, Error>)
    ensures
        is_assembled(name@, plain, gz, xz, r),
{
    let mut files: Vec<Compressed> = Vec::new();
    match plain {
        Some(bytes) => {
            files.push(Compressed { name: name.to_owned(), codec: Codec::Plain, bytes });
        },
        None => {},
    }
    match gz {
        Some(Ok(bytes)) => {
            files.push(
                Compressed { name: with_extension(name, ".gz"), codec: Codec::Gzip, bytes },
            );
        },
        Some(Err(why)) => {
            return Err(
                Error::CompressionIO { destination: with_extension(name, ".gz"), reason: why },
            );
        },
        None => {},
    }
    match xz {
        Some(Ok(bytes)) => {
            files.push(Compressed { name: with_extension(name, ".xz"), codec: Codec::Xz, bytes });
        },
        Some(Err(why)) => {
            return Err(
                Error::CompressionIO { destination: with_extension(name, ".xz"), reason: why },
            );
        },
        None => {},
    }
    assert(file_views(files@) =~= assembled(name@, held(plain), given(gz), given(xz)));
    Ok(files)
}

/// One stream on its way into several formats: every chunk that is written
/// goes to every format that was asked for.
///
/// Should an encoder refuse a write, what it said is kept and becomes the
/// failure of the whole when the stream ends. The encoders write into
/// memory and take every write, so nothing is ever kept there.
pub struct Compressor {
    support: u8,
    plain: Vec<u8>,
    gz: Option<GzSink>,
    xz: Option<XzSink>,
    gz_failure: Option<String>,
    xz_failure: Option<String>,
    chunks: Ghost<Seq<Seq<u8>>>,
}

impl Compressor {
    #[verifier::type_invariant]
    spec fn in_step(self) -> bool {
        &&& self.plain@ == if self.support & UNCOMPRESSED != 0 {
            stream_of(self.chunks@)
        } else {
            Seq::<u8>::empty()
        }
        &&& self.gz is Some <==> self.support & GZ_COMPRESS != 0
        &&& self.xz is Some <==> self.support & XZ_COMPRESS != 0
        &&& self.gz matches Some(sink) ==> gz_input(sink) == self.chunks@
        &&& self.xz matches Some(sink) ==> xz_input(sink) == self.chunks@
        &&& self.gz_failure is None
        &&& self.xz_failure is None
    }

    /// The formats that the stream is written in.
    pub closed spec fn support(self) -> u8 {
        self.support
    }

    /// The chunks that were written so far, in their order.
    pub closed spec fn chunks(self) -> Seq<Seq<u8>> {
        self.chunks@
    }

    /// A stream of which nothing was written yet, to be written in the
    /// formats `support`.
    pub fn new(support: u8) -> (c: Compressor)
        ensures
            c.support() == support,
            c.chunks() == Seq::<Seq<u8>>::empty(),
    {
        let gz = if support & GZ_COMPRESS != 0 {
            Some(gz_new())
        } else {
            None
        };
        let xz = if support & XZ_COMPRESS != 0 {
            Some(xz_new())
        } else {
            None
        };
        Compressor {
            support,
            plain: Vec::new(),
            gz,
            xz,
            gz_failure: None,
            xz_failure: None,
            chunks: Ghost(Seq::empty()),
        }
    }

    /// Writes the next chunk of the stream to every format.
    pub fn write(self, chunk: &[u8]) -> (after: Compressor)
        ensures
            after.support() == self.support(),
            after.chunks() == self.chunks().push(chunk@),
    {
        proof {
            use_type_invariant(&self);
        }
        let support = self.support;
        let mut plain = self.plain;
        let mut gz = self.gz;
        let mut xz = self.xz;
        let mut gz_failure = self.gz_failure;
        let mut xz_failure = self.xz_failure;
        let ghost before = self.chunks@;
        if support & UNCOMPRESSED != 0 {
            push_bytes(&mut plain, chunk);
        }
        match gz {
            Some(mut sink) => {
                match gz_write(&mut sink, chunk) {
                    Ok(()) => {},
                    Err(why) => {
                        gz_failure = Some(why);
                    },
                }
                gz = Some(sink);
            },
            None => {},
        }
        match xz {
            Some(mut sink) => {
                match xz_write(&mut sink, chunk) {
                    Ok(()) => {},
                    Err(why) => {
                        xz_failure = Some(why);
                    },
                }
                xz = Some(sink);
            },
            None => {},
        }
        proof {
            assert(before.push(chunk@).drop_last() =~= before);
        }
        Compressor {
            support,
            plain,
            gz,
            xz,
            gz_failure,
            xz_failure,
            chunks: Ghost(before.push(chunk@)),
        }
    }

    /// Ends the stream `name` and hands out its files: those of
    /// `compressed`, for the chunks that were written.
    pub fn finish(self, name: &str) -> (r: Result<Vec<Compressed>, Error>)
        ensures
            r matches Ok(files) && file_views(files@) == compressed(
                name@,
                self.support(),
                self.chunks(),
            ),
    {
        proof {
            use_type_invariant(&self);
        }
        let plain = if self.support & UNCOMPRESSED != 0 {
            Some(self.plain)
        } else {
            None
        };
        let gz_failure = self.gz_failure;
        let xz_failure = self.xz_failure;
        let gz = match self.gz {
            Some(sink) => Some(
                match gz_failure {
                    Some(why) => Err(why),
                    None => gz_finish(sink),
                },
            ),
            None => None,
        };
        let xz = match self.xz {
            Some(sink) => Some(
                match xz_failure {
                    Some(why) => Err(why),
                    None => xz_finish(sink),
                },
            ),
            None => None,
        };
        assemble(name, plain, gz, xz)
    }
}

/// Writes the stream made of `chunks` in every format that `support` asks
/// for, in one pass over the chunks: the result holds the files of
/// `compressed`.
pub fn compress(name: &str, chunks: &Vec<Vec<u8>>, support: u8) -> (r: Result<
    Vec<Compressed>,
    Error,
>)
    ensures
        r matches Ok(files) && file_views(files@) == compressed(
            name@,
            support,
            chunk_views(chunks@),
        ),
{
    let mut compressor = Compressor::new(support);
    let mut i: usize = 0;
    proof {
        assert(chunk_views(chunks@).take(0) =~= Seq::<Seq<u8>>::empty());
    }
    while i < chunks.len()
        invariant
            i <= chunks.len(),
            compressor.support() == support,
            compressor.chunks() == chunk_views(chunks@).take(i as int),
        decreases chunks.len() - i,
    {
        proof {
            assert(chunk_views(chunks@).take(i + 1) =~= chunk_views(chunks@).take(i as int).push(
                chunks@[i as int]@,
            ));
        }
        compressor = compressor.write(chunks[i].as_slice());
        i += 1;
    }
    proof {
        assert(chunk_views(chunks@).take(chunks@.len() as int) =~= chunk_views(chunks@));
    }
    compressor.finish(name)
}

} // verus!
