//! Bounded expansion of the compressed TAR payloads (gzip, bzip2, XZ).
//!
//! The decoders themselves are outside crates; this module drives them and
//! owns every decision about limits, truncation and the end of a stream.
use crate::archive::{detect_bytes, spec_detect, ArchiveError, Format, XZ_MEMORY_LIMIT_KIB};
use bzip2::read::MultiBzDecoder;
use flate2::read::MultiGzDecoder;
use lzma_rust2::{Action, Status, XzStream};
use std::io::Read;
use vstd::prelude::*;
use vstd::slice::slice_subrange;

verus! {

#[verifier::external_type_specification]
#[verifier::external_body]
pub struct ExIoError(std::io::Error);

#[verifier::external_type_specification]
#[verifier::external_body]
pub struct ExXzStream(XzStream);

#[verifier::external_type_specification]
#[verifier::external_body]
#[verifier::reject_recursive_types(R)]
pub struct ExMultiGzDecoder<R>(MultiGzDecoder<R>);

#[verifier::external_type_specification]
#[verifier::external_body]
#[verifier::reject_recursive_types(R)]
pub struct ExMultiBzDecoder<R>(MultiBzDecoder<R>);

/// Size of the buffer each decoder call writes into.
pub const CHUNK: usize = 65536;

/// Where a bounded expansion stands after one decoder call.
#[derive(Debug, Clone, Copy, PartialEq, Eq)]
pub enum Progress {
    /// Keep going; this many bytes have been produced so far.
    More(u64),
    /// The stream ended after this many bytes.
    Finished(u64),
    /// Stop with this error.
    Failed(ArchiveError),
}

/// The step taken after a read of `count` bytes when `total` bytes were
/// produced before, under `limit`: a read of nothing ends the stream.
pub open spec fn spec_read_progress(total: int, limit: int, count: int) -> Progress {
    if count == 0 {
        Progress::Finished(total as u64)
    } else if total + count > limit {
        Progress::Failed(ArchiveError::SizeLimit)
    } else {
        Progress::More((total + count) as u64)
    }
}

/// A bounded copy driven by [`spec_read_progress`], from `total` bytes
/// copied, through reads of `counts` bytes in turn: the bytes handed on
/// (a read is handed on only when its step says to go on), and the step
/// that ended the copy, if one did.
pub open spec fn copy_run(counts: Seq<nat>, limit: int, total: int) -> (int, Option<Progress>)
    decreases counts.len(),
{
    if counts.len() == 0 {
        (total, None)
    } else {
        match spec_read_progress(total, limit, counts[0] as int) {
            Progress::More(next) => copy_run(counts.drop_first(), limit, next as int),
            step => (total, Some(step)),
        }
    }
}

/// The bytes a reader yields before its first empty read.
pub open spec fn bytes_before_end(counts: Seq<nat>) -> nat
    decreases counts.len(),
{
    if counts.len() == 0 || counts[0] == 0 {
        0
    } else {
        counts[0] + bytes_before_end(counts.drop_first())
    }
}

/// A bounded copy never hands on more than its limit; a copy that finishes
/// handed on exactly what the reader yielded before its end, and reports
/// that count; a reader that yields more than the limit allows makes the
/// copy fail with the size limit, and one that ends within it makes the
/// copy finish.
pub proof fn law_copy_within_limit(counts: Seq<nat>, limit: int, total: int)
    requires
        0 <= total <= limit <= u64::MAX,
    ensures
        total <= copy_run(counts, limit, total).0 <= limit,
        copy_run(counts, limit, total).1 matches Some(Progress::Finished(n)) ==> n == copy_run(
            counts,
            limit,
            total,
        ).0 && n == total + bytes_before_end(counts),
        total + bytes_before_end(counts) > limit ==> copy_run(counts, limit, total).1 == Some(
            Progress::Failed(ArchiveError::SizeLimit),
        ),
        counts.contains(0) && total + bytes_before_end(counts) <= limit ==> copy_run(
            counts,
            limit,
            total,
        ).1 == Some(Progress::Finished((total + bytes_before_end(counts)) as u64)),
    decreases counts.len(),
{
    if counts.len() > 0 && counts[0] != 0 && total + counts[0] <= limit {
        if counts.contains(0) {
            let k = choose|k: int| 0 <= k < counts.len() && counts[k] == 0;
            assert(counts.drop_first()[k - 1] == 0);
            assert(counts.drop_first().contains(0));
        }
        law_copy_within_limit(counts.drop_first(), limit, total + counts[0]);
    }
}

/// The step after a read of `count` decoded bytes (see [`spec_read_progress`]).
pub fn read_progress(total: u64, limit: u64, count: usize) -> (r: Progress)
    requires
        total <= limit,
    ensures
        r == spec_read_progress(total as int, limit as int, count as int),
{
    if count == 0 {
        Progress::Finished(total)
    } else if count as u64 > limit - total {
        Progress::Failed(ArchiveError::SizeLimit)
    } else {
        Progress::More(total + count as u64)
    }
}

/// The step after one XZ decoder call that consumed `consumed` input bytes,
/// produced `produced` bytes and reported whether the stream `ended`: more
/// than `limit` bytes in all fail, an ended stream finishes, and a call that
/// made no progress means truncated or invalid input.
pub open spec fn spec_xz_progress(
    total: int,
    limit: int,
    consumed: int,
    produced: int,
    ended: bool,
) -> Progress {
    if total + produced > limit {
        Progress::Failed(ArchiveError::SizeLimit)
    } else if ended {
        Progress::Finished((total + produced) as u64)
    } else if consumed == 0 && produced == 0 {
        Progress::Failed(ArchiveError::InvalidXz)
    } else {
        Progress::More((total + produced) as u64)
    }
}

/// The step after one XZ decoder call (see [`spec_xz_progress`]).
pub fn xz_progress(total: u64, limit: u64, consumed: usize, produced: usize, ended: bool) -> (r:
    Progress)
    requires
        total <= limit,
    ensures
        r == spec_xz_progress(total as int, limit as int, consumed as int, produced as int, ended),
{
    if produced as u64 > limit - total {
        Progress::Failed(ArchiveError::SizeLimit)
    } else if ended {
        Progress::Finished(total + produced as u64)
    } else if consumed == 0 && produced == 0 {
        Progress::Failed(ArchiveError::InvalidXz)
    } else {
        Progress::More(total + produced as u64)
    }
}

/// The bytes that an XZ decoder made by `XzStream::new_mem_limit(true,
/// mem_limit_kib)` produces for `data`: the output of its `process` calls up
/// to `Status::StreamEnd`, each call offered all of `data` not yet consumed,
/// with `Action::Finish` once none is left. `None` where a call fails, or
/// returns without consuming or producing anything, before the end.
pub uninterp spec fn xz_expansion(mem_limit_kib: u32, data: Seq<u8>) -> Option<Seq<u8>>;

/// What an XZ decoder still holds for the input `rest`: the bytes its
/// `process` calls produce up to the end of the stream when offered `rest` in
/// the same way as [`xz_expansion`], or `None` where that fails.
pub uninterp spec fn xz_pending(decoder: XzStream, rest: Seq<u8>) -> Option<Seq<u8>>;

/// The bytes that a flate2 `MultiGzDecoder` over `data` yields when read up
/// to its end (every member, each trailer checked), or `None` where a read
/// fails before a clean end.
pub uninterp spec fn gzip_expansion(data: Seq<u8>) -> Option<Seq<u8>>;

/// What a gzip decoder still holds: the bytes that reading it up to its end
/// yields, or `None` where a read fails before a clean end.
pub uninterp spec fn gzip_pending(decoder: MultiGzDecoder<&[u8]>) -> Option<Seq<u8>>;

/// The bytes that a bzip2 `MultiBzDecoder` over `data` yields when read up
/// to its end (every stream, each checksum checked), or `None` where a read
/// fails before a clean end.
pub uninterp spec fn bzip2_expansion(data: Seq<u8>) -> Option<Seq<u8>>;

/// What a bzip2 decoder still holds: the bytes that reading it up to its end
/// yields, or `None` where a read fails before a clean end.
pub uninterp spec fn bzip2_pending(decoder: MultiBzDecoder<&[u8]>) -> Option<Seq<u8>>;

/// `XzStream::new_mem_limit`: a decoder that accepts concatenated streams
/// and refuses blocks needing more than `mem_limit_kib` KiB. Claimed: a fresh
/// decoder yields, for any input, the expansion named by [`xz_expansion`].
#[verifier::external_body]
fn xz_decoder(mem_limit_kib: u32) -> (r: XzStream)
    ensures
        forall|data: Seq<u8>| #[trigger] xz_pending(r, data) == xz_expansion(mem_limit_kib, data),
{
    XzStream::new_mem_limit(true, mem_limit_kib)
}

/// `XzStream::process`: decodes from `input` into `output` (with
/// `Action::Finish` when `finish`, that is once no input is left), returning
/// the bytes consumed and produced and whether the stream ended. Claimed, for
/// a non-empty output buffer: the counts stay within the two buffers and the
/// output buffer keeps its length; where the decoder can finish on `input`, the call succeeds, writes
/// the next bytes of that output, ends exactly when they are the last, and
/// otherwise makes progress and leaves the rest pending; where it cannot, the
/// call does not report the end and the failure stays pending.
#[verifier::external_body]
fn xz_process(decoder: &mut XzStream, input: &[u8], output: &mut [u8], finish: bool) -> (r:
    Result<(usize, usize, bool), std::io::Error>)
    requires
        finish == (input@.len() == 0),
        old(output)@.len() > 0,
    ensures
        final(output)@.len() == old(output)@.len(),
        r matches Ok((consumed, produced, _)) ==> consumed <= input@.len() && produced
            <= old(output)@.len(),
        xz_pending(*old(decoder), input@) matches Some(c) ==> (r matches Ok(
            (consumed, produced, ended),
        ) && produced <= c.len() && final(output)@.take(produced as int) == c.take(
            produced as int,
        ) && (ended ==> produced == c.len()) && (!ended ==> (consumed > 0 || produced > 0)
            && xz_pending(*final(decoder), input@.skip(consumed as int)) == Some(
            c.skip(produced as int),
        ))),
        xz_pending(*old(decoder), input@) is None ==> (r matches Ok((consumed, produced, ended))
            ==> !ended && (consumed > 0 || produced > 0 ==> xz_pending(
            *final(decoder),
            input@.skip(consumed as int),
        ) is None)),
{
    let action = match finish {
        true => Action::Finish,
        false => Action::Run,
    };
    let result = decoder.process(input, output, action)?;
    Ok((result.bytes_consumed, result.bytes_produced, matches!(result.status, Status::StreamEnd)))
}

/// `flate2::read::MultiGzDecoder::new` over the compressed bytes: the
/// decoder holds the expansion of `data`.
#[verifier::external_body]
fn gzip_decoder<'a>(data: &'a [u8]) -> (r: MultiGzDecoder<&'a [u8]>)
    ensures
        gzip_pending(r) == gzip_expansion(data@),
{
    MultiGzDecoder::new(data)
}

/// `Read::read` on a gzip decoder: as `std::io::Read` documents, a count of
/// at most the buffer's length, with 0 at the end of the stream; the buffer
/// keeps its length. Claimed, for a non-empty buffer: where the rest of the
/// stream decodes, the read succeeds with its next bytes (none only at the
/// end) and leaves the remainder pending; where it does not, a successful
/// read yields something and the failure stays pending.
#[verifier::external_body]
fn gzip_read(decoder: &mut MultiGzDecoder<&[u8]>, buffer: &mut [u8]) -> (r: Result<
    usize,
    std::io::Error,
>)
    requires
        old(buffer)@.len() > 0,
    ensures
        final(buffer)@.len() == old(buffer)@.len(),
        r matches Ok(n) ==> n <= old(buffer)@.len(),
        gzip_pending(*old(decoder)) matches Some(c) ==> (r matches Ok(n) && n <= c.len()
            && final(buffer)@.take(n as int) == c.take(n as int) && gzip_pending(*final(decoder))
            == Some(c.skip(n as int)) && (n == 0 ==> c.len() == 0)),
        gzip_pending(*old(decoder)) is None ==> (r matches Ok(n) ==> n > 0 && gzip_pending(*final(decoder))
            is None),
{
    decoder.read(buffer)
}

/// `bzip2::read::MultiBzDecoder::new` over the compressed bytes: the
/// decoder holds the expansion of `data`.
#[verifier::external_body]
fn bzip2_decoder<'a>(data: &'a [u8]) -> (r: MultiBzDecoder<&'a [u8]>)
    ensures
        bzip2_pending(r) == bzip2_expansion(data@),
{
    MultiBzDecoder::new(data)
}

/// `Read::read` on a bzip2 decoder, with the same claims as [`gzip_read`]
/// over [`bzip2_pending`].
#[verifier::external_body]
fn bzip2_read(decoder: &mut MultiBzDecoder<&[u8]>, buffer: &mut [u8]) -> (r: Result<
    usize,
    std::io::Error,
>)
    requires
        old(buffer)@.len() > 0,
    ensures
        final(buffer)@.len() == old(buffer)@.len(),
        r matches Ok(n) ==> n <= old(buffer)@.len(),
        bzip2_pending(*old(decoder)) matches Some(c) ==> (r matches Ok(n) && n <= c.len()
            && final(buffer)@.take(n as int) == c.take(n as int) && bzip2_pending(*final(decoder))
            == Some(c.skip(n as int)) && (n == 0 ==> c.len() == 0)),
        bzip2_pending(*old(decoder)) is None ==> (r matches Ok(n) ==> n > 0 && bzip2_pending(*final(decoder))
            is None),
{
    decoder.read(buffer)
}

/// The expanded bytes of a result.
pub open spec fn result_bytes(r: Result<Vec<u8>, ArchiveError>) -> Result<Seq<u8>, ArchiveError> {
    match r {
        Ok(v) => Ok(v@),
        Err(e) => Err(e),
    }
}

/// The outcome of expanding, within `limit` bytes, a stream that decodes to
/// `expansion`: all of it when it fits, a size error when it does not, and
/// nothing fixed for a stream that does not decode.
pub open spec fn expansion_outcome(expansion: Option<Seq<u8>>, limit: int) -> Option<
    Result<Seq<u8>, ArchiveError>,
> {
    match expansion {
        Some(c) => Some(
            if c.len() <= limit {
                Ok(c)
            } else {
                Err(ArchiveError::SizeLimit)
            },
        ),
        None => None,
    }
}

/// What has been expanded so far: the first `total` bytes of a decodable
/// stream with the rest still pending, or a failure still pending.
pub open spec fn expanded_so_far(
    expansion: Option<Seq<u8>>,
    pending: Option<Seq<u8>>,
    out: Seq<u8>,
) -> bool {
    match expansion {
        Some(c) => out.len() <= c.len() && out == c.take(out.len() as int) && pending == Some(
            c.skip(out.len() as int),
        ),
        None => pending is None,
    }
}

/// Appending the next `n` pending bytes keeps [`expanded_so_far`].
proof fn lemma_expand_step(c: Seq<u8>, out: Seq<u8>, chunk: Seq<u8>, n: int)
    requires
        out.len() <= c.len(),
        out == c.take(out.len() as int),
        0 <= n <= c.skip(out.len() as int).len(),
        chunk == c.skip(out.len() as int).take(n),
    ensures
        out + chunk == c.take(out.len() + n),
        c.skip(out.len() as int).skip(n) == c.skip(out.len() + n),
{
    assert(out + chunk =~= c.take(out.len() + n));
    assert(c.skip(out.len() as int).skip(n) =~= c.skip(out.len() + n));
}

/// Expands a gzip stream (all members) to at most `limit` bytes, reading it
/// to its end so that the trailer checksums are verified.
pub fn gunzip_limited(data: &[u8], limit: u64) -> (r: Result<Vec<u8>, ArchiveError>)
    ensures
        expansion_outcome(gzip_expansion(data@), limit as int) matches Some(o) ==> result_bytes(r)
            == o,
        gzip_expansion(data@) is None ==> r is Err,
        r matches Err(e) ==> e == ArchiveError::SizeLimit || e == ArchiveError::Corrupt,
{
    let mut decoder = gzip_decoder(data);
    let mut buffer: Vec<u8> = vec![0u8; CHUNK];
    let mut out: Vec<u8> = Vec::new();
    let mut total: u64 = 0;
    proof {
        if let Some(c) = gzip_expansion(data@) {
            assert(c.skip(0) =~= c);
            assert(c.take(0) =~= out@);
        }
    }
    loop
        invariant
            total <= limit,
            out@.len() == total,
            buffer@.len() == CHUNK,
            expanded_so_far(gzip_expansion(data@), gzip_pending(decoder), out@),
        decreases limit - total,
    {
        let ghost before = gzip_pending(decoder);
        let count = match gzip_read(&mut decoder, buffer.as_mut_slice()) {
            Ok(n) => n,
            Err(_) => {
                return Err(ArchiveError::Corrupt);
            },
        };
        match read_progress(total, limit, count) {
            Progress::Finished(_) => {
                proof {
                    if let Some(c) = gzip_expansion(data@) {
                        assert(out@ =~= c);
                    }
                }
                return Ok(out);
            },
            Progress::Failed(e) => {
                return Err(e);
            },
            Progress::More(next) => {
                let ghost prior = out@;
                let chunk = slice_subrange(buffer.as_slice(), 0, count);
                out.extend_from_slice(chunk);
                proof {
                    if let Some(c) = gzip_expansion(data@) {
                        assert(before == Some(c.skip(prior.len() as int)));
                        let rest = c.skip(prior.len() as int);
                        assert(chunk@ == buffer@.take(count as int));
                        assert(chunk@ == rest.take(count as int));
                        lemma_expand_step(c, prior, chunk@, count as int);
                        assert(gzip_pending(decoder) == Some(rest.skip(count as int)));
                        assert(out@ == prior + chunk@);
                        assert(out@ == c.take(out@.len() as int));
                    }
                }
                total = next;
            },
        }
    }
}

/// Expands a bzip2 stream (all members) to at most `limit` bytes, reading it
/// to its end so that the stream checksums are verified.
pub fn bunzip2_limited(data: &[u8], limit: u64) -> (r: Result<Vec<u8>, ArchiveError>)
    ensures
        expansion_outcome(bzip2_expansion(data@), limit as int) matches Some(o) ==> result_bytes(
            r,
        ) == o,
        bzip2_expansion(data@) is None ==> r is Err,
        r matches Err(e) ==> e == ArchiveError::SizeLimit || e == ArchiveError::Corrupt,
{
    let mut decoder = bzip2_decoder(data);
    let mut buffer: Vec<u8> = vec![0u8; CHUNK];
    let mut out: Vec<u8> = Vec::new();
    let mut total: u64 = 0;
    proof {
        if let Some(c) = bzip2_expansion(data@) {
            assert(c.skip(0) =~= c);
            assert(c.take(0) =~= out@);
        }
    }
    loop
        invariant
            total <= limit,
            out@.len() == total,
            buffer@.len() == CHUNK,
            expanded_so_far(bzip2_expansion(data@), bzip2_pending(decoder), out@),
        decreases limit - total,
    {
        let ghost before = bzip2_pending(decoder);
        let count = match bzip2_read(&mut decoder, buffer.as_mut_slice()) {
            Ok(n) => n,
            Err(_) => {
                return Err(ArchiveError::Corrupt);
            },
        };
        match read_progress(total, limit, count) {
            Progress::Finished(_) => {
                proof {
                    if let Some(c) = bzip2_expansion(data@) {
                        assert(out@ =~= c);
                    }
                }
                return Ok(out);
            },
            Progress::Failed(e) => {
                return Err(e);
            },
            Progress::More(next) => {
                let ghost prior = out@;
                let chunk = slice_subrange(buffer.as_slice(), 0, count);
                out.extend_from_slice(chunk);
                proof {
                    if let Some(c) = bzip2_expansion(data@) {
                        let rest = c.skip(prior.len() as int);
                        assert(before == Some(rest));
                        assert(chunk@ == buffer@.take(count as int));
                        assert(chunk@ == rest.take(count as int));
                        lemma_expand_step(c, prior, chunk@, count as int);
                        assert(bzip2_pending(decoder) == Some(rest.skip(count as int)));
                        assert(out@ == prior + chunk@);
                        assert(out@ == c.take(out@.len() as int));
                    }
                }
                total = next;
            },
        }
    }
}

/// Expands an XZ stream (concatenated streams too) to at most `limit` bytes,
/// with the decoder's memory bounded by [`XZ_MEMORY_LIMIT_KIB`]; decoding
/// runs to the end of the stream, so the trailer and checksum are verified.
pub fn decode_xz(data: &[u8], limit: u64) -> (r: Result<Vec<u8>, ArchiveError>)
    ensures
        expansion_outcome(xz_expansion(XZ_MEMORY_LIMIT_KIB, data@), limit as int) matches Some(o)
            ==> result_bytes(r) == o,
        xz_expansion(XZ_MEMORY_LIMIT_KIB, data@) is None ==> r is Err,
        r matches Err(e) ==> e == ArchiveError::SizeLimit || e == ArchiveError::InvalidXz || e
            == ArchiveError::Corrupt,
{
    let mut decoder = xz_decoder(XZ_MEMORY_LIMIT_KIB);
    let mut buffer: Vec<u8> = vec![0u8; CHUNK];
    let mut out: Vec<u8> = Vec::new();
    let mut total: u64 = 0;
    let mut position: usize = 0;
    proof {
        assert(data@.skip(0) =~= data@);
        assert(xz_pending(decoder, data@.skip(0)) == xz_expansion(XZ_MEMORY_LIMIT_KIB, data@));
        if let Some(c) = xz_expansion(XZ_MEMORY_LIMIT_KIB, data@) {
            assert(c.skip(0) =~= c);
            assert(c.take(0) =~= out@);
        }
    }
    loop
        invariant
            total <= limit,
            out@.len() == total,
            position <= data@.len(),
            buffer@.len() == CHUNK,
            expanded_so_far(
                xz_expansion(XZ_MEMORY_LIMIT_KIB, data@),
                xz_pending(decoder, data@.skip(position as int)),
                out@,
            ),
        decreases (data@.len() - position) + (limit - total),
    {
        let eof = position == data.len();
        let input = slice_subrange(data, position, data.len());
        assert(input@ =~= data@.skip(position as int));
        let ghost before = xz_pending(decoder, input@);
        let step = xz_process(&mut decoder, input, buffer.as_mut_slice(), eof);
        let (consumed, produced, ended) = match step {
            Ok(t) => t,
            Err(_) => {
                return Err(ArchiveError::Corrupt);
            },
        };
        assert(input@.skip(consumed as int) =~= data@.skip(position + consumed));
        let ghost prior = out@;
        match xz_progress(total, limit, consumed, produced, ended) {
            Progress::Failed(e) => {
                return Err(e);
            },
            Progress::Finished(_) => {
                let chunk = slice_subrange(buffer.as_slice(), 0, produced);
                out.extend_from_slice(chunk);
                proof {
                    if let Some(c) = xz_expansion(XZ_MEMORY_LIMIT_KIB, data@) {
                        let rest = c.skip(prior.len() as int);
                        assert(before == Some(rest));
                        assert(chunk@ == buffer@.take(produced as int));
                        assert(chunk@ == rest.take(produced as int));
                        lemma_expand_step(c, prior, chunk@, produced as int);
                        assert(out@ == prior + chunk@);
                        assert(c.take(c.len() as int) =~= c);
                    }
                }
                return Ok(out);
            },
            Progress::More(next) => {
                let chunk = slice_subrange(buffer.as_slice(), 0, produced);
                out.extend_from_slice(chunk);
                proof {
                    if let Some(c) = xz_expansion(XZ_MEMORY_LIMIT_KIB, data@) {
                        let rest = c.skip(prior.len() as int);
                        assert(before == Some(rest));
                        assert(chunk@ == buffer@.take(produced as int));
                        assert(chunk@ == rest.take(produced as int));
                        lemma_expand_step(c, prior, chunk@, produced as int);
                        assert(out@ == prior + chunk@);
                        assert(out@ == c.take(out@.len() as int));
                    }
                }
                total = next;
                position = position + consumed;
            },
        }
    }
}

/// A downloaded payload ready for extraction.
pub enum Payload {
    /// A ZIP archive, read in place.
    Zip,
    /// The bytes of a TAR archive: the payload itself, or what its
    /// compression expanded to.
    Tar(Vec<u8>),
}

/// The expansion of `data` in the compression format `format`.
pub open spec fn compressed_expansion(format: Format, data: Seq<u8>) -> Option<Seq<u8>> {
    match format {
        Format::Gzip => gzip_expansion(data),
        Format::Bzip2 => bzip2_expansion(data),
        Format::Xz => xz_expansion(XZ_MEMORY_LIMIT_KIB, data),
        _ => None,
    }
}

/// The TAR bytes or the error of an unpacked payload (nothing for ZIP).
pub open spec fn tar_outcome(r: Result<Payload, ArchiveError>) -> Option<
    Result<Seq<u8>, ArchiveError>,
> {
    match r {
        Ok(Payload::Tar(v)) => Some(Ok(v@)),
        Ok(Payload::Zip) => None,
        Err(e) => Some(Err(e)),
    }
}

/// The result of an expansion, carried into a payload.
fn tar_payload(r: Result<Vec<u8>, ArchiveError>) -> (p: Result<Payload, ArchiveError>)
    ensures
        tar_outcome(p) == Some(result_bytes(r)),
{
    match r {
        Ok(v) => Ok(Payload::Tar(v)),
        Err(e) => Err(e),
    }
}

/// Recognises a payload by its content alone and expands a compressed TAR
/// stream within `byte_limit`, so that the whole decoded stream (TAR
/// metadata and padding included) is bounded and its trailer verified.
pub fn unpack_payload(data: &[u8], byte_limit: u64) -> (r: Result<Payload, ArchiveError>)
    ensures
        spec_detect(data@) is None ==> r == Err::<Payload, ArchiveError>(ArchiveError::Unsupported),
        spec_detect(data@) == Some(Format::Zip) ==> r matches Ok(Payload::Zip),
        spec_detect(data@) == Some(Format::Tar) ==> (r matches Ok(Payload::Tar(v)) && v@ == data@),
        r matches Ok(Payload::Tar(v)) ==> (spec_detect(data@) == Some(Format::Tar) || v@.len()
            <= byte_limit),
        r matches Ok(Payload::Zip) ==> spec_detect(data@) == Some(Format::Zip),
        r matches Ok(Payload::Tar(_)) ==> spec_detect(data@) != Some(Format::Zip) && spec_detect(
            data@,
        ) is Some,
        spec_detect(data@) matches Some(f) ==> (f != Format::Zip && f != Format::Tar ==> (
        expansion_outcome(compressed_expansion(f, data@), byte_limit as int) matches Some(o)
            ==> tar_outcome(r) == Some(o))),
        spec_detect(data@) matches Some(f) ==> (f != Format::Zip && f != Format::Tar
            && compressed_expansion(f, data@) is None ==> r is Err),
{
    match detect_bytes(data) {
        None => Err(ArchiveError::Unsupported),
        Some(Format::Zip) => Ok(Payload::Zip),
        Some(Format::Tar) => {
            let mut copy: Vec<u8> = Vec::new();
            copy.extend_from_slice(data);
            assert(copy@ =~= data@);
            Ok(Payload::Tar(copy))
        },
        Some(Format::Gzip) => tar_payload(gunzip_limited(data, byte_limit)),
        Some(Format::Bzip2) => tar_payload(bunzip2_limited(data, byte_limit)),
        Some(Format::Xz) => tar_payload(decode_xz(data, byte_limit)),
    }
}

} // verus!
