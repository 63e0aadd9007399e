//! Checking a downloaded build against the digest the portal announced.
use vstd::prelude::*;

use sha2::Digest;

use crate::text::{append_text, hex_lower, text_eq, text_from, to_hex_lower};

verus! {

/// The SHA-256 digest of `data`, as `sha2` computes it.
pub uninterp spec fn sha256(data: Seq<u8>) -> Seq<u8>;

/// `sha2::Sha256::digest`: the SHA-256 digest of `data`, 32 bytes long.
#[verifier::external_body]
pub(crate) fn sha256_digest(data: &[u8]) -> (r: Vec<u8>)
    ensures
        r@ == sha256(data@),
        r@.len() == 32,
{
    sha2::Sha256::digest(data).to_vec()
}

/// The lowercase hexadecimal SHA-256 digest of `data`.
pub open spec fn sha256_hex(data: Seq<u8>) -> Seq<char> {
    hex_lower(sha256(data))
}

/// A SHA-256 digest computed as a download streams past: a `sha2::Sha256`
/// hasher fed chunk by chunk. Its state is private; the bytes fed to it so
/// far are named by `stream_input`.
#[verifier::external_body]
pub struct Sha256Stream {
    inner: sha2::Sha256,
}

/// The bytes fed to a streaming digest so far, in order.
pub uninterp spec fn stream_input(s: Sha256Stream) -> Seq<u8>;

impl Sha256Stream {
    /// `sha2::Sha256::new`: a digest that has been fed nothing.
    #[verifier::external_body]
    pub fn new() -> (s: Self)
        ensures
            stream_input(s) == Seq::<u8>::empty(),
    {
        Sha256Stream { inner: sha2::Sha256::new() }
    }

    /// `Digest::update`: feeds `chunk` after the bytes fed so far.
    #[verifier::external_body]
    pub fn update(&mut self, chunk: &[u8])
        ensures
            stream_input(*final(self)) == stream_input(*old(self)) + chunk@,
    {
        self.inner.update(chunk);
    }

    /// `Digest::finalize`: the SHA-256 digest of every byte fed, which is
    /// what `sha2::Sha256::digest` gives for those bytes at once.
    #[verifier::external_body]
    pub fn finish(self) -> (d: Vec<u8>)
        ensures
            d@ == sha256(stream_input(self)),
            d@.len() == 32,
    {
        self.inner.finalize().to_vec()
    }
}

/// Why a download is refused.
pub enum DownloadError {
    /// The digest of what arrived differs from the announced one.
    Mismatch { expected: String, actual: String },
}

pub open spec fn download_error_message(e: DownloadError) -> Seq<char> {
    match e {
        DownloadError::Mismatch { expected, actual } => "SHA-256 mismatch: expected "@ + expected@
            + ", got "@ + actual@,
    }
}

impl DownloadError {
    /// The text shown for this error.
    pub fn message(&self) -> (r: String)
        ensures
            r@ == download_error_message(*self),
    {
        match self {
            DownloadError::Mismatch { expected, actual } => {
                let mut r = text_from("SHA-256 mismatch: expected ");
                append_text(&mut r, expected.as_str());
                append_text(&mut r, ", got ");
                append_text(&mut r, actual.as_str());
                r
            },
        }
    }
}

/// Accepts a download whose bytes have digest `digest` when no digest was
/// announced or the announced one is its lowercase hexadecimal form; the
/// result is that form.
pub fn check_download(digest: &[u8], expected: Option<&str>) -> (r: Result<String, DownloadError>)
    ensures
        match expected {
            None => r matches Ok(h) && h@ == hex_lower(digest@),
            Some(e) => if e@ == hex_lower(digest@) {
                r matches Ok(h) && h@ == hex_lower(digest@)
            } else {
                r matches Err(DownloadError::Mismatch { expected: x, actual: a }) && x@ == e@ && a@
                    == hex_lower(digest@)
            },
        },
{
    let actual = to_hex_lower(digest);
    match expected {
        Some(e) => {
            if text_eq(actual.as_str(), e) {
                Ok(actual)
            } else {
                Err(DownloadError::Mismatch { expected: text_from(e), actual })
            }
        },
        None => Ok(actual),
    }
}

/// Accepts a download whose bytes were all fed to `stream` when no digest
/// was announced or the announced one is the lowercase hexadecimal SHA-256
/// of those bytes; the result is that form.
pub fn finish_download(stream: Sha256Stream, expected: Option<&str>) -> (r: Result<String, DownloadError>)
    ensures
        match expected {
            None => r matches Ok(h) && h@ == sha256_hex(stream_input(stream)),
            Some(e) => if e@ == sha256_hex(stream_input(stream)) {
                r matches Ok(h) && h@ == sha256_hex(stream_input(stream))
            } else {
                r matches Err(DownloadError::Mismatch { expected: x, actual: a }) && x@ == e@ && a@
                    == sha256_hex(stream_input(stream))
            },
        },
{
    let digest = stream.finish();
    check_download(digest.as_slice(), expected)
}

/// Whether a download response is read: only with a success status, from
/// 200 to 299.
pub fn download_accepted(status: u16) -> (r: bool)
    ensures
        r == (200 <= status && status <= 299),
{
    200 <= status && status <= 299
}

/// The size shown by the progress display: the response's length, else the
/// announced size (taken as unsigned, as `as u64` does).
pub fn expected_total(content_length: Option<u64>, expected_size: Option<i64>) -> (r: Option<u64>)
    ensures
        r == match content_length {
            Some(n) => Some(n),
            None => match expected_size {
                Some(s) => Some(s as u64),
                None => None::<u64>,
            },
        },
{
    match content_length {
        Some(n) => Some(n),
        None => match expected_size {
            Some(s) => Some(s as u64),
            None => None,
        },
    }
}

} // verus!
