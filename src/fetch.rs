//! Decisions of the resumable fetcher. The network transfer and the cache
//! file are driven by the caller; this module decides the cache file's name,
//! where a resumed transfer starts, which byte range is requested, and keeps
//! count of what the cache file holds.

use vstd::prelude::*;
use crate::text::{chars_of, string_of, slice_chars, concat_chars, last_of, find_last};

verus! {

/// The cache file name for a URL: its final `/`-separated segment.
pub open spec fn cache_name_of(url: Seq<char>) -> Seq<char> {
    match last_of(url, '/') {
        Some(k) => url.skip(k + 1),
        None => url,
    }
}

/// The cache file name under which `url` is downloaded.
pub fn cache_file_name(url: &str) -> (r: String)
    ensures
        r@ == cache_name_of(url@),
{
    let u = chars_of(url);
    match find_last(&u, '/') {
        Some(k) => {
            let s = slice_chars(&u, k + 1, u.len());
            assert(s@ =~= u@.skip(k + 1));
            string_of(s.as_slice())
        },
        None => string_of(u.as_slice()),
    }
}

/// Where a download resumes when the cache file already holds `cached`
/// bytes: one byte back, so that a possibly damaged last byte is fetched
/// again; from the start when there is no cache file.
pub open spec fn resume_offset_of(cached: Option<u64>) -> u64 {
    match cached {
        Some(n) => if n > 0 { (n - 1) as u64 } else { 0 },
        None => 0,
    }
}

/// The decimal digit for `d < 10`.
pub open spec fn digit_char(d: nat) -> char {
    if d == 0 {
        '0'
    } else if d == 1 {
        '1'
    } else if d == 2 {
        '2'
    } else if d == 3 {
        '3'
    } else if d == 4 {
        '4'
    } else if d == 5 {
        '5'
    } else if d == 6 {
        '6'
    } else if d == 7 {
        '7'
    } else if d == 8 {
        '8'
    } else {
        '9'
    }
}

/// The decimal representation of `n`, without leading zeros.
pub open spec fn decimal(n: nat) -> Seq<char>
    decreases n,
{
    if n < 10 {
        seq![digit_char(n)]
    } else {
        decimal(n / 10).push(digit_char(n % 10))
    }
}

fn digit(d: u64) -> (c: char)
    requires
        d < 10,
    ensures
        c == digit_char(d as nat),
{
    if d == 0 {
        '0'
    } else if d == 1 {
        '1'
    } else if d == 2 {
        '2'
    } else if d == 3 {
        '3'
    } else if d == 4 {
        '4'
    } else if d == 5 {
        '5'
    } else if d == 6 {
        '6'
    } else if d == 7 {
        '7'
    } else if d == 8 {
        '8'
    } else {
        '9'
    }
}

/// Exec form of `decimal`.
pub fn decimal_chars(n: u64) -> (r: Vec<char>)
    ensures
        r@ == decimal(n as nat),
    decreases n,
{
    if n < 10 {
        let mut v: Vec<char> = Vec::new();
        v.push(digit(n));
        assert(v@ =~= seq![digit_char(n as nat)]);
        v
    } else {
        let mut v = decimal_chars(n / 10);
        v.push(digit(n % 10));
        v
    }
}

/// The value of the `Range` header that asks for everything from `offset` on.
pub open spec fn range_value(offset: u64) -> Seq<char> {
    "bytes="@ + decimal(offset as nat) + "-"@
}

/// Why a fetch failed.
#[derive(Copy, Clone, Debug, PartialEq, Eq, Structural)]
pub enum FetchError {
    /// The metadata probe answered with a status other than success.
    ProbeRejected { status: u16 },
}

/// The state of one download into a cache file.
#[derive(Copy, Clone, Debug, PartialEq, Eq, Structural)]
pub struct FetchSession {
    /// The size that the metadata probe announced (0 when it gave none).
    pub total: u64,
    /// Where the transfer starts in the cache file.
    pub offset: u64,
    /// Whether a partial cache file is being resumed.
    pub resumed: bool,
    /// How many bytes the cache file holds.
    pub written: u64,
}

/// The session that starts after a successful probe.
pub open spec fn session_for(content_length: Option<u64>, cached: Option<u64>) -> FetchSession {
    FetchSession {
        total: match content_length {
            Some(t) => t,
            None => 0,
        },
        offset: resume_offset_of(cached),
        resumed: cached is Some,
        written: resume_offset_of(cached),
    }
}

/// Whether an HTTP status is a success (2xx).
pub open spec fn is_success(status: u16) -> bool {
    200 <= status < 300
}

impl FetchSession {
    /// Starts a download once the metadata probe has answered with `status`
    /// and `content_length`, given the size of an existing cache file. A
    /// non-success status fails the fetch before the cache file is touched.
    pub fn begin(status: u16, content_length: Option<u64>, cached: Option<u64>) -> (r: Result<
        FetchSession,
        FetchError,
    >)
        ensures
            !is_success(status) ==> r == Err::<FetchSession, FetchError>(
                FetchError::ProbeRejected { status },
            ),
            is_success(status) ==> r == Ok::<FetchSession, FetchError>(
                session_for(content_length, cached),
            ),
    {
        if !(200 <= status && status < 300) {
            return Err(FetchError::ProbeRejected { status });
        }
        let offset: u64 = match cached {
            Some(n) => if n > 0 { n - 1 } else { 0 },
            None => 0,
        };
        let total: u64 = match content_length {
            Some(t) => t,
            None => 0,
        };
        Ok(FetchSession { total, offset, resumed: cached.is_some(), written: offset })
    }

    /// The `Range` header to send with the download request: present exactly
    /// when a partial cache file is resumed.
    pub fn range_header(&self) -> (r: Option<String>)
        ensures
            self.resumed ==> (r matches Some(h) && h@ == range_value(self.offset)),
            !self.resumed ==> r is None,
    {
        if self.resumed {
            let v = concat_chars(
                &concat_chars(&chars_of("bytes="), &decimal_chars(self.offset)),
                &chars_of("-"),
            );
            Some(string_of(v.as_slice()))
        } else {
            None
        }
    }

    /// The number of bytes that the progress display expects.
    pub fn progress_len(&self) -> (r: u64)
        ensures
            r == if self.total >= self.offset { self.total - self.offset } else { 0 },
    {
        if self.total >= self.offset {
            self.total - self.offset
        } else {
            0
        }
    }

    /// Records a received chunk of `len` bytes written to the cache file.
    pub fn on_chunk(&mut self, len: u64)
        requires
            old(self).written + len <= u64::MAX,
        ensures
            *final(self) == (FetchSession { written: (old(self).written + len) as u64, ..*old(self) }),
    {
        self.written = self.written + len;
    }

    /// Whether the cache file holds as many bytes as the probe announced.
    pub fn is_complete(&self) -> (r: bool)
        ensures
            r == (self.written == self.total),
    {
        self.written == self.total
    }
}

/// The sum of chunk lengths.
pub open spec fn sum(chunks: Seq<u64>) -> nat
    decreases chunks.len(),
{
    if chunks.len() == 0 {
        0
    } else {
        sum(chunks.drop_last()) + chunks.last() as nat
    }
}

/// The cache file size after receiving `chunks`, starting from `start` bytes.
pub open spec fn size_after(start: u64, chunks: Seq<u64>) -> nat {
    start as nat + sum(chunks)
}

/// Resuming a fetch whose cache file already holds `n` bytes requests the
/// byte range from `n - 1` on, and once the server has sent the rest of the
/// resource from there, the cache file holds exactly the announced total.
pub proof fn lemma_resume_completes(n: u64, total: u64, status: u16, chunks: Seq<u64>)
    requires
        is_success(status),
        1 <= n,
        n - 1 <= total,
        sum(chunks) == total - (n - 1),
    ensures
        session_for(Some(total), Some(n)).resumed,
        session_for(Some(total), Some(n)).offset == n - 1,
        range_value(session_for(Some(total), Some(n)).offset) == "bytes="@ + decimal(
            (n - 1) as nat,
        ) + "-"@,
        size_after(session_for(Some(total), Some(n)).written, chunks) == total,
{
}

} // verus!
