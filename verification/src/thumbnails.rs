use vstd::prelude::*;

use crate::files::push_char;
use crate::weights::SystemTimestamp;

verus! {

/// The MD5 digest of the UTF-8 encoding of a text.
pub uninterp spec fn md5_digest(text: Seq<char>) -> Seq<u8>;

/// Calls `md5::compute` on the UTF-8 bytes of `text` and returns the sixteen
/// bytes of the digest. Claimed: the bytes are `md5_digest(text@)`, a
/// function of the text alone; what MD5 computes is not stated here.
#[verifier::external_body]
fn md5_compute(text: &str) -> (digest: [u8; 16])
    ensures
        digest@ == md5_digest(text@),
{
    md5::compute(text).0
}

/// The lower-case hexadecimal digit of a number below sixteen.
pub open spec fn hex_digit(n: int) -> char {
    if n < 10 {
        (n + 48) as char
    } else {
        (n + 87) as char
    }
}

/// Two lower-case hexadecimal digits for each byte, most significant first
/// (what `{:02x}` writes for each byte).
pub open spec fn lower_hex(bytes: Seq<u8>) -> Seq<char>
    decreases bytes.len(),
{
    if bytes.len() == 0 {
        Seq::empty()
    } else {
        lower_hex(bytes.drop_last()) + seq![
            hex_digit(bytes.last() as int / 16),
            hex_digit(bytes.last() as int % 16),
        ]
    }
}

/// The name of the cached thumbnail of a file whose digest is `digest`.
pub open spec fn basename_of_digest(digest: Seq<u8>) -> Seq<char> {
    lower_hex(digest) + ".png"@
}

/// A lower-case hexadecimal digit.
pub open spec fn is_lower_hex_digit(c: char) -> bool {
    ('0' <= c && c <= '9') || ('a' <= c && c <= 'f')
}

/// Writing bytes in hexadecimal takes two digits per byte.
pub proof fn lemma_lower_hex_digits(bytes: Seq<u8>)
    ensures
        lower_hex(bytes).len() == 2 * bytes.len(),
        forall|i: int| 0 <= i < lower_hex(bytes).len() ==> is_lower_hex_digit(#[trigger] lower_hex(bytes)[i]),
    decreases bytes.len(),
{
    if bytes.len() > 0 {
        lemma_lower_hex_digits(bytes.drop_last());
        let hi = bytes.last() as int / 16;
        let lo = bytes.last() as int % 16;
        assert(is_lower_hex_digit(hex_digit(hi)) && is_lower_hex_digit(hex_digit(lo)));
    }
}

/// Each byte `b` of the input is written at positions `2k` and `2k + 1` as
/// the digits of `"0123456789abcdef"` at `b / 16` and `b % 16`.
pub proof fn lemma_lower_hex_positions(bytes: Seq<u8>)
    ensures
        lower_hex(bytes).len() == 2 * bytes.len(),
        forall|k: int|
            #![trigger bytes[k]]
            0 <= k < bytes.len() ==> lower_hex(bytes)[2 * k] == "0123456789abcdef"@[(bytes[k]
                / 16) as int] && lower_hex(bytes)[2 * k + 1] == "0123456789abcdef"@[(bytes[k]
                % 16) as int],
    decreases bytes.len(),
{
    reveal_strlit("0123456789abcdef");
    lemma_lower_hex_digits(bytes);
    if bytes.len() > 0 {
        lemma_lower_hex_positions(bytes.drop_last());
        let rest = bytes.drop_last();
        assert forall|k: int| #![trigger bytes[k]] 0 <= k < bytes.len() implies lower_hex(bytes)[2
            * k] == "0123456789abcdef"@[(bytes[k] / 16) as int] && lower_hex(bytes)[2 * k + 1]
            == "0123456789abcdef"@[(bytes[k] % 16) as int] by {
            if k < bytes.len() - 1 {
                assert(bytes[k] == rest[k]);
                assert(lower_hex(bytes)[2 * k] == lower_hex(rest)[2 * k]);
                assert(lower_hex(bytes)[2 * k + 1] == lower_hex(rest)[2 * k + 1]);
            } else {
                let b = bytes.last() as int;
                assert(b / 16 < 16 && b % 16 < 16);
            }
        }
    }
}

/// At most one position holds the latest access, in the sense of
/// [`latest_accessed`].
pub proof fn lemma_latest_access_unique(times: Seq<Option<SystemTimestamp>>, i: int, j: int)
    requires
        is_latest_access(times, i),
        is_latest_access(times, j),
    ensures
        i == j,
{
    if i < j {
        assert(times[j] is Some);
    } else if j < i {
        assert(times[i] is Some);
    }
}

/// A thumbnail's cache name is the 32 lower-case hexadecimal digits of a
/// 16-byte digest followed by `.png`.
pub proof fn lemma_basename_shape(digest: Seq<u8>)
    requires
        digest.len() == 16,
    ensures
        basename_of_digest(digest).len() == 36,
        forall|i: int| 0 <= i < 32 ==> is_lower_hex_digit(#[trigger] basename_of_digest(digest)[i]),
        basename_of_digest(digest).subrange(32, 36) == ".png"@,
{
    lemma_lower_hex_digits(digest);
    reveal_strlit(".png");
    assert(basename_of_digest(digest).subrange(32, 36) =~= ".png"@);
}

/// The decimal writing of a natural number, without leading zeros.
pub open spec fn decimal(n: nat) -> Seq<char>
    decreases n,
{
    if n < 10 {
        seq![hex_digit(n as int)]
    } else {
        decimal(n / 10).push(hex_digit((n % 10) as int))
    }
}

/// The ffmpeg video filter that grabs a representative frame, scales it to
/// cover `width` x `height` and crops it to exactly that size.
pub open spec fn thumbnail_filter_text(width: nat, height: nat) -> Seq<char> {
    "thumbnail=n=200,scale="@ + decimal(width) + ":"@ + decimal(height)
        + ":force_original_aspect_ratio=increase,crop="@ + decimal(width) + ":"@ + decimal(height)
}

/// Position `i` holds a time, no entry holds a later one, and every entry
/// after `i` holds an earlier one or none.
pub open spec fn is_latest_access(times: Seq<Option<SystemTimestamp>>, i: int) -> bool {
    &&& 0 <= i < times.len()
    &&& times[i] is Some
    &&& forall|j: int|
        0 <= j < times.len() && #[trigger] times[j] is Some ==> times[j]->0@ <= times[i]->0@
    &&& forall|j: int|
        i < j < times.len() && #[trigger] times[j] is Some ==> times[j]->0@ < times[i]->0@
}

/// The lower-case hexadecimal digit of `n`.
fn hex_digit_char(n: u8) -> (c: char)
    requires
        n < 16,
    ensures
        c == hex_digit(n as int),
{
    if n < 10 {
        (n + 48) as char
    } else {
        (n + 87) as char
    }
}

/// The cache file name of a thumbnail, given the MD5 digest of its video's
/// path: the digest in lower-case hexadecimal, then `.png`.
pub fn basename_from_digest(digest: &[u8; 16]) -> (name: String)
    ensures
        name@ == basename_of_digest(digest@),
{
    let mut s = String::new();
    let mut i: usize = 0;
    assert(digest@.take(0) =~= Seq::<u8>::empty());
    while i < 16
        invariant
            i <= 16,
            digest@.len() == 16,
            s@ == lower_hex(digest@.take(i as int)),
        decreases 16 - i,
    {
        let b = digest[i];
        push_char(&mut s, hex_digit_char(b / 16));
        push_char(&mut s, hex_digit_char(b % 16));
        assert(digest@.take(i + 1).drop_last() =~= digest@.take(i as int));
        assert(s@ =~= lower_hex(digest@.take(i + 1)));
        i = i + 1;
    }
    assert(digest@.take(16) =~= digest@);
    s.append(".png");
    s
}

/// The cache file name of the thumbnail of the video at `path`: the MD5
/// digest of the path in lower-case hexadecimal, then `.png`.
pub fn compute_thumbnail_basename(path: &str) -> (name: String)
    ensures
        name@ == basename_of_digest(md5_digest(path@)),
        md5_digest(path@).len() == 16,
{
    let digest = md5_compute(path);
    basename_from_digest(&digest)
}

/// Appends the decimal writing of `n` to `s`.
fn push_decimal(s: &mut String, n: u32)
    ensures
        final(s)@ == old(s)@ + decimal(n as nat),
    decreases n,
{
    if n >= 10 {
        push_decimal(s, n / 10);
    }
    push_char(s, hex_digit_char((n % 10) as u8));
    assert(final(s)@ =~= old(s)@ + decimal(n as nat));
}

/// The ffmpeg video filter for thumbnails of `width` x `height` pixels.
pub fn thumbnail_filter(width: u32, height: u32) -> (filter: String)
    ensures
        filter@ == thumbnail_filter_text(width as nat, height as nat),
{
    let mut s = String::new();
    s.append("thumbnail=n=200,scale=");
    push_decimal(&mut s, width);
    s.append(":");
    push_decimal(&mut s, height);
    s.append(":force_original_aspect_ratio=increase,crop=");
    push_decimal(&mut s, width);
    s.append(":");
    push_decimal(&mut s, height);
    assert(s@ =~= thumbnail_filter_text(width as nat, height as nat));
    s
}

/// Which of the videos of a folder gives the folder's thumbnail: the one
/// accessed last, the last of them in list order on a tie. Entries whose
/// access time could not be read (`None`) are passed over; `None` comes
/// back when no entry has a time.
pub fn latest_accessed(times: &Vec<Option<SystemTimestamp>>) -> (latest: Option<usize>)
    ensures
        match latest {
            Some(i) => is_latest_access(times@, i as int),
            None => forall|j: int| 0 <= j < times@.len() ==> #[trigger] times@[j] is None,
        },
        latest matches Some(i) ==> i < times@.len() && times@[i as int] is Some,
        latest matches Some(i) ==> forall|j: int|
            0 <= j < times@.len() && #[trigger] times@[j] is Some ==> times@[j]->0@
                <= times@[i as int]->0@,
        latest matches Some(i) ==> forall|j: int|
            i < j < times@.len() && #[trigger] times@[j] is Some ==> times@[j]->0@
                < times@[i as int]->0@,
        latest is None <==> forall|j: int| 0 <= j < times@.len() ==> #[trigger] times@[j] is None,
{
    let mut best: Option<usize> = None;
    let mut i: usize = 0;
    while i < times.len()
        invariant
            i <= times.len(),
            match best {
                Some(b) => b < i && is_latest_access(times@.take(i as int), b as int),
                None => forall|j: int| 0 <= j < i ==> #[trigger] times@[j] is None,
            },
        decreases times.len() - i,
    {
        match &times[i] {
            Some(t) => {
                let better = match best {
                    Some(b) => match &times[b] {
                        Some(tb) => t.nanos_since_epoch() >= tb.nanos_since_epoch(),
                        None => true,
                    },
                    None => true,
                };
                if better {
                    best = Some(i);
                }
            },
            None => {},
        }
        assert(times@.take(i + 1).drop_last() =~= times@.take(i as int));
        i = i + 1;
    }
    assert(times@.take(times.len() as int) =~= times@);
    best
}

} // verus!
