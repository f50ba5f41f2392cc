//! The web layer's request data and the cache-key fingerprint.
//!
//! A request names a voice (language code, gender, variant) and the text to
//! speak. The cache key is a 64-bit fingerprint of the normalized voice
//! variant concatenated with the trimmed text; the fingerprint is opaque and
//! only ever compared. The HTTP and websocket plumbing lives outside this
//! crate and hands requests in as plain strings.

use vstd::prelude::*;
use vstd::string::*;

verus! {

/// A status update for the requester's websocket, if one is attached.
pub enum WebsocketEvent {
    Message(String),
}

/// Whether `c` is white space: the characters `str::trim` strips (the
/// Unicode `White_Space` set).
pub open spec fn is_space_char(c: char) -> bool {
    ||| c as u32 == 0x20
    ||| (0x09 <= c as u32 && c as u32 <= 0x0D)
    ||| c as u32 == 0x85
    ||| c as u32 == 0xA0
    ||| c as u32 == 0x1680
    ||| (0x2000 <= c as u32 && c as u32 <= 0x200A)
    ||| c as u32 == 0x2028
    ||| c as u32 == 0x2029
    ||| c as u32 == 0x202F
    ||| c as u32 == 0x205F
    ||| c as u32 == 0x3000
}

/// Whether `c` is white space.
pub fn is_space(c: char) -> (r: bool)
    ensures
        r == is_space_char(c),
{
    let u = c as u32;
    u == 0x20 || (0x09 <= u && u <= 0x0D) || u == 0x85 || u == 0xA0 || u == 0x1680 || (0x2000 <= u
        && u <= 0x200A) || u == 0x2028 || u == 0x2029 || u == 0x202F || u == 0x205F || u == 0x3000
}

/// How many white-space characters `s` starts with.
pub open spec fn leading_spaces(s: Seq<char>) -> nat
    decreases s.len(),
{
    if s.len() == 0 || !is_space_char(s[0]) {
        0
    } else {
        1 + leading_spaces(s.drop_first())
    }
}

/// How many white-space characters `s` ends with.
pub open spec fn trailing_spaces(s: Seq<char>) -> nat
    decreases s.len(),
{
    if s.len() == 0 || !is_space_char(s.last()) {
        0
    } else {
        1 + trailing_spaces(s.drop_last())
    }
}

/// `s` with leading and trailing white space removed.
pub open spec fn trim_of(s: Seq<char>) -> Seq<char> {
    let rest = s.skip(leading_spaces(s) as int);
    rest.take(rest.len() - trailing_spaces(rest))
}

proof fn lemma_leading_spaces_le(s: Seq<char>)
    ensures
        leading_spaces(s) <= s.len(),
    decreases s.len(),
{
    if s.len() > 0 && is_space_char(s[0]) {
        lemma_leading_spaces_le(s.drop_first());
    }
}

proof fn lemma_trailing_spaces_le(s: Seq<char>)
    ensures
        trailing_spaces(s) <= s.len(),
    decreases s.len(),
{
    if s.len() > 0 && is_space_char(s.last()) {
        lemma_trailing_spaces_le(s.drop_last());
    }
}

/// `leading_spaces` is pinned down by its characterization: `k` space
/// characters followed by the end or a non-space.
proof fn lemma_leading_spaces_is(s: Seq<char>, k: int)
    requires
        0 <= k <= s.len(),
        forall|j: int| 0 <= j < k ==> is_space_char(#[trigger] s[j]),
        k < s.len() ==> !is_space_char(s[k]),
    ensures
        leading_spaces(s) == k,
    decreases k,
{
    if k == 0 {
    } else {
        assert(is_space_char(s[0]));
        lemma_leading_spaces_is(s.drop_first(), k - 1);
    }
}

/// `trailing_spaces` is pinned down the same way from the end.
proof fn lemma_trailing_spaces_is(s: Seq<char>, k: int)
    requires
        0 <= k <= s.len(),
        forall|j: int| s.len() - k <= j < s.len() ==> is_space_char(#[trigger] s[j]),
        k < s.len() ==> !is_space_char(s[s.len() - k - 1]),
    ensures
        trailing_spaces(s) == k,
    decreases k,
{
    if k == 0 {
    } else {
        assert(is_space_char(s.last()));
        lemma_trailing_spaces_is(s.drop_last(), k - 1);
    }
}

/// `s` with leading and trailing white space removed, as `str::trim` does.
pub fn trim_str(s: &str) -> (r: &str)
    ensures
        r@ == trim_of(s@),
{
    let n = s.unicode_len();
    let mut start: usize = 0;
    while start < n && is_space(s.get_char(start))
        invariant
            start <= n,
            n == s@.len(),
            forall|j: int| 0 <= j < start ==> is_space_char(#[trigger] s@[j]),
        decreases n - start,
    {
        start += 1;
    }
    let mut end: usize = n;
    while end > start && is_space(s.get_char(end - 1))
        invariant
            start <= end <= n,
            n == s@.len(),
            forall|j: int| end <= j < n ==> is_space_char(#[trigger] s@[j]),
        decreases end,
    {
        end -= 1;
    }
    proof {
        lemma_leading_spaces_is(s@, start as int);
        let rest = s@.skip(start as int);
        assert forall|j: int| rest.len() - (n - end) <= j < rest.len() implies is_space_char(
            #[trigger] rest[j],
        ) by {
            assert(rest[j] == s@[j + start]);
        }
        if end > start {
            assert(rest[end - start - 1] == s@[end - 1]);
        }
        lemma_trailing_spaces_is(rest, n as int - end as int);
        assert(s@.subrange(start as int, end as int) =~= rest.take(
            rest.len() - trailing_spaces(rest),
        ));
    }
    s.substring_char(start, end)
}

/// The 64-bit fingerprint of a text: what the xxh3 hash of its UTF-8 bytes
/// is. Named only; every use goes through the one hashing wrapper below.
pub uninterp spec fn fingerprint_of(s: Seq<char>) -> u64;

/// Relies on xxhash_rust::xxh3::xxh3_64: the hash is computed from the
/// string's UTF-8 bytes alone, so it is a function of the characters alone.
#[verifier::external_body]
fn xxh3_64_str(s: &str) -> (r: u64)
    ensures
        r == fingerprint_of(s@),
{
    xxhash_rust::xxh3::xxh3_64(s.as_bytes())
}

/// Does `s` contain the character `c`?
pub fn str_contains_char(s: &str, c: char) -> (r: bool)
    ensures
        r == s@.contains(c),
{
    let n = s.unicode_len();
    let mut i: usize = 0;
    while i < n
        invariant
            i <= n,
            n == s@.len(),
            forall|j: int| 0 <= j < i ==> s@[j] != c,
        decreases n - i,
    {
        if s.get_char(i) == c {
            return true;
        }
        i += 1;
    }
    false
}

/// One synthesis request as the web layer hands it in: the text, the
/// language code, the voice gender and the voice variant.
pub struct Data {
    pub content: String,
    pub code: String,
    pub sex: String,
    pub variant: String,
}

impl Data {
    /// The normalized voice variant: the variant as given when it already
    /// carries a language prefix (a `-`), otherwise `code-variant`.
    pub open spec fn variant_view(&self) -> Seq<char> {
        if self.variant@.contains('-') {
            self.variant@
        } else {
            self.code@ + "-"@ + self.variant@
        }
    }

    /// The fingerprint the request is cached under: the hash of the
    /// normalized variant followed by the trimmed text.
    pub open spec fn fingerprint(&self) -> u64 {
        fingerprint_of(self.variant_view() + trim_of(self.content@))
    }

    pub fn new(content: String, code: String, sex: String, variant: String) -> (r: Data)
        ensures
            r.content == content,
            r.code == code,
            r.sex == sex,
            r.variant == variant,
    {
        Data { content, code, sex, variant }
    }

    /// The normalized voice variant.
    pub fn variant(&self) -> (r: String)
        ensures
            r@ == self.variant_view(),
    {
        if str_contains_char(self.variant.as_str(), '-') {
            self.variant.clone()
        } else {
            let r = self.code.clone().concat("-").concat(self.variant.as_str());
            proof {
                assert(r@ =~= self.variant_view());
            }
            r
        }
    }

    /// The request's cache key.
    pub fn hash(&self) -> (r: u64)
        ensures
            r == self.fingerprint(),
    {
        let full = self.variant().concat(trim_str(self.content.as_str()));
        xxh3_64_str(full.as_str())
    }
}

} // verus!
