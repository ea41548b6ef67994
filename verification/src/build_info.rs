//! The commit hash that a build carries.
use vstd::prelude::*;
use vstd::string::*;
use vstd::utf8::*;

verus! {

/// How many characters of the hash a build carries: the greeting has room for one byte more.
pub const GIT_HASH_LEN: usize = 7;

/// Whether a character is white space in the sense of Unicode.
pub open spec fn is_white(c: char) -> bool {
    let v = c as u32;
    ||| 0x09 <= v <= 0x0D
    ||| v == 0x20 || v == 0x85 || v == 0xA0 || v == 0x1680
    ||| 0x2000 <= v <= 0x200A
    ||| v == 0x2028 || v == 0x2029 || v == 0x202F || v == 0x205F || v == 0x3000
}

/// A text without the white space at its end.
pub open spec fn end_trimmed(s: Seq<char>) -> Seq<char>
    decreases s.len(),
{
    if s.len() > 0 && is_white(s.last()) {
        end_trimmed(s.drop_last())
    } else {
        s
    }
}

/// A text without the white space at its two ends.
pub open spec fn trimmed(s: Seq<char>) -> Seq<char>
    decreases s.len(),
{
    if s.len() > 0 && is_white(s[0]) {
        trimmed(s.skip(1))
    } else {
        end_trimmed(s)
    }
}

/// Calls `str::trim`: the text without the white space, in the sense of Unicode, at its two ends.
#[verifier::external_body]
fn trim_text(s: &str) -> (t: &str)
    ensures
        t@ == trimmed(s@),
{
    s.trim()
}

/// What a build carries for a hash: its first characters, or a stand-in where there is none.
pub open spec fn short_hash_of(hash: Seq<char>) -> Seq<char> {
    if hash.len() == 0 {
        "unknown"@
    } else if hash.len() <= GIT_HASH_LEN {
        hash
    } else {
        hash.take(GIT_HASH_LEN as int)
    }
}

/// The first characters of a hash, or a stand-in where there is none.
pub fn short_hash(hash: &str) -> (s: String)
    ensures
        s@ == short_hash_of(hash@),
{
    let len: usize = hash.unicode_len();
    if len == 0 {
        "unknown".to_owned()
    } else if len <= GIT_HASH_LEN {
        hash.to_owned()
    } else {
        let cut = hash.substring_char(0, GIT_HASH_LEN);
        proof {
            assert(cut@ =~= hash@.take(GIT_HASH_LEN as int));
        }
        cut.to_owned()
    }
}

/// The hash for a build, out of what the version control tool printed, if it ran at all and
/// printed text. A short hash may come out longer than asked for where it would be ambiguous.
pub fn git_hash(printed: Option<&str>) -> (s: String)
    ensures
        s@ == (match printed {
            Some(text) => short_hash_of(trimmed(text@)),
            None => "unknown"@,
        }),
{
    match printed {
        Some(text) => short_hash(trim_text(text)),
        None => "unknown".to_owned(),
    }
}

/// A build always carries a hash, and never more than seven characters of it.
pub proof fn short_hash_is_short(hash: Seq<char>)
    ensures
        1 <= short_hash_of(hash).len() <= GIT_HASH_LEN,
{
    reveal_strlit("unknown");
}

/// The hash that a build carries fits into the greeting with a zero behind it.
pub proof fn short_hash_fits_the_greeting(hash: Seq<char>)
    requires
        is_ascii_chars(hash),
    ensures
        encode_utf8(short_hash_of(hash)).len() <= GIT_HASH_LEN,
        crate::telemetry::zero_padded(encode_utf8(short_hash_of(hash)), 8)[7] == 0,
{
    reveal_strlit("unknown");
    let s = short_hash_of(hash);
    short_hash_is_short(hash);
    assert(is_ascii_chars(s));
    is_ascii_chars_encode_utf8(s);
}

/// Trimming takes white space off the two ends and nothing else: what is left begins and ends with
/// something else, and what was taken off is white space.
pub proof fn only_white_space_is_trimmed(s: Seq<char>)
    ensures
        exists|i: int, j: int|
            {
                &&& 0 <= i <= j <= s.len()
                &&& trimmed(s) == #[trigger] s.subrange(i, j)
                &&& forall|k: int| 0 <= k < i ==> is_white(#[trigger] s[k])
                &&& forall|k: int| j <= k < s.len() ==> is_white(#[trigger] s[k])
                &&& i < j ==> !is_white(s[i]) && !is_white(s[j - 1])
            },
    decreases s.len(),
{
    if s.len() > 0 && is_white(s[0]) {
        let t = s.skip(1);
        only_white_space_is_trimmed(t);
        let (i, j) = choose|i: int, j: int|
            {
                &&& 0 <= i <= j <= t.len()
                &&& trimmed(t) == #[trigger] t.subrange(i, j)
                &&& forall|k: int| 0 <= k < i ==> is_white(#[trigger] t[k])
                &&& forall|k: int| j <= k < t.len() ==> is_white(#[trigger] t[k])
                &&& i < j ==> !is_white(t[i]) && !is_white(t[j - 1])
            };
        assert(s.subrange(i + 1, j + 1) =~= t.subrange(i, j));
        assert forall|k: int| 0 <= k < i + 1 implies is_white(#[trigger] s[k]) by {
            if k > 0 {
                assert(s[k] == t[k - 1]);
            }
        }
        assert forall|k: int| j + 1 <= k < s.len() implies is_white(#[trigger] s[k]) by {
            assert(s[k] == t[k - 1]);
        }
        if i < j {
            assert(s[i + 1] == t[i] && s[j] == t[j - 1]);
        }
    } else {
        lemma_end_trimmed(s);
        let j = end_trimmed(s).len() as int;
        assert(end_trimmed(s) =~= s.subrange(0, j));
    }
}

/// Trimming the end leaves a beginning.
proof fn lemma_end_trimmed(s: Seq<char>)
    ensures
        end_trimmed(s).is_prefix_of(s),
        forall|k: int| end_trimmed(s).len() <= k < s.len() ==> is_white(#[trigger] s[k]),
        end_trimmed(s).len() > 0 ==> !is_white(s[end_trimmed(s).len() - 1]),
    decreases s.len(),
{
    if s.len() > 0 && is_white(s.last()) {
        let t = s.drop_last();
        lemma_end_trimmed(t);
        let e = end_trimmed(s);
        assert(e =~= s.subrange(0, e.len() as int)) by {
            assert(e =~= t.subrange(0, e.len() as int));
        }
        assert forall|k: int| e.len() <= k < s.len() implies is_white(#[trigger] s[k]) by {
            if k < t.len() {
                assert(s[k] == t[k]);
            }
        }
    } else {
        assert(s.subrange(0, s.len() as int) =~= s);
    }
}

/// A build carries the beginning of the hash, as much as seven characters of it, and the word
/// "unknown" exactly where there is no hash.
pub proof fn short_hash_is_the_beginning(hash: Seq<char>)
    ensures
        hash.len() == 0 ==> short_hash_of(hash) == "unknown"@,
        hash.len() > 0 ==> short_hash_of(hash).is_prefix_of(hash),
        0 < hash.len() <= 7 ==> short_hash_of(hash).len() == hash.len(),
        hash.len() > 7 ==> short_hash_of(hash).len() == 7,
{
    let h = short_hash_of(hash);
    if hash.len() > 0 {
        assert(h =~= hash.subrange(0, h.len() as int));
    }
}

} // verus!
