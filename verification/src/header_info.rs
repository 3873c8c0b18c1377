//! Response metadata: the revision ID and last-modified stamp a response
//! carried.  Parsing them out of raw headers is the transport layer's job;
//! here they are plain values.

use vstd::prelude::*;

verus! {

/// The revision ID and last-modified stamp of a response.
#[derive(Debug, Clone, PartialEq)]
pub struct HeaderInfo {
    pub revision_id: Option<u64>,
    pub last_modified: Option<String>,
}

impl HeaderInfo {
    /// Builds header info from an optional revision ID and an optional
    /// last-modified stamp.
    pub fn new(revision_id: Option<u64>, last_modified: Option<String>) -> (r: HeaderInfo)
        ensures
            r.revision_id == revision_id,
            r.last_modified == last_modified,
    {
        HeaderInfo { revision_id, last_modified }
    }

    /// Returns the revision ID.
    pub fn revision_id(&self) -> (r: Option<u64>)
        ensures
            r == self.revision_id,
    {
        match &self.revision_id {
            Some(v) => Some(*v),
            None => None,
        }
    }

    /// Returns the last-modified stamp.
    pub fn last_modified(&self) -> (r: &Option<String>)
        ensures
            r == &self.last_modified,
    {
        &self.last_modified
    }

    /// Clones the header info, keeping its values.
    pub fn clone_info(&self) -> (r: HeaderInfo)
        ensures
            r.revision_id == self.revision_id,
            match (&r.last_modified, &self.last_modified) {
                (Some(a), Some(b)) => a@ == b@,
                (None, None) => true,
                _ => false,
            },
    {
        let last_modified = match &self.last_modified {
            Some(s) => Some(s.clone()),
            None => None,
        };
        HeaderInfo { revision_id: self.revision_id(), last_modified }
    }
}

impl Default for HeaderInfo {
    /// The default header info carries nothing.
    fn default() -> (r: HeaderInfo)
        ensures
            r.revision_id is None,
            r.last_modified is None,
    {
        HeaderInfo { revision_id: None, last_modified: None }
    }
}

/// An entity tag's characters with the quote marks removed.
pub open spec fn spec_unquoted(s: Seq<char>) -> Seq<char>
    decreases s.len(),
{
    if s.len() == 0 {
        Seq::empty()
    } else if s[0] == '"' {
        spec_unquoted(s.drop_first())
    } else {
        seq![s[0]] + spec_unquoted(s.drop_first())
    }
}

/// Quote-stripping splits at the last character.
proof fn lemma_unquoted_snoc(s: Seq<char>)
    requires
        s.len() > 0,
    ensures
        spec_unquoted(s) == (if s.last() == '"' {
            spec_unquoted(s.drop_last())
        } else {
            spec_unquoted(s.drop_last()).push(s.last())
        }),
    decreases s.len(),
{
    if s.len() == 1 {
        assert(s.drop_last() =~= Seq::<char>::empty());
        assert(s.drop_first() =~= Seq::<char>::empty());
        if s[0] != '"' {
            assert(seq![s[0]] + spec_unquoted(s.drop_first()) =~= Seq::empty().push(s[0]));
        }
    } else {
        lemma_unquoted_snoc(s.drop_first());
        assert(s.drop_first().drop_last() =~= s.drop_last().drop_first());
        assert(s.drop_first().last() == s.last());
        assert(s.drop_last()[0] == s[0]);
        if s[0] != '"' {
            if s.last() == '"' {
            } else {
                assert(seq![s[0]] + spec_unquoted(s.drop_first()) =~= (seq![s[0]]
                    + spec_unquoted(s.drop_first()).drop_last()).push(s.last()));
                assert(seq![s[0]] + spec_unquoted(s.drop_first()).drop_last() =~= spec_unquoted(
                    s.drop_last(),
                ));
            }
        }
    }
}

/// Whether every character is a decimal digit.
pub open spec fn spec_all_digits(s: Seq<char>) -> bool {
    forall|i: int|
        0 <= i < s.len() ==> ('0' as u32 <= (#[trigger] s[i]) as u32 && s[i] as u32
            <= '9' as u32)
}

/// The numeric value of all-decimal text.
pub open spec fn spec_digits_val(s: Seq<char>) -> int
    decreases s.len(),
{
    if s.len() == 0 {
        0
    } else {
        10 * spec_digits_val(s.drop_last()) + (s.last() as u32 - '0' as u32)
    }
}

/// The value of all-decimal text is never negative.
proof fn lemma_digits_val_nonneg(s: Seq<char>)
    requires
        spec_all_digits(s),
    ensures
        spec_digits_val(s) >= 0,
    decreases s.len(),
{
    if s.len() > 0 {
        assert(forall|i: int|
            0 <= i < s.drop_last().len() ==> #[trigger] s.drop_last()[i] == s[i]);
        lemma_digits_val_nonneg(s.drop_last());
    }
}

/// The value of all-decimal text is at least the value of any prefix.
proof fn lemma_digits_val_mono(s: Seq<char>, k: int)
    requires
        spec_all_digits(s),
        0 <= k <= s.len(),
    ensures
        spec_digits_val(s) >= spec_digits_val(s.take(k)),
    decreases s.len() - k,
{
    if k < s.len() {
        assert(s.take(k + 1).drop_last() =~= s.take(k));
        assert(s.take(k + 1).last() == s[k]);
        assert(forall|i: int|
            0 <= i < s.take(k).len() ==> #[trigger] s.take(k)[i] == s[i]);
        lemma_digits_val_nonneg(s.take(k));
        assert(spec_digits_val(s.take(k + 1)) >= spec_digits_val(s.take(k)));
        lemma_digits_val_mono(s, k + 1);
    } else {
        assert(s.take(k) =~= s);
    }
}

/// The revision ID an entity tag carries: the quote-stripped text read
/// as a decimal number, when it is nonempty, all digits, and fits.
pub open spec fn spec_etag_revision(s: Seq<char>) -> Option<u64> {
    let t = spec_unquoted(s);
    if t.len() > 0 && spec_all_digits(t) && spec_digits_val(t) <= u64::MAX {
        Some(spec_digits_val(t) as u64)
    } else {
        None
    }
}

/// Reads the revision ID out of an entity tag: the quote marks are
/// stripped and the rest is read as decimal; empty, non-decimal or
/// too-large text yields nothing.
pub fn revision_id_from_etag(etag: &str) -> (r: Option<u64>)
    ensures
        r == spec_etag_revision(etag@),
{
    let n = etag.unicode_len();
    let mut t = String::new();
    let mut i: usize = 0;
    proof {
        assert(etag@.take(0) =~= Seq::<char>::empty());
    }
    while i < n
        invariant
            0 <= i <= n,
            n == etag@.len(),
            t@ == spec_unquoted(etag@.take(i as int)),
        decreases n - i,
    {
        let c = etag.get_char(i);
        proof {
            assert(etag@.take(i as int + 1).drop_last() =~= etag@.take(i as int));
            assert(etag@.take(i as int + 1).last() == etag@[i as int]);
            lemma_unquoted_snoc(etag@.take(i as int + 1));
        }
        if c != '"' {
            t.push(c);
        }
        i = i + 1;
    }
    proof {
        assert(etag@.take(n as int) =~= etag@);
    }
    let m = t.unicode_len();
    if m == 0 {
        return None;
    }
    let mut acc: u64 = 0;
    let mut j: usize = 0;
    proof {
        assert(t@.take(0) =~= Seq::<char>::empty());
    }
    while j < m
        invariant
            0 <= j <= m,
            m == t@.len(),
            m > 0,
            t@ == spec_unquoted(etag@),
            spec_all_digits(t@.take(j as int)),
            acc as int == spec_digits_val(t@.take(j as int)),
        decreases m - j,
    {
        let c = t.get_char(j);
        let u = c as u32;
        proof {
            assert(t@.take(j as int + 1).drop_last() =~= t@.take(j as int));
            assert(t@.take(j as int + 1).last() == t@[j as int]);
            assert(forall|q: int|
                0 <= q < j ==> #[trigger] t@.take(j as int + 1)[q] == t@.take(j as int)[q]);
        }
        if u < '0' as u32 || u > '9' as u32 {
            proof {
                if spec_all_digits(t@) {
                    assert('0' as u32 <= t@[j as int] as u32 && t@[j as int] as u32
                        <= '9' as u32);
                }
            }
            return None;
        }
        let d = (u - '0' as u32) as u64;
        proof {
            assert(forall|q: int|
                0 <= q < t@.take(j as int + 1).len() ==> ('0' as u32 <= (#[trigger] t@.take(
                    j as int + 1,
                )[q]) as u32 && t@.take(j as int + 1)[q] as u32 <= '9' as u32));
            assert(spec_digits_val(t@.take(j as int + 1)) == 10 * (acc as int) + d);
        }
        if acc > 1844674407370955161u64 || (acc == 1844674407370955161u64 && d > 5) {
            proof {
                assert(10 * (acc as int) + d > u64::MAX);
                if spec_all_digits(t@) {
                    lemma_digits_val_mono(t@, j as int + 1);
                    assert(spec_digits_val(t@) > u64::MAX);
                }
            }
            return None;
        }
        proof {
            assert(10 * (acc as int) + d <= u64::MAX);
        }
        acc = acc * 10 + d;
        j = j + 1;
    }
    proof {
        assert(t@.take(m as int) =~= t@);
        assert(spec_all_digits(t@));
        assert(spec_digits_val(t@) == acc as int);
    }
    Some(acc)
}

} // verus!
