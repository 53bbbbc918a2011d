use vstd::prelude::*;

use crate::error::CliError;

verus! {

/// One `key=value` token of a POST body, split at its first `=`.
#[derive(Debug, Clone)]
pub struct KvPair {
    pub k: String,
    pub v: String,
}

/// `k` and `v` are the two sides of the first `=` in `s`.
pub open spec fn splits_at_first_eq(s: Seq<char>, k: Seq<char>, v: Seq<char>) -> bool {
    &&& s == k + seq!['='] + v
    &&& !k.contains('=')
}

/// A token splits at its first `=` in one way only: the key and the value
/// are determined by the token.
pub proof fn lemma_split_unique(s: Seq<char>, k1: Seq<char>, v1: Seq<char>, k2: Seq<char>, v2: Seq<char>)
    requires
        splits_at_first_eq(s, k1, v1),
        splits_at_first_eq(s, k2, v2),
    ensures
        k1 == k2,
        v1 == v2,
{
    assert(s[k1.len() as int] == '=');
    assert(s[k2.len() as int] == '=');
    if k1.len() < k2.len() {
        assert(k2[k1.len() as int] == '=');
    } else if k2.len() < k1.len() {
        assert(k1[k2.len() as int] == '=');
    }
    assert(k1 =~= s.subrange(0, k1.len() as int));
    assert(k2 =~= s.subrange(0, k2.len() as int));
    assert(v1 =~= s.subrange(k1.len() as int + 1, s.len() as int));
    assert(v2 =~= s.subrange(k2.len() as int + 1, s.len() as int));
}

impl KvPair {
    /// Splits `s` at its first `=`: the key is what precedes it and the value
    /// all that follows, further `=` included. A token without `=` is refused.
    pub fn from_str(s: &str) -> (r: Result<KvPair, CliError>)
        ensures
            r is Ok <==> s@.contains('='),
            r matches Ok(p) ==> splits_at_first_eq(s@, p.k@, p.v@),
            r matches Err(e) ==> e.is_invalid_pair(s@),
    {
        let n = s.unicode_len();
        let mut i: usize = 0;
        while i < n
            invariant
                n == s@.len(),
                i <= n,
                forall|j: int| 0 <= j < i ==> s@[j] != '=',
            decreases n - i,
        {
            if s.get_char(i) == '=' {
                let k = s.substring_char(0, i).to_owned();
                let v = s.substring_char(i + 1, n).to_owned();
                assert(s@ =~= k@ + seq!['='] + v@);
                assert(s@.contains('='));
                return Ok(KvPair { k, v });
            }
            i = i + 1;
        }
        Err(CliError::InvalidPair(s.to_owned()))
    }
}

/// Reads one POST body token as a key-value pair.
pub fn parse_kv_pair(s: &str) -> (r: Result<KvPair, CliError>)
    ensures
        r is Ok <==> s@.contains('='),
        r matches Ok(p) ==> splits_at_first_eq(s@, p.k@, p.v@),
        r matches Err(e) ==> e.is_invalid_pair(s@),
{
    KvPair::from_str(s)
}

} // verus!
