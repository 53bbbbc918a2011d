use vstd::prelude::*;

use crate::address::{parse_url, url_accepts};
use crate::error::CliError;
use crate::pair::{parse_kv_pair, splits_at_first_eq, KvPair};

verus! {

/// One invocation, as read from the command line.
#[derive(Debug)]
pub enum Command {
    /// `get <url>`: the URL is taken as given.
    Get { url: String },
    /// `post <url> <key=value>...`: the URL is validated and each token split.
    Post { url: String, pairs: Vec<KvPair> },
}

/// `pairs` are `tokens` split one for one at their first `=`.
pub open spec fn pairs_of(tokens: Seq<String>, pairs: Seq<KvPair>) -> bool {
    &&& pairs.len() == tokens.len()
    &&& forall|i: int|
        0 <= i < tokens.len() ==> splits_at_first_eq(tokens[i]@, #[trigger] pairs[i].k@, pairs[i].v@)
}

/// Token `i` is the first of `tokens` that holds no `=`.
pub open spec fn first_bad_token(tokens: Seq<String>, i: int) -> bool {
    &&& 0 <= i < tokens.len()
    &&& !tokens[i]@.contains('=')
    &&& forall|j: int| 0 <= j < i ==> #[trigger] tokens[j]@.contains('=')
}

/// Reads the arguments of `post`: the URL must be an absolute URL and every
/// token must hold a `=`. The URL is checked first, then the tokens in order;
/// the first failure is reported.
pub fn parse_post(url: &str, tokens: &Vec<String>) -> (r: Result<Command, CliError>)
    ensures
        r is Ok <==> url_accepts(url@) && forall|i: int|
            0 <= i < tokens@.len() ==> #[trigger] tokens@[i]@.contains('='),
        r matches Ok(c) ==> (c matches Command::Post { url: u, pairs } && u@ == url@ && pairs_of(
            tokens@,
            pairs@,
        )),
        !url_accepts(url@) ==> (r matches Err(e) && e.is_invalid_url(url@)),
        forall|i: int|
            url_accepts(url@) && first_bad_token(tokens@, i) ==> (r matches Err(e)
                && e.is_invalid_pair(tokens@[i]@)),
{
    let u = match parse_url(url) {
        Ok(u) => u,
        Err(e) => {
            return Err(e);
        },
    };
    let mut pairs: Vec<KvPair> = Vec::new();
    let mut i: usize = 0;
    while i < tokens.len()
        invariant
            url_accepts(url@),
            u@ == url@,
            i <= tokens@.len(),
            forall|j: int| 0 <= j < i ==> #[trigger] tokens@[j]@.contains('='),
            pairs_of(tokens@.take(i as int), pairs@),
        decreases tokens@.len() - i,
    {
        match parse_kv_pair(tokens[i].as_str()) {
            Ok(p) => {
                pairs.push(p);
            },
            Err(e) => {
                assert(first_bad_token(tokens@, i as int));
                assert forall|j: int| #[trigger] first_bad_token(tokens@, j) implies j == i by {
                    if j < i {
                        assert(tokens@[j]@.contains('='));
                    } else if j > i {
                        assert(tokens@[i as int]@.contains('='));
                    }
                }
                return Err(e);
            },
        }
        assert(tokens@.take(i + 1).drop_last() =~= tokens@.take(i as int));
        i = i + 1;
    }
    assert(tokens@.take(tokens@.len() as int) =~= tokens@);
    Ok(Command::Post { url: u, pairs })
}

} // verus!
