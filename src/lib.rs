//! A small command-line HTTP client: the argument model (subcommands, URL
//! validation, `key=value` splitting) and the request body that a POST sends.
//! Sending requests and printing what comes back is left to the caller.

mod address;
mod body;
mod command;
mod error;
mod pair;

pub use address::{parse_url, url_accepts, url_verdict};
pub use body::{build_body, keys_unique, lemma_last_wins, pairs_map, RequestBody};
pub use command::{first_bad_token, pairs_of, parse_post, Command};
pub use error::CliError;
pub use pair::{lemma_split_unique, parse_kv_pair, splits_at_first_eq, KvPair};
