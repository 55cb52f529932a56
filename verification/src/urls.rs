//! Building the addresses of requests.

use url::{ParseError, Url};
use vstd::prelude::*;
use vstd::string::StrSliceExecFns;

verus! {

/// The error that the url crate gives for a text that is no address.
#[verifier::external_type_specification]
#[verifier::external_body]
pub struct ExParseError(ParseError);

/// The most characters that an address, a name and a value may have
/// together when the name and the value are appended to the query of the
/// address. However the characters are encoded, the address with the pair
/// then stays far below the length of four gigabytes, beyond which an
/// address cannot be held.
pub const ADDRESS_LIMIT: usize = 0x00FF_FFFF;

/// The address that `path` names relative to the address `base`, where
/// both can be read as addresses.
pub uninterp spec fn joined_url(base: Seq<char>, path: Seq<char>) -> Option<Seq<char>>;

/// The address `url` with the pair of `name` and `value` appended to its
/// query, where `url` can be read as an address.
pub uninterp spec fn with_pair(url: Seq<char>, name: Seq<char>, value: Seq<char>) -> Option<Seq<char>>;

/// Calls `Url::parse` on `base` and `Url::join` on what it gives, with
/// `path`. The contract gives the text of the resulting address a name; an
/// error of either call means that there is no such address.
#[verifier::external_body]
pub(crate) fn url_join(base: &str, path: &str) -> (res: Result<String, ParseError>)
    ensures
        res is Ok ==> joined_url(base@, path@) == Some(res->Ok_0@),
        res is Err ==> joined_url(base@, path@) is None,
{
    let base = Url::parse(base)?;
    let url = base.join(path)?;
    Ok(url.into_string())
}

/// Calls `Url::parse` on `url`, and on what it gives `query_pairs_mut` and
/// `append_pair` with `name` and `value`. The contract gives the text of
/// the resulting address a name; an error of the first call means that
/// there is no such address. The address, the name and the value are
/// together so short that the address with the pair, with every byte
/// encoded at its longest, has a length that fits in 32 bits: beyond that
/// `query_pairs_mut` would panic, before the pair is appended or when the
/// fragment of the address is put back behind it.
#[verifier::external_body]
pub(crate) fn url_append_pair(url: &str, name: &str, value: &str) -> (res: Result<String, ParseError>)
    requires
        url@.len() + name@.len() + value@.len() <= ADDRESS_LIMIT,
    ensures
        res is Ok ==> with_pair(url@, name@, value@) == Some(res->Ok_0@),
        res is Err ==> with_pair(url@, name@, value@) is None,
{
    let mut url = Url::parse(url)?;
    url.query_pairs_mut().append_pair(name, value);
    Ok(url.into_string())
}

/// Calls `to_string` on an error of the url crate, which gives the text
/// that the error describes itself with.
#[verifier::external_body]
pub(crate) fn parse_error_text(error: &ParseError) -> String {
    error.to_string()
}

/// Whether a pair can be appended to the query of an address: the address,
/// the name and the value are together within the limit.
pub open spec fn fits(url: Seq<char>, name: Seq<char>, value: Seq<char>) -> bool {
    url.len() + name.len() + value.len() <= ADDRESS_LIMIT
}

/// The address `url` with the first `upto` of the pairs appended to its
/// query, one after the other. There is none when one of the steps gives
/// none, or when an address is too long for the pair that comes next.
pub open spec fn with_pairs(url: Seq<char>, pairs: Seq<(Seq<char>, Seq<char>)>, upto: int) -> Option<
    Seq<char>,
>
    decreases upto,
{
    if upto <= 0 || upto > pairs.len() {
        Some(url)
    } else {
        match with_pairs(url, pairs, upto - 1) {
            Some(before) => if fits(before, pairs[upto - 1].0, pairs[upto - 1].1) {
                with_pair(before, pairs[upto - 1].0, pairs[upto - 1].1)
            } else {
                None
            },
            None => None,
        }
    }
}

/// The address of a request: `path` relative to `base`, with the pairs as
/// its query.
pub open spec fn request_url(base: Seq<char>, path: Seq<char>, pairs: Seq<(Seq<char>, Seq<char>)>) -> Option<
    Seq<char>,
> {
    match joined_url(base, path) {
        Some(url) => with_pairs(url, pairs, pairs.len() as int),
        None => None,
    }
}

/// The pairs of a list as plain values.
pub open spec fn pair_views(pairs: Seq<(String, String)>) -> Seq<(Seq<char>, Seq<char>)> {
    pairs.map_values(|pair: (String, String)| (pair.0@, pair.1@))
}

/// Appends pairs to the query of an address. Where that cannot be done,
/// the text says why.
pub fn append_pairs(url: String, pairs: &Vec<(String, String)>) -> (res: Result<String, String>)
    ensures
        match res {
            Ok(address) => with_pairs(url@, pair_views(pairs@), pairs@.len() as int) == Some(
                address@,
            ),
            Err(_) => with_pairs(url@, pair_views(pairs@), pairs@.len() as int) is None,
        },
{
    let ghost start = url@;
    let ghost views = pair_views(pairs@);
    let mut address = url;
    let mut i: usize = 0;
    while i < pairs.len()
        invariant
            i <= pairs@.len(),
            start == url@,
            views == pair_views(pairs@),
            with_pairs(start, views, i as int) == Some(address@),
        decreases pairs@.len() - i,
    {
        assert(views[i as int] == (pairs@[i as int].0@, pairs@[i as int].1@));
        let address_len = address.as_str().unicode_len();
        let name_len = pairs[i].0.as_str().unicode_len();
        let value_len = pairs[i].1.as_str().unicode_len();
        if address_len > ADDRESS_LIMIT || name_len > ADDRESS_LIMIT - address_len || value_len
            > ADDRESS_LIMIT - address_len - name_len {
            proof {
                lemma_none_stays(start, views, i + 1, pairs@.len() as int);
            }
            return Err("The address is too long.".to_owned());
        }
        match url_append_pair(address.as_str(), pairs[i].0.as_str(), pairs[i].1.as_str()) {
            Ok(next) => {
                address = next;
            },
            Err(error) => {
                proof {
                    lemma_none_stays(start, views, i + 1, pairs@.len() as int);
                }
                return Err(parse_error_text(&error));
            },
        }
        i = i + 1;
    }
    Ok(address)
}

/// Once appending has failed, it has failed for every longer list.
pub proof fn lemma_none_stays(url: Seq<char>, pairs: Seq<(Seq<char>, Seq<char>)>, at: int, upto: int)
    requires
        0 < at <= upto <= pairs.len(),
        with_pairs(url, pairs, at) is None,
    ensures
        with_pairs(url, pairs, upto) is None,
    decreases upto - at,
{
    if at < upto {
        lemma_none_stays(url, pairs, at, upto - 1);
    }
}

/// Builds the address of a request. Where there is no such address, the
/// text says why.
pub fn build_url(base: &str, path: &str, pairs: &Vec<(String, String)>) -> (res: Result<String, String>)
    ensures
        match res {
            Ok(address) => request_url(base@, path@, pair_views(pairs@)) == Some(address@),
            Err(_) => request_url(base@, path@, pair_views(pairs@)) is None,
        },
{
    match url_join(base, path) {
        Ok(url) => append_pairs(url, pairs),
        Err(error) => Err(parse_error_text(&error)),
    }
}

} // verus!
