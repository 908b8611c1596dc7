//! Where traces go: the collector's address and the headers for it, out of the
//! environment.

use tonic::metadata::MetadataMap;
use url::ParseError;
use vstd::prelude::*;

use crate::metadata::{metadata_insert, metadata_key, metadata_value, ALWAYS_FITS, NEVER_FITS};
use crate::params::{find, pair_texts, Pair};
use crate::text::same_text;

verus! {

/// url's error for text that is no address.
#[verifier::external_type_specification]
#[verifier::external_body]
pub struct ExParseError(ParseError);

/// The address that a text stands for, written as url writes addresses; none
/// where url does not take the text for an absolute address.
pub uninterp spec fn url_text(text: Seq<char>) -> Option<Seq<char>>;

/// `Url::parse` of url: reads an absolute address. What comes out is named, not
/// described.
#[verifier::external_body]
fn parse_url(text: &str) -> (address: Result<String, ParseError>)
    ensures
        match address {
            Ok(a) => url_text(text@) == Some(a@),
            Err(_) => url_text(text@) is None,
        },
{
    url::Url::parse(text).map(String::from)
}

/// Why traces cannot be sent.
#[derive(Clone, Copy, Debug, PartialEq, Eq, Structural)]
pub enum OtlpError {
    /// No variable gives the collector's address.
    MissingEndpoint,
    /// The collector's address is none.
    InvalidEndpoint,
    /// There are more headers than metadata can hold.
    TooManyHeaders,
    /// A header has a name that a header of text cannot have.
    InvalidHeaderName,
    /// A header has a value that a header cannot have.
    InvalidHeaderValue,
}

/// A variable that gives a header, or the collector's address.
pub open spec fn has_header_prefix(variable: Seq<char>) -> bool {
    "OTLP_TONIC_"@.is_prefix_of(variable)
}

/// A character of a variable's name in the name of its header.
pub open spec fn header_char(c: char) -> char {
    if c == '_' {
        '-'
    } else if 'A' <= c && c <= 'Z' {
        (c as u32 + 32) as char
    } else {
        c
    }
}

/// The name of the header that a variable gives.
pub open spec fn header_name_of(variable: Seq<char>) -> Seq<char> {
    variable.skip("OTLP_TONIC_"@.len() as int).map_values(|c: char| header_char(c))
}

/// A variable that gives a header.
pub open spec fn gives_header(variable: Pair) -> bool {
    has_header_prefix(variable.0) && variable.0 != "OTLP_TONIC_ENDPOINT"@
}

/// The headers that an environment gives, in its order.
pub open spec fn headers_in(vars: Seq<Pair>) -> Seq<Pair> {
    vars.filter(|var: Pair| gives_header(var)).map_values(
        |var: Pair| (header_name_of(var.0), var.1),
    )
}

/// The name of the header that a variable gives.
pub fn header_name(variable: &str) -> (name: Option<String>)
    ensures
        match name {
            Some(n) => has_header_prefix(variable@) && n@ == header_name_of(variable@),
            None => !has_header_prefix(variable@),
        },
{
    proof {
        reveal_strlit("OTLP_TONIC_");
    }
    let len: usize = variable.unicode_len();
    if len < 11 {
        return None;
    }
    let start = variable.substring_char(0, 11);
    if !same_text(start, "OTLP_TONIC_") {
        assert(has_header_prefix(variable@) ==> start@ =~= "OTLP_TONIC_"@);
        return None;
    }
    let rest = variable.substring_char(11, len);
    let mut name = String::new();
    for c in it: rest.chars()
        invariant
            it.seq() == rest@,
            name@ == rest@.take(it.index() as int).map_values(|c: char| header_char(c)),
    {
        let ghost n = it.index() as int;
        assert(rest@.take(n + 1) =~= rest@.take(n).push(c));
        if c == '_' {
            name.push('-');
        } else if 'A' <= c && c <= 'Z' {
            name.push((c as u8 + 32) as char);
        } else {
            name.push(c);
        }
        assert(name@ =~= rest@.take(n + 1).map_values(|c: char| header_char(c)));
    }
    assert(rest@.take(rest@.len() as int) =~= rest@);
    assert(rest@ =~= variable@.skip(11));
    assert("OTLP_TONIC_"@.is_prefix_of(variable@)) by {
        assert(variable@.subrange(0, 11) =~= "OTLP_TONIC_"@);
    }
    Some(name)
}

/// Collects the headers that an environment gives.
pub fn collect_headers(vars: &Vec<(String, String)>) -> (headers: Vec<(String, String)>)
    ensures
        pair_texts(headers@) == headers_in(pair_texts(vars@)),
{
    let ghost given = pair_texts(vars@);
    let ghost gives = |var: Pair| gives_header(var);
    let ghost header = |var: Pair| (header_name_of(var.0), var.1);
    let mut headers: Vec<(String, String)> = Vec::new();
    assert(given.take(0).filter(gives) =~= Seq::<Pair>::empty());
    assert(pair_texts(headers@) =~= given.take(0).filter(gives).map_values(header));
    for i in 0..vars.len()
        invariant
            given == pair_texts(vars@),
            gives == (|var: Pair| gives_header(var)),
            header == (|var: Pair| (header_name_of(var.0), var.1)),
            pair_texts(headers@) == given.take(i as int).filter(gives).map_values(header),
    {
        let ghost before = given.take(i as int);
        let ghost var = given[i as int];
        let ghost listed = pair_texts(headers@);
        proof {
            assert(given.take(i + 1) =~= before.push(var));
            lemma_filter_push(before, gives, var);
        }
        if !same_text(vars[i].0.as_str(), "OTLP_TONIC_ENDPOINT") {
            if let Some(name) = header_name(vars[i].0.as_str()) {
                headers.push((name, vars[i].1.clone()));
                assert(pair_texts(headers@) =~= listed.push(header(var)));
                assert(before.filter(gives).push(var).map_values(header) =~= listed.push(
                    header(var),
                ));
            }
        }
    }
    assert(given.take(given.len() as int) =~= given);
    headers
}

/// Filtering a longer sequence.
proof fn lemma_filter_push(s: Seq<Pair>, keep: spec_fn(Pair) -> bool, pair: Pair)
    ensures
        s.push(pair).filter(keep) == if keep(pair) {
            s.filter(keep).push(pair)
        } else {
            s.filter(keep)
        },
{
    reveal(Seq::filter);
    assert(s.push(pair).drop_last() =~= s);
}

/// What is wrong with a header.
pub open spec fn header_fault(header: Pair) -> Option<OtlpError> {
    if !crate::metadata::is_text_key(header.0) {
        Some(OtlpError::InvalidHeaderName)
    } else if !crate::metadata::is_value_text(header.1) {
        Some(OtlpError::InvalidHeaderValue)
    } else {
        None
    }
}

/// What is wrong with the first header with which anything is.
pub open spec fn first_fault(headers: Seq<Pair>) -> Option<OtlpError>
    decreases headers.len(),
{
    if headers.len() == 0 {
        None
    } else {
        match first_fault(headers.drop_last()) {
            Some(fault) => Some(fault),
            None => header_fault(headers.last()),
        }
    }
}

/// The header at `n` is to be kept, as those before it are, and these have at
/// least `names` names.
pub open spec fn comes_after_names(headers: Seq<Pair>, n: int, names: nat) -> bool {
    &&& 0 <= n < headers.len()
    &&& first_fault(headers.take(n + 1)) is None
    &&& crate::params::collected(headers.take(n)).dom().len() >= names
}

/// Some header comes after so many names that metadata may not take it.
pub open spec fn may_be_too_many(headers: Seq<Pair>) -> bool {
    exists|n: int| #[trigger] comes_after_names(headers, n, ALWAYS_FITS as nat)
}

/// Some header comes after so many names that metadata does not take it.
pub open spec fn are_too_many(headers: Seq<Pair>) -> bool {
    exists|n: int| #[trigger] comes_after_names(headers, n, NEVER_FITS as nat)
}

/// The metadata that headers make: each name with its last value.
pub open spec fn metadata_of(headers: Seq<Pair>) -> Map<Seq<char>, Seq<Seq<char>>> {
    crate::params::collected(headers).map_values(|value: Seq<char>| seq![value])
}

/// A fault stays the first one whatever follows.
proof fn lemma_fault_remains(headers: Seq<Pair>, n: int)
    requires
        0 <= n <= headers.len(),
        first_fault(headers.take(n)) is Some,
    ensures
        first_fault(headers) == first_fault(headers.take(n)),
    decreases headers.len(),
{
    if n == headers.len() {
        assert(headers.take(n) =~= headers);
    } else {
        assert(headers.drop_last().take(n) =~= headers.take(n));
        lemma_fault_remains(headers.drop_last(), n);
    }
}

/// What can come of making metadata of headers: all of them are kept, or the
/// first fault is reported, or there were too many before one was found. Which
/// number is too many is open between the bounds that metadata has.
pub open spec fn can_come_of(
    headers: Seq<Pair>,
    metadata: Result<MetadataMap, OtlpError>,
) -> bool {
    match metadata {
        Ok(map) => {
            &&& first_fault(headers) is None
            &&& !are_too_many(headers)
            &&& crate::metadata::metadata_entries(map) == metadata_of(headers)
        },
        Err(OtlpError::TooManyHeaders) => may_be_too_many(headers),
        Err(error) => first_fault(headers) == Some(error) && !are_too_many(headers),
    }
}

/// The names of headers are at most as many as the headers, and at most as many
/// as those of more headers.
proof fn lemma_names_of(headers: Seq<Pair>, n: int)
    requires
        0 <= n <= headers.len(),
    ensures
        crate::params::collected(headers).dom().finite(),
        crate::params::collected(headers.take(n)).dom().len() <= n,
        crate::params::collected(headers.take(n)).dom().len() <= crate::params::collected(
            headers,
        ).dom().len(),
    decreases headers.len(),
{
    if n == headers.len() {
        assert(headers.take(n) =~= headers);
    }
    if headers.len() > 0 {
        let before = headers.drop_last();
        assert(crate::params::collected(headers).dom() =~= crate::params::collected(
            before,
        ).dom().insert(headers.last().0));
        if n < headers.len() {
            assert(before.take(n) =~= headers.take(n));
            lemma_names_of(before, n);
        } else {
            assert(before.take(n - 1) =~= before);
            lemma_names_of(before, n - 1);
        }
    }
}

/// Headers that are few are never too many: whatever comes of them, they are all
/// kept if none has a fault, and the first fault is reported if one has.
pub proof fn law_few_headers_are_kept(headers: Seq<Pair>, metadata: Result<MetadataMap, OtlpError>)
    requires
        headers.len() <= ALWAYS_FITS || crate::params::collected(headers).dom().len()
            < ALWAYS_FITS,
        can_come_of(headers, metadata),
    ensures
        match first_fault(headers) {
            None => metadata matches Ok(map) && crate::metadata::metadata_entries(map)
                == metadata_of(headers),
            Some(fault) => metadata == Err::<MetadataMap, OtlpError>(fault),
        },
{
    assert forall|n: int| !#[trigger] comes_after_names(headers, n, ALWAYS_FITS as nat) by {
        if 0 <= n < headers.len() {
            lemma_names_of(headers, n);
        }
    }
}

/// Whether a name ends as the keys of binary values do.
fn ends_binary(name: &str) -> (ends: bool)
    ensures
        ends == crate::metadata::has_binary_ending(name@),
{
    let len: usize = name.unicode_len();
    if len < 4 {
        return false;
    }
    let end = name.substring_char(len - 4, len);
    assert(end@ =~= name@.skip(name@.len() - 4));
    same_text(end, "-bin")
}

/// Turns the headers that an environment gives into metadata.
pub fn collect_metadata(vars: &Vec<(String, String)>) -> (metadata: Result<MetadataMap, OtlpError>)
    ensures
        can_come_of(headers_in(pair_texts(vars@)), metadata),
{
    let headers = collect_headers(vars);
    let ghost given = pair_texts(headers@);
    proof {
        assert forall|k: int| 0 <= k < given.len() implies crate::metadata::has_no_capital(
            #[trigger] given[k].0,
        ) by {
            let var = pair_texts(vars@).filter(|var: Pair| gives_header(var))[k];
            law_header_names_are_tidy(var.0);
        }
    }
    let mut map = MetadataMap::new();
    assert(metadata_of(given.take(0)) =~= crate::metadata::metadata_entries(map));
    for i in 0..headers.len()
        invariant
            given == pair_texts(headers@),
            given == headers_in(pair_texts(vars@)),
            forall|k: int|
                0 <= k < given.len() ==> crate::metadata::has_no_capital(#[trigger] given[k].0),
            first_fault(given.take(i as int)) is None,
            crate::metadata::metadata_entries(map) == metadata_of(given.take(i as int)),
            forall|n: int|
                0 <= n < i ==> #[trigger] crate::params::collected(given.take(n)).dom().len()
                    < NEVER_FITS,
    {
        let ghost header = given[i as int];
        let name = headers[i].0.as_str();
        let value = headers[i].1.as_str();
        proof {
            assert(given.take(i + 1).drop_last() =~= given.take(i as int));
            if first_fault(given.take(i + 1)) is Some {
                lemma_fault_remains(given, i + 1);
                assert forall|n: int| !#[trigger] comes_after_names(given, n, NEVER_FITS as nat) by {
                    if i <= n < given.len() {
                        assert(given.take(n + 1).take(i + 1) =~= given.take(i + 1));
                        lemma_fault_remains(given.take(n + 1), i + 1);
                    }
                }
            }
        }
        if ends_binary(name) {
            return Err(OtlpError::InvalidHeaderName);
        }
        let key = match metadata_key(name) {
            Ok(key) => key,
            Err(_) => {
                return Err(OtlpError::InvalidHeaderName);
            },
        };
        if metadata_value(value).is_err() {
            return Err(OtlpError::InvalidHeaderValue);
        }
        assert(crate::metadata::metadata_entries(map).dom() =~= crate::params::collected(
            given.take(i as int),
        ).dom());
        map = match metadata_insert(map, key.as_str(), value) {
            Some(now) => now,
            None => {
                assert(comes_after_names(given, i as int, ALWAYS_FITS as nat));
                return Err(OtlpError::TooManyHeaders);
            },
        };
        assert(crate::metadata::metadata_entries(map) =~= metadata_of(given.take(i + 1)));
    }
    assert(given.take(given.len() as int) =~= given);
    Ok(map)
}

/// What the variable for the collector's address holds.
pub open spec fn endpoint_in(vars: Seq<Pair>) -> Option<Seq<char>> {
    match crate::params::pair_names(vars).index_of_first("OTLP_TONIC_ENDPOINT"@) {
        Some(i) => Some(vars[i].1),
        None => None,
    }
}

/// What can come of putting an address, where it is one, together with the
/// metadata that an environment gives.
pub open spec fn can_come_of_address(
    address: Option<Seq<char>>,
    vars: Seq<Pair>,
    params: Result<(String, MetadataMap), OtlpError>,
) -> bool {
    match address {
        None => params == Err::<(String, MetadataMap), _>(OtlpError::InvalidEndpoint),
        Some(text) => match params {
            Ok((address, map)) => address@ == text && can_come_of(headers_in(vars), Ok(map)),
            Err(error) => can_come_of(headers_in(vars), Err(error)),
        },
    }
}

/// Puts the collector's address, where it is one, together with the metadata
/// that the environment gives.
pub fn with_address(address: Option<String>, vars: &Vec<(String, String)>) -> (params: Result<
    (String, MetadataMap),
    OtlpError,
>)
    ensures
        can_come_of_address(
            match address {
                Some(text) => Some(text@),
                None => None,
            },
            pair_texts(vars@),
            params,
        ),
{
    match address {
        None => Err(OtlpError::InvalidEndpoint),
        Some(address) => match collect_metadata(vars) {
            Ok(map) => Ok((address, map)),
            Err(error) => Err(error),
        },
    }
}

/// Reads out of the environment where traces go.
pub fn get_otlp_params(vars: &Vec<(String, String)>) -> (params: Result<
    (String, MetadataMap),
    OtlpError,
>)
    ensures
        match endpoint_in(pair_texts(vars@)) {
            None => params == Err::<(String, MetadataMap), _>(OtlpError::MissingEndpoint),
            Some(text) => can_come_of_address(url_text(text), pair_texts(vars@), params),
        },
{
    match find(vars, "OTLP_TONIC_ENDPOINT") {
        None => Err(OtlpError::MissingEndpoint),
        Some(i) => {
            assert(pair_texts(vars@)[i as int].1 == vars@[i as int].1@);
            with_address(parse_url(vars[i].1.as_str()).ok(), vars)
        },
    }
}

/// Names of headers have neither capitals nor underscores, and are as long as
/// what follows the prefix.
pub proof fn law_header_names_are_tidy(variable: Seq<char>)
    ensures
        crate::metadata::has_no_capital(header_name_of(variable)),
        !header_name_of(variable).contains('_'),
        has_header_prefix(variable) ==> header_name_of(variable).len() == variable.len()
            - "OTLP_TONIC_"@.len(),
{
    let rest = variable.skip("OTLP_TONIC_"@.len() as int);
    let name = header_name_of(variable);
    assert forall|k: int| 0 <= k < name.len() implies name[k] != '_' && !('A' <= #[trigger] name[k]
        && name[k] <= 'Z') by {
        assert(name[k] == header_char(rest[k]));
    }
}

/// The variable for the collector's address is no header, and neither is one
/// without the prefix; every other variable with the prefix is, and comes last
/// where it comes last.
pub proof fn law_which_variables_are_headers(vars: Seq<Pair>, var: Pair)
    ensures
        !gives_header(var) ==> headers_in(vars.push(var)) == headers_in(vars),
        gives_header(var) ==> headers_in(vars.push(var)) == headers_in(vars).push(
            (header_name_of(var.0), var.1),
        ),
{
    lemma_filter_push(vars, |var: Pair| gives_header(var), var);
    assert(gives_header(var) ==> headers_in(vars.push(var)) =~= headers_in(vars).push(
        (header_name_of(var.0), var.1),
    ));
}

} // verus!
