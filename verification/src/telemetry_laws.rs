//! What comes out of an environment for the collector of traces: which variable
//! makes which header, and which headers make which metadata, place by place.

use tonic::metadata::MetadataMap;
use vstd::prelude::*;

use crate::params::Pair;
use crate::telemetry::{
    collect_headers, collect_metadata, get_otlp_params, header_name, with_address, OtlpError,
};

verus! {

/// A variable gives a header exactly if its name begins with `OTLP_TONIC_`. The
/// header is called what follows, with a dash for each underscore and a small
/// letter for each capital, and every other character as it is.
pub proof fn law_how_headers_are_called(variable: &str, name: Option<String>, i: int)
    requires
        call_ensures(header_name, (variable,), name),
    ensures
        name is Some <==> variable@.len() >= 11 && variable@.take(11) == "OTLP_TONIC_"@,
        name is Some ==> name->0@.len() == variable@.len() - 11,
        name is Some && 0 <= i < name->0@.len() && variable@[11 + i] == '_' ==> name->0@[i] == '-',
        name is Some && 0 <= i < name->0@.len() && 'A' <= variable@[11 + i] && variable@[11 + i]
            <= 'Z' ==> name->0@[i] as int == variable@[11 + i] as int + 32,
        name is Some && 0 <= i < name->0@.len() && variable@[11 + i] != '_' && !('A' <= variable@[
            11 + i
        ] && variable@[11 + i] <= 'Z') ==> name->0@[i] == variable@[11 + i],
{
    reveal_strlit("OTLP_TONIC_");
    assert("OTLP_TONIC_"@.len() == 11);
    if variable@.len() >= 11 {
        assert(variable@.take(11) =~= variable@.subrange(0, 11));
        assert(crate::telemetry::has_header_prefix(variable@) <==> variable@.take(11)
            == "OTLP_TONIC_"@);
    }
    if name is Some && 0 <= i < name->0@.len() {
        assert(name->0@[i] == crate::telemetry::header_char(variable@.skip(11)[i]));
    }
}

/// No variables give no headers. One more variable gives one more header, last
/// and with its whole value, if it gives one by its name and is not the
/// collector's address; otherwise the headers stay the same.
pub proof fn law_variable_by_variable(
    vars: Vec<(String, String)>,
    headers: Vec<(String, String)>,
    more_vars: Vec<(String, String)>,
    more_headers: Vec<(String, String)>,
    var: (String, String),
    variable: &str,
    name: Option<String>,
    i: int,
)
    requires
        call_ensures(collect_headers, (&vars,), headers),
        call_ensures(collect_headers, (&more_vars,), more_headers),
        more_vars@ == vars@.push(var),
        variable@ == var.0@,
        call_ensures(header_name, (variable,), name),
    ensures
        vars@.len() == 0 ==> headers@.len() == 0,
        var.0@ == "OTLP_TONIC_ENDPOINT"@ || name is None ==> more_headers@.len() == headers@.len(),
        var.0@ != "OTLP_TONIC_ENDPOINT"@ && name is Some ==> more_headers@.len()
            == headers@.len() + 1 && more_headers@.last().0@ == name->0@
            && more_headers@.last().1@ == var.1@,
        0 <= i < headers@.len() ==> more_headers@[i].0@ == headers@[i].0@ && more_headers@[i].1@
            == headers@[i].1@,
{
    let given = crate::params::pair_texts(vars@);
    let pair: Pair = (var.0@, var.1@);
    let listed = crate::params::pair_texts(headers@);
    let more_listed = crate::params::pair_texts(more_headers@);
    assert(crate::params::pair_texts(more_vars@) =~= given.push(pair));
    crate::telemetry::law_which_variables_are_headers(given, pair);
    if vars@.len() == 0 {
        reveal(Seq::filter);
        assert(given =~= Seq::<Pair>::empty());
    }
    assert(listed.len() == headers@.len() && more_listed.len() == more_headers@.len());
    if 0 <= i < headers@.len() {
        assert(listed[i] == (headers@[i].0@, headers@[i].1@));
        assert(more_listed[i] == (more_headers@[i].0@, more_headers@[i].1@));
    }
    if var.0@ != "OTLP_TONIC_ENDPOINT"@ && name is Some {
        let end = more_headers@.len() - 1;
        assert(more_listed[end] == (more_headers@[end].0@, more_headers@[end].1@));
    }
}

/// A name that a header of text can have: small letters, digits and other
/// visible characters of ASCII that do not separate words, at least one and
/// fewer than 65536, not ending in `-bin`.
pub open spec fn is_good_name(name: Seq<char>) -> bool {
    &&& 1 <= name.len() <= 65535
    &&& forall|i: int|
        0 <= i < name.len() ==> '!' <= #[trigger] name[i] && name[i] <= '~' && !('A' <= name[i]
            && name[i] <= 'Z') && !"(),/:;<=>?@[\\]{}"@.contains(name[i])
    &&& !(exists|stem: Seq<char>| name == #[trigger] (stem + "-bin"@))
}

/// A value that a header can have: no control characters but tabs.
pub open spec fn is_good_value(value: Seq<char>) -> bool {
    forall|i: int|
        0 <= i < value.len() ==> #[trigger] value[i] as int == 9 || value[i] as int >= 32
            && value[i] as int != 127
}

/// The header at `i` and all before it can be headers.
pub open spec fn are_good(headers: Seq<(String, String)>, n: int) -> bool {
    forall|i: int|
        0 <= i < n ==> is_good_name((#[trigger] headers[i]).0@) && is_good_value(headers[i].1@)
}

/// How many names the first `n` headers have.
pub open spec fn names_among(headers: Seq<(String, String)>, n: int) -> nat {
    headers.take(n).map_values(|header: (String, String)| header.0@).to_set().len()
}

/// A map holds the names of these headers and no others, each with one value:
/// the whole value of the last header of that name.
pub open spec fn holds_last_values(map: MetadataMap, headers: Seq<(String, String)>) -> bool {
    &&& forall|name: Seq<char>| #[trigger]
        crate::metadata::metadata_entries(map).contains_key(name) <==> exists|i: int|
            0 <= i < headers.len() && (#[trigger] headers[i]).0@ == name
    &&& forall|i: int|
        0 <= i < headers.len() && (forall|j: int|
            i < j < headers.len() ==> (#[trigger] headers[j]).0@ != headers[i].0@)
            ==> crate::metadata::metadata_entries(map)[(#[trigger] headers[i]).0@] == seq![
            headers[i].1@,
        ]
}

/// Headers were refused for the right reason: the first one that cannot be a
/// header has a bad name, or a good name and a bad value; or there is a good one,
/// with good ones before it, behind too many names.
pub open spec fn is_refused_rightly(headers: Seq<(String, String)>, error: OtlpError) -> bool {
    match error {
        OtlpError::InvalidHeaderName => exists|n: int|
            0 <= n < headers.len() && are_good(headers, n) && !is_good_name(
                (#[trigger] headers[n]).0@,
            ),
        OtlpError::InvalidHeaderValue => exists|n: int|
            0 <= n < headers.len() && are_good(headers, n) && is_good_name(
                (#[trigger] headers[n]).0@,
            ) && !is_good_value(headers[n].1@),
        OtlpError::TooManyHeaders => exists|n: int|
            0 <= n < headers.len() && are_good(headers, n + 1) && #[trigger] names_among(headers, n)
                >= 6554,
        _ => false,
    }
}

/// The names that headers of text can have are those that metadata takes.
proof fn lemma_good_names(name: Seq<char>)
    ensures
        is_good_name(name) <==> crate::metadata::is_text_key(name),
{
    let separators = "(),/:;<=>?@[\\]{}"@;
    reveal_strlit("(),/:;<=>?@[\\]{}");
    assert(separators.len() == 16);
    assert forall|c: char| #[trigger] separators.contains(c) <==> c == '(' || c == ')' || c == ','
        || c == '/' || c == ':' || c == ';' || c == '<' || c == '=' || c == '>' || c == '?' || c
        == '@' || c == '[' || c == '\\' || c == ']' || c == '{' || c == '}' by {
        assert(separators[0] == '(' && separators[1] == ')' && separators[2] == ',');
        assert(separators[3] == '/' && separators[4] == ':' && separators[5] == ';');
        assert(separators[6] == '<' && separators[7] == '=' && separators[8] == '>');
        assert(separators[9] == '?' && separators[10] == '@' && separators[11] == '[');
        assert(separators[12] == '\\' && separators[13] == ']' && separators[14] == '{');
        assert(separators[15] == '}');
    }
    reveal_strlit("-bin");
    assert("-bin"@.len() == 4);
    if crate::metadata::has_binary_ending(name) {
        let stem = name.take(name.len() - 4);
        assert(name =~= stem + "-bin"@);
    }
    if exists|stem: Seq<char>| name == #[trigger] (stem + "-bin"@) {
        let stem = choose|stem: Seq<char>| name == #[trigger] (stem + "-bin"@);
        assert(name.skip(name.len() - 4) =~= "-bin"@);
    }
    assert forall|i: int| 0 <= i < name.len() implies (crate::metadata::is_key_char(
        #[trigger] name[i],
    ) <==> '!' <= name[i] && name[i] <= '~' && !('A' <= name[i] && name[i] <= 'Z')
        && !separators.contains(name[i])) by {}
}

/// The first fault of headers is that of a header behind good ones; without a
/// fault all are good.
proof fn lemma_first_fault(headers: Seq<(String, String)>) -> (n: int)
    ensures
        0 <= n <= headers.len(),
        are_good(headers, n),
        match crate::telemetry::first_fault(crate::params::pair_texts(headers)) {
            None => n == headers.len(),
            Some(fault) => n < headers.len() && fault == if is_good_name(headers[n].0@) {
                OtlpError::InvalidHeaderValue
            } else {
                OtlpError::InvalidHeaderName
            } && !(is_good_name(headers[n].0@) && is_good_value(headers[n].1@)),
        },
    decreases headers.len(),
{
    if headers.len() == 0 {
        0
    } else {
        let init = headers.drop_last();
        let texts = crate::params::pair_texts(headers);
        let end = headers.len() - 1;
        assert(crate::params::pair_texts(init) =~= texts.drop_last());
        assert(texts.last() == (headers[end].0@, headers[end].1@));
        lemma_good_names(headers[end].0@);
        let n = lemma_first_fault(init);
        assert forall|i: int| 0 <= i < n implies is_good_name((#[trigger] headers[i]).0@)
            && is_good_value(headers[i].1@) by {
            assert(headers[i] == init[i]);
        }
        if n < init.len() {
            assert(headers[n] == init[n]);
            n
        } else if crate::telemetry::first_fault(texts) is None {
            n + 1
        } else {
            n
        }
    }
}

/// How many names headers have.
proof fn lemma_names_among(headers: Seq<(String, String)>, n: int)
    requires
        0 <= n <= headers.len(),
    ensures
        names_among(headers, n) == crate::params::collected(
            crate::params::pair_texts(headers).take(n),
        ).dom().len(),
{
    let texts = crate::params::pair_texts(headers).take(n);
    let names = headers.take(n).map_values(|header: (String, String)| header.0@);
    assert forall|name: Seq<char>| #[trigger]
        names.to_set().contains(name) <==> crate::params::collected(texts).dom().contains(name) by {
        if names.to_set().contains(name) {
            let i = choose|i: int| 0 <= i < names.len() && names[i] == name;
            assert(texts[i].0 == name);
            let last = crate::params_laws::lemma_last_place(texts, i);
            crate::params_laws::lemma_last_value(texts, last);
        }
        if crate::params::collected(texts).contains_key(name) {
            let i = crate::params_laws::lemma_name_occurs(texts, name);
            assert(names[i] == name);
        }
    }
    assert(names.to_set() =~= crate::params::collected(texts).dom());
}

/// What can come of headers is right.
proof fn lemma_right_outcome(
    headers: Seq<(String, String)>,
    metadata: Result<MetadataMap, OtlpError>,
)
    requires
        crate::telemetry::can_come_of(crate::params::pair_texts(headers), metadata),
    ensures
        match metadata {
            Ok(map) => holds_last_values(map, headers) && are_good(headers, headers.len() as int),
            Err(error) => is_refused_rightly(headers, error),
        },
{
    let texts = crate::params::pair_texts(headers);
    let n = lemma_first_fault(headers);
    assert forall|i: int| 0 <= i < headers.len() implies #[trigger] texts[i] == (
        headers[i].0@,
        headers[i].1@,
    ) by {}
    match metadata {
        Ok(map) => {
            let entries = crate::metadata::metadata_entries(map);
            assert forall|name: Seq<char>| #[trigger] entries.contains_key(name) <==> exists|
                i: int,
            |
                0 <= i < headers.len() && (#[trigger] headers[i]).0@ == name by {
                if entries.contains_key(name) {
                    let i = crate::params_laws::lemma_name_occurs(texts, name);
                    assert(headers[i].0@ == name);
                }
                if exists|i: int| 0 <= i < headers.len() && (#[trigger] headers[i]).0@ == name {
                    let i = choose|i: int|
                        0 <= i < headers.len() && (#[trigger] headers[i]).0@ == name;
                    assert(texts[i].0 == name);
                    let last = crate::params_laws::lemma_last_place(texts, i);
                    crate::params_laws::lemma_last_value(texts, last);
                }
            }
            assert forall|i: int|
                0 <= i < headers.len() && (forall|j: int|
                    i < j < headers.len() ==> (#[trigger] headers[j]).0@
                        != headers[i].0@) implies entries[(#[trigger] headers[i]).0@] == seq![
                headers[i].1@,
            ] by {
                assert(texts[i].0 == headers[i].0@);
                assert forall|j: int| i < j < texts.len() implies (#[trigger] texts[j]).0
                    != texts[i].0 by {
                    assert(headers[j].0@ != headers[i].0@);
                }
                crate::params_laws::lemma_last_value(texts, i);
            }
        },
        Err(OtlpError::TooManyHeaders) => {
            let k = choose|k: int| #[trigger]
                crate::telemetry::comes_after_names(
                    texts,
                    k,
                    crate::metadata::ALWAYS_FITS as nat,
                );
            let front = headers.take(k + 1);
            assert(crate::params::pair_texts(front) =~= texts.take(k + 1));
            let m = lemma_first_fault(front);
            assert forall|i: int| 0 <= i < k + 1 implies is_good_name((#[trigger] headers[i]).0@)
                && is_good_value(headers[i].1@) by {
                assert(front[i] == headers[i]);
            }
            lemma_names_among(headers, k);
            assert(names_among(headers, k) >= 6554);
        },
        Err(_) => {
            assert(0 <= n < headers.len() && headers[n] == headers[n]);
        },
    }
}

/// Metadata holds what the headers say: each name once, with the whole value of
/// its last header, and nothing else. It is made only where every header can be
/// one, and refused for the first that cannot, or where there are too many.
pub proof fn law_metadata_is_what_the_headers_say(
    vars: Vec<(String, String)>,
    headers: Vec<(String, String)>,
    metadata: Result<MetadataMap, OtlpError>,
)
    requires
        call_ensures(collect_headers, (&vars,), headers),
        call_ensures(collect_metadata, (&vars,), metadata),
    ensures
        metadata matches Ok(map) ==> holds_last_values(map, headers@) && are_good(
            headers@,
            headers@.len() as int,
        ),
        metadata matches Err(error) ==> is_refused_rightly(headers@, error),
{
    lemma_right_outcome(headers@, metadata);
}

/// The last header of a name gives its value, character for character, and a
/// name that no header has is not there.
pub proof fn law_the_last_header_counts(headers: Seq<Pair>, i: int, name: Seq<char>)
    requires
        0 <= i < headers.len(),
        forall|j: int| i < j < headers.len() ==> (#[trigger] headers[j]).0 != headers[i].0,
    ensures
        crate::telemetry::metadata_of(headers).contains_key(headers[i].0),
        crate::telemetry::metadata_of(headers)[headers[i].0] == seq![headers[i].1],
        (forall|j: int| 0 <= j < headers.len() ==> (#[trigger] headers[j]).0 != name)
            ==> !crate::telemetry::metadata_of(headers).contains_key(name),
{
    crate::params_laws::lemma_last_value(headers, i);
    if crate::params::collected(headers).contains_key(name) {
        let k = crate::params_laws::lemma_name_occurs(headers, name);
    }
}

/// Good headers are never refused where there are at most 6554, and always where
/// one comes behind 24576 names.
pub proof fn law_how_many_headers_are_taken(
    vars: Vec<(String, String)>,
    headers: Vec<(String, String)>,
    metadata: Result<MetadataMap, OtlpError>,
    n: int,
)
    requires
        call_ensures(collect_headers, (&vars,), headers),
        call_ensures(collect_metadata, (&vars,), metadata),
    ensures
        headers@.len() <= 6554 ==> metadata != Err::<MetadataMap, OtlpError>(
            OtlpError::TooManyHeaders,
        ),
        headers@.len() <= 6554 && are_good(headers@, headers@.len() as int) ==> metadata is Ok,
        0 <= n < headers@.len() && are_good(headers@, n + 1) && names_among(headers@, n) >= 24576
            ==> metadata == Err::<MetadataMap, OtlpError>(OtlpError::TooManyHeaders),
{
    let texts = crate::params::pair_texts(headers@);
    let k = lemma_first_fault(headers@);
    if headers@.len() <= 6554 {
        crate::telemetry::law_few_headers_are_kept(texts, metadata);
    }
    if 0 <= n < headers@.len() && are_good(headers@, n + 1) && names_among(headers@, n) >= 24576 {
        let front = headers@.take(n + 1);
        let m = lemma_first_fault(front);
        assert(crate::params::pair_texts(front) =~= texts.take(n + 1));
        if m < front.len() {
            assert(front[m] == headers@[m]);
        }
        lemma_names_among(headers@, n);
        assert(crate::telemetry::comes_after_names(
            texts,
            n,
            crate::metadata::NEVER_FITS as nat,
        ));
    }
}

/// An address goes along as it is with what the headers say; without an address
/// nothing does.
pub proof fn law_an_address_goes_along(
    address: Option<String>,
    vars: Vec<(String, String)>,
    headers: Vec<(String, String)>,
    params: Result<(String, MetadataMap), OtlpError>,
)
    requires
        call_ensures(collect_headers, (&vars,), headers),
        call_ensures(with_address, (address, &vars), params),
    ensures
        address is None ==> params == Err::<(String, MetadataMap), OtlpError>(
            OtlpError::InvalidEndpoint,
        ),
        address matches Some(text) ==> match params {
            Ok((kept, map)) => kept@ == text@ && holds_last_values(map, headers@) && are_good(
                headers@,
                headers@.len() as int,
            ),
            Err(error) => is_refused_rightly(headers@, error),
        },
        address is Some && headers@.len() <= 6554 && are_good(headers@, headers@.len() as int)
            ==> params is Ok,
{
    if address is Some {
        let metadata: Result<MetadataMap, OtlpError> = match params {
            Ok((_, map)) => Ok(map),
            Err(error) => Err(error),
        };
        lemma_right_outcome(headers@, metadata);
        let k = lemma_first_fault(headers@);
        if headers@.len() <= 6554 {
            crate::telemetry::law_few_headers_are_kept(
                crate::params::pair_texts(headers@),
                metadata,
            );
        }
    }
}

/// Traces go to the address that the first variable `OTLP_TONIC_ENDPOINT` gives,
/// as it is written in full, with what the headers say. Nothing else is done
/// where there is no such variable, and where it gives no address.
pub proof fn law_where_traces_go(
    vars: Vec<(String, String)>,
    headers: Vec<(String, String)>,
    params: Result<(String, MetadataMap), OtlpError>,
    i: int,
)
    requires
        call_ensures(collect_headers, (&vars,), headers),
        call_ensures(get_otlp_params, (&vars,), params),
    ensures
        (forall|j: int|
            0 <= j < vars@.len() ==> (#[trigger] vars@[j]).0@ != "OTLP_TONIC_ENDPOINT"@) ==> params
            == Err::<(String, MetadataMap), OtlpError>(OtlpError::MissingEndpoint),
        0 <= i < vars@.len() && vars@[i].0@ == "OTLP_TONIC_ENDPOINT"@ && (forall|j: int|
            0 <= j < i ==> (#[trigger] vars@[j]).0@ != "OTLP_TONIC_ENDPOINT"@)
            ==> match crate::telemetry::url_text(vars@[i].1@) {
            None => params == Err::<(String, MetadataMap), OtlpError>(OtlpError::InvalidEndpoint),
            Some(text) => match params {
                Ok((address, map)) => address@ == text && holds_last_values(map, headers@)
                    && are_good(headers@, headers@.len() as int),
                Err(error) => is_refused_rightly(headers@, error),
            },
        },
        0 <= i < vars@.len() && vars@[i].0@ == "OTLP_TONIC_ENDPOINT"@ && (forall|j: int|
            0 <= j < i ==> (#[trigger] vars@[j]).0@ != "OTLP_TONIC_ENDPOINT"@)
            && crate::telemetry::url_text(vars@[i].1@) is Some && headers@.len() <= 6554
            && are_good(headers@, headers@.len() as int) ==> params is Ok,
{
    let texts = crate::params::pair_texts(vars@);
    let names = crate::params::pair_names(texts);
    names.index_of_first_ensures("OTLP_TONIC_ENDPOINT"@);
    assert forall|j: int| 0 <= j < vars@.len() implies #[trigger] names[j] == vars@[j].0@ by {}
    match names.index_of_first("OTLP_TONIC_ENDPOINT"@) {
        None => {
            if 0 <= i < vars@.len() && vars@[i].0@ == "OTLP_TONIC_ENDPOINT"@ {
                assert(names[i] == "OTLP_TONIC_ENDPOINT"@);
            }
        },
        Some(first) => {
            assert(vars@[first].0@ == "OTLP_TONIC_ENDPOINT"@);
            assert(texts[first].1 == vars@[first].1@);
            if 0 <= i < vars@.len() && vars@[i].0@ == "OTLP_TONIC_ENDPOINT"@ && (forall|j: int|
                0 <= j < i ==> (#[trigger] vars@[j]).0@ != "OTLP_TONIC_ENDPOINT"@) {
                if i < first {
                    assert(names[i] != "OTLP_TONIC_ENDPOINT"@);
                }
                assert(i == first);
                if crate::telemetry::url_text(vars@[i].1@) is Some {
                    let metadata: Result<MetadataMap, OtlpError> = match params {
                        Ok((_, map)) => Ok(map),
                        Err(error) => Err(error),
                    };
                    lemma_right_outcome(headers@, metadata);
                    let k = lemma_first_fault(headers@);
                    if headers@.len() <= 6554 {
                        crate::telemetry::law_few_headers_are_kept(
                            crate::params::pair_texts(headers@),
                            metadata,
                        );
                    }
                }
            }
        },
    }
}

} // verus!
