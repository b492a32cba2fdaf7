//! Reading the requests of the HTTP protocol from the path of an HTTP
//! request.

use crate::common::{AnnounceEvent, InfoHash, PeerId};
use crate::http::{AnnounceRequest, Request, ScrapeRequest};
use crate::text::{
    bytes_array, bytes_of_text, chars_of, lemma_bytes_array, spec_bytes_of_text, string_from_chars,
};
use vstd::prelude::*;

verus! {

/// `serde_urlencoded::de::Error`: why a query string could not be read.
/// Only that there is one is used.
#[verifier::external_type_specification]
#[verifier::external_body]
pub struct ExQueryError(serde_urlencoded::de::Error);

/// `std::num::ParseIntError`: why a text reads as no number. Only that
/// there is one is used.
#[verifier::external_type_specification]
#[verifier::external_body]
pub struct ExParseIntError(std::num::ParseIntError);

/// The names and values that `serde_urlencoded::from_str` reads from a
/// query string, in order, where it reads it.
pub uninterp spec fn query_pairs(query: Seq<char>) -> Option<Seq<(Seq<char>, Seq<char>)>>;

/// Whether a character is one of the ten digits.
pub open spec fn is_digit(c: char) -> bool {
    '0' <= c <= '9'
}

/// The number that digits stand for.
pub open spec fn digits_value(digits: Seq<char>) -> nat
    decreases digits.len(),
{
    if digits.len() == 0 {
        0
    } else {
        digits_value(digits.drop_last()) * 10 + (digits.last() as u32 - '0' as u32) as nat
    }
}

/// The number that a text tells: one digit at least and digits only, after
/// a plus sign or without one, that stand for a number which sixty-four bits
/// can hold.
pub open spec fn decimal_u64(text: Seq<char>) -> Option<u64> {
    let digits = if text.len() > 0 && text[0] == '+' {
        text.subrange(1, text.len() as int)
    } else {
        text
    };
    if digits.len() > 0 && (forall|i: int| 0 <= i < digits.len() ==> is_digit(digits[i]))
        && digits_value(digits) <= u64::MAX {
        Some(digits_value(digits) as u64)
    } else {
        None
    }
}

/// The names and values as sequences of characters.
pub open spec fn pairs_view(pairs: Seq<(String, String)>) -> Seq<(Seq<char>, Seq<char>)> {
    Seq::new(pairs.len(), |i: int| (pairs[i].0@, pairs[i].1@))
}

/// `serde_urlencoded::from_str`, reading names and values: the pairs of the
/// query string in order, or the error of serde_urlencoded.
#[verifier::external_body]
fn urlencoded_pairs(query: &str) -> (pairs: Result<Vec<(String, String)>, serde_urlencoded::de::Error>)
    ensures
        match pairs {
            Ok(pairs) => query_pairs(query@) == Some(pairs_view(pairs@)),
            Err(_) => query_pairs(query@).is_none(),
        },
{
    serde_urlencoded::from_str::<Vec<(String, String)>>(query)
}

/// `str::parse` of std, reading a `u64`: the number that the text tells,
/// or the error of std where it tells none. The text tells a number where it
/// is digits only, one at least, after a plus sign or without one, and the
/// number fits.
#[verifier::external_body]
fn parse_u64(text: &str) -> (number: Result<u64, std::num::ParseIntError>)
    ensures
        match number {
            Ok(number) => decimal_u64(text@) == Some(number),
            Err(_) => decimal_u64(text@).is_none(),
        },
{
    text.parse::<u64>()
}

/// The positions of the pairs with the given name.
pub open spec fn count_field(pairs: Seq<(Seq<char>, Seq<char>)>, name: Seq<char>) -> nat
    decreases pairs.len(),
{
    if pairs.len() == 0 {
        0
    } else {
        count_field(pairs.drop_last(), name) + if pairs.last().0 == name {
            1nat
        } else {
            0nat
        }
    }
}

/// The value of the last pair with the given name; empty where there is
/// none.
pub open spec fn last_field(pairs: Seq<(Seq<char>, Seq<char>)>, name: Seq<char>) -> Seq<char>
    decreases pairs.len(),
{
    if pairs.len() == 0 {
        Seq::empty()
    } else if pairs.last().0 == name {
        pairs.last().1
    } else {
        last_field(pairs.drop_last(), name)
    }
}

/// The value of the field with the given name, where exactly one pair has
/// that name.
pub open spec fn single_field(pairs: Seq<(Seq<char>, Seq<char>)>, name: Seq<char>) -> Option<
    Seq<char>,
> {
    if count_field(pairs, name) == 1 {
        Some(last_field(pairs, name))
    } else {
        None
    }
}

/// How often a name occurs among the pairs, counted up to two, and the
/// value of the last pair with that name.
fn find_field(pairs: &Vec<(String, String)>, name: &str) -> (found: (u8, Option<usize>))
    ensures
        found.0 == if count_field(pairs_view(pairs@), name@) >= 2 {
            2
        } else {
            count_field(pairs_view(pairs@), name@) as int
        },
        match found.1 {
            Some(i) => i < pairs@.len() && pairs@[i as int].1@ == last_field(
                pairs_view(pairs@),
                name@,
            ) && found.0 >= 1,
            None => found.0 == 0,
        },
{
    let wanted = name.to_owned();
    let mut count: u8 = 0;
    let mut last: Option<usize> = None;
    let mut i: usize = 0;
    while i < pairs.len()
        invariant
            i <= pairs.len(),
            wanted@ == name@,
            count == if count_field(pairs_view(pairs@).take(i as int), name@) >= 2 {
                2
            } else {
                count_field(pairs_view(pairs@).take(i as int), name@) as int
            },
            match last {
                Some(l) => l < i && pairs@[l as int].1@ == last_field(
                    pairs_view(pairs@).take(i as int),
                    name@,
                ) && count >= 1,
                None => count == 0,
            },
        decreases pairs.len() - i,
    {
        proof {
            assert(pairs_view(pairs@).take(i + 1).drop_last() =~= pairs_view(pairs@).take(
                i as int,
            ));
        }
        if pairs[i].0 == wanted {
            if count < 2 {
                count += 1;
            }
            last = Some(i);
        }
        i += 1;
    }
    proof {
        assert(pairs_view(pairs@).take(i as int) =~= pairs_view(pairs@));
    }
    (count, last)
}

/// The number that a field holds, where exactly one pair has its name, its
/// value reads as a number, and that number is no larger than `max`.
pub open spec fn number_field(pairs: Seq<(Seq<char>, Seq<char>)>, name: Seq<char>, max: u64) -> Option<
    u64,
> {
    match single_field(pairs, name) {
        Some(value) => match decimal_u64(value) {
            Some(number) => if number <= max {
                Some(number)
            } else {
                None
            },
            None => None,
        },
        None => None,
    }
}

/// The number that a field holds.
fn read_number_field(pairs: &Vec<(String, String)>, name: &str, max: u64) -> (number: Option<u64>)
    ensures
        number == number_field(pairs_view(pairs@), name@, max),
{
    let found = find_field(pairs, name);
    if found.0 != 1 {
        return None;
    }
    match found.1 {
        Some(i) => match parse_u64(pairs[i].1.as_str()) {
            Ok(number) => {
                if number <= max {
                    Some(number)
                } else {
                    None
                }
            },
            Err(_) => None,
        },
        None => None,
    }
}

/// The twenty bytes that a field holds, where exactly one pair has its
/// name and its value is a text of twenty characters that each have the
/// number of a byte.
pub open spec fn bytes_field(pairs: Seq<(Seq<char>, Seq<char>)>, name: Seq<char>) -> Option<
    Seq<u8>,
> {
    match single_field(pairs, name) {
        Some(value) => spec_bytes_of_text(value),
        None => None,
    }
}

/// The twenty bytes that a field holds.
fn read_bytes_field(pairs: &Vec<(String, String)>, name: &str) -> (bytes: Option<[u8; 20]>)
    ensures
        match bytes {
            Some(bytes) => bytes_field(pairs_view(pairs@), name@) == Some(bytes@),
            None => bytes_field(pairs_view(pairs@), name@).is_none(),
        },
{
    let found = find_field(pairs, name);
    if found.0 != 1 {
        return None;
    }
    match found.1 {
        Some(i) => bytes_of_text(pairs[i].1.as_str()),
        None => None,
    }
}

/// The event that the pairs tell: none where no pair is named `event`; the
/// event named where one is; nothing where several are, or where the name is
/// that of no event.
pub open spec fn event_field(pairs: Seq<(Seq<char>, Seq<char>)>) -> Option<AnnounceEvent> {
    if count_field(pairs, "event"@) == 0 {
        Some(AnnounceEvent::Empty)
    } else if count_field(pairs, "event"@) == 1 {
        AnnounceEvent::spec_from_name(last_field(pairs, "event"@))
    } else {
        None
    }
}

/// The largest number that a count can hold.
pub open spec fn max_count() -> u64 {
    usize::MAX as u64
}

impl AnnounceRequest {
    /// Whether `request` is the announce that the pairs describe.
    pub open spec fn matches_pairs(request: AnnounceRequest, pairs: Seq<(Seq<char>, Seq<char>)>) -> bool {
        &&& bytes_field(pairs, "info_hash"@) == Some(request.info_hash.0@)
        &&& bytes_field(pairs, "peer_id"@) == Some(request.peer_id.0@)
        &&& number_field(pairs, "port"@, 0xffff) == Some(request.port as u64)
        &&& number_field(pairs, "left"@, max_count()) == Some(request.bytes_left as u64)
        &&& event_field(pairs) == Some(request.event)
        &&& number_field(pairs, "compact"@, 0xff) == Some(request.compact as u64)
        &&& number_field(pairs, "numwant"@, max_count()) == Some(request.numwant as u64)
    }

    /// Whether the pairs describe an announce: each of `info_hash`,
    /// `peer_id`, `port`, `left`, `compact` and `numwant` is given once and
    /// reads as what it stands for, and `event` at most once.
    pub open spec fn readable(pairs: Seq<(Seq<char>, Seq<char>)>) -> bool {
        &&& bytes_field(pairs, "info_hash"@).is_some()
        &&& bytes_field(pairs, "peer_id"@).is_some()
        &&& number_field(pairs, "port"@, 0xffff).is_some()
        &&& number_field(pairs, "left"@, max_count()).is_some()
        &&& event_field(pairs).is_some()
        &&& number_field(pairs, "compact"@, 0xff).is_some()
        &&& number_field(pairs, "numwant"@, max_count()).is_some()
    }

    /// The announce that the names and values of a query string describe,
    /// where they describe one. Pairs of other names are passed over.
    pub fn from_pairs(pairs: &Vec<(String, String)>) -> (request: Option<AnnounceRequest>)
        ensures
            match request {
                Some(request) => AnnounceRequest::matches_pairs(request, pairs_view(pairs@)),
                None => !AnnounceRequest::readable(pairs_view(pairs@)),
            },
    {
        let info_hash = match read_bytes_field(pairs, "info_hash") {
            Some(bytes) => InfoHash(bytes),
            None => {
                return None;
            },
        };
        let peer_id = match read_bytes_field(pairs, "peer_id") {
            Some(bytes) => PeerId(bytes),
            None => {
                return None;
            },
        };
        let port = match read_number_field(pairs, "port", 0xffff) {
            Some(number) => number as u16,
            None => {
                return None;
            },
        };
        let bytes_left = match read_number_field(pairs, "left", usize::MAX as u64) {
            Some(number) => number as usize,
            None => {
                return None;
            },
        };
        let found = find_field(pairs, "event");
        let event = if found.0 == 0 {
            AnnounceEvent::Empty
        } else if found.0 == 1 {
            let named = match found.1 {
                Some(i) => AnnounceEvent::from_name(&pairs[i].1),
                None => None,
            };
            match named {
                Some(event) => event,
                None => {
                    return None;
                },
            }
        } else {
            return None;
        };
        let compact = match read_number_field(pairs, "compact", 0xff) {
            Some(number) => number as u8,
            None => {
                return None;
            },
        };
        let numwant = match read_number_field(pairs, "numwant", usize::MAX as u64) {
            Some(number) => number as usize,
            None => {
                return None;
            },
        };
        Some(AnnounceRequest { info_hash, peer_id, port, bytes_left, event, compact, numwant })
    }
}

/// The info hashes that the pairs named `info_hash` hold, in order, where
/// each of them holds one.
pub open spec fn info_hash_fields(pairs: Seq<(Seq<char>, Seq<char>)>) -> Option<Seq<InfoHash>>
    decreases pairs.len(),
{
    if pairs.len() == 0 {
        Some(Seq::empty())
    } else {
        match info_hash_fields(pairs.drop_last()) {
            Some(earlier) => if pairs.last().0 == "info_hash"@ {
                match spec_bytes_of_text(pairs.last().1) {
                    Some(bytes) => Some(earlier.push(InfoHash(bytes_array(bytes)))),
                    None => None,
                }
            } else {
                Some(earlier)
            },
            None => None,
        }
    }
}

impl ScrapeRequest {
    /// The scrape that the names and values of a query string describe,
    /// where they describe one: the info hashes of the pairs named
    /// `info_hash`, in order, of which there is one at least. Pairs of other
    /// names are passed over.
    pub fn from_pairs(pairs: &Vec<(String, String)>) -> (request: Option<ScrapeRequest>)
        ensures
            match request {
                Some(request) => info_hash_fields(pairs_view(pairs@)) == Some(
                    request.info_hashes@,
                ) && request.info_hashes@.len() > 0,
                None => match info_hash_fields(pairs_view(pairs@)) {
                    Some(info_hashes) => info_hashes.len() == 0,
                    None => true,
                },
            },
    {
        let wanted = "info_hash".to_owned();
        let mut info_hashes: Vec<InfoHash> = Vec::new();
        let mut i: usize = 0;
        while i < pairs.len()
            invariant
                i <= pairs.len(),
                wanted@ == "info_hash"@,
                info_hash_fields(pairs_view(pairs@).take(i as int)) == Some(info_hashes@),
            decreases pairs.len() - i,
        {
            proof {
                assert(pairs_view(pairs@).take(i + 1).drop_last() =~= pairs_view(pairs@).take(
                    i as int,
                ));
            }
            if pairs[i].0 == wanted {
                match bytes_of_text(pairs[i].1.as_str()) {
                    Some(bytes) => {
                        proof {
                            lemma_bytes_array(bytes);
                        }
                        info_hashes.push(InfoHash(bytes));
                    },
                    None => {
                        proof {
                            lemma_info_hash_fields_none(pairs_view(pairs@), i as int);
                        }
                        return None;
                    },
                }
            }
            i += 1;
        }
        proof {
            assert(pairs_view(pairs@).take(i as int) =~= pairs_view(pairs@));
        }
        if info_hashes.len() == 0 {
            None
        } else {
            Some(ScrapeRequest { info_hashes })
        }
    }
}

/// Where the pair at `i` is named `info_hash` and holds none, the pairs
/// hold no info hashes.
pub proof fn lemma_info_hash_fields_none(pairs: Seq<(Seq<char>, Seq<char>)>, i: int)
    requires
        0 <= i < pairs.len(),
        pairs[i].0 == "info_hash"@,
        spec_bytes_of_text(pairs[i].1).is_none(),
    ensures
        info_hash_fields(pairs).is_none(),
    decreases pairs.len(),
{
    if i < pairs.len() - 1 {
        lemma_info_hash_fields_none(pairs.drop_last(), i);
    }
}

/// The position of the first question mark in a path, where it has one.
pub open spec fn query_start(path: Seq<char>) -> Option<int> {
    if exists|i: int| 0 <= i < path.len() && path[i] == '?' {
        Some(
            choose|i: int|
                0 <= i < path.len() && path[i] == '?' && forall|j: int|
                    0 <= j < i ==> path[j] != '?',
        )
    } else {
        None
    }
}

/// The position of the first question mark in a path, where it has one.
fn find_query_start(path: &Vec<char>) -> (start: Option<usize>)
    ensures
        match start {
            Some(start) => query_start(path@) == Some(start as int) && start < path@.len()
                && path@[start as int] == '?',
            None => query_start(path@).is_none(),
        },
{
    let mut i: usize = 0;
    while i < path.len()
        invariant
            i <= path.len(),
            forall|j: int| 0 <= j < i ==> path@[j] != '?',
        decreases path.len() - i,
    {
        if path[i] == '?' {
            proof {
                let chosen = choose|k: int|
                    0 <= k < path@.len() && path@[k] == '?' && forall|j: int|
                        0 <= j < k ==> path@[j] != '?';
                assert(0 <= i < path@.len() && path@[i as int] == '?' && forall|j: int|
                    0 <= j < i ==> path@[j] != '?');
                if chosen < i {
                    assert(path@[chosen] != '?');
                } else if i < chosen {
                    assert(path@[i as int] != '?');
                }
            }
            return Some(i);
        }
        i += 1;
    }
    None
}

/// A part of a sequence of characters, copied.
fn copy_chars(chars: &Vec<char>, from: usize, to: usize) -> (part: Vec<char>)
    requires
        from <= to <= chars@.len(),
    ensures
        part@ == chars@.subrange(from as int, to as int),
{
    let mut part: Vec<char> = Vec::new();
    let mut i: usize = from;
    while i < to
        invariant
            from <= i <= to,
            to <= chars@.len(),
            part@ == chars@.subrange(from as int, i as int),
        decreases to - i,
    {
        part.push(chars[i]);
        proof {
            assert(part@ =~= chars@.subrange(from as int, i + 1));
        }
        i += 1;
    }
    part
}

impl Request {
    /// Whether `request` is what the pairs of a query string describe to
    /// the given resource: an announce to `/announce`, a scrape to `/scrape`,
    /// and nothing to any other resource.
    pub open spec fn matches_query(
        request: Option<Request>,
        resource: Seq<char>,
        pairs: Option<Seq<(Seq<char>, Seq<char>)>>,
    ) -> bool {
        if resource == "/announce"@ {
            match pairs {
                None => request.is_none(),
                Some(pairs) => match request {
                    Some(Request::Announce(request)) => AnnounceRequest::matches_pairs(
                        request,
                        pairs,
                    ),
                    Some(_) => false,
                    None => !AnnounceRequest::readable(pairs),
                },
            }
        } else if resource == "/scrape"@ {
            match pairs {
                None => request.is_none(),
                Some(pairs) => match request {
                    Some(Request::Scrape(request)) => info_hash_fields(pairs) == Some(
                        request.info_hashes@,
                    ) && request.info_hashes@.len() > 0,
                    Some(_) => false,
                    None => match info_hash_fields(pairs) {
                        Some(info_hashes) => info_hashes.len() == 0,
                        None => true,
                    },
                },
            }
        } else {
            request.is_none()
        }
    }

    /// Whether `request` is what a path asks for. A path without a question
    /// mark asks for nothing. Else what stands before the first question mark
    /// names the resource, and what follows it is the query string. Only
    /// `/announce` and `/scrape` are resources that anything can be asked of.
    pub open spec fn matches_path(request: Option<Request>, path: Seq<char>) -> bool {
        match query_start(path) {
            None => request.is_none(),
            Some(start) => Request::matches_query(
                request,
                path.subrange(0, start),
                query_pairs(path.subrange(start + 1, path.len() as int)),
            ),
        }
    }

    /// The request that the pairs of a query string describe to the given
    /// resource.
    pub fn from_pairs(resource: &String, pairs: &Vec<(String, String)>) -> (request: Option<
        Request,
    >)
        ensures
            Request::matches_query(request, resource@, Some(pairs_view(pairs@))),
    {
        if *resource == "/announce".to_owned() {
            match AnnounceRequest::from_pairs(pairs) {
                Some(request) => Some(Request::Announce(request)),
                None => None,
            }
        } else if *resource == "/scrape".to_owned() {
            match ScrapeRequest::from_pairs(pairs) {
                Some(request) => Some(Request::Scrape(request)),
                None => None,
            }
        } else {
            None
        }
    }

    /// The request that a path asks for, where it asks for one.
    pub fn from_path(path: &str) -> (request: Option<Request>)
        ensures
            Request::matches_path(request, path@),
    {
        let chars = chars_of(path);
        let start = match find_query_start(&chars) {
            Some(start) => start,
            None => {
                return None;
            },
        };
        let end = chars.len();
        let resource = string_from_chars(&copy_chars(&chars, 0, start));
        let query_string = string_from_chars(&copy_chars(&chars, start + 1, end));
        match urlencoded_pairs(query_string.as_str()) {
            Ok(pairs) => Request::from_pairs(&resource, &pairs),
            Err(_) => None,
        }
    }

    /// The request that the path of a parsed HTTP request asks for, where
    /// it asks for one; none where the request has no path.
    pub fn from_http(path: Option<&str>) -> (request: Option<Request>)
        ensures
            match path {
                Some(path) => Request::matches_path(request, path@),
                None => request.is_none(),
            },
    {
        match path {
            Some(path) => Request::from_path(path),
            None => None,
        }
    }
}

} // verus!
