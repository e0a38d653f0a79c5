//! The headers of requests and responses, held in the header maps of the `http` crate.
use crate::endpoint::stream::WireApiKind;
use http::header::{InvalidHeaderValue, MaxSizeReached, ToStrError};
use http::{HeaderMap, HeaderName, HeaderValue};
use vstd::prelude::*;
use vstd::utf8::encode_utf8;

verus! {

/// A map from header names to values.
#[verifier::external_type_specification]
#[verifier::external_body]
#[verifier::reject_recursive_types(T)]
pub struct ExHeaderMap<T>(http::HeaderMap<T>);

/// The value of a header.
#[verifier::external_type_specification]
#[verifier::external_body]
pub struct ExHeaderValue(http::HeaderValue);

/// The name of a header.
#[verifier::external_type_specification]
#[verifier::external_body]
pub struct ExHeaderName(http::HeaderName);

/// The error for a value that cannot be shown as text.
#[verifier::external_type_specification]
#[verifier::external_body]
pub struct ExToStrError(http::header::ToStrError);

/// The error for a text that cannot be a value.
#[verifier::external_type_specification]
#[verifier::external_body]
pub struct ExInvalidHeaderValue(http::header::InvalidHeaderValue);

/// The error of a header map that takes no more names.
#[verifier::external_type_specification]
#[verifier::external_body]
pub struct ExMaxSizeReached(http::header::MaxSizeReached);

/// What a header map holds: for each name, in lower case, its values in order.
pub uninterp spec fn header_lists(headers: HeaderMap) -> Map<Seq<char>, Seq<Seq<u8>>>;

/// The number of names in a header map.
pub uninterp spec fn header_count(headers: HeaderMap) -> nat;

/// The text of a header name, in lower case.
pub uninterp spec fn header_name_text(name: HeaderName) -> Seq<char>;

/// The bytes of a header value.
pub uninterp spec fn header_bytes(value: HeaderValue) -> Seq<u8>;

/// Holds of names made of lower-case letters, digits and hyphens, which every header map takes as
/// they are.
pub open spec fn is_plain_name(name: Seq<char>) -> bool {
    &&& 0 < name.len() <= 64
    &&& forall|i: int|
        0 <= i < name.len() ==> ('a' <= #[trigger] name[i] <= 'z' || '0' <= name[i] <= '9'
            || name[i] == '-')
}

/// Holds of the bytes of visible ASCII characters, blanks and tabs.
pub open spec fn is_visible(bytes: Seq<u8>) -> bool {
    forall|i: int|
        0 <= i < bytes.len() ==> (32 <= #[trigger] bytes[i] < 127 || bytes[i] == 9)
}

/// Holds of bytes that a header value may hold: no control characters but tabs.
pub open spec fn is_legal(bytes: Seq<u8>) -> bool {
    forall|i: int|
        0 <= i < bytes.len() ==> (32 <= #[trigger] bytes[i] && bytes[i] != 127 || bytes[i] == 9)
}

/// The number of names up to which a header map is sure to take one more: its table has at most 32768
/// places, and up to a fifth of that it never has to grow beyond them.
pub const MAX_HEADER_NAMES: usize = 6553;

/// Holds where `extra` names more are sure to fit.
pub open spec fn has_room(headers: HeaderMap, extra: nat) -> bool {
    header_count(headers) + extra <= MAX_HEADER_NAMES
}

/// Header lists with one more value behind those of `name`.
pub open spec fn with_value(
    lists: Map<Seq<char>, Seq<Seq<u8>>>,
    name: Seq<char>,
    value: Seq<u8>,
) -> Map<Seq<char>, Seq<Seq<u8>>> {
    if lists.contains_key(name) {
        lists.insert(name, lists[name].push(value))
    } else {
        lists.insert(name, seq![value])
    }
}

/// The name that the last of some entries belongs to: its own, or that of the entry before it.
pub open spec fn last_name(entries: Seq<(Option<HeaderName>, HeaderValue)>) -> Seq<char>
    decreases entries.len(),
{
    if entries.len() == 0 {
        Seq::empty()
    } else {
        match entries.last().0 {
            Some(name) => header_name_text(name),
            None => last_name(entries.drop_last()),
        }
    }
}

/// The header lists that entries make up: an entry with a name starts the list of that name, one
/// without goes on with the list before it.
pub open spec fn entry_lists(entries: Seq<(Option<HeaderName>, HeaderValue)>) -> Map<
    Seq<char>,
    Seq<Seq<u8>>,
>
    decreases entries.len(),
{
    if entries.len() == 0 {
        Map::empty()
    } else {
        let before = entry_lists(entries.drop_last());
        let value = header_bytes(entries.last().1);
        match entries.last().0 {
            Some(name) => before.insert(header_name_text(name), seq![value]),
            None => with_value(before, last_name(entries), value),
        }
    }
}

/// The number of entries that have a name.
pub open spec fn entry_names(entries: Seq<(Option<HeaderName>, HeaderValue)>) -> nat
    decreases entries.len(),
{
    if entries.len() == 0 {
        0
    } else {
        entry_names(entries.drop_last()) + if entries.last().0 is Some {
            1nat
        } else {
            0nat
        }
    }
}

/// Wraps `HeaderMap::get` with a name given as text: the first value of that name. The name is
/// looked up in lower case, as which a plain name is written.
#[verifier::external_body]
fn header_get<'a>(headers: &'a HeaderMap, name: &str) -> (value: Option<&'a HeaderValue>)
    requires
        is_plain_name(name@),
    ensures
        match value {
            Some(value) => header_lists(*headers).contains_key(name@) && header_lists(
                *headers,
            )[name@].len() > 0 && header_bytes(*value) == header_lists(*headers)[name@][0],
            None => !header_lists(*headers).contains_key(name@),
        },
{
    headers.get(name)
}

/// Wraps `HeaderValue::to_str`: the text of a value, if all of it is visible ASCII or tabs.
#[verifier::external_body]
fn header_text(value: &HeaderValue) -> (text: Result<&str, ToStrError>)
    ensures
        match text {
            Ok(text) => is_visible(header_bytes(*value)) && text@ == header_bytes(
                *value,
            ).map_values(|b: u8| b as char),
            Err(_) => !is_visible(header_bytes(*value)),
        },
{
    value.to_str()
}

/// Wraps `HeaderValue::from_str`: the value that holds a text, if none of its bytes is a control
/// character other than a tab.
#[verifier::external_body]
fn header_value(text: &str) -> (value: Result<HeaderValue, InvalidHeaderValue>)
    ensures
        match value {
            Ok(value) => is_legal(encode_utf8(text@)) && header_bytes(value) == encode_utf8(text@),
            Err(_) => !is_legal(encode_utf8(text@)),
        },
{
    HeaderValue::from_str(text)
}

/// Wraps `HeaderName::from_static`: the name of which a plain text is the text.
#[verifier::external_body]
fn header_name(text: &'static str) -> (name: HeaderName)
    requires
        is_plain_name(text@),
    ensures
        header_name_text(name) == text@,
{
    HeaderName::from_static(text)
}

/// Wraps `HeaderMap::try_insert`: the value takes the place of all values of that name, or the map
/// stays as it is. It fails only where the map cannot grow any further. When that is depends on what
/// the map has allocated and on how its names hash; up to a number of names it does not happen.
#[verifier::external_body]
fn header_insert(headers: &mut HeaderMap, name: &HeaderName, value: HeaderValue) -> (result: Result<
    (),
    MaxSizeReached,
>)
    ensures
        has_room(*old(headers), 0) ==> result is Ok,
        header_lists(*final(headers)) == match result {
            Ok(_) => header_lists(*old(headers)).insert(
                header_name_text(*name),
                seq![header_bytes(value)],
            ),
            Err(_) => header_lists(*old(headers)),
        },
        header_count(*final(headers)) <= header_count(*old(headers)) + 1,
{
    match headers.try_insert(name, value) {
        Ok(_) => Ok(()),
        Err(error) => Err(error),
    }
}

/// Wraps `HeaderMap::try_append`: the value comes behind the values of that name, or the map stays as
/// it is. It fails where `HeaderMap::try_insert` does.
#[verifier::external_body]
fn header_append(headers: &mut HeaderMap, name: &HeaderName, value: HeaderValue) -> (result: Result<
    (),
    MaxSizeReached,
>)
    ensures
        has_room(*old(headers), 0) ==> result is Ok,
        header_lists(*final(headers)) == match result {
            Ok(_) => with_value(
                header_lists(*old(headers)),
                header_name_text(*name),
                header_bytes(value),
            ),
            Err(_) => header_lists(*old(headers)),
        },
        header_lists(*old(headers)).contains_key(header_name_text(*name)) ==> header_count(
            *final(headers),
        ) == header_count(*old(headers)),
{
    match headers.try_append(name, value) {
        Ok(_) => Ok(()),
        Err(error) => Err(error),
    }
}

/// Wraps `HeaderMap::into_iter`: the values of the map, name by name. The first value of a name comes
/// with the name, the others come behind it without one.
#[verifier::external_body]
fn header_entries(headers: HeaderMap) -> (entries: Vec<(Option<HeaderName>, HeaderValue)>)
    ensures
        entries@.len() > 0 ==> entries@[0].0 is Some,
        entry_lists(entries@) == header_lists(headers),
        entry_names(entries@) == header_count(headers),
{
    headers.into_iter().collect()
}

/// Wraps `HeaderMap::keys_len`: the number of names.
#[verifier::external_body]
fn header_names(headers: &HeaderMap) -> (count: usize)
    ensures
        count == header_count(*headers),
{
    headers.keys_len()
}

/// Whether `extra` names more are sure to fit.
pub fn has_room_for(headers: &HeaderMap, extra: usize) -> (room: bool)
    ensures
        room == has_room(*headers, extra as nat),
{
    let names = header_names(headers);
    names <= MAX_HEADER_NAMES && extra <= MAX_HEADER_NAMES - names
}

/// The id that the upstream gave a request, as its response reports it.
pub open spec fn request_id(lists: Map<Seq<char>, Seq<Seq<u8>>>) -> Option<Seq<char>> {
    if lists.contains_key("x-request-id"@) && is_visible(lists["x-request-id"@][0]) {
        Some(lists["x-request-id"@][0].map_values(|b: u8| b as char))
    } else {
        None
    }
}

/// The id that the upstream gave a request, as its response reports it.
pub fn upstream_request_id(headers: &HeaderMap) -> (id: Option<String>)
    ensures
        id.deep_view() == request_id(header_lists(*headers)),
{
    proof {
        reveal_strlit("x-request-id");
    }
    match header_get(headers, "x-request-id") {
        Some(value) => match header_text(value) {
            Ok(text) => Some(text.to_string()),
            Err(_) => None,
        },
        None => None,
    }
}

/// Header lists after `name` was set to `text`. A text that cannot be a header value changes
/// nothing.
pub open spec fn with_header(
    lists: Map<Seq<char>, Seq<Seq<u8>>>,
    name: Seq<char>,
    text: Seq<char>,
) -> Map<Seq<char>, Seq<Seq<u8>>> {
    if is_legal(encode_utf8(text)) {
        lists.insert(name, seq![encode_utf8(text)])
    } else {
        lists
    }
}

/// Sets `name` to `value`, and says whether the map had room for it. A value that cannot be a header
/// value changes nothing.
pub(crate) fn insert_header(headers: &mut HeaderMap, name: &'static str, value: &str) -> (set: bool)
    requires
        is_plain_name(name@),
    ensures
        has_room(*old(headers), 0) ==> set,
        header_lists(*final(headers)) == if set {
            with_header(header_lists(*old(headers)), name@, value@)
        } else {
            header_lists(*old(headers))
        },
        header_count(*final(headers)) <= header_count(*old(headers)) + 1,
{
    match header_value(value) {
        Ok(value) => header_insert(headers, &header_name(name), value).is_ok(),
        Err(_) => true,
    }
}

/// Entries of which all but the last are known.
proof fn lemma_next_entry(entries: Seq<(Option<HeaderName>, HeaderValue)>, i: int)
    requires
        0 <= i < entries.len(),
        entries[0].0 is Some,
    ensures
        entries.take(i + 1).drop_last() == entries.take(i),
        entries.take(i + 1).last() == entries[i],
        i > 0 ==> entry_lists(entries.take(i)).contains_key(last_name(entries.take(i))),
        entry_names(entries.take(i + 1)) <= entry_names(entries),
    decreases entries.len(),
{
    assert(entries.take(i + 1).drop_last() =~= entries.take(i));
    if i > 0 {
        assert(entries.take(i).last() == entries[i - 1]);
    }
    if i + 1 < entries.len() {
        let front = entries.drop_last();
        lemma_next_entry(front, i);
        assert(front.take(i + 1) =~= entries.take(i + 1));
    } else {
        assert(entries.take(i + 1) =~= entries);
    }
}

/// Puts the values of each name of `more` in the place of all values that `headers` has of it, and
/// says whether there was room for all of them.
fn extend_headers(headers: &mut HeaderMap, more: HeaderMap) -> (extended: bool)
    ensures
        has_room(*old(headers), header_count(more)) ==> extended,
        extended ==> header_lists(*final(headers)) == header_lists(
            *old(headers),
        ).union_prefer_right(header_lists(more)),
        header_count(*final(headers)) <= header_count(*old(headers)) + header_count(more),
{
    let ghost start = header_lists(*headers);
    let ghost held = header_count(*headers);
    let ghost names = header_count(more);
    let entries = header_entries(more);
    let ghost all = entries@;
    let mut name: Option<HeaderName> = None;
    assert(all.take(0) =~= Seq::empty());
    assert(start.union_prefer_right(entry_lists(all.take(0))) =~= start);
    for entry in it: entries.into_iter()
        invariant
            it.seq() == all,
            all.len() > 0 ==> all[0].0 is Some,
            entry_lists(all) == header_lists(more),
            entry_names(all) == names,
            start == header_lists(*old(headers)),
            held == header_count(*old(headers)),
            names == header_count(more),
            header_lists(*headers) == start.union_prefer_right(entry_lists(all.take(it.index()))),
            header_count(*headers) <= held + entry_names(all.take(it.index())),
            name is Some <==> it.index() > 0,
            name matches Some(name) ==> header_name_text(name) == last_name(all.take(it.index())),
    {
        let ghost i = it.index();
        let ghost before = entry_lists(all.take(i));
        let ghost lists = header_lists(*headers);
        proof {
            lemma_next_entry(all, i);
        }
        let (own, value) = entry;
        let ghost bytes = header_bytes(value);
        let added = match own {
            Some(own) => {
                let added = header_insert(headers, &own, value);
                assert(lists.insert(header_name_text(own), seq![bytes])
                    =~= start.union_prefer_right(
                    before.insert(header_name_text(own), seq![bytes]),
                ));
                name = Some(own);
                added.is_ok()
            },
            None => match &name {
                Some(name) => {
                    let added = header_append(headers, name, value);
                    let ghost text = header_name_text(*name);
                    assert(with_value(lists, text, bytes) =~= start.union_prefer_right(
                        with_value(before, text, bytes),
                    ));
                    added.is_ok()
                },
                None => false,
            },
        };
        if !added {
            return false;
        }
    }
    assert(all.take(all.len() as int) =~= all);
    true
}

/// Header lists after `name` was set to `text`, where there is one.
pub open spec fn with_optional_header(
    lists: Map<Seq<char>, Seq<Seq<u8>>>,
    name: Seq<char>,
    text: Option<Seq<char>>,
) -> Map<Seq<char>, Seq<Seq<u8>>> {
    match text {
        Some(text) => with_header(lists, name, text),
        None => lists,
    }
}

/// The headers of a request: the extra ones, the id of the thread, the headers of the session, and
/// the kind of subagent. What comes later counts.
pub open spec fn request_headers(
    extra: Map<Seq<char>, Seq<Seq<u8>>>,
    thread_id: Option<Seq<char>>,
    session: Map<Seq<char>, Seq<Seq<u8>>>,
    subagent: Option<Seq<char>>,
) -> Map<Seq<char>, Seq<Seq<u8>>> {
    with_optional_header(
        with_optional_header(extra, "x-client-request-id"@, thread_id).union_prefer_right(session),
        "x-openai-subagent"@,
        subagent,
    )
}

/// The headers of a request, where the session has `session_headers` of its own, or `None` where a
/// header map cannot take them all.
pub fn stream_request_headers(
    extra_headers: HeaderMap,
    thread_id: &Option<String>,
    session_headers: HeaderMap,
    subagent: &Option<String>,
) -> (headers: Option<HeaderMap>)
    ensures
        has_room(extra_headers, header_count(session_headers) + 1) ==> headers is Some,
        headers matches Some(headers) ==> header_lists(headers) == request_headers(
            header_lists(extra_headers),
            thread_id.deep_view(),
            header_lists(session_headers),
            subagent.deep_view(),
        ),
{
    proof {
        reveal_strlit("x-client-request-id");
        reveal_strlit("x-openai-subagent");
    }
    let mut headers = extra_headers;
    if let Some(thread_id) = thread_id {
        if !insert_header(&mut headers, "x-client-request-id", thread_id.as_str()) {
            return None;
        }
    }
    if !extend_headers(&mut headers, session_headers) {
        return None;
    }
    if let Some(subagent) = subagent {
        if !insert_header(&mut headers, "x-openai-subagent", subagent.as_str()) {
            return None;
        }
    }
    Some(headers)
}

/// The bytes of a text of ASCII characters.
pub open spec fn ascii_bytes(text: Seq<char>) -> Seq<u8> {
    text.map_values(|c: char| c as u8)
}

/// A text of visible ASCII characters is a legal value, one byte for each character.
proof fn lemma_visible_text(text: Seq<char>)
    requires
        forall|i: int| 0 <= i < text.len() ==> ' ' <= #[trigger] text[i] <= '~',
    ensures
        is_legal(encode_utf8(text)),
        encode_utf8(text) == ascii_bytes(text),
{
    assert(vstd::utf8::is_ascii_chars(text));
    vstd::utf8::is_ascii_chars_encode_utf8(text);
    assert(encode_utf8(text) =~= ascii_bytes(text));
    assert forall|i: int| 0 <= i < encode_utf8(text).len() implies (32 <= #[trigger] encode_utf8(
        text,
    )[i] && encode_utf8(text)[i] != 127) by {
        assert(' ' <= text[i] <= '~');
    }
}

/// The headers with which a stream is asked for.
pub open spec fn stream_headers(
    lists: Map<Seq<char>, Seq<Seq<u8>>>,
    wire_api: WireApiKind,
) -> Map<Seq<char>, Seq<Seq<u8>>> {
    let asked = lists.insert("accept"@, seq![ascii_bytes("text/event-stream"@)]);
    match wire_api {
        WireApiKind::Anthropic => asked.insert(
            "content-type"@,
            seq![ascii_bytes("application/json"@)],
        ).insert("anthropic-version"@, seq![ascii_bytes("2023-06-01"@)]),
        _ => asked,
    }
}

/// Holds of the names of the headers with which a stream is asked for.
pub open spec fn is_stream_header(name: Seq<char>) -> bool {
    name == "accept"@ || name == "content-type"@ || name == "anthropic-version"@
}

/// Sets the headers with which a stream is asked for, and says whether the map had room for them.
/// Whether it had or not, all other headers stay as they are.
pub fn set_stream_headers(headers: &mut HeaderMap, wire_api: WireApiKind) -> (set: bool)
    ensures
        has_room(*old(headers), 2) ==> set,
        set ==> header_lists(*final(headers)) == stream_headers(
            header_lists(*old(headers)),
            wire_api,
        ),
        forall|name: Seq<char>|
            !is_stream_header(name) ==> (#[trigger] header_lists(*final(headers)).contains_key(name)
                <==> header_lists(*old(headers)).contains_key(name)) && header_lists(
                *final(headers),
            )[name] == header_lists(*old(headers))[name],
{
    proof {
        reveal_strlit("accept");
        reveal_strlit("content-type");
        reveal_strlit("anthropic-version");
        reveal_strlit("text/event-stream");
        reveal_strlit("application/json");
        reveal_strlit("2023-06-01");
        lemma_visible_text("text/event-stream"@);
        lemma_visible_text("application/json"@);
        lemma_visible_text("2023-06-01"@);
    }
    if !insert_header(headers, "accept", "text/event-stream") {
        return false;
    }
    match wire_api {
        WireApiKind::Anthropic => insert_header(headers, "content-type", "application/json")
            && insert_header(headers, "anthropic-version", "2023-06-01"),
        _ => true,
    }
}

/// A header that is set has the bytes of its text as its only value, and no other header changes. A
/// text with a control character sets nothing.
pub proof fn law_header_set(
    lists: Map<Seq<char>, Seq<Seq<u8>>>,
    name: Seq<char>,
    text: Seq<char>,
    other: Seq<char>,
)
    ensures
        is_legal(encode_utf8(text)) ==> with_header(lists, name, text).contains_key(name)
            && with_header(lists, name, text)[name] == seq![encode_utf8(text)],
        !is_legal(encode_utf8(text)) ==> with_header(lists, name, text) == lists,
        other != name ==> with_header(lists, name, text).contains_key(other) == lists.contains_key(
            other,
        ) && with_header(lists, name, text)[other] == lists[other],
        with_optional_header(lists, name, Some(text)) == with_header(lists, name, text),
        with_optional_header(lists, name, None) == lists,
        is_legal(encode_utf8(text)) <==> forall|i: int|
            0 <= i < encode_utf8(text).len() ==> {
                let byte = #[trigger] encode_utf8(text)[i];
                byte == 9 || (32 <= byte && byte != 127)
            },
{
}

/// A request has the kind of subagent under its name, where there is one; under every other name what
/// the session has, where it has anything; else the id of the thread under its name, where there is
/// one; and else what it had.
pub proof fn law_request_headers(
    extra: Map<Seq<char>, Seq<Seq<u8>>>,
    thread_id: Option<Seq<char>>,
    session: Map<Seq<char>, Seq<Seq<u8>>>,
    subagent: Option<Seq<char>>,
    name: Seq<char>,
)
    ensures
        ({
            let headers = request_headers(extra, thread_id, session, subagent);
            let sets_agent = name == "x-openai-subagent"@ && subagent is Some && is_legal(
                encode_utf8(subagent->0),
            );
            let sets_thread = name == "x-client-request-id"@ && thread_id is Some && is_legal(
                encode_utf8(thread_id->0),
            );
            &&& sets_agent ==> headers.contains_key(name) && headers[name] == seq![
                encode_utf8(subagent->0),
            ]
            &&& !sets_agent && session.contains_key(name) ==> headers.contains_key(name)
                && headers[name] == session[name]
            &&& !sets_agent && !session.contains_key(name) && sets_thread ==> headers.contains_key(
                name,
            ) && headers[name] == seq![encode_utf8(thread_id->0)]
            &&& !sets_agent && !session.contains_key(name) && !sets_thread ==> headers.contains_key(
                name,
            ) == extra.contains_key(name) && (extra.contains_key(name) ==> headers[name]
                == extra[name])
        }),
{
}

/// A stream is asked for as a stream of events; an Anthropic endpoint is told in addition that the
/// body is JSON, and the version of its interface. No other header changes.
pub proof fn law_stream_headers(lists: Map<Seq<char>, Seq<Seq<u8>>>, name: Seq<char>)
    ensures
        ({
            let plain = stream_headers(lists, WireApiKind::Responses);
            let anthropic = stream_headers(lists, WireApiKind::Anthropic);
            &&& stream_headers(lists, WireApiKind::ChatCompletions) == plain
            &&& plain.contains_key("accept"@)
            &&& plain["accept"@] == seq![encode_utf8("text/event-stream"@)]
            &&& anthropic.contains_key("accept"@)
            &&& anthropic["accept"@] == seq![encode_utf8("text/event-stream"@)]
            &&& anthropic.contains_key("content-type"@)
            &&& anthropic["content-type"@] == seq![encode_utf8("application/json"@)]
            &&& anthropic.contains_key("anthropic-version"@)
            &&& anthropic["anthropic-version"@] == seq![encode_utf8("2023-06-01"@)]
            &&& name != "accept"@ ==> plain.contains_key(name) == lists.contains_key(name)
                && plain[name] == lists[name]
            &&& name != "accept"@ && name != "content-type"@ && name != "anthropic-version"@
                ==> anthropic.contains_key(name) == lists.contains_key(name) && anthropic[name]
                == lists[name]
        }),
{
    reveal_strlit("accept");
    reveal_strlit("content-type");
    reveal_strlit("anthropic-version");
    reveal_strlit("text/event-stream");
    reveal_strlit("application/json");
    reveal_strlit("2023-06-01");
    assert("accept"@.len() == 6 && "content-type"@.len() == 12);
    assert("anthropic-version"@.len() == 17);
    lemma_visible_text("text/event-stream"@);
    lemma_visible_text("application/json"@);
    lemma_visible_text("2023-06-01"@);
}

/// The id of a request is the first value of its header, character for character, where that is
/// visible text; of no other header, and of no other value.
pub proof fn law_request_id(lists: Map<Seq<char>, Seq<Seq<u8>>>)
    ensures
        !lists.contains_key("x-request-id"@) ==> request_id(lists) is None,
        lists.contains_key("x-request-id"@) ==> {
            let bytes = lists["x-request-id"@][0];
            let visible = forall|i: int|
                0 <= i < bytes.len() ==> (#[trigger] bytes[i] == 9 || 32 <= bytes[i] < 127);
            &&& !visible ==> request_id(lists) is None
            &&& visible ==> {
                &&& request_id(lists) is Some
                &&& request_id(lists)->0.len() == bytes.len()
                &&& forall|i: int|
                    0 <= i < bytes.len() ==> #[trigger] request_id(lists)->0[i] == bytes[i] as char
            }
        },
{
}

} // verus!
