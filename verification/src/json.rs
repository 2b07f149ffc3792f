//! JSON texts: what the proxy takes out of request bodies, what it reads in the model
//! list, and the strings that it writes.
//!
//! Reading and writing is done by `serde_json`. An object is held as the list of its
//! members, each with its name and the JSON text of its value, so that a value that is
//! passed on is passed on letter for letter.

use vstd::prelude::*;

use crate::text::same_text;
#[allow(unused_imports)]
use crate::text::{opt_text, texts};
#[allow(unused_imports)]
use vstd::utf8::encode_utf8;

verus! {

/// A member of a JSON object.
#[derive(Debug)]
pub struct Member {
    /// Its name.
    pub name: String,
    /// The JSON text of its value.
    pub text: String,
}

impl View for Member {
    type V = (Seq<char>, Seq<char>);

    open spec fn view(&self) -> (Seq<char>, Seq<char>) {
        (self.name@, self.text@)
    }
}

/// The members that a list holds.
pub open spec fn members(list: Seq<Member>) -> Seq<(Seq<char>, Seq<char>)> {
    list.map_values(|m: Member| m@)
}

/// Names the members of the JSON object that `serde_json::from_slice` reads in `body`
/// as a `BTreeMap` of raw values, in the order of that map, or `None` where it reads no
/// object.
pub uninterp spec fn json_members(body: Seq<u8>) -> Option<Seq<(Seq<char>, Seq<char>)>>;

/// Names the bytes that `serde_json::to_vec` writes for an object with these members,
/// or `None` where the text of a member is no JSON.
pub uninterp spec fn json_object(list: Seq<(Seq<char>, Seq<char>)>) -> Option<Seq<u8>>;

/// Names the JSON texts of the elements that `serde_json::from_str` reads in `text` as a
/// list of raw values, or `None` where it reads no array.
pub uninterp spec fn json_elements(text: Seq<char>) -> Option<Seq<Seq<char>>>;

/// Names the string that `serde_json::from_str` reads in `text`, or `None` where it reads
/// no string.
pub uninterp spec fn json_string(text: Seq<char>) -> Option<Seq<char>>;

/// Names whether `serde_json::from_slice` reads `body` as a JSON value.
pub uninterp spec fn is_json(body: Seq<u8>) -> bool;

/// Calls `serde_json::from_slice` for a `BTreeMap` from names to raw values. The result
/// is the list of its entries, or `None` where the call fails; it depends on the bytes
/// alone.
#[verifier::external_body]
pub(crate) fn read_members(body: &[u8]) -> (r: Option<Vec<Member>>)
    ensures
        (match r {
            Some(list) => Some(members(list@)),
            None => None,
        }) == json_members(body@),
{
    let read: serde_json::Result<
        std::collections::BTreeMap<String, Box<serde_json::value::RawValue>>,
    > = serde_json::from_slice(body);
    match read {
        Ok(map) => Some(
            map.into_iter().map(|(name, v)| Member { name, text: v.get().to_owned() }).collect(),
        ),
        Err(_) => None,
    }
}

/// Whether the members are those, or some of those, that were read in one body.
pub open spec fn read_together(list: Seq<(Seq<char>, Seq<char>)>) -> bool {
    exists|
        body: Seq<u8>,
        all: Seq<(Seq<char>, Seq<char>)>,
        keep: spec_fn((Seq<char>, Seq<char>)) -> bool,
    |
        #[trigger] json_members(body) == Some(all) && list == #[trigger] all.filter(keep)
}

/// Calls `serde_json::to_vec` on the `BTreeMap` of the members, the text of each taken as
/// a raw value. The result depends on the members alone; it is `None` where a text is no
/// JSON. An object written with members that were read together, or with some of them,
/// reads back as these members.
#[verifier::external_body]
pub(crate) fn write_members(list: &Vec<Member>) -> (r: Option<Vec<u8>>)
    ensures
        (match r {
            Some(out) => Some(out@),
            None => None,
        }) == json_object(members(list@)),
        read_together(members(list@)) ==> r is Some && json_members(r.unwrap()@) == Some(members(list@)),
{
    let mut map = std::collections::BTreeMap::new();
    for m in list {
        match serde_json::value::RawValue::from_string(m.text.clone()) {
            Ok(v) => map.insert(m.name.as_str(), v),
            Err(_) => return None,
        };
    }
    serde_json::to_vec(&map).ok()
}

/// Calls `serde_json::from_str` for a list of raw values. The result is the text of each,
/// or `None` where the call fails; it depends on the text alone.
#[verifier::external_body]
pub(crate) fn read_elements(text: &str) -> (r: Option<Vec<String>>)
    ensures
        (match r {
            Some(list) => Some(texts(list@)),
            None => None,
        }) == json_elements(text@),
{
    let read: serde_json::Result<Vec<Box<serde_json::value::RawValue>>> = serde_json::from_str(
        text,
    );
    match read {
        Ok(list) => Some(list.into_iter().map(|v| v.get().to_owned()).collect()),
        Err(_) => None,
    }
}

/// Calls `serde_json::from_str` for a string. The result is that string, or `None` where
/// the call fails; it depends on the text alone.
#[verifier::external_body]
pub(crate) fn read_string(text: &str) -> (r: Option<String>)
    ensures
        opt_text(r) == json_string(text@),
{
    serde_json::from_str(text).ok()
}

/// Calls `serde_json::from_slice` for a JSON value and says whether it succeeded, which
/// depends on the bytes alone.
#[verifier::external_body]
pub(crate) fn valid_json(body: &[u8]) -> (r: bool)
    ensures
        r == is_json(body@),
{
    serde_json::from_slice::<serde_json::Value>(body).is_ok()
}

/// The hexadecimal digit, in lower case, of a number below sixteen.
pub open spec fn hex_digit(d: nat) -> char {
    if d < 10 {
        ('0' as nat + d) as char
    } else {
        ('a' as nat + d - 10) as char
    }
}

/// How a character stands in a JSON string.
pub open spec fn escaped(c: char) -> Seq<char> {
    if c == '"' {
        seq!['\\', '"']
    } else if c == '\\' {
        seq!['\\', '\\']
    } else if c == '\u{8}' {
        seq!['\\', 'b']
    } else if c == '\u{9}' {
        seq!['\\', 't']
    } else if c == '\u{a}' {
        seq!['\\', 'n']
    } else if c == '\u{c}' {
        seq!['\\', 'f']
    } else if c == '\u{d}' {
        seq!['\\', 'r']
    } else if c <= '\u{1f}' {
        seq!['\\', 'u', '0', '0', hex_digit(c as nat / 16), hex_digit(c as nat % 16)]
    } else {
        seq![c]
    }
}

/// A text as it stands between the quotes of a JSON string.
pub open spec fn escaped_text(s: Seq<char>) -> Seq<char>
    decreases s.len(),
{
    if s.len() == 0 {
        seq![]
    } else {
        escaped_text(s.drop_last()) + escaped(s.last())
    }
}

/// The JSON string that holds a text.
pub open spec fn quoted(s: Seq<char>) -> Seq<char> {
    seq!['"'] + escaped_text(s) + seq!['"']
}

/// Calls `serde_json::to_string` on a text: the JSON string that holds it, with quotes,
/// backslashes and control characters escaped and every other character as it is.
#[verifier::external_body]
pub(crate) fn quote(s: &str) -> (r: String)
    ensures
        r@ == quoted(s@),
{
    serde_json::to_string(s).unwrap()
}

/// The text of the first member of that name.
pub open spec fn member_named(list: Seq<(Seq<char>, Seq<char>)>, name: Seq<char>) -> Option<
    Seq<char>,
>
    decreases list.len(),
{
    if list.len() == 0 {
        None
    } else if list[0].0 == name {
        Some(list[0].1)
    } else {
        member_named(list.drop_first(), name)
    }
}

/// Finds the text of the first member of that name.
pub fn find_member(list: &Vec<Member>, name: &str) -> (r: Option<String>)
    ensures
        opt_text(r) == member_named(members(list@), name@),
{
    let mut i: usize = 0;
    proof {
        assert(members(list@).skip(0) =~= members(list@));
    }
    while i < list.len()
        invariant
            i <= list@.len(),
            member_named(members(list@), name@) == member_named(
                members(list@).skip(i as int),
                name@,
            ),
        decreases list@.len() - i,
    {
        proof {
            let rest = members(list@).skip(i as int);
            assert(rest[0] == list@[i as int]@);
            assert(rest.drop_first() =~= members(list@).skip(i + 1));
        }
        if same_text(list[i].name.as_str(), name) {
            return Some(list[i].text.clone());
        }
        i = i + 1;
    }
    None
}

/// Whether a member of that name is in the list.
pub open spec fn has_member(list: Seq<(Seq<char>, Seq<char>)>, name: Seq<char>) -> bool {
    exists|i: int| 0 <= i < list.len() && (#[trigger] list[i]).0 == name
}

/// The name of the request field that the upstream service does not understand.
pub open spec fn unsupported_name() -> Seq<char> {
    "max_completion_tokens"@
}

/// Whether a member may be passed on.
pub open spec fn is_supported(m: (Seq<char>, Seq<char>)) -> bool {
    m.0 != unsupported_name()
}

/// The members that may be passed on, in their order.
pub open spec fn supported(list: Seq<(Seq<char>, Seq<char>)>) -> Seq<(Seq<char>, Seq<char>)> {
    list.filter(|m: (Seq<char>, Seq<char>)| is_supported(m))
}

/// Whether a request body is a JSON object that has the unsupported field.
pub open spec fn has_unsupported(body: Seq<u8>) -> bool {
    json_members(body) matches Some(list) && has_member(list, unsupported_name())
}

/// A request body as it is passed on: without the unsupported field where it has it, and
/// unchanged otherwise.
pub open spec fn stripped(body: Seq<u8>) -> Seq<u8> {
    if has_unsupported(body) {
        json_object(supported(json_members(body).unwrap())).unwrap()
    } else {
        body
    }
}

/// Takes the unsupported field out of a list of members.
pub fn keep_supported(list: Vec<Member>) -> (r: Vec<Member>)
    ensures
        members(r@) == supported(members(list@)),
{
    let ghost all = members(list@);
    let ghost keep = |m: (Seq<char>, Seq<char>)| is_supported(m);
    let mut r: Vec<Member> = Vec::new();
    let mut i: usize = 0;
    proof {
        assert(all.take(0).filter(keep) =~= Seq::empty()) by {
            reveal(Seq::filter);
        }
        assert(members(r@) =~= Seq::empty());
    }
    while i < list.len()
        invariant
            i <= list@.len(),
            all == members(list@),
            keep == (|m: (Seq<char>, Seq<char>)| is_supported(m)),
            members(r@) == all.take(i as int).filter(keep),
        decreases list@.len() - i,
    {
        let ghost before = r@;
        proof {
            reveal(Seq::filter);
            assert(all.take(i + 1).drop_last() =~= all.take(i as int));
            assert(all.take(i + 1).last() == list@[i as int]@);
        }
        if !same_text(list[i].name.as_str(), "max_completion_tokens") {
            r.push(Member { name: list[i].name.clone(), text: list[i].text.clone() });
            proof {
                assert(members(r@) =~= members(before).push(list@[i as int]@));
            }
        }
        i = i + 1;
    }
    proof {
        assert(all.take(i as int) =~= all);
    }
    r
}

/// A list without the unsupported field is kept whole.
pub proof fn supported_stays(list: Seq<(Seq<char>, Seq<char>)>)
    requires
        !has_member(list, unsupported_name()),
    ensures
        supported(list) == list,
    decreases list.len(),
{
    reveal(Seq::filter);
    if list.len() > 0 {
        let front = list.drop_last();
        assert(!has_member(front, unsupported_name())) by {
            if has_member(front, unsupported_name()) {
                let i = choose|i: int|
                    0 <= i < front.len() && (#[trigger] front[i]).0 == unsupported_name();
                assert(list[i].0 == unsupported_name());
            }
        }
        supported_stays(front);
        assert(is_supported(list[list.len() - 1]));
        assert(front.push(list.last()) =~= list);
    }
}

/// The unsupported field is not among the members that are passed on.
pub proof fn supported_lacks_unsupported(list: Seq<(Seq<char>, Seq<char>)>)
    ensures
        !has_member(supported(list), unsupported_name()),
    decreases list.len(),
{
    reveal(Seq::filter);
    if list.len() > 0 {
        supported_lacks_unsupported(list.drop_last());
        let rest = supported(list.drop_last());
        if has_member(supported(list), unsupported_name()) {
            let i = choose|i: int|
                0 <= i < supported(list).len() && (#[trigger] supported(list)[i]).0
                    == unsupported_name();
            if i < rest.len() {
                assert(rest[i].0 == unsupported_name());
            }
        }
    }
}

/// Every other member is passed on with its text.
pub proof fn supported_keeps_others(list: Seq<(Seq<char>, Seq<char>)>, name: Seq<char>)
    requires
        name != unsupported_name(),
    ensures
        member_named(supported(list), name) == member_named(list, name),
    decreases list.len(),
{
    reveal(Seq::filter);
    if list.len() > 0 {
        let front = list.drop_last();
        supported_keeps_others(front, name);
        member_named_push(front, list.last(), name);
        assert(front.push(list.last()) =~= list);
        if is_supported(list.last()) {
            member_named_push(supported(front), list.last(), name);
        }
    }
}

/// Appending a member adds its name to those that are found.
proof fn member_named_push(
    list: Seq<(Seq<char>, Seq<char>)>,
    m: (Seq<char>, Seq<char>),
    name: Seq<char>,
)
    ensures
        member_named(list.push(m), name) == (match member_named(list, name) {
            Some(t) => Some(t),
            None => if m.0 == name {
                Some(m.1)
            } else {
                None
            },
        }),
    decreases list.len(),
{
    if list.len() == 0 {
        assert(list.push(m).drop_first() =~= Seq::empty());
        assert(member_named(Seq::empty(), name) is None);
    } else {
        member_named_push(list.drop_first(), m, name);
        assert(list.push(m).drop_first() =~= list.drop_first().push(m));
    }
}

/// A member is found by its name exactly where the list has one of that name.
pub proof fn named_iff_has(list: Seq<(Seq<char>, Seq<char>)>, name: Seq<char>)
    ensures
        member_named(list, name) is Some <==> has_member(list, name),
    decreases list.len(),
{
    if list.len() > 0 {
        let rest = list.drop_first();
        named_iff_has(rest, name);
        if has_member(rest, name) {
            let i = choose|i: int| 0 <= i < rest.len() && (#[trigger] rest[i]).0 == name;
            assert(list[i + 1].0 == name);
        }
        if has_member(list, name) && list[0].0 != name {
            let i = choose|i: int| 0 <= i < list.len() && (#[trigger] list[i]).0 == name;
            assert(rest[i - 1].0 == name);
        }
    }
}

/// The members of an object without the unsupported field, or `None` where the object does
/// not have it.
pub fn without_unsupported(list: Vec<Member>) -> (r: Option<Vec<Member>>)
    ensures
        r is Some <==> has_member(members(list@), unsupported_name()),
        r matches Some(kept) ==> members(kept@) == supported(members(list@)),
{
    proof {
        named_iff_has(members(list@), unsupported_name());
    }
    if find_member(&list, "max_completion_tokens").is_none() {
        None
    } else {
        Some(keep_supported(list))
    }
}

/// Takes the unsupported field out of a request body. The result is the new body, or
/// `None` where the body has no such field and is passed on unchanged. The new body reads
/// as the object that the body reads as, without that field and with every other member
/// letter for letter; nothing more is taken out of it.
pub fn strip_unsupported(body: &[u8]) -> (r: Option<Vec<u8>>)
    ensures
        r is Some <==> has_unsupported(body@),
        r matches Some(out) ==> {
            &&& out@ == stripped(body@)
            &&& json_members(out@) == Some(supported(json_members(body@).unwrap()))
            &&& !has_unsupported(out@)
            &&& stripped(out@) == out@
        },
{
    match read_members(body) {
        Some(list) => {
            let ghost all = members(list@);
            proof {
                supported_lacks_unsupported(all);
            }
            match without_unsupported(list) {
                Some(kept) => {
                    proof {
                        let keep = |m: (Seq<char>, Seq<char>)| is_supported(m);
                        assert(json_members(body@) == Some(all));
                        assert(members(kept@) == all.filter(keep));
                        assert(read_together(members(kept@)));
                    }
                    write_members(&kept)
                },
                None => None,
            }
        },
        None => None,
    }
}

/// The `id` in the JSON text of a model, where there is one and it is a string.
pub open spec fn id_in(text: Seq<char>) -> Option<Seq<char>> {
    match json_members(encode_utf8(text)) {
        Some(list) => match member_named(list, "id"@) {
            Some(t) => json_string(t),
            None => None,
        },
        None => None,
    }
}

/// The JSON texts of the models that a model list holds under `data`; none where there is
/// no such array.
pub open spec fn models_in(body: Seq<u8>) -> Seq<Seq<char>> {
    if is_json(body) {
        match json_members(body) {
            Some(list) => match member_named(list, "data"@) {
                Some(t) => match json_elements(t) {
                    Some(models) => models,
                    None => Seq::empty(),
                },
                None => Seq::empty(),
            },
            None => Seq::empty(),
        }
    } else {
        Seq::empty()
    }
}

/// The texts that are there, in their order.
pub open spec fn present(list: Seq<Option<Seq<char>>>) -> Seq<Seq<char>>
    decreases list.len(),
{
    if list.len() == 0 {
        Seq::empty()
    } else {
        match list.last() {
            Some(t) => present(list.drop_last()).push(t),
            None => present(list.drop_last()),
        }
    }
}

/// The ids of the models that a model list holds.
pub open spec fn ids_in(body: Seq<u8>) -> Seq<Seq<char>> {
    present(models_in(body).map_values(|t: Seq<char>| id_in(t)))
}

/// The optional texts that a list holds.
pub open spec fn opt_texts(list: Seq<Option<String>>) -> Seq<Option<Seq<char>>> {
    list.map_values(|t: Option<String>| opt_text(t))
}

/// Leaves out what is not there.
pub fn keep_present(list: &Vec<Option<String>>) -> (r: Vec<String>)
    ensures
        texts(r@) == present(opt_texts(list@)),
{
    let ghost all = opt_texts(list@);
    let mut r: Vec<String> = Vec::new();
    let mut i: usize = 0;
    proof {
        assert(all.take(0) =~= Seq::empty());
        assert(texts(r@) =~= Seq::empty());
    }
    while i < list.len()
        invariant
            i <= list@.len(),
            all == opt_texts(list@),
            texts(r@) == present(all.take(i as int)),
        decreases list@.len() - i,
    {
        let ghost before = r@;
        proof {
            assert(all.take(i + 1).drop_last() =~= all.take(i as int));
            assert(all.take(i + 1).last() == opt_text(list@[i as int]));
        }
        if let Some(t) = &list[i] {
            r.push(t.clone());
            proof {
                assert(texts(r@) =~= texts(before).push(t@));
            }
        }
        i = i + 1;
    }
    proof {
        assert(all.take(i as int) =~= all);
    }
    r
}

/// Reads the `id` in the JSON text of a model.
pub fn model_id(text: &str) -> (r: Option<String>)
    ensures
        opt_text(r) == id_in(text@),
{
    match read_members(text.as_bytes()) {
        Some(list) => match find_member(&list, "id") {
            Some(t) => read_string(t.as_str()),
            None => None,
        },
        None => None,
    }
}

/// Reads the JSON texts of the models in a model list.
pub fn model_texts(body: &[u8]) -> (r: Vec<String>)
    ensures
        texts(r@) == models_in(body@),
{
    if valid_json(body) {
        if let Some(list) = read_members(body) {
            if let Some(t) = find_member(&list, "data") {
                if let Some(models) = read_elements(t.as_str()) {
                    return models;
                }
            }
        }
    }
    let r: Vec<String> = Vec::new();
    proof {
        assert(texts(r@) =~= Seq::empty());
    }
    r
}

/// Reads the ids of the models in a model list, `{"data": [{"id": ...}, ...]}`. A model
/// without a string for its id is passed over.
pub fn model_ids(body: &[u8]) -> (r: Vec<String>)
    ensures
        texts(r@) == ids_in(body@),
{
    let models = model_texts(body);
    let mut ids: Vec<Option<String>> = Vec::new();
    let mut i: usize = 0;
    while i < models.len()
        invariant
            i <= models@.len(),
            ids@.len() == i,
            forall|j: int| 0 <= j < i ==> opt_text(#[trigger] ids@[j]) == id_in(models@[j]@),
        decreases models@.len() - i,
    {
        let id = model_id(models[i].as_str());
        ids.push(id);
        i = i + 1;
    }
    proof {
        assert(opt_texts(ids@) =~= texts(models@).map_values(|t: Seq<char>| id_in(t)));
    }
    keep_present(&ids)
}

/// A member that is the first of its name is found, wherever it stands.
pub proof fn first_member_is_found(list: Seq<(Seq<char>, Seq<char>)>, name: Seq<char>, i: int)
    requires
        0 <= i < list.len(),
        list[i].0 == name,
        forall|k: int| 0 <= k < i ==> (#[trigger] list[k]).0 != name,
    ensures
        member_named(list, name) == Some(list[i].1),
    decreases i,
{
    if i > 0 {
        let rest = list.drop_first();
        assert(list[0].0 != name);
        assert forall|k: int| 0 <= k < i - 1 implies (#[trigger] rest[k]).0 != name by {
            assert(rest[k] == list[k + 1]);
        }
        first_member_is_found(rest, name, i - 1);
    }
}

/// A member that is not there is not found.
pub proof fn absent_member_is_not_found(list: Seq<(Seq<char>, Seq<char>)>, name: Seq<char>)
    requires
        forall|k: int| 0 <= k < list.len() ==> (#[trigger] list[k]).0 != name,
    ensures
        member_named(list, name) is None,
        !has_member(list, name),
{
    named_iff_has(list, name);
}

/// Members are passed on one for one and in their order, but for `max_completion_tokens`.
pub proof fn members_are_passed_on_in_order(
    list: Seq<(Seq<char>, Seq<char>)>,
    m: (Seq<char>, Seq<char>),
)
    ensures
        m.0 == "max_completion_tokens"@ ==> supported(list.push(m)) == supported(list),
        m.0 != "max_completion_tokens"@ ==> supported(list.push(m)) == supported(list).push(m),
        supported(Seq::empty()).len() == 0,
{
    reveal(Seq::filter);
    assert(list.push(m).drop_last() =~= list);
}

/// A body is changed exactly where it is an object with a member `max_completion_tokens`.
pub proof fn changed_exactly_for_the_field(body: Seq<u8>)
    ensures
        json_members(body) is None ==> stripped(body) == body && !has_unsupported(body),
        json_members(body) matches Some(list) ==> (has_unsupported(body) <==> exists|i: int|
            0 <= i < list.len() && (#[trigger] list[i]).0 == "max_completion_tokens"@),
        !has_unsupported(body) ==> stripped(body) == body,
{
}

/// The id of a model is the string under `id`, the first of that name.
pub proof fn id_is_the_string_under_id(
    text: Seq<char>,
    list: Seq<(Seq<char>, Seq<char>)>,
    i: int,
)
    requires
        json_members(encode_utf8(text)) == Some(list),
        0 <= i < list.len(),
        list[i].0 == "id"@,
        forall|k: int| 0 <= k < i ==> (#[trigger] list[k]).0 != "id"@,
    ensures
        id_in(text) == json_string(list[i].1),
{
    first_member_is_found(list, "id"@, i);
}

/// A model that is no object, or has nothing under `id`, has no id.
pub proof fn no_id_without_member(text: Seq<char>)
    requires
        json_members(encode_utf8(text)) matches Some(list) ==> (forall|k: int|
            0 <= k < list.len() ==> (#[trigger] list[k]).0 != "id"@),
    ensures
        id_in(text) is None,
{
    if let Some(list) = json_members(encode_utf8(text)) {
        absent_member_is_not_found(list, "id"@);
    }
}

/// The models of a model list are the elements of the array under `data`, all of them and in
/// their order; there are none where that is no array.
pub proof fn models_are_the_elements_under_data(
    body: Seq<u8>,
    list: Seq<(Seq<char>, Seq<char>)>,
    i: int,
)
    requires
        is_json(body),
        json_members(body) == Some(list),
        0 <= i < list.len(),
        list[i].0 == "data"@,
        forall|k: int| 0 <= k < i ==> (#[trigger] list[k]).0 != "data"@,
    ensures
        json_elements(list[i].1) matches Some(models) ==> models_in(body) == models,
        json_elements(list[i].1) is None ==> models_in(body).len() == 0,
{
    first_member_is_found(list, "data"@, i);
}

/// What is no JSON, no object, or has nothing under `data`, lists no models.
pub proof fn no_models_without_data(body: Seq<u8>)
    requires
        is_json(body) ==> (json_members(body) matches Some(list) ==> (forall|k: int|
            0 <= k < list.len() ==> (#[trigger] list[k]).0 != "data"@)),
    ensures
        models_in(body).len() == 0,
        ids_in(body).len() == 0,
{
    if let Some(list) = json_members(body) {
        if is_json(body) {
            absent_member_is_not_found(list, "data"@);
        }
    }
}

/// What is there is kept in its order, and what is not there is left out.
pub proof fn present_texts_are_kept_in_order(list: Seq<Option<Seq<char>>>, t: Seq<char>)
    ensures
        present(list.push(Some(t))) == present(list).push(t),
        present(list.push(None)) == present(list),
        present(Seq::empty()).len() == 0,
{
    assert(list.push(Some(t)).drop_last() =~= list);
    assert(list.push(None).drop_last() =~= list);
}

/// A model more in the list adds its id at the end, where it has one, and nothing else.
pub proof fn ids_follow_the_models(few: Seq<u8>, more: Seq<u8>, model: Seq<char>)
    requires
        models_in(more) == models_in(few).push(model),
    ensures
        id_in(model) matches Some(id) ==> ids_in(more) == ids_in(few).push(id),
        id_in(model) is None ==> ids_in(more) == ids_in(few),
        models_in(few).len() == 0 ==> ids_in(few).len() == 0,
{
    let f = |t: Seq<char>| id_in(t);
    assert(models_in(more).map_values(f) =~= models_in(few).map_values(f).push(id_in(model)));
    assert(models_in(more).map_values(f).drop_last() =~= models_in(few).map_values(f));
}

/// The text of two parts is escaped part by part.
pub proof fn parts_are_escaped_alone(a: Seq<char>, b: Seq<char>)
    ensures
        escaped_text(a + b) == escaped_text(a) + escaped_text(b),
    decreases b.len(),
{
    if b.len() == 0 {
        assert(a + b =~= a);
        assert(escaped_text(a) + escaped_text(b) =~= escaped_text(a));
    } else {
        parts_are_escaped_alone(a, b.drop_last());
        assert((a + b).drop_last() =~= a + b.drop_last());
        assert((a + b).last() == b.last());
        assert(escaped_text(a + b) =~= escaped_text(a) + escaped_text(b));
    }
}

/// How each character is escaped: a backslash before quotes and backslashes, the short forms
/// for five control characters, four hexadecimal digits for the others, and every other
/// character as it is.
pub proof fn characters_are_escaped(c: char)
    ensures
        escaped_text(seq![c]) == escaped(c),
        c == '"' || c == '\\' ==> escaped(c) == seq!['\\', c],
        c as u32 == 8 ==> escaped(c) == seq!['\\', 'b'],
        c as u32 == 9 ==> escaped(c) == seq!['\\', 't'],
        c as u32 == 10 ==> escaped(c) == seq!['\\', 'n'],
        c as u32 == 12 ==> escaped(c) == seq!['\\', 'f'],
        c as u32 == 13 ==> escaped(c) == seq!['\\', 'r'],
        c as u32 >= 32 && c != '"' && c != '\\' ==> escaped(c) == seq![c],
        (c as u32) < 8 || c as u32 == 11 || 14 <= c as u32 <= 31 ==> escaped(c).len() == 6
            && escaped(c).take(4) == seq!['\\', 'u', '0', '0'] && hex_value(escaped(c)[4]) * 16
            + hex_value(escaped(c)[5]) == c as u32,
{
    let one = seq![c];
    reveal_with_fuel(escaped_text, 2);
    assert(one.drop_last() =~= Seq::empty());
    assert(escaped_text(one) =~= escaped(c));
    if (c as u32) < 8 || c as u32 == 11 || 14 <= c as u32 <= 31 {
        assert(escaped(c).take(4) =~= seq!['\\', 'u', '0', '0']);
    }
}

/// The number that a hexadecimal digit stands for.
pub open spec fn hex_value(c: char) -> int {
    if '0' <= c <= '9' {
        c as int - '0' as int
    } else {
        c as int - 'a' as int + 10
    }
}

/// Escaped texts of two different characters differ at a place that both have.
proof fn escaped_differ(a: char, b: char)
    requires
        a != b,
    ensures
        exists|i: int|
            0 <= i < escaped(a).len() && i < escaped(b).len() && #[trigger] escaped(a)[i]
                != escaped(b)[i],
{
    let x = escaped(a);
    let y = escaped(b);
    if x[0] == y[0] {
        if x[1] == y[1] {
            characters_are_escaped(a);
            characters_are_escaped(b);
            if x[4] == y[4] {
                assert(x[5] != y[5]);
            }
        }
    }
}

/// Texts that are escaped to the same are the same.
pub proof fn escaped_told_apart(a: Seq<char>, b: Seq<char>)
    requires
        escaped_text(a) == escaped_text(b),
    ensures
        a == b,
    decreases a.len(),
{
    if a.len() == 0 || b.len() == 0 {
        assert(a.len() > 0 ==> escaped_text(a).len() >= escaped(a.last()).len() > 0);
        assert(b.len() > 0 ==> escaped_text(b).len() >= escaped(b.last()).len() > 0);
        assert(a.len() == 0 ==> escaped_text(a).len() == 0);
        assert(b.len() == 0 ==> escaped_text(b).len() == 0);
        assert(a =~= b);
    } else {
        let first_a = seq![a[0]];
        let first_b = seq![b[0]];
        let rest_a = a.drop_first();
        let rest_b = b.drop_first();
        assert(a =~= first_a + rest_a);
        assert(b =~= first_b + rest_b);
        parts_are_escaped_alone(first_a, rest_a);
        parts_are_escaped_alone(first_b, rest_b);
        characters_are_escaped(a[0]);
        characters_are_escaped(b[0]);
        if a[0] != b[0] {
            escaped_differ(a[0], b[0]);
            let i = choose|i: int|
                0 <= i < escaped(a[0]).len() && i < escaped(b[0]).len() && #[trigger] escaped(
                    a[0],
                )[i] != escaped(b[0])[i];
            assert(escaped_text(a)[i] == escaped(a[0])[i]);
            assert(escaped_text(b)[i] == escaped(b[0])[i]);
        }
        let n = escaped(a[0]).len() as int;
        assert(escaped_text(a).skip(n) =~= escaped_text(rest_a));
        assert(escaped_text(b).skip(n) =~= escaped_text(rest_b));
        escaped_told_apart(rest_a, rest_b);
    }
}

/// JSON strings that are the same hold the same text.
pub proof fn quoted_told_apart(a: Seq<char>, b: Seq<char>)
    requires
        quoted(a) == quoted(b),
    ensures
        a == b,
{
    assert(quoted(a).subrange(1, quoted(a).len() - 1) =~= escaped_text(a));
    assert(quoted(b).subrange(1, quoted(b).len() - 1) =~= escaped_text(b));
    escaped_told_apart(a, b);
}

/// A JSON string is what is escaped, between quotes.
pub proof fn quotes_stand_round_the_text(s: Seq<char>)
    ensures
        quoted(s).len() == escaped_text(s).len() + 2,
        quoted(s)[0] == '"',
        quoted(s).last() == '"',
        quoted(s).subrange(1, quoted(s).len() - 1) == escaped_text(s),
{
    assert(quoted(s).subrange(1, quoted(s).len() - 1) =~= escaped_text(s));
}

/// The views of members and of lists have every part as it is.
pub proof fn members_are_whole(
    m: Member,
    list: Seq<Member>,
    found: Seq<Option<String>>,
    i: int,
)
    ensures
        m@.0 == m.name@,
        m@.1 == m.text@,
        members(list).len() == list.len(),
        0 <= i < list.len() ==> members(list)[i] == list[i]@,
        opt_texts(found).len() == found.len(),
        0 <= i < found.len() ==> opt_texts(found)[i] == opt_text(found[i]),
{
}

} // verus!
