//! What the events of a stream and the results of tool calls mean, as laws over the
//! fields of the JSON values that they come in.

use crate::docsgpt::types;
use crate::json;
use crate::text;
use vstd::prelude::*;

verus! {

/// Whether a field of a value is a text.
pub open spec fn says(v: json::JsonView, key: Seq<char>, s: Seq<char>) -> bool {
    json::field(v, key) == Some(json::JsonView::Str(s))
}

/// An object's field is the first of its name, and other values have none.
pub proof fn first_fields_count(
    names: Seq<Seq<char>>,
    values: Seq<json::JsonView>,
    key: Seq<char>,
    i: int,
)
    requires
        names.len() == values.len(),
    ensures
        0 <= i < names.len() && names[i] == key && (forall|j: int|
            0 <= j < i ==> #[trigger] names[j] != key) ==> json::field(
            json::JsonView::Object(names, values),
            key,
        ) == Some(values[i]),
        !names.contains(key) ==> json::field(json::JsonView::Object(names, values), key) is None,
        json::field(json::JsonView::Null, key) is None,
        json::field(json::JsonView::Str(key), key) is None,
        json::field(json::JsonView::Array(values), key) is None,
    decreases names.len(),
{
    if names.len() > 0 {
        let fewer = names.skip(1);
        let rest = values.skip(1);
        first_fields_count(fewer, rest, key, i - 1);
        if 0 < i < names.len() && names[i] == key && (forall|j: int|
            0 <= j < i ==> #[trigger] names[j] != key) {
            assert(names[0] != key);
            assert(fewer[i - 1] == names[i]);
            assert(rest[i - 1] == values[i]);
            assert forall|j: int| 0 <= j < i - 1 implies #[trigger] fewer[j] != key by {
                assert(fewer[j] == names[j + 1]);
            }
        }
        if !names.contains(key) {
            assert(names.contains(names[0]));
            assert(!fewer.contains(key)) by {
                if fewer.contains(key) {
                    assert(names[fewer.index_of(key) + 1] == key);
                }
            }
        }
    }
}

proof fn lemma_types_differ()
    ensures
        "end"@.len() == 3,
        "error"@.len() == 5,
        "notice"@.len() == 6,
        "notice"@[0] == 'n',
        "answer"@.len() == 6,
        "answer"@[0] == 'a',
        "source"@.len() == 6,
        "source"@[0] == 's',
        "thought"@.len() == 7,
        "thought"@[0] == 't',
        "sources"@.len() == 7,
        "sources"@[0] == 's',
        "message_id"@.len() == 10,
        "message_id"@[0] == 'm',
        "tool_calls"@.len() == 10,
        "tool_calls"@[0] == 't',
        "tool_call"@.len() == 9,
        "structured_answer"@.len() == 17,
        "id"@.len() == 2,
{
    reveal_strlit("answer");
    reveal_strlit("thought");
    reveal_strlit("message_id");
    reveal_strlit("id");
    reveal_strlit("end");
    reveal_strlit("error");
    reveal_strlit("notice");
    reveal_strlit("structured_answer");
    reveal_strlit("source");
    reveal_strlit("sources");
    reveal_strlit("tool_call");
    reveal_strlit("tool_calls");
}

/// Answers, thoughts, notices, conversations, errors and structured answers are told by
/// the event's type, and each carries the text of its own field.
pub proof fn events_are_told_by_type(
    v: json::JsonView,
    printed: Option<Seq<char>>,
    s: Seq<char>,
)
    ensures
        says(v, "type"@, "answer"@) && says(v, "answer"@, s) ==> types::event_of(v, printed)
            == types::EventView::Answer(s),
        says(v, "type"@, "thought"@) && says(v, "thought"@, s) ==> types::event_of(v, printed)
            == types::EventView::Thought(s),
        says(v, "type"@, "id"@) && says(v, "id"@, s) ==> types::event_of(v, printed)
            == types::EventView::ConversationId(s),
        says(v, "type"@, "notice"@) && says(v, "notice"@, s) ==> types::event_of(v, printed)
            == types::EventView::Notice(s),
        says(v, "type"@, "error"@) && says(v, "error"@, s) ==> types::event_of(v, printed)
            == types::EventView::Error(s),
        says(v, "type"@, "error"@) && json::field(v, "error"@) is None ==> types::event_of(
            v,
            printed,
        ) == types::EventView::Error("unknown error"@),
        says(v, "type"@, "structured_answer"@) && says(v, "answer"@, s) ==> types::event_of(
            v,
            printed,
        ) == types::EventView::StructuredAnswer(s),
        says(v, "type"@, "structured_answer"@) && json::field(v, "answer"@) is Some && !(
        json::field(v, "answer"@)->0 is Str) && printed == Some(s) ==> types::event_of(v, printed)
            == types::EventView::StructuredAnswer(s),
        says(v, "type"@, "end"@) ==> types::event_of(v, printed) == types::EventView::End,
{
    lemma_types_differ();
}

/// A message's event names the message and, where it does, the conversation.
pub proof fn message_ids_are_read(
    v: json::JsonView,
    printed: Option<Seq<char>>,
    m: Seq<char>,
    c: Seq<char>,
)
    requires
        says(v, "type"@, "message_id"@),
        says(v, "message_id"@, m),
    ensures
        says(v, "conversation_id"@, c) ==> types::event_of(v, printed)
            == (types::EventView::MessageId { message_id: m, conversation_id: Some(c) }),
        json::field(v, "conversation_id"@) is None ==> types::event_of(v, printed)
            == (types::EventView::MessageId { message_id: m, conversation_id: None }),
{
    lemma_types_differ();
}

/// Sources come in order, one for each item of the list, under either name.
pub proof fn sources_are_read_in_order(
    v: json::JsonView,
    printed: Option<Seq<char>>,
    items: Seq<json::JsonView>,
)
    requires
        says(v, "type"@, "source"@) || says(v, "type"@, "sources"@),
        json::field(v, "source"@) == Some(json::JsonView::Array(items)) || (json::field(
            v,
            "source"@,
        ) is None && json::field(v, "sources"@) == Some(json::JsonView::Array(items))),
    ensures
        types::event_of(v, printed) matches types::EventView::Source(list) && list.len()
            == items.len() && forall|i: int|
            0 <= i < items.len() ==> #[trigger] list[i] == types::source_of(items[i]),
{
    lemma_types_differ();
}

/// A source is shown under its title, or under what it names as its source where that
/// is blank or missing, or else as a source.
pub proof fn sources_have_titles(v: json::JsonView, t: Seq<char>, s: Seq<char>)
    ensures
        says(v, "title"@, t) && !text::blank(t) ==> types::source_of(v).title == t,
        (json::field(v, "title"@) is None || (says(v, "title"@, t) && text::blank(t))) && says(
            v,
            "source"@,
            s,
        ) ==> types::source_of(v).title == s,
        json::field(v, "title"@) is None && json::field(v, "source"@) is None
            ==> types::source_of(v).title == "Source"@,
{
}

/// A source leads to its link, or else to its url, or else to its source: the first of
/// them that is an address on the web.
pub proof fn sources_have_addresses(v: json::JsonView, u: Seq<char>)
    requires
        "http://"@.is_prefix_of(u) || "https://"@.is_prefix_of(u),
    ensures
        says(v, "link"@, u) ==> types::source_of(v).url == Some(u),
        json::field(v, "link"@) is None && says(v, "url"@, u) ==> types::source_of(v).url
            == Some(u),
        json::field(v, "link"@) is None && json::field(v, "url"@) is None && says(v, "source"@, u)
            ==> types::source_of(v).url == Some(u),
        json::field(v, "link"@) is None && json::field(v, "url"@) is None && json::field(
            v,
            "source"@,
        ) is None ==> types::source_of(v).url is None,
        types::source_of(v).url matches Some(a) ==> "http://"@.is_prefix_of(a)
            || "https://"@.is_prefix_of(a),
{
}

/// A tool call is read field by field, by name.
pub proof fn tool_calls_are_read(
    names: Seq<Seq<char>>,
    values: Seq<json::JsonView>,
    tool: Seq<char>,
    action: Seq<char>,
    id: Seq<char>,
    status: Seq<char>,
    result: Seq<char>,
    file: Seq<char>,
)
    requires
        ({
            let v = json::JsonView::Object(names, values);
            &&& says(v, "tool_name"@, tool)
            &&& says(v, "action_name"@, action)
            &&& says(v, "call_id"@, id)
            &&& says(v, "status"@, status)
            &&& says(v, "result"@, result)
            &&& says(v, "artifact_id"@, file)
            &&& json::field(v, "artifacts"@) is None
        }),
    ensures
        types::call_record(json::JsonView::Object(names, values)) matches Some(c) && c.tool_name
            == tool && c.action_name == action && c.call_id == id && c.status == status && c.result
            == Some(result) && c.artifact_id == Some(file) && c.artifacts.len() == 0,
{
}

/// The event of a tool call carries the call, and that of several calls all of them.
pub proof fn call_events_carry_calls(
    v: json::JsonView,
    printed: Option<Seq<char>>,
    data: json::JsonView,
    items: Seq<json::JsonView>,
    i: int,
)
    ensures
        says(v, "type"@, "tool_call"@) && json::field(v, "data"@) == Some(data)
            && types::call_record(data) is Some ==> types::event_of(v, printed)
            == types::EventView::ToolCall(types::call_record(data)->0),
        says(v, "type"@, "tool_calls"@) && json::field(v, "tool_calls"@) == Some(
            json::JsonView::Array(items),
        ) && (forall|k: int|
            0 <= k < items.len() ==> types::call_record(#[trigger] items[k]) is Some) && 0 <= i
            < items.len() ==> (types::event_of(v, printed) matches types::EventView::ToolCalls(list)
            && list.len() == items.len() && types::call_record(items[i]) == Some(list[i])),
{
    lemma_types_differ();
    if forall|k: int| 0 <= k < items.len() ==> types::call_record(#[trigger] items[k]) is Some {
        lemma_call_list(items, items.len(), i);
    }
}

proof fn lemma_call_list(items: Seq<json::JsonView>, n: nat, i: int)
    requires
        n <= items.len(),
        forall|k: int| 0 <= k < items.len() ==> types::call_record(#[trigger] items[k]) is Some,
    ensures
        types::call_list(items, n) is Some,
        types::call_list(items, n)->0.len() == n,
        0 <= i < n ==> Some(types::call_list(items, n)->0[i]) == types::call_record(items[i]),
    decreases n,
{
    if n > 0 {
        lemma_call_list(items, (n - 1) as nat, i);
        assert(types::call_record(items[n - 1]) is Some);
    }
}

/// What is of no known type is kept as it is.
pub proof fn unknown_events_are_kept(v: json::JsonView, printed: Option<Seq<char>>, ty: Seq<char>)
    requires
        says(v, "type"@, ty),
        ty.len() == 1 || ty.len() == 4 || ty.len() == 8,
    ensures
        types::event_of(v, printed) == types::EventView::Other(ty, v),
{
    lemma_types_differ();
}

/// Merging takes in every file that is new, as it is.
pub proof fn new_files_are_taken_in(
    a: types::OutputsView,
    b: types::OutputsView,
    i: int,
)
    requires
        0 <= i < b.artifacts.len(),
        !types::has_id(a.artifacts, b.artifacts[i].id),
        forall|j: int| 0 <= j < i ==> (#[trigger] b.artifacts[j]).id != b.artifacts[i].id,
    ensures
        a.merged(b).artifacts.contains(b.artifacts[i]),
{
    lemma_taken_in(a.artifacts, b.artifacts, b.artifacts.len(), i);
}

proof fn lemma_taken_in(
    list: Seq<types::ArtifactView>,
    more: Seq<types::ArtifactView>,
    n: nat,
    i: int,
)
    requires
        n <= more.len(),
        0 <= i < more.len(),
        !types::has_id(list, more[i].id),
        forall|j: int| 0 <= j < i ==> (#[trigger] more[j]).id != more[i].id,
    ensures
        n <= i ==> !types::has_id(types::with_artifacts(list, more, n), more[i].id),
        n > i ==> types::with_artifacts(list, more, n).contains(more[i]),
    decreases n,
{
    if n > 0 {
        lemma_taken_in(list, more, (n - 1) as nat, i);
        let before = types::with_artifacts(list, more, (n - 1) as nat);
        let after = types::with_artifacts(list, more, n);
        if n - 1 < i {
            assert(more[n - 1].id != more[i].id);
            if types::has_id(after, more[i].id) {
                let k = choose|k: int|
                    0 <= k < after.len() && (#[trigger] after[k]).id == more[i].id;
                if k < before.len() {
                    assert(before[k].id == more[i].id);
                }
            }
        } else if n - 1 == i {
            assert(after =~= before.push(more[i]));
            assert(after[before.len() as int] == more[i]);
        } else {
            let k = before.index_of(more[i]);
            assert(after[k] == more[i]);
        }
    }
}

proof fn lemma_text_kept(list: Seq<Seq<char>>, s: Seq<char>, t: Seq<char>)
    ensures
        types::with_text(list, s).contains(s),
        list.contains(t) ==> types::with_text(list, s).contains(t),
{
    if !list.contains(s) {
        assert(list.push(s)[list.len() as int] == s);
    }
    if list.contains(t) {
        let k = list.index_of(t);
        assert(types::with_text(list, s)[k] == t);
    }
}

proof fn lemma_url_kept(list: Seq<Seq<char>>, v: Option<json::JsonView>, t: Seq<char>)
    ensures
        list.contains(t) ==> types::with_url(list, v).contains(t),
        v == Some(json::JsonView::Str(t)) && "http"@.is_prefix_of(t) ==> types::with_url(
            list,
            v,
        ).contains(t),
{
    match v {
        Some(json::JsonView::Str(u)) => {
            lemma_text_kept(list, u, t);
        },
        _ => {},
    }
}

proof fn lemma_urls_kept(
    list: Seq<Seq<char>>,
    items: Seq<json::JsonView>,
    n: nat,
    i: int,
    t: Seq<char>,
)
    requires
        n <= items.len(),
    ensures
        list.contains(t) ==> types::with_urls(list, items, n).contains(t),
        0 <= i < n && items[i] == json::JsonView::Str(t) && "http"@.is_prefix_of(t)
            ==> types::with_urls(list, items, n).contains(t),
    decreases n,
{
    if n > 0 {
        lemma_urls_kept(list, items, (n - 1) as nat, i, t);
        lemma_url_kept(
            types::with_urls(list, items, (n - 1) as nat),
            Some(items[n - 1]),
            t,
        );
    }
}

/// Every image that a tool's result gives an address of is shown, whichever field it
/// stands in, and an address counts only where it is one.
pub proof fn images_of_results_are_shown(
    call: types::ToolCallView,
    v: json::JsonView,
    items: Seq<json::JsonView>,
    i: int,
    u: Seq<char>,
)
    requires
        "http"@.is_prefix_of(u),
    ensures
        says(v, "image_url"@, u) ==> types::outputs_of(call, Some(v)).image_urls.contains(u),
        json::field(v, "image_urls"@) == Some(json::JsonView::Array(items)) && 0 <= i < items.len()
            && items[i] == json::JsonView::Str(u) ==> types::outputs_of(
            call,
            Some(v),
        ).image_urls.contains(u),
        json::field(v, "urls"@) == Some(json::JsonView::Array(items)) && 0 <= i < items.len()
            && items[i] == json::JsonView::Str(u) ==> types::outputs_of(
            call,
            Some(v),
        ).image_urls.contains(u),
        types::outputs_of(call, None).image_urls.len() == 0,
{
    let first = types::items_or_none(json::field(v, "image_urls"@));
    let second = types::items_or_none(json::field(v, "urls"@));
    let a = types::with_urls(Seq::empty(), first, first.len());
    let b = types::with_urls(a, second, second.len());
    lemma_urls_kept(Seq::empty(), first, first.len(), i, u);
    lemma_urls_kept(a, second, second.len(), i, u);
    lemma_url_kept(b, json::field(v, "image_url"@), u);
}

proof fn lemma_listed(raw: Seq<types::ArtifactView>, n: nat, i: int)
    requires
        n <= raw.len(),
        0 <= i < n,
        raw[i].id.len() > 0,
    ensures
        types::named_artifacts(raw, n).contains(
            types::ArtifactView {
                id: raw[i].id,
                filename: if raw[i].filename.len() > 0 {
                    raw[i].filename
                } else {
                    raw[i].id
                },
                mime_type: raw[i].mime_type,
            },
        ),
    decreases n,
{
    let a = types::ArtifactView {
        id: raw[i].id,
        filename: if raw[i].filename.len() > 0 {
            raw[i].filename
        } else {
            raw[i].id
        },
        mime_type: raw[i].mime_type,
    };
    let after = types::named_artifacts(raw, n);
    if i < n - 1 {
        lemma_listed(raw, (n - 1) as nat, i);
        let before = types::named_artifacts(raw, (n - 1) as nat);
        assert(after[before.index_of(a)] == a);
    } else {
        assert(after.last() == a);
        assert(after[after.len() - 1] == a);
    }
}

/// A file that a call lists is among what it produced, under its own name or, where it
/// has none, under its id.
pub proof fn listed_files_are_produced(call: types::ToolCallView, i: int)
    requires
        0 <= i < call.artifacts.len(),
        call.artifacts[i].id.len() > 0,
        call.artifact_id is None,
    ensures
        types::outputs_of(call, None).artifacts.contains(
            types::ArtifactView {
                id: call.artifacts[i].id,
                filename: if call.artifacts[i].filename.len() > 0 {
                    call.artifacts[i].filename
                } else {
                    call.artifacts[i].id
                },
                mime_type: call.artifacts[i].mime_type,
            },
        ),
{
    lemma_listed(call.artifacts, call.artifacts.len(), i);
}

/// The one file that a call names is among what it produced.
pub proof fn named_files_are_produced(
    call: types::ToolCallView,
    result: Option<json::JsonView>,
    id: Seq<char>,
)
    requires
        call.artifact_id == Some(id),
        id.len() > 0,
    ensures
        types::has_id(types::outputs_of(call, result).artifacts, id),
{
    let out = types::outputs_of(call, result).artifacts;
    let listed = types::named_artifacts(call.artifacts, call.artifacts.len());
    let before = match result {
        Some(v) => types::with_result(listed, v).artifacts,
        None => listed,
    };
    if types::has_id(before, id) {
        assert(out == before);
    } else {
        assert(out.last().id == id);
        assert(out[out.len() - 1].id == id);
    }
}

proof fn lemma_typed_ids(list: Seq<types::ArtifactView>, items: Seq<json::JsonView>, n: nat)
    requires
        n <= items.len(),
    ensures
        types::with_types(list, items, n).len() == list.len(),
        forall|k: int|
            0 <= k < list.len() ==> (#[trigger] types::with_types(list, items, n)[k]).id
                == list[k].id && types::with_types(list, items, n)[k].filename == list[k].filename,
    decreases n,
{
    if n > 0 {
        lemma_typed_ids(list, items, (n - 1) as nat);
    }
}

proof fn lemma_results_kept(
    list: Seq<types::ArtifactView>,
    items: Seq<json::JsonView>,
    n: nat,
    i: int,
)
    requires
        n <= items.len(),
        0 <= i < n,
        types::result_id(items[i]).len() > 0,
    ensures
        types::has_id(types::with_results(list, items, n), types::result_id(items[i])),
    decreases n,
{
    let id = types::result_id(items[i]);
    let before = types::with_results(list, items, (n - 1) as nat);
    let after = types::with_results(list, items, n);
    if i < n - 1 {
        lemma_results_kept(list, items, (n - 1) as nat, i);
        let k = choose|k: int| 0 <= k < before.len() && (#[trigger] before[k]).id == id;
        assert(after[k] == before[k]);
    } else if !types::has_id(before, id) {
        assert(after.last().id == id);
        assert(after[after.len() - 1].id == id);
    }
}

/// A file that a tool's result lists is among what the call produced, under either name
/// of its id.
pub proof fn files_of_results_are_produced(
    call: types::ToolCallView,
    v: json::JsonView,
    items: Seq<json::JsonView>,
    i: int,
    id: Seq<char>,
)
    requires
        json::field(v, "artifacts"@) == Some(json::JsonView::Array(items)),
        0 <= i < items.len(),
        says(items[i], "artifact_id"@, id) || (json::field(items[i], "artifact_id"@) is None
            && says(items[i], "id"@, id)),
        id.len() > 0,
        call.artifact_id is None,
    ensures
        types::has_id(types::outputs_of(call, Some(v)).artifacts, id),
{
    let listed = types::named_artifacts(call.artifacts, call.artifacts.len());
    let before = types::with_results(listed, items, items.len());
    lemma_results_kept(listed, items, items.len(), i);
    lemma_typed_ids(before, items, items.len());
    let k = choose|k: int| 0 <= k < before.len() && (#[trigger] before[k]).id == id;
    assert(types::with_types(before, items, items.len())[k].id == id);
}

/// A file that a result alone lists has the name and the type that the result gives.
pub proof fn files_of_results_have_names(a: json::JsonView, id: Seq<char>, f: Seq<char>, m: Seq<char>)
    requires
        says(a, "artifact_id"@, id),
        says(a, "filename"@, f),
        says(a, "mime_type"@, m),
    ensures
        types::result_artifact(a).id == id,
        types::result_artifact(a).filename == f,
        types::result_artifact(a).mime_type == Some(m),
        id.len() > 0 ==> types::with_results(Seq::empty(), seq![a], 1) == seq![
            types::result_artifact(a),
        ],
{
    reveal_with_fuel(types::with_results, 2);
    assert(types::with_results(Seq::empty(), seq![a], 0) == Seq::<types::ArtifactView>::empty());
    if id.len() > 0 {
        assert(types::with_results(Seq::empty(), seq![a], 1) =~= seq![types::result_artifact(a)]);
    }
}

/// The label of a running tool: code and images have their own; any other names its
/// tool and its action with spaces for underscores.
pub proof fn running_tools_are_labelled(tool: Seq<char>, action: Seq<char>)
    ensures
        types::label_of("code_executor"@, action) == "Running code"@,
        types::label_of("imagegen"@, action) == "Generating image"@,
        tool != "code_executor"@ ==> types::label_of(tool, "imagegen_generate"@)
            == "Generating image"@,
        tool != "code_executor"@ && tool != "imagegen"@ && action != "imagegen_generate"@
            && action.len() > 0 ==> types::label_of(tool, action) == "Using "@
            + text::replace_char(tool, '_', seq![' ']) + " ("@ + text::replace_char(
            action,
            '_',
            seq![' '],
        ) + ")"@,
        tool != "code_executor"@ && tool != "imagegen"@ ==> types::label_of(tool, Seq::empty())
            == "Using "@ + text::replace_char(tool, '_', seq![' ']),
{
    reveal_strlit(" ");
    reveal_strlit("imagegen");
    reveal_strlit("code_executor");
    reveal_strlit("imagegen_generate");
    assert(" "@ =~= seq![' ']);
    assert("imagegen"@.len() == 8);
    assert("code_executor"@.len() == 13);
    assert("imagegen_generate"@.len() == 17);
}

} // verus!
