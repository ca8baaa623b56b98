//! What a prompt of the user is made of, and how it is shown.

use vstd::prelude::*;

use crate::event_laws;
use crate::images;
use crate::json::JsonView;
use crate::prompt_parts;
use crate::prompt_parts::{PlanView, StepView};
use crate::reading;
use crate::session_state::StateView;
use crate::text;

verus! {

proof fn lemma_prompt_names()
    ensures
        ""@.len() == 0,
        "agent"@.len() == 5,
        "agent"@[0] == 'a',
        "content"@.len() == 7,
        "effort"@.len() == 6,
        "effort"@[0] == 'e',
        "file"@.len() == 4,
        "file"@[0] == 'f',
        "filename"@.len() == 8,
        "filename"@[0] == 'f',
        "id"@.len() == 2,
        "image"@.len() == 5,
        "image"@[0] == 'i',
        "item"@.len() == 4,
        "item"@[0] == 'i',
        "method"@.len() == 6,
        "method"@[0] == 'm',
        "mime"@.len() == 4,
        "mime"@[0] == 'm',
        "mime"@[1] == 'i',
        "mode"@.len() == 4,
        "mode"@[0] == 'm',
        "mode"@[1] == 'o',
        "model"@.len() == 5,
        "model"@[0] == 'm',
        "name"@.len() == 4,
        "name"@[0] == 'n',
        "params"@.len() == 6,
        "params"@[0] == 'p',
        "parts"@.len() == 5,
        "parts"@[0] == 'p',
        "path"@.len() == 4,
        "path"@[0] == 'p',
        "text"@.len() == 4,
        "text"@[0] == 't',
        "text"@[1] == 'e',
        "threadId"@.len() == 8,
        "threadId"@[0] == 't',
        "turn"@.len() == 4,
        "turn"@[0] == 't',
        "turn"@[1] == 'u',
        "type"@.len() == 4,
        "type"@[0] == 't',
        "type"@[1] == 'y',
        "url"@.len() == 3,
        "userMessage"@.len() == 11,
        "value"@.len() == 5,
        "value"@[0] == 'v',
{
    reveal_strlit("");
    reveal_strlit("agent");
    reveal_strlit("content");
    reveal_strlit("effort");
    reveal_strlit("file");
    reveal_strlit("filename");
    reveal_strlit("id");
    reveal_strlit("image");
    reveal_strlit("item");
    reveal_strlit("method");
    reveal_strlit("mime");
    reveal_strlit("mode");
    reveal_strlit("model");
    reveal_strlit("name");
    reveal_strlit("params");
    reveal_strlit("parts");
    reveal_strlit("path");
    reveal_strlit("text");
    reveal_strlit("threadId");
    reveal_strlit("turn");
    reveal_strlit("type");
    reveal_strlit("url");
    reveal_strlit("userMessage");
    reveal_strlit("value");
}

// ---------------------------------------------------------------------------
// The parts of a prompt
// ---------------------------------------------------------------------------

/// The images of a prompt are taken one by one, in their order.
pub proof fn law_images_keep_their_order(a: Seq<Seq<char>>, b: Seq<Seq<char>>)
    ensures
        prompt_parts::image_steps(a + b) == prompt_parts::image_steps(a) + prompt_parts::image_steps(b),
        prompt_parts::image_steps(Seq::empty()).len() == 0,
    decreases b.len(),
{
    if b.len() == 0 {
        assert(a + b =~= a);
        assert(prompt_parts::image_steps(a) + prompt_parts::image_steps(b) =~= prompt_parts::image_steps(a));
    } else {
        let init = b.drop_last();
        law_images_keep_their_order(a, init);
        assert((a + b).drop_last() =~= a + init);
        assert((a + b).last() == b.last());
        assert(prompt_parts::image_steps(a + b) =~= prompt_parts::image_steps(a) + prompt_parts::image_steps(b));
    }
}

proof fn lemma_address_names()
    ensures
        "data:"@.len() == 5,
        "http://"@.len() == 7,
        "https://"@.len() == 8,
{
    reveal_strlit("data:");
    reveal_strlit("http://");
    reveal_strlit("https://");
}

/// An image is taken by what it is: a data URL as it stands, an address on the web is fetched, and
/// anything else is the path of a file that is read; white space around it does not count, and
/// nothing but white space is no image.
pub proof fn law_image_is_taken_by_what_it_is(image: Seq<char>)
    ensures
        ({
            let steps = prompt_parts::image_steps(seq![image]);
            let s = text::trim_of(image);
            let on_the_web = text::has_prefix(s, "http://"@) || text::has_prefix(s, "https://"@);
            &&& s.len() == 0 ==> steps.len() == 0
            &&& s.len() > 0 ==> steps.len() == 1
            &&& text::has_prefix(s, "data:"@) ==> {
                &&& steps[0] is Ready
                &&& (steps[0]->Ready_0).get("type"@) == reading::found("file"@)
                &&& (steps[0]->Ready_0).get("url"@) == reading::found(s)
                &&& (steps[0]->Ready_0).get("filename"@) == reading::found("image"@)
                &&& images::data_url_parts(s) is None ==> (steps[0]->Ready_0).get("mime"@) == reading::found(
                    "application/octet-stream"@,
                )
            }
            &&& on_the_web ==> steps[0] == StepView::Fetch(s)
            &&& s.len() > 0 && !text::has_prefix(s, "data:"@) && !on_the_web ==> steps[0] == StepView::ReadImage(s)
        }),
{
    broadcast use reading::group_reading;
    lemma_prompt_names();
    lemma_address_names();
    reveal_with_fuel(prompt_parts::image_steps, 2);
    assert(seq![image].drop_last() =~= Seq::<Seq<char>>::empty());
    let s = text::trim_of(image);
    if text::has_prefix(s, "data:"@) {
        reveal_strlit("data:");
        assert(s.take(5)[0] == 'd');
        assert(!text::has_prefix(s, "http://"@)) by {
            reveal_strlit("http://");
            if text::has_prefix(s, "http://"@) {
                assert(s.take(7)[0] == 'h');
            }
        }
        assert(!text::has_prefix(s, "https://"@)) by {
            reveal_strlit("https://");
            if text::has_prefix(s, "https://"@) {
                assert(s.take(8)[0] == 'h');
            }
        }
    }
}

/// A data URL tells the media type of its image itself.
pub proof fn law_data_url_keeps_its_media_type(mime: Seq<char>, encoded: Seq<char>)
    requires
        text::trim_of(images::data_url(mime, encoded)) == images::data_url(mime, encoded),
        images::data_url_parts(images::data_url(mime, encoded)) == Some((mime, encoded)),
    ensures
        ({
            let steps = prompt_parts::image_steps(seq![images::data_url(mime, encoded)]);
            steps.len() == 1 && steps[0] is Ready && (steps[0]->Ready_0).get("mime"@) == reading::found(mime)
        }),
{
    broadcast use reading::group_reading;
    lemma_prompt_names();
    reveal_strlit("data:");
    reveal_with_fuel(prompt_parts::image_steps, 2);
    let url = images::data_url(mime, encoded);
    assert(seq![url].drop_last() =~= Seq::<Seq<char>>::empty());
    assert(url.take(5) =~= "data:"@);
}

proof fn lemma_mention_names()
    ensures
        ""@.len() == 0,
        "agent"@.len() == 5,
        "app://"@.len() == 6,
        "name"@.len() == 4,
        "name"@[0] == 'n',
        "path"@.len() == 4,
        "path"@[0] == 'p',
        "type"@.len() == 4,
        "type"@[0] == 't',
{
    reveal_strlit("");
    reveal_strlit("agent");
    reveal_strlit("app://");
    reveal_strlit("name");
    reveal_strlit("path");
    reveal_strlit("type");
}

/// A file that is mentioned is read under the path behind `app://`, and shown under its name; a
/// mention without a name or without such a path is refused.
pub proof fn law_mention_names_its_file(mention: JsonView)
    ensures
        match prompt_parts::file_mention(mention) {
            Ok((name, path)) => {
                &&& mention is Object
                &&& name.len() > 0 && name == text::trim_of(reading::string_at(mention, "name"@))
                &&& path.len() > 0 && "app://"@ + path == text::trim_of(reading::string_at(mention, "path"@))
            },
            Err(e) => {
                let named = text::trim_of(reading::string_at(mention, "name"@)).len() > 0;
                let path = text::trim_of(reading::string_at(mention, "path"@));
                &&& !(mention is Object) ==> e == "invalid app mention payload"@
                &&& mention is Object && !named ==> e == "invalid app mention name"@
                &&& mention is Object && named ==> e == "invalid app mention path"@ && (!text::has_prefix(
                    path,
                    "app://"@,
                ) || path == "app://"@)
            },
        },
{
    assert(text::trim_of(Seq::<char>::empty()).len() == 0);
    lemma_mention_names();
    let path = text::trim_of(reading::string_at(mention, "path"@));
    if text::has_prefix(path, "app://"@) {
        assert("app://"@ + path.skip("app://"@.len() as int) =~= path);
        if path.len() == "app://"@.len() {
            assert(path.take("app://"@.len() as int) =~= path);
        }
    }
}

/// A mention goes behind those before it, unless the same file is read already or one of them was
/// refused.
pub proof fn law_mentions_keep_their_order(mentions: Seq<JsonView>, mention: JsonView)
    ensures
        ({
            let before = prompt_parts::mention_plan(mentions);
            let after = prompt_parts::mention_plan(mentions.push(mention));
            &&& before.error is Some ==> after == before
            &&& before.error is None ==> match prompt_parts::file_mention(mention) {
                Ok((name, path)) => {
                    &&& after.error is None
                    &&& {
                        ||| after.steps == before.steps.push(StepView::ReadMention { name, path })
                        ||| after.steps == before.steps && prompt_parts::reads_path(before.steps, path)
                    }
                },
                Err(e) => after.error == Some(e) && after.steps == before.steps,
            }
        }),
        prompt_parts::mention_plan(Seq::empty()).steps.len() == 0,
        prompt_parts::mention_plan(Seq::empty()).error is None,
{
    assert(mentions.push(mention).drop_last() =~= mentions);
}

/// An agent that is mentioned is called by its name; a mention without one is refused.
pub proof fn law_mentioned_agent_is_called(mentions: Seq<JsonView>, mention: JsonView)
    ensures
        ({
            let before = prompt_parts::agent_plan(mentions);
            let after = prompt_parts::agent_plan(mentions.push(mention));
            let name = text::trim_of(reading::string_at(mention, "name"@));
            &&& before.error is Some ==> after == before
            &&& before.error is None && mention is Object && name.len() > 0 ==> {
                &&& after.error is None
                &&& after.steps.len() == before.steps.len() + 1
                &&& after.steps.drop_last() == before.steps
                &&& after.steps.last() is Ready
                &&& (after.steps.last()->Ready_0).get("type"@) == reading::found("agent"@)
                &&& (after.steps.last()->Ready_0).get("name"@) == reading::found(name)
            }
            &&& before.error is None && !(mention is Object) ==> after.error == Some("invalid agent mention payload"@)
            &&& before.error is None && mention is Object && name.len() == 0 ==> after.error == Some(
                "invalid agent mention name"@,
            )
        }),
        prompt_parts::agent_plan(Seq::empty()).steps.len() == 0,
        prompt_parts::agent_plan(Seq::empty()).error is None,
{
    broadcast use reading::group_reading;
    lemma_mention_names();
    assert(mentions.push(mention).drop_last() =~= mentions);
    assert(text::trim_of(Seq::<char>::empty()).len() == 0);
    let before = prompt_parts::agent_plan(mentions);
    let after = prompt_parts::agent_plan(mentions.push(mention));
    assert(after.steps.len() > before.steps.len() ==> after.steps.drop_last() =~= before.steps);
}

/// A prompt is made of its text, without white space around it, its images, the files and the
/// agents that it mentions, in this order; the first mention that is refused ends it, and a prompt
/// of nothing is refused.
pub proof fn law_prompt_is_made_in_order(
    prompt: Seq<char>,
    list: Seq<Seq<char>>,
    files: Seq<JsonView>,
    agents: Seq<JsonView>,
)
    ensures
        ({
            let plan = prompt_parts::prompt_plan(prompt, Some(list), Some(files), Some(agents));
            let s = text::trim_of(prompt);
            let from_files = prompt_parts::mention_plan(files);
            let from_agents = prompt_parts::agent_plan(agents);
            let first: nat = if s.len() > 0 {
                1
            } else {
                0
            };
            let head = first + prompt_parts::image_steps(list).len();
            &&& plan.steps.len() >= head
            &&& s.len() > 0 ==> {
                &&& plan.steps[0] is Ready
                &&& (plan.steps[0]->Ready_0).get("type"@) == reading::found("text"@)
                &&& (plan.steps[0]->Ready_0).get("text"@) == reading::found(s)
            }
            &&& plan.steps.subrange(first as int, head as int) == prompt_parts::image_steps(list)
            &&& from_files.error is Some ==> plan.error == from_files.error && plan.steps.skip(head as int)
                == from_files.steps
            &&& from_files.error is None ==> plan.steps.skip(head as int) == from_files.steps + from_agents.steps
            &&& from_files.error is None && from_agents.error is Some ==> plan.error == from_agents.error
            &&& from_files.error is None && from_agents.error is None ==> plan.error == (if plan.steps.len() == 0 {
                Some("empty user message"@)
            } else {
                None
            })
        }),
{
    broadcast use reading::group_reading;
    lemma_prompt_names();
    let plan = prompt_parts::prompt_plan(prompt, Some(list), Some(files), Some(agents));
    let s = text::trim_of(prompt);
    let first: nat = if s.len() > 0 {
        1
    } else {
        0
    };
    let head = first + prompt_parts::image_steps(list).len();
    assert(plan.steps.subrange(first as int, head as int) =~= prompt_parts::image_steps(list));
    let from_files = prompt_parts::mention_plan(files);
    let from_agents = prompt_parts::agent_plan(agents);
    if from_files.error is Some {
        assert(plan.steps.skip(head as int) =~= from_files.steps);
    } else {
        assert(plan.steps.skip(head as int) =~= from_files.steps + from_agents.steps);
    }
}

/// What is not given counts as given empty.
pub proof fn law_missing_lists_are_empty(
    prompt: Seq<char>,
    list: Option<Seq<Seq<char>>>,
    files: Option<Seq<JsonView>>,
    agents: Option<Seq<JsonView>>,
)
    ensures
        prompt_parts::prompt_plan(prompt, None, files, agents) == prompt_parts::prompt_plan(
            prompt,
            Some(Seq::empty()),
            files,
            agents,
        ),
        prompt_parts::prompt_plan(prompt, list, None, agents) == prompt_parts::prompt_plan(
            prompt,
            list,
            Some(Seq::empty()),
            agents,
        ),
        prompt_parts::prompt_plan(prompt, list, files, None) == prompt_parts::prompt_plan(
            prompt,
            list,
            files,
            Some(Seq::empty()),
        ),
{
    assert(prompt_parts::image_steps(Seq::empty()) =~= Seq::<StepView>::empty());
}

// ---------------------------------------------------------------------------
// Files
// ---------------------------------------------------------------------------

/// A file in a prompt carries its media type, its address and its name.
pub proof fn law_file_part_carries_its_fields(mime: Seq<char>, url: Seq<char>, name: Seq<char>)
    ensures
        ({
            let part = images::file_part(mime, url, name);
            &&& part.get("type"@) == reading::found("file"@)
            &&& part.get("mime"@) == reading::found(mime)
            &&& part.get("url"@) == reading::found(url)
            &&& part.get("filename"@) == reading::found(name)
        }),
{
    broadcast use reading::group_reading;
    lemma_prompt_names();
}

/// An image in a file that was read carries its own bytes, as a data URL of the media type that its
/// path tells, and its name; one that was not read leaves its path.
pub proof fn law_local_image_carries_its_bytes(path: Seq<char>, name: Option<Seq<char>>, encoded: Seq<char>)
    ensures
        ({
            let part = prompt_parts::local_image_part(path, name, Some(encoded));
            let missing = prompt_parts::local_image_part(path, name, None);
            &&& part.get("type"@) == reading::found("file"@)
            &&& part.get("mime"@) == reading::found(images::mime_of(path))
            &&& part.get("url"@) == reading::found("data:"@ + images::mime_of(path) + ";base64,"@ + encoded)
            &&& part.get("filename"@) == (match name {
                Some(n) => reading::found(n),
                None => reading::found("image"@),
            })
            &&& missing.get("type"@) == reading::found("text"@)
            &&& missing.get("text"@) == reading::found("[image: "@ + path + "]"@)
        }),
{
    broadcast use reading::group_reading;
    lemma_prompt_names();
}

/// A file that is mentioned is told by its name and its path, with what it holds where it was read.
pub proof fn law_mentioned_file_is_told(name: Seq<char>, path: Seq<char>, content: Seq<char>)
    ensures
        ({
            let read = prompt_parts::mention_part(name, path, Some(content));
            let missing = prompt_parts::mention_part(name, path, None);
            &&& read.get("type"@) == reading::found("text"@)
            &&& read.get("text"@) == reading::found("--- "@ + name + " ("@ + path + ") ---\n"@ + content)
            &&& missing.get("text"@) == reading::found("[file: "@ + name + " at "@ + path + "]"@)
        }),
{
    broadcast use reading::group_reading;
    lemma_prompt_names();
}

/// The name of a file is what stands behind the last slash of its path, where that is a name.
pub proof fn law_file_name_stands_behind_the_last_slash(folder: Seq<char>, name: Seq<char>)
    requires
        name.len() > 0,
        !name.contains('/'),
        name != "."@,
        name != ".."@,
    ensures
        prompt_parts::file_name_of(folder + seq!['/'] + name) == Some(name),
        prompt_parts::file_name_of(name) == Some(name),
        prompt_parts::file_name_of(folder + seq!['/'] + ".."@) is None,
        prompt_parts::file_name_of(folder + seq!['/']) == prompt_parts::file_name_of(folder),
        prompt_parts::file_name_of(folder + seq!['/'] + "."@) == prompt_parts::file_name_of(folder),
{
    reveal_strlit("..");
    reveal_strlit(".");
    lemma_last_segment(folder, name);
    lemma_last_segment(folder, ".."@);
    lemma_last_segment(folder, "."@);
    lemma_last_segment(folder, Seq::empty());
    assert(folder + seq!['/'] + Seq::<char>::empty() =~= folder + seq!['/']);
    assert((folder + seq!['/'] + "."@).take(folder.len() as int) =~= folder);
    assert((folder + seq!['/']).take(folder.len() as int) =~= folder);
    lemma_no_slash(name, name.len() as int);
}

proof fn lemma_no_slash(name: Seq<char>, end: int)
    requires
        !name.contains('/'),
        0 <= end <= name.len(),
    ensures
        text::char_before(name, '/', end) is None,
    decreases end,
{
    if end > 0 {
        assert(name.contains(name[end - 1]));
        lemma_no_slash(name, end - 1);
    }
}

proof fn lemma_slash_before(folder: Seq<char>, name: Seq<char>, end: int)
    requires
        !name.contains('/'),
        folder.len() < end <= folder.len() + 1 + name.len(),
    ensures
        text::char_before(folder + seq!['/'] + name, '/', end) == Some(folder.len() as int),
    decreases end,
{
    let s = folder + seq!['/'] + name;
    if end == folder.len() + 1 {
        assert(s[end - 1] == '/');
    } else {
        assert(s[end - 1] == name[end - folder.len() - 2]);
        assert(name.contains(name[end - folder.len() - 2]));
        lemma_slash_before(folder, name, end - 1);
    }
}

proof fn lemma_last_segment(folder: Seq<char>, name: Seq<char>)
    requires
        !name.contains('/'),
    ensures
        text::last_segment_of(folder + seq!['/'] + name) == name,
{
    lemma_slash_before(folder, name, (folder.len() + 1 + name.len()) as int);
    assert((folder + seq!['/'] + name).skip((folder.len() + 1) as int) =~= name);
}

// ---------------------------------------------------------------------------
// The message of the user
// ---------------------------------------------------------------------------

/// What the user sends is shown as its text, without white space around it, and its images, in
/// their order; an image that is nothing but white space is left out.
pub proof fn law_user_content_is_shown(
    prompt: Seq<char>,
    list: Seq<Seq<char>>,
    image: Seq<char>,
    stored: Map<Seq<char>, Seq<char>>,
)
    ensures
        ({
            let bare = prompt_parts::user_content(prompt, Seq::empty(), stored);
            let before = prompt_parts::user_content(prompt, list, stored);
            let after = prompt_parts::user_content(prompt, list.push(image), stored);
            let s = text::trim_of(prompt);
            let i = text::trim_of(image);
            &&& s.len() == 0 ==> bare.len() == 0
            &&& s.len() > 0 ==> bare.len() == 1 && bare[0].get("type"@) == reading::found("text"@) && bare[0].get(
                "text"@,
            ) == reading::found(s)
            &&& i.len() == 0 ==> after == before
            &&& i.len() > 0 ==> {
                &&& after.len() == before.len() + 1
                &&& after.drop_last() == before
                &&& after.last().get("type"@) == reading::found("image"@)
                &&& after.last().get("value"@) == reading::found(images::image_value(i, stored))
            }
        }),
{
    broadcast use reading::group_reading;
    lemma_prompt_names();
    assert(list.push(image).drop_last() =~= list);
    let before = prompt_parts::user_content(prompt, list, stored);
    let after = prompt_parts::user_content(prompt, list.push(image), stored);
    assert(after.len() > before.len() ==> after.drop_last() =~= before);
}

/// A turn of the user is told of at once: that it has started, and what the user sent, where it is
/// something, under the identifier that the user message has from then on.
pub proof fn law_user_turn_is_told_of(s: StateView, thread_id: Seq<char>, turn_id: Seq<char>, content: Seq<JsonView>)
    ensures
        ({
            let (after, messages) = prompt_parts::user_turn_started(s, thread_id, turn_id, content);
            let id = after.turn(thread_id).user_message_item_id;
            &&& after.session_id == thread_id
            &&& after.turn(thread_id).turn_id == turn_id
            &&& id is Some
            &&& s.turn(thread_id).user_message_item_id is Some ==> id == s.turn(thread_id).user_message_item_id
            &&& messages.len() == (if content.len() > 0 {
                2nat
            } else {
                1nat
            })
            &&& event_laws::all_about(messages, thread_id)
            &&& reading::has_method(messages[0], "turn/started"@)
            &&& event_laws::turn_of(messages[0]) == reading::found(turn_id)
            &&& content.len() > 0 ==> {
                &&& reading::has_method(messages[1], "item/completed"@)
                &&& reading::item_field(messages[1], "id"@) == reading::found(id->0)
                &&& reading::item_field(messages[1], "type"@) == reading::found("userMessage"@)
                &&& reading::item_field(messages[1], "content"@) == Some(JsonView::Array(content))
            }
        }),
{
    broadcast use reading::group_reading;
    lemma_prompt_names();
    event_laws::lemma_item_messages_read();
}

/// The request for a prompt carries its parts, and the model, the effort and the agent where they
/// are chosen.
pub proof fn law_prompt_body_carries_its_fields(
    parts: Seq<JsonView>,
    model: Option<JsonView>,
    effort: Option<Seq<char>>,
    agent: Option<Seq<char>>,
)
    ensures
        ({
            let body = prompt_parts::prompt_body(parts, model, effort, agent);
            &&& body.get("parts"@) == Some(JsonView::Array(parts))
            &&& body.get("model"@) == model
            &&& body.get("effort"@) == (match effort {
                Some(e) => reading::found(e),
                None => None,
            })
            &&& body.get("agent"@) == (match agent {
                Some(a) => reading::found(a),
                None => None,
            })
        }),
{
    broadcast use reading::group_reading;
    lemma_prompt_names();
}

/// The agent of a prompt is the mode that was chosen, without white space around it.
pub proof fn law_agent_is_the_chosen_mode(mode: Option<JsonView>)
    ensures
        match prompt_parts::collaboration_agent(mode) {
            Some(agent) => agent.len() > 0 && (reading::within(mode, "mode"@) matches Some(JsonView::Text(x))
                && agent == text::trim_of(x)),
            None => reading::within(mode, "mode"@) matches Some(JsonView::Text(x)) ==> text::trim_of(x).len() == 0,
        },
{
}

} // verus!
