//! What the user sends: the parts of a prompt, the messages that show it, and its request.

use vstd::prelude::*;
use vstd::string::*;

use crate::event_translator;
use crate::event_translator::{build_item_message, build_turn_started, build_user_message_item};
use crate::images;
use crate::images::{
    base64_encode, build_data_url, build_file_part, frontend_image_value, mime_from_extension, split_data_url,
};
use crate::json;
use crate::json::{as_str_in, get_in, none, push_json, Json, JsonView};
use crate::session_state::{SessionTranslationState, StateView};
use crate::str_map::StrMap;
use crate::text;
use crate::text::{cat, cat3, decimal_text, owned, starts_with, str_eq, str_or, strip_prefix, trim, trim_some};

verus! {

// ---------------------------------------------------------------------------
// The parts of a prompt
// ---------------------------------------------------------------------------

/// What gives one part of a prompt.
pub enum PartStep {
    /// The part itself.
    Ready(Json),
    /// An image on the web, to be fetched.
    Fetch(String),
    /// An image in a file, to be read.
    ReadImage(String),
    /// A file that the prompt mentions, to be read.
    ReadMention { name: String, path: String },
}

/// What gives one part of a prompt, as a mathematical value.
pub enum StepView {
    Ready(JsonView),
    Fetch(Seq<char>),
    ReadImage(Seq<char>),
    ReadMention { name: Seq<char>, path: Seq<char> },
}

impl View for PartStep {
    type V = StepView;

    open spec fn view(&self) -> StepView {
        match self {
            PartStep::Ready(j) => StepView::Ready(j@),
            PartStep::Fetch(s) => StepView::Fetch(s@),
            PartStep::ReadImage(s) => StepView::ReadImage(s@),
            PartStep::ReadMention { name, path } => StepView::ReadMention { name: name@, path: path@ },
        }
    }
}

pub open spec fn step_views(steps: Seq<PartStep>) -> Seq<StepView> {
    steps.map_values(|s: PartStep| s@)
}

/// How the parts of a prompt are made: step by step, and then, where the prompt is at fault, an
/// error.
pub struct PromptPlan {
    pub steps: Vec<PartStep>,
    pub error: Option<String>,
}

/// How the parts of a prompt are made, as a mathematical value.
pub struct PlanView {
    pub steps: Seq<StepView>,
    pub error: Option<Seq<char>>,
}

impl View for PromptPlan {
    type V = PlanView;

    open spec fn view(&self) -> PlanView {
        PlanView { steps: step_views(self.steps@), error: text::opt_string(self.error) }
    }
}

/// A part that is text.
pub open spec fn text_part(s: Seq<char>) -> JsonView {
    json::obj().and("type"@, JsonView::Text("text"@)).and("text"@, JsonView::Text(s))
}

/// A part that is text.
pub fn build_text_part(s: &str) -> (r: Json)
    ensures
        r@ == text_part(s@),
{
    Json::obj().and("type", Json::text("text")).and("text", Json::text(s))
}

/// What gives the part for an image; nothing where the image is empty.
pub open spec fn image_step(image: Seq<char>) -> Option<StepView> {
    let s = text::trim_of(image);
    if s.len() == 0 {
        None
    } else if text::has_prefix(s, "data:"@) {
        let mime = match images::data_url_parts(s) {
            Some((m, _)) => m,
            None => "application/octet-stream"@,
        };
        Some(StepView::Ready(images::file_part(mime, s, "image"@)))
    } else if text::has_prefix(s, "http://"@) || text::has_prefix(s, "https://"@) {
        Some(StepView::Fetch(s))
    } else {
        Some(StepView::ReadImage(s))
    }
}

/// What gives the parts for images.
pub open spec fn image_steps(images: Seq<Seq<char>>) -> Seq<StepView>
    decreases images.len(),
{
    if images.len() == 0 {
        Seq::empty()
    } else {
        match image_step(images.last()) {
            Some(step) => image_steps(images.drop_last()).push(step),
            None => image_steps(images.drop_last()),
        }
    }
}

pub open spec fn opt_step(o: Option<PartStep>) -> Option<StepView> {
    match o {
        Some(s) => Some(s@),
        None => None,
    }
}

fn plan_image(image: &str) -> (r: Option<PartStep>)
    ensures
        opt_step(r) == image_step(image@),
{
    let s: &str = trim(image);
    if s.is_empty() {
        None
    } else if starts_with(s, "data:") {
        let mime: &str = match split_data_url(s) {
            Some((m, _)) => m,
            None => "application/octet-stream",
        };
        Some(PartStep::Ready(build_file_part(mime, s, "image")))
    } else if starts_with(s, "http://") || starts_with(s, "https://") {
        Some(PartStep::Fetch(s.to_owned()))
    } else {
        Some(PartStep::ReadImage(s.to_owned()))
    }
}

fn push_step(steps: &mut Vec<PartStep>, step: PartStep)
    ensures
        step_views(final(steps)@) == step_views(old(steps)@).push(step@),
{
    steps.push(step);
    assert(step_views(steps@) =~= step_views(old(steps)@).push(step@));
}

fn plan_images(steps: &mut Vec<PartStep>, images: &Vec<String>)
    ensures
        step_views(final(steps)@) == step_views(old(steps)@) + image_steps(text::texts(images@)),
{
    let mut i: usize = 0;
    let ghost all = text::texts(images@);
    let ghost start = step_views(steps@);
    assert(start + image_steps(all.take(0)) =~= start);
    while i < images.len()
        invariant
            i <= images@.len(),
            all == text::texts(images@),
            step_views(steps@) == start + image_steps(all.take(i as int)),
        decreases images@.len() - i,
    {
        proof {
            assert(all.take(i + 1).drop_last() =~= all.take(i as int));
            assert(all.take(i + 1).last() == images@[i as int]@);
        }
        if let Some(step) = plan_image(images[i].as_str()) {
            push_step(steps, step);
            assert(step_views(steps@) =~= start + image_steps(all.take(i + 1)));
        }
        i = i + 1;
    }
    assert(all.take(all.len() as int) =~= all);
}

/// A mention of a file: its name and the path behind `app://`; an error where it is none.
pub open spec fn file_mention(mention: JsonView) -> Result<(Seq<char>, Seq<char>), Seq<char>> {
    if mention.as_object() is None {
        Err("invalid app mention payload"@)
    } else {
        match text::trimmed_some(mention.get_str("name"@)) {
            None => Err("invalid app mention name"@),
            Some(name) => match text::trimmed_some(mention.get_str("path"@)) {
                None => Err("invalid app mention path"@),
                Some(path) => match text::after_prefix(path, "app://"@) {
                    Some(rest) => if rest.len() > 0 {
                        Ok((name, rest))
                    } else {
                        Err("invalid app mention path"@)
                    },
                    None => Err("invalid app mention path"@),
                },
            },
        }
    }
}

pub open spec fn result_pair(r: Result<(String, String), String>) -> Result<(Seq<char>, Seq<char>), Seq<char>> {
    match r {
        Ok((a, b)) => Ok((a@, b@)),
        Err(e) => Err(e@),
    }
}

fn read_file_mention(mention: &Json) -> (r: Result<(String, String), String>)
    ensures
        result_pair(r) == file_mention(mention@),
{
    if mention.as_object().is_none() {
        return Err("invalid app mention payload".to_owned());
    }
    let name: &str = match trim_some(mention.get_str("name")) {
        Some(name) => name,
        None => return Err("invalid app mention name".to_owned()),
    };
    let path: &str = match trim_some(mention.get_str("path")) {
        Some(path) => path,
        None => return Err("invalid app mention path".to_owned()),
    };
    match strip_prefix(path, "app://") {
        Some(rest) => if !rest.is_empty() {
            Ok((name.to_owned(), rest.to_owned()))
        } else {
            Err("invalid app mention path".to_owned())
        },
        None => Err("invalid app mention path".to_owned()),
    }
}

/// Whether a path is read by one of the steps.
pub open spec fn reads_path(steps: Seq<StepView>, path: Seq<char>) -> bool {
    exists|i: int|
        0 <= i < steps.len() && ((#[trigger] steps[i]) matches StepView::ReadMention { path: p, .. } && p
            == path)
}

/// What gives the parts for the files that are mentioned: each file once, up to the first mention
/// that is at fault.
pub open spec fn mention_plan(mentions: Seq<JsonView>) -> PlanView
    decreases mentions.len(),
{
    if mentions.len() == 0 {
        PlanView { steps: Seq::empty(), error: None }
    } else {
        let before = mention_plan(mentions.drop_last());
        if before.error is Some {
            before
        } else {
            match file_mention(mentions.last()) {
                Ok((name, path)) => if reads_path(before.steps, path) {
                    before
                } else {
                    PlanView {
                        steps: before.steps.push(StepView::ReadMention { name, path }),
                        error: None,
                    }
                },
                Err(e) => PlanView { steps: before.steps, error: Some(e) },
            }
        }
    }
}

fn has_path(steps: &Vec<PartStep>, path: &str) -> (r: bool)
    ensures
        r == reads_path(step_views(steps@), path@),
{
    let mut i: usize = 0;
    let ghost all = step_views(steps@);
    while i < steps.len()
        invariant
            i <= steps@.len(),
            all == step_views(steps@),
            forall|k: int|
                0 <= k < i ==> !((#[trigger] all[k]) matches StepView::ReadMention { path: p, .. } && p == path@),
        decreases steps@.len() - i,
    {
        if let PartStep::ReadMention { name, path: p } = &steps[i] {
            if str_eq(p.as_str(), path) {
                assert(all[i as int] matches StepView::ReadMention { path: p, .. } && p == path@);
                return true;
            }
        }
        i = i + 1;
    }
    false
}

fn plan_mentions(mentions: &Vec<Json>) -> (r: PromptPlan)
    ensures
        r@ == mention_plan(json::json_views(mentions@)),
{
    let mut steps: Vec<PartStep> = Vec::new();
    let mut i: usize = 0;
    let ghost all = json::json_views(mentions@);
    assert(step_views(steps@) =~= Seq::<StepView>::empty());
    while i < mentions.len()
        invariant
            i <= mentions@.len(),
            all == json::json_views(mentions@),
            mention_plan(all.take(i as int)) == (PlanView { steps: step_views(steps@), error: None }),
        decreases mentions@.len() - i,
    {
        proof {
            assert(all.take(i + 1).drop_last() =~= all.take(i as int));
            assert(all.take(i + 1).last() == all[i as int]);
        }
        match read_file_mention(&mentions[i]) {
            Ok((name, path)) => {
                if !has_path(&steps, path.as_str()) {
                    push_step(&mut steps, PartStep::ReadMention { name, path });
                }
            },
            Err(e) => {
                proof {
                    lemma_mention_error_stays(all, i + 1);
                    assert(all.take(all.len() as int) =~= all);
                }
                return PromptPlan { steps, error: Some(e) };
            },
        }
        i = i + 1;
    }
    assert(all.take(all.len() as int) =~= all);
    PromptPlan { steps, error: None }
}

proof fn lemma_mention_error_stays(mentions: Seq<JsonView>, i: int)
    requires
        0 <= i <= mentions.len(),
        mention_plan(mentions.take(i)).error is Some,
    ensures
        mention_plan(mentions.take(mentions.len() as int)) == mention_plan(mentions.take(i)),
    decreases mentions.len() - i,
{
    if i < mentions.len() {
        assert(mentions.take(i + 1).drop_last() =~= mentions.take(i));
        lemma_mention_error_stays(mentions, i + 1);
    }
}

/// The part that mentions an agent; an error where the mention is at fault.
pub open spec fn agent_mention(mention: JsonView) -> Result<JsonView, Seq<char>> {
    if mention.as_object() is None {
        Err("invalid agent mention payload"@)
    } else {
        match text::trimmed_some(mention.get_str("name"@)) {
            Some(name) => Ok(
                json::obj().and("type"@, JsonView::Text("agent"@)).and("name"@, JsonView::Text(name)),
            ),
            None => Err("invalid agent mention name"@),
        }
    }
}

fn read_agent_mention(mention: &Json) -> (r: Result<Json, String>)
    ensures
        json::result_json(r) == agent_mention(mention@),
{
    if mention.as_object().is_none() {
        return Err("invalid agent mention payload".to_owned());
    }
    match trim_some(mention.get_str("name")) {
        Some(name) => Ok(Json::obj().and("type", Json::text("agent")).and("name", Json::text(name))),
        None => Err("invalid agent mention name".to_owned()),
    }
}

/// What gives the parts for the agents that are mentioned, up to the first mention that is at
/// fault.
pub open spec fn agent_plan(mentions: Seq<JsonView>) -> PlanView
    decreases mentions.len(),
{
    if mentions.len() == 0 {
        PlanView { steps: Seq::empty(), error: None }
    } else {
        let before = agent_plan(mentions.drop_last());
        if before.error is Some {
            before
        } else {
            match agent_mention(mentions.last()) {
                Ok(part) => PlanView { steps: before.steps.push(StepView::Ready(part)), error: None },
                Err(e) => PlanView { steps: before.steps, error: Some(e) },
            }
        }
    }
}

fn plan_agents(mentions: &Vec<Json>) -> (r: PromptPlan)
    ensures
        r@ == agent_plan(json::json_views(mentions@)),
{
    let mut steps: Vec<PartStep> = Vec::new();
    let mut i: usize = 0;
    let ghost all = json::json_views(mentions@);
    assert(step_views(steps@) =~= Seq::<StepView>::empty());
    while i < mentions.len()
        invariant
            i <= mentions@.len(),
            all == json::json_views(mentions@),
            agent_plan(all.take(i as int)) == (PlanView { steps: step_views(steps@), error: None }),
        decreases mentions@.len() - i,
    {
        proof {
            assert(all.take(i + 1).drop_last() =~= all.take(i as int));
            assert(all.take(i + 1).last() == all[i as int]);
        }
        match read_agent_mention(&mentions[i]) {
            Ok(part) => push_step(&mut steps, PartStep::Ready(part)),
            Err(e) => {
                proof {
                    lemma_agent_error_stays(all, i + 1);
                    assert(all.take(all.len() as int) =~= all);
                }
                return PromptPlan { steps, error: Some(e) };
            },
        }
        i = i + 1;
    }
    assert(all.take(all.len() as int) =~= all);
    PromptPlan { steps, error: None }
}

proof fn lemma_agent_error_stays(mentions: Seq<JsonView>, i: int)
    requires
        0 <= i <= mentions.len(),
        agent_plan(mentions.take(i)).error is Some,
    ensures
        agent_plan(mentions.take(mentions.len() as int)) == agent_plan(mentions.take(i)),
    decreases mentions.len() - i,
{
    if i < mentions.len() {
        assert(mentions.take(i + 1).drop_last() =~= mentions.take(i));
        lemma_agent_error_stays(mentions, i + 1);
    }
}

/// One plan behind another; what is behind an error is left out.
pub open spec fn plan_then(a: PlanView, b: PlanView) -> PlanView {
    if a.error is Some {
        a
    } else {
        PlanView { steps: a.steps + b.steps, error: b.error }
    }
}

/// What gives the parts of a prompt: its text, its images, the files and the agents that it
/// mentions. A prompt that gives no part is at fault.
pub open spec fn prompt_plan(
    prompt: Seq<char>,
    images: Option<Seq<Seq<char>>>,
    app_mentions: Option<Seq<JsonView>>,
    agent_mentions: Option<Seq<JsonView>>,
) -> PlanView {
    let trimmed = text::trim_of(prompt);
    let from_text = if trimmed.len() > 0 {
        Seq::empty().push(StepView::Ready(text_part(trimmed)))
    } else {
        Seq::empty()
    };
    let from_images = match images {
        Some(list) => image_steps(list),
        None => Seq::empty(),
    };
    let nothing = PlanView { steps: Seq::empty(), error: None };
    let plan = plan_then(
        plan_then(
            PlanView { steps: from_text + from_images, error: None },
            match app_mentions {
                Some(list) => mention_plan(list),
                None => nothing,
            },
        ),
        match agent_mentions {
            Some(list) => agent_plan(list),
            None => nothing,
        },
    );
    if plan.error is None && plan.steps.len() == 0 {
        PlanView { steps: plan.steps, error: Some("empty user message"@) }
    } else {
        plan
    }
}

pub open spec fn opt_texts(o: Option<Vec<String>>) -> Option<Seq<Seq<char>>> {
    match o {
        Some(v) => Some(text::texts(v@)),
        None => None,
    }
}

pub open spec fn opt_jsons(o: Option<Vec<Json>>) -> Option<Seq<JsonView>> {
    match o {
        Some(v) => Some(json::json_views(v@)),
        None => None,
    }
}

fn append_steps(steps: &mut Vec<PartStep>, more: Vec<PartStep>)
    ensures
        step_views(final(steps)@) == step_views(old(steps)@) + step_views(more@),
{
    let mut more: Vec<PartStep> = more;
    let ghost start = steps@;
    let ghost rest = more@;
    steps.append(&mut more);
    assert(step_views(steps@) =~= step_views(start) + step_views(rest));
}

/// Plans how the parts of a prompt are made.
pub fn plan_prompt_parts(
    prompt: &str,
    images: &Option<Vec<String>>,
    app_mentions: &Option<Vec<Json>>,
    agent_mentions: &Option<Vec<Json>>,
) -> (r: PromptPlan)
    ensures
        r@ == prompt_plan(prompt@, opt_texts(*images), opt_jsons(*app_mentions), opt_jsons(*agent_mentions)),
{
    let ghost goal = prompt_plan(
        prompt@,
        opt_texts(*images),
        opt_jsons(*app_mentions),
        opt_jsons(*agent_mentions),
    );
    let trimmed: &str = trim(prompt);
    let mut steps: Vec<PartStep> = Vec::new();
    assert(step_views(steps@) =~= Seq::<StepView>::empty());
    if !trimmed.is_empty() {
        push_step(&mut steps, PartStep::Ready(build_text_part(trimmed)));
    }
    let ghost from_text = step_views(steps@);
    if let Some(list) = images {
        plan_images(&mut steps, list);
    }
    assert(step_views(steps@) =~= from_text + (match opt_texts(*images) {
        Some(list) => image_steps(list),
        None => Seq::empty(),
    }));
    let ghost first = PlanView { steps: step_views(steps@), error: None };
    let ghost nothing = PlanView { steps: Seq::empty(), error: None };
    if let Some(list) = app_mentions {
        let plan: PromptPlan = plan_mentions(list);
        append_steps(&mut steps, plan.steps);
        if plan.error.is_some() {
            assert(PlanView { steps: step_views(steps@), error: text::opt_string(plan.error) } == goal);
            return PromptPlan { steps, error: plan.error };
        }
    }
    let ghost second = plan_then(
        first,
        match opt_jsons(*app_mentions) {
            Some(list) => mention_plan(list),
            None => nothing,
        },
    );
    assert(second.steps =~= step_views(steps@));
    if let Some(list) = agent_mentions {
        let plan: PromptPlan = plan_agents(list);
        append_steps(&mut steps, plan.steps);
        if plan.error.is_some() {
            assert(PlanView { steps: step_views(steps@), error: text::opt_string(plan.error) } == goal);
            return PromptPlan { steps, error: plan.error };
        }
    }
    let ghost third = plan_then(
        second,
        match opt_jsons(*agent_mentions) {
            Some(list) => agent_plan(list),
            None => nothing,
        },
    );
    assert(third.steps =~= step_views(steps@));
    assert(step_views(steps@).len() == steps@.len());
    if steps.len() == 0 {
        return PromptPlan { steps, error: Some("empty user message".to_owned()) };
    }
    PromptPlan { steps, error: None }
}

/// The part for an image in a file, given the base64 notation of its bytes; a line that names the
/// file where it could not be read.
pub open spec fn local_image_part(
    path: Seq<char>,
    file_name: Option<Seq<char>>,
    encoded: Option<Seq<char>>,
) -> JsonView {
    match encoded {
        Some(e) => images::file_part(
            images::mime_of(path),
            images::data_url(images::mime_of(path), e),
            text::text_or(file_name, "image"@),
        ),
        None => text_part("[image: "@ + path + "]"@),
    }
}

/// The part for an image in a file, given the base64 notation of its bytes.
pub fn build_local_image_part(path: &str, file_name: Option<&str>, encoded: Option<&str>) -> (r: Json)
    ensures
        r@ == local_image_part(path@, text::opt_text(file_name), text::opt_text(encoded)),
{
    match encoded {
        Some(e) => {
            let mime: &str = mime_from_extension(path);
            build_file_part(mime, build_data_url(mime, e).as_str(), str_or(file_name, "image"))
        },
        None => build_text_part(cat3("[image: ", path, "]").as_str()),
    }
}

/// The part for an image in a file, given its bytes where it could be read.
pub fn local_image_as_part(path: &str, file_name: Option<&str>, bytes: &Option<Vec<u8>>) -> (r: Json)
    requires
        bytes matches Some(b) ==> images::encodable(b@.len()),
    ensures
        r@ == local_image_part(
            path@,
            text::opt_text(file_name),
            match bytes {
                Some(b) => Some(images::base64_text(b@)),
                None => None,
            },
        ),
{
    match bytes {
        Some(b) => {
            let encoded: String = base64_encode(b);
            build_local_image_part(path, file_name, Some(encoded.as_str()))
        },
        None => build_local_image_part(path, file_name, None),
    }
}

/// Whether every machine divides a path at its slashes and nowhere else.
pub open spec fn is_portable_path(path: Seq<char>) -> bool {
    &&& !path.contains('\\')
    &&& !path.contains(':')
    &&& !text::has_prefix(path, "//"@)
}

/// The last name of a path that is divided at its slashes. Empty names and `.` do not count, and
/// `..` is no name of a file.
pub open spec fn file_name_of(path: Seq<char>) -> Option<Seq<char>>
    decreases path.len(),
{
    let end = text::last_segment_of(path);
    if end == ".."@ {
        None
    } else if end.len() > 0 && end != "."@ {
        Some(end)
    } else if end.len() < path.len() {
        file_name_of(path.take(path.len() - end.len() - 1))
    } else {
        None
    }
}

/// `std::path::Path::file_name`, as text: the last component of a path, where it is a name. Where
/// else than at slashes a path is divided is left open: it differs between machines.
#[verifier::external_body]
fn path_file_name(path: &str) -> (r: Option<&str>)
    ensures
        is_portable_path(path@) ==> text::opt_text(r) == file_name_of(path@),
{
    std::path::Path::new(path).file_name()?.to_str()
}

/// Whether a part is that of an image in a file, under the name of the file, which the machine
/// finds where not every machine divides the path alike.
pub open spec fn shows_local_image(part: JsonView, path: Seq<char>, encoded: Option<Seq<char>>) -> bool {
    exists|file_name: Option<Seq<char>>|
        {
            &&& part == #[trigger] local_image_part(path, file_name, encoded)
            &&& is_portable_path(path) ==> file_name == file_name_of(path)
        }
}

/// The part for an image in a file, named after it, given its bytes where it could be read.
pub fn build_image_part(path: &str, bytes: &Option<Vec<u8>>) -> (r: Json)
    requires
        bytes matches Some(b) ==> images::encodable(b@.len()),
    ensures
        shows_local_image(
            r@,
            path@,
            match bytes {
                Some(b) => Some(images::base64_text(b@)),
                None => None,
            },
        ),
{
    local_image_as_part(path, path_file_name(path), bytes)
}

/// The part for a file that is mentioned, given its text; a line that names the file where it
/// could not be read.
pub open spec fn mention_part(name: Seq<char>, path: Seq<char>, content: Option<Seq<char>>) -> JsonView {
    match content {
        Some(c) => text_part("--- "@ + name + " ("@ + path + ") ---\n"@ + c),
        None => text_part("[file: "@ + name + " at "@ + path + "]"@),
    }
}

/// The part for a file that is mentioned.
pub fn build_mention_part(name: &str, path: &str, content: Option<&str>) -> (r: Json)
    ensures
        r@ == mention_part(name@, path@, text::opt_text(content)),
{
    match content {
        Some(c) => {
            let head: String = cat(cat3("--- ", name, " (").as_str(), path);
            build_text_part(cat3(head.as_str(), ") ---\n", c).as_str())
        },
        None => {
            let head: String = cat(cat3("[file: ", name, " at ").as_str(), path);
            build_text_part(cat(head.as_str(), "]").as_str())
        },
    }
}

/// Every file is read once: no two steps of a plan for mentions read the same path.
pub proof fn law_mentioned_files_are_read_once(mentions: Seq<JsonView>)
    ensures
        ({
            let steps = mention_plan(mentions).steps;
            forall|i: int, j: int|
                0 <= i < j < steps.len() ==> (#[trigger] steps[i])->path != (#[trigger] steps[j])->path
        }),
        forall|i: int|
            0 <= i < mention_plan(mentions).steps.len() ==> (#[trigger] mention_plan(
                mentions,
            ).steps[i]) is ReadMention,
    decreases mentions.len(),
{
    if mentions.len() > 0 {
        law_mentioned_files_are_read_once(mentions.drop_last());
        let before = mention_plan(mentions.drop_last());
        let after = mention_plan(mentions);
        if after.steps.len() > before.steps.len() {
            let path = after.steps.last()->path;
            assert forall|i: int| 0 <= i < before.steps.len() implies (#[trigger] before.steps[i])->path != path by {
                if before.steps[i]->path == path {
                    assert(before.steps[i] matches StepView::ReadMention { path: p, .. } && p == path);
                }
            }
        }
    }
}

// ---------------------------------------------------------------------------
// The messages and the request of a turn
// ---------------------------------------------------------------------------

/// The identifier of the turn with the given number.
pub open spec fn user_turn_id(n: u64) -> Seq<char> {
    "turn_"@ + text::decimal(n as nat)
}

/// The identifier of the turn with the given number.
pub fn build_user_turn_id(n: u64) -> (r: String)
    ensures
        r@ == user_turn_id(n),
{
    cat("turn_", decimal_text(n).as_str())
}

/// The content that shows an image.
pub open spec fn image_content(value: Seq<char>) -> JsonView {
    json::obj().and("type"@, JsonView::Text("image"@)).and("value"@, JsonView::Text(value))
}

/// The content that shows an image.
pub fn build_image_content(value: &str) -> (r: Json)
    ensures
        r@ == image_content(value@),
{
    Json::obj().and("type", Json::text("image")).and("value", Json::text(value))
}

/// The contents with those that show images behind them; empty images are left out.
pub open spec fn content_with_images(
    content: Seq<JsonView>,
    images: Seq<Seq<char>>,
    stored: Map<Seq<char>, Seq<char>>,
) -> Seq<JsonView>
    decreases images.len(),
{
    if images.len() == 0 {
        content
    } else {
        let before = content_with_images(content, images.drop_last(), stored);
        let s = text::trim_of(images.last());
        if s.len() > 0 {
            before.push(image_content(images::image_value(s, stored)))
        } else {
            before
        }
    }
}

/// The content of the message that shows what the user sent.
pub open spec fn user_content(
    prompt: Seq<char>,
    images: Seq<Seq<char>>,
    stored: Map<Seq<char>, Seq<char>>,
) -> Seq<JsonView> {
    let s = text::trim_of(prompt);
    let from_text = if s.len() > 0 {
        Seq::empty().push(text_part(s))
    } else {
        Seq::empty()
    };
    content_with_images(from_text, images, stored)
}

fn build_user_content(prompt: &str, images: &Vec<String>, stored: &StrMap<String>) -> (r: Vec<Json>)
    ensures
        json::json_views(r@) == user_content(prompt@, text::texts(images@), stored@),
{
    let s: &str = trim(prompt);
    let mut content: Vec<Json> = none();
    if !s.is_empty() {
        push_json(&mut content, build_text_part(s));
    }
    let ghost from_text = json::json_views(content@);
    let ghost all = text::texts(images@);
    let mut i: usize = 0;
    while i < images.len()
        invariant
            i <= images@.len(),
            all == text::texts(images@),
            json::json_views(content@) == content_with_images(from_text, all.take(i as int), stored@),
        decreases images@.len() - i,
    {
        proof {
            assert(all.take(i + 1).drop_last() =~= all.take(i as int));
            assert(all.take(i + 1).last() == images@[i as int]@);
        }
        let s: &str = trim(images[i].as_str());
        if !s.is_empty() {
            push_json(&mut content, build_image_content(frontend_image_value(s, stored).as_str()));
        }
        i = i + 1;
    }
    assert(all.take(all.len() as int) =~= all);
    content
}

/// The start of a turn of the user: the turn is started, and what the user sent is shown under the
/// identifier that the turn's user message has.
pub open spec fn user_turn_started(
    s: StateView,
    thread_id: Seq<char>,
    turn_id: Seq<char>,
    content: Seq<JsonView>,
) -> event_translator::Outcome {
    let s1 = s.start_turn(thread_id, turn_id);
    let started = event_translator::message(
        "turn/started"@,
        event_translator::turn_params(thread_id, turn_id),
    );
    if content.len() == 0 {
        (s1, Seq::empty().push(started))
    } else {
        let (s2, item_id) = s1.user_message_item(thread_id);
        (
            s2,
            Seq::empty().push(started).push(
                event_translator::item_message(
                    "item/completed"@,
                    thread_id,
                    event_translator::user_message_item(item_id, JsonView::Array(content)),
                ),
            ),
        )
    }
}

/// Starts a turn of the user and gives the messages that show it. `stored` holds the paths of the
/// files that keep images, by data URL.
pub fn start_user_turn(
    state: &mut SessionTranslationState,
    thread_id: &str,
    turn_id: &str,
    prompt: &str,
    images: &Vec<String>,
    stored: &StrMap<String>,
) -> (r: Vec<Json>)
    ensures
        (final(state)@, json::json_views(r@)) == user_turn_started(
            old(state)@,
            thread_id@,
            turn_id@,
            user_content(prompt@, text::texts(images@), stored@),
        ),
{
    state.start_turn(thread_id.to_owned(), turn_id.to_owned());
    let mut events: Vec<Json> = none();
    push_json(&mut events, build_turn_started(thread_id, turn_id));
    let content: Vec<Json> = build_user_content(prompt, images, stored);
    assert(json::json_views(content@).len() == content@.len());
    if content.len() > 0 {
        let item_id: String = state.user_message_item(thread_id);
        push_json(
            &mut events,
            build_item_message(
                "item/completed",
                thread_id,
                build_user_message_item(item_id.as_str(), Json::array(content)),
            ),
        );
    }
    events
}

/// The name of the agent in a collaboration mode.
pub open spec fn collaboration_agent(collaboration_mode: Option<JsonView>) -> Option<Seq<char>> {
    text::trimmed_some(json::as_str_of(json::get_of(collaboration_mode, "mode"@)))
}

/// The name of the agent in a collaboration mode.
pub fn collaboration_agent_name_from_payload(collaboration_mode: Option<&Json>) -> (r: Option<String>)
    ensures
        text::opt_string(r) == collaboration_agent(json::opt_json(collaboration_mode)),
{
    owned(trim_some(as_str_in(get_in(collaboration_mode, "mode"))))
}

/// The body of a prompt's request.
pub open spec fn prompt_body(
    parts: Seq<JsonView>,
    model: Option<JsonView>,
    effort: Option<Seq<char>>,
    agent: Option<Seq<char>>,
) -> JsonView {
    let body = json::obj().and("parts"@, JsonView::Array(parts));
    let with_model = match model {
        Some(m) => body.with("model"@, m),
        None => body,
    };
    let with_effort = match effort {
        Some(e) => with_model.with("effort"@, JsonView::Text(e)),
        None => with_model,
    };
    match agent {
        Some(a) => with_effort.with("agent"@, JsonView::Text(a)),
        None => with_effort,
    }
}

/// The body of a prompt's request. A model that is not known is left out: the server then takes
/// its own.
pub fn build_prompt_body(
    parts: Vec<Json>,
    model: Option<Json>,
    effort: &Option<String>,
    collaboration_mode: Option<&Json>,
) -> (r: Json)
    ensures
        r@ == prompt_body(
            json::json_views(parts@),
            json::opt_json_owned(model),
            text::trimmed_some(text::opt_string(*effort)),
            collaboration_agent(json::opt_json(collaboration_mode)),
        ),
{
    let body = Json::obj().and("parts", Json::array(parts));
    let body = match model {
        Some(m) => body.with("model", m),
        None => body,
    };
    let given: Option<&str> = match effort {
        Some(e) => Some(e.as_str()),
        None => None,
    };
    let body = match trim_some(given) {
        Some(e) => body.with("effort", Json::text(e)),
        None => body,
    };
    match collaboration_agent_name_from_payload(collaboration_mode) {
        Some(a) => body.with("agent", Json::text(a.as_str())),
        None => body,
    }
}

/// The answer to a prompt's request: the turn that it started.
pub open spec fn turn_response(turn_id: Seq<char>) -> JsonView {
    json::obj().and("result"@, json::obj().and("turn"@, json::obj().and("id"@, JsonView::Text(turn_id))))
}

/// The answer to a prompt's request: the turn that it started.
pub fn build_turn_response(turn_id: &str) -> (r: Json)
    ensures
        r@ == turn_response(turn_id@),
{
    Json::obj().and("result", Json::obj().and("turn", Json::obj().and("id", Json::text(turn_id))))
}

/// What the user sent is shown under the identifier that later chunks of the same message get, so
/// that they merge with it.
pub proof fn law_sent_message_merges_with_its_echo(
    s: StateView,
    thread_id: Seq<char>,
    turn_id: Seq<char>,
    content: Seq<JsonView>,
    chunk: Seq<char>,
)
    requires
        content.len() > 0,
    ensures
        ({
            let (s1, events) = user_turn_started(s, thread_id, turn_id, content);
            let id = s1.turn(thread_id).user_message_item_id;
            &&& id is Some
            &&& events.len() == 2
            &&& events[1] == event_translator::item_message(
                "item/completed"@,
                thread_id,
                event_translator::user_message_item(id->0, JsonView::Array(content)),
            )
            &&& event_translator::user_chunk(s1, thread_id, chunk).0.turn(thread_id).user_message_item_id == id
        }),
{
}

} // verus!
