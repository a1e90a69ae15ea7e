//! The Feishu interactive card of an actionable signal: headline, key line,
//! confidence line and model first, analysis after a rule.
use vstd::prelude::*;

use crate::json::{
    json_get, json_get_str, json_text, object1, object1_text, object2, object2_text, object3,
    object3_text, quoted, Json,
};
use crate::notification::types::FeishuCardInput;
use crate::text::{int_text, push_i128, push_str, str_eq, string_of};
use crate::timefmt::{datetime_text, datetime_to_string, in_time_range};

verus! {

/// The header colour of a side: green for up, red for down, blue otherwise.
pub open spec fn header_template_of(side: Seq<char>) -> Seq<char> {
    if side == "UP"@ || side == "Up"@ || side == "up"@ {
        "green"@
    } else if side == "DOWN"@ || side == "Down"@ || side == "down"@ {
        "red"@
    } else {
        "blue"@
    }
}

/// The header colour of a side.
pub fn header_template(side: &str) -> (r: &'static str)
    ensures
        r@ == header_template_of(side@),
{
    if str_eq(side, "UP") || str_eq(side, "Up") || str_eq(side, "up") {
        "green"
    } else if str_eq(side, "DOWN") || str_eq(side, "Down") || str_eq(side, "down") {
        "red"
    } else {
        "blue"
    }
}

/// Whole seconds of a TTL, negative TTLs counting as zero.
pub open spec fn ttl_seconds(ttl_ms: int) -> int {
    (if ttl_ms < 0 {
        0
    } else {
        ttl_ms
    }) / 1000
}

/// "key@version".
pub open spec fn model_line(input: FeishuCardInput) -> Seq<char> {
    input.model_key@ + "@"@ + input.model_version@
}

/// "label / side".
pub open spec fn headline(input: FeishuCardInput) -> Seq<char> {
    input.market_label@ + " / "@ + input.side@
}

/// "Limit p | Size s | TTL ns".
pub open spec fn key_line(input: FeishuCardInput) -> Seq<char> {
    "Limit "@ + input.limit_price@ + " | Size "@ + input.suggested_size@ + " | TTL "@ + int_text(
        ttl_seconds(input.ttl_ms as int),
    ) + "s"@
}

/// "Confidence c | Window start - end".
pub open spec fn confidence_line(input: FeishuCardInput) -> Seq<char> {
    "Confidence "@ + input.confidence@ + " | Window "@ + datetime_text(input.window_start as int)
        + " - "@ + datetime_text(input.window_end as int)
}

/// The first screen: bold headline, key line, confidence line, model.
pub open spec fn first_screen(input: FeishuCardInput) -> Seq<char> {
    "**"@ + headline(input) + "**\n"@ + key_line(input) + "\n"@ + confidence_line(input) + "\n"@
        + model_line(input)
}

/// The analysis: reason, model, channel with masked webhook, features.
pub open spec fn analysis(input: FeishuCardInput) -> Seq<char> {
    input.reason@ + "\nModel "@ + model_line(input) + "\nChannel "@ + input.channel.name@ + " ("@
        + input.channel.webhook_url_masked@ + ")\nFeatures "@ + json_text(input.features)
}

/// The card title.
pub open spec fn card_title(input: FeishuCardInput) -> Seq<char> {
    "Polymarket "@ + headline(input)
}

/// A `div` element holding lark markdown `content`.
pub open spec fn is_markdown_div(e: Json, content: Seq<char>) -> bool {
    &&& e is Object
    &&& e->Object_0@.len() == 2
    &&& json_get_str(e, "tag"@) == Some("div"@)
    &&& match json_get(e, "text"@) {
        Some(t) => t is Object && t->Object_0@.len() == 2 && json_get_str(t, "content"@) == Some(
            content,
        ) && json_get_str(t, "tag"@) == Some("lark_md"@),
        None => false,
    }
}

/// The card title object.
pub open spec fn is_title(t: Json, input: FeishuCardInput) -> bool {
    &&& t is Object
    &&& t->Object_0@.len() == 2
    &&& json_get_str(t, "content"@) == Some(card_title(input))
    &&& json_get_str(t, "tag"@) == Some("plain_text"@)
}

/// The card header: colour by side and title.
pub open spec fn is_header(h: Json, input: FeishuCardInput) -> bool {
    &&& h is Object
    &&& h->Object_0@.len() == 2
    &&& json_get_str(h, "template"@) == Some(header_template_of(input.side@))
    &&& match json_get(h, "title"@) {
        Some(t) => is_title(t, input),
        None => false,
    }
}

/// The card configuration: wide screen.
pub open spec fn is_config(c: Json) -> bool {
    &&& c is Object
    &&& c->Object_0@.len() == 1
    &&& json_get(c, "wide_screen_mode"@) == Some(Json::Bool(true))
}

/// The card body: first screen, a rule, the analysis.
pub open spec fn is_elements(e: Json, input: FeishuCardInput) -> bool {
    is_elements_of(e, first_screen(input), analysis(input))
}

/// Three elements: a markdown `first`, a rule, a markdown `rest`.
pub open spec fn is_elements_of(e: Json, first: Seq<char>, rest: Seq<char>) -> bool {
    match e {
        Json::Array(elements) => {
            &&& elements@.len() == 3
            &&& is_markdown_div(elements@[0], first)
            &&& elements@[1] is Object
            &&& elements@[1]->Object_0@.len() == 1
            &&& json_get_str(elements@[1], "tag"@) == Some("hr"@)
            &&& is_markdown_div(elements@[2], rest)
        },
        _ => false,
    }
}

/// The card itself: configuration, elements, header.
pub open spec fn is_card(c: Json, input: FeishuCardInput) -> bool {
    &&& c is Object
    &&& c->Object_0@.len() == 3
    &&& match json_get(c, "config"@) {
        Some(x) => is_config(x),
        None => false,
    }
    &&& match json_get(c, "elements"@) {
        Some(x) => is_elements(x, input),
        None => false,
    }
    &&& match json_get(c, "header"@) {
        Some(x) => is_header(x, input),
        None => false,
    }
}

/// The message of a signal: an interactive message holding the card.
pub open spec fn is_feishu_card(r: Json, input: FeishuCardInput) -> bool {
    &&& r is Object
    &&& r->Object_0@.len() == 2
    &&& json_get_str(r, "msg_type"@) == Some("interactive"@)
    &&& match json_get(r, "card"@) {
        Some(c) => is_card(c, input),
        None => false,
    }
}

/// The text of a `div` of lark markdown.
pub open spec fn markdown_div_text(content: Seq<char>) -> Seq<char> {
    object2_text(
        "tag"@,
        quoted("div"@),
        "text"@,
        object2_text("content"@, quoted(content), "tag"@, quoted("lark_md"@)),
    )
}

/// The whole text of the card message of `input`, each object's fields in key
/// order: the message holds the card and its type; the card its
/// configuration, its elements (the first screen, a rule, the analysis) and
/// its header (colour and title).
pub open spec fn feishu_card_text(input: FeishuCardInput) -> Seq<char> {
    let title = object2_text("content"@, quoted(card_title(input)), "tag"@, quoted("plain_text"@));
    let header = object2_text("template"@, quoted(header_template_of(input.side@)), "title"@, title);
    let config = object1_text("wide_screen_mode"@, seq!['t', 'r', 'u', 'e']);
    let elements = seq!['['] + markdown_div_text(first_screen(input)) + seq![','] + object1_text(
        "tag"@,
        quoted("hr"@),
    ) + seq![','] + markdown_div_text(analysis(input)) + seq![']'];
    object2_text(
        "card"@,
        object3_text("config"@, config, "elements"@, elements, "header"@, header),
        "msg_type"@,
        quoted("interactive"@),
    )
}

/// A `div` of lark markdown.
fn markdown_div(content: String) -> (r: Json)
    ensures
        is_markdown_div(r, content@),
        json_text(r) == markdown_div_text(content@),
{
    proof {
        reveal_strlit("tag");
        reveal_strlit("text");
        reveal_strlit("content");
        assert("tag"@.len() == 3 && "text"@.len() == 4 && "content"@.len() == 7);
    }
    let text = object2("content", Json::Str(content), "tag", Json::string("lark_md"));
    object2("tag", Json::string("div"), "text", text)
}

/// "key@version".
fn model_text(input: &FeishuCardInput) -> (r: String)
    ensures
        r@ == model_line(*input),
{
    let mut model = String::new();
    push_str(&mut model, input.model_key.as_str());
    push_str(&mut model, "@");
    push_str(&mut model, input.model_version.as_str());
    assert(model@ =~= model_line(*input));
    model
}

/// "label / side".
fn headline_text(input: &FeishuCardInput) -> (r: String)
    ensures
        r@ == headline(*input),
{
    let mut head = String::new();
    push_str(&mut head, input.market_label.as_str());
    push_str(&mut head, " / ");
    push_str(&mut head, input.side.as_str());
    assert(head@ =~= headline(*input));
    head
}

/// The first screen of the card.
fn first_screen_text(input: &FeishuCardInput, head: &String, model: &String) -> (r: String)
    requires
        in_time_range(input.window_start as int),
        in_time_range(input.window_end as int),
        head@ == headline(*input),
        model@ == model_line(*input),
    ensures
        r@ == first_screen(*input),
{
    let ttl: i32 = if input.ttl_ms < 0 {
        0
    } else {
        input.ttl_ms
    };
    let ttl_secs: i32 = ttl / 1000;
    let mut first = string_of("**");
    push_str(&mut first, head.as_str());
    push_str(&mut first, "**\n");
    push_str(&mut first, "Limit ");
    push_str(&mut first, input.limit_price.as_str());
    push_str(&mut first, " | Size ");
    push_str(&mut first, input.suggested_size.as_str());
    push_str(&mut first, " | TTL ");
    push_i128(&mut first, ttl_secs as i128);
    push_str(&mut first, "s");
    let ghost key_part = first@;
    push_str(&mut first, "\n");
    push_str(&mut first, "Confidence ");
    push_str(&mut first, input.confidence.as_str());
    push_str(&mut first, " | Window ");
    let start = datetime_to_string(input.window_start);
    push_str(&mut first, start.as_str());
    push_str(&mut first, " - ");
    let end = datetime_to_string(input.window_end);
    push_str(&mut first, end.as_str());
    push_str(&mut first, "\n");
    push_str(&mut first, model.as_str());
    proof {
        assert(ttl_secs as int == ttl_seconds(input.ttl_ms as int));
        assert(key_part =~= "**"@ + headline(*input) + "**\n"@ + key_line(*input));
        assert(first@ =~= first_screen(*input));
    }
    first
}

/// The analysis of the card.
fn analysis_text(input: &FeishuCardInput, model: &String) -> (r: String)
    requires
        model@ == model_line(*input),
    ensures
        r@ == analysis(*input),
{
    let mut text = String::new();
    push_str(&mut text, input.reason.as_str());
    push_str(&mut text, "\nModel ");
    push_str(&mut text, model.as_str());
    push_str(&mut text, "\nChannel ");
    push_str(&mut text, input.channel.name.as_str());
    push_str(&mut text, " (");
    push_str(&mut text, input.channel.webhook_url_masked.as_str());
    push_str(&mut text, ")\nFeatures ");
    input.features.write_text(&mut text);
    assert(text@ =~= analysis(*input));
    text
}

/// The card's elements: the first screen, a rule and the analysis.
fn card_elements(first: String, analysis_body: String) -> (r: Json)
    ensures
        is_elements_of(r, first@, analysis_body@),
        json_text(r) == seq!['['] + markdown_div_text(first@) + seq![','] + object1_text(
            "tag"@,
            quoted("hr"@),
        ) + seq![','] + markdown_div_text(analysis_body@) + seq![']'],
{
    proof {
        reveal_strlit("tag");
        assert("tag"@.len() == 3);
    }
    let mut elements: Vec<Json> = Vec::new();
    elements.push(markdown_div(first));
    elements.push(object1("tag", Json::string("hr")));
    elements.push(markdown_div(analysis_body));
    let ghost items = elements@;
    let r = Json::Array(elements);
    proof {
        assert(crate::json::items_text(items, 1) == json_text(items[0]));
        assert(crate::json::items_text(items, 2) == crate::json::items_text(items, 1) + seq![',']
            + json_text(items[1]));
        assert(crate::json::items_text(items, 3) == crate::json::items_text(items, 2) + seq![',']
            + json_text(items[2]));
        assert(json_text(r) =~= seq!['['] + markdown_div_text(first@) + seq![','] + object1_text(
            "tag"@,
            quoted("hr"@),
        ) + seq![','] + markdown_div_text(analysis_body@) + seq![']']);
    }
    r
}

/// Renders the Feishu card of a signal.
pub fn render_feishu_card(input: &FeishuCardInput) -> (r: Json)
    requires
        in_time_range(input.window_start as int),
        in_time_range(input.window_end as int),
    ensures
        is_feishu_card(r, *input),
        json_text(r) == feishu_card_text(*input),
{
    let model = model_text(input);
    let head = headline_text(input);
    let first = first_screen_text(input, &head, &model);
    let analysis_body = analysis_text(input, &model);
    let mut title = string_of("Polymarket ");
    push_str(&mut title, head.as_str());
    assert(title@ =~= card_title(*input));
    proof {
        reveal_strlit("tag");
        reveal_strlit("msg_type");
        reveal_strlit("card");
        reveal_strlit("config");
        reveal_strlit("elements");
        reveal_strlit("header");
        reveal_strlit("template");
        reveal_strlit("title");
        reveal_strlit("content");
        assert("msg_type"@.len() == 8 && "card"@.len() == 4);
        assert("config"@.len() == 6 && "elements"@.len() == 8 && "header"@.len() == 6);
        assert("config"@[0] == 'c' && "header"@[0] == 'h');
        assert("template"@.len() == 8 && "title"@.len() == 5);
        assert("content"@.len() == 7 && "tag"@.len() == 3);
    }
    let template = header_template(input.side.as_str());
    let title_obj = object2("content", Json::Str(title), "tag", Json::string("plain_text"));
    let header = object2("template", Json::string(template), "title", title_obj);
    let config = object1("wide_screen_mode", Json::Bool(true));
    let elements = card_elements(first, analysis_body);
    let card = object3("config", config, "elements", elements, "header", header);
    let r = object2("card", card, "msg_type", Json::string("interactive"));
    proof {
        assert(json_text(Json::Bool(true)) == seq!['t', 'r', 'u', 'e']);
        assert(json_text(r) == feishu_card_text(*input));
    }
    r
}

} // verus!
