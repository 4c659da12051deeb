//! Message content shared by every dialect: text and images, read from and
//! written to each dialect's JSON shape.

use vstd::prelude::*;
use crate::config::ProviderFormat;
use crate::json::{
    Json, JsonView, get_str, jget, jstr, lemma_views, member_views, push_element, push_member, views,
};
use crate::proxy::convert::{parse_data_url, parse_data_url_spec, to_data_url};
use crate::text::{chars_of, has_prefix, starts_with_exec, str_eq};

verus! {

/// Where an image's bytes are: inline base64, or a URL.
pub enum ImageData {
    Base64(String),
    Url(String),
}

/// One piece of message content.
pub enum ContentPart {
    Text(String),
    Image { mime: Option<String>, data: ImageData },
}

/// An image location by value.
pub enum ImageDataView {
    Base64(Seq<char>),
    Url(Seq<char>),
}

/// A content part by value.
pub enum PartView {
    Text(Seq<char>),
    Image { mime: Option<Seq<char>>, data: ImageDataView },
}

/// An optional string by value.
pub open spec fn opt_chars(o: Option<String>) -> Option<Seq<char>> {
    match o {
        Some(s) => Some(s@),
        None => None,
    }
}

impl ContentPart {
    pub open spec fn view(&self) -> PartView {
        match self {
            ContentPart::Text(s) => PartView::Text(s@),
            ContentPart::Image { mime, data } => PartView::Image {
                mime: opt_chars(*mime),
                data: match data {
                    ImageData::Base64(d) => ImageDataView::Base64(d@),
                    ImageData::Url(u) => ImageDataView::Url(u@),
                },
            },
        }
    }
}

/// The views of a list of parts.
pub open spec fn part_views(v: Seq<ContentPart>) -> Seq<PartView> {
    v.map_values(|p: ContentPart| p.view())
}

/// An optional part by value.
pub open spec fn opt_part(o: Option<ContentPart>) -> Option<PartView> {
    match o {
        Some(p) => Some(p.view()),
        None => None,
    }
}

// ---------------------------------------------------------------------------
// Reading parts
// ---------------------------------------------------------------------------

/// A Gemini part: `text`, else `inlineData` (which needs `data`), else
/// `fileData` (which needs `fileUri`); anything else is skipped.
pub open spec fn google_part(p: JsonView) -> Option<PartView> {
    match get_str(p, "text"@) {
        Some(t) => Some(PartView::Text(t)),
        None => match jget(p, "inlineData"@) {
            Some(inline) => match get_str(inline, "data"@) {
                Some(d) => Some(PartView::Image { mime: get_str(inline, "mimeType"@), data: ImageDataView::Base64(d) }),
                None => None,
            },
            None => match jget(p, "fileData"@) {
                Some(file) => match get_str(file, "fileUri"@) {
                    Some(u) => Some(PartView::Image { mime: get_str(file, "mimeType"@), data: ImageDataView::Url(u) }),
                    None => None,
                },
                None => None,
            },
        },
    }
}

/// An image given by URL: a data URL splits into MIME type and base64
/// payload; any other URL is kept as is.
pub open spec fn url_image(url: Seq<char>) -> PartView {
    match parse_data_url_spec(url) {
        Some((m, d)) => PartView::Image { mime: Some(m), data: ImageDataView::Base64(d) },
        None => PartView::Image { mime: None, data: ImageDataView::Url(url) },
    }
}

/// An OpenAI part: `text` parts and `image_url` parts; anything else is
/// skipped.
pub open spec fn openai_part(p: JsonView) -> Option<PartView> {
    match get_str(p, "type"@) {
        Some(t) => if t == "text"@ {
            match get_str(p, "text"@) {
                Some(s) => Some(PartView::Text(s)),
                None => None,
            }
        } else if t == "image_url"@ {
            match jget(p, "image_url"@) {
                Some(u) => match get_str(u, "url"@) {
                    Some(url) => Some(url_image(url)),
                    None => None,
                },
                None => None,
            }
        } else {
            None
        },
        None => None,
    }
}

/// An Anthropic block: `text` blocks, and `image` blocks with a `base64` or
/// `url` source; anything else is skipped.
pub open spec fn anthropic_part(p: JsonView) -> Option<PartView> {
    match get_str(p, "type"@) {
        Some(t) => if t == "text"@ {
            match get_str(p, "text"@) {
                Some(s) => Some(PartView::Text(s)),
                None => None,
            }
        } else if t == "image"@ {
            match jget(p, "source"@) {
                Some(src) => match get_str(src, "type"@) {
                    Some(st) => if st == "base64"@ {
                        match get_str(src, "data"@) {
                            Some(d) => Some(PartView::Image { mime: get_str(src, "media_type"@), data: ImageDataView::Base64(d) }),
                            None => None,
                        }
                    } else if st == "url"@ {
                        match get_str(src, "url"@) {
                            Some(u) => Some(PartView::Image { mime: None, data: ImageDataView::Url(u) }),
                            None => None,
                        }
                    } else {
                        None
                    },
                    None => None,
                },
                None => None,
            }
        } else {
            None
        },
        None => None,
    }
}

/// The URL of a Responses `input_image`: the `image_url` string itself, or
/// its `url` member.
pub open spec fn responses_image_url(p: JsonView) -> Option<Seq<char>> {
    match jget(p, "image_url"@) {
        Some(u) => match jstr(u) {
            Some(s) => Some(s),
            None => get_str(u, "url"@),
        },
        None => None,
    }
}

/// A Responses part: `input_text` / `output_text`, and `input_image` (kept
/// as a URL, with the MIME type of a data URL); anything else is skipped.
pub open spec fn responses_part(p: JsonView) -> Option<PartView> {
    match get_str(p, "type"@) {
        Some(t) => if t == "input_text"@ || t == "output_text"@ {
            match get_str(p, "text"@) {
                Some(s) => Some(PartView::Text(s)),
                None => None,
            }
        } else if t == "input_image"@ {
            match responses_image_url(p) {
                Some(url) => Some(PartView::Image {
                    mime: if has_prefix(url, "data:"@) {
                        match parse_data_url_spec(url) {
                            Some((m, _)) => Some(m),
                            None => None,
                        }
                    } else {
                        None
                    },
                    data: ImageDataView::Url(url),
                }),
                None => None,
            }
        } else {
            None
        },
        None => None,
    }
}

/// The part a dialect's content element reads as.
pub open spec fn dialect_part(format: ProviderFormat, p: JsonView) -> Option<PartView> {
    match format {
        ProviderFormat::OpenAI => openai_part(p),
        ProviderFormat::Anthropic => anthropic_part(p),
        ProviderFormat::Google => google_part(p),
        ProviderFormat::Responses => responses_part(p),
    }
}

/// The parts of a content array, skipping elements that are not parts.
pub open spec fn parts_of(format: ProviderFormat, a: Seq<JsonView>) -> Seq<PartView>
    decreases a.len(),
{
    if a.len() == 0 {
        Seq::empty()
    } else {
        let rest = parts_of(format, a.drop_last());
        match dialect_part(format, a.last()) {
            Some(p) => rest.push(p),
            None => rest,
        }
    }
}

/// Message content as parts: a string is one text part, an array its
/// parts, anything else nothing.
pub open spec fn content_parts(format: ProviderFormat, content: JsonView) -> Seq<PartView> {
    match content {
        JsonView::Str(s) => seq![PartView::Text(s)],
        JsonView::Array(a) => parts_of(format, a),
        _ => Seq::empty(),
    }
}

fn google_part_exec(p: &Json) -> (r: Option<ContentPart>)
    ensures
        opt_part(r) == google_part(p.view()),
{
    if let Some(t) = p.get_str("text") {
        return Some(ContentPart::Text(t.to_owned()));
    }
    if let Some(inline) = p.get("inlineData") {
        let mime = match inline.get_str("mimeType") {
            Some(m) => Some(m.to_owned()),
            None => None,
        };
        return match inline.get_str("data") {
            Some(d) => Some(ContentPart::Image { mime, data: ImageData::Base64(d.to_owned()) }),
            None => None,
        };
    }
    if let Some(file) = p.get("fileData") {
        let mime = match file.get_str("mimeType") {
            Some(m) => Some(m.to_owned()),
            None => None,
        };
        return match file.get_str("fileUri") {
            Some(u) => Some(ContentPart::Image { mime, data: ImageData::Url(u.to_owned()) }),
            None => None,
        };
    }
    None
}

fn url_image_exec(url: &str) -> (r: ContentPart)
    ensures
        r.view() == url_image(url@),
{
    match parse_data_url(url) {
        Some((m, d)) => ContentPart::Image { mime: Some(m), data: ImageData::Base64(d) },
        None => ContentPart::Image { mime: None, data: ImageData::Url(url.to_owned()) },
    }
}

fn openai_part_exec(p: &Json) -> (r: Option<ContentPart>)
    ensures
        opt_part(r) == openai_part(p.view()),
{
    let t = match p.get_str("type") {
        Some(t) => t,
        None => return None,
    };
    if str_eq(t, "text") {
        match p.get_str("text") {
            Some(s) => Some(ContentPart::Text(s.to_owned())),
            None => None,
        }
    } else if str_eq(t, "image_url") {
        match p.get("image_url") {
            Some(u) => match u.get_str("url") {
                Some(url) => Some(url_image_exec(url)),
                None => None,
            },
            None => None,
        }
    } else {
        None
    }
}

fn anthropic_part_exec(p: &Json) -> (r: Option<ContentPart>)
    ensures
        opt_part(r) == anthropic_part(p.view()),
{
    let t = match p.get_str("type") {
        Some(t) => t,
        None => return None,
    };
    if str_eq(t, "text") {
        match p.get_str("text") {
            Some(s) => Some(ContentPart::Text(s.to_owned())),
            None => None,
        }
    } else if str_eq(t, "image") {
        let src = match p.get("source") {
            Some(s) => s,
            None => return None,
        };
        let st = match src.get_str("type") {
            Some(st) => st,
            None => return None,
        };
        if str_eq(st, "base64") {
            match src.get_str("data") {
                Some(d) => {
                    let mime = match src.get_str("media_type") {
                        Some(m) => Some(m.to_owned()),
                        None => None,
                    };
                    Some(ContentPart::Image { mime, data: ImageData::Base64(d.to_owned()) })
                },
                None => None,
            }
        } else if str_eq(st, "url") {
            match src.get_str("url") {
                Some(u) => Some(ContentPart::Image { mime: None, data: ImageData::Url(u.to_owned()) }),
                None => None,
            }
        } else {
            None
        }
    } else {
        None
    }
}

fn responses_part_exec(p: &Json) -> (r: Option<ContentPart>)
    ensures
        opt_part(r) == responses_part(p.view()),
{
    let t = match p.get_str("type") {
        Some(t) => t,
        None => return None,
    };
    if str_eq(t, "input_text") || str_eq(t, "output_text") {
        match p.get_str("text") {
            Some(s) => Some(ContentPart::Text(s.to_owned())),
            None => None,
        }
    } else if str_eq(t, "input_image") {
        let url: &str = match p.get("image_url") {
            Some(u) => match u.as_str() {
                Some(s) => s,
                None => match u.get_str("url") {
                    Some(s) => s,
                    None => return None,
                },
            },
            None => return None,
        };
        let uv = chars_of(url);
        let prefix = chars_of("data:");
        let mime = if starts_with_exec(&uv, &prefix) {
            match parse_data_url(url) {
                Some((m, _)) => Some(m),
                None => None,
            }
        } else {
            None
        };
        Some(ContentPart::Image { mime, data: ImageData::Url(url.to_owned()) })
    } else {
        None
    }
}

/// Read one content element of a dialect as a part.
pub fn dialect_part_exec(format: ProviderFormat, p: &Json) -> (r: Option<ContentPart>)
    ensures
        opt_part(r) == dialect_part(format, p.view()),
{
    match format {
        ProviderFormat::OpenAI => openai_part_exec(p),
        ProviderFormat::Anthropic => anthropic_part_exec(p),
        ProviderFormat::Google => google_part_exec(p),
        ProviderFormat::Responses => responses_part_exec(p),
    }
}

/// Read message content of a dialect as parts.
pub fn content_to_parts(format: ProviderFormat, content: &Json) -> (r: Vec<ContentPart>)
    ensures
        part_views(r@) == content_parts(format, content.view()),
{
    let mut out: Vec<ContentPart> = Vec::new();
    match content {
        Json::Str(s) => {
            out.push(ContentPart::Text(s.clone()));
            assert(part_views(out@) =~= seq![PartView::Text(s@)]);
        },
        Json::Array(arr) => {
            proof {
                lemma_views(arr@);
            }
            let ghost a = views(arr@);
            let mut i: usize = 0;
            assert(part_views(out@) =~= Seq::empty());
            while i < arr.len()
                invariant
                    i <= arr@.len(),
                    a == views(arr@),
                    content.view() == JsonView::Array(a),
                    a.len() == arr@.len(),
                    forall|k: int| 0 <= k < arr@.len() ==> #[trigger] a[k] == arr@[k].view(),
                    part_views(out@) == parts_of(format, a.subrange(0, i as int)),
                decreases arr.len() - i,
            {
                assert(a.subrange(0, i + 1).drop_last() =~= a.subrange(0, i as int));
                assert(a.subrange(0, i + 1).last() == arr@[i as int].view());
                match dialect_part_exec(format, &arr[i]) {
                    Some(p) => {
                        let ghost before = out@;
                        out.push(p);
                        assert(part_views(out@) =~= part_views(before).push(out@.last().view()));
                    },
                    None => {},
                }
                i = i + 1;
            }
            assert(a.subrange(0, a.len() as int) =~= a);
        },
        _ => {
            assert(part_views(out@) =~= Seq::empty());
        },
    }
    out
}

// ---------------------------------------------------------------------------
// Writing parts
// ---------------------------------------------------------------------------

/// An object of one member.
pub open spec fn obj1(k: Seq<char>, v: JsonView) -> JsonView {
    JsonView::Object(Seq::empty().push((k, v)))
}

/// An object of two members, in order.
pub open spec fn obj2(k1: Seq<char>, v1: JsonView, k2: Seq<char>, v2: JsonView) -> JsonView {
    JsonView::Object(Seq::empty().push((k1, v1)).push((k2, v2)))
}

/// The URL of an image: a data URL for base64 data with a MIME type, the
/// bare payload without one, or the URL itself.
pub open spec fn image_url_text(mime: Option<Seq<char>>, data: ImageDataView) -> Seq<char> {
    match data {
        ImageDataView::Base64(d) => match mime {
            Some(m) => "data:"@ + m + ";base64,"@ + d,
            None => d,
        },
        ImageDataView::Url(u) => u,
    }
}

/// A part as an OpenAI content element.
pub open spec fn openai_part_json(p: PartView) -> JsonView {
    match p {
        PartView::Text(s) => obj2("type"@, JsonView::Str("text"@), "text"@, JsonView::Str(s)),
        PartView::Image { mime, data } => obj2(
            "type"@,
            JsonView::Str("image_url"@),
            "image_url"@,
            obj1("url"@, JsonView::Str(image_url_text(mime, data))),
        ),
    }
}

/// A part as an Anthropic content block.
pub open spec fn anthropic_part_json(p: PartView) -> JsonView {
    match p {
        PartView::Text(s) => obj2("type"@, JsonView::Str("text"@), "text"@, JsonView::Str(s)),
        PartView::Image { mime, data } => obj2("type"@, JsonView::Str("image"@), "source"@, match data {
            ImageDataView::Base64(d) => {
                let base = Seq::empty().push(("type"@, JsonView::Str("base64"@))).push(("data"@, JsonView::Str(d)));
                JsonView::Object(match mime {
                    Some(m) => base.push(("media_type"@, JsonView::Str(m))),
                    None => base,
                })
            },
            ImageDataView::Url(u) => obj2("type"@, JsonView::Str("url"@), "url"@, JsonView::Str(u)),
        }),
    }
}

/// A part as a Gemini part.
pub open spec fn google_part_json(p: PartView) -> JsonView {
    match p {
        PartView::Text(s) => obj1("text"@, JsonView::Str(s)),
        PartView::Image { mime, data } => match data {
            ImageDataView::Base64(d) => obj1("inlineData"@, JsonView::Object(match mime {
                Some(m) => Seq::empty().push(("data"@, JsonView::Str(d))).push(("mimeType"@, JsonView::Str(m))),
                None => Seq::empty().push(("data"@, JsonView::Str(d))),
            })),
            ImageDataView::Url(u) => obj1("fileData"@, JsonView::Object(match mime {
                Some(m) => Seq::empty().push(("fileUri"@, JsonView::Str(u))).push(("mimeType"@, JsonView::Str(m))),
                None => Seq::empty().push(("fileUri"@, JsonView::Str(u))),
            })),
        },
    }
}

/// The text part type of a Responses input or output.
pub open spec fn responses_text_type(is_input: bool) -> Seq<char> {
    if is_input { "input_text"@ } else { "output_text"@ }
}

/// A part as a Responses content element.
pub open spec fn responses_part_json(p: PartView, is_input: bool) -> JsonView {
    match p {
        PartView::Text(s) => obj2("type"@, JsonView::Str(responses_text_type(is_input)), "text"@, JsonView::Str(s)),
        PartView::Image { mime, data } => obj2(
            "type"@,
            JsonView::Str("input_image"@),
            "image_url"@,
            obj1("url"@, JsonView::Str(image_url_text(mime, data))),
        ),
    }
}

/// A part as a content element of a dialect.
pub open spec fn part_json(format: ProviderFormat, p: PartView) -> JsonView {
    match format {
        ProviderFormat::OpenAI => openai_part_json(p),
        ProviderFormat::Anthropic => anthropic_part_json(p),
        ProviderFormat::Google => google_part_json(p),
        ProviderFormat::Responses => responses_part_json(p, true),
    }
}

/// Parts as message content of a dialect: a lone text part is a plain
/// string (except for Gemini, whose content is always a part list), anything
/// else an array of elements.
pub open spec fn parts_content(format: ProviderFormat, parts: Seq<PartView>) -> JsonView {
    if format != ProviderFormat::Google && parts.len() == 1 && parts[0] is Text {
        JsonView::Str(parts[0]->Text_0)
    } else {
        JsonView::Array(parts.map_values(|p: PartView| part_json(format, p)))
    }
}

pub(crate) fn obj1_exec(k: &str, v: Json) -> (r: Json)
    ensures
        r.view() == obj1(k@, v.view()),
{
    let mut m: Vec<(String, Json)> = Vec::new();
    assert(member_views(m@) =~= Seq::empty());
    push_member(&mut m, k, v);
    Json::object(m)
}

pub(crate) fn obj2_exec(k1: &str, v1: Json, k2: &str, v2: Json) -> (r: Json)
    ensures
        r.view() == obj2(k1@, v1.view(), k2@, v2.view()),
{
    let mut m: Vec<(String, Json)> = Vec::new();
    assert(member_views(m@) =~= Seq::empty());
    push_member(&mut m, k1, v1);
    push_member(&mut m, k2, v2);
    Json::object(m)
}

fn image_url_exec(mime: &Option<String>, data: &ImageData) -> (r: String)
    ensures
        r@ == image_url_text(opt_chars(*mime), match data {
            ImageData::Base64(d) => ImageDataView::Base64(d@),
            ImageData::Url(u) => ImageDataView::Url(u@),
        }),
{
    match data {
        ImageData::Base64(d) => match mime {
            Some(m) => to_data_url(m.as_str(), d.as_str()),
            None => d.clone(),
        },
        ImageData::Url(u) => u.clone(),
    }
}

fn part_json_exec(format: ProviderFormat, p: &ContentPart) -> (r: Json)
    ensures
        r.view() == part_json(format, p.view()),
{
    match p {
        ContentPart::Text(s) => match format {
            ProviderFormat::Google => obj1_exec("text", Json::string(s.as_str())),
            ProviderFormat::Responses => obj2_exec("type", Json::string("input_text"), "text", Json::string(s.as_str())),
            _ => obj2_exec("type", Json::string("text"), "text", Json::string(s.as_str())),
        },
        ContentPart::Image { mime, data } => match format {
            ProviderFormat::OpenAI => {
                let url = image_url_exec(mime, data);
                obj2_exec("type", Json::string("image_url"), "image_url", obj1_exec("url", Json::Str(url)))
            },
            ProviderFormat::Responses => {
                let url = image_url_exec(mime, data);
                obj2_exec("type", Json::string("input_image"), "image_url", obj1_exec("url", Json::Str(url)))
            },
            ProviderFormat::Anthropic => {
                let source = match data {
                    ImageData::Base64(d) => {
                        let mut m: Vec<(String, Json)> = Vec::new();
                        assert(member_views(m@) =~= Seq::empty());
                        push_member(&mut m, "type", Json::string("base64"));
                        push_member(&mut m, "data", Json::string(d.as_str()));
                        if let Some(mt) = mime {
                            push_member(&mut m, "media_type", Json::string(mt.as_str()));
                        }
                        Json::object(m)
                    },
                    ImageData::Url(u) => obj2_exec("type", Json::string("url"), "url", Json::string(u.as_str())),
                };
                obj2_exec("type", Json::string("image"), "source", source)
            },
            ProviderFormat::Google => match data {
                ImageData::Base64(d) => {
                    let mut m: Vec<(String, Json)> = Vec::new();
                    assert(member_views(m@) =~= Seq::empty());
                    push_member(&mut m, "data", Json::string(d.as_str()));
                    if let Some(mt) = mime {
                        push_member(&mut m, "mimeType", Json::string(mt.as_str()));
                    }
                    obj1_exec("inlineData", Json::object(m))
                },
                ImageData::Url(u) => {
                    let mut m: Vec<(String, Json)> = Vec::new();
                    assert(member_views(m@) =~= Seq::empty());
                    push_member(&mut m, "fileUri", Json::string(u.as_str()));
                    if let Some(mt) = mime {
                        push_member(&mut m, "mimeType", Json::string(mt.as_str()));
                    }
                    obj1_exec("fileData", Json::object(m))
                },
            },
        },
    }
}

/// Write parts as message content of a dialect.
pub fn parts_to_content(format: ProviderFormat, parts: &Vec<ContentPart>) -> (r: Json)
    ensures
        r.view() == parts_content(format, part_views(parts@)),
{
    if format != ProviderFormat::Google && parts.len() == 1 {
        if let ContentPart::Text(s) = &parts[0] {
            return Json::string(s.as_str());
        }
    }
    let ghost ps = part_views(parts@);
    let mut out: Vec<Json> = Vec::new();
    let mut i: usize = 0;
    assert(views(out@) =~= Seq::empty());
    while i < parts.len()
        invariant
            i <= parts@.len(),
            ps == part_views(parts@),
            views(out@) == ps.subrange(0, i as int).map_values(|p: PartView| part_json(format, p)),
        decreases parts.len() - i,
    {
        let j = part_json_exec(format, &parts[i]);
        push_element(&mut out, j);
        i = i + 1;
        assert(views(out@) =~= ps.subrange(0, i as int).map_values(|p: PartView| part_json(format, p)));
    }
    assert(ps.subrange(0, ps.len() as int) =~= ps);
    Json::array(out)
}

/// Message content carried from one dialect to another: unchanged within a
/// dialect, else read as parts and written in the target's shape.
pub open spec fn convert_content_spec(content: JsonView, from: ProviderFormat, to: ProviderFormat) -> JsonView {
    if from == to {
        content
    } else {
        parts_content(to, content_parts(from, content))
    }
}

/// Convert message content between dialects.
pub fn convert_message_content(content: &Json, from: ProviderFormat, to: ProviderFormat) -> (r: Json)
    ensures
        r.view() == convert_content_spec(content.view(), from, to),
{
    if from == to {
        return content.deep_clone();
    }
    let parts = content_to_parts(from, content);
    parts_to_content(to, &parts)
}

} // verus!
