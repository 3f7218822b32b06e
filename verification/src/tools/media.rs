//! The media reading tool: which files it takes for the current model, the limits it keeps,
//! and the image and video results it hands to the model.
use vstd::prelude::*;

use base64::Engine;

use crate::config::ModelCapability;
use crate::file_type::FileKind;
use crate::message::{part_view, parts_view, ContentPart};
use crate::flow::mermaid::{find_seq, find_seq_at, lines_spec, lines_vec};
use crate::text::{decimal, format_usize, owned, push_str, str_chars, vv};
use crate::tools::file::{quoted, quoted_path, MAX_MEDIA_MEGABYTES};
use crate::tools::utils::{replace_all, replace_spec};
use crate::tools::{
    blocks_view, brief_blocks, error_view, output_parts, ret_view, tool_error, SkipThisTool, ToolOutput,
    ToolReturnValue,
};
use crate::utils::media_tags::{shown_attrs, tag_text, wrap_media_part, attrs_view};

verus! {

/// The arguments of the media reading tool.
pub struct ReadMediaParams {
    pub path: String,
}

fn has_capability(caps: &Vec<ModelCapability>, c: ModelCapability) -> (r: bool)
    ensures
        r == caps@.contains(c),
{
    let mut i: usize = 0;
    while i < caps.len()
        invariant
            i <= caps@.len(),
            forall|k: int| 0 <= k < i ==> caps@[k] != c,
        decreases caps@.len() - i,
    {
        if caps[i] == c {
            assert(caps@[i as int] == c);
            return true;
        }
        i = i + 1;
    }
    false
}

/// The tool exists only for a model that takes images or videos.
pub fn read_media_available(caps: &Vec<ModelCapability>) -> (r: Result<(), SkipThisTool>)
    ensures
        r is Ok <==> caps@.contains(ModelCapability::ImageIn) || caps@.contains(ModelCapability::VideoIn),
{
    if !has_capability(caps, ModelCapability::ImageIn) && !has_capability(caps, ModelCapability::VideoIn) {
        Err(SkipThisTool)
    } else {
        Ok(())
    }
}

/// The refusal for a file of a kind the tool or the model does not take, by the path the
/// model gave.
pub open spec fn kind_refusal(path: Seq<char>, kind: FileKind, caps: Seq<ModelCapability>) -> Option<(Seq<char>, Seq<char>)> {
    match kind {
        FileKind::Text => Some((quoted_path(path, " is a text file. Use ReadFile to read text files."@), "Unsupported file type"@)),
        FileKind::Unknown => Some((
            quoted_path(
                path,
                " seems not readable as an image or video file. You may need to read it with proper shell commands, Python tools or MCP tools if available. If you read/operate it with Python, you MUST ensure that any third-party packages are installed in a virtual environment (venv)."@,
            ),
            "File not readable"@,
        )),
        FileKind::Image => if caps.contains(ModelCapability::ImageIn) {
            None
        } else {
            Some((
                "The current model does not support image input. Tell the user to use a model with image input capability."@,
                "Unsupported media type"@,
            ))
        },
        FileKind::Video => if caps.contains(ModelCapability::VideoIn) {
            None
        } else {
            Some((
                "The current model does not support video input. Tell the user to use a model with video input capability."@,
                "Unsupported media type"@,
            ))
        },
    }
}

/// Refuses a text file, a file of unknown kind, or media the model cannot take.
pub fn check_media_kind(path: &str, kind: FileKind, caps: &Vec<ModelCapability>) -> (r: Option<ToolReturnValue>)
    ensures
        match kind_refusal(path@, kind, caps@) {
            Some((m, b)) => r matches Some(v) && ret_view(v) == error_view(""@, m, b),
            None => r is None,
        },
{
    match kind {
        FileKind::Text => {
            let m = quoted(path, " is a text file. Use ReadFile to read text files.");
            Some(tool_error("", m.as_str(), "Unsupported file type"))
        },
        FileKind::Unknown => {
            let m = quoted(
                path,
                " seems not readable as an image or video file. You may need to read it with proper shell commands, Python tools or MCP tools if available. If you read/operate it with Python, you MUST ensure that any third-party packages are installed in a virtual environment (venv).",
            );
            Some(tool_error("", m.as_str(), "File not readable"))
        },
        FileKind::Image => {
            if has_capability(caps, ModelCapability::ImageIn) {
                None
            } else {
                Some(
                    tool_error(
                        "",
                        "The current model does not support image input. Tell the user to use a model with image input capability.",
                        "Unsupported media type",
                    ),
                )
            }
        },
        FileKind::Video => {
            if has_capability(caps, ModelCapability::VideoIn) {
                None
            } else {
                Some(
                    tool_error(
                        "",
                        "The current model does not support video input. Tell the user to use a model with video input capability.",
                        "Unsupported media type",
                    ),
                )
            }
        },
    }
}

/// The largest media file the tool reads, in bytes.
pub open spec fn max_media_bytes() -> nat {
    (MAX_MEDIA_MEGABYTES as nat) * 1048576
}

/// Refuses an empty file, or one larger than the limit for media.
pub fn check_media_size(path: &str, size: usize) -> (r: Option<ToolReturnValue>)
    ensures
        size == 0 ==> (r matches Some(v) && ret_view(v) == error_view(""@, quoted_path(path@, " is empty."@), "Empty file"@)),
        size > max_media_bytes() ==> (r matches Some(v) && ret_view(v) == error_view(
            ""@,
            quoted_path(path@, " is "@ + decimal(size as nat) + " bytes, which exceeds the max "@ + decimal(MAX_MEDIA_MEGABYTES as nat)
                + "MB bytes for media files."@),
            "File too large"@,
        )),
        0 < size <= max_media_bytes() ==> r is None,
{
    if size == 0 {
        let m = quoted(path, " is empty.");
        return Some(tool_error("", m.as_str(), "Empty file"));
    }
    let limit: u64 = (MAX_MEDIA_MEGABYTES as u64) * 1048576;
    if (size as u64) > limit {
        let mut m = quoted(path, " is ");
        let n = format_usize(size);
        push_str(&mut m, n.as_str());
        push_str(&mut m, " bytes, which exceeds the max ");
        let mb = format_usize(MAX_MEDIA_MEGABYTES);
        push_str(&mut m, mb.as_str());
        push_str(&mut m, "MB bytes for media files.");
        return Some(tool_error("", m.as_str(), "File too large"));
    }
    None
}

/// The character of the standard Base64 alphabet for a six-bit value.
pub open spec fn base64_digit(v: int) -> char {
    if v < 26 {
        ('A' as int + v) as char
    } else if v < 52 {
        ('a' as int + v - 26) as char
    } else if v < 62 {
        ('0' as int + v - 52) as char
    } else if v == 62 {
        '+'
    } else {
        '/'
    }
}

/// The standard Base64 encoding of bytes, with padding.
pub open spec fn base64_standard(data: Seq<u8>) -> Seq<char>
    decreases data.len(),
{
    if data.len() == 0 {
        Seq::empty()
    } else if data.len() == 1 {
        seq![base64_digit(data[0] as int / 4), base64_digit((data[0] as int % 4) * 16), '=', '=']
    } else if data.len() == 2 {
        seq![
            base64_digit(data[0] as int / 4),
            base64_digit((data[0] as int % 4) * 16 + data[1] as int / 16),
            base64_digit((data[1] as int % 16) * 4),
            '=',
        ]
    } else {
        seq![
            base64_digit(data[0] as int / 4),
            base64_digit((data[0] as int % 4) * 16 + data[1] as int / 16),
            base64_digit((data[1] as int % 16) * 4 + data[2] as int / 64),
            base64_digit(data[2] as int % 64),
        ] + base64_standard(data.skip(3))
    }
}

/// `base64::engine::general_purpose::STANDARD.encode(data)`.
#[verifier::external_body]
fn base64_encode(data: &[u8]) -> (r: String)
    ensures
        r@ == base64_standard(data@),
{
    base64::engine::general_purpose::STANDARD.encode(data)
}

/// A data URL that carries bytes of a MIME type.
pub open spec fn data_url(mime: Seq<char>, data: Seq<u8>) -> Seq<char> {
    "data:"@ + mime + ";base64,"@ + base64_standard(data)
}

/// A data URL for bytes of a MIME type.
pub fn to_data_url(mime_type: &str, data: &[u8]) -> (r: String)
    ensures
        r@ == data_url(mime_type@, data@),
{
    let encoded = base64_encode(data);
    let mut s = owned("data:");
    push_str(&mut s, mime_type);
    push_str(&mut s, ";base64,");
    push_str(&mut s, encoded.as_str());
    s
}

/// The advice every loaded media file comes with.
pub open spec fn media_note() -> Seq<char> {
    " If you need to output coordinates, output relative coordinates first and compute absolute coordinates using the original image size; if you generate or edit images/videos via commands or scripts, read the result back immediately before continuing."@
}

/// The message for a loaded image.
pub open spec fn image_message(path: Seq<char>, mime: Seq<char>, size: nat, dims: Option<(u32, u32)>) -> Seq<char> {
    "Loaded image file `"@ + path + "` ("@ + mime + ", "@ + decimal(size) + " bytes"@ + match dims {
        Some((w, h)) => ", original size "@ + decimal(w as nat) + "x"@ + decimal(h as nat) + "px"@,
        None => Seq::empty(),
    } + ")."@ + media_note()
}

/// The message for a loaded video.
pub open spec fn video_message(path: Seq<char>, mime: Seq<char>, size: nat) -> Seq<char> {
    "Loaded video file `"@ + path + "` ("@ + mime + ", "@ + decimal(size) + " bytes)."@ + media_note()
}

fn path_attrs(path: &str) -> (r: Vec<(String, Option<String>)>)
    ensures
        attrs_view(r@) == seq![("path"@, Some(path@))],
{
    let mut v: Vec<(String, Option<String>)> = Vec::new();
    v.push((owned("path"), Some(owned(path))));
    assert(attrs_view(v@) =~= seq![("path"@, Some(path@))]);
    v
}

proof fn lemma_path_shown(path: Seq<char>)
    ensures
        shown_attrs(seq![("path"@, Some(path))]) == if path.len() > 0 {
            seq![("path"@, path)]
        } else {
            Seq::<(Seq<char>, Seq<char>)>::empty()
        },
{
    let s = seq![("path"@, Some(path))];
    assert(s.drop_last() =~= Seq::<(Seq<char>, Option<Seq<char>>)>::empty());
    assert(s.last() == ("path"@, Some(path)));
    assert(shown_attrs(s.drop_last()) == Seq::<(Seq<char>, Seq<char>)>::empty());
    if path.len() > 0 {
        assert(shown_attrs(seq![("path"@, Some(path))]) =~= seq![("path"@, path)]);
    } else {
        assert(shown_attrs(seq![("path"@, Some(path))]) =~= Seq::<(Seq<char>, Seq<char>)>::empty());
    }
}

/// The result for an image: the image as a data URL between tags that name its path, and a
/// message with its type, size and, when known, its dimensions.
pub fn image_result(path: &str, mime_type: &str, size: usize, data: &[u8], dims: Option<(u32, u32)>) -> (r: ToolReturnValue)
    ensures
        r.extras is None,
        !r.is_error,
        r.message@ == image_message(path@, mime_type@, size as nat, dims),
        blocks_view(r.display@) == brief_blocks(""@),
        output_parts(r.output) == seq![
            (0nat, tag_text("image"@, if path@.len() > 0 { seq![("path"@, path@)] } else { Seq::empty() })),
            (1nat, data_url(mime_type@, data@)),
            (0nat, "</image>"@),
        ],
{
    let url = to_data_url(mime_type, data);
    let part = ContentPart::ImageUrl { url, id: None };
    let attrs = path_attrs(path);
    let ghost pv = part_view(part);
    let (wrapped, shown) = wrap_media_part(part, "image", &attrs);
    proof {
        reveal_strlit("</");
        reveal_strlit(">");
        reveal_strlit("image");
        reveal_strlit("</image>");
        assert("</"@ + "image"@ + ">"@ =~= "</image>"@);
        lemma_path_shown(path@);
        assert(shown@ == (if path@.len() > 0 { seq![("path"@, path@)] } else { Seq::<(Seq<char>, Seq<char>)>::empty() }));
        assert(pv == (1nat, data_url(mime_type@, data@)));
        assert(parts_view(wrapped@) == seq![
            (0nat, tag_text("image"@, if path@.len() > 0 { seq![("path"@, path@)] } else { Seq::empty() })),
            (1nat, data_url(mime_type@, data@)),
            (0nat, "</image>"@),
        ]);
    }
    let mut m = owned("Loaded image file `");
    push_str(&mut m, path);
    push_str(&mut m, "` (");
    push_str(&mut m, mime_type);
    push_str(&mut m, ", ");
    let n = format_usize(size);
    push_str(&mut m, n.as_str());
    push_str(&mut m, " bytes");
    match dims {
        Some((w, h)) => {
            push_str(&mut m, ", original size ");
            let ws = format_usize(w as usize);
            push_str(&mut m, ws.as_str());
            push_str(&mut m, "x");
            let hs = format_usize(h as usize);
            push_str(&mut m, hs.as_str());
            push_str(&mut m, "px");
        },
        None => {},
    }
    push_str(&mut m, ").");
    push_str(
        &mut m,
        " If you need to output coordinates, output relative coordinates first and compute absolute coordinates using the original image size; if you generate or edit images/videos via commands or scripts, read the result back immediately before continuing.",
    );
    tool_ok_parts(wrapped, m.as_str())
}

/// The result for a video: the video part between tags that name its path, and a message
/// with its type and size.
pub fn video_result(path: &str, mime_type: &str, size: usize, video: ContentPart) -> (r: ToolReturnValue)
    ensures
        r.extras is None,
        !r.is_error,
        r.message@ == video_message(path@, mime_type@, size as nat),
        blocks_view(r.display@) == brief_blocks(""@),
        output_parts(r.output) == seq![
            (0nat, tag_text("video"@, if path@.len() > 0 { seq![("path"@, path@)] } else { Seq::empty() })),
            part_view(video),
            (0nat, "</video>"@),
        ],
{
    let attrs = path_attrs(path);
    let (wrapped, shown) = wrap_media_part(video, "video", &attrs);
    proof {
        reveal_strlit("</");
        reveal_strlit(">");
        reveal_strlit("video");
        reveal_strlit("</video>");
        assert("</"@ + "video"@ + ">"@ =~= "</video>"@);
        lemma_path_shown(path@);
    }
    let mut m = owned("Loaded video file `");
    push_str(&mut m, path);
    push_str(&mut m, "` (");
    push_str(&mut m, mime_type);
    push_str(&mut m, ", ");
    let n = format_usize(size);
    push_str(&mut m, n.as_str());
    push_str(&mut m, " bytes).");
    push_str(
        &mut m,
        " If you need to output coordinates, output relative coordinates first and compute absolute coordinates using the original image size; if you generate or edit images/videos via commands or scripts, read the result back immediately before continuing.",
    );
    tool_ok_parts(wrapped, m.as_str())
}

fn tool_ok_parts(parts: Vec<ContentPart>, message: &str) -> (r: ToolReturnValue)
    ensures
        !r.is_error,
        r.message@ == message@,
        blocks_view(r.display@) == brief_blocks(""@),
        output_parts(r.output) == parts_view(parts@),
        r.extras is None,
{
    let display: Vec<crate::tools::DisplayBlock> = Vec::new();
    proof {
        reveal_strlit("");
    }
    assert(blocks_view(display@) =~= brief_blocks(""@));
    ToolReturnValue { is_error: false, output: ToolOutput::Parts(parts), message: owned(message), display, extras: None }
}

/// What the description says of the media the current model takes.
pub open spec fn capability_lines(image: bool, video: bool) -> Seq<char> {
    if image && video {
        "- This tool supports image and video files for the current model."@
    } else if image {
        "- This tool supports image files for the current model.\n- Video files are not supported by the current model."@
    } else if video {
        "- This tool supports video files for the current model.\n- Image files are not supported by the current model."@
    } else {
        "- The current model does not support image or video input."@
    }
}

/// The lines of a template that are kept, each ended by a newline: all but those that open
/// a template tag with `{%`.
pub open spec fn kept_lines(lines: Seq<Seq<char>>) -> Seq<char>
    decreases lines.len(),
{
    if lines.len() == 0 {
        Seq::empty()
    } else {
        kept_lines(lines.drop_last()) + if crate::text::has_prefix(lines.last(), "{%"@) {
            Seq::empty()
        } else {
            lines.last() + "\n"@
        }
    }
}

/// The tool's description for a model: the template with the size limit filled in and its
/// tag lines dropped, ending in its capabilities section, which says what the model takes.
pub open spec fn media_description(template: Seq<char>, max_mb: nat, image: bool, video: bool) -> Seq<char> {
    let desc = replace_spec(template, "${MAX_MEDIA_MEGABYTES}"@, decimal(max_mb));
    let out = kept_lines(lines_spec(desc));
    match find_seq(out, "**Capabilities**\n"@, 0) {
        Some(i) => out.take(i + 17) + capability_lines(image, video) + "\n"@,
        None => out + "**Capabilities**\n"@ + capability_lines(image, video) + "\n"@,
    }
}

/// Writes the tool's description for a model from its template.
pub fn render_read_media_description(template: &str, max_mb: usize, caps: &Vec<ModelCapability>) -> (r: String)
    ensures
        r@ == media_description(
            template@,
            max_mb as nat,
            caps@.contains(ModelCapability::ImageIn),
            caps@.contains(ModelCapability::VideoIn),
        ),
{
    let n = format_usize(max_mb);
    let desc = replace_all(template, "${MAX_MEDIA_MEGABYTES}", n.as_str());
    let image = has_capability(caps, ModelCapability::ImageIn);
    let video = has_capability(caps, ModelCapability::VideoIn);
    let capability = if image && video {
        "- This tool supports image and video files for the current model."
    } else if image {
        "- This tool supports image files for the current model.\n- Video files are not supported by the current model."
    } else if video {
        "- This tool supports video files for the current model.\n- Image files are not supported by the current model."
    } else {
        "- The current model does not support image or video input."
    };
    let dc = str_chars(desc.as_str());
    let lines = lines_vec(dc.as_slice());
    let ghost lv = vv(lines@);
    let mut out: Vec<char> = Vec::new();
    let mut i: usize = 0;
    while i < lines.len()
        invariant
            i <= lines@.len(),
            lv == vv(lines@),
            out@ == kept_lines(lv.take(i as int)),
        decreases lines@.len() - i,
    {
        assert(lv.take(i + 1).drop_last() =~= lv.take(i as int));
        assert(lv[i as int] == lines@[i as int]@);
        if !crate::text::starts_with_str(lines[i].as_slice(), "{%") {
            crate::text::append_chars(&mut out, lines[i].as_slice());
            out.push('\n');
            proof {
                reveal_strlit("\n");
            }
        }
        i = i + 1;
    }
    assert(lv.take(lines@.len() as int) =~= lv);
    let marker = str_chars("**Capabilities**\n");
    proof {
        reveal_strlit("**Capabilities**\n");
        assert(marker@.len() == 17);
    }
    let found = find_seq_at(out.as_slice(), marker.as_slice(), 0);
    let mut result = match found {
        Some(idx) => {
            assert(idx + marker@.len() <= out.len());
            let head = crate::text::slice_chars(out.as_slice(), 0, idx + marker.len());
            crate::text::string_from_chars(head.as_slice())
        },
        None => {
            let mut s = crate::text::string_from_chars(out.as_slice());
            push_str(&mut s, "**Capabilities**\n");
            s
        },
    };
    push_str(&mut result, capability);
    push_str(&mut result, "\n");
    result
}

} // verus!
