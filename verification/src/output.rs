use crate::text::{char_is_whitespace, chars_of, contains, find, spells, trim_start_spec};
use vstd::prelude::*;
use vstd::string::*;

verus! {

/// The forms in which a transcript is written out.
#[derive(Clone, Copy, PartialEq, Eq, Structural, Debug)]
pub enum OutputFormat {
    Json,
    Srt,
    Text,
    Markdown,
}

/// `s` in lower case, as `str::to_lowercase` of std gives it.
pub uninterp spec fn lowercase(s: Seq<char>) -> Seq<char>;

/// `str::to_lowercase` of std. The result is named by `lowercase`: which
/// character is the lower case of which is a table of the Unicode standard.
#[verifier::external_body]
fn to_lowercase(s: &str) -> (lower: String)
    ensures
        lower@ == lowercase(s@),
{
    s.to_lowercase()
}

/// The format that the name `lower`, given in lower case, stands for.
pub open spec fn format_named(lower: Seq<char>) -> Option<OutputFormat> {
    if lower == "json"@ {
        Some(OutputFormat::Json)
    } else if lower == "srt"@ {
        Some(OutputFormat::Srt)
    } else if lower == "text"@ || lower == "txt"@ {
        Some(OutputFormat::Text)
    } else if lower == "markdown"@ || lower == "md"@ {
        Some(OutputFormat::Markdown)
    } else {
        None
    }
}

/// The format that a name in lower case stands for: `json`, `srt`, `text`
/// or `txt`, `markdown` or `md`.
pub fn format_from_lowercase(lower: &str) -> (format: Option<OutputFormat>)
    ensures
        format == format_named(lower@),
{
    let chars = chars_of(lower);
    let s = chars.as_slice();
    if spells(s, "json") {
        Some(OutputFormat::Json)
    } else if spells(s, "srt") {
        Some(OutputFormat::Srt)
    } else if spells(s, "text") || spells(s, "txt") {
        Some(OutputFormat::Text)
    } else if spells(s, "markdown") || spells(s, "md") {
        Some(OutputFormat::Markdown)
    } else {
        None
    }
}

/// The format that `name` stands for, in whatever case it is written.
pub fn parse_format(name: &str) -> (format: Option<OutputFormat>)
    ensures
        format == format_named(lowercase(name@)),
{
    let lower = to_lowercase(name);
    format_from_lowercase(lower.as_str())
}

/// The extension of a file in the format `format`; `txt` where the format
/// is not known.
pub open spec fn extension_spec(format: Option<OutputFormat>) -> Seq<char> {
    match format {
        Some(OutputFormat::Json) => "json"@,
        Some(OutputFormat::Srt) => "srt"@,
        Some(OutputFormat::Markdown) => "md"@,
        Some(OutputFormat::Text) => "txt"@,
        None => "txt"@,
    }
}

/// The extension of a file in the format `format`.
pub fn extension(format: Option<OutputFormat>) -> (ext: &'static str)
    ensures
        ext@ == extension_spec(format),
{
    match format {
        Some(OutputFormat::Json) => "json",
        Some(OutputFormat::Srt) => "srt",
        Some(OutputFormat::Markdown) => "md",
        Some(OutputFormat::Text) => "txt",
        None => "txt",
    }
}

/// The name of the file with the stem `stem` and the extension `ext`.
pub fn file_name(stem: &str, ext: &str) -> (name: String)
    ensures
        name@ == stem@ + "."@ + ext@,
{
    let mut name = String::from_str(stem);
    name.append(".");
    name.append(ext);
    name
}

/// The name of the file for one video of a playlist, where the caller named
/// one file for all: the stem, `_`, the video, `.`, the extension.
pub fn file_name_for_video(stem: &str, video_id: &str, ext: &str) -> (name: String)
    ensures
        name@ == stem@ + "_"@ + video_id@ + "."@ + ext@,
{
    let mut name = String::from_str(stem);
    name.append("_");
    name.append(video_id);
    name.append(".");
    name.append(ext);
    name
}

/// The address of the watch page of the video `video_id`.
pub fn watch_url(video_id: &str) -> (url: String)
    ensures
        url@ == "https://www.youtube.com/watch?v="@ + video_id@,
{
    let mut url = String::from_str("https://www.youtube.com/watch?v=");
    url.append(video_id);
    url
}

/// How many of `available` videos are worked on under the limit `max`.
pub fn videos_to_process(available: usize, max: Option<usize>) -> (n: usize)
    ensures
        n == match max {
            Some(m) => if m < available {
                m
            } else {
                available
            },
            None => available,
        },
{
    match max {
        Some(m) => if m < available {
            m
        } else {
            available
        },
        None => available,
    }
}

/// Where a transcript goes, and after what its file is named.
#[derive(Clone, Copy, PartialEq, Eq, Structural, Debug)]
pub enum Naming {
    /// To the standard output.
    Stdout,
    /// To the path that was given, as it is.
    AsGiven,
    /// Into the directory that was given, named after the title.
    TitleInDirectory,
    /// Into the directory that was given, named after the video.
    VideoInDirectory,
    /// Beside the file that was given, named after its stem and the video.
    BesideGiven,
    /// Into the working directory, named after the title.
    TitleHere,
    /// Into the working directory, named after the video.
    VideoHere,
}

/// Where the transcript of one video goes. With a path given: into it, where
/// it is a directory, under the title if names by title are wanted, else
/// under the video if a playlist is worked on; a path that is no directory
/// is taken as it is, but for a playlist, whose videos get files of their
/// own beside it. With no path given: a file named by title if that is
/// wanted, a file named by video for a playlist, else the standard output.
pub open spec fn naming_spec(
    output_given: bool,
    is_directory: bool,
    by_title: bool,
    in_playlist: bool,
) -> Naming {
    if output_given {
        if is_directory && by_title {
            Naming::TitleInDirectory
        } else if is_directory && in_playlist {
            Naming::VideoInDirectory
        } else if in_playlist {
            Naming::BesideGiven
        } else {
            Naming::AsGiven
        }
    } else if by_title {
        Naming::TitleHere
    } else if in_playlist {
        Naming::VideoHere
    } else {
        Naming::Stdout
    }
}

/// Chooses where the transcript of one video goes.
pub fn choose_naming(output_given: bool, is_directory: bool, by_title: bool, in_playlist: bool) -> (n:
    Naming)
    ensures
        n == naming_spec(output_given, is_directory, by_title, in_playlist),
{
    if output_given {
        if is_directory && by_title {
            Naming::TitleInDirectory
        } else if is_directory && in_playlist {
            Naming::VideoInDirectory
        } else if in_playlist {
            Naming::BesideGiven
        } else {
            Naming::AsGiven
        }
    } else if by_title {
        Naming::TitleHere
    } else if in_playlist {
        Naming::VideoHere
    } else {
        Naming::Stdout
    }
}

/// One cue as it is written out: its text, and its start in seconds
/// written with two decimals.
#[derive(Debug, PartialEq, Eq)]
pub struct Line {
    pub text: String,
    pub stamp: String,
}

/// The texts of `lines`, with one space between each two.
pub open spec fn joined_texts(lines: Seq<Line>) -> Seq<char>
    decreases lines.len(),
{
    if lines.len() == 0 {
        Seq::empty()
    } else if lines.len() == 1 {
        lines[0].text@
    } else {
        joined_texts(lines.drop_last()) + " "@ + lines.last().text@
    }
}

/// The whole transcript as one text, the cues one space apart.
pub fn join_texts(lines: &[Line]) -> (text: String)
    ensures
        text@ == joined_texts(lines@),
{
    let mut text = String::new();
    let mut i: usize = 0;
    while i < lines.len()
        invariant
            i <= lines.len(),
            text@ == joined_texts(lines@.take(i as int)),
        decreases lines.len() - i,
    {
        assert(lines@.take(i as int + 1).drop_last() == lines@.take(i as int));
        if i > 0 {
            text.append(" ");
        }
        text.append(lines[i].text.as_str());
        i += 1;
        assert(text@ =~= joined_texts(lines@.take(i as int)));
    }
    assert(lines@.take(lines.len() as int) == lines@);
    text
}

/// The line that names the video above a plain transcript: the title, a
/// colon, the address, and an empty line. Nothing unless both are given.
pub open spec fn text_header(url: Option<Seq<char>>, title: Option<Seq<char>>) -> Seq<char> {
    match (url, title) {
        (Some(u), Some(t)) => t + ": "@ + u + "\n\n"@,
        _ => Seq::empty(),
    }
}

/// One cue of a plain transcript: with times, `[`, the start, `s] ` and the
/// text; without, the text alone.
pub open spec fn text_line(line: Line, timestamps: bool) -> Seq<char> {
    if timestamps {
        "["@ + line.stamp@ + "s] "@ + line.text@ + "\n"@
    } else {
        line.text@ + "\n"@
    }
}

/// The cues of a plain transcript, one line each.
pub open spec fn text_lines(lines: Seq<Line>, timestamps: bool) -> Seq<char>
    decreases lines.len(),
{
    if lines.len() == 0 {
        Seq::empty()
    } else {
        text_lines(lines.drop_last(), timestamps) + text_line(lines.last(), timestamps)
    }
}

/// The plain transcript: the header, then one line for each cue.
pub open spec fn text_spec(
    lines: Seq<Line>,
    timestamps: bool,
    url: Option<Seq<char>>,
    title: Option<Seq<char>>,
) -> Seq<char> {
    text_header(url, title) + text_lines(lines, timestamps)
}

/// The view of a text that may be missing.
pub open spec fn view_of(s: Option<&str>) -> Option<Seq<char>> {
    match s {
        Some(s) => Some(s@),
        None => None,
    }
}

/// Writes the transcript as plain text.
pub fn render_text(lines: &[Line], timestamps: bool, url: Option<&str>, title: Option<&str>) -> (out:
    String)
    ensures
        out@ == text_spec(lines@, timestamps, view_of(url), view_of(title)),
{
    let mut out = String::new();
    match (url, title) {
        (Some(u), Some(t)) => {
            out.append(t);
            out.append(": ");
            out.append(u);
            out.append("\n\n");
            assert(out@ =~= text_header(view_of(url), view_of(title)));
        },
        _ => {},
    }
    let ghost head = out@;
    let mut i: usize = 0;
    assert(out@ =~= head + text_lines(lines@.take(0), timestamps));
    while i < lines.len()
        invariant
            i <= lines.len(),
            out@ == head + text_lines(lines@.take(i as int), timestamps),
        decreases lines.len() - i,
    {
        assert(lines@.take(i as int + 1).drop_last() == lines@.take(i as int));
        if timestamps {
            out.append("[");
            out.append(lines[i].stamp.as_str());
            out.append("s] ");
        }
        out.append(lines[i].text.as_str());
        out.append("\n");
        i += 1;
        assert(out@ =~= head + text_lines(lines@.take(i as int), timestamps));
    }
    assert(lines@.take(lines.len() as int) == lines@);
    out
}

/// The link that names the video above a transcript in Markdown, and an
/// empty line. Nothing unless both are given.
pub open spec fn markdown_link(url: Option<Seq<char>>, title: Option<Seq<char>>) -> Seq<char> {
    match (url, title) {
        (Some(u), Some(t)) => "!["@ + t + "]("@ + u + ")\n\n"@,
        _ => Seq::empty(),
    }
}

/// The heading of a transcript in Markdown, and an empty line.
pub open spec fn heading() -> Seq<char> {
    "# Transcript\n\n"@
}

/// Whether `text` is written in Markdown already: it holds a `*` or `##`.
pub open spec fn has_markup(text: Seq<char>) -> bool {
    contains(text, "**"@) || contains(text, "##"@) || contains(text, "*"@)
}

/// Whether `text` begins, after its leading white space, with `#`.
pub open spec fn begins_with_heading(text: Seq<char>) -> bool {
    trim_start_spec(text).len() > 0 && trim_start_spec(text)[0] == '#'
}

/// One cue of a transcript in Markdown, with the empty line after it.
pub open spec fn markdown_line(line: Line, timestamps: bool) -> Seq<char> {
    if timestamps {
        "**["@ + line.stamp@ + "s]** "@ + line.text@ + "\n\n"@
    } else {
        line.text@ + "\n\n"@
    }
}

/// The cues of a transcript in Markdown, one after another.
pub open spec fn markdown_lines(lines: Seq<Line>, timestamps: bool) -> Seq<char>
    decreases lines.len(),
{
    if lines.len() == 0 {
        Seq::empty()
    } else {
        markdown_lines(lines.drop_last(), timestamps) + markdown_line(lines.last(), timestamps)
    }
}

/// The transcript in Markdown. A single cue that is written in Markdown
/// already is put out as it is, under the heading unless it begins with one
/// of its own. Else the heading comes first, then each cue with an empty
/// line after it.
pub open spec fn markdown_spec(
    lines: Seq<Line>,
    timestamps: bool,
    url: Option<Seq<char>>,
    title: Option<Seq<char>>,
) -> Seq<char> {
    markdown_link(url, title) + if lines.len() == 1 && has_markup(lines[0].text@) {
        if begins_with_heading(lines[0].text@) {
            lines[0].text@ + "\n"@
        } else {
            heading() + lines[0].text@ + "\n"@
        }
    } else {
        heading() + markdown_lines(lines, timestamps)
    }
}

fn holds(text: &[char], pattern: &str) -> (b: bool)
    ensures
        b == contains(text@, pattern@),
{
    let p = chars_of(pattern);
    find(text, p.as_slice()).is_some()
}

fn starts_heading(text: &[char]) -> (b: bool)
    ensures
        b == begins_with_heading(text@),
{
    let mut from: usize = 0;
    assert(text@.skip(0) == text@);
    while from < text.len() && char_is_whitespace(text[from])
        invariant
            from <= text.len(),
            trim_start_spec(text@) == trim_start_spec(text@.skip(from as int)),
        decreases text.len() - from,
    {
        assert(text@.skip(from as int).skip(1) == text@.skip(from as int + 1));
        from += 1;
    }
    from < text.len() && text[from] == '#'
}

/// Writes the transcript in Markdown.
pub fn render_markdown(
    lines: &[Line],
    timestamps: bool,
    url: Option<&str>,
    title: Option<&str>,
) -> (out: String)
    ensures
        out@ == markdown_spec(lines@, timestamps, view_of(url), view_of(title)),
{
    let mut out = String::new();
    match (url, title) {
        (Some(u), Some(t)) => {
            out.append("![");
            out.append(t);
            out.append("](");
            out.append(u);
            out.append(")\n\n");
            assert(out@ =~= markdown_link(view_of(url), view_of(title)));
        },
        _ => {},
    }
    let ghost link = out@;
    if lines.len() == 1 {
        let text = chars_of(lines[0].text.as_str());
        let s = text.as_slice();
        if holds(s, "**") || holds(s, "##") || holds(s, "*") {
            if !starts_heading(s) {
                out.append("# Transcript\n\n");
            }
            out.append(lines[0].text.as_str());
            out.append("\n");
            assert(out@ =~= markdown_spec(lines@, timestamps, view_of(url), view_of(title)));
            return out;
        }
    }
    out.append("# Transcript\n\n");
    let ghost head = out@;
    let mut i: usize = 0;
    assert(out@ =~= head + markdown_lines(lines@.take(0), timestamps));
    while i < lines.len()
        invariant
            i <= lines.len(),
            out@ == head + markdown_lines(lines@.take(i as int), timestamps),
        decreases lines.len() - i,
    {
        assert(lines@.take(i as int + 1).drop_last() == lines@.take(i as int));
        if timestamps {
            out.append("**[");
            out.append(lines[i].stamp.as_str());
            out.append("s]** ");
        }
        out.append(lines[i].text.as_str());
        out.append("\n\n");
        i += 1;
        assert(out@ =~= head + markdown_lines(lines@.take(i as int), timestamps));
    }
    assert(lines@.take(lines.len() as int) == lines@);
    assert(out@ =~= markdown_spec(lines@, timestamps, view_of(url), view_of(title)));
    out
}

} // verus!
