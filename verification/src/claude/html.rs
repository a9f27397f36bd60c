//! The standalone HTML page of a session: its fixed parts, and the parts
//! drawn from the session.
use vstd::prelude::*;

use crate::claude::analyzer::SessionStatistics;
use crate::claude::export::{duration_text, escape_html_spec, session_title, title_cut_ok, SessionExporter};
use crate::claude::models::Session;
use crate::daemon::opt_chars;
use crate::foreign::{format_short_date, short_date_text, Timestamp};
use crate::text::{chars_of, decimal, is_white_space, is_white_space_char, owned, push_char, push_decimal, push_str, string_of_range};

verus! {

/// The page up to its title.
pub const HTML_HEAD: &'static str = "<!DOCTYPE html>\n<html lang=\"en\">\n<head>\n  <meta charset=\"UTF-8\">\n  <meta name=\"viewport\" content=\"width=device-width, initial-scale=1.0\">\n  <title>";

/// The page from its title to the heading.
pub const HTML_AFTER_TITLE: &'static str = " - Session</title>\n  <style>\n    :root {\n      --background: 0 0% 100%;\n      --foreground: 240 10% 3.9%;\n      --card: 0 0% 100%;\n      --card-foreground: 240 10% 3.9%;\n      --muted: 240 4.8% 95.9%;\n      --muted-foreground: 240 3.8% 46.1%;\n      --accent: 240 4.8% 95.9%;\n      --accent-foreground: 240 5.9% 10%;\n      --border: 240 5.9% 90%;\n      --input: 240 5.9% 90%;\n      --radius: 0.5rem;\n      --editor-background: 240 10% 4%;\n      --hljs-function: #61afef;\n      --hljs-keyword: #c678dd;\n      --hljs-class: #e5c07b;\n      --hljs-string: #98c379;\n      --hljs-comment: #5c6370;\n      --hljs-number: #d19a66;\n    }\n    @media (prefers-color-scheme: dark) {\n      :root {\n        --background: 240 10% 3.9%;\n        --foreground: 0 0% 98%;\n        --card: 240 10% 3.9%;\n        --card-foreground: 0 0% 98%;\n        --muted: 240 3.7% 15.9%;\n        --muted-foreground: 240 5% 64.9%;\n        --accent: 240 3.7% 15.9%;\n        --accent-foreground: 0 0% 98%;\n        --border: 240 3.7% 15.9%;\n        --input: 240 3.7% 15.9%;\n      }\n    }\n    * { box-sizing: border-box; margin: 0; padding: 0; }\n    body {\n      font-family: -apple-system, BlinkMacSystemFont, \"Segoe UI\", Roboto, \"Helvetica Neue\", Arial, sans-serif;\n      background: hsl(var(--background));\n      color: hsl(var(--foreground));\n      line-height: 1.6;\n      -webkit-font-smoothing: antialiased;\n    }\n    .session-viewer { max-width: 42rem; margin: 0 auto; padding: 0 1rem; }\n    .session-header { display: flex; flex-direction: column; gap: 0.5rem; padding: 2rem 0; text-align: center; }\n    .session-title { font-size: 1.5rem; font-weight: 500; letter-spacing: -0.025em; }\n    .session-meta { display: flex; align-items: center; justify-content: center; gap: 0.5rem; color: hsl(var(--muted-foreground)); font-size: 0.875rem; }\n    .session-meta .separator { opacity: 0.5; }\n    .avatar { width: 1.25rem; height: 1.25rem; border-radius: 50%; background: hsl(var(--muted)); display: flex; align-items: center; justify-content: center; font-size: 0.625rem; font-weight: 500; flex-shrink: 0; }\n    .thread-container { display: flex; flex-direction: column; gap: 1rem; }\n    .message-block { position: relative; }\n    .block-link { position: absolute; left: -1.5rem; top: 0.25rem; opacity: 0; transition: opacity 0.2s; color: hsl(var(--muted-foreground)); text-decoration: none; }\n    .message-block:hover .block-link { opacity: 1; }\n    .user-message { display: flex; align-items: flex-start; gap: 0.5rem; }\n    .user-message .content { flex: 1; padding: 0.5rem 0.75rem; border: 1px solid hsl(var(--border)); border-radius: 0.25rem; white-space: pre-wrap; word-break: break-word; }\n    .file-chips { display: flex; flex-wrap: wrap; gap: 0.25rem; margin-bottom: 0.5rem; }\n    .file-chip { display: inline-flex; align-items: center; gap: 0.25rem; padding: 0.125rem 0.5rem; background: hsl(var(--muted)); border: 1px solid hsl(var(--border)); border-radius: 0.25rem; font-size: 0.75rem; color: hsl(var(--muted-foreground)); }\n    .file-chip svg { width: 0.75rem; height: 0.75rem; }\n    .assistant-message { display: flex; flex-direction: column; gap: 0.5rem; }\n    .thinking-block { border-radius: 0.25rem; }\n    .thinking-trigger { display: inline-flex; align-items: center; gap: 0.25rem; padding: 0.25rem 0.5rem; background: transparent; border: none; color: hsl(var(--muted-foreground)); cursor: pointer; font-size: 0.875rem; }\n    .thinking-trigger:hover { background: hsl(var(--muted)); }\n    .thinking-trigger svg { width: 1rem; height: 1rem; transition: transform 0.2s; }\n    .thinking-trigger[aria-expanded=\"true\"] svg:first-child { transform: rotate(90deg); }\n    .thinking-content { display: none; margin-top: 0.25rem; padding: 0.75rem; background: hsl(var(--card)); border: 1px solid hsl(var(--border)); border-radius: 0.25rem; color: hsl(var(--muted-foreground)); font-size: 0.875rem; }\n    .thinking-content.expanded { display: block; }\n    .tool-chip { display: inline-flex; align-items: center; gap: 0.375rem; padding: 0.375rem 0.5rem; background: hsl(var(--card) / 0.6); border: 1px solid hsl(var(--border) / 0.8); border-radius: 0.375rem; font-size: 0.875rem; cursor: pointer; }\n    .tool-chip:hover { background: hsl(var(--muted)); }\n    .tool-chip svg { width: 1rem; height: 1rem; color: hsl(var(--muted-foreground)); }\n    .tool-chip .tool-name { color: hsl(var(--muted-foreground)); }\n    .tool-chip .file-path { display: flex; align-items: baseline; }\n    .tool-chip .path-prefix { opacity: 0.6; overflow: hidden; text-overflow: ellipsis; white-space: nowrap; }\n    .tool-chip .path-separator { opacity: 0.6; }\n    .tool-status { padding: 0.125rem 0.375rem; border-radius: 0.25rem; font-size: 0.75rem; font-weight: 500; }\n    .tool-status.success { background: hsl(142 76% 36% / 0.15); color: hsl(142 76% 45%); }\n    .tool-status.error { background: hsl(0 84% 60% / 0.15); color: hsl(0 84% 60%); }\n    .tool-details { display: none; margin-top: 0.5rem; padding: 0.75rem; border-top: 1px solid hsl(var(--border) / 0.5); }\n    .tool-details.expanded { display: block; }\n    .tool-details-label { font-size: 0.75rem; color: hsl(var(--muted-foreground)); margin-bottom: 0.5rem; }\n    .markdown h1 { font-size: 1.75em; font-weight: 700; border-bottom: 2px solid hsl(var(--border)); margin: 1.8em 0 0.7em; padding-bottom: 0.4em; }\n    .markdown h1:first-child { margin-top: 0; }\n    .markdown h2 { font-size: 1.5em; font-weight: 700; margin: 1.5em 0 0.6em; }\n    .markdown h2:first-child { margin-top: 0; }\n    .markdown h3 { font-size: 1.3em; font-weight: 600; margin: 1.4em 0 0.5em; }\n    .markdown h3:first-child { margin-top: 0; }\n    .markdown p { margin: 0.75em 0; }\n    .markdown p:first-child { margin-top: 0; }\n    .markdown p:last-child { margin-bottom: 0; }\n    .markdown ul, .markdown ol { padding-left: 1.5rem; margin: 0.5em 0 0.75em; }\n    .markdown ul { list-style-type: disc; }\n    .markdown ol { list-style-type: decimal; }\n    .markdown li { margin: 0.4em 0; }\n    .markdown code { font-family: \"SF Mono\", Monaco, \"Cascadia Code\", \"Roboto Mono\", Consolas, monospace; }\n    .markdown :not(pre) > code { background: hsl(var(--muted)); padding: 0.125rem 0.375rem; border-radius: 0.25rem; font-size: 0.875em; }\n    .markdown pre { background: hsl(var(--editor-background)); border-radius: calc(var(--radius) - 6px); padding: 0.75rem; overflow-x: auto; margin: 0.75em 0; }\n    .markdown pre code { background: transparent; padding: 0; font-size: 0.875rem; color: #e5e7eb; }\n    .markdown a { color: hsl(217 91% 60%); text-decoration: underline; text-underline-offset: 2px; }\n    .markdown a:hover { text-decoration: none; }\n    .markdown strong { font-weight: 700; }\n    .markdown em { font-style: italic; }\n    .code-block { background: hsl(240 10% 4%); border-radius: 0.5rem; overflow: hidden; margin: 0.75em 0; }\n    .code-block-header { display: flex; align-items: center; justify-content: space-between; padding: 0.5rem 1rem; border-bottom: 1px solid hsl(240 5% 20%); }\n    .code-block-lang { font-size: 0.75rem; color: hsl(240 5% 60%); }\n    .code-block-copy { padding: 0.25rem; background: transparent; border: none; color: hsl(240 5% 60%); cursor: pointer; }\n    .code-block-copy:hover { color: #fff; }\n    .code-block pre { margin: 0; padding: 1rem; overflow-x: auto; }\n    .code-block code { font-size: 0.875rem; color: #e5e7eb; }\n    .hljs-keyword { color: var(--hljs-keyword); }\n    .hljs-built_in, .hljs-function { color: var(--hljs-function); }\n    .hljs-string { color: var(--hljs-string); }\n    .hljs-number { color: var(--hljs-number); }\n    .hljs-comment { color: var(--hljs-comment); font-style: italic; }\n    .hljs-title, .hljs-class { color: var(--hljs-class); font-style: italic; }\n    .session-stats { margin-top: 2rem; padding: 1.5rem; background: hsl(var(--card)); border: 1px solid hsl(var(--border)); border-radius: 0.5rem; }\n    .session-stats h2 { font-size: 1rem; font-weight: 600; margin-bottom: 1rem; }\n    .stats-grid { display: grid; grid-template-columns: repeat(2, 1fr); gap: 1rem; margin-bottom: 1.5rem; }\n    @media (min-width: 640px) { .stats-grid { grid-template-columns: repeat(4, 1fr); } }\n    .stat-card { padding: 1rem; background: hsl(var(--muted) / 0.5); border-radius: 0.5rem; }\n    .stat-card .label { display: flex; align-items: center; gap: 0.5rem; font-size: 0.75rem; color: hsl(var(--muted-foreground)); margin-bottom: 0.25rem; }\n    .stat-card .value { font-size: 1.25rem; font-weight: 700; }\n    .tool-usage { display: flex; flex-wrap: wrap; gap: 0.5rem; }\n    .tool-usage-item { display: flex; align-items: center; gap: 0.5rem; padding: 0.25rem 0.75rem; background: hsl(var(--muted)); border-radius: 9999px; }\n    .tool-usage-item .name { font-size: 0.875rem; font-weight: 500; }\n    .tool-usage-item .count { padding: 0.125rem 0.5rem; background: hsl(var(--background)); border-radius: 9999px; font-size: 0.75rem; }\n    .message-nav { position: fixed; top: 50%; left: 1rem; transform: translateY(-50%); display: none; flex-direction: column; padding: 0.25rem 0; }\n    @media (min-width: 1024px) { .message-nav { display: flex; } }\n    .nav-dot { display: flex; align-items: center; gap: 0.125rem; padding: 0.1875rem 0; cursor: pointer; background: none; border: none; }\n    .nav-dot .dot { width: 0.125rem; height: 0.125rem; background: currentColor; border-radius: 50%; opacity: 0.3; }\n    .nav-dot .line { width: 1.5rem; height: 1px; background: currentColor; border-radius: 1px; opacity: 0.3; transform: scaleX(0.8); transform-origin: left; }\n    .nav-dot:hover .dot, .nav-dot:hover .line { opacity: 1; }\n  </style>\n</head>\n<body>\n  <div class=\"session-viewer\">\n    <nav class=\"message-nav\" id=\"messageNav\"></nav>\n    <header class=\"session-header\">\n      <h1 class=\"session-title\">";

/// From the heading to the author's initials.
pub const HTML_BEFORE_INITIALS: &'static str = "</h1>\n      <div class=\"session-meta\">\n        <span class=\"avatar\">";

/// From the initials to the author's name.
pub const HTML_BEFORE_AUTHOR: &'static str = "</span>\n        <span>";

/// From the author's name to the date.
pub const HTML_BEFORE_DATE: &'static str = "</span>\n        <span class=\"separator\">•</span>\n        <span>";

/// From the date to the git branch.
pub const HTML_BEFORE_BRANCH: &'static str = "</span>\n        ";

/// From the git branch to the number of messages.
pub const HTML_BEFORE_MESSAGES: &'static str = "\n      </div>\n    </header>\n    <div class=\"thread-container\" id=\"threadContainer\"></div>\n    <div class=\"session-stats\">\n      <h2>Session Statistics</h2>\n      <div class=\"stats-grid\">\n        <div class=\"stat-card\">\n          <div class=\"label\">Messages</div>\n          <div class=\"value\">";

/// From the number of messages to the number of tool calls.
pub const HTML_BEFORE_TOOLS: &'static str = "</div>\n        </div>\n        <div class=\"stat-card\">\n          <div class=\"label\">Tool Calls</div>\n          <div class=\"value\">";

/// From the number of tool calls to the duration.
pub const HTML_BEFORE_DURATION: &'static str = "</div>\n        </div>\n        ";

/// From the duration to the thread data.
pub const HTML_BEFORE_DATA: &'static str = "\n      </div>\n      <h3 style=\"font-size: 0.875rem; color: hsl(var(--muted-foreground)); margin-bottom: 0.75rem;\">Tool Usage</h3>\n      <div class=\"tool-usage\" id=\"toolUsage\"></div>\n    </div>\n  </div>\n  <script>\n    var sessionData = ";

/// From the thread data to the script.
pub const HTML_BEFORE_SCRIPT: &'static str = ";\n    ";

/// The end of the page.
pub const HTML_TAIL: &'static str = "\n  </script>\n</body>\n</html>";
/// The upper-case form of `s` (`str::to_uppercase`).
pub uninterp spec fn uppercase(s: Seq<char>) -> Seq<char>;

/// `s` in upper case (`str::to_uppercase`, Unicode's full upper-case
/// mapping).
#[verifier::external_body]
fn to_uppercase(s: &str) -> (r: String)
    ensures
        r@ == uppercase(s@),
{
    s.to_uppercase()
}

/// The first characters of the words of `s` (words are the runs of
/// characters between white space, as `str::split_whitespace` gives them);
/// `after_space` tells whether what came before `s` ends a word.
pub open spec fn word_initials(s: Seq<char>, after_space: bool) -> Seq<char>
    decreases s.len(),
{
    if s.len() == 0 {
        Seq::empty()
    } else {
        let rest = word_initials(s.drop_first(), is_white_space(s[0]));
        if !is_white_space(s[0]) && after_space {
            seq![s[0]] + rest
        } else {
            rest
        }
    }
}

/// At most the first two elements of `s`.
pub open spec fn first_two(s: Seq<char>) -> Seq<char> {
    if s.len() <= 2 {
        s
    } else {
        s.take(2)
    }
}

/// The initials shown for author `name`: the first characters of its first
/// two words, in upper case.
pub open spec fn initials_spec(name: Seq<char>) -> Seq<char> {
    uppercase(first_two(word_initials(name, true)))
}

/// The first characters of the first two words of `name`.
fn first_initials(name: &str) -> (r: String)
    ensures
        r@ == first_two(word_initials(name@, true)),
{
    let v = chars_of(name);
    let mut out: Vec<char> = Vec::new();
    let mut after_space = true;
    let mut i: usize = 0;
    assert(v@.skip(0) =~= v@);
    while i < v.len()
        invariant
            i <= v.len(),
            v@ == name@,
            out@ + word_initials(v@.skip(i as int), after_space) == word_initials(name@, true),
        decreases v.len() - i,
    {
        let c = v[i];
        let w = is_white_space_char(c);
        proof {
            assert(v@.skip(i as int)[0] == c);
            assert(v@.skip(i as int).drop_first() =~= v@.skip(i + 1));
        }
        if !w && after_space {
            assert(out@.push(c) + word_initials(v@.skip(i + 1), w) =~= out@ + (seq![c] + word_initials(
                v@.skip(i + 1),
                w,
            )));
            out.push(c);
        }
        after_space = w;
        i = i + 1;
    }
    assert(v@.skip(i as int) =~= Seq::<char>::empty());
    assert(out@ + Seq::<char>::empty() =~= out@);
    let k = if out.len() <= 2 {
        out.len()
    } else {
        2
    };
    let r = string_of_range(&out, 0, k);
    assert(out@.subrange(0, k as int) =~= first_two(out@));
    r
}

/// The author's initials shown in the page.
fn author_initials(name: &str) -> (r: String)
    ensures
        r@ == initials_spec(name@),
{
    let first = first_initials(name);
    to_uppercase(first.as_str())
}

/// The git branch in the page's header line: a separator and the escaped
/// branch, or nothing without a branch or with an empty one.
pub open spec fn branch_html(b: Option<Seq<char>>) -> Seq<char> {
    match b {
        Some(x) => if x.len() > 0 {
            "<span class=\"separator\">\u{2022}</span><span>"@ + escape_html_spec(x) + "</span>"@
        } else {
            Seq::empty()
        },
        None => Seq::empty(),
    }
}

/// The duration card of the page, or nothing without a duration.
pub open spec fn duration_html(d: Option<i64>) -> Seq<char> {
    match d {
        Some(x) => "<div class=\"stat-card\"><div class=\"label\">Duration</div><div class=\"value\">"@ + duration_text(
            x as int,
        ) + "</div></div>"@,
        None => Seq::empty(),
    }
}

/// The date shown for a session that started at `t`: its short date, or
/// `Unknown date` when its start is not known.
pub open spec fn html_date(t: Option<Timestamp>) -> Seq<char> {
    match t {
        Some(x) => short_date_text(x),
        None => "Unknown date"@,
    }
}

/// The page of `s` with statistics `stats` by `author` (`User` when none is
/// given), dated `date`, embedding the thread data `json` and the script
/// `js`: the fixed parts with the escaped title (twice), the author's
/// initials and escaped name, the date, the git branch, the numbers of
/// messages and tool calls, the duration, the data and the script between
/// them.
pub open spec fn session_html(
    s: Session,
    stats: SessionStatistics,
    author: Option<Seq<char>>,
    date: Seq<char>,
    json: Seq<char>,
    js: Seq<char>,
) -> Seq<char> {
    let title = escape_html_spec(session_title(s));
    let name = match author {
        Some(a) => a,
        None => "User"@,
    };
    HTML_HEAD@ + title + HTML_AFTER_TITLE@ + title + HTML_BEFORE_INITIALS@ + initials_spec(name)
        + HTML_BEFORE_AUTHOR@ + escape_html_spec(name) + HTML_BEFORE_DATE@ + date + HTML_BEFORE_BRANCH@
        + branch_html(
        match s.metadata.git_branch {
            Some(b) => Some(b@),
            None => None,
        },
    ) + HTML_BEFORE_MESSAGES@ + decimal(stats.total_messages as nat) + HTML_BEFORE_TOOLS@ + decimal(
        stats.tool_calls as nat,
    ) + HTML_BEFORE_DURATION@ + duration_html(s.metadata.duration_seconds) + HTML_BEFORE_DATA@ + json
        + HTML_BEFORE_SCRIPT@ + js + HTML_TAIL@
}

impl SessionExporter {
    /// The standalone HTML page of `session` with statistics `stats` by
    /// `author`, dated `date_text`, embedding the thread data `thread_json`
    /// and the script `js_template`.
    pub fn build_html(
        &self,
        session: &Session,
        stats: &SessionStatistics,
        author: Option<&str>,
        date_text: &str,
        thread_json: &str,
        js_template: &str,
    ) -> (r: String)
        requires
            title_cut_ok(*session),
        ensures
            r@ == session_html(*session, *stats, opt_chars(author), date_text@, thread_json@, js_template@),
    {
        let raw_title = self.infer_title(session);
        let title = self.escape_html(raw_title.as_str());
        let name = match author {
            Some(a) => a,
            None => "User",
        };
        proof {
            reveal_strlit("User");
        }
        let initials = author_initials(name);
        let escaped_name = self.escape_html(name);
        let branch = match &session.metadata.git_branch {
            Some(b) => if !b.as_str().is_empty() {
                let mut x = owned("<span class=\"separator\">\u{2022}</span><span>");
                let e = self.escape_html(b.as_str());
                push_str(&mut x, e.as_str());
                push_str(&mut x, "</span>");
                x
            } else {
                String::new()
            },
            None => String::new(),
        };
        let duration = match session.metadata.duration_seconds {
            Some(d) => {
                let mut x = owned("<div class=\"stat-card\"><div class=\"label\">Duration</div><div class=\"value\">");
                let t = self.format_duration(d);
                push_str(&mut x, t.as_str());
                push_str(&mut x, "</div></div>");
                x
            },
            None => String::new(),
        };
        let mut r = owned(HTML_HEAD);
        push_str(&mut r, title.as_str());
        push_str(&mut r, HTML_AFTER_TITLE);
        push_str(&mut r, title.as_str());
        push_str(&mut r, HTML_BEFORE_INITIALS);
        push_str(&mut r, initials.as_str());
        push_str(&mut r, HTML_BEFORE_AUTHOR);
        push_str(&mut r, escaped_name.as_str());
        push_str(&mut r, HTML_BEFORE_DATE);
        push_str(&mut r, date_text);
        push_str(&mut r, HTML_BEFORE_BRANCH);
        push_str(&mut r, branch.as_str());
        push_str(&mut r, HTML_BEFORE_MESSAGES);
        push_decimal(&mut r, stats.total_messages as u64);
        push_str(&mut r, HTML_BEFORE_TOOLS);
        push_decimal(&mut r, stats.tool_calls as u64);
        push_str(&mut r, HTML_BEFORE_DURATION);
        push_str(&mut r, duration.as_str());
        push_str(&mut r, HTML_BEFORE_DATA);
        push_str(&mut r, thread_json);
        push_str(&mut r, HTML_BEFORE_SCRIPT);
        push_str(&mut r, js_template);
        push_str(&mut r, HTML_TAIL);
        r
    }

    /// The standalone HTML page of `session`, dated by its start time (short
    /// date, from the outside formatter) or `Unknown date`.
    pub fn export_html_string(
        &self,
        session: &Session,
        stats: &SessionStatistics,
        author: Option<&str>,
        thread_json: &str,
        js_template: &str,
    ) -> (r: String)
        requires
            title_cut_ok(*session),
        ensures
            r@ == session_html(
                *session,
                *stats,
                opt_chars(author),
                html_date(session.metadata.start_time),
                thread_json@,
                js_template@,
            ),
    {
        let date = match &session.metadata.start_time {
            Some(t) => format_short_date(t),
            None => owned("Unknown date"),
        };
        self.build_html(session, stats, author, date.as_str(), thread_json, js_template)
    }
}

} // verus!
