//! The page that the web view shows: the rendered document beside its table
//! of contents, with the style sheet and the scripts for navigation and
//! search.

use crate::html::{build_toc_html, toc_items};
use crate::text::{contains, contains_seq, to_chars};
use crate::toc::TocEntry;
use vstd::prelude::*;
use vstd::string::*;

verus! {

/// The style sheet of the page, for light and dark themes.
pub const GITHUB_CSS: &'static str = "
@media (prefers-color-scheme: dark) {
    :root { --bg: #0d1117; --fg: #e6edf3; --code-bg: #161b22; --border: #30363d; --link: #58a6ff; --blockquote: #8b949e; --sidebar-bg: #010409; --sidebar-hover: #161b22; --sidebar-active: #1f6feb33; }
}
@media (prefers-color-scheme: light) {
    :root { --bg: #ffffff; --fg: #1f2328; --code-bg: #f6f8fa; --border: #d0d7de; --link: #0969da; --blockquote: #656d76; --sidebar-bg: #f6f8fa; --sidebar-hover: #eaeef2; --sidebar-active: #ddf4ff; }
}
* { box-sizing: border-box; }
html, body { margin: 0; padding: 0; height: 100%; }
body {
    font-family: -apple-system, BlinkMacSystemFont, \"Segoe UI\", \"Noto Sans\", Helvetica, Arial, sans-serif;
    font-size: 16px;
    line-height: 1.6;
    color: var(--fg);
    background: var(--bg);
    display: flex;
}
.sidebar {
    width: 250px;
    min-width: 250px;
    height: 100vh;
    position: fixed;
    top: 0;
    left: 0;
    background: var(--sidebar-bg);
    border-right: 1px solid var(--border);
    overflow-y: auto;
    padding: 16px 0;
    font-size: 14px;
}
.sidebar-title {
    font-weight: 600;
    font-size: 12px;
    text-transform: uppercase;
    letter-spacing: 0.5px;
    color: var(--blockquote);
    padding: 8px 16px;
    margin: 0;
}
.sidebar ul { list-style: none; margin: 0; padding: 0; }
.sidebar li a {
    display: block;
    padding: 4px 16px;
    color: var(--fg);
    text-decoration: none;
    border-left: 3px solid transparent;
    transition: background 0.15s, border-color 0.15s;
}
.sidebar li a:hover { background: var(--sidebar-hover); }
.sidebar li a.active { background: var(--sidebar-active); border-left-color: var(--link); color: var(--link); }
.sidebar li.toc-h2 a { padding-left: 24px; }
.sidebar li.toc-h3 a { padding-left: 36px; font-size: 13px; }
.sidebar li.toc-h4 a { padding-left: 48px; font-size: 13px; color: var(--blockquote); }
.sidebar li.toc-h5 a, .sidebar li.toc-h6 a { padding-left: 56px; font-size: 12px; color: var(--blockquote); }
.content {
    margin-left: 250px;
    max-width: 900px;
    padding: 32px 24px;
    flex: 1;
}
h1, h2, h3, h4, h5, h6 { margin-top: 24px; margin-bottom: 16px; font-weight: 600; line-height: 1.25; }
h1 { font-size: 2em; padding-bottom: 0.3em; border-bottom: 1px solid var(--border); }
h2 { font-size: 1.5em; padding-bottom: 0.3em; border-bottom: 1px solid var(--border); }
code {
    font-family: ui-monospace, SFMono-Regular, \"SF Mono\", Menlo, Consolas, monospace;
    font-size: 85%;
    background: var(--code-bg);
    padding: 0.2em 0.4em;
    border-radius: 6px;
}
pre {
    background: var(--code-bg);
    padding: 16px;
    border-radius: 6px;
    overflow-x: auto;
    line-height: 1.45;
}
pre code { background: transparent; padding: 0; font-size: 85%; }
table { border-collapse: collapse; width: 100%; margin: 16px 0; }
th, td { border: 1px solid var(--border); padding: 6px 13px; }
th { font-weight: 600; background: var(--code-bg); }
blockquote {
    color: var(--blockquote);
    border-left: 4px solid var(--border);
    padding: 0 16px;
    margin: 16px 0;
}
a { color: var(--link); text-decoration: none; }
a:hover { text-decoration: underline; }
hr { border: none; border-top: 1px solid var(--border); margin: 24px 0; }
img { max-width: 100%; }
ul, ol { padding-left: 2em; }
input[type=\"checkbox\"] { margin-right: 0.5em; }
.mermaid-diagram { text-align: center; margin: 16px 0; }
.mermaid-diagram svg { max-width: 100%; height: auto; }
.mermaid-error {
    border: 2px solid #f85149;
    border-radius: 6px;
    padding: 16px;
    margin: 16px 0;
    background: var(--code-bg);
}
.mermaid-error strong { color: #f85149; }
.mermaid-fallback {
    border: 1px solid var(--border);
    border-radius: 6px;
    margin: 16px 0;
    background: var(--code-bg);
    overflow: hidden;
}
.mermaid-fallback-header {
    padding: 8px 16px;
    font-size: 13px;
    font-weight: 600;
    color: var(--blockquote);
    border-bottom: 1px solid var(--border);
    background: var(--sidebar-bg);
}
.mermaid-icon { margin-right: 6px; }
.mermaid-fallback pre { margin: 0; border-radius: 0; }
.mermaid-fallback code { font-size: 13px; color: var(--fg); }
/* Search */
.search-bar {
    position: fixed;
    bottom: 0;
    left: 250px;
    right: 0;
    background: var(--code-bg);
    border-top: 1px solid var(--border);
    padding: 8px 16px;
    display: flex;
    align-items: center;
    gap: 8px;
    z-index: 1000;
    font-size: 14px;
}
.search-bar input {
    flex: 1;
    max-width: 400px;
    padding: 4px 8px;
    border: 1px solid var(--border);
    border-radius: 4px;
    background: var(--bg);
    color: var(--fg);
    font-size: 14px;
    outline: none;
}
.search-bar input:focus { border-color: var(--link); }
.search-bar .search-info { color: var(--blockquote); white-space: nowrap; }
.search-bar button {
    padding: 4px 8px;
    border: 1px solid var(--border);
    border-radius: 4px;
    background: var(--code-bg);
    color: var(--fg);
    cursor: pointer;
    font-size: 13px;
}
.search-bar button:hover { background: var(--sidebar-hover); }
.search-bar .close-btn { margin-left: auto; }
mark.search-highlight { background: #ffd33d55; color: inherit; border-radius: 2px; }
mark.search-highlight.current { background: #ffd33d; color: #000; }
";

/// The page up to its style sheet.
pub const PAGE_HEAD: &'static str = "<!DOCTYPE html>
<html>
<head>
<meta charset=\"utf-8\">
<style>";

/// The page between its style sheet and the items of the table of contents.
pub const PAGE_SIDEBAR: &'static str = "</style>
</head>
<body>
<nav class=\"sidebar\">
<p class=\"sidebar-title\">Table of Contents</p>
<ul>";

/// The page between the table of contents and the document.
pub const PAGE_CONTENT: &'static str = "</ul>
</nav>
<div class=\"content\">
";

/// The page after the document: the scripts for navigation and search.
pub const PAGE_SCRIPTS: &'static str = "
</div>
<script>
document.querySelector('.sidebar').addEventListener('click', function(e) {
    if (e.target.tagName === 'A') {
        e.preventDefault();
        var id = e.target.getAttribute('href').substring(1);
        var el = document.getElementById(id);
        if (el) {
            el.scrollIntoView({ behavior: 'smooth', block: 'start' });
            document.querySelectorAll('.sidebar a').forEach(a => a.classList.remove('active'));
            e.target.classList.add('active');
        }
    }
});
</script>
<div class=\"search-bar\" id=\"searchBar\" style=\"display:none;\">
    <input type=\"text\" id=\"searchInput\" placeholder=\"Search...\" />
    <span class=\"search-info\" id=\"searchInfo\">0/0</span>
    <button onclick=\"searchNav(-1)\">&#9650;</button>
    <button onclick=\"searchNav(1)\">&#9660;</button>
    <button class=\"close-btn\" onclick=\"closeSearch()\">Esc</button>
</div>
<script>
(function() {
    var matches = [];
    var currentIdx = -1;

    function clearHighlights() {
        document.querySelectorAll('mark.search-highlight').forEach(function(m) {
            var parent = m.parentNode;
            parent.replaceChild(document.createTextNode(m.textContent), m);
            parent.normalize();
        });
        matches = [];
        currentIdx = -1;
    }

    function highlightMatches(query) {
        clearHighlights();
        if (!query) { updateInfo(); return; }
        var walker = document.createTreeWalker(
            document.querySelector('.content'),
            NodeFilter.SHOW_TEXT, null, false
        );
        var textNodes = [];
        while (walker.nextNode()) textNodes.push(walker.currentNode);

        var queryLower = query.toLowerCase();
        for (var i = textNodes.length - 1; i >= 0; i--) {
            var node = textNodes[i];
            var text = node.textContent;
            var textLower = text.toLowerCase();
            var idx = textLower.lastIndexOf(queryLower);
            while (idx >= 0) {
                var range = document.createRange();
                range.setStart(node, idx);
                range.setEnd(node, idx + query.length);
                var mark = document.createElement('mark');
                mark.className = 'search-highlight';
                range.surroundContents(mark);
                node = mark.previousSibling || node.parentNode.firstChild;
                idx = idx > 0 ? node.textContent.toLowerCase().lastIndexOf(queryLower, idx - 1) : -1;
            }
        }
        matches = document.querySelectorAll('mark.search-highlight');
        if (matches.length > 0) { currentIdx = 0; goToCurrent(); }
        updateInfo();
    }

    function goToCurrent() {
        document.querySelectorAll('mark.search-highlight.current').forEach(function(m) { m.classList.remove('current'); });
        if (matches.length > 0 && currentIdx >= 0) {
            matches[currentIdx].classList.add('current');
            matches[currentIdx].scrollIntoView({ behavior: 'smooth', block: 'center' });
        }
    }

    function updateInfo() {
        var info = document.getElementById('searchInfo');
        if (matches.length === 0) { info.textContent = '0/0'; }
        else { info.textContent = (currentIdx + 1) + '/' + matches.length; }
    }

    window.searchNav = function(dir) {
        if (matches.length === 0) return;
        currentIdx = (currentIdx + dir + matches.length) % matches.length;
        goToCurrent();
        updateInfo();
    };

    window.closeSearch = function() {
        document.getElementById('searchBar').style.display = 'none';
        clearHighlights();
        updateInfo();
    };

    document.addEventListener('keydown', function(e) {
        if ((e.ctrlKey || e.metaKey) && e.key === 'f') {
            e.preventDefault();
            var bar = document.getElementById('searchBar');
            bar.style.display = 'flex';
            var input = document.getElementById('searchInput');
            input.focus();
            input.select();
        }
        if (e.key === 'Escape') {
            window.closeSearch();
        }
        if (e.key === 'Enter' && document.activeElement === document.getElementById('searchInput')) {
            e.preventDefault();
            if (e.shiftKey) { window.searchNav(-1); }
            else { window.searchNav(1); }
        }
    });

    document.getElementById('searchInput').addEventListener('input', function() {
        highlightMatches(this.value);
    });
})();
</script>
";

/// The end of the page.
pub const PAGE_END: &'static str = "
</body>
</html>";

/// What stands before the diagram library in its script element.
pub const DIAGRAM_SCRIPT_OPEN: &'static str = "<script>";

/// What stands after the diagram library: the end of its element, and the
/// script that starts it.
pub const DIAGRAM_SCRIPT_START: &'static str = "</script>
<script>mermaid.initialize({ startOnLoad: true, theme: (window.matchMedia && window.matchMedia('(prefers-color-scheme: dark)').matches) ? 'dark' : 'default' });</script>";

/// The mark of a diagram that the page has to draw itself.
pub const DIAGRAM_MARK: &'static str = "class=\"mermaid\"";

/// The scripts that draw diagrams, with `library` as the diagram library:
/// they are needed only where the document holds a diagram for the page to
/// draw.
pub open spec fn diagram_scripts(body: Seq<char>, library: Seq<char>) -> Seq<char> {
    if contains_seq(body, DIAGRAM_MARK@) {
        DIAGRAM_SCRIPT_OPEN@ + library + DIAGRAM_SCRIPT_START@
    } else {
        Seq::empty()
    }
}

/// The page of a document: head, style sheet, table of contents, document
/// and scripts, in this order.
pub open spec fn page_of(body: Seq<char>, toc: Seq<char>, library: Seq<char>) -> Seq<char> {
    PAGE_HEAD@ + GITHUB_CSS@ + PAGE_SIDEBAR@ + toc + PAGE_CONTENT@ + body + PAGE_SCRIPTS@
        + diagram_scripts(body, library) + PAGE_END@
}

/// Builds the page that shows the rendered document `body` beside the table
/// of contents; `mermaid_js` is the diagram library, which the page holds
/// only where it has a diagram to draw.
pub fn build_html(body: &str, toc_entries: &Vec<TocEntry>, mermaid_js: &str) -> (page: String)
    ensures
        page@ == page_of(body@, toc_items(toc_entries@, toc_entries.len() as int), mermaid_js@),
{
    let toc = build_toc_html(toc_entries);
    let body_chars = to_chars(body);
    let mark = to_chars(DIAGRAM_MARK);
    let mut page = String::new();
    page.append(PAGE_HEAD);
    page.append(GITHUB_CSS);
    page.append(PAGE_SIDEBAR);
    page.append(toc.as_str());
    page.append(PAGE_CONTENT);
    page.append(body);
    page.append(PAGE_SCRIPTS);
    if contains(&body_chars, &mark) {
        page.append(DIAGRAM_SCRIPT_OPEN);
        page.append(mermaid_js);
        page.append(DIAGRAM_SCRIPT_START);
    } else {
        assert(page@ + Seq::<char>::empty() =~= page@);
    }
    page.append(PAGE_END);
    page
}


/// Why a text could not be written as JSON.
#[verifier::external_type_specification]
#[verifier::external_body]
pub struct ExJsonError(serde_json::Error);

/// The JSON string that `serde_json::to_string` writes for a text, none
/// where it fails.
pub uninterp spec fn json_string(text: Seq<char>) -> Option<Seq<char>>;

/// `serde_json::to_string` on a text: the outcome is a function of the text
/// alone, named `json_string`.
#[verifier::external_body]
fn json_encode(text: &str) -> (r: Result<String, serde_json::Error>)
    ensures
        match r {
            Ok(s) => json_string(text@) == Some(s@),
            Err(_) => json_string(text@).is_none(),
        },
{
    serde_json::to_string(text)
}

/// A text as a string of a script; empty where it cannot be written.
pub open spec fn script_string(text: Seq<char>) -> Seq<char> {
    match json_string(text) {
        Some(s) => s,
        None => Seq::empty(),
    }
}

/// The script that sets the document of the page to the script string
/// `body` and the items of its table of contents to the script string `toc`.
pub open spec fn assignments(body: Seq<char>, toc: Seq<char>) -> Seq<char> {
    "document.querySelector('.content').innerHTML = "@ + body
        + "; document.querySelector('.sidebar ul').innerHTML = "@ + toc + ";"@
}

/// Makes the script that sets the document and the table of contents of the
/// page to two script strings.
pub fn frame_refresh_script(body: &str, toc: &str) -> (script: String)
    ensures
        script@ == assignments(body@, toc@),
{
    let mut script = String::new();
    script.append("document.querySelector('.content').innerHTML = ");
    script.append(body);
    script.append("; document.querySelector('.sidebar ul').innerHTML = ");
    script.append(toc);
    script.append(";");
    script
}

/// The script that puts a new document and a new table of contents into
/// the page that is shown.
pub open spec fn refresh_script_of(body: Seq<char>, toc: Seq<char>) -> Seq<char> {
    assignments(script_string(body), script_string(toc))
}

fn to_script_string(text: &str) -> (s: String)
    ensures
        s@ == script_string(text@),
{
    match json_encode(text) {
        Ok(s) => s,
        Err(_) => String::new(),
    }
}

/// Makes the script that shows a document anew: `body` is its HTML and `toc`
/// the items of its table of contents.
pub fn refresh_script(body: &str, toc: &str) -> (script: String)
    ensures
        script@ == refresh_script_of(body@, toc@),
{
    let body_string = to_script_string(body);
    let toc_string = to_script_string(toc);
    frame_refresh_script(body_string.as_str(), toc_string.as_str())
}

} // verus!
