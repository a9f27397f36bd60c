//! Matter items: markdown files with a YAML frontmatter block, where they are
//! stored, and how the frontmatter block is framed in a file.
use vstd::prelude::*;

use crate::daemon::all_digits;
use crate::foreign::Timestamp;
use crate::text::{
    chars_of, contains_seq, find, first_occurrence, lemma_trim_white_ends, occurs_at, owned,
    path_join, path_join_spec, push_char, push_str, str_eq, str_starts_with, trim_range, trim_spec,
};
use crate::SynapseError;

verus! {

/// The kind of a matter item.
#[derive(Debug, Clone, Copy, PartialEq, Eq, Structural)]
pub enum MatterType {
    Spec,
    Document,
    Brainstorming,
    Mindmap,
    Insight,
    Research,
    Plan,
}

/// Who a matter item belongs to.
#[derive(Debug, Clone, Copy, PartialEq, Eq, Structural)]
pub enum ContextType {
    User,
    Team,
    Project,
}

/// Who may see a matter item.
#[derive(Debug, Clone, Copy, PartialEq, Eq, Structural)]
pub enum Visibility {
    Private,
    Shared,
    Public,
}

/// The directory of items of a visibility.
pub open spec fn visibility_dir(v: Visibility) -> Seq<char> {
    match v {
        Visibility::Private => "private"@,
        Visibility::Shared => "shared"@,
        Visibility::Public => "public"@,
    }
}

/// The directory of items of a kind.
pub open spec fn type_dir(t: MatterType) -> Seq<char> {
    match t {
        MatterType::Spec => "specs"@,
        MatterType::Document => "documents"@,
        MatterType::Brainstorming => "brainstorming"@,
        MatterType::Mindmap => "mindmaps"@,
        MatterType::Insight => "insights"@,
        MatterType::Research => "research"@,
        MatterType::Plan => "plans"@,
    }
}

/// The lower-case form of `s` (`str::to_lowercase`).
pub uninterp spec fn lowercase(s: Seq<char>) -> Seq<char>;

/// `s` in lower case (`str::to_lowercase`, Unicode's full lower-case
/// mapping).
#[verifier::external_body]
pub(crate) fn to_lowercase(s: &str) -> (r: String)
    ensures
        r@ == lowercase(s@),
{
    s.to_lowercase()
}

/// `c` has the Unicode `Alphabetic` or `Numeric` property
/// (`char::is_alphanumeric`).
pub uninterp spec fn is_alphanumeric(c: char) -> bool;

/// Whether `c` is alphabetic or numeric (`char::is_alphanumeric`).
#[verifier::external_body]
fn char_is_alphanumeric(c: char) -> (r: bool)
    ensures
        r == is_alphanumeric(c),
{
    c.is_alphanumeric()
}

/// A character kept in a slug.
pub open spec fn slug_char(c: char) -> bool {
    is_alphanumeric(c) || c == '-'
}

/// A space becomes a hyphen.
pub open spec fn hyphenate(c: char) -> char {
    if c == ' ' {
        '-'
    } else {
        c
    }
}

/// The slug of a title: lower-cased, spaces turned into hyphens, and only
/// alphanumeric characters and hyphens kept.
pub open spec fn slug_spec(title: Seq<char>) -> Seq<char> {
    lowercase(title).map_values(|c: char| hyphenate(c)).filter(|c: char| slug_char(c))
}

/// The slug of `title`.
pub fn slugify(title: &str) -> (r: String)
    ensures
        r@ == slug_spec(title@),
{
    let lower = to_lowercase(title);
    let v = chars_of(lower.as_str());
    let ghost h = v@.map_values(|c: char| hyphenate(c));
    let mut out = String::new();
    let mut i: usize = 0;
    while i < v.len()
        invariant
            i <= v.len(),
            h == v@.map_values(|c: char| hyphenate(c)),
            out@ == h.take(i as int).filter(|c: char| slug_char(c)),
        decreases v.len() - i,
    {
        let c = if v[i] == ' ' {
            '-'
        } else {
            v[i]
        };
        let keep = c == '-' || char_is_alphanumeric(c);
        if keep {
            push_char(&mut out, c);
        }
        proof {
            let t = h.take(i + 1);
            assert(t.drop_last() =~= h.take(i as int));
            assert(t.last() == c);
            reveal(Seq::filter);
        }
        i = i + 1;
    }
    assert(h.take(v@.len() as int) =~= h);
    out
}

/// Where a new item is stored: `{repo}/{visibility dir}/{kind dir}/{date}-{slug}.md`.
pub open spec fn matter_path_spec(
    repo: Seq<char>,
    matter_type: MatterType,
    title: Seq<char>,
    visibility: Visibility,
    date: Seq<char>,
) -> Seq<char> {
    path_join_spec(
        path_join_spec(path_join_spec(repo, visibility_dir(visibility)), type_dir(matter_type)),
        date + "-"@ + slug_spec(title) + ".md"@,
    )
}

/// The path of a new item created on `date` (as `YYYY-MM-DD`).
pub fn matter_path_for_date(
    repo_path: &str,
    matter_type: &MatterType,
    title: &str,
    visibility: &Visibility,
    date: &str,
) -> (r: String)
    ensures
        r@ == matter_path_spec(repo_path@, *matter_type, title@, *visibility, date@),
{
    let slug = slugify(title);
    let dir = match visibility {
        Visibility::Private => "private",
        Visibility::Shared => "shared",
        Visibility::Public => "public",
    };
    let kind = match matter_type {
        MatterType::Spec => "specs",
        MatterType::Document => "documents",
        MatterType::Brainstorming => "brainstorming",
        MatterType::Mindmap => "mindmaps",
        MatterType::Insight => "insights",
        MatterType::Research => "research",
        MatterType::Plan => "plans",
    };
    let mut filename = owned(date);
    push_str(&mut filename, "-");
    push_str(&mut filename, slug.as_str());
    push_str(&mut filename, ".md");
    let a = path_join(repo_path, dir);
    let b = path_join(a.as_str(), kind);
    path_join(b.as_str(), filename.as_str())
}

/// `d` has the shape of a date as `%Y-%m-%d` writes it: a year, a hyphen,
/// two digits, a hyphen, two digits. The year is four digits, or, outside
/// years 0 to 9999, a sign followed by at least four digits.
pub open spec fn date_shape(d: Seq<char>) -> bool {
    let n = d.len() as int;
    let y = d.take(n - 6);
    &&& n >= 10
    &&& d[n - 6] == '-'
    &&& d[n - 3] == '-'
    &&& all_digits(d.subrange(n - 5, n - 3))
    &&& all_digits(d.subrange(n - 2, n))
    &&& ((y.len() == 4 && all_digits(y)) || (y.len() >= 5 && (y[0] == '+' || y[0] == '-') && all_digits(
        y.drop_first(),
    )))
}

/// Today's local date (`chrono::Local::now` formatted with `%Y-%m-%d`). Its
/// value comes from the clock and the machine's time zone, so only its shape
/// is stated: chrono writes the month and the day as two zero-padded digits
/// and the year as four zero-padded digits, signed outside years 0 to 9999.
#[verifier::external_body]
fn local_date_today() -> (r: String)
    ensures
        date_shape(r@),
{
    chrono::Local::now().format("%Y-%m-%d").to_string()
}

/// The path of a new item created today, in the form of
/// `matter_path_for_date` for the date the clock gives.
pub fn generate_matter_path(repo_path: &str, matter_type: &MatterType, title: &str, visibility: &Visibility) -> (r:
    String)
    ensures
        exists|date: Seq<char>| date_shape(date) && r@ == matter_path_spec(repo_path@, *matter_type, title@, *visibility, date),
{
    let date = local_date_today();
    matter_path_for_date(repo_path, matter_type, title, visibility, date.as_str())
}

/// How a frontmatter block splits from its file: the file must start with
/// `---`; the block runs from there to the first newline followed by `---`,
/// and the content is what follows that delimiter; both are trimmed.
pub open spec fn frontmatter_parts(content: Seq<char>) -> Option<(Seq<char>, Seq<char>)> {
    if !"---"@.is_prefix_of(content) {
        None
    } else {
        let rest = content.skip(3);
        match first_occurrence(rest, "\n---"@) {
            Some(e) => Some((trim_spec(rest.take(e)), trim_spec(rest.skip(e + 4)))),
            None => None,
        }
    }
}

/// The message when a file does not start with a frontmatter block.
pub open spec fn no_opening_message() -> Seq<char> {
    "Content does not start with frontmatter delimiter '---'"@
}

/// The message when a frontmatter block is not closed.
pub open spec fn no_closing_message() -> Seq<char> {
    "Could not find closing frontmatter delimiter '---'"@
}

/// Splits a matter file into its frontmatter text and its content, both
/// trimmed. Fails when the file does not start with `---`, or when no line
/// starting with `---` closes the block.
pub fn split_frontmatter(content: &str) -> (r: Result<(String, String), SynapseError>)
    ensures
        match r {
            Ok((front, body)) => frontmatter_parts(content@) == Some((front@, body@)),
            Err(SynapseError::Matter(m)) => frontmatter_parts(content@) is None && (if "---"@.is_prefix_of(
                content@,
            ) {
                m@ == no_closing_message()
            } else {
                m@ == no_opening_message()
            }),
            Err(_) => false,
        },
{
    if !str_starts_with(content, "---") {
        return Err(SynapseError::Matter(owned("Content does not start with frontmatter delimiter '---'")));
    }
    let v = chars_of(content);
    proof {
        reveal_strlit("---");
    }
    let mut rest: Vec<char> = Vec::new();
    let mut i: usize = 3;
    while i < v.len()
        invariant
            3 <= v@.len(),
            3 <= i <= v.len(),
            rest@ == v@.subrange(3, i as int),
        decreases v.len() - i,
    {
        rest.push(v[i]);
        i = i + 1;
    }
    assert(rest@ =~= content@.skip(3));
    let delim = chars_of("\n---");
    proof {
        reveal_strlit("\n---");
    }
    match find(&rest, &delim) {
        Some(e) => {
            let front = trim_range(&rest, 0, e);
            let body = trim_range(&rest, e + 4, rest.len());
            assert(rest@.subrange(0, e as int) =~= rest@.take(e as int));
            assert(rest@.subrange(e + 4, rest@.len() as int) =~= rest@.skip(e + 4));
            Ok((front, body))
        },
        None => Err(SynapseError::Matter(owned("Could not find closing frontmatter delimiter '---'"))),
    }
}

/// A matter file: the frontmatter text between `---` lines, a blank line,
/// then the content.
pub open spec fn matter_file_spec(frontmatter_yaml: Seq<char>, content: Seq<char>) -> Seq<char> {
    "---\n"@ + frontmatter_yaml + "---\n\n"@ + content
}

/// The text of a matter file with frontmatter `frontmatter_yaml` (ending in a
/// newline, as YAML writers leave it) and content `content`.
pub fn frame_matter_file(frontmatter_yaml: &str, content: &str) -> (r: String)
    ensures
        r@ == matter_file_spec(frontmatter_yaml@, content@),
{
    let mut r = owned("---\n");
    push_str(&mut r, frontmatter_yaml);
    push_str(&mut r, "---\n\n");
    push_str(&mut r, content);
    r
}

/// A framed file splits back into its frontmatter and its content, each
/// trimmed, when the frontmatter ends in a newline and none of its lines
/// starts with `---`.
pub proof fn lemma_frontmatter_round_trip(front: Seq<char>, content: Seq<char>)
    requires
        front.len() > 0,
        front.last() == '\n',
        !contains_seq("\n"@ + front, "\n---"@),
    ensures
        frontmatter_parts(matter_file_spec(front, content)) == Some((trim_spec(front), trim_spec(content))),
{
    reveal_strlit("---");
    reveal_strlit("---\n");
    reveal_strlit("\n");
    reveal_strlit("\n---");
    reveal_strlit("---\n\n");
    let file = matter_file_spec(front, content);
    let d = "\n---"@;
    let n = front.len() as int;
    let head = "\n"@ + front;
    let rest = file.skip(3);
    assert(rest =~= head + "---\n\n"@ + content);
    assert("---"@.is_prefix_of(file)) by {
        assert(file.subrange(0, 3) =~= "---"@);
    }
    assert(occurs_at(rest, d, n)) by {
        assert(rest.subrange(n, n + 4) =~= d);
    }
    assert forall|j: int| 0 <= j < n implies !occurs_at(rest, d, j) by {
        if occurs_at(rest, d, j) {
            if j + 4 <= n + 1 {
                assert(head.subrange(j, j + 4) =~= rest.subrange(j, j + 4));
                assert(occurs_at(head, d, j));
            } else {
                let m = n - j;
                assert(rest.subrange(j, j + 4)[m] == rest[n]);
                assert(rest[n] == '\n');
                assert(d[m] == '-');
            }
        }
    }
    assert(first_occurrence(rest, d) == Some(n)) by {
        reveal(first_occurrence);
        assert(contains_seq(rest, d));
        let k = choose|i: int| occurs_at(rest, d, i) && forall|j: int| 0 <= j < i ==> !occurs_at(rest, d, j);
        if k < n {
        } else if k > n {
        }
    }
    let pre = front.drop_last();
    assert(rest.take(n) =~= seq!['\n'] + pre);
    assert(front =~= pre.push('\n'));
    lemma_trim_white_ends(pre, '\n');
    assert(rest.skip(n + 4) =~= seq!['\n'] + (seq!['\n'] + content));
    lemma_trim_white_ends(seq!['\n'] + content, '\n');
    lemma_trim_white_ends(content, '\n');
}

/// The name of a matter kind in storage and in the API (its `snake_case` form).
pub open spec fn matter_type_name(t: MatterType) -> Seq<char> {
    match t {
        MatterType::Spec => "spec"@,
        MatterType::Document => "document"@,
        MatterType::Brainstorming => "brainstorming"@,
        MatterType::Mindmap => "mindmap"@,
        MatterType::Insight => "insight"@,
        MatterType::Research => "research"@,
        MatterType::Plan => "plan"@,
    }
}

/// The name of `t`.
pub fn matter_type_as_str(t: &MatterType) -> (r: &'static str)
    ensures
        r@ == matter_type_name(*t),
{
    match t {
        MatterType::Spec => "spec",
        MatterType::Document => "document",
        MatterType::Brainstorming => "brainstorming",
        MatterType::Mindmap => "mindmap",
        MatterType::Insight => "insight",
        MatterType::Research => "research",
        MatterType::Plan => "plan",
    }
}

/// The matter kind named `name`, if any.
pub fn matter_type_from_name(name: &str) -> (r: Option<MatterType>)
    ensures
        match r {
            Some(t) => matter_type_name(t) == name@,
            None => forall|t: MatterType| matter_type_name(t) != name@,
        },
{
    if str_eq(name, "spec") {
        return Some(MatterType::Spec);
    }
    if str_eq(name, "document") {
        return Some(MatterType::Document);
    }
    if str_eq(name, "brainstorming") {
        return Some(MatterType::Brainstorming);
    }
    if str_eq(name, "mindmap") {
        return Some(MatterType::Mindmap);
    }
    if str_eq(name, "insight") {
        return Some(MatterType::Insight);
    }
    if str_eq(name, "research") {
        return Some(MatterType::Research);
    }
    if str_eq(name, "plan") {
        return Some(MatterType::Plan);
    }
    proof {
        assert forall|t: MatterType| matter_type_name(t) != name@ by {
            match t {
                MatterType::Spec => {},
                MatterType::Document => {},
                MatterType::Brainstorming => {},
                MatterType::Mindmap => {},
                MatterType::Insight => {},
                MatterType::Research => {},
                MatterType::Plan => {},
            }
        }
    }
    None
}

/// Names tell matter kinds apart: no two share a name, so a name read back
/// gives the matter kind it was written for.
pub proof fn lemma_matter_type_names_distinct(a: MatterType, b: MatterType)
    requires
        matter_type_name(a) == matter_type_name(b),
    ensures
        a == b,
{
    reveal_strlit("spec");
    reveal_strlit("document");
    reveal_strlit("brainstorming");
    reveal_strlit("mindmap");
    reveal_strlit("insight");
    reveal_strlit("research");
    reveal_strlit("plan");
    if a != b {
        let x = matter_type_name(a);
        let y = matter_type_name(b);
        assert(x.len() != y.len() || x[0] != y[0] || x[1] != y[1] || x[2] != y[2]);
    }
}

/// The name of a context scope in storage and in the API (its `snake_case` form).
pub open spec fn context_type_name(t: ContextType) -> Seq<char> {
    match t {
        ContextType::User => "user"@,
        ContextType::Team => "team"@,
        ContextType::Project => "project"@,
    }
}

/// The name of `t`.
pub fn context_type_as_str(t: &ContextType) -> (r: &'static str)
    ensures
        r@ == context_type_name(*t),
{
    match t {
        ContextType::User => "user",
        ContextType::Team => "team",
        ContextType::Project => "project",
    }
}

/// The context scope named `name`, if any.
pub fn context_type_from_name(name: &str) -> (r: Option<ContextType>)
    ensures
        match r {
            Some(t) => context_type_name(t) == name@,
            None => forall|t: ContextType| context_type_name(t) != name@,
        },
{
    if str_eq(name, "user") {
        return Some(ContextType::User);
    }
    if str_eq(name, "team") {
        return Some(ContextType::Team);
    }
    if str_eq(name, "project") {
        return Some(ContextType::Project);
    }
    proof {
        assert forall|t: ContextType| context_type_name(t) != name@ by {
            match t {
                ContextType::User => {},
                ContextType::Team => {},
                ContextType::Project => {},
            }
        }
    }
    None
}

/// Names tell context scopes apart: no two share a name, so a name read back
/// gives the context scope it was written for.
pub proof fn lemma_context_type_names_distinct(a: ContextType, b: ContextType)
    requires
        context_type_name(a) == context_type_name(b),
    ensures
        a == b,
{
    reveal_strlit("user");
    reveal_strlit("team");
    reveal_strlit("project");
    if a != b {
        let x = context_type_name(a);
        let y = context_type_name(b);
        assert(x.len() != y.len() || x[0] != y[0] || x[1] != y[1] || x[2] != y[2]);
    }
}

/// The name of a visibility in storage and in the API (its `snake_case` form).
pub open spec fn visibility_name(t: Visibility) -> Seq<char> {
    match t {
        Visibility::Private => "private"@,
        Visibility::Shared => "shared"@,
        Visibility::Public => "public"@,
    }
}

/// The name of `t`.
pub fn visibility_as_str(t: &Visibility) -> (r: &'static str)
    ensures
        r@ == visibility_name(*t),
{
    match t {
        Visibility::Private => "private",
        Visibility::Shared => "shared",
        Visibility::Public => "public",
    }
}

/// The visibility named `name`, if any.
pub fn visibility_from_name(name: &str) -> (r: Option<Visibility>)
    ensures
        match r {
            Some(t) => visibility_name(t) == name@,
            None => forall|t: Visibility| visibility_name(t) != name@,
        },
{
    if str_eq(name, "private") {
        return Some(Visibility::Private);
    }
    if str_eq(name, "shared") {
        return Some(Visibility::Shared);
    }
    if str_eq(name, "public") {
        return Some(Visibility::Public);
    }
    proof {
        assert forall|t: Visibility| visibility_name(t) != name@ by {
            match t {
                Visibility::Private => {},
                Visibility::Shared => {},
                Visibility::Public => {},
            }
        }
    }
    None
}

/// Names tell visibility levels apart: no two share a name, so a name read back
/// gives the visibility it was written for.
pub proof fn lemma_visibility_names_distinct(a: Visibility, b: Visibility)
    requires
        visibility_name(a) == visibility_name(b),
    ensures
        a == b,
{
    reveal_strlit("private");
    reveal_strlit("shared");
    reveal_strlit("public");
    if a != b {
        let x = visibility_name(a);
        let y = visibility_name(b);
        assert(x.len() != y.len() || x[0] != y[0] || x[1] != y[1] || x[2] != y[2]);
    }
}

/// The pieces of `s` between the occurrences of `c` (`str::split`).
pub open spec fn split_on(s: Seq<char>, c: char) -> Seq<Seq<char>>
    decreases s.len(),
{
    match crate::text::index_of_char(s, c) {
        Some(i) => if 0 <= i < s.len() {
            seq![s.take(i)] + split_on(s.skip(i + 1), c)
        } else {
            seq![s]
        },
        None => seq![s],
    }
}

/// The tags given as a comma-separated list, each trimmed; none without a
/// list.
pub open spec fn tags_of(list: Option<Seq<char>>) -> Seq<Seq<char>> {
    match list {
        Some(l) => split_on(l, ',').map_values(|t: Seq<char>| trim_spec(t)),
        None => Seq::empty(),
    }
}

/// The tags of a comma-separated list, each trimmed.
pub fn parse_tags(list: Option<&str>) -> (r: Vec<String>)
    ensures
        crate::text::views(r@) == tags_of(match list {
            Some(l) => Some(l@),
            None => None,
        }),
{
    let l = match list {
        Some(l) => l,
        None => {
            let r: Vec<String> = Vec::new();
            assert(crate::text::views(r@) =~= Seq::<Seq<char>>::empty());
            return r;
        },
    };
    let v = chars_of(l);
    let mut out: Vec<String> = Vec::new();
    let mut start: usize = 0;
    let ghost full = split_on(l@, ',').map_values(|t: Seq<char>| trim_spec(t));
    assert(v@.skip(0) =~= v@);
    loop
        invariant
            start <= v.len(),
            v@ == l@,
            list == Some(l),
            full == split_on(l@, ',').map_values(|t: Seq<char>| trim_spec(t)),
            crate::text::views(out@) + split_on(v@.skip(start as int), ',').map_values(|t: Seq<char>| trim_spec(t))
                == full,
        decreases v.len() - start,
    {
        let end = crate::text::find_char_from_pub(&v, ',', start);
        let piece = trim_range(&v, start, end);
        let ghost rest = v@.skip(start as int);
        proof {
            crate::text::lemma_index_of_char_pub(rest, ',');
            assert(v@.subrange(start as int, end as int) =~= rest.take(end - start));
        }
        if end == v.len() {
            proof {
                assert(rest.take(end - start) =~= rest);
                assert(split_on(rest, ',') == seq![rest]);
                assert(split_on(rest, ',').map_values(|t: Seq<char>| trim_spec(t)) =~= seq![trim_spec(rest)]);
                assert(crate::text::views(out@.push(piece)) =~= crate::text::views(out@).push(piece@));
            }
            out.push(piece);
            assert(crate::text::views(out@) =~= full);
            return out;
        }
        proof {
            assert(rest.skip(end - start + 1) =~= v@.skip(end + 1));
            let tail = split_on(v@.skip(end + 1), ',');
            assert(split_on(rest, ',') == seq![rest.take(end - start)] + tail);
            assert(split_on(rest, ',').map_values(|t: Seq<char>| trim_spec(t)) =~= seq![piece@] + tail.map_values(
                |t: Seq<char>| trim_spec(t),
            ));
            assert(crate::text::views(out@.push(piece)) =~= crate::text::views(out@).push(piece@));
        }
        out.push(piece);
        start = end + 1;
    }
}

/// The starting content of a new item titled `title`.
pub open spec fn new_matter_content(title: Seq<char>) -> Seq<char> {
    "# "@ + title + "\n\n<!-- Start writing your content here -->\n"@
}

/// The starting content of a new item titled `title`: a heading and a
/// placeholder comment.
pub fn new_matter_body(title: &str) -> (r: String)
    ensures
        r@ == new_matter_content(title@),
{
    let mut r = owned("# ");
    push_str(&mut r, title);
    push_str(&mut r, "\n\n<!-- Start writing your content here -->\n");
    r
}


/// The metadata at the head of a matter file.
pub struct MatterFrontmatter {
    pub matter_type: MatterType,
    pub title: String,
    pub context_type: ContextType,
    pub context_id: String,
    pub visibility: Visibility,
    pub tags: Vec<String>,
    pub created_at: Timestamp,
    pub created_by: String,
    pub updated_at: Option<Timestamp>,
    pub updated_by: Option<String>,
    pub version: Option<u32>,
    pub status: Option<String>,
    pub folder_path: Option<String>,
}

/// A matter file: its metadata, the markdown after it, and where it lies.
pub struct MatterItem {
    pub frontmatter: MatterFrontmatter,
    pub content: String,
    pub file_path: String,
}

/// Metadata of an item that is new at `created_at`: version 1, not updated
/// yet, in no folder.
pub open spec fn fresh_metadata(f: MatterFrontmatter, created_at: Timestamp, created_by: Seq<char>) -> bool {
    &&& f.created_at == created_at
    &&& f.created_by@ == created_by
    &&& f.updated_at is None
    &&& f.updated_by is None
    &&& f.version == Some(1u32)
    &&& f.folder_path is None
}

/// Whether a status is present and reads `v`.
pub open spec fn status_is(status: Option<String>, v: Seq<char>) -> bool {
    status matches Some(s) && s@ == v
}

impl MatterFrontmatter {
    /// The metadata of an item created by `created_by` at `created_at`: its
    /// context id is `id`, or the user's own id `user_id` without one; it
    /// starts as a `draft` at version 1.
    pub fn new_draft(
        matter_type: MatterType,
        title: &str,
        context_type: ContextType,
        id: Option<&str>,
        user_id: &str,
        visibility: Visibility,
        tags: Vec<String>,
        created_at: Timestamp,
        created_by: &str,
    ) -> (r: Self)
        ensures
            r.matter_type == matter_type,
            r.title@ == title@,
            r.context_type == context_type,
            r.context_id@ == match id {
                Some(i) => i@,
                None => user_id@,
            },
            r.visibility == visibility,
            r.tags@ == tags@,
            fresh_metadata(r, created_at, created_by@),
            status_is(r.status, "draft"@),
    {
        let context_id = match id {
            Some(i) => owned(i),
            None => owned(user_id),
        };
        MatterFrontmatter {
            matter_type,
            title: owned(title),
            context_type,
            context_id,
            visibility,
            tags,
            created_at,
            created_by: owned(created_by),
            updated_at: None,
            updated_by: None,
            version: Some(1),
            status: Some(owned("draft")),
            folder_path: None,
        }
    }

    /// The metadata given to a file imported without any: private, untagged,
    /// in the user's own context `user_id`, with status `imported` at
    /// version 1.
    pub fn new_imported(
        matter_type: MatterType,
        title: &str,
        context_type: ContextType,
        user_id: &str,
        created_at: Timestamp,
        created_by: &str,
    ) -> (r: Self)
        ensures
            r.matter_type == matter_type,
            r.title@ == title@,
            r.context_type == context_type,
            r.context_id@ == user_id@,
            r.visibility == Visibility::Private,
            r.tags@.len() == 0,
            fresh_metadata(r, created_at, created_by@),
            status_is(r.status, "imported"@),
    {
        MatterFrontmatter {
            matter_type,
            title: owned(title),
            context_type,
            context_id: owned(user_id),
            visibility: Visibility::Private,
            tags: Vec::new(),
            created_at,
            created_by: owned(created_by),
            updated_at: None,
            updated_by: None,
            version: Some(1),
            status: Some(owned("imported")),
            folder_path: None,
        }
    }
}

impl MatterItem {
    /// A new item at `file_path` whose content is the starting text for its
    /// title (see `new_matter_body`).
    pub fn new_draft(frontmatter: MatterFrontmatter, file_path: &str) -> (r: Self)
        ensures
            r.frontmatter == frontmatter,
            r.content@ == new_matter_content(frontmatter.title@),
            r.file_path@ == file_path@,
    {
        let content = new_matter_body(frontmatter.title.as_str());
        MatterItem { frontmatter, content, file_path: owned(file_path) }
    }

    /// The text of the item's file, given its metadata already written as
    /// YAML in `frontmatter_yaml` (see `frame_matter_file`).
    pub fn file_text(&self, frontmatter_yaml: &str) -> (r: String)
        ensures
            r@ == matter_file_spec(frontmatter_yaml@, self.content@),
    {
        frame_matter_file(frontmatter_yaml, self.content.as_str())
    }
}

/// An answer confirms a deletion when, trimmed, it is `y` or `Y`.
pub open spec fn confirms(answer: Seq<char>) -> bool {
    trim_spec(answer) == "y"@ || trim_spec(answer) == "Y"@
}

/// Whether the answer `answer` to the deletion question confirms it.
pub fn deletion_confirmed(answer: &str) -> (r: bool)
    ensures
        r == confirms(answer@),
{
    let v = chars_of(answer);
    assert(v@.subrange(0, v@.len() as int) =~= answer@);
    let t = trim_range(&v, 0, v.len());
    str_eq(t.as_str(), "y") || str_eq(t.as_str(), "Y")
}

} // verus!
