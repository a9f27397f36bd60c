//! The thoughts directory: the starting texts of its documents, where they
//! go, how they are searched and listed, and the files that set it up (its
//! settings, the ignore entry and the git hooks).
use vstd::prelude::*;

use crate::matter::{slug_spec, slugify};
use crate::text::{
    chars_of, contains_seq, decimal, find_char_from_pub, index_of_char, join_lines, join_with_newlines,
    lemma_index_of_char_pub, lines_of, occurs_at, owned, path_join, path_join_spec, push_char, push_decimal,
    push_str, str_contains, str_eq, str_starts_with, text_lines, trim_range, trim_spec, trim_start_range,
    trim_start_spec, views,
};

verus! {

/// The text of: a research note on `title`, dated `date`, signed by `username`.
pub open spec fn research_template_text(title: Seq<char>, username: Seq<char>, date: Seq<char>) -> Seq<char> {
    "# Research: "@ + title + "\n\n## Date\n"@ + date + "\n\n## Question\nWhat are we trying to understand?\n\n## Background\nWhy is this research needed?\n\n## Key Findings\n\n### Finding 1\nDescription and evidence\n\n### Finding 2\nDescription and evidence\n\n## Relevant Code\n- `src/path/to/file.rs` - Description\n\n## Recommendations\n1. Recommendation with rationale\n\n## Open Questions\n- [ ] Unanswered question 1\n\n## References\n- [Link title](url)\n\n## Status\n🟡 In Progress\n\n---\n*Created by "@ + username + " on "@ + date + "*\n"@
}

/// A research note on `title`, dated `date`, signed by `username`.
pub fn generate_research_template(title: &str, username: &str, date: &str) -> (r: String)
    ensures
        r@ == research_template_text(title@, username@, date@),
{
    let mut r = owned("# Research: ");
    push_str(&mut r, title);
    push_str(&mut r, "\n\n## Date\n");
    push_str(&mut r, date);
    push_str(&mut r, "\n\n## Question\nWhat are we trying to understand?\n\n## Background\nWhy is this research needed?\n\n## Key Findings\n\n### Finding 1\nDescription and evidence\n\n### Finding 2\nDescription and evidence\n\n## Relevant Code\n- `src/path/to/file.rs` - Description\n\n## Recommendations\n1. Recommendation with rationale\n\n## Open Questions\n- [ ] Unanswered question 1\n\n## References\n- [Link title](url)\n\n## Status\n🟡 In Progress\n\n---\n*Created by ");
    push_str(&mut r, username);
    push_str(&mut r, " on ");
    push_str(&mut r, date);
    push_str(&mut r, "*\n");
    r
}

/// The text of: an implementation plan for `title`, dated `date`, signed by `username`.
pub open spec fn plan_template_text(title: Seq<char>, username: Seq<char>, date: Seq<char>) -> Seq<char> {
    "# Plan: "@ + title + "\n\n## Goal\nWhat we're building and why\n\n## Success Criteria\n- [ ] Criterion 1\n- [ ] Criterion 2\n\n## Prerequisites\n- [ ] Required before starting\n\n## Implementation Steps\n\n### Phase 1: Setup\n- [ ] **Step 1.1**: Description\n  - Files: `src/file.rs`\n  - Changes: What to modify\n\n### Phase 2: Implementation\n- [ ] **Step 2.1**: Description\n\n## Testing Strategy\n- Unit tests: What to test\n- Integration tests: What to test\n\n## Rollback Plan\nHow to undo if something goes wrong\n\n## Status\n🟡 Planning\n\n## Progress Log\n- "@ + date + ": Started planning\n\n---\n*Created by "@ + username + " on "@ + date + "*\n"@
}

/// An implementation plan for `title`, dated `date`, signed by `username`.
pub fn generate_plan_template(title: &str, username: &str, date: &str) -> (r: String)
    ensures
        r@ == plan_template_text(title@, username@, date@),
{
    let mut r = owned("# Plan: ");
    push_str(&mut r, title);
    push_str(&mut r, "\n\n## Goal\nWhat we're building and why\n\n## Success Criteria\n- [ ] Criterion 1\n- [ ] Criterion 2\n\n## Prerequisites\n- [ ] Required before starting\n\n## Implementation Steps\n\n### Phase 1: Setup\n- [ ] **Step 1.1**: Description\n  - Files: `src/file.rs`\n  - Changes: What to modify\n\n### Phase 2: Implementation\n- [ ] **Step 2.1**: Description\n\n## Testing Strategy\n- Unit tests: What to test\n- Integration tests: What to test\n\n## Rollback Plan\nHow to undo if something goes wrong\n\n## Status\n🟡 Planning\n\n## Progress Log\n- ");
    push_str(&mut r, date);
    push_str(&mut r, ": Started planning\n\n---\n*Created by ");
    push_str(&mut r, username);
    push_str(&mut r, " on ");
    push_str(&mut r, date);
    push_str(&mut r, "*\n");
    r
}

/// The text of: working notes on ticket `title`, dated `date`, signed by `username`.
pub open spec fn ticket_template_text(title: Seq<char>, username: Seq<char>, date: Seq<char>) -> Seq<char> {
    "# Ticket: "@ + title + "\n\n## Original Requirements\n> Paste original ticket description here\n\n## My Understanding\nWhat I think this ticket is asking for\n\n## Acceptance Criteria\n- [ ] Criterion from ticket\n\n## Questions for Stakeholder\n- [ ] Clarification needed on X\n\n## Technical Approach\nHigh-level approach to implementation\n\n## Technical Notes\nImplementation details discovered during work\n\n## Related Resources\n- Research: [[research/related-topic.md]]\n- Code: `src/relevant/file.rs`\n\n## Progress Log\n- "@ + date + ": Started investigation\n\n---\n*Created by "@ + username + " on "@ + date + "*\n"@
}

/// Working notes on ticket `title`, dated `date`, signed by `username`.
pub fn generate_ticket_template(title: &str, username: &str, date: &str) -> (r: String)
    ensures
        r@ == ticket_template_text(title@, username@, date@),
{
    let mut r = owned("# Ticket: ");
    push_str(&mut r, title);
    push_str(&mut r, "\n\n## Original Requirements\n> Paste original ticket description here\n\n## My Understanding\nWhat I think this ticket is asking for\n\n## Acceptance Criteria\n- [ ] Criterion from ticket\n\n## Questions for Stakeholder\n- [ ] Clarification needed on X\n\n## Technical Approach\nHigh-level approach to implementation\n\n## Technical Notes\nImplementation details discovered during work\n\n## Related Resources\n- Research: [[research/related-topic.md]]\n- Code: `src/relevant/file.rs`\n\n## Progress Log\n- ");
    push_str(&mut r, date);
    push_str(&mut r, ": Started investigation\n\n---\n*Created by ");
    push_str(&mut r, username);
    push_str(&mut r, " on ");
    push_str(&mut r, date);
    push_str(&mut r, "*\n");
    r
}

/// The text of: a pull-request description for `title`, signed by `username` on `date`.
pub open spec fn pr_template_text(title: Seq<char>, username: Seq<char>, date: Seq<char>) -> Seq<char> {
    "# PR: "@ + title + "\n\n## Summary\nBrief description of what this PR does\n\n## Changes\n- Change 1\n- Change 2\n\n## Testing Done\n- [ ] Unit tests pass\n- [ ] Manual testing completed\n\n## Screenshots\n(if applicable)\n\n## Related\n- Ticket: [PROJ-XXX](url)\n- Research: [[research/topic.md]]\n\n---\n*Created by "@ + username + " on "@ + date + "*\n"@
}

/// A pull-request description for `title`, signed by `username` on `date`.
pub fn generate_pr_template(title: &str, username: &str, date: &str) -> (r: String)
    ensures
        r@ == pr_template_text(title@, username@, date@),
{
    let mut r = owned("# PR: ");
    push_str(&mut r, title);
    push_str(&mut r, "\n\n## Summary\nBrief description of what this PR does\n\n## Changes\n- Change 1\n- Change 2\n\n## Testing Done\n- [ ] Unit tests pass\n- [ ] Manual testing completed\n\n## Screenshots\n(if applicable)\n\n## Related\n- Ticket: [PROJ-XXX](url)\n- Research: [[research/topic.md]]\n\n---\n*Created by ");
    push_str(&mut r, username);
    push_str(&mut r, " on ");
    push_str(&mut r, date);
    push_str(&mut r, "*\n");
    r
}

/// The text of: a scratch note titled `title`, dated `date`.
pub open spec fn scratch_template_text(title: Seq<char>, date: Seq<char>) -> Seq<char> {
    "# "@ + title + "\n\n*"@ + date + "*\n\n## Notes\n\n"@
}

/// A scratch note titled `title`, dated `date`.
pub fn generate_scratch_template(title: &str, date: &str) -> (r: String)
    ensures
        r@ == scratch_template_text(title@, date@),
{
    let mut r = owned("# ");
    push_str(&mut r, title);
    push_str(&mut r, "\n\n*");
    push_str(&mut r, date);
    push_str(&mut r, "*\n\n## Notes\n\n");
    r
}

/// The text of: a journal page for `date`.
pub open spec fn journal_template_text(date: Seq<char>) -> Seq<char> {
    "# Journal: "@ + date + "\n\n## Today's Goals\n- [ ] Goal 1\n- [ ] Goal 2\n\n## Progress\n-\n\n## Blockers\n-\n\n## Tomorrow\n-\n\n## Notes\n"@
}

/// A journal page for `date`.
pub fn generate_journal_template(date: &str) -> (r: String)
    ensures
        r@ == journal_template_text(date@),
{
    let mut r = owned("# Journal: ");
    push_str(&mut r, date);
    push_str(&mut r, "\n\n## Today's Goals\n- [ ] Goal 1\n- [ ] Goal 2\n\n## Progress\n-\n\n## Blockers\n-\n\n## Tomorrow\n-\n\n## Notes\n");
    r
}
/// The kinds of documents in the thoughts directory.
#[derive(Debug, Clone, Copy, PartialEq, Eq, Structural)]
pub enum ThoughtType {
    Research,
    Plan,
    Ticket,
    Pr,
    Scratch,
    Journal,
}

/// The name of a kind of document.
pub open spec fn thought_type_name(t: ThoughtType) -> Seq<char> {
    match t {
        ThoughtType::Research => "research"@,
        ThoughtType::Plan => "plan"@,
        ThoughtType::Ticket => "ticket"@,
        ThoughtType::Pr => "pr"@,
        ThoughtType::Scratch => "scratch"@,
        ThoughtType::Journal => "journal"@,
    }
}

impl ThoughtType {
    /// The name of this kind of document.
    pub fn to_string(&self) -> (r: String)
        ensures
            r@ == thought_type_name(*self),
    {
        match self {
            ThoughtType::Research => owned("research"),
            ThoughtType::Plan => owned("plan"),
            ThoughtType::Ticket => owned("ticket"),
            ThoughtType::Pr => owned("pr"),
            ThoughtType::Scratch => owned("scratch"),
            ThoughtType::Journal => owned("journal"),
        }
    }
}

/// The directory of a kind of document; scratch notes have none.
pub open spec fn thought_type_dir(t: ThoughtType) -> Seq<char> {
    match t {
        ThoughtType::Research => "research"@,
        ThoughtType::Plan => "plans"@,
        ThoughtType::Ticket => "tickets"@,
        ThoughtType::Pr => "prs"@,
        ThoughtType::Scratch => Seq::empty(),
        ThoughtType::Journal => "journal"@,
    }
}

/// The directory of a scope: the user's own for `personal`, `global`, and
/// `shared` for any other scope.
pub open spec fn scope_dir(scope: Seq<char>, username: Seq<char>) -> Seq<char> {
    if scope == "personal"@ {
        username
    } else if scope == "global"@ {
        "global"@
    } else {
        "shared"@
    }
}

/// Where a new document goes: under `thoughts/{scope dir}/{kind dir}`, named
/// by the slug of its title.
pub open spec fn thought_path_spec(t: ThoughtType, title: Seq<char>, scope: Seq<char>, username: Seq<char>) -> Seq<char> {
    let base = path_join_spec("thoughts"@, scope_dir(scope, username));
    let dir = if thought_type_dir(t).len() == 0 {
        base
    } else {
        path_join_spec(base, thought_type_dir(t))
    };
    path_join_spec(dir, slug_spec(title) + ".md"@)
}

/// Joining a segment that does not start at the root keeps `base` in front,
/// followed by a separator unless `base` ends in one.
proof fn lemma_join_keeps_base(base: Seq<char>, seg: Seq<char>)
    requires
        base.len() > 0,
        base.last() != '/',
        seg.len() > 0,
        seg[0] != '/',
    ensures
        path_join_spec(base, seg) == base + "/"@ + seg,
{
    reveal_strlit("/");
}

/// A new document lies under `thoughts/{folder}/`, where the folder is the
/// user's name for a personal document, `global` for a global one and
/// `shared` for any other scope; below it come the directory of its kind
/// (none for scratch notes) and the slug of its title with `.md` (for a
/// user name without `/`, and a title whose slug does not start with `/`,
/// as no slug does).
pub proof fn lemma_document_under_scope_folder(t: ThoughtType, title: Seq<char>, scope: Seq<char>, username: Seq<char>)
    ensures
        ({
            let folder = if scope == "personal"@ {
                username
            } else if scope == "global"@ {
                "global"@
            } else {
                "shared"@
            };
            let prefix = "thoughts/"@ + folder + "/"@;
            (username.len() > 0 && (forall|i: int| 0 <= i < username.len() ==> username[i] != '/') && (slug_spec(
                title,
            ).len() == 0 || slug_spec(title)[0] != '/')) ==> (prefix.len() <= thought_path_spec(
                t,
                title,
                scope,
                username,
            ).len() && thought_path_spec(t, title, scope, username).subrange(0, prefix.len() as int) == prefix
                && thought_path_spec(t, title, scope, username) == prefix + match t {
                ThoughtType::Research => "research/"@,
                ThoughtType::Plan => "plans/"@,
                ThoughtType::Ticket => "tickets/"@,
                ThoughtType::Pr => "prs/"@,
                ThoughtType::Scratch => Seq::<char>::empty(),
                ThoughtType::Journal => "journal/"@,
            } + slug_spec(title) + ".md"@)
        }),
{
    reveal_strlit("thoughts");
    reveal_strlit("thoughts/");
    reveal_strlit("/");
    reveal_strlit("personal");
    reveal_strlit("global");
    reveal_strlit("shared");
    reveal_strlit(".md");
    reveal_strlit("research");
    reveal_strlit("plans");
    reveal_strlit("tickets");
    reveal_strlit("prs");
    reveal_strlit("journal");
    reveal_strlit("research/");
    reveal_strlit("plans/");
    reveal_strlit("tickets/");
    reveal_strlit("prs/");
    reveal_strlit("journal/");
    let folder = if scope == "personal"@ {
        username
    } else if scope == "global"@ {
        "global"@
    } else {
        "shared"@
    };
    let prefix = "thoughts/"@ + folder + "/"@;
    if username.len() > 0 && (forall|i: int| 0 <= i < username.len() ==> username[i] != '/') && (slug_spec(
        title,
    ).len() == 0 || slug_spec(title)[0] != '/') {
        assert(folder == scope_dir(scope, username));
        assert(folder.len() > 0 && folder[0] != '/' && folder.last() != '/');
        lemma_join_keeps_base("thoughts"@, folder);
        let base = path_join_spec("thoughts"@, folder);
        assert(base =~= "thoughts/"@ + folder);
        let name = slug_spec(title) + ".md"@;
        assert(name.len() > 0 && name[0] != '/');
        let td = thought_type_dir(t);
        let dir = if td.len() == 0 {
            base
        } else {
            path_join_spec(base, td)
        };
        if td.len() > 0 {
            assert(td[0] != '/' && td.last() != '/');
            lemma_join_keeps_base(base, td);
        }
        assert(dir.len() >= base.len() && dir.subrange(0, base.len() as int) =~= base);
        assert(dir.last() != '/');
        assert(dir.len() > base.len() ==> dir[base.len() as int] == '/');
        lemma_join_keeps_base(dir, name);
        let r = thought_path_spec(t, title, scope, username);
        assert(r == dir + "/"@ + name);
        assert(r.subrange(0, prefix.len() as int) =~= prefix);
        if td.len() == 0 {
            assert(r =~= prefix + Seq::<char>::empty() + slug_spec(title) + ".md"@);
        } else {
            assert(dir == base + "/"@ + td);
            assert(r =~= prefix + (td + "/"@) + slug_spec(title) + ".md"@);
            assert(td + "/"@ =~= match t {
                ThoughtType::Research => "research/"@,
                ThoughtType::Plan => "plans/"@,
                ThoughtType::Ticket => "tickets/"@,
                ThoughtType::Pr => "prs/"@,
                ThoughtType::Scratch => Seq::<char>::empty(),
                ThoughtType::Journal => "journal/"@,
            });
        }
    }
}

/// The path of a new document of kind `t` titled `title` in scope `scope`
/// for user `username`.
pub fn thought_document_path(t: ThoughtType, title: &str, scope: &str, username: &str) -> (r: String)
    ensures
        r@ == thought_path_spec(t, title@, scope@, username@),
{
    let sub = if str_eq(scope, "personal") {
        owned(username)
    } else if str_eq(scope, "global") {
        owned("global")
    } else {
        owned("shared")
    };
    let base = path_join("thoughts", sub.as_str());
    let dir = match t {
        ThoughtType::Research => path_join(base.as_str(), "research"),
        ThoughtType::Plan => path_join(base.as_str(), "plans"),
        ThoughtType::Ticket => path_join(base.as_str(), "tickets"),
        ThoughtType::Pr => path_join(base.as_str(), "prs"),
        ThoughtType::Scratch => {
            assert(thought_type_dir(t).len() == 0);
            base
        },
        ThoughtType::Journal => path_join(base.as_str(), "journal"),
    };
    proof {
        reveal_strlit("research");
        reveal_strlit("plans");
        reveal_strlit("tickets");
        reveal_strlit("prs");
        reveal_strlit("journal");
    }
    let mut name = slugify(title);
    push_str(&mut name, ".md");
    path_join(dir.as_str(), name.as_str())
}

/// The starting text of a document of kind `t`.
pub open spec fn thought_content_spec(t: ThoughtType, title: Seq<char>, username: Seq<char>, date: Seq<char>) -> Seq<char> {
    match t {
        ThoughtType::Research => research_template_text(title, username, date),
        ThoughtType::Plan => plan_template_text(title, username, date),
        ThoughtType::Ticket => ticket_template_text(title, username, date),
        ThoughtType::Pr => pr_template_text(title, username, date),
        ThoughtType::Scratch => scratch_template_text(title, date),
        ThoughtType::Journal => journal_template_text(date),
    }
}

/// The starting text of a new document of kind `t`.
pub fn thought_document_content(t: ThoughtType, title: &str, username: &str, date: &str) -> (r: String)
    ensures
        r@ == thought_content_spec(t, title@, username@, date@),
{
    match t {
        ThoughtType::Research => generate_research_template(title, username, date),
        ThoughtType::Plan => generate_plan_template(title, username, date),
        ThoughtType::Ticket => generate_ticket_template(title, username, date),
        ThoughtType::Pr => generate_pr_template(title, username, date),
        ThoughtType::Scratch => generate_scratch_template(title, date),
        ThoughtType::Journal => generate_journal_template(date),
    }
}


/// The directories read for scope `scope`: `thoughts/shared`, the user's
/// own, or `thoughts/global`, and all three for any other scope or none.
pub open spec fn scope_dirs_spec(scope: Option<Seq<char>>, username: Seq<char>) -> Seq<Seq<char>> {
    let shared = path_join_spec("thoughts"@, "shared"@);
    let personal = path_join_spec("thoughts"@, username);
    let global = path_join_spec("thoughts"@, "global"@);
    match scope {
        Some(s) => if s == "shared"@ {
            seq![shared]
        } else if s == "personal"@ {
            seq![personal]
        } else if s == "global"@ {
            seq![global]
        } else {
            seq![shared, personal, global]
        },
        None => seq![shared, personal, global],
    }
}

/// The directories searched or listed for scope `scope` and user
/// `username`.
pub fn scope_dirs(scope: Option<&str>, username: &str) -> (r: Vec<String>)
    ensures
        views(r@) == scope_dirs_spec(
            match scope {
                Some(s) => Some(s@),
                None => None,
            },
            username@,
        ),
{
    let shared = path_join("thoughts", "shared");
    let personal = path_join("thoughts", username);
    let global = path_join("thoughts", "global");
    let mut r: Vec<String> = Vec::new();
    let which: u8 = match scope {
        Some(s) => if str_eq(s, "shared") {
            0
        } else if str_eq(s, "personal") {
            1
        } else if str_eq(s, "global") {
            2
        } else {
            3
        },
        None => 3,
    };
    if which == 0 {
        r.push(shared);
    } else if which == 1 {
        r.push(personal);
    } else if which == 2 {
        r.push(global);
    } else {
        r.push(shared);
        r.push(personal);
        r.push(global);
    }
    assert(views(r@) =~= scope_dirs_spec(
        match scope {
            Some(s) => Some(s@),
            None => None,
        },
        username@,
    ));
    r
}

/// What is opened: the given path under `thoughts`, else the directory of
/// the given scope (the user's own, `global`, or `shared` for any other),
/// else `thoughts` itself.
pub open spec fn open_target_spec(path: Option<Seq<char>>, scope: Option<Seq<char>>, username: Seq<char>) -> Seq<char> {
    match path {
        Some(p) => path_join_spec("thoughts"@, p),
        None => match scope {
            Some(s) => path_join_spec("thoughts"@, scope_dir(s, username)),
            None => "thoughts"@,
        },
    }
}

/// The path opened for `path` or, without one, for scope `scope`.
pub fn open_target(path: Option<&str>, scope: Option<&str>, username: &str) -> (r: String)
    ensures
        r@ == open_target_spec(
            match path {
                Some(p) => Some(p@),
                None => None,
            },
            match scope {
                Some(s) => Some(s@),
                None => None,
            },
            username@,
        ),
{
    match path {
        Some(p) => path_join("thoughts", p),
        None => match scope {
            Some(s) => {
                let sub = if str_eq(s, "personal") {
                    owned(username)
                } else if str_eq(s, "global") {
                    owned("global")
                } else {
                    owned("shared")
                };
                path_join("thoughts", sub.as_str())
            },
            None => owned("thoughts"),
        },
    }
}

/// A path separator becomes a hyphen.
pub open spec fn flatten_char(c: char) -> char {
    if c == '/' {
        '-'
    } else {
        c
    }
}

/// The name under which a document is linked in the searchable directory:
/// its path relative to `thoughts` with every `/` turned into `-`.
pub open spec fn searchable_name_spec(relative: Seq<char>) -> Seq<char> {
    relative.map_values(|c: char| flatten_char(c))
}

/// The searchable-directory name of the document at `relative`.
pub fn searchable_name(relative: &str) -> (r: String)
    ensures
        r@ == searchable_name_spec(relative@),
{
    let v = chars_of(relative);
    let mut r = String::new();
    let mut i: usize = 0;
    while i < v.len()
        invariant
            i <= v.len(),
            v@ == relative@,
            r@ == v@.take(i as int).map_values(|c: char| flatten_char(c)),
        decreases v.len() - i,
    {
        let c = v[i];
        let d = if c == '/' {
            '-'
        } else {
            c
        };
        push_char(&mut r, d);
        assert(v@.take(i + 1) =~= v@.take(i as int).push(c));
        assert(v@.take(i + 1).map_values(|c: char| flatten_char(c)) =~= v@.take(i as int).map_values(
            |c: char| flatten_char(c),
        ).push(d));
        i = i + 1;
    }
    assert(v@.take(v@.len() as int) =~= v@);
    r
}

/// A search hit at `path` is kept for kind `t`: any hit without a kind or
/// for scratch notes, else a hit whose path holds the kind's directory.
pub open spec fn search_keeps(path: Seq<char>, t: Option<ThoughtType>) -> bool {
    match t {
        Some(k) => thought_type_dir(k).len() == 0 || contains_seq(path, thought_type_dir(k)),
        None => true,
    }
}

/// Whether the search hit at `path` is kept for kind `t`.
pub fn search_hit_kept(path: &str, t: Option<ThoughtType>) -> (r: bool)
    ensures
        r == search_keeps(path@, t),
{
    proof {
        reveal_strlit("research");
        reveal_strlit("plans");
        reveal_strlit("tickets");
        reveal_strlit("prs");
        reveal_strlit("journal");
    }
    match t {
        Some(ThoughtType::Research) => str_contains(path, "research"),
        Some(ThoughtType::Plan) => str_contains(path, "plans"),
        Some(ThoughtType::Ticket) => str_contains(path, "tickets"),
        Some(ThoughtType::Pr) => str_contains(path, "prs"),
        Some(ThoughtType::Scratch) => true,
        Some(ThoughtType::Journal) => str_contains(path, "journal"),
        None => true,
    }
}

/// A listed document at `path` is kept for kind `t` when its path holds the
/// kind's name.
pub open spec fn list_keeps(path: Seq<char>, t: Option<ThoughtType>) -> bool {
    match t {
        Some(k) => contains_seq(path, thought_type_name(k)),
        None => true,
    }
}

/// Whether the listed document at `path` is kept for kind `t`.
pub fn list_entry_kept(path: &str, t: Option<ThoughtType>) -> (r: bool)
    ensures
        r == list_keeps(path@, t),
{
    match t {
        Some(k) => {
            let name = k.to_string();
            str_contains(path, name.as_str())
        },
        None => true,
    }
}

/// How long ago a document changed, `secs` seconds ago: whole minutes under
/// an hour, whole hours under a day, whole days from then on.
pub open spec fn short_age_spec(secs: nat) -> Seq<char> {
    if secs < 3600 {
        decimal(secs / 60) + "m ago"@
    } else if secs < 86400 {
        decimal(secs / 3600) + "h ago"@
    } else {
        decimal(secs / 86400) + "d ago"@
    }
}

/// The age shown beside a listed document changed `secs` seconds ago.
pub fn short_age_text(secs: u64) -> (r: String)
    ensures
        r@ == short_age_spec(secs as nat),
{
    let mut r = String::new();
    if secs < 3600 {
        push_decimal(&mut r, secs / 60);
        push_str(&mut r, "m ago");
    } else if secs < 86400 {
        push_decimal(&mut r, secs / 3600);
        push_str(&mut r, "h ago");
    } else {
        push_decimal(&mut r, secs / 86400);
        push_str(&mut r, "d ago");
    }
    r
}

/// Which ways a sync goes for direction `direction`: from the central
/// repository for `both` and `from-central`, to it for `both` and
/// `to-central`.
pub fn sync_directions(direction: &str) -> (r: (bool, bool))
    ensures
        r.0 == (direction@ == "both"@ || direction@ == "from-central"@),
        r.1 == (direction@ == "both"@ || direction@ == "to-central"@),
{
    let both = str_eq(direction, "both");
    (both || str_eq(direction, "from-central"), both || str_eq(direction, "to-central"))
}

/// The message of a sync commit: the given one, else `Sync: {stamp} from
/// {host}`.
pub fn sync_commit_message(message: Option<&str>, stamp: &str, host: &str) -> (r: String)
    ensures
        r@ == match message {
            Some(m) => m@,
            None => "Sync: "@ + stamp@ + " from "@ + host@,
        },
{
    match message {
        Some(m) => owned(m),
        None => {
            let mut r = owned("Sync: ");
            push_str(&mut r, stamp);
            push_str(&mut r, " from ");
            push_str(&mut r, host);
            r
        },
    }
}

/// The lines that keep the thoughts directory out of the code repository.
pub open spec fn ignore_entry() -> Seq<char> {
    "# PMSynapse thoughts (symlinked, do not commit)\nthoughts/\n"@
}

/// The ignore file after setup: unchanged (`None`) when it already names
/// `thoughts/`, else with the entry appended after a blank line, or the entry
/// alone when there is no file.
pub open spec fn ignore_file_spec(existing: Option<Seq<char>>) -> Option<Seq<char>> {
    match existing {
        Some(e) => if contains_seq(e, "thoughts/"@) {
            None
        } else {
            Some(e + "\n"@ + ignore_entry())
        },
        None => Some(ignore_entry()),
    }
}

/// The new text of the ignore file whose text is `existing` (`None` when
/// there is no file), or `None` when it needs no change.
pub fn ignore_file_with_thoughts(existing: Option<&str>) -> (r: Option<String>)
    ensures
        r matches Some(t) ==> ignore_file_spec(
            match existing {
                Some(e) => Some(e@),
                None => None,
            },
        ) == Some(t@),
        r is None ==> ignore_file_spec(
            match existing {
                Some(e) => Some(e@),
                None => None,
            },
        ) is None,
{
    match existing {
        Some(e) => {
            if str_contains(e, "thoughts/") {
                None
            } else {
                let mut r = owned(e);
                push_str(&mut r, "\n");
                push_str(&mut r, "# PMSynapse thoughts (symlinked, do not commit)\nthoughts/\n");
                Some(r)
            }
        },
        None => Some(owned("# PMSynapse thoughts (symlinked, do not commit)\nthoughts/\n")),
    }
}

/// The settings file of a project's thoughts.
pub open spec fn thoughts_settings_spec(
    profile: Seq<char>,
    storage: Seq<char>,
    remote: Option<Seq<char>>,
    username: Seq<char>,
) -> Seq<char> {
    "# Thoughts configuration for this project\nprofile: "@ + profile + "\nstorage: "@ + storage + "\nremote: "@
        + match remote {
        Some(r) => r,
        None => "null"@,
    } + "\nusername: "@ + username + "\n"@
}

/// The settings file for profile `profile`, storage `storage`, remote
/// `remote` (`null` without one) and user `username`.
pub fn thoughts_settings_text(profile: &str, storage: &str, remote: Option<&str>, username: &str) -> (r: String)
    ensures
        r@ == thoughts_settings_spec(
            profile@,
            storage@,
            match remote {
                Some(x) => Some(x@),
                None => None,
            },
            username@,
        ),
{
    let mut r = owned("# Thoughts configuration for this project\nprofile: ");
    push_str(&mut r, profile);
    push_str(&mut r, "\nstorage: ");
    push_str(&mut r, storage);
    push_str(&mut r, "\nremote: ");
    match remote {
        Some(x) => push_str(&mut r, x),
        None => push_str(&mut r, "null"),
    }
    push_str(&mut r, "\nusername: ");
    push_str(&mut r, username);
    push_str(&mut r, "\n");
    r
}

/// The git hook that keeps the thoughts directory out of commits.
pub const PRE_COMMIT_HOOK: &'static str = "#!/bin/bash\n# PMSynapse: Prevent thoughts/ from being committed to code repo\n\nif git diff --cached --name-only | grep -q \"^thoughts/\"; then\n    echo \"\u{274c} ERROR: thoughts/ directory should not be committed\"\n    echo \"\"\n    echo \"The thoughts/ directory is symlinked from your thoughts repository.\"\n    echo \"These files should be committed there instead:\"\n    echo \"\"\n    echo \"  snps thoughts sync -m 'Your message'\"\n    echo \"\"\n    echo \"If you really need to commit these files, use:\"\n    echo \"  git commit --no-verify\"\n    echo \"\"\n    exit 1\nfi\n\n# Continue with any existing pre-commit hooks\nif [ -f .git/hooks/pre-commit.backup ]; then\n    . .git/hooks/pre-commit.backup\nfi\n";

/// The git hook that syncs the thoughts after a commit.
pub const POST_COMMIT_HOOK: &'static str = "#!/bin/bash\n# PMSynapse: Auto-sync thoughts after commit\n\n# Only sync if thoughts directory exists\nif [ -d \"thoughts\" ]; then\n    snps thoughts sync --no-commit 2>/dev/null || true\nfi\n\n# Continue with any existing post-commit hooks\nif [ -f .git/hooks/post-commit.backup ]; then\n    . .git/hooks/post-commit.backup\nfi\n";

/// A hook file is one of this program's when it mentions `PMSynapse`.
pub open spec fn own_hook(text: Seq<char>) -> bool {
    contains_seq(text, "PMSynapse"@)
}

/// What to do about a hook file.
#[derive(Debug, Clone, Copy, PartialEq, Eq, Structural)]
pub enum HookStep {
    /// Leave another program's hook alone.
    Keep,
    /// Write the hook, first saving the hook found there when `backup`.
    Install { backup: bool },
}

/// What installing a hook over the file whose text is `existing` does: keep
/// another program's hook unless forced; otherwise install, saving a copy of
/// a hook that is not this program's.
pub open spec fn hook_step_spec(existing: Option<Seq<char>>, force: bool) -> HookStep {
    match existing {
        Some(e) => if own_hook(e) {
            HookStep::Install { backup: false }
        } else if force {
            HookStep::Install { backup: true }
        } else {
            HookStep::Keep
        },
        None => HookStep::Install { backup: false },
    }
}

/// The step for a hook over `existing` (`None` when there is no hook file).
pub fn hook_step(existing: Option<&str>, force: bool) -> (r: HookStep)
    ensures
        r == hook_step_spec(
            match existing {
                Some(e) => Some(e@),
                None => None,
            },
            force,
        ),
{
    match existing {
        Some(e) => {
            if str_contains(e, "PMSynapse") {
                HookStep::Install { backup: false }
            } else if force {
                HookStep::Install { backup: true }
            } else {
                HookStep::Keep
            }
        },
        None => HookStep::Install { backup: false },
    }
}

/// What is found at a hook's place.
#[derive(Debug, Clone, Copy, PartialEq, Eq, Structural)]
pub enum HookStatus {
    Installed,
    Foreign,
    Missing,
}

/// The state of the hook file whose text is `existing`.
pub fn hook_status(existing: Option<&str>) -> (r: HookStatus)
    ensures
        r == match existing {
            Some(e) => if own_hook(e@) {
                HookStatus::Installed
            } else {
                HookStatus::Foreign
            },
            None => HookStatus::Missing,
        },
{
    match existing {
        Some(e) => if str_contains(e, "PMSynapse") {
            HookStatus::Installed
        } else {
            HookStatus::Foreign
        },
        None => HookStatus::Missing,
    }
}

/// The hooks written are this program's own, so installing again over them
/// writes without saving a copy: the saved hook stays the one that was there
/// before the first install.
pub proof fn lemma_reinstall_keeps_backup(force: bool)
    ensures
        hook_step_spec(Some(PRE_COMMIT_HOOK@), force) == (HookStep::Install { backup: false }),
        hook_step_spec(Some(POST_COMMIT_HOOK@), force) == (HookStep::Install { backup: false }),
{
    reveal_strlit("PMSynapse");
    reveal_strlit("#!/bin/bash\n# PMSynapse: Prevent thoughts/ from being committed to code repo\n\nif git diff --cached --name-only | grep -q \"^thoughts/\"; then\n    echo \"\u{274c} ERROR: thoughts/ directory should not be committed\"\n    echo \"\"\n    echo \"The thoughts/ directory is symlinked from your thoughts repository.\"\n    echo \"These files should be committed there instead:\"\n    echo \"\"\n    echo \"  snps thoughts sync -m 'Your message'\"\n    echo \"\"\n    echo \"If you really need to commit these files, use:\"\n    echo \"  git commit --no-verify\"\n    echo \"\"\n    exit 1\nfi\n\n# Continue with any existing pre-commit hooks\nif [ -f .git/hooks/pre-commit.backup ]; then\n    . .git/hooks/pre-commit.backup\nfi\n");
    reveal_strlit("#!/bin/bash\n# PMSynapse: Auto-sync thoughts after commit\n\n# Only sync if thoughts directory exists\nif [ -d \"thoughts\" ]; then\n    snps thoughts sync --no-commit 2>/dev/null || true\nfi\n\n# Continue with any existing post-commit hooks\nif [ -f .git/hooks/post-commit.backup ]; then\n    . .git/hooks/post-commit.backup\nfi\n");
    assert(PRE_COMMIT_HOOK@.subrange(14, 23) =~= "PMSynapse"@);
    assert(occurs_at(PRE_COMMIT_HOOK@, "PMSynapse"@, 14));
    assert(POST_COMMIT_HOOK@.subrange(14, 23) =~= "PMSynapse"@);
    assert(occurs_at(POST_COMMIT_HOOK@, "PMSynapse"@, 14));
}


/// A line that sets the profile: it starts, after white space, with
/// `profile:`.
pub open spec fn is_profile_line(l: Seq<char>) -> bool {
    "profile:"@.is_prefix_of(trim_start_spec(l))
}

/// Whether `l` sets the profile.
fn profile_line(l: &str) -> (r: bool)
    ensures
        r == is_profile_line(l@),
{
    let v = chars_of(l);
    assert(v@.subrange(0, v@.len() as int) =~= l@);
    let t = trim_start_range(&v, 0, v.len());
    str_starts_with(t.as_str(), "profile:")
}

/// The line after switching to profile `name`: a line that sets the profile
/// becomes `  profile: {name}`; any other stays.
pub open spec fn switched_line(l: Seq<char>, name: Seq<char>) -> Seq<char> {
    if is_profile_line(l) {
        "  profile: "@ + name
    } else {
        l
    }
}

/// The project settings after switching to profile `name`: when they
/// mention `profile:`, their lines with each line that sets the profile
/// replaced, joined by newlines; otherwise they followed by a `thoughts`
/// section that sets it.
pub open spec fn switch_profile_spec(content: Seq<char>, name: Seq<char>) -> Seq<char> {
    if contains_seq(content, "profile:"@) {
        join_lines(text_lines(content).map_values(|l: Seq<char>| switched_line(l, name)))
    } else {
        content + "\nthoughts:\n  profile: "@ + name
    }
}

/// The project settings `content` switched to profile `name`.
pub fn switch_profile_text(content: &str, name: &str) -> (r: String)
    ensures
        r@ == switch_profile_spec(content@, name@),
{
    if !str_contains(content, "profile:") {
        let mut r = owned(content);
        push_str(&mut r, "\nthoughts:\n  profile: ");
        push_str(&mut r, name);
        return r;
    }
    let ls = lines_of(content);
    let ghost target = text_lines(content@).map_values(|l: Seq<char>| switched_line(l, name@));
    let mut out: Vec<String> = Vec::new();
    let mut i: usize = 0;
    while i < ls.len()
        invariant
            i <= ls.len(),
            views(ls@) == text_lines(content@),
            target == text_lines(content@).map_values(|l: Seq<char>| switched_line(l, name@)),
            views(out@) == target.take(i as int),
        decreases ls.len() - i,
    {
        let l = &ls[i];
        let line = if profile_line(l.as_str()) {
            let mut x = owned("  profile: ");
            push_str(&mut x, name);
            x
        } else {
            l.clone()
        };
        proof {
            assert(views(ls@)[i as int] == ls@[i as int]@);
            assert(line@ == target[i as int]);
            assert(views(out@.push(line)) =~= views(out@).push(line@));
            assert(target.take(i + 1) =~= target.take(i as int).push(target[i as int]));
        }
        out.push(line);
        i = i + 1;
    }
    assert(target.take(i as int) =~= target);
    join_with_newlines(&out)
}

/// The first line of `ls` that sets the profile, if any.
pub open spec fn first_profile_line(ls: Seq<Seq<char>>) -> Option<Seq<char>>
    decreases ls.len(),
{
    if ls.len() == 0 {
        None
    } else if is_profile_line(ls[0]) {
        Some(ls[0])
    } else {
        first_profile_line(ls.drop_first())
    }
}

/// The profile a line names: the text between its first and second `:`
/// (or to its end), trimmed; `personal` when it has no `:`.
pub open spec fn profile_value(line: Seq<char>) -> Seq<char> {
    match index_of_char(line, ':') {
        Some(i) => {
            let rest = line.skip(i + 1);
            match index_of_char(rest, ':') {
                Some(j) => trim_spec(rest.take(j)),
                None => trim_spec(rest),
            }
        },
        None => "personal"@,
    }
}

/// The profile that project settings `content` name, if any.
pub open spec fn configured_profile_spec(content: Seq<char>) -> Option<Seq<char>> {
    match first_profile_line(text_lines(content)) {
        Some(l) => Some(profile_value(l)),
        None => None,
    }
}

/// The profile named by the line `l`.
fn profile_value_of(l: &str) -> (r: String)
    ensures
        r@ == profile_value(l@),
{
    let v = chars_of(l);
    let i = find_char_from_pub(&v, ':', 0);
    assert(v@.skip(0) =~= v@);
    proof {
        lemma_index_of_char_pub(v@, ':');
    }
    if i == v.len() {
        return owned("personal");
    }
    let j = find_char_from_pub(&v, ':', i + 1);
    let ghost rest = l@.skip(i + 1);
    proof {
        assert(v@.skip(i + 1) =~= rest);
        lemma_index_of_char_pub(rest, ':');
    }
    assert(v@.subrange(i + 1, j as int) =~= match index_of_char(rest, ':') {
        Some(k) => rest.take(k),
        None => rest,
    });
    trim_range(&v, i + 1, j)
}

/// The profile that the project settings `content` name: the value of their
/// first line that sets one.
pub fn configured_profile(content: &str) -> (r: Option<String>)
    ensures
        match r {
            Some(p) => configured_profile_spec(content@) == Some(p@),
            None => configured_profile_spec(content@) is None,
        },
{
    let ls = lines_of(content);
    let mut i: usize = 0;
    assert(views(ls@).skip(0) =~= views(ls@));
    while i < ls.len()
        invariant
            i <= ls.len(),
            views(ls@) == text_lines(content@),
            first_profile_line(views(ls@).skip(i as int)) == first_profile_line(text_lines(content@)),
        decreases ls.len() - i,
    {
        let l = &ls[i];
        proof {
            assert(views(ls@)[i as int] == ls@[i as int]@);
            assert(views(ls@).skip(i as int)[0] == ls@[i as int]@);
            assert(views(ls@).skip(i as int).drop_first() =~= views(ls@).skip(i + 1));
        }
        if profile_line(l.as_str()) {
            return Some(profile_value_of(l.as_str()));
        }
        i = i + 1;
    }
    assert(views(ls@).skip(i as int).len() == 0);
    None
}

/// The settings file of thoughts profile `name`, kept in `repo` (the
/// profile's own directory `profile_dir` when none is given), with remote
/// `remote` (`null` without one).
pub fn profile_settings_text(name: &str, repo: Option<&str>, profile_dir: &str, remote: Option<&str>) -> (r: String)
    ensures
        r@ == "name: "@ + name@ + "\nrepo: "@ + match repo {
            Some(x) => x@,
            None => profile_dir@,
        } + "\nremote: "@ + match remote {
            Some(x) => x@,
            None => "null"@,
        } + "\n"@,
{
    let mut r = owned("name: ");
    push_str(&mut r, name);
    push_str(&mut r, "\nrepo: ");
    match repo {
        Some(x) => push_str(&mut r, x),
        None => push_str(&mut r, profile_dir),
    }
    push_str(&mut r, "\nremote: ");
    match remote {
        Some(x) => push_str(&mut r, x),
        None => push_str(&mut r, "null"),
    }
    push_str(&mut r, "\n");
    r
}


/// A listed document as plain values: its path and the time it changed.
pub open spec fn entry_views(v: Seq<(String, i128)>) -> Seq<(Seq<char>, int)> {
    v.map_values(|e: (String, i128)| (e.0@, e.1 as int))
}

/// Stable insertion of `e` into a list ordered newest first: after every
/// entry that changed at the same time or later.
pub open spec fn insert_newest(s: Seq<(Seq<char>, int)>, e: (Seq<char>, int)) -> Seq<(Seq<char>, int)>
    decreases s.len(),
{
    if s.len() == 0 {
        seq![e]
    } else if s.last().1 >= e.1 {
        s.push(e)
    } else {
        insert_newest(s.drop_last(), e).push(s.last())
    }
}

/// The entries newest first, those that changed at the same time kept in
/// order (a stable sort by decreasing time).
pub open spec fn newest_first(u: Seq<(Seq<char>, int)>) -> Seq<(Seq<char>, int)>
    decreases u.len(),
{
    if u.len() == 0 {
        Seq::empty()
    } else {
        insert_newest(newest_first(u.drop_last()), u.last())
    }
}

/// Where `insert_newest` puts an entry that changed at time `t`.
pub open spec fn newest_slot(s: Seq<(Seq<char>, int)>, t: int) -> int
    decreases s.len(),
{
    if s.len() == 0 {
        0
    } else if s.last().1 >= t {
        s.len() as int
    } else {
        newest_slot(s.drop_last(), t)
    }
}

proof fn lemma_insert_newest(s: Seq<(Seq<char>, int)>, e: (Seq<char>, int))
    ensures
        0 <= newest_slot(s, e.1) <= s.len(),
        insert_newest(s, e) == s.take(newest_slot(s, e.1)).push(e) + s.skip(newest_slot(s, e.1)),
    decreases s.len(),
{
    if s.len() == 0 {
        assert(s.take(0).push(e) + s.skip(0) =~= seq![e]);
    } else if s.last().1 >= e.1 {
        assert(s.take(s.len() as int).push(e) + s.skip(s.len() as int) =~= s.push(e));
    } else {
        lemma_insert_newest(s.drop_last(), e);
        let j = newest_slot(s.drop_last(), e.1);
        assert(s.drop_last().take(j) =~= s.take(j));
        assert((s.drop_last().take(j).push(e) + s.drop_last().skip(j)).push(s.last()) =~= s.take(j).push(e) + s.skip(j));
    }
}

/// The entries of `s` whose path holds the name of kind `t` (all of them
/// without a kind), in order.
pub open spec fn kept_entries(s: Seq<(Seq<char>, int)>, t: Option<ThoughtType>) -> Seq<(Seq<char>, int)>
    decreases s.len(),
{
    if s.len() == 0 {
        Seq::empty()
    } else {
        let p = kept_entries(s.drop_last(), t);
        if list_keeps(s.last().0, t) {
            p.push(s.last())
        } else {
            p
        }
    }
}

/// The paths of the entries `s`.
pub open spec fn entry_paths(s: Seq<(Seq<char>, int)>) -> Seq<Seq<char>> {
    s.map_values(|e: (Seq<char>, int)| e.0)
}

/// The listing of documents `entries` (paths and change times): newest
/// first, only those of kind `t` when given, then the `recent` newest of
/// those when given.
pub open spec fn listing_spec(
    entries: Seq<(Seq<char>, int)>,
    t: Option<ThoughtType>,
    recent: Option<usize>,
) -> Seq<Seq<char>> {
    let kept = kept_entries(newest_first(entries), t);
    let cut = match recent {
        Some(n) => if n < kept.len() {
            kept.take(n as int)
        } else {
            kept
        },
        None => kept,
    };
    entry_paths(cut)
}

/// Inserts `e` after the last entry of `v` that changed at the same time or
/// later.
fn insert_by_time(v: &mut Vec<(String, i128)>, e: (String, i128))
    ensures
        entry_views(final(v)@) == insert_newest(entry_views(old(v)@), (e.0@, e.1 as int)),
{
    let ghost u = entry_views(v@);
    let mut j = v.len();
    assert(u.take(j as int) =~= u);
    while j > 0 && v[j - 1].1 < e.1
        invariant
            j <= v.len(),
            v@ == old(v)@,
            u == entry_views(v@),
            newest_slot(u, e.1 as int) == newest_slot(u.take(j as int), e.1 as int),
        decreases j,
    {
        assert(u.take(j as int).drop_last() =~= u.take(j - 1));
        j = j - 1;
    }
    proof {
        if j > 0 {
            assert(u.take(j as int).last() == u[j - 1]);
        }
        lemma_insert_newest(u, (e.0@, e.1 as int));
    }
    let ghost ev = (e.0@, e.1 as int);
    v.insert(j, e);
    assert(entry_views(v@) =~= u.take(j as int).push(ev) + u.skip(j as int));
}

proof fn lemma_kept_insert_newest(s: Seq<(Seq<char>, int)>, e: (Seq<char>, int), t: Option<ThoughtType>)
    ensures
        kept_entries(insert_newest(s, e), t).len() == kept_entries(s, t).len() + if list_keeps(e.0, t) {
            1int
        } else {
            0int
        },
    decreases s.len(),
{
    if s.len() == 0 {
        assert(insert_newest(s, e) == seq![e]);
        assert(seq![e].drop_last() =~= s);
        assert(seq![e].last() == e);
        assert(kept_entries(s, t).len() == 0);
    } else if s.last().1 >= e.1 {
        assert(insert_newest(s, e) == s.push(e));
        assert(s.push(e).drop_last() =~= s);
        assert(s.push(e).last() == e);
    } else {
        lemma_kept_insert_newest(s.drop_last(), e, t);
        let q = insert_newest(s.drop_last(), e);
        let r = q.push(s.last());
        assert(insert_newest(s, e) == r);
        assert(r.drop_last() =~= q);
        assert(r.last() == s.last());
        assert(kept_entries(r, t).len() == kept_entries(q, t).len() + if list_keeps(s.last().0, t) {
            1int
        } else {
            0int
        });
        assert(kept_entries(s, t).len() == kept_entries(s.drop_last(), t).len() + if list_keeps(s.last().0, t) {
            1int
        } else {
            0int
        });
    }
}

proof fn lemma_kept_newest_first(u: Seq<(Seq<char>, int)>, t: Option<ThoughtType>)
    ensures
        kept_entries(newest_first(u), t).len() == kept_entries(u, t).len(),
    decreases u.len(),
{
    if u.len() > 0 {
        lemma_kept_newest_first(u.drop_last(), t);
        lemma_kept_insert_newest(newest_first(u.drop_last()), u.last(), t);
    }
}

proof fn lemma_kept_entries_keep(s: Seq<(Seq<char>, int)>, t: Option<ThoughtType>)
    ensures
        forall|i: int| 0 <= i < kept_entries(s, t).len() ==> list_keeps(#[trigger] kept_entries(s, t)[i].0, t),
    decreases s.len(),
{
    if s.len() > 0 {
        lemma_kept_entries_keep(s.drop_last(), t);
        let p = kept_entries(s.drop_last(), t);
        assert forall|i: int| 0 <= i < kept_entries(s, t).len() implies list_keeps(
            #[trigger] kept_entries(s, t)[i].0,
            t,
        ) by {
            if i < p.len() {
                assert(kept_entries(s, t)[i] == p[i]);
                assert(list_keeps(p[i].0, t));
            }
        }
    }
}

/// A listing of the `n` newest documents of kind `t` holds documents of
/// that kind only, and holds `n` of them whenever at least `n` of the given
/// documents are of that kind (all of them otherwise).
pub proof fn lemma_listing_of_kind(entries: Seq<(Seq<char>, int)>, t: ThoughtType, n: usize)
    ensures
        forall|i: int|
            0 <= i < listing_spec(entries, Some(t), Some(n)).len() ==> contains_seq(
                #[trigger] listing_spec(entries, Some(t), Some(n))[i],
                thought_type_name(t),
            ),
        listing_spec(entries, Some(t), Some(n)).len() == if n <= kept_entries(entries, Some(t)).len() {
            n as int
        } else {
            kept_entries(entries, Some(t)).len() as int
        },
{
    let kept = kept_entries(newest_first(entries), Some(t));
    lemma_kept_newest_first(entries, Some(t));
    lemma_kept_entries_keep(newest_first(entries), Some(t));
    assert forall|i: int| 0 <= i < listing_spec(entries, Some(t), Some(n)).len() implies contains_seq(
        #[trigger] listing_spec(entries, Some(t), Some(n))[i],
        thought_type_name(t),
    ) by {
        assert(list_keeps(kept[i].0, Some(t)));
    }
}

/// The paths listed of documents `entries` (each with the time it changed,
/// in nanoseconds from the Unix epoch): newest first, only those whose path
/// holds the name of kind `doc_type` when given, then the `recent` newest of
/// those when given.
pub fn select_listing(entries: Vec<(String, i128)>, doc_type: Option<ThoughtType>, recent: Option<usize>) -> (r: Vec<
    String,
>)
    ensures
        views(r@) == listing_spec(entry_views(entries@), doc_type, recent),
{
    let ghost all = entry_views(entries@);
    let mut sorted: Vec<(String, i128)> = Vec::new();
    let mut rest = entries;
    let mut i: usize = 0;
    let ghost orig = rest@;
    let total = rest.len();
    assert(all.take(0) =~= Seq::<(Seq<char>, int)>::empty());
    assert(entry_views(sorted@) =~= Seq::<(Seq<char>, int)>::empty());
    while rest.len() > 0
        invariant
            i <= orig.len(),
            orig.len() == total,
            all == entry_views(orig),
            rest@ == orig.skip(i as int),
            entry_views(sorted@) == newest_first(all.take(i as int)),
        decreases rest.len(),
    {
        let e = rest.remove(0);
        proof {
            assert(e == orig[i as int]);
            let t1 = all.take(i + 1);
            assert(t1.drop_last() =~= all.take(i as int));
            assert(t1.last() == all[i as int]);
            assert(orig.skip(i + 1) =~= orig.skip(i as int).drop_first());
        }
        insert_by_time(&mut sorted, e);
        i = i + 1;
    }
    assert(all.take(i as int) =~= all);
    let ghost sv = entry_views(sorted@);
    let mut kept: Vec<String> = Vec::new();
    let ghost mut kept_view: Seq<(Seq<char>, int)> = Seq::empty();
    let mut k: usize = 0;
    assert(sv.take(0) =~= Seq::<(Seq<char>, int)>::empty());
    assert(views(kept@) =~= entry_paths(kept_view));
    while k < sorted.len()
        invariant
            k <= sorted.len(),
            sv == entry_views(sorted@),
            kept_view == kept_entries(sv.take(k as int), doc_type),
            views(kept@) == entry_paths(kept_view),
        decreases sorted.len() - k,
    {
        proof {
            let t1 = sv.take(k + 1);
            assert(t1.drop_last() =~= sv.take(k as int));
            assert(t1.last() == sv[k as int]);
            assert(sv[k as int] == (sorted@[k as int].0@, sorted@[k as int].1 as int));
        }
        let path = sorted[k].0.clone();
        if list_entry_kept(path.as_str(), doc_type) {
            let ghost old_kept = kept@;
            proof {
                kept_view = kept_view.push(sv[k as int]);
            }
            kept.push(path);
            assert(kept@ == old_kept.push(path));
            assert(path@ == sv[k as int].0);
            assert(views(kept@) =~= views(old_kept).push(path@));
            assert(entry_paths(kept_view) =~= entry_paths(kept_view.drop_last()).push(sv[k as int].0));
            assert(kept_view.drop_last() =~= kept_entries(sv.take(k as int), doc_type));
            assert(views(kept@) =~= entry_paths(kept_view));
        }
        k = k + 1;
    }
    assert(sv.take(sorted.len() as int) =~= sv);
    let limit = match recent {
        Some(n) => if n < kept.len() {
            n
        } else {
            kept.len()
        },
        None => kept.len(),
    };
    let mut out: Vec<String> = Vec::new();
    let mut j: usize = 0;
    while j < limit
        invariant
            j <= limit <= kept.len(),
            views(out@) == views(kept@).take(j as int),
        decreases limit - j,
    {
        let p = kept[j].clone();
        assert(p@ == views(kept@)[j as int]);
        assert(views(out@.push(p)) =~= views(out@).push(p@));
        assert(views(kept@).take(j + 1) =~= views(kept@).take(j as int).push(views(kept@)[j as int]));
        out.push(p);
        j = j + 1;
    }
    proof {
        let cut = match recent {
            Some(n) => if n < kept_view.len() {
                kept_view.take(n as int)
            } else {
                kept_view
            },
            None => kept_view,
        };
        assert(entry_paths(cut) =~= views(kept@).take(limit as int));
    }
    out
}

} // verus!
