use vstd::prelude::*;

use crate::templates::Template;
use crate::text::{chars_of, contains, ends_with, find_in, occurs_at, push_all, string_of};

verus! {

pub open spec fn header_open() -> Seq<char> {
    seq!['#', ' ', '-', '-', '-', ' ']
}

pub open spec fn header_close() -> Seq<char> {
    seq![' ', '-', '-', '-', '\n']
}

pub open spec fn newline() -> Seq<char> {
    seq!['\n']
}

/// The header line of a template section.
pub open spec fn header(name: Seq<char>) -> Seq<char> {
    header_open() + name + header_close()
}

/// `content` with a trailing newline guaranteed.
pub open spec fn terminated(content: Seq<char>) -> Seq<char> {
    if ends_with(content, newline()) {
        content
    } else {
        content + newline()
    }
}

/// One section: header line, content ending in a newline, then a blank line.
pub open spec fn section(name: Seq<char>, content: Seq<char>) -> Seq<char> {
    header(name) + terminated(content) + newline()
}

/// All sections, in order: the whole text of an overwrite or of a dry run.
pub open spec fn rendered(ts: Seq<Template>) -> Seq<char>
    decreases ts.len(),
{
    if ts.len() == 0 {
        Seq::empty()
    } else {
        rendered(ts.drop_last()) + section(ts.last().name@, ts.last().content@)
    }
}

/// A template is skipped in append mode when the file read at the start is non-empty
/// and already contains the template's content.
pub open spec fn is_skipped(existing: Seq<char>, content: Seq<char>) -> bool {
    existing.len() > 0 && contains(existing, content)
}

/// The text that append mode adds after the file's current bytes. `file_nonempty` says
/// whether the file had any bytes when it was opened.
pub open spec fn appended_text(existing: Seq<char>, file_nonempty: bool, ts: Seq<Template>) -> Seq<char>
    decreases ts.len(),
{
    if ts.len() == 0 {
        Seq::empty()
    } else {
        let prev = appended_text(existing, file_nonempty, ts.drop_last());
        let t = ts.last();
        if is_skipped(existing, t.content@) {
            prev
        } else if file_nonempty || prev.len() > 0 {
            prev + newline() + section(t.name@, t.content@)
        } else {
            prev + section(t.name@, t.content@)
        }
    }
}

/// What append mode does: the text to add at the end of the file, and for each template
/// whether it was skipped as already present.
pub struct AppendPlan {
    pub text: String,
    pub skipped: Vec<bool>,
}

fn push_section(out: &mut Vec<char>, name: &Vec<char>, content: &Vec<char>)
    ensures
        final(out)@ == old(out)@ + section(name@, content@),
{
    out.push('#');
    out.push(' ');
    out.push('-');
    out.push('-');
    out.push('-');
    out.push(' ');
    push_all(out, name);
    out.push(' ');
    out.push('-');
    out.push('-');
    out.push('-');
    out.push('\n');
    push_all(out, content);
    let n = content.len();
    let ends = n > 0 && content[n - 1] == '\n';
    assert(ends == ends_with(content@, newline())) by {
        if n > 0 {
            let last = content@.subrange(n - 1, n as int);
            if content@[n - 1] == '\n' {
                assert(last =~= newline());
            } else {
                assert(last[0] != newline()[0]);
            }
        }
    }
    if !ends {
        out.push('\n');
    }
    out.push('\n');
    assert(final(out)@ =~= old(out)@ + section(name@, content@));
}

/// The text that overwrite mode writes and that a dry run prints: every template as a
/// section, in order.
pub fn render_templates(templates: &Vec<Template>) -> (r: String)
    ensures
        r@ == rendered(templates@),
{
    let mut out: Vec<char> = Vec::new();
    let mut i: usize = 0;
    while i < templates.len()
        invariant
            i <= templates.len(),
            out@ == rendered(templates@.subrange(0, i as int)),
        decreases templates.len() - i,
    {
        let name = chars_of(templates[i].name.as_str());
        let content = chars_of(templates[i].content.as_str());
        push_section(&mut out, &name, &content);
        assert(templates@.subrange(0, i + 1).drop_last() =~= templates@.subrange(0, i as int));
        i = i + 1;
    }
    assert(templates@.subrange(0, i as int) =~= templates@);
    string_of(&out)
}

/// What append mode adds to a file whose text, read once at the start, is `existing`,
/// and which held bytes when opened exactly when `file_nonempty`.
pub fn plan_append(existing: &String, file_nonempty: bool, templates: &Vec<Template>) -> (r: AppendPlan)
    ensures
        r.text@ == appended_text(existing@, file_nonempty, templates@),
        r.skipped@.len() == templates@.len(),
        forall|i: int| 0 <= i < templates@.len()
            ==> r.skipped@[i] == is_skipped(existing@, templates@[i].content@),
{
    let old_text = chars_of(existing.as_str());
    let mut out: Vec<char> = Vec::new();
    let mut skipped: Vec<bool> = Vec::new();
    let mut i: usize = 0;
    while i < templates.len()
        invariant
            i <= templates.len(),
            old_text@ == existing@,
            out@ == appended_text(existing@, file_nonempty, templates@.subrange(0, i as int)),
            skipped@.len() == i,
            forall|k: int| 0 <= k < i ==> skipped@[k] == is_skipped(existing@, templates@[k].content@),
        decreases templates.len() - i,
    {
        let name = chars_of(templates[i].name.as_str());
        let content = chars_of(templates[i].content.as_str());
        let skip = old_text.len() > 0 && find_in(&old_text, &content);
        assert(templates@.subrange(0, i + 1).drop_last() =~= templates@.subrange(0, i as int));
        if !skip {
            if file_nonempty || out.len() > 0 {
                out.push('\n');
            }
            push_section(&mut out, &name, &content);
        }
        skipped.push(skip);
        i = i + 1;
    }
    assert(templates@.subrange(0, i as int) =~= templates@);
    AppendPlan { text: string_of(&out), skipped }
}

proof fn lemma_contains_extend(hay: Seq<char>, ext: Seq<char>, needle: Seq<char>)
    requires
        contains(hay, needle),
    ensures
        contains(hay + ext, needle),
{
    let i = choose|i: int| occurs_at(needle, hay, i);
    assert((hay + ext).subrange(i, i + needle.len()) =~= hay.subrange(i, i + needle.len()));
    assert(occurs_at(needle, hay + ext, i));
}

proof fn lemma_section_holds_content(before: Seq<char>, name: Seq<char>, content: Seq<char>)
    ensures
        contains(before + section(name, content), content),
{
    let all = before + section(name, content);
    let at: int = (before.len() + header(name).len()) as int;
    assert(all.subrange(at, at + content.len()) =~= content);
    assert(occurs_at(content, all, at));
}

/// After one append, every template's content is present in the file.
proof fn lemma_all_present(existing: Seq<char>, file_nonempty: bool, ts: Seq<Template>)
    ensures
        forall|i: int| 0 <= i < ts.len()
            ==> contains(existing + appended_text(existing, file_nonempty, ts), #[trigger] ts[i].content@),
    decreases ts.len(),
{
    if ts.len() > 0 {
        let prev = appended_text(existing, file_nonempty, ts.drop_last());
        let cur = appended_text(existing, file_nonempty, ts);
        lemma_all_present(existing, file_nonempty, ts.drop_last());
        let rest = cur.subrange(prev.len() as int, cur.len() as int);
        assert(cur =~= prev + rest);
        assert((existing + prev) + rest =~= existing + cur);
        assert forall|i: int| 0 <= i < ts.len() implies contains(existing + cur, #[trigger] ts[i].content@) by {
            if i < ts.len() - 1 {
                assert(ts.drop_last()[i] == ts[i]);
                lemma_contains_extend(existing + prev, rest, ts[i].content@);
            } else {
                let t = ts.last();
                if is_skipped(existing, t.content@) {
                    lemma_contains_extend(existing, cur, t.content@);
                } else if file_nonempty || prev.len() > 0 {
                    assert(existing + cur =~= (existing + prev + newline()) + section(t.name@, t.content@));
                    lemma_section_holds_content(existing + prev + newline(), t.name@, t.content@);
                } else {
                    assert(existing + cur =~= (existing + prev) + section(t.name@, t.content@));
                    lemma_section_holds_content(existing + prev, t.name@, t.content@);
                }
            }
        }
    }
}

proof fn lemma_nothing_when_all_skipped(existing: Seq<char>, file_nonempty: bool, ts: Seq<Template>)
    requires
        forall|i: int| 0 <= i < ts.len() ==> is_skipped(existing, #[trigger] ts[i].content@),
    ensures
        appended_text(existing, file_nonempty, ts) == Seq::<char>::empty(),
    decreases ts.len(),
{
    if ts.len() > 0 {
        assert forall|i: int| 0 <= i < ts.drop_last().len() implies is_skipped(existing, #[trigger] ts.drop_last()[i].content@) by {
            assert(ts.drop_last()[i] == ts[i]);
        }
        lemma_nothing_when_all_skipped(existing, file_nonempty, ts.drop_last());
        assert(is_skipped(existing, ts[ts.len() - 1].content@));
    }
}

proof fn lemma_nonempty_after_append(existing: Seq<char>, ts: Seq<Template>)
    requires
        ts.len() > 0,
        existing.len() == 0,
    ensures
        appended_text(existing, false, ts).len() > 0,
{
}

/// Appending the same templates a second time, to the file as the first append left it,
/// adds nothing: every template's content is then already in the file.
pub proof fn append_is_idempotent(existing: Seq<char>, templates: Seq<Template>)
    ensures
        ({
            let once = existing + appended_text(existing, existing.len() > 0, templates);
            appended_text(once, once.len() > 0, templates) == Seq::<char>::empty()
        }),
{
    let once = existing + appended_text(existing, existing.len() > 0, templates);
    if templates.len() > 0 {
        if existing.len() == 0 {
            lemma_nonempty_after_append(existing, templates);
        }
        assert(once.len() > 0);
        lemma_all_present(existing, existing.len() > 0, templates);
        lemma_nothing_when_all_skipped(once, once.len() > 0, templates);
    }
}

} // verus!
