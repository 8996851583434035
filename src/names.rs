use vstd::prelude::*;
use vstd::string::StrSliceExecFns;

use crate::listing::{suffix_chars, template_suffix};
use crate::templates::{FetchError, Template};
use crate::text::{chars_of, push_all, starts_with, string_of};

verus! {

/// The prefix that marks a built-in flag rather than a template name.
pub open spec fn flag_prefix() -> Seq<char> {
    seq!['-', '-']
}

/// What `char::to_uppercase` yields for `c`, as a string.
pub uninterp spec fn upper_of(c: char) -> Seq<char>;

/// Relies on `char::to_uppercase`, collected into a string: the upper-case mapping of `c`,
/// which depends on `c` alone.
#[verifier::external_body]
fn char_to_upper(c: char) -> (r: String)
    ensures
        r@ == upper_of(c),
{
    c.to_uppercase().collect()
}

/// `s` with its first character replaced by `upper`, unless `s` is a flag or empty, which
/// stay as they are.
pub open spec fn capitalized(s: Seq<char>, upper: Seq<char>) -> Seq<char> {
    if starts_with(s, flag_prefix()) || s.len() == 0 {
        s
    } else {
        upper + s.drop_first()
    }
}

/// A user-supplied name as it is looked up: flags pass unchanged, any other name gets
/// its first character upper-cased and keeps the rest as it is.
pub open spec fn normalized(s: Seq<char>) -> Seq<char> {
    capitalized(s, upper_of(s[0]))
}

fn is_flag(cs: &Vec<char>) -> (r: bool)
    ensures
        r == starts_with(cs@, flag_prefix()),
{
    if cs.len() >= 2 && cs[0] == '-' && cs[1] == '-' {
        assert(cs@.subrange(0, 2) =~= flag_prefix());
        true
    } else {
        assert(!starts_with(cs@, flag_prefix())) by {
            if cs.len() >= 2 {
                assert(cs@.subrange(0, 2)[0] == cs@[0]);
                assert(cs@.subrange(0, 2)[1] == cs@[1]);
            }
        }
        false
    }
}

/// `input` with its first character replaced by `upper`, the upper-case form of that
/// character; flags and the empty name are returned unchanged.
pub fn capitalize_with(input: String, upper: &str) -> (r: String)
    ensures
        r@ == capitalized(input@, upper@),
{
    let cs = chars_of(input.as_str());
    if is_flag(&cs) || cs.len() == 0 {
        return input;
    }
    let mut out = chars_of(upper);
    let mut i: usize = 1;
    while i < cs.len()
        invariant
            1 <= i <= cs.len(),
            out@ == upper@ + cs@.subrange(1, i as int),
        decreases cs.len() - i,
    {
        out.push(cs[i]);
        i = i + 1;
        assert(cs@.subrange(1, i as int) =~= cs@.subrange(1, i - 1).push(cs@[i - 1]));
    }
    assert(cs@.subrange(1, i as int) =~= cs@.drop_first());
    string_of(&out)
}

pub fn normalize_type(input: String) -> (r: String)
    ensures
        r@ == normalized(input@),
{
    let cs = chars_of(input.as_str());
    if is_flag(&cs) || cs.len() == 0 {
        return input;
    }
    let up = char_to_upper(cs[0]);
    capitalize_with(input, up.as_str())
}

/// Every name in `names`, normalized, in order.
pub fn normalize_all(names: Vec<String>) -> (r: Vec<String>)
    ensures
        r@.len() == names@.len(),
        forall|i: int| 0 <= i < names@.len() ==> r@[i]@ == normalized(#[trigger] names@[i]@),
{
    let mut out: Vec<String> = Vec::new();
    let mut i: usize = 0;
    while i < names.len()
        invariant
            i <= names.len(),
            out@.len() == i,
            forall|k: int| 0 <= k < i ==> out@[k]@ == normalized(#[trigger] names@[k]@),
        decreases names.len() - i,
    {
        let n = names[i].clone();
        out.push(normalize_type(n));
        i = i + 1;
    }
    out
}

pub open spec fn macos_flag() -> Seq<char> {
    seq!['-', '-', 'm', 'a', 'c', 'o', 's']
}

pub open spec fn locks_flag() -> Seq<char> {
    seq!['-', '-', 'l', 'o', 'c', 'k', 's']
}

pub open spec fn macos_snippet() -> Seq<char> {
    "# Desktop Service Store Mac\n.DS_Store\n"@
}

pub open spec fn locks_snippet() -> Seq<char> {
    "# Lock Files\npackage-lock.json\nyarn.lock\n"@
}

/// The canned content of a built-in flag; no other name has one.
pub open spec fn builtin_content(name: Seq<char>) -> Option<Seq<char>> {
    if name == macos_flag() {
        Some(macos_snippet())
    } else if name == locks_flag() {
        Some(locks_snippet())
    } else {
        None
    }
}

fn same_chars(a: &Vec<char>, b: &Vec<char>) -> (r: bool)
    ensures
        r == (a@ == b@),
{
    if a.len() != b.len() {
        return false;
    }
    let mut i: usize = 0;
    while i < a.len()
        invariant
            a.len() == b.len(),
            i <= a.len(),
            forall|k: int| 0 <= k < i ==> a@[k] == b@[k],
        decreases a.len() - i,
    {
        if a[i] != b[i] {
            return false;
        }
        i = i + 1;
    }
    assert(a@ =~= b@);
    true
}

pub fn built_in_flag(flag: &str) -> (r: Option<String>)
    ensures
        r matches Some(c) ==> builtin_content(flag@) == Some(c@),
        r is None ==> builtin_content(flag@) is None,
{
    let cs = chars_of(flag);
    let macos = vec!['-', '-', 'm', 'a', 'c', 'o', 's'];
    let locks = vec!['-', '-', 'l', 'o', 'c', 'k', 's'];
    assert(macos@ =~= macos_flag());
    assert(locks@ =~= locks_flag());
    if same_chars(&cs, &macos) {
        Some("# Desktop Service Store Mac\n.DS_Store\n".to_owned())
    } else if same_chars(&cs, &locks) {
        Some("# Lock Files\npackage-lock.json\nyarn.lock\n".to_owned())
    } else {
        None
    }
}

pub open spec fn raw_base_url() -> Seq<char> {
    "https://raw.githubusercontent.com/github/gitignore/master/"@
}

/// Where a template's raw text is fetched from.
pub open spec fn template_url_of(name: Seq<char>) -> Seq<char> {
    raw_base_url() + name + template_suffix()
}

/// How a template is obtained: canned, or by a request to a URL.
pub enum TemplateSource {
    BuiltIn(Template),
    Remote(String),
}

pub fn template_url(name: &String) -> (r: String)
    ensures
        r@ == template_url_of(name@),
{
    let mut out = chars_of("https://raw.githubusercontent.com/github/gitignore/master/");
    let n = chars_of(name.as_str());
    push_all(&mut out, &n);
    let s = suffix_chars();
    push_all(&mut out, &s);
    string_of(&out)
}

/// The source of the template named `name`: a built-in flag is canned, any other name
/// is fetched from its URL.
pub fn template_source(name: &String) -> (r: TemplateSource)
    ensures
        builtin_content(name@) matches Some(c) ==> (r matches TemplateSource::BuiltIn(t) && t.name@
            == name@ && t.content@ == c),
        builtin_content(name@) is None ==> (r matches TemplateSource::Remote(url) && url@
            == template_url_of(name@)),
{
    match built_in_flag(name.as_str()) {
        Some(content) => TemplateSource::BuiltIn(Template { name: name.clone(), content }),
        None => TemplateSource::Remote(template_url(name)),
    }
}

/// The template that a response for `name` gives: its body when the status is 200, and
/// the name and status as the error otherwise.
pub fn template_from_response(name: &String, status: u16, body: String) -> (r: Result<Template, FetchError>)
    ensures
        status == 200 ==> (r matches Ok(t) && t.name@ == name@ && t.content@ == body@),
        status != 200 ==> (r matches Err(FetchError::TemplateStatus { name: n, status: s }) && n@
            == name@ && s == status),
{
    if status != 200 {
        return Err(FetchError::TemplateStatus { name: name.clone(), status });
    }
    Ok(Template { name: name.clone(), content: body })
}

/// The name the picker chose, by its index into the list it was shown.
pub fn select_choice(types: &Vec<String>, index: usize) -> (r: Result<String, FetchError>)
    ensures
        index < types@.len() ==> (r matches Ok(s) && s@ == types@[index as int]@),
        index >= types@.len() ==> r == Err::<String, FetchError>(
            FetchError::SelectionOutOfRange { index, len: types@.len() as usize },
        ),
{
    if index < types.len() {
        Ok(types[index].clone())
    } else {
        Err(FetchError::SelectionOutOfRange { index, len: types.len() })
    }
}

} // verus!
