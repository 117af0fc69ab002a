//! The execution context: the string variables that steps share, and the
//! expansion of `${NAME}` placeholders against them.
//!
//! A placeholder is the text `${`, a non-empty run of the characters `A`-`Z`,
//! `0`-`9` and `_`, and `}`. Expansion scans a template from the left; each
//! placeholder whose name is bound is replaced by the bound text, and the scan
//! goes on behind the placeholder. A name is looked up among the context's
//! variables first and in the environment fallback second.

use crate::text::{append_chars, from_chars, opt_text, text_list, to_chars};
use vstd::hash_map::StringHashMap;
use vstd::prelude::*;
use vstd::string::StringExecFns;

verus! {

/// Whether `c` may occur in a placeholder's name.
pub open spec fn is_name_char(c: char) -> bool {
    ('A' <= c && c <= 'Z') || ('0' <= c && c <= '9') || c == '_'
}

/// Whether `name` is a non-empty run of name characters.
pub open spec fn is_name(name: Seq<char>) -> bool {
    name.len() > 0 && forall|k: int| 0 <= k < name.len() ==> is_name_char(#[trigger] name[k])
}

/// The index just behind the longest run of name characters that starts at `i`.
pub open spec fn name_end(s: Seq<char>, i: int) -> int
    decreases s.len() - i,
{
    if 0 <= i < s.len() && is_name_char(s[i]) {
        name_end(s, i + 1)
    } else {
        i
    }
}

/// Where a placeholder starts at index `i` of `s`, the index just behind its
/// closing brace.
pub open spec fn placeholder_at(s: Seq<char>, i: int) -> Option<int> {
    if 0 <= i && i + 1 < s.len() && s[i] == '$' && s[i + 1] == '{' {
        let e = name_end(s, i + 2);
        if i + 2 < e && e < s.len() && s[e] == '}' {
            Some(e + 1)
        } else {
            None
        }
    } else {
        None
    }
}

/// Whether a placeholder starts anywhere in `s`.
pub open spec fn has_placeholder(s: Seq<char>) -> bool {
    exists|i: int| (#[trigger] placeholder_at(s, i)) is Some
}

/// The text that replaces the part of `s` from index `i` on, under the
/// bindings `b`. A placeholder with an unbound name stays as it is.
pub open spec fn expand_from(s: Seq<char>, i: int, b: Map<Seq<char>, Seq<char>>) -> Seq<char>
    decreases s.len() - i,
{
    if i < 0 || i >= s.len() {
        Seq::empty()
    } else {
        match placeholder_at(s, i) {
            Some(end) => {
                if end <= i {
                    Seq::empty()
                } else {
                    let name = s.subrange(i + 2, end - 1);
                    let piece = if b.contains_key(name) {
                        b[name]
                    } else {
                        s.subrange(i, end)
                    };
                    piece + expand_from(s, end, b)
                }
            },
            None => seq![s[i]] + expand_from(s, i + 1, b),
        }
    }
}

/// `s` with every bound placeholder replaced.
pub open spec fn substitute(s: Seq<char>, b: Map<Seq<char>, Seq<char>>) -> Seq<char> {
    expand_from(s, 0, b)
}

/// What expanding `s` under `b` yields: the substituted text, unless a
/// placeholder is left in it.
pub open spec fn expansion(s: Seq<char>, b: Map<Seq<char>, Seq<char>>) -> Option<Seq<char>> {
    if has_placeholder(substitute(s, b)) {
        None
    } else {
        Some(substitute(s, b))
    }
}

/// The placeholder text `${name}`.
pub open spec fn placeholder_text(name: Seq<char>) -> Seq<char> {
    seq!['$', '{'] + name + seq!['}']
}

/// The run of name characters from `i` ends within `s`, holds only name
/// characters, and is not followed by one.
pub proof fn lemma_name_end(s: Seq<char>, i: int)
    requires
        0 <= i <= s.len(),
    ensures
        i <= name_end(s, i) <= s.len(),
        forall|k: int| i <= k < name_end(s, i) ==> is_name_char(#[trigger] s[k]),
        name_end(s, i) < s.len() ==> !is_name_char(s[name_end(s, i)]),
    decreases s.len() - i,
{
    if i < s.len() && is_name_char(s[i]) {
        lemma_name_end(s, i + 1);
    }
}

/// A run of name characters that is followed by another character, or by the
/// end of the text, ends exactly there.
pub proof fn lemma_name_end_is(s: Seq<char>, i: int, e: int)
    requires
        0 <= i <= e <= s.len(),
        forall|k: int| i <= k < e ==> is_name_char(#[trigger] s[k]),
        e < s.len() ==> !is_name_char(s[e]),
    ensures
        name_end(s, i) == e,
    decreases e - i,
{
    if i < e {
        lemma_name_end_is(s, i + 1, e);
    }
}

/// A placeholder is at least four characters long and ends within the text.
pub proof fn lemma_placeholder_bounds(s: Seq<char>, i: int)
    requires
        placeholder_at(s, i) is Some,
    ensures
        0 <= i,
        i + 4 <= placeholder_at(s, i).unwrap() <= s.len(),
        is_name(s.subrange(i + 2, placeholder_at(s, i).unwrap() - 1)),
{
    lemma_name_end(s, i + 2);
}

/// Where no placeholder starts at or behind `i`, expansion keeps the rest of
/// the text as it is.
pub proof fn lemma_expand_without_placeholder(s: Seq<char>, i: int, b: Map<Seq<char>, Seq<char>>)
    requires
        0 <= i <= s.len(),
        forall|j: int| i <= j < s.len() ==> (#[trigger] placeholder_at(s, j)) is None,
    ensures
        expand_from(s, i, b) == s.subrange(i, s.len() as int),
    decreases s.len() - i,
{
    if i < s.len() {
        lemma_expand_without_placeholder(s, i + 1, b);
        assert(seq![s[i]] + s.subrange(i + 1, s.len() as int) =~= s.subrange(i, s.len() as int));
    } else {
        assert(s.subrange(i, s.len() as int) =~= Seq::<char>::empty());
    }
}

/// A text without placeholders expands to itself, whatever is bound.
pub proof fn lemma_expansion_of_plain_text(s: Seq<char>, b: Map<Seq<char>, Seq<char>>)
    requires
        !has_placeholder(s),
    ensures
        expansion(s, b) == Some(s),
{
    lemma_expand_without_placeholder(s, 0, b);
    assert(s.subrange(0, s.len() as int) =~= s);
}

/// Expansion is idempotent: a text that expansion yields expands to itself.
/// In particular, expanding a text without placeholders twice gives what
/// expanding it once gives.
pub proof fn lemma_expansion_idempotent(s: Seq<char>, b: Map<Seq<char>, Seq<char>>)
    ensures
        expansion(s, b) matches Some(t) ==> expansion(t, b) == Some(t),
        !has_placeholder(s) ==> expansion(s, b) == Some(s),
{
    if !has_placeholder(s) {
        lemma_expansion_of_plain_text(s, b);
    }
    if let Some(t) = expansion(s, b) {
        lemma_expansion_of_plain_text(t, b);
    }
}

/// A bound name's placeholder, alone, is replaced by the bound text.
pub proof fn lemma_substitute_placeholder(name: Seq<char>, b: Map<Seq<char>, Seq<char>>)
    requires
        is_name(name),
        b.contains_key(name),
    ensures
        substitute(placeholder_text(name), b) == b[name],
{
    let s = placeholder_text(name);
    let e = 2 + name.len() as int;
    assert(s.len() == e + 1);
    assert(s[0] == '$' && s[1] == '{' && s[e] == '}');
    assert forall|k: int| 2 <= k < e implies is_name_char(#[trigger] s[k]) by {
        assert(s[k] == name[k - 2]);
    }
    lemma_name_end_is(s, 2, e);
    assert(placeholder_at(s, 0) == Some(e + 1));
    assert(s.subrange(2, e) =~= name);
    assert(expand_from(s, e + 1, b) =~= Seq::<char>::empty());
    assert(b[name] + Seq::<char>::empty() =~= b[name]);
}

/// After `name` was bound to `value`, the placeholder of `name` is replaced
/// by `value`, whatever the environment holds; and where `value` holds no
/// placeholder itself, the placeholder alone expands to exactly `value`.
pub proof fn lemma_bound_name_round_trip(
    vars: Map<Seq<char>, Seq<char>>,
    env: Map<Seq<char>, Seq<char>>,
    name: Seq<char>,
    value: Seq<char>,
)
    requires
        is_name(name),
    ensures
        substitute(placeholder_text(name), env.union_prefer_right(vars.insert(name, value)))
            == value,
        !has_placeholder(value) ==> expansion(
            placeholder_text(name),
            env.union_prefer_right(vars.insert(name, value)),
        ) == Some(value),
{
    let b = env.union_prefer_right(vars.insert(name, value));
    assert(b.contains_key(name) && b[name] == value);
    lemma_substitute_placeholder(name, b);
}

/// Every template of `list` expands under `b`.
pub open spec fn all_expand(list: Seq<Seq<char>>, b: Map<Seq<char>, Seq<char>>) -> bool {
    forall|k: int| 0 <= k < list.len() ==> expansion(#[trigger] list[k], b) is Some
}

/// The template at index `k` is the first of `list` that does not expand
/// under `b`.
pub open spec fn fails_first_at(list: Seq<Seq<char>>, b: Map<Seq<char>, Seq<char>>, k: int) -> bool {
    &&& 0 <= k < list.len()
    &&& expansion(list[k], b) is None
    &&& forall|j: int| 0 <= j < k ==> expansion(#[trigger] list[j], b) is Some
}

/// The templates of `list`, each substituted under `b`.
pub open spec fn substituted(list: Seq<Seq<char>>, b: Map<Seq<char>, Seq<char>>) -> Seq<Seq<char>> {
    Seq::new(list.len(), |k: int| substitute(list[k], b))
}

/// `e` reports that `template`, standing in `field`, does not expand under `b`.
pub open spec fn reports(
    e: ExpansionError,
    template: Seq<char>,
    field: Seq<char>,
    b: Map<Seq<char>, Seq<char>>,
) -> bool {
    &&& expansion(template, b) is None
    &&& e.template@ == template
    &&& e.expanded@ == substitute(template, b)
    &&& (e.field matches Some(name) && name@ == field)
}

/// Why a template could not be expanded.
#[derive(Debug, Clone)]
pub struct ExpansionError {
    /// The template as it was given.
    pub template: String,
    /// The template after substitution, with the placeholders that are left.
    pub expanded: String,
    /// The configuration field the template stands in, where known.
    pub field: Option<String>,
}

impl ExpansionError {
    /// The text of `message`.
    pub open spec fn message_text(self) -> Seq<char> {
        match self.field {
            Some(field) => field@ + ": unresolved placeholder in "@ + self.expanded@,
            None => "unresolved placeholder in "@ + self.expanded@,
        }
    }

    /// A one-line description: the field, where known, and the text with the
    /// placeholders that could not be resolved.
    pub fn message(&self) -> (text: String)
        ensures
            text@ == self.message_text(),
    {
        match &self.field {
            Some(field) => {
                let mut text = field.clone();
                text.append(": unresolved placeholder in ");
                text.append(self.expanded.as_str());
                text
            },
            None => {
                let mut text = String::from_str("unresolved placeholder in ");
                text.append(self.expanded.as_str());
                text
            },
        }
    }
}

/// The string variables shared by the steps of one run, with the process
/// environment, as it was handed over, as a fallback.
pub struct ExecutionContext {
    vars: StringHashMap<String>,
    env: StringHashMap<String>,
}

/// The texts of a table of strings.
pub open spec fn texts(m: Map<Seq<char>, String>) -> Map<Seq<char>, Seq<char>> {
    m.map_values(|s: String| s@)
}

impl ExecutionContext {
    /// The context's variables.
    pub closed spec fn vars(&self) -> Map<Seq<char>, Seq<char>> {
        texts(self.vars@)
    }

    /// The environment fallback.
    pub closed spec fn env(&self) -> Map<Seq<char>, Seq<char>> {
        texts(self.env@)
    }

    /// What names resolve to: the variables, and the environment behind them.
    pub open spec fn bindings(&self) -> Map<Seq<char>, Seq<char>> {
        self.env().union_prefer_right(self.vars())
    }

    /// An empty context with an empty environment fallback.
    pub fn new() -> (ctx: Self)
        ensures
            ctx.vars() == Map::<Seq<char>, Seq<char>>::empty(),
            ctx.env() == Map::<Seq<char>, Seq<char>>::empty(),
    {
        let ctx = ExecutionContext { vars: StringHashMap::new(), env: StringHashMap::new() };
        proof {
            assert(ctx.vars() =~= Map::<Seq<char>, Seq<char>>::empty());
            assert(ctx.env() =~= Map::<Seq<char>, Seq<char>>::empty());
        }
        ctx
    }

    /// Records one variable of the process environment as a fallback for
    /// names that are not bound in the context.
    pub fn set_env(&mut self, key: &str, value: &str)
        ensures
            final(self).env() == old(self).env().insert(key@, value@),
            final(self).vars() == old(self).vars(),
    {
        self.env.insert(String::from_str(key), String::from_str(value));
        proof {
            assert(final(self).env() =~= old(self).env().insert(key@, value@));
        }
    }

    /// Binds the variable `key` to `value`.
    pub fn set_var(&mut self, key: &str, value: &str)
        ensures
            final(self).vars() == old(self).vars().insert(key@, value@),
            final(self).env() == old(self).env(),
    {
        self.vars.insert(String::from_str(key), String::from_str(value));
        proof {
            assert(final(self).vars() =~= old(self).vars().insert(key@, value@));
        }
    }

    /// The text bound to the variable `key`, if any. The environment is not
    /// consulted.
    pub fn get_var(&self, key: &str) -> (value: Option<&str>)
        ensures
            match value {
                Some(text) => self.vars().contains_key(key@) && self.vars()[key@] == text@,
                None => !self.vars().contains_key(key@),
            },
    {
        match self.vars.get(key) {
            Some(text) => Some(text.as_str()),
            None => None,
        }
    }

    /// The text `key` resolves to: the context's variable of that name, or
    /// else the environment's.
    pub fn get_or_env(&self, key: &str) -> (value: Option<String>)
        ensures
            match value {
                Some(text) => self.bindings().contains_key(key@) && self.bindings()[key@]
                    == text@,
                None => !self.bindings().contains_key(key@),
            },
    {
        match self.vars.get(key) {
            Some(text) => Some(text.clone()),
            None => match self.env.get(key) {
                Some(text) => Some(text.clone()),
                None => None,
            },
        }
    }

    /// Replaces every `${NAME}` in `template` by what `NAME` resolves to.
    /// If a placeholder is left in the text after that, because its name is
    /// unbound or because a bound text brought one in, the expansion fails:
    /// a partly substituted text is never handed out as a success.
    pub fn expand_placeholders(&self, template: &str) -> (res: Result<String, ExpansionError>)
        ensures
            match res {
                Ok(text) => expansion(template@, self.bindings()) == Some(text@),
                Err(e) => {
                    &&& expansion(template@, self.bindings()) is None
                    &&& e.template@ == template@
                    &&& e.expanded@ == substitute(template@, self.bindings())
                    &&& e.field is None
                },
            },
    {
        let chars = to_chars(template);
        let n = chars.len();
        let mut out: Vec<char> = Vec::new();
        let mut i: usize = 0;
        while i < n
            invariant
                n == chars.len(),
                i <= n,
                out@ + expand_from(chars@, i as int, self.bindings()) == expand_from(
                    chars@,
                    0,
                    self.bindings(),
                ),
            decreases n - i,
        {
            match placeholder_end(&chars, i) {
                Some(end) => {
                    proof {
                        lemma_placeholder_bounds(chars@, i as int);
                    }
                    let name = from_chars(&chars, i + 2, end - 1);
                    let ghost before = out@;
                    match self.get_or_env(name.as_str()) {
                        Some(value) => {
                            append_chars(&mut out, value.as_str());
                        },
                        None => {
                            let raw = from_chars(&chars, i, end);
                            append_chars(&mut out, raw.as_str());
                        },
                    }
                    proof {
                        let piece = if self.bindings().contains_key(name@) {
                            self.bindings()[name@]
                        } else {
                            chars@.subrange(i as int, end as int)
                        };
                        assert(out@ == before + piece);
                        assert((before + piece) + expand_from(chars@, end as int, self.bindings())
                            =~= before + (piece + expand_from(
                            chars@,
                            end as int,
                            self.bindings(),
                        )));
                    }
                    i = end;
                },
                None => {
                    let ghost before = out@;
                    out.push(chars[i]);
                    proof {
                        assert(out@ == before + seq![chars@[i as int]]);
                        assert((before + seq![chars@[i as int]]) + expand_from(
                            chars@,
                            i + 1,
                            self.bindings(),
                        ) =~= before + (seq![chars@[i as int]] + expand_from(
                            chars@,
                            i + 1,
                            self.bindings(),
                        )));
                    }
                    i += 1;
                },
            }
        }
        proof {
            assert(out@ + Seq::<char>::empty() =~= out@);
            assert(out@.subrange(0, out@.len() as int) =~= out@);
        }
        let unresolved = contains_placeholder(&out);
        let text = from_chars(&out, 0, out.len());
        if unresolved {
            Err(ExpansionError { template: String::from_str(template), expanded: text, field: None })
        } else {
            Ok(text)
        }
    }

    /// Expands `template` as `expand_placeholders` does; a failure names the
    /// configuration field `field` that the template stands in.
    pub fn expand_required(&self, template: &str, field: &str) -> (res: Result<
        String,
        ExpansionError,
    >)
        ensures
            match res {
                Ok(text) => expansion(template@, self.bindings()) == Some(text@),
                Err(e) => reports(e, template@, field@, self.bindings()),
            },
    {
        match self.expand_placeholders(template) {
            Ok(text) => Ok(text),
            Err(e) => Err(
                ExpansionError {
                    template: e.template,
                    expanded: e.expanded,
                    field: Some(String::from_str(field)),
                },
            ),
        }
    }
}

impl ExecutionContext {
    /// Expands an optional template; nothing expands to nothing.
    pub fn expand_optional(&self, template: &Option<String>, field: &str) -> (res: Result<
        Option<String>,
        ExpansionError,
    >)
        ensures
            match res {
                Ok(text) => match *template {
                    Some(t) => text is Some && expansion(t@, self.bindings()) == opt_text(text),
                    None => text is None,
                },
                Err(e) => *template matches Some(t) && reports(e, t@, field@, self.bindings()),
            },
    {
        match template {
            Some(t) => match self.expand_required(t.as_str(), field) {
                Ok(text) => Ok(Some(text)),
                Err(e) => Err(e),
            },
            None => Ok(None),
        }
    }

    /// Expands every template of `templates`, in order. The first one that
    /// does not expand ends the work and is reported with `field`.
    pub fn expand_all(&self, templates: &Vec<String>, field: &str) -> (res: Result<
        Vec<String>,
        ExpansionError,
    >)
        ensures
            match res {
                Ok(texts) => all_expand(text_list(templates@), self.bindings()) && text_list(
                    texts@,
                ) == substituted(text_list(templates@), self.bindings()),
                Err(e) => exists|k: int|
                    fails_first_at(text_list(templates@), self.bindings(), k) && reports(
                        e,
                        #[trigger] text_list(templates@)[k],
                        field@,
                        self.bindings(),
                    ),
            },
    {
        let n = templates.len();
        let mut texts: Vec<String> = Vec::new();
        let mut i: usize = 0;
        while i < n
            invariant
                n == templates.len(),
                i <= n,
                texts@.len() == i,
                forall|k: int|
                    0 <= k < i ==> expansion(#[trigger] text_list(templates@)[k], self.bindings())
                        is Some,
                forall|k: int|
                    0 <= k < i ==> (#[trigger] texts@[k])@ == substitute(
                        templates@[k]@,
                        self.bindings(),
                    ),
            decreases n - i,
        {
            match self.expand_required(templates[i].as_str(), field) {
                Ok(text) => {
                    texts.push(text);
                },
                Err(e) => {
                    proof {
                        assert(fails_first_at(text_list(templates@), self.bindings(), i as int));
                        assert(text_list(templates@)[i as int] == templates@[i as int]@);
                    }
                    return Err(e);
                },
            }
            i += 1;
        }
        proof {
            assert(text_list(texts@) =~= substituted(text_list(templates@), self.bindings()));
        }
        Ok(texts)
    }
}

/// Whether `c` may occur in a placeholder's name.
pub fn name_char(c: char) -> (yes: bool)
    ensures
        yes == is_name_char(c),
{
    ('A' <= c && c <= 'Z') || ('0' <= c && c <= '9') || c == '_'
}

/// Where a placeholder starts at index `i`, the index just behind it.
pub fn placeholder_end(chars: &Vec<char>, i: usize) -> (end: Option<usize>)
    requires
        i <= chars.len(),
    ensures
        match end {
            Some(e) => placeholder_at(chars@, i as int) == Some(e as int),
            None => placeholder_at(chars@, i as int) is None,
        },
{
    let n = chars.len();
    if n - i < 4 {
        proof {
            if i + 2 <= n {
                lemma_name_end(chars@, i + 2);
            }
        }
        return None;
    }
    if chars[i] != '$' || chars[i + 1] != '{' {
        return None;
    }
    let mut e: usize = i + 2;
    while e < n && name_char(chars[e])
        invariant
            n == chars.len(),
            i + 2 <= e <= n,
            name_end(chars@, e as int) == name_end(chars@, i + 2),
        decreases n - e,
    {
        e += 1;
    }
    if e > i + 2 && e < n && chars[e] == '}' {
        Some(e + 1)
    } else {
        None
    }
}

/// Whether a placeholder starts anywhere in `chars`.
pub fn contains_placeholder(chars: &Vec<char>) -> (found: bool)
    ensures
        found == has_placeholder(chars@),
{
    let n = chars.len();
    let mut i: usize = 0;
    while i < n
        invariant
            n == chars.len(),
            i <= n,
            forall|j: int| 0 <= j < i ==> (#[trigger] placeholder_at(chars@, j)) is None,
        decreases n - i,
    {
        if placeholder_end(chars, i).is_some() {
            return true;
        }
        i += 1;
    }
    false
}

} // verus!
