//! Template substitution: every `{{name}}` placeholder of a string is
//! replaced by the secret of that name; a placeholder whose name is unknown
//! stays as it was written.

use crate::secrets::SecretMap;
use crate::text::{chars_of, push_char};
use vstd::prelude::*;
use vstd::string::StringExecFns;

verus! {

/// The two character classes a placeholder is made of, besides its braces.
#[derive(Clone, Copy, PartialEq, Eq, Debug)]
pub enum CharClass {
    /// White space around the name.
    Space,
    /// A character of the name.
    Name,
}

/// White space: the characters with the Unicode property `White_Space`.
pub open spec fn is_space(c: char) -> bool {
    let u = c as u32;
    ||| 0x09 <= u <= 0x0d
    ||| u == 0x20
    ||| u == 0x85
    ||| u == 0xa0
    ||| u == 0x1680
    ||| 0x2000 <= u <= 0x200a
    ||| u == 0x2028
    ||| u == 0x2029
    ||| u == 0x202f
    ||| u == 0x205f
    ||| u == 0x3000
}

/// A character of a secret's name: an ASCII letter or digit, `.`, `_` or `-`.
pub open spec fn is_name_char(c: char) -> bool {
    ||| 'a' <= c <= 'z'
    ||| 'A' <= c <= 'Z'
    ||| '0' <= c <= '9'
    ||| c == '.'
    ||| c == '_'
    ||| c == '-'
}

/// Whether `c` belongs to `class`.
pub open spec fn in_class(class: CharClass, c: char) -> bool {
    match class {
        CharClass::Space => is_space(c),
        CharClass::Name => is_name_char(c),
    }
}

/// The end of the longest run of `class` characters that starts at `i`.
pub open spec fn run_end(s: Seq<char>, i: int, class: CharClass) -> int
    decreases s.len() - i,
{
    if 0 <= i < s.len() && in_class(class, s[i]) {
        run_end(s, i + 1, class)
    } else {
        i
    }
}

/// Where the parts of one placeholder lie: its name fills
/// `key_start..key_end`, and the placeholder ends before `end`.
pub struct Span {
    pub key_start: int,
    pub key_end: int,
    pub end: int,
}

/// The grammar of a placeholder that starts at `p`: `{{`, white space if
/// any, a name of one character or more, white space if any, `}}`.
pub open spec fn is_placeholder(s: Seq<char>, p: int, span: Span) -> bool {
    &&& 0 <= p
    &&& p + 2 <= span.key_start < span.key_end <= span.end - 2
    &&& span.end <= s.len()
    &&& s[p] == '{'
    &&& s[p + 1] == '{'
    &&& forall|i: int| p + 2 <= i < span.key_start ==> is_space(#[trigger] s[i])
    &&& forall|i: int| span.key_start <= i < span.key_end ==> is_name_char(#[trigger] s[i])
    &&& forall|i: int| span.key_end <= i < span.end - 2 ==> is_space(#[trigger] s[i])
    &&& s[span.end - 2] == '}'
    &&& s[span.end - 1] == '}'
}

/// The placeholder that starts at `p`, if one does.
pub open spec fn placeholder_at(s: Seq<char>, p: int) -> Option<Span> {
    let key_start = run_end(s, p + 2, CharClass::Space);
    let key_end = run_end(s, key_start, CharClass::Name);
    let close = run_end(s, key_end, CharClass::Space);
    if 0 <= p && p + 1 < s.len() && s[p] == '{' && s[p + 1] == '{' && key_start < key_end && close
        + 1 < s.len() && s[close] == '}' && s[close + 1] == '}' {
        Some(Span { key_start, key_end, end: close + 2 })
    } else {
        None
    }
}

/// What stands for the placeholder `span` that starts at `p`: the secret of
/// its name, or the placeholder itself where the name is unknown.
pub open spec fn filling(
    s: Seq<char>,
    p: int,
    span: Span,
    secrets: Map<Seq<char>, Seq<char>>,
) -> Seq<char> {
    let name = s.subrange(span.key_start, span.key_end);
    if secrets.contains_key(name) {
        secrets[name]
    } else {
        s.subrange(p, span.end)
    }
}

/// The substitution of `s` from position `i` on, reading left to right:
/// a placeholder that starts at `i` gives its filling and the reading goes
/// on behind it; any other character is copied.
pub open spec fn render_from(s: Seq<char>, i: int, secrets: Map<Seq<char>, Seq<char>>) -> Seq<
    char,
>
    decreases s.len() - i,
    via render_from_decreases
{
    if i < 0 || i >= s.len() {
        Seq::empty()
    } else {
        match placeholder_at(s, i) {
            Some(span) => filling(s, i, span, secrets) + render_from(s, span.end, secrets),
            None => seq![s[i]] + render_from(s, i + 1, secrets),
        }
    }
}

#[via_fn]
proof fn render_from_decreases(s: Seq<char>, i: int, secrets: Map<Seq<char>, Seq<char>>) {
    if 0 <= i < s.len() {
        if let Some(span) = placeholder_at(s, i) {
            lemma_placeholder_grammar(s, i, span);
        }
    }
}

/// The string `s` with every placeholder replaced by its filling.
pub open spec fn render(s: Seq<char>, secrets: Map<Seq<char>, Seq<char>>) -> Seq<char> {
    render_from(s, 0, secrets)
}

/// A run ends at or after its start, inside the string, and holds
/// characters of its class only; the character after it is of another class.
pub proof fn lemma_run_end(s: Seq<char>, i: int, class: CharClass)
    requires
        0 <= i <= s.len(),
    ensures
        i <= run_end(s, i, class) <= s.len(),
        forall|j: int| i <= j < run_end(s, i, class) ==> in_class(class, #[trigger] s[j]),
        run_end(s, i, class) < s.len() ==> !in_class(class, s[run_end(s, i, class)]),
    decreases s.len() - i,
{
    if i < s.len() && in_class(class, s[i]) {
        lemma_run_end(s, i + 1, class);
    }
}

/// There is one longest run: a stretch of `class` characters from `i` to `j`
/// that cannot be extended ends where `run_end` says.
pub proof fn lemma_run_end_unique(s: Seq<char>, i: int, j: int, class: CharClass)
    requires
        0 <= i <= j <= s.len(),
        forall|k: int| i <= k < j ==> in_class(class, #[trigger] s[k]),
        j < s.len() ==> !in_class(class, s[j]),
    ensures
        run_end(s, i, class) == j,
    decreases j - i,
{
    if i < j {
        assert(in_class(class, s[i]));
        lemma_run_end_unique(s, i + 1, j, class);
    }
}

/// No character is white space and name character at once, and a brace is
/// neither.
pub proof fn lemma_classes_disjoint(c: char)
    ensures
        !(is_space(c) && is_name_char(c)),
        c == '{' || c == '}' ==> !is_space(c) && !is_name_char(c),
{
}

/// `placeholder_at` finds exactly the placeholders of the grammar: a span
/// is the one it returns for `p` if and only if the span is a placeholder
/// that starts at `p`.
pub proof fn lemma_placeholder_grammar(s: Seq<char>, p: int, span: Span)
    ensures
        placeholder_at(s, p) == Some(span) <==> is_placeholder(s, p, span),
{
    if placeholder_at(s, p) == Some(span) {
        lemma_run_end(s, p + 2, CharClass::Space);
        lemma_run_end(s, span.key_start, CharClass::Name);
        lemma_run_end(s, span.key_end, CharClass::Space);
        assert(is_placeholder(s, p, span));
    }
    if is_placeholder(s, p, span) {
        lemma_classes_disjoint(s[span.key_start]);
        lemma_classes_disjoint(s[span.key_end]);
        lemma_classes_disjoint(s[span.end - 2]);
        assert forall|k: int| p + 2 <= k < span.key_start implies in_class(
            CharClass::Space,
            #[trigger] s[k],
        ) by {}
        lemma_run_end_unique(s, p + 2, span.key_start, CharClass::Space);
        assert forall|k: int| span.key_start <= k < span.key_end implies in_class(
            CharClass::Name,
            #[trigger] s[k],
        ) by {}
        lemma_run_end_unique(s, span.key_start, span.key_end, CharClass::Name);
        assert forall|k: int| span.key_end <= k < span.end - 2 implies in_class(
            CharClass::Space,
            #[trigger] s[k],
        ) by {}
        lemma_run_end_unique(s, span.key_end, span.end - 2, CharClass::Space);
        assert(placeholder_at(s, p) == Some(span));
    }
}

/// Whether `c` is white space.
pub fn char_is_space(c: char) -> (b: bool)
    ensures
        b == is_space(c),
{
    let u: u32 = c as u32;
    (0x09 <= u && u <= 0x0d) || u == 0x20 || u == 0x85 || u == 0xa0 || u == 0x1680 || (0x2000 <= u
        && u <= 0x200a) || u == 0x2028 || u == 0x2029 || u == 0x202f || u == 0x205f || u == 0x3000
}

/// Whether `c` may stand in a secret's name.
pub fn char_is_name(c: char) -> (b: bool)
    ensures
        b == is_name_char(c),
{
    ('a' <= c && c <= 'z') || ('A' <= c && c <= 'Z') || ('0' <= c && c <= '9') || c == '.' || c
        == '_' || c == '-'
}

fn char_in_class(class: CharClass, c: char) -> (b: bool)
    ensures
        b == in_class(class, c),
{
    match class {
        CharClass::Space => char_is_space(c),
        CharClass::Name => char_is_name(c),
    }
}

fn scan_run(v: &Vec<char>, i: usize, class: CharClass) -> (j: usize)
    requires
        i <= v.len(),
    ensures
        j == run_end(v@, i as int, class),
        i <= j <= v.len(),
{
    let mut j: usize = i;
    while j < v.len() && char_in_class(class, v[j])
        invariant
            i <= j <= v.len(),
            run_end(v@, i as int, class) == run_end(v@, j as int, class),
        decreases v.len() - j,
    {
        j += 1;
    }
    j
}

/// The placeholder of `v` that starts at `p`, as the three positions of
/// its span.
pub fn find_placeholder(v: &Vec<char>, p: usize) -> (found: Option<(usize, usize, usize)>)
    ensures
        match found {
            Some((key_start, key_end, end)) => placeholder_at(v@, p as int) == Some(
                Span { key_start: key_start as int, key_end: key_end as int, end: end as int },
            ) && p + 2 <= key_start < key_end <= end - 2 && end <= v.len(),
            None => placeholder_at(v@, p as int) is None,
        },
{
    let n = v.len();
    if n < 2 || p >= n - 1 {
        return None;
    }
    if v[p] != '{' || v[p + 1] != '{' {
        return None;
    }
    let key_start = scan_run(v, p + 2, CharClass::Space);
    let key_end = scan_run(v, key_start, CharClass::Name);
    let close = scan_run(v, key_end, CharClass::Space);
    if key_start < key_end && close < n - 1 && v[close] == '}' && v[close + 1] == '}' {
        Some((key_start, key_end, close + 2))
    } else {
        None
    }
}

fn push_range(out: &mut String, v: &Vec<char>, from: usize, to: usize)
    requires
        from <= to <= v.len(),
    ensures
        final(out)@ == old(out)@ + v@.subrange(from as int, to as int),
{
    let mut i: usize = from;
    while i < to
        invariant
            from <= i <= to <= v.len(),
            out@ == old(out)@ + v@.subrange(from as int, i as int),
        decreases to - i,
    {
        push_char(out, v[i]);
        i += 1;
    }
}

/// Replaces every placeholder of `input` whose name `secrets` knows by the
/// secret's value, and leaves the rest of `input` as it is.
pub fn replace_secrets(input: &str, secrets: &SecretMap) -> (output: String)
    ensures
        output@ == render(input@, secrets@),
{
    let v = chars_of(input);
    let mut output = String::new();
    let mut i: usize = 0;
    while i < v.len()
        invariant
            i <= v.len(),
            v@ == input@,
            render(input@, secrets@) == output@ + render_from(v@, i as int, secrets@),
        decreases v.len() - i,
    {
        match find_placeholder(&v, i) {
            Some((key_start, key_end, end)) => {
                let mut name = String::new();
                push_range(&mut name, &v, key_start, key_end);
                assert(name@ == v@.subrange(key_start as int, key_end as int));
                match secrets.get(name.as_str()) {
                    Some(value) => {
                        output.append(value.as_str());
                    },
                    None => {
                        push_range(&mut output, &v, i, end);
                    },
                }
                i = end;
            },
            None => {
                push_char(&mut output, v[i]);
                i += 1;
            },
        }
    }
    output
}

/// Whether some placeholder starts in `s`.
pub open spec fn has_placeholder(s: Seq<char>) -> bool {
    exists|p: int| 0 <= p < s.len() && (#[trigger] placeholder_at(s, p)) is Some
}

/// Whether `secrets` knows the name of no placeholder of `s`.
pub open spec fn all_names_unknown(s: Seq<char>, secrets: Map<Seq<char>, Seq<char>>) -> bool {
    forall|p: int, span: Span|
        0 <= p < s.len() && #[trigger] placeholder_at(s, p) == Some(span) ==> !secrets.contains_key(
            #[trigger] s.subrange(span.key_start, span.key_end),
        )
}

/// Whether `secrets` knows the name of every placeholder of `s`.
pub open spec fn all_names_known(s: Seq<char>, secrets: Map<Seq<char>, Seq<char>>) -> bool {
    forall|p: int, span: Span|
        0 <= p < s.len() && #[trigger] placeholder_at(s, p) == Some(span) ==> secrets.contains_key(
            #[trigger] s.subrange(span.key_start, span.key_end),
        )
}

proof fn lemma_render_from_unknown(s: Seq<char>, i: int, secrets: Map<Seq<char>, Seq<char>>)
    requires
        0 <= i <= s.len(),
        all_names_unknown(s, secrets),
    ensures
        render_from(s, i, secrets) == s.subrange(i, s.len() as int),
    decreases s.len() - i,
{
    if i < s.len() {
        match placeholder_at(s, i) {
            Some(span) => {
                lemma_placeholder_grammar(s, i, span);
                lemma_render_from_unknown(s, span.end, secrets);
                assert(!secrets.contains_key(s.subrange(span.key_start, span.key_end)));
                assert(s.subrange(i, span.end) + s.subrange(span.end, s.len() as int)
                    =~= s.subrange(i, s.len() as int));
            },
            None => {
                lemma_render_from_unknown(s, i + 1, secrets);
                assert(seq![s[i]] + s.subrange(i + 1, s.len() as int) =~= s.subrange(
                    i,
                    s.len() as int,
                ));
            },
        }
    } else {
        assert(s.subrange(i, s.len() as int) =~= Seq::<char>::empty());
    }
}

/// Substitution leaves a string as it is when the mapping knows the name
/// of none of its placeholders.
pub proof fn lemma_unknown_names_stay(s: Seq<char>, secrets: Map<Seq<char>, Seq<char>>)
    requires
        all_names_unknown(s, secrets),
    ensures
        render(s, secrets) == s,
{
    lemma_render_from_unknown(s, 0, secrets);
    assert(s.subrange(0, s.len() as int) =~= s);
}

/// Substitution leaves a string without placeholders as it is, whatever the
/// mapping holds.
pub proof fn lemma_plain_text_stays(s: Seq<char>, secrets: Map<Seq<char>, Seq<char>>)
    requires
        !has_placeholder(s),
    ensures
        render(s, secrets) == s,
{
    assert(all_names_unknown(s, secrets)) by {
        assert forall|p: int, span: Span|
            0 <= p < s.len() && #[trigger] placeholder_at(s, p) == Some(
                span,
            ) implies !secrets.contains_key(#[trigger] s.subrange(span.key_start, span.key_end)) by {
            assert(placeholder_at(s, p) is Some);
        }
    }
    lemma_unknown_names_stay(s, secrets);
}

/// A string that nowhere holds two opening braces in a row has no
/// placeholder.
pub proof fn lemma_placeholder_needs_braces(s: Seq<char>)
    requires
        forall|p: int| 0 <= p && p + 1 < s.len() ==> !(s[p] == '{' && #[trigger] s[p + 1] == '{'),
    ensures
        !has_placeholder(s),
{
}

/// The placeholder written as `{{`, a name, `}}`.
pub open spec fn bare_placeholder(name: Seq<char>) -> Seq<char> {
    seq!['{', '{'] + name + seq!['}', '}']
}

/// A placeholder that stands alone, and whose name the mapping does not
/// know, comes back exactly as it was written.
pub proof fn lemma_unknown_placeholder_returned(name: Seq<char>, secrets: Map<Seq<char>, Seq<char>>)
    requires
        name.len() > 0,
        forall|i: int| 0 <= i < name.len() ==> is_name_char(#[trigger] name[i]),
        !secrets.contains_key(name),
    ensures
        render(bare_placeholder(name), secrets) == bare_placeholder(name),
{
    let s = bare_placeholder(name);
    let n = name.len() as int;
    let span = Span { key_start: 2, key_end: 2 + n, end: 4 + n };
    assert(is_placeholder(s, 0, span)) by {
        assert forall|i: int| 2 <= i < 2 + n implies is_name_char(#[trigger] s[i]) by {
            assert(s[i] == name[i - 2]);
        }
    }
    lemma_placeholder_grammar(s, 0, span);
    assert(s.subrange(2, 2 + n) =~= name);
    assert(s.subrange(0, s.len() as int) =~= s);
    assert(render_from(s, s.len() as int, secrets) =~= Seq::<char>::empty());
    assert(filling(s, 0, span, secrets) + Seq::<char>::empty() =~= s);
}

/// What is left of `s` from position `i` on when its placeholders are
/// taken out.
pub open spec fn outside_from(s: Seq<char>, i: int) -> Seq<char>
    decreases s.len() - i,
    via outside_from_decreases
{
    if i < 0 || i >= s.len() {
        Seq::empty()
    } else {
        match placeholder_at(s, i) {
            Some(span) => outside_from(s, span.end),
            None => seq![s[i]] + outside_from(s, i + 1),
        }
    }
}

#[via_fn]
proof fn outside_from_decreases(s: Seq<char>, i: int) {
    if 0 <= i < s.len() {
        if let Some(span) = placeholder_at(s, i) {
            lemma_placeholder_grammar(s, i, span);
        }
    }
}

/// The text of `s` that belongs to no placeholder.
pub open spec fn outside(s: Seq<char>) -> Seq<char> {
    outside_from(s, 0)
}

/// Whether `{{` stands in `t` at position `i`.
pub open spec fn opens_at(t: Seq<char>, i: int) -> bool {
    0 <= i && i + 1 < t.len() && t[i] == '{' && t[i + 1] == '{'
}

/// Whether `}}` stands in `t` at position `j`.
pub open spec fn closes_at(t: Seq<char>, j: int) -> bool {
    0 <= j && j + 1 < t.len() && t[j] == '}' && t[j + 1] == '}'
}

/// Whether `t` holds `{{` somewhere.
pub open spec fn has_open(t: Seq<char>) -> bool {
    exists|i: int| opens_at(t, i)
}

/// Whether `t` holds `}}` somewhere.
pub open spec fn has_close(t: Seq<char>) -> bool {
    exists|j: int| closes_at(t, j)
}

/// Whether `t` holds `{{` and, somewhere behind it, `}}`.
pub open spec fn has_brace_pair(t: Seq<char>) -> bool {
    exists|i: int, j: int| #[trigger] opens_at(t, i) && #[trigger] closes_at(t, j) && i + 2 <= j
}

/// Whether `t` holds neither `{` nor `}`.
pub open spec fn brace_free(t: Seq<char>) -> bool {
    forall|k: int| 0 <= k < t.len() ==> #[trigger] t[k] != '{' && t[k] != '}'
}

/// Whether no value of `secrets` holds a brace.
pub open spec fn values_brace_free(secrets: Map<Seq<char>, Seq<char>>) -> bool {
    forall|name: Seq<char>| secrets.contains_key(name) ==> brace_free(#[trigger] secrets[name])
}

proof fn lemma_braces_come_from_outside(s: Seq<char>, i: int, secrets: Map<Seq<char>, Seq<char>>)
    requires
        0 <= i <= s.len(),
        all_names_known(s, secrets),
        values_brace_free(secrets),
    ensures
        ({
            let r = render_from(s, i, secrets);
            let q = outside_from(s, i);
            &&& r.len() > 0 && r[0] == '{' ==> q.len() > 0 && q[0] == '{'
            &&& r.len() > 0 && r[0] == '}' ==> q.len() > 0 && q[0] == '}'
            &&& has_open(r) ==> has_open(q)
            &&& has_close(r) ==> has_close(q)
            &&& has_brace_pair(r) ==> has_brace_pair(q)
        }),
    decreases s.len() - i,
{
    let r = render_from(s, i, secrets);
    let q = outside_from(s, i);
    if i < s.len() {
        match placeholder_at(s, i) {
            Some(span) => {
                lemma_placeholder_grammar(s, i, span);
                lemma_braces_come_from_outside(s, span.end, secrets);
                let name = s.subrange(span.key_start, span.key_end);
                assert(secrets.contains_key(name));
                let v = secrets[name];
                let r1 = render_from(s, span.end, secrets);
                assert(brace_free(v));
                assert(r == v + r1);
                assert(q == outside_from(s, span.end));
                let n = v.len() as int;
                assert forall|k: int| 0 <= k < n implies r[k] != '{' && r[k] != '}' by {
                    assert(r[k] == v[k]);
                }
                assert forall|k: int| n <= k < r.len() implies r[k] == r1[k - n] by {}
                if r.len() > 0 && (r[0] == '{' || r[0] == '}') {
                    assert(n == 0);
                    assert(r =~= r1);
                }
                if has_open(r) {
                    let k = choose|k: int| opens_at(r, k);
                    assert(opens_at(r1, k - n));
                }
                if has_close(r) {
                    let k = choose|k: int| closes_at(r, k);
                    assert(closes_at(r1, k - n));
                }
                if has_brace_pair(r) {
                    let (a, b) = choose|a: int, b: int|
                        #[trigger] opens_at(r, a) && #[trigger] closes_at(r, b) && a + 2 <= b;
                    assert(opens_at(r1, a - n) && closes_at(r1, b - n));
                }
            },
            None => {
                lemma_braces_come_from_outside(s, i + 1, secrets);
                let c = s[i];
                let r1 = render_from(s, i + 1, secrets);
                let q1 = outside_from(s, i + 1);
                assert(r == seq![c] + r1);
                assert(q == seq![c] + q1);
                assert forall|k: int| 1 <= k < r.len() implies r[k] == r1[k - 1] by {}
                assert forall|k: int| 1 <= k < q.len() implies q[k] == q1[k - 1] by {}
                if has_open(r) {
                    let k = choose|k: int| opens_at(r, k);
                    if k == 0 {
                        assert(r1[0] == '{');
                        assert(opens_at(q, 0));
                    } else {
                        assert(opens_at(r1, k - 1));
                        let k1 = choose|k1: int| opens_at(q1, k1);
                        assert(opens_at(q, k1 + 1));
                    }
                }
                if has_close(r) {
                    let k = choose|k: int| closes_at(r, k);
                    if k == 0 {
                        assert(r1[0] == '}');
                        assert(closes_at(q, 0));
                    } else {
                        assert(closes_at(r1, k - 1));
                        let k1 = choose|k1: int| closes_at(q1, k1);
                        assert(closes_at(q, k1 + 1));
                    }
                }
                if has_brace_pair(r) {
                    let (a, b) = choose|a: int, b: int|
                        #[trigger] opens_at(r, a) && #[trigger] closes_at(r, b) && a + 2 <= b;
                    if a == 0 {
                        assert(r1[0] == '{');
                        assert(opens_at(q, 0));
                        assert(closes_at(r1, b - 1));
                        let b1 = choose|b1: int| closes_at(q1, b1);
                        assert(b1 >= 1);
                        assert(closes_at(q, b1 + 1));
                    } else {
                        assert(opens_at(r1, a - 1) && closes_at(r1, b - 1));
                        let (a1, b1) = choose|a1: int, b1: int|
                            #[trigger] opens_at(q1, a1) && #[trigger] closes_at(q1, b1) && a1 + 2
                                <= b1;
                        assert(opens_at(q, a1 + 1) && closes_at(q, b1 + 1));
                    }
                }
            },
        }
    }
}

/// Where the mapping knows the name of every placeholder and no secret
/// holds a brace, the braces of the output are those that the input has
/// outside its placeholders: if they form no `{{` ... `}}` pair, the output
/// holds none.
pub proof fn lemma_known_names_leave_no_pair(s: Seq<char>, secrets: Map<Seq<char>, Seq<char>>)
    requires
        all_names_known(s, secrets),
        values_brace_free(secrets),
        !has_brace_pair(outside(s)),
    ensures
        !has_brace_pair(render(s, secrets)),
        !has_open(outside(s)) ==> !has_open(render(s, secrets)),
        !has_close(outside(s)) ==> !has_close(render(s, secrets)),
{
    lemma_braces_come_from_outside(s, 0, secrets);
}

} // verus!
