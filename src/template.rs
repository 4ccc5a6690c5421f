//! Placeholders of the form `<name>` in a shell command, and their substitution.
use vstd::prelude::*;

use crate::values::{same_text, ParameterValues};

verus! {

/// Characters that may form a placeholder name: ASCII letters, digits, `_` and `-`.
pub open spec fn is_name_char(c: char) -> bool {
    ('a' <= c && c <= 'z') || ('A' <= c && c <= 'Z') || ('0' <= c && c <= '9') || c == '_'
        || c == '-'
}

/// The first index at or after `k` that does not hold a name character.
pub open spec fn name_end(s: Seq<char>, k: int) -> int
    decreases s.len() - k,
{
    if 0 <= k < s.len() && is_name_char(s[k]) {
        name_end(s, k + 1)
    } else {
        k
    }
}

/// A placeholder `<name>` starts at index `i` of `s`.
pub open spec fn placeholder_at(s: Seq<char>, i: int) -> bool {
    &&& 0 <= i < s.len()
    &&& s[i] == '<'
    &&& name_end(s, i + 1) > i + 1
    &&& name_end(s, i + 1) < s.len()
    &&& s[name_end(s, i + 1)] == '>'
}

/// The span `[start, end)` of the placeholder that starts at `i`.
pub open spec fn span_at(s: Seq<char>, i: int) -> (int, int) {
    (i, name_end(s, i + 1) + 1)
}

/// The placeholders that start at index `i` or later, left to right.
pub open spec fn spans_from(s: Seq<char>, i: int) -> Seq<(int, int)>
    decreases s.len() - i,
{
    if 0 <= i < s.len() {
        if placeholder_at(s, i) {
            seq![span_at(s, i)] + spans_from(s, i + 1)
        } else {
            spans_from(s, i + 1)
        }
    } else {
        seq![]
    }
}

/// Every placeholder of `s`, left to right.
pub open spec fn placeholder_spans(s: Seq<char>) -> Seq<(int, int)> {
    spans_from(s, 0)
}

/// The name inside the placeholder span `sp` of `s`.
pub open spec fn span_name(s: Seq<char>, sp: (int, int)) -> Seq<char> {
    s.subrange(sp.0 + 1, sp.1 - 1)
}

/// The names of the placeholders of `s`, one per occurrence, left to right.
pub open spec fn parameter_names(s: Seq<char>) -> Seq<Seq<char>> {
    placeholder_spans(s).map_values(|sp: (int, int)| span_name(s, sp))
}

/// Whether `c` may appear in a placeholder name.
pub fn is_name_character(c: char) -> (r: bool)
    ensures
        r == is_name_char(c),
{
    ('a' <= c && c <= 'z') || ('A' <= c && c <= 'Z') || ('0' <= c && c <= '9') || c == '_'
        || c == '-'
}

/// The characters of `s`, for constant-time access by index.
pub fn chars_of(s: &str) -> (r: Vec<char>)
    ensures
        r@ == s@,
{
    let n = s.unicode_len();
    let mut r: Vec<char> = Vec::new();
    let mut i: usize = 0;
    while i < n
        invariant
            n == s@.len(),
            i <= n,
            r@ == s@.subrange(0, i as int),
        decreases n - i,
    {
        r.push(s.get_char(i));
        i = i + 1;
        assert(r@ =~= s@.subrange(0, i as int));
    }
    assert(r@ =~= s@);
    r
}

proof fn lemma_name_end_bounds(s: Seq<char>, k: int)
    requires
        0 <= k <= s.len(),
    ensures
        k <= name_end(s, k) <= s.len(),
        forall|m: int| k <= m < name_end(s, k) ==> is_name_char(#[trigger] s[m]),
        name_end(s, k) < s.len() ==> !is_name_char(s[name_end(s, k)]),
    decreases s.len() - k,
{
    if k < s.len() && is_name_char(s[k]) {
        lemma_name_end_bounds(s, k + 1);
    }
}

/// Facts about the spans found from `i` on: each is a placeholder that starts
/// at or after `i`, and they come in order without overlapping.
proof fn lemma_spans_from(s: Seq<char>, i: int)
    requires
        0 <= i,
    ensures
        forall|k: int|
            0 <= k < spans_from(s, i).len() ==> {
                let sp = #[trigger] spans_from(s, i)[k];
                &&& i <= sp.0
                &&& placeholder_at(s, sp.0)
                &&& sp == span_at(s, sp.0)
            },
        forall|k: int, l: int|
            0 <= k < l < spans_from(s, i).len() ==> #[trigger] spans_from(s, i)[k].1
                <= #[trigger] spans_from(s, i)[l].0,
        forall|j: int| i <= j && placeholder_at(s, j) ==> exists|k: int|
            0 <= k < spans_from(s, i).len() && #[trigger] spans_from(s, i)[k].0 == j,
    decreases s.len() - i,
{
    if 0 <= i < s.len() {
        lemma_spans_from(s, i + 1);
        let rest = spans_from(s, i + 1);
        if placeholder_at(s, i) {
            let r = spans_from(s, i);
            assert(r == seq![span_at(s, i)] + rest);
            lemma_name_end_bounds(s, i + 1);
            assert forall|k: int, l: int| 0 <= k < l < r.len() implies #[trigger] r[k].1
                <= #[trigger] r[l].0 by {
                if k == 0 {
                    let j = r[l].0;
                    assert(rest[l - 1].0 == j);
                    assert(s[j] == '<');
                    if j < name_end(s, i + 1) {
                        assert(is_name_char(s[j]));
                    }
                    assert(j != name_end(s, i + 1));
                } else {
                    assert(r[k] == rest[k - 1] && r[l] == rest[l - 1]);
                }
            }
            assert forall|j: int| i <= j && placeholder_at(s, j) implies exists|k: int|
                0 <= k < r.len() && #[trigger] r[k].0 == j by {
                if j == i {
                    assert(r[0].0 == j);
                } else {
                    let k = choose|k: int| 0 <= k < rest.len() && #[trigger] rest[k].0 == j;
                    assert(r[k + 1].0 == j);
                }
            }
            assert forall|k: int| 0 <= k < r.len() implies {
                let sp = #[trigger] r[k];
                &&& i <= sp.0
                &&& placeholder_at(s, sp.0)
                &&& sp == span_at(s, sp.0)
            } by {
                if k > 0 {
                    assert(r[k] == rest[k - 1]);
                }
            }
        } else {
            assert(spans_from(s, i) == rest);
            assert forall|j: int| i <= j && placeholder_at(s, j) implies exists|k: int|
                0 <= k < rest.len() && #[trigger] rest[k].0 == j by {
                assert(j != i);
            }
        }
    }
}



/// `s` with each span `spans[k]` replaced by `reps[k]`: the text before the last
/// span (itself spliced), the last replacement, then the text after the last span.
pub open spec fn splice(s: Seq<char>, spans: Seq<(int, int)>, reps: Seq<Seq<char>>) -> Seq<char>
    decreases spans.len(),
{
    if spans.len() == 0 {
        s
    } else {
        let k = spans.len() - 1;
        splice(s.subrange(0, spans[k].0), spans.drop_last(), reps.subrange(0, k)) + reps[k]
            + s.subrange(spans[k].1, s.len() as int)
    }
}

/// What takes the place of the placeholder at `sp`: its value when `values`
/// names it, else the placeholder itself.
pub open spec fn replacement(s: Seq<char>, sp: (int, int), values: Map<Seq<char>, Seq<char>>) -> Seq<
    char,
> {
    if values.contains_key(span_name(s, sp)) {
        values[span_name(s, sp)]
    } else {
        s.subrange(sp.0, sp.1)
    }
}

/// The replacement of each span.
pub open spec fn replacements(
    s: Seq<char>,
    spans: Seq<(int, int)>,
    values: Map<Seq<char>, Seq<char>>,
) -> Seq<Seq<char>> {
    spans.map_values(|sp: (int, int)| replacement(s, sp, values))
}

/// `s` with every placeholder whose name `values` maps replaced by that value.
pub open spec fn applied(s: Seq<char>, values: Map<Seq<char>, Seq<char>>) -> Seq<char> {
    splice(s, placeholder_spans(s), replacements(s, placeholder_spans(s), values))
}

/// Text added after the last span is added after the spliced text.
proof fn lemma_splice_append(s: Seq<char>, t: Seq<char>, spans: Seq<(int, int)>, reps: Seq<Seq<char>>)
    requires
        spans.len() > 0 ==> 0 <= spans.last().0 <= spans.last().1 <= s.len(),
    ensures
        splice(s + t, spans, reps) == splice(s, spans, reps) + t,
{
    if spans.len() > 0 {
        let k = spans.len() - 1;
        let (a, b) = spans[k];
        assert((s + t).subrange(0, a) =~= s.subrange(0, a));
        assert((s + t).subrange(b, (s + t).len() as int) =~= s.subrange(b, s.len() as int) + t);
        let pre = splice(s.subrange(0, a), spans.drop_last(), reps.subrange(0, k));
        assert(pre + reps[k] + (s.subrange(b, s.len() as int) + t) =~= pre + reps[k] + s.subrange(
            b,
            s.len() as int,
        ) + t);
    }
}

/// Spans of `s` that come in order, without overlapping, inside `s`.
pub open spec fn ordered_within(s: Seq<char>, spans: Seq<(int, int)>) -> bool {
    &&& forall|k: int| 0 <= k < spans.len() ==> 0 <= #[trigger] spans[k].0 <= spans[k].1 <= s.len()
    &&& forall|k: int, l: int|
        0 <= k < l < spans.len() ==> #[trigger] spans[k].1 <= #[trigger] spans[l].0
}

/// The placeholders of `s` come in order, without overlapping, inside `s`.
proof fn lemma_placeholders_ordered(s: Seq<char>)
    ensures
        ordered_within(s, placeholder_spans(s)),
        forall|k: int|
            0 <= k < placeholder_spans(s).len() ==> {
                let sp = #[trigger] placeholder_spans(s)[k];
                &&& placeholder_at(s, sp.0)
                &&& sp == span_at(s, sp.0)
                &&& sp.0 + 1 < sp.1 - 1
            },
{
    lemma_spans_from(s, 0);
    assert forall|k: int| 0 <= k < placeholder_spans(s).len() implies 0
        <= #[trigger] placeholder_spans(s)[k].0 <= placeholder_spans(s)[k].1 <= s.len() by {
        lemma_name_end_bounds(s, placeholder_spans(s)[k].0 + 1);
    }
}


/// The names of `names` in order of first appearance, each once.
pub open spec fn first_occurrences(names: Seq<Seq<char>>) -> Seq<Seq<char>>
    decreases names.len(),
{
    if names.len() == 0 {
        seq![]
    } else {
        let r = first_occurrences(names.drop_last());
        if r.contains(names.last()) {
            r
        } else {
            r.push(names.last())
        }
    }
}

/// Whether one of `v` holds the same characters as `t`.
fn contains_text(v: &Vec<String>, t: &str) -> (r: bool)
    ensures
        r == v@.map_values(|p: String| p@).contains(t@),
{
    let ghost vs = v@.map_values(|p: String| p@);
    let mut i: usize = 0;
    while i < v.len()
        invariant
            vs == v@.map_values(|p: String| p@),
            i <= v@.len(),
            forall|m: int| 0 <= m < i ==> vs[m] != t@,
        decreases v@.len() - i,
    {
        if same_text(v[i].as_str(), t) {
            assert(vs[i as int] == t@);
            return true;
        }
        i = i + 1;
    }
    false
}

/// Spans stored as machine indices, seen as integers.
pub open spec fn spans_view(v: Seq<(usize, usize)>) -> Seq<(int, int)> {
    v.map_values(|p: (usize, usize)| (p.0 as int, p.1 as int))
}

/// The placeholders found in one shell command, in order of appearance.
///
/// A value exists only for a command that holds at least one placeholder.
pub struct TemplateParameters {
    bash_command: String,
    spans: Vec<(usize, usize)>,
}

impl TemplateParameters {
    /// The command the placeholders were found in.
    pub closed spec fn command(&self) -> Seq<char> {
        self.bash_command@
    }

    /// The spans `[start, end)` of the placeholders, as character indices.
    pub closed spec fn spans(&self) -> Seq<(int, int)> {
        spans_view(self.spans@)
    }

    #[verifier::type_invariant]
    spec fn well_formed(&self) -> bool {
        &&& self.spans() == placeholder_spans(self.command())
        &&& self.spans().len() > 0
    }

    /// Finds the placeholders of `bash_command`; `None` when it holds none.
    pub fn parse(bash_command: &str) -> (r: Option<TemplateParameters>)
        ensures
            r.is_none() <==> placeholder_spans(bash_command@).len() == 0,
            r matches Some(t) ==> t.command() == bash_command@ && t.spans() == placeholder_spans(
                bash_command@,
            ),
    {
        let chars = chars_of(bash_command);
        let n = chars.len();
        let mut spans: Vec<(usize, usize)> = Vec::new();
        let mut i: usize = 0;
        while i < n
            invariant
                n == chars@.len(),
                chars@ == bash_command@,
                i <= n,
                spans_view(spans@) + spans_from(chars@, i as int) == placeholder_spans(chars@),
            decreases n - i,
        {
            let ghost s = chars@;
            let ghost before = spans_view(spans@);
            if chars[i] == '<' {
                let mut j: usize = i + 1;
                while j < n && is_name_character(chars[j])
                    invariant
                        n == chars@.len(),
                        chars@ == s,
                        i < n,
                        i + 1 <= j <= n,
                        name_end(s, i + 1) == name_end(s, j as int),
                    decreases n - j,
                {
                    j = j + 1;
                }
                assert(name_end(s, j as int) == j);
                if j > i + 1 && j < n && chars[j] == '>' {
                    spans.push((i, j + 1));
                    assert(spans_view(spans@) =~= before + seq![span_at(s, i as int)]);
                    assert(spans_from(s, i as int) == seq![span_at(s, i as int)] + spans_from(
                        s,
                        i as int + 1,
                    ));
                    assert(spans_view(spans@) + spans_from(s, i as int + 1) =~= before
                        + spans_from(s, i as int));
                } else {
                    assert(!placeholder_at(s, i as int));
                    assert(spans_from(s, i as int) == spans_from(s, i as int + 1));
                }
            } else {
                assert(!placeholder_at(s, i as int));
                assert(spans_from(s, i as int) == spans_from(s, i as int + 1));
            }
            i = i + 1;
        }
        assert(spans_from(chars@, n as int) =~= Seq::<(int, int)>::empty());
        assert(spans_view(spans@) =~= placeholder_spans(chars@));
        if spans.len() > 0 {
            Some(TemplateParameters { bash_command: String::from_str(bash_command), spans })
        } else {
            None
        }
    }

    /// The placeholder names, one per occurrence, left to right.
    pub fn parameters(&self) -> (r: Vec<String>)
        ensures
            r@.map_values(|p: String| p@) == parameter_names(self.command()),
    {
        proof {
            use_type_invariant(self);
            lemma_spans_from(self.command(), 0);
        }
        let ghost s = self.command();
        let text = self.bash_command.as_str();
        let mut r: Vec<String> = Vec::new();
        let mut k: usize = 0;
        while k < self.spans.len()
            invariant
                s == self.command(),
                text@ == s,
                self.spans() == placeholder_spans(s),
                k <= self.spans@.len(),
                forall|m: int|
                    0 <= m < placeholder_spans(s).len() ==> {
                        let sp = #[trigger] placeholder_spans(s)[m];
                        &&& placeholder_at(s, sp.0)
                        &&& sp == span_at(s, sp.0)
                    },
                r@.map_values(|p: String| p@) == parameter_names(s).subrange(0, k as int),
            decreases self.spans@.len() - k,
        {
            let (a, b) = self.spans[k];
            assert(placeholder_spans(s)[k as int] == (a as int, b as int));
            let name = String::from_str(text.substring_char(a + 1, b - 1));
            let ghost before = r@;
            r.push(name);
            assert(r@.map_values(|p: String| p@) =~= before.map_values(|p: String| p@).push(
                name@,
            ));
            assert(parameter_names(s).subrange(0, k as int + 1) =~= parameter_names(s).subrange(
                0,
                k as int,
            ).push(span_name(s, placeholder_spans(s)[k as int])));
            k = k + 1;
        }
        assert(parameter_names(s).subrange(0, k as int) =~= parameter_names(s));
        r
    }
    /// The placeholder names in order of first appearance, each once: one
    /// value is asked for per name.
    pub fn distinct_parameters(&self) -> (r: Vec<String>)
        ensures
            r@.map_values(|p: String| p@) == first_occurrences(parameter_names(self.command())),
    {
        let all = self.parameters();
        let ghost names = parameter_names(self.command());
        let mut r: Vec<String> = Vec::new();
        let mut k: usize = 0;
        assert(names.subrange(0, 0) =~= Seq::<Seq<char>>::empty());
        assert(r@.map_values(|p: String| p@) =~= Seq::<Seq<char>>::empty());
        while k < all.len()
            invariant
                all@.map_values(|p: String| p@) == names,
                k <= all@.len(),
                r@.map_values(|p: String| p@) == first_occurrences(names.subrange(0, k as int)),
            decreases all@.len() - k,
        {
            let name = all[k].as_str();
            assert(name@ == names[k as int]);
            assert(names.subrange(0, k + 1).drop_last() =~= names.subrange(0, k as int));
            if !contains_text(&r, name) {
                let ghost before = r@;
                r.push(String::from_str(name));
                assert(r@.map_values(|p: String| p@) =~= before.map_values(|p: String| p@).push(
                    name@,
                ));
            }
            k = k + 1;
        }
        assert(names.subrange(0, k as int) =~= names);
        r
    }

    /// The command with every placeholder whose name `values` maps replaced
    /// by that value; other placeholders stay as they are. A value is never
    /// searched for placeholders in turn.
    pub fn apply_parameter_values(self, values: ParameterValues) -> (r: String)
        ensures
            r@ == applied(self.command(), values@),
    {
        proof {
            use_type_invariant(&self);
            lemma_placeholders_ordered(self.command());
        }
        let ghost s = self.command();
        let ghost spans = placeholder_spans(s);
        let ghost reps = replacements(s, spans, values@);
        let text = self.bash_command.as_str();
        let n = text.unicode_len();
        let mut out = String::from_str("");
        let mut pos: usize = 0;
        let mut k: usize = 0;
        proof {
            reveal_strlit("");
            assert(out@ =~= Seq::<char>::empty());
            assert(spans.subrange(0, 0) =~= Seq::<(int, int)>::empty());
            assert(s.subrange(0, 0) =~= Seq::<char>::empty());
        }
        while k < self.spans.len()
            invariant
                s == self.command(),
                text@ == s,
                n == s.len(),
                spans == placeholder_spans(s),
                self.spans() == spans,
                reps == replacements(s, spans, values@),
                ordered_within(s, spans),
                forall|m: int|
                    0 <= m < spans.len() ==> {
                        let sp = #[trigger] spans[m];
                        &&& placeholder_at(s, sp.0)
                        &&& sp == span_at(s, sp.0)
                        &&& sp.0 + 1 < sp.1 - 1
                    },
                k <= spans.len(),
                pos <= n,
                k == 0 ==> pos == 0,
                k > 0 ==> pos == spans[k - 1].1,
                out@ == splice(
                    s.subrange(0, pos as int),
                    spans.subrange(0, k as int),
                    reps.subrange(0, k as int),
                ),
            decreases spans.len() - k,
        {
            let (a, b) = self.spans[k];
            assert(spans[k as int] == (a as int, b as int));
            assert(pos <= a) by {
                if k > 0 {
                    assert(spans[k - 1].1 <= spans[k as int].0);
                }
            }
            let ghost old_out = out@;
            out.append(text.substring_char(pos, a));
            let name = text.substring_char(a + 1, b - 1);
            match values.get(name) {
                Some(v) => out.append(v.as_str()),
                None => out.append(text.substring_char(a, b)),
            }
            proof {
                let p = spans.subrange(0, k as int);
                let rr = reps.subrange(0, k as int);
                assert(out@ == old_out + s.subrange(pos as int, a as int) + reps[k as int]);
                lemma_splice_append(
                    s.subrange(0, pos as int),
                    s.subrange(pos as int, a as int),
                    p,
                    rr,
                );
                assert(s.subrange(0, pos as int) + s.subrange(pos as int, a as int) =~= s.subrange(
                    0,
                    a as int,
                ));
                let p2 = spans.subrange(0, k + 1);
                let r2 = reps.subrange(0, k + 1);
                let s2 = s.subrange(0, b as int);
                assert(p2.drop_last() =~= p);
                assert(r2.subrange(0, k as int) =~= rr);
                assert(s2.subrange(0, a as int) =~= s.subrange(0, a as int));
                assert(s2.subrange(b as int, s2.len() as int) =~= Seq::<char>::empty());
                assert(splice(s2, p2, r2) == splice(s.subrange(0, a as int), p, rr) + reps[k as int]
                    + Seq::<char>::empty());
                assert(out@ =~= splice(s2, p2, r2));
            }
            pos = b;
            k = k + 1;
        }
        let ghost old_out = out@;
        out.append(text.substring_char(pos, n));
        proof {
            assert(spans.subrange(0, k as int) =~= spans);
            assert(reps.subrange(0, k as int) =~= reps);
            lemma_splice_append(s.subrange(0, pos as int), s.subrange(pos as int, n as int), spans, reps);
            assert(s.subrange(0, pos as int) + s.subrange(pos as int, n as int) =~= s);
        }
        out
    }
}

} // verus!

verus! {

/// A command in which no placeholder starts at any index has no placeholder
/// spans, so `parse` finds no template in it.
pub proof fn no_placeholder_no_template(s: Seq<char>)
    requires
        forall|i: int| !placeholder_at(s, i),
    ensures
        placeholder_spans(s).len() == 0,
{
    lemma_placeholders_ordered(s);
    if placeholder_spans(s).len() > 0 {
        assert(placeholder_at(s, placeholder_spans(s)[0].0));
    }
}

/// The parameter names are listed one per occurrence, duplicates kept, in
/// the left-to-right order of the placeholders' positions, and every
/// placeholder of the command is listed.
pub proof fn parameters_in_order(s: Seq<char>)
    ensures
        parameter_names(s).len() == placeholder_spans(s).len(),
        forall|k: int|
            0 <= k < placeholder_spans(s).len() ==> placeholder_at(
                s,
                #[trigger] placeholder_spans(s)[k].0,
            ) && parameter_names(s)[k] == span_name(s, placeholder_spans(s)[k]),
        forall|k: int, l: int|
            0 <= k < l < placeholder_spans(s).len() ==> #[trigger] placeholder_spans(s)[k].0
                < #[trigger] placeholder_spans(s)[l].0,
        forall|i: int|
            placeholder_at(s, i) ==> exists|k: int|
                0 <= k < placeholder_spans(s).len() && #[trigger] placeholder_spans(s)[k].0 == i,
{
    lemma_placeholders_ordered(s);
    lemma_spans_from(s, 0);
    let sp = placeholder_spans(s);
    assert forall|k: int, l: int| 0 <= k < l < sp.len() implies #[trigger] sp[k].0
        < #[trigger] sp[l].0 by {
        assert(sp[k].0 + 1 < sp[k].1 - 1);
        assert(sp[k].1 <= sp[l].0);
    }
}

/// Replacing each span by the text it already covers gives the text back.
proof fn lemma_splice_identity(s: Seq<char>, spans: Seq<(int, int)>, reps: Seq<Seq<char>>)
    requires
        ordered_within(s, spans),
        reps.len() == spans.len(),
        forall|k: int| 0 <= k < spans.len() ==> #[trigger] reps[k] == s.subrange(spans[k].0, spans[k].1),
    ensures
        splice(s, spans, reps) == s,
    decreases spans.len(),
{
    if spans.len() > 0 {
        let k = spans.len() - 1;
        let (a, b) = spans[k];
        let pre = s.subrange(0, a);
        let ps = spans.drop_last();
        let rs = reps.subrange(0, k);
        assert forall|m: int| 0 <= m < ps.len() implies #[trigger] rs[m] == pre.subrange(
            ps[m].0,
            ps[m].1,
        ) by {
            assert(spans[m].1 <= spans[k].0);
            assert(rs[m] == reps[m]);
            assert(pre.subrange(ps[m].0, ps[m].1) =~= s.subrange(spans[m].0, spans[m].1));
        }
        assert forall|m: int| 0 <= m < ps.len() implies 0 <= #[trigger] ps[m].0 <= ps[m].1
            <= pre.len() by {
            assert(spans[m].1 <= spans[k].0);
        }
        assert forall|m: int, l: int| 0 <= m < l < ps.len() implies #[trigger] ps[m].1
            <= #[trigger] ps[l].0 by {
            assert(spans[m].1 <= spans[l].0);
        }
        lemma_splice_identity(pre, ps, rs);
        assert(pre + s.subrange(a, b) + s.subrange(b, s.len() as int) =~= s);
    }
}

/// With no values at all, substitution gives back the command unchanged.
pub proof fn apply_nothing_is_identity(s: Seq<char>)
    ensures
        applied(s, Map::empty()) == s,
{
    lemma_placeholders_ordered(s);
    let spans = placeholder_spans(s);
    let reps = replacements(s, spans, Map::empty());
    assert forall|k: int| 0 <= k < spans.len() implies #[trigger] reps[k] == s.subrange(
        spans[k].0,
        spans[k].1,
    ) by {}
    lemma_splice_identity(s, spans, reps);
}

/// When every name of the command maps to the same text `x`, each
/// placeholder occurrence becomes `x` and the text around the placeholders
/// is kept as it is.
pub proof fn apply_uniform_value(s: Seq<char>, values: Map<Seq<char>, Seq<char>>, x: Seq<char>)
    requires
        forall|n: Seq<char>|
            #[trigger] parameter_names(s).contains(n) ==> values.contains_key(n) && values[n] == x,
    ensures
        applied(s, values) == splice(
            s,
            placeholder_spans(s),
            Seq::new(placeholder_spans(s).len(), |k: int| x),
        ),
{
    let spans = placeholder_spans(s);
    let reps = replacements(s, spans, values);
    assert forall|k: int| 0 <= k < spans.len() implies #[trigger] reps[k] == x by {
        let n = span_name(s, spans[k]);
        assert(parameter_names(s)[k] == n);
        assert(parameter_names(s).contains(n));
        assert(values.contains_key(n) && values[n] == x);
        assert(reps[k] == replacement(s, spans[k], values));
    }
    assert(reps =~= Seq::new(spans.len(), |k: int| x));
}

/// Each replacement stands whole, in one piece, in the spliced text.
proof fn lemma_splice_piece(s: Seq<char>, spans: Seq<(int, int)>, reps: Seq<Seq<char>>, k: int) -> (r: (
    Seq<char>,
    Seq<char>,
))
    requires
        0 <= k < spans.len(),
        reps.len() == spans.len(),
    ensures
        splice(s, spans, reps) == r.0 + reps[k] + r.1,
    decreases spans.len(),
{
    let last = spans.len() - 1;
    let pre = s.subrange(0, spans[last].0);
    let tail = s.subrange(spans[last].1, s.len() as int);
    let inner = splice(pre, spans.drop_last(), reps.subrange(0, last));
    if k == last {
        (inner, tail)
    } else {
        let (a, b) = lemma_splice_piece(pre, spans.drop_last(), reps.subrange(0, last), k);
        assert(reps.subrange(0, last)[k] == reps[k]);
        assert(a + reps[k] + b + reps[last] + tail =~= a + reps[k] + (b + reps[last] + tail));
        (a, b + reps[last] + tail)
    }
}

/// The run of name characters in `v` is the same run inside `a + v + b`,
/// as long as it ends before `v` does.
proof fn lemma_name_end_inside(a: Seq<char>, v: Seq<char>, b: Seq<char>, m: int)
    requires
        0 <= m,
        name_end(v, m) < v.len(),
    ensures
        name_end(a + v + b, a.len() + m) == a.len() + name_end(v, m),
    decreases v.len() - m,
{
    let w = a + v + b;
    assert(w[a.len() + m] == v[m]);
    if is_name_char(v[m]) {
        lemma_name_end_inside(a, v, b, m + 1);
    }
}

/// A value that itself holds a placeholder carries it into the result:
/// substitution does not look into the values it puts in, so parsing the
/// result again finds a placeholder.
pub proof fn value_placeholder_survives(
    s: Seq<char>,
    values: Map<Seq<char>, Seq<char>>,
    k: int,
    i: int,
)
    requires
        0 <= k < parameter_names(s).len(),
        values.contains_key(parameter_names(s)[k]),
        placeholder_at(values[parameter_names(s)[k]], i),
    ensures
        placeholder_spans(applied(s, values)).len() > 0,
{
    let spans = placeholder_spans(s);
    let reps = replacements(s, spans, values);
    let v = values[parameter_names(s)[k]];
    assert(reps[k] == v);
    let (a, b) = lemma_splice_piece(s, spans, reps, k);
    let w = applied(s, values);
    assert(w == a + v + b);
    lemma_name_end_inside(a, v, b, i + 1);
    assert(w[a.len() + i] == v[i]);
    assert(w[a.len() + name_end(v, i + 1)] == v[name_end(v, i + 1)]);
    assert(placeholder_at(w, a.len() + i));
    lemma_spans_from(w, 0);
}

} // verus!
