//! The search tool's logic: reading its arguments, matching file names
//! against globs (with `{a,b}` alternatives), finding regex matches in a
//! file's lines and laying them out with context, ordering results by
//! recency, and assembling the paginated report.
//!
//! Walking the directory tree and reading files happen around these
//! functions; they hand over names, contents and modification times.
use vstd::prelude::*;

use crate::text::{
    decimal, decimal_string, from_chars, has_suffix, owned, push_char, push_str, spec_lines,
    spec_trim, split_lines, to_chars, trim, views,
};
use crate::tools::{page_end, page_start, paginate};

verus! {

// ---------------------------------------------------------------------------
// Regular expressions
// ---------------------------------------------------------------------------

/// A compiled regex of the regex crate; opaque to the proofs.
#[verifier::external_type_specification]
#[verifier::external_body]
pub struct ExRegex(regex::Regex);

/// What building a regex reports: `None` when `RegexBuilder::build`
/// accepts the pattern with these options, else the error's message.
pub uninterp spec fn regex_build_error(pattern: Seq<char>, case_insensitive: bool, multiline: bool) -> Option<Seq<char>>;

/// Whether a regex built from `pattern` with these options matches
/// somewhere in `haystack` (`Regex::is_match`).
pub uninterp spec fn regex_finds(
    pattern: Seq<char>,
    case_insensitive: bool,
    multiline: bool,
    haystack: Seq<char>,
) -> bool;

/// A compiled regex together with the pattern and options it was built
/// from.
pub struct CompiledPattern {
    re: regex::Regex,
    pattern: Ghost<Seq<char>>,
    case_insensitive: bool,
    multiline: bool,
}

impl CompiledPattern {
    /// The pattern text.
    pub closed spec fn source(&self) -> Seq<char> {
        self.pattern@
    }

    /// Whether matching ignores case.
    pub closed spec fn ignores_case(&self) -> bool {
        self.case_insensitive
    }

    /// Whether `^`/`$` match at line ends and `.` matches newlines.
    pub closed spec fn is_multiline(&self) -> bool {
        self.multiline
    }

    /// Whether this regex matches somewhere in `haystack`.
    pub open spec fn finds(&self, haystack: Seq<char>) -> bool {
        regex_finds(self.source(), self.ignores_case(), self.is_multiline(), haystack)
    }
}

/// `RegexBuilder::new(pattern)` with `case_insensitive`,
/// `dot_matches_new_line` and `multi_line` set, then `build`: the compiled
/// regex, or the error's message. `Regex::new` is the same build with both
/// options off.
#[verifier::external_body]
fn build_regex(pattern: &str, case_insensitive: bool, multiline: bool) -> (r: Result<CompiledPattern, String>)
    ensures
        match r {
            Ok(c) => regex_build_error(pattern@, case_insensitive, multiline) is None
                && c.source() == pattern@ && c.ignores_case() == case_insensitive
                && c.is_multiline() == multiline,
            Err(m) => regex_build_error(pattern@, case_insensitive, multiline) == Some(m@),
        },
{
    match regex::RegexBuilder::new(pattern).case_insensitive(case_insensitive).dot_matches_new_line(
        multiline,
    ).multi_line(multiline).build() {
        Ok(re) => Ok(CompiledPattern { re, pattern: Ghost(pattern@), case_insensitive, multiline }),
        Err(e) => Err(e.to_string()),
    }
}

/// `Regex::is_match`: whether the regex matches somewhere in `haystack`.
#[verifier::external_body]
fn regex_is_match(re: &CompiledPattern, haystack: &str) -> (b: bool)
    ensures
        b == regex_finds(re.source(), re.ignores_case(), re.is_multiline(), haystack@),
{
    re.re.is_match(haystack)
}

/// The regex meta characters, which `regex::escape` precedes with `\`.
pub open spec fn is_regex_meta(c: char) -> bool {
    c == '\\' || c == '.' || c == '+' || c == '*' || c == '?' || c == '(' || c == ')' || c == '|'
        || c == '[' || c == ']' || c == '{' || c == '}' || c == '^' || c == '$' || c == '#' || c
        == '&' || c == '-' || c == '~'
}

/// `s` with every meta character preceded by `\`.
pub open spec fn regex_escaped(s: Seq<char>) -> Seq<char>
    decreases s.len(),
{
    if s.len() == 0 {
        Seq::<char>::empty()
    } else {
        regex_escaped(s.drop_last()) + if is_regex_meta(s.last()) {
            seq!['\\', s.last()]
        } else {
            seq![s.last()]
        }
    }
}

/// `regex::escape`: the text with each meta character preceded by a
/// backslash, so that it matches itself literally.
#[verifier::external_body]
fn regex_escape(text: &str) -> (r: String)
    ensures
        r@ == regex_escaped(text@),
{
    regex::escape(text)
}

/// The lower-case form of a text (`str::to_lowercase`).
pub uninterp spec fn lowercase(s: Seq<char>) -> Seq<char>;

/// `str::to_lowercase`: the text under Unicode's lower-case mapping. The
/// mapping itself is not stated; the result is named `lowercase`.
#[verifier::external_body]
fn to_lowercase(s: &str) -> (r: String)
    ensures
        r@ == lowercase(s@),
{
    s.to_lowercase()
}

// ---------------------------------------------------------------------------
// Globs
// ---------------------------------------------------------------------------

/// Characters that a glob's regex keeps as they are.
pub open spec fn is_plain_glob_char(c: char) -> bool {
    ('a' <= c && c <= 'z') || ('A' <= c && c <= 'Z') || ('0' <= c && c <= '9') || c == '_' || c
        == '-' || c == '.' || c == '/'
}

/// The regex text for one glob character: `*` any run, `?` any character,
/// letters, digits and `_-./` themselves, anything else escaped.
pub open spec fn glob_piece(c: char) -> Seq<char> {
    if c == '*' {
        seq!['.', '*']
    } else if c == '?' {
        seq!['.']
    } else if is_plain_glob_char(c) {
        seq![c]
    } else {
        regex_escaped(seq![c])
    }
}

pub open spec fn glob_body(p: Seq<char>) -> Seq<char>
    decreases p.len(),
{
    if p.len() == 0 {
        Seq::<char>::empty()
    } else {
        glob_body(p.drop_last()) + glob_piece(p.last())
    }
}

/// The anchored regex text of a glob without alternatives.
pub open spec fn glob_regex(p: Seq<char>) -> Seq<char> {
    seq!['^'] + glob_body(p) + seq!['$']
}

/// Characters that in regex text stand for no character by themselves:
/// repetition, grouping, alternation, classes, anchors and escapes.
pub open spec fn is_regex_operator(c: char) -> bool {
    c == '*' || c == '+' || c == '?' || c == '{' || c == '}' || c == '(' || c == ')' || c == '|'
        || c == '[' || c == ']' || c == '^' || c == '$' || c == '\\'
}

/// Regex text read as a run of atoms that each match exactly one
/// character: an escape `\c`, or a character that is no operator (`.`
/// being the any-character atom). `None` when the text holds anything
/// else, such as a repetition.
pub open spec fn single_atoms(r: Seq<char>) -> Option<Seq<Seq<char>>>
    decreases r.len(),
{
    if r.len() == 0 {
        Some(Seq::empty())
    } else if r[0] == '\\' {
        if r.len() >= 2 {
            match single_atoms(r.skip(2)) {
                Some(t) => Some(seq![r.take(2)] + t),
                None => None,
            }
        } else {
            None
        }
    } else if is_regex_operator(r[0]) {
        None
    } else {
        match single_atoms(r.skip(1)) {
            Some(t) => Some(seq![r.take(1)] + t),
            None => None,
        }
    }
}

proof fn lemma_single_atoms_concat(a: Seq<char>, b: Seq<char>)
    requires
        single_atoms(a) is Some,
        single_atoms(b) is Some,
    ensures
        single_atoms(a + b) == Some(single_atoms(a)->0 + single_atoms(b)->0),
    decreases a.len(),
{
    if a.len() == 0 {
        assert(a + b =~= b);
        assert(single_atoms(a)->0 + single_atoms(b)->0 =~= single_atoms(b)->0);
    } else if a[0] == '\\' {
        lemma_single_atoms_concat(a.skip(2), b);
        assert((a + b).skip(2) =~= a.skip(2) + b);
        assert((a + b).take(2) =~= a.take(2));
        assert(seq![a.take(2)] + (single_atoms(a.skip(2))->0 + single_atoms(b)->0) =~= (seq![a.take(2)]
            + single_atoms(a.skip(2))->0) + single_atoms(b)->0);
    } else {
        lemma_single_atoms_concat(a.skip(1), b);
        assert((a + b).skip(1) =~= a.skip(1) + b);
        assert((a + b).take(1) =~= a.take(1));
        assert(seq![a.take(1)] + (single_atoms(a.skip(1))->0 + single_atoms(b)->0) =~= (seq![a.take(1)]
            + single_atoms(a.skip(1))->0) + single_atoms(b)->0);
    }
}

proof fn lemma_piece_is_one_atom(c: char)
    requires
        c != '*',
    ensures
        single_atoms(glob_piece(c)) == Some(seq![glob_piece(c)]),
{
    let p = glob_piece(c);
    if c != '?' && !is_plain_glob_char(c) {
        assert(seq![c].drop_last() =~= Seq::<char>::empty());
        assert(regex_escaped(Seq::<char>::empty()) =~= Seq::<char>::empty());
        assert(regex_escaped(seq![c]) =~= if is_regex_meta(c) { seq!['\\', c] } else { seq![c] });
    }
    let e = Seq::<char>::empty();
    assert(single_atoms(e) == Some(Seq::<Seq<char>>::empty()));
    if p.len() == 2 {
        assert(p[0] == '\\');
        assert(p.skip(2) =~= e);
        assert(p.take(2) =~= p);
        assert(seq![p] + Seq::<Seq<char>>::empty() =~= seq![p]);
    } else {
        assert(p.len() == 1);
        assert(p[0] != '\\' && !is_regex_operator(p[0]));
        assert(p.skip(1) =~= e);
        assert(p.take(1) =~= p);
        assert(seq![p] + Seq::<Seq<char>>::empty() =~= seq![p]);
    }
}

/// A glob without `*` has fixed length: its regex is exactly one
/// single-character atom per glob character, and each `?` becomes the
/// any-character atom `.`. So `?` matches exactly one character, never
/// none.
pub proof fn law_glob_without_star_has_fixed_length(p: Seq<char>)
    requires
        !p.contains('*'),
    ensures
        single_atoms(glob_body(p)) matches Some(a) && a.len() == p.len() && (forall|i: int|
            0 <= i < p.len() && p[i] == '?' ==> #[trigger] a[i] == seq!['.']),
    decreases p.len(),
{
    if p.len() == 0 {
        assert(glob_body(p) =~= Seq::<char>::empty());
    } else {
        let q = p.drop_last();
        assert(!q.contains('*')) by {
            if q.contains('*') {
                let k = choose|k: int| 0 <= k < q.len() && q[k] == '*';
                assert(p[k] == '*');
            }
        }
        assert(p.last() != '*') by {
            assert(p[p.len() - 1] == p.last());
        }
        law_glob_without_star_has_fixed_length(q);
        lemma_piece_is_one_atom(p.last());
        lemma_single_atoms_concat(glob_body(q), glob_piece(p.last()));
        let a = single_atoms(glob_body(p))->0;
        assert forall|i: int| 0 <= i < p.len() && p[i] == '?' implies #[trigger] a[i] == seq!['.'] by {
            if i < p.len() - 1 {
                assert(p[i] == q[i]);
            }
        }
    }
}

/// A glob without alternatives matches a name when its regex builds and
/// matches.
pub open spec fn plain_glob_match(p: Seq<char>, name: Seq<char>) -> bool {
    regex_build_error(glob_regex(p), false, false) is None && regex_finds(
        glob_regex(p),
        false,
        false,
        name,
    )
}

/// The index of the first `c` in `s`.
pub open spec fn first_index(s: Seq<char>, c: char) -> Option<int>
    decreases s.len(),
{
    if s.len() == 0 {
        None
    } else if s[0] == c {
        Some(0)
    } else {
        match first_index(s.drop_first(), c) {
            Some(i) => Some(i + 1),
            None => None,
        }
    }
}

pub proof fn lemma_first_index(s: Seq<char>, c: char, i: int)
    requires
        0 <= i <= s.len(),
        forall|k: int| 0 <= k < i ==> s[k] != c,
    ensures
        i < s.len() && s[i] == c ==> first_index(s, c) == Some(i),
        i == s.len() ==> first_index(s, c) is None,
    decreases i,
{
    if i > 0 {
        lemma_first_index(s.drop_first(), c, i - 1);
    }
}

pub proof fn lemma_first_index_bound(s: Seq<char>, c: char)
    ensures
        first_index(s, c) matches Some(i) ==> 0 <= i < s.len() && s[i] == c,
    decreases s.len(),
{
    if s.len() > 0 {
        lemma_first_index_bound(s.drop_first(), c);
    }
}

pub proof fn lemma_trim_len(s: Seq<char>)
    ensures
        spec_trim(s).len() <= s.len(),
{
    crate::text::lemma_trim_bounds(s);
}

/// Whether a lower-cased glob matches a lower-cased name. The first `{`
/// with a later `}` makes alternatives: the glob matches when one of the
/// comma-separated alternatives (trimmed) put in place of the braces
/// matches; otherwise the glob is matched as a regex.
pub open spec fn glob_match(p: Seq<char>, name: Seq<char>) -> bool
    decreases p.len(), 1nat,
{
    match first_index(p, '{') {
        Some(i) => {
            proof {
                lemma_first_index_bound(p, '{');
            }
            let rest = p.skip(i + 1);
            match first_index(rest, '}') {
                Some(j) => {
                    proof {
                        lemma_first_index_bound(rest, '}');
                    }
                    alternatives_match(p.take(i), rest.take(j), rest.skip(j + 1), name)
                },
                None => plain_glob_match(p, name),
            }
        },
        None => plain_glob_match(p, name),
    }
}

/// Whether one of the comma-separated alternatives in `alts`, trimmed and
/// put between `pre` and `post`, matches.
pub open spec fn alternatives_match(
    pre: Seq<char>,
    alts: Seq<char>,
    post: Seq<char>,
    name: Seq<char>,
) -> bool
    decreases pre.len() + alts.len() + post.len() + 1, 0nat,
{
    proof {
        lemma_first_index_bound(alts, ',');
    }
    let k = first_index(alts, ',');
    let piece = match k {
        Some(k) => alts.take(k),
        None => alts,
    };
    proof {
        lemma_trim_len(piece);
    }
    glob_match(pre + spec_trim(piece) + post, name) || match k {
        Some(k) => alternatives_match(pre, alts.skip(k + 1), post, name),
        None => false,
    }
}

/// Whether `name` matches the glob `pattern`, ignoring case: `*` matches
/// any run, `?` any character, and `{a,b,c}` any of the alternatives.
pub open spec fn glob_matches_name(pattern: Seq<char>, name: Seq<char>) -> bool {
    glob_match(lowercase(pattern), lowercase(name))
}

/// The regex text of a glob without alternatives.
fn glob_to_regex(p: &[char]) -> (r: String)
    ensures
        r@ == glob_regex(p@),
{
    let mut r = String::new();
    push_char(&mut r, '^');
    let mut i: usize = 0;
    while i < p.len()
        invariant
            i <= p.len(),
            r@ == seq!['^'] + glob_body(p@.take(i as int)),
        decreases p.len() - i,
    {
        let c = p[i];
        assert(p@.take(i + 1).drop_last() == p@.take(i as int));
        assert(p@.take(i + 1).last() == c);
        if c == '*' {
            push_char(&mut r, '.');
            push_char(&mut r, '*');
        } else if c == '?' {
            push_char(&mut r, '.');
        } else if ('a' <= c && c <= 'z') || ('A' <= c && c <= 'Z') || ('0' <= c && c <= '9') || c
            == '_' || c == '-' || c == '.' || c == '/' {
            push_char(&mut r, c);
        } else {
            let mut one = String::new();
            push_char(&mut one, c);
            let e = regex_escape(one.as_str());
            proof {
                assert(one@ == seq![c]);
            }
            push_str(&mut r, e.as_str());
        }
        i = i + 1;
    }
    assert(p@.take(p.len() as int) == p@);
    push_char(&mut r, '$');
    r
}

/// The index of the first `c` in `s` at or after `from`.
fn find_char(s: &[char], c: char, from: usize) -> (r: Option<usize>)
    requires
        from <= s.len(),
    ensures
        r is None <==> first_index(s@.skip(from as int), c) is None,
        r matches Some(k) ==> from <= k < s@.len() && s@[k as int] == c && first_index(
            s@.skip(from as int),
            c,
        ) == Some(k - from),
{
    let mut i: usize = from;
    while i < s.len() && s[i] != c
        invariant
            from <= i <= s.len(),
            forall|k: int| from <= k < i ==> s@[k] != c,
        decreases s.len() - i,
    {
        i = i + 1;
    }
    proof {
        lemma_first_index(s@.skip(from as int), c, i - from);
    }
    if i < s.len() {
        Some(i)
    } else {
        None
    }
}

/// Whether a glob without alternatives matches.
fn plain_match(p: &[char], name: &str) -> (b: bool)
    ensures
        b == plain_glob_match(p@, name@),
{
    let text = glob_to_regex(p);
    match build_regex(text.as_str(), false, false) {
        Ok(re) => regex_is_match(&re, name),
        Err(_) => false,
    }
}

/// Whether a lower-cased glob matches a lower-cased name.
fn glob_match_lowered(p: &[char], name: &str) -> (b: bool)
    ensures
        b == glob_match(p@, name@),
    decreases p@.len(),
{
    let open = match find_char(p, '{', 0) {
        Some(i) => i,
        None => {
            assert(p@.skip(0) == p@);
            return plain_match(p, name);
        },
    };
    assert(p@.skip(0) == p@);
    assert(open < p.len());
    assert(first_index(p@, '{') == Some(open as int));
    let close = match find_char(p, '}', open + 1) {
        Some(j) => j,
        None => {
            assert(first_index(p@.skip(open + 1), '}') is None);
            assert(glob_match(p@, name@) == plain_glob_match(p@, name@));
            return plain_match(p, name);
        },
    };
    let ghost rest = p@.skip(open + 1);
    let ghost jj = close - open - 1;
    let pre = &p[0..open];
    let alts = &p[open + 1..close];
    let post = &p[close + 1..p.len()];
    assert(pre@ == p@.take(open as int));
    assert(alts@ == rest.take(jj));
    assert(post@ == rest.skip(jj + 1));
    assert(first_index(rest, '}') == Some(jj));
    assert(glob_match(p@, name@) == alternatives_match(pre@, alts@, post@, name@));
    assert(alts@.skip(0) == alts@);
    // Try each alternative in turn.
    let mut start: usize = 0;
    while start <= alts.len()
        invariant
            start <= alts.len() + 1,
            glob_match(p@, name@) == (start <= alts.len() && alternatives_match(
                pre@,
                alts@.skip(start as int),
                post@,
                name@,
            )),
            pre@.len() + alts@.len() + post@.len() + 2 == p@.len(),
        decreases alts.len() + 1 - start,
    {
        let ghost cur = alts@.skip(start as int);
        let (end, more) = match find_char(alts, ',', start) {
            Some(k) => (k, true),
            None => (alts.len(), false),
        };
        proof {
            lemma_first_index_bound(cur, ',');
        }
        let piece_text = from_chars(&alts[start..end]);
        let trimmed = trim(piece_text.as_str());
        let tc = to_chars(trimmed.as_str());
        assert(alts@.subrange(start as int, end as int) == (match first_index(cur, ',') {
            Some(k) => cur.take(k),
            None => cur,
        }));
        proof {
            lemma_trim_len(piece_text@);
        }
        let mut expanded: Vec<char> = Vec::new();
        expanded.extend_from_slice(pre);
        expanded.extend_from_slice(tc.as_slice());
        expanded.extend_from_slice(post);
        assert(expanded@ == pre@ + spec_trim(piece_text@) + post@);
        if glob_match_lowered(expanded.as_slice(), name) {
            return true;
        }
        if !more {
            return false;
        }
        assert(alts@.skip(end + 1) == cur.skip(first_index(cur, ',')->0 + 1));
        start = end + 1;
    }
    false
}

/// Whether `name` matches the glob `pattern`, ignoring case (both are
/// lower-cased first).
pub fn simple_glob_match(pattern: &str, name: &str) -> (b: bool)
    ensures
        b == glob_matches_name(pattern@, name@),
{
    let n = to_lowercase(name);
    let p = to_lowercase(pattern);
    let pc = to_chars(p.as_str());
    glob_match_lowered(pc.as_slice(), n.as_str())
}

/// Whether a path matches an optional glob filter (no filter matches all).
pub fn glob_matches(path: &str, glob: Option<&str>) -> (b: bool)
    ensures
        b == match glob {
            Some(g) => glob_matches_name(g@, path@),
            None => true,
        },
{
    match glob {
        Some(g) => simple_glob_match(g, path),
        None => true,
    }
}

// ---------------------------------------------------------------------------
// Matches within a file
// ---------------------------------------------------------------------------

/// Number of the lines that the regex matches.
pub open spec fn match_count(re: CompiledPattern, lines: Seq<Seq<char>>) -> nat
    decreases lines.len(),
{
    if lines.len() == 0 {
        0
    } else {
        match_count(re, lines.drop_last()) + if re.finds(lines.last()) {
            1nat
        } else {
            0nat
        }
    }
}

/// Number of lines of `content` that the regex matches.
pub fn count_matches(re: &CompiledPattern, content: &str) -> (n: usize)
    ensures
        n == match_count(*re, spec_lines(content@)),
{
    let lines = split_lines(content);
    let ghost ls = spec_lines(content@);
    let mut n: usize = 0;
    let mut i: usize = 0;
    while i < lines.len()
        invariant
            i <= lines.len(),
            lines@.len() == ls.len(),
            forall|k: int| 0 <= k < lines@.len() ==> #[trigger] lines@[k]@ == ls[k],
            n == match_count(*re, ls.take(i as int)),
            n <= i,
        decreases lines.len() - i,
    {
        assert(ls.take(i + 1).drop_last() == ls.take(i as int));
        assert(ls.take(i + 1).last() == lines@[i as int]@);
        if regex_is_match(re, lines[i].as_str()) {
            n = n + 1;
        }
        i = i + 1;
    }
    assert(ls.take(lines.len() as int) == ls);
    n
}

/// The entry of a file in a count search: its path and number of matching
/// lines, when there are any.
pub fn count_entry(re: &CompiledPattern, rel: &str, content: &str) -> (r: Option<String>)
    ensures
        match_count(*re, spec_lines(content@)) == 0 ==> r is None,
        match_count(*re, spec_lines(content@)) > 0 ==> (r matches Some(t) && t@ == rel@ + seq![':', ' ']
            + decimal(match_count(*re, spec_lines(content@)))),
{
    let n = count_matches(re, content);
    if n == 0 {
        return None;
    }
    let mut t = owned(rel);
    push_char(&mut t, ':');
    push_char(&mut t, ' ');
    push_str(&mut t, decimal_string(n as u64).as_str());
    Some(t)
}

/// `s` right-aligned in a field of `width` characters, as `{:>width}`
/// lays it out.
pub open spec fn right_aligned(s: Seq<char>, width: nat) -> Seq<char> {
    if s.len() >= width {
        s
    } else {
        Seq::new((width - s.len()) as nat, |k: int| ' ') + s
    }
}

/// Line `j` of a block around the match at line `i`: `>` marks the match
/// and a space the context, then the 1-based line number right-aligned in
/// six columns and a space (when numbering), the line and a newline.
pub open spec fn block_line(lines: Seq<Seq<char>>, i: int, j: int, numbered: bool) -> Seq<char> {
    (if j == i { seq!['>'] } else { seq![' '] }) + (if numbered {
        right_aligned(decimal((j + 1) as nat), 6) + seq![' ']
    } else {
        Seq::<char>::empty()
    }) + lines[j] + seq!['\n']
}

/// Lines `from..to` of a block around the match at line `i`.
pub open spec fn block_lines(lines: Seq<Seq<char>>, i: int, from: int, to: int, numbered: bool) -> Seq<char>
    decreases to - from,
{
    if to <= from {
        Seq::<char>::empty()
    } else {
        block_lines(lines, i, from, to - 1, numbered) + block_line(lines, i, to - 1, numbered)
    }
}

/// The first line of the context before a match at line `i`.
pub open spec fn context_start(i: int, before: int) -> int {
    if i >= before { i - before } else { 0 }
}

/// The end (exclusive) of the context after a match at line `i`.
pub open spec fn context_end(i: int, after: int, n: int) -> int {
    if i + after + 1 < n { i + after + 1 } else { n }
}

/// The block of a match at line `i`: its context lines, then `--` when
/// the block does not span the whole file.
pub open spec fn match_block(lines: Seq<Seq<char>>, i: int, before: int, after: int, numbered: bool) -> Seq<char> {
    let s = context_start(i, before);
    let e = context_end(i, after, lines.len() as int);
    block_lines(lines, i, s, e, numbered) + if e < lines.len() || s > 0 {
        seq!['-', '-', '\n']
    } else {
        Seq::<char>::empty()
    }
}

/// The blocks of the matches from line `i` on. After a match, the search
/// goes on after the block's last line.
pub open spec fn blocks_from(
    re: CompiledPattern,
    lines: Seq<Seq<char>>,
    i: int,
    before: int,
    after: int,
    numbered: bool,
) -> Seq<char>
    decreases lines.len() - i,
{
    if i < 0 || i >= lines.len() || after < 0 {
        Seq::<char>::empty()
    } else if re.finds(lines[i]) {
        match_block(lines, i, before, after, numbered) + blocks_from(
            re,
            lines,
            context_end(i, after, lines.len() as int),
            before,
            after,
            numbered,
        )
    } else {
        blocks_from(re, lines, i + 1, before, after, numbered)
    }
}

/// Whether the regex matches one of the lines from `i` on.
pub open spec fn any_match_from(re: CompiledPattern, lines: Seq<Seq<char>>, i: int) -> bool {
    exists|k: int| i <= k < lines.len() && re.finds(#[trigger] lines[k])
}

/// Whether the end of some block's context, counted from a match the
/// search stops at, lies past `usize::MAX`.
pub open spec fn context_overflows(re: CompiledPattern, lines: Seq<Seq<char>>, i: int, after: int) -> bool
    decreases lines.len() - i,
{
    if i < 0 || i >= lines.len() || after < 0 {
        false
    } else if re.finds(lines[i]) {
        i + after + 1 > usize::MAX || context_overflows(
            re,
            lines,
            context_end(i, after, lines.len() as int),
            after,
        )
    } else {
        context_overflows(re, lines, i + 1, after)
    }
}

/// Whether `content_entry` can lay out the blocks of `content` with
/// `after` lines of context without the context end overflowing.
pub fn context_fits(re: &CompiledPattern, content: &str, after: usize) -> (b: bool)
    ensures
        b == !context_overflows(*re, spec_lines(content@), 0, after as int),
{
    let lines = split_lines(content);
    let ghost ls = spec_lines(content@);
    let n = lines.len();
    let mut i: usize = 0;
    while i < n
        invariant
            n == lines@.len(),
            lines@.len() == ls.len(),
            forall|k: int| 0 <= k < lines@.len() ==> #[trigger] lines@[k]@ == ls[k],
            i <= n,
            ls == spec_lines(content@),
            context_overflows(*re, ls, 0, after as int) == context_overflows(*re, ls, i as int, after as int),
        decreases n - i,
    {
        if regex_is_match(re, lines[i].as_str()) {
            if after > usize::MAX - 1 - i {
                assert(lines@[i as int]@ == ls[i as int]);
                assert(context_overflows(*re, ls, i as int, after as int));
                return false;
            }
            i = if i + after + 1 < n { i + after + 1 } else { n };
        } else {
            i = i + 1;
        }
    }
    true
}

/// `content_entry` behind its guard: `None` when the context after some
/// match would run past `usize::MAX` lines, else what `content_entry`
/// gives.
pub fn checked_content_entry(
    re: &CompiledPattern,
    rel: &str,
    content: &str,
    before: usize,
    after: usize,
    line_numbers: bool,
) -> (r: Option<Option<String>>)
    ensures
        r is None <==> context_overflows(*re, spec_lines(content@), 0, after as int),
        r matches Some(e) ==> (!any_match_from(*re, spec_lines(content@), 0) ==> e is None),
        r matches Some(e) ==> (any_match_from(*re, spec_lines(content@), 0) ==> (e matches Some(t)
            && t@ == seq!['#', '#', ' '] + rel@ + seq!['\n'] + blocks_from(
            *re,
            spec_lines(content@),
            0,
            before as int,
            after as int,
            line_numbers,
        ))),
{
    if context_fits(re, content, after) {
        Some(content_entry(re, rel, content, before, after, line_numbers))
    } else {
        None
    }
}

/// Appends `n` right-aligned in six columns.
fn push_number_field(out: &mut String, n: u64)
    ensures
        final(out)@ == old(out)@ + right_aligned(decimal(n as nat), 6),
{
    let digits = decimal_string(n);
    let len = to_chars(digits.as_str()).len();
    let ghost start = out@;
    if len < 6 {
        let mut k: usize = 0;
        while k < 6 - len
            invariant
                k <= 6 - len,
                out@ == start + Seq::new(k as nat, |q: int| ' '),
            decreases 6 - len - k,
        {
            push_char(out, ' ');
            assert(Seq::new((k + 1) as nat, |q: int| ' ') =~= Seq::new(k as nat, |q: int| ' ').push(' '));
            k = k + 1;
        }
    }
    push_str(out, digits.as_str());
    assert(out@ =~= start + right_aligned(decimal(n as nat), 6));
}

/// The report of a file in a content search: a `## path` header, then one
/// block per match with `before` and `after` lines of context, when the
/// regex matches any line.
pub fn content_entry(
    re: &CompiledPattern,
    rel: &str,
    content: &str,
    before: usize,
    after: usize,
    line_numbers: bool,
) -> (r: Option<String>)
    requires
        !context_overflows(*re, spec_lines(content@), 0, after as int),
    ensures
        !any_match_from(*re, spec_lines(content@), 0) ==> r is None,
        any_match_from(*re, spec_lines(content@), 0) ==> (r matches Some(t) && t@ == seq!['#', '#', ' ']
            + rel@ + seq!['\n'] + blocks_from(
            *re,
            spec_lines(content@),
            0,
            before as int,
            after as int,
            line_numbers,
        )),
{
    let lines = split_lines(content);
    let ghost ls = spec_lines(content@);
    let n = lines.len();
    let mut body = String::new();
    let mut found = false;
    let mut i: usize = 0;
    while i < n
        invariant
            n == lines@.len(),
            lines@.len() == ls.len(),
            forall|k: int| 0 <= k < lines@.len() ==> #[trigger] lines@[k]@ == ls[k],
            !context_overflows(*re, ls, i as int, after as int),
            i <= n,
            blocks_from(*re, ls, 0, before as int, after as int, line_numbers) == body@ + blocks_from(
                *re,
                ls,
                i as int,
                before as int,
                after as int,
                line_numbers,
            ),
            found == !(forall|k: int| 0 <= k < i ==> !re.finds(#[trigger] ls[k])),
            !found ==> body@.len() == 0,
        decreases n - i,
    {
        if regex_is_match(re, lines[i].as_str()) {
            let start = if i >= before { i - before } else { 0 };
            let end = if i + after + 1 < n { i + after + 1 } else { n };
            let ghost body0 = body@;
            let mut j: usize = start;
            while j < end
                invariant
                    start <= j <= end,
                    end <= n,
                    n == lines@.len(),
                    lines@.len() == ls.len(),
                    forall|k: int| 0 <= k < lines@.len() ==> #[trigger] lines@[k]@ == ls[k],
                    body@ == body0 + block_lines(ls, i as int, start as int, j as int, line_numbers),
                decreases end - j,
            {
                if j == i {
                    push_char(&mut body, '>');
                } else {
                    push_char(&mut body, ' ');
                }
                if line_numbers {
                    push_number_field(&mut body, (j + 1) as u64);
                    push_char(&mut body, ' ');
                }
                push_str(&mut body, lines[j].as_str());
                push_char(&mut body, '\n');
                assert(body@ =~= body0 + block_lines(ls, i as int, start as int, j + 1, line_numbers));
                j = j + 1;
            }
            if end < n || start > 0 {
                push_char(&mut body, '-');
                push_char(&mut body, '-');
                push_char(&mut body, '\n');
            }
            assert(body@ =~= body0 + match_block(ls, i as int, before as int, after as int, line_numbers));
            found = true;
            i = end;
        } else {
            i = i + 1;
        }
    }
    if !found {
        assert forall|k: int| 0 <= k < ls.len() implies !re.finds(#[trigger] ls[k]) by {}
        return None;
    }
    let mut t = owned("## ");
    push_str(&mut t, rel);
    push_char(&mut t, '\n');
    push_str(&mut t, body.as_str());
    proof {
        reveal_strlit("## ");
        assert("## "@ == seq!['#', '#', ' ']);
        assert(blocks_from(*re, ls, n as int, before as int, after as int, line_numbers) == Seq::<char>::empty());
    }
    Some(t)
}

// ---------------------------------------------------------------------------
// Ordering by recency
// ---------------------------------------------------------------------------

/// Lexicographic order of texts by code point, which is the order of their
/// UTF-8 bytes.
pub open spec fn text_before(a: Seq<char>, b: Seq<char>) -> bool
    decreases a.len(),
{
    if a.len() == 0 {
        b.len() > 0
    } else if b.len() == 0 {
        false
    } else if a[0] < b[0] {
        true
    } else if a[0] > b[0] {
        false
    } else {
        text_before(a.drop_first(), b.drop_first())
    }
}

pub proof fn lemma_text_before_irreflexive(a: Seq<char>)
    ensures
        !text_before(a, a),
    decreases a.len(),
{
    if a.len() > 0 {
        lemma_text_before_irreflexive(a.drop_first());
    }
}

pub proof fn lemma_text_before_transitive(a: Seq<char>, b: Seq<char>, c: Seq<char>)
    requires
        text_before(a, b),
        text_before(b, c),
    ensures
        text_before(a, c),
    decreases a.len(),
{
    if a.len() > 0 && b.len() > 0 && c.len() > 0 && a[0] == b[0] && b[0] == c[0] {
        lemma_text_before_transitive(a.drop_first(), b.drop_first(), c.drop_first());
    }
}

pub proof fn lemma_text_before_total(a: Seq<char>, b: Seq<char>)
    ensures
        a == b || text_before(a, b) || text_before(b, a),
    decreases a.len(),
{
    if a.len() > 0 && b.len() > 0 && a[0] == b[0] {
        lemma_text_before_total(a.drop_first(), b.drop_first());
        if a.drop_first() == b.drop_first() {
            assert(a =~= seq![a[0]] + a.drop_first());
            assert(b =~= seq![b[0]] + b.drop_first());
        }
    } else if a.len() == 0 && b.len() == 0 {
        assert(a =~= b);
    }
}

/// A named entry with its modification time.
pub open spec fn entry_view(e: (String, i128)) -> (Seq<char>, i128) {
    (e.0@, e.1)
}

/// The views of a list of entries.
pub open spec fn entry_views(s: Seq<(String, i128)>) -> Seq<(Seq<char>, i128)> {
    s.map_values(|e: (String, i128)| entry_view(e))
}

/// Entries come newest first, and by name among equally recent ones.
pub open spec fn comes_before(a: (Seq<char>, i128), b: (Seq<char>, i128)) -> bool {
    a.1 > b.1 || (a.1 == b.1 && text_before(a.0, b.0))
}

/// `a` may stand before `b`.
pub open spec fn in_order(a: (Seq<char>, i128), b: (Seq<char>, i128)) -> bool {
    !comes_before(b, a)
}

proof fn lemma_in_order_transitive(a: (Seq<char>, i128), b: (Seq<char>, i128), c: (Seq<char>, i128))
    requires
        in_order(a, b),
        in_order(b, c),
    ensures
        in_order(a, c),
{
    if comes_before(c, a) {
        if a.1 == b.1 && b.1 == c.1 {
            lemma_text_before_total(a.0, b.0);
            lemma_text_before_total(b.0, c.0);
            if text_before(b.0, a.0) {
            } else if a.0 == b.0 {
            } else {
                if text_before(c.0, b.0) {
                } else if b.0 == c.0 {
                } else {
                    lemma_text_before_transitive(a.0, b.0, c.0);
                    lemma_text_before_transitive(c.0, a.0, b.0);
                    lemma_text_before_irreflexive(b.0);
                }
            }
        }
    }
}

proof fn lemma_in_order_reflexive(a: (Seq<char>, i128))
    ensures
        in_order(a, a),
{
    lemma_text_before_irreflexive(a.0);
}

proof fn lemma_comes_before_asymmetric(a: (Seq<char>, i128), b: (Seq<char>, i128))
    requires
        comes_before(a, b),
    ensures
        in_order(a, b),
{
    if a.1 == b.1 && text_before(b.0, a.0) {
        lemma_text_before_transitive(a.0, b.0, a.0);
        lemma_text_before_irreflexive(a.0);
    }
}

proof fn lemma_in_order_total(a: (Seq<char>, i128), b: (Seq<char>, i128))
    ensures
        in_order(a, b) || in_order(b, a),
{
    if a.1 == b.1 && text_before(a.0, b.0) && text_before(b.0, a.0) {
        lemma_text_before_transitive(a.0, b.0, a.0);
        lemma_text_before_irreflexive(a.0);
    }
}

/// Every entry may stand before every later one.
pub open spec fn ordered(s: Seq<(Seq<char>, i128)>) -> bool {
    forall|i: int, j: int| 0 <= i < j < s.len() ==> in_order(#[trigger] s[i], #[trigger] s[j])
}

fn text_before_exec(a: &str, b: &str) -> (r: bool)
    ensures
        r == text_before(a@, b@),
{
    let x = to_chars(a);
    let y = to_chars(b);
    let mut k: usize = 0;
    assert(a@.skip(0) == a@);
    assert(b@.skip(0) == b@);
    while k < x.len() && k < y.len() && x[k] == y[k]
        invariant
            k <= x.len(),
            k <= y.len(),
            x@ == a@,
            y@ == b@,
            text_before(a@, b@) == text_before(a@.skip(k as int), b@.skip(k as int)),
        decreases x.len() - k,
    {
        assert(a@.skip(k as int).drop_first() == a@.skip(k + 1));
        assert(b@.skip(k as int).drop_first() == b@.skip(k + 1));
        k = k + 1;
    }
    if k == x.len() {
        k < y.len()
    } else if k == y.len() {
        false
    } else {
        x[k] < y[k]
    }
}

fn comes_before_exec(a: &(String, i128), b: &(String, i128)) -> (r: bool)
    ensures
        r == comes_before(entry_view(*a), entry_view(*b)),
{
    a.1 > b.1 || (a.1 == b.1 && text_before_exec(a.0.as_str(), b.0.as_str()))
}

/// The names of `entries` ordered newest first, then by name: the result
/// holds the same entries, in order.
pub fn by_recency(entries: Vec<(String, i128)>) -> (r: Vec<(String, i128)>)
    ensures
        entry_views(r@).to_multiset() == entry_views(entries@).to_multiset(),
        ordered(entry_views(r@)),
{
    broadcast use vstd::seq_lib::group_to_multiset_ensures;
    let ghost total = entry_views(entries@).to_multiset();
    let mut rest = entries;
    let mut out: Vec<(String, i128)> = Vec::new();
    while rest.len() > 0
        invariant
            entry_views(out@).to_multiset().add(
                entry_views(rest@).to_multiset(),
            ) == total,
            ordered(entry_views(out@)),
            forall|i: int, j: int|
                0 <= i < out@.len() && 0 <= j < rest@.len() ==> in_order(
                    entry_view(#[trigger] out@[i]),
                    entry_view(#[trigger] rest@[j]),
                ),
        decreases rest.len(),
    {
        let mut best: usize = 0;
        let mut k: usize = 1;
        proof {
            lemma_in_order_reflexive(entry_view(rest@[0]));
        }
        while k < rest.len()
            invariant
                0 < rest.len(),
                best < k <= rest.len(),
                forall|q: int| 0 <= q < k ==> in_order(entry_view(rest@[best as int]), entry_view(#[trigger] rest@[q])),
            decreases rest.len() - k,
        {
            if comes_before_exec(&rest[k], &rest[best]) {
                proof {
                    assert forall|q: int| 0 <= q < k + 1 implies in_order(
                        entry_view(rest@[k as int]),
                        entry_view(#[trigger] rest@[q]),
                    ) by {
                        lemma_comes_before_asymmetric(entry_view(rest@[k as int]), entry_view(rest@[best as int]));
                        if q < k {
                            lemma_in_order_transitive(
                                entry_view(rest@[k as int]),
                                entry_view(rest@[best as int]),
                                entry_view(rest@[q]),
                            );
                        } else {
                            lemma_in_order_reflexive(entry_view(rest@[q]));
                        }
                    }
                }
                best = k;
            } else {
                proof {
                    lemma_in_order_total(entry_view(rest@[best as int]), entry_view(rest@[k as int]));
                }
            }
            k = k + 1;
        }
        let ghost old_rest = rest@;
        let ghost old_out = out@;
        let e = rest.remove(best);
        let ghost rv = entry_views(old_rest);
        proof {
            assert(entry_views(rest@) =~= rv.remove(best as int));
            assert(rv[best as int] == entry_view(e));
        }
        out.push(e);
        proof {
            let ov = entry_views(old_out);
            let x = entry_view(e);
            assert(entry_views(out@) =~= ov.push(x));
            rv.to_multiset_ensures();
            ov.to_multiset_ensures();
            assert(rv[best as int] == x);
            assert(rv.contains(x));
            assert(rv.to_multiset().count(x) > 0);
            assert(ov.push(x).to_multiset() =~= ov.to_multiset().insert(x));
            assert(rv.remove(best as int).to_multiset() =~= rv.to_multiset().remove(x));
            assert(ov.to_multiset().insert(x).add(rv.to_multiset().remove(x)) =~= ov.to_multiset().add(
                rv.to_multiset(),
            ));
            assert forall|i: int, j: int|
                0 <= i < out@.len() && 0 <= j < rest@.len() implies in_order(
                    entry_view(#[trigger] out@[i]),
                    entry_view(#[trigger] rest@[j]),
                ) by {
                if i < old_out.len() {
                    if j < best {
                        assert(rest@[j] == old_rest[j]);
                    } else {
                        assert(rest@[j] == old_rest[j + 1]);
                    }
                } else {
                    if j < best {
                        assert(rest@[j] == old_rest[j]);
                    } else {
                        assert(rest@[j] == old_rest[j + 1]);
                    }
                }
            }
            assert forall|i: int, j: int|
                0 <= i < j < out@.len() implies in_order(
                    #[trigger] entry_views(out@)[i],
                    #[trigger] entry_views(out@)[j],
                ) by {
                if j < old_out.len() {
                    assert(out@[i] == old_out[i]);
                    assert(out@[j] == old_out[j]);
                } else {
                    assert(out@[i] == old_out[i]);
                    assert(entry_view(out@[j]) == entry_view(old_rest[best as int]));
                }
            }
        }
    }
    out
}

// ---------------------------------------------------------------------------
// Reports
// ---------------------------------------------------------------------------

/// A result as listed: with a newline at its end.
pub open spec fn listed_line(r: Seq<char>) -> Seq<char> {
    if has_suffix(r, seq!['\n']) { r } else { r.push('\n') }
}

/// Results listed one after another, each ending in a newline.
pub open spec fn listed_lines(rs: Seq<Seq<char>>) -> Seq<char>
    decreases rs.len(),
{
    if rs.len() == 0 {
        Seq::<char>::empty()
    } else {
        listed_lines(rs.drop_last()) + listed_line(rs.last())
    }
}

/// Whether a page leaves results out after it.
pub open spec fn truncated(total: nat, offset: nat, head_limit: nat) -> bool {
    head_limit > 0 && total > offset + head_limit
}

/// The page of results that a report shows.
pub open spec fn page(entries: Seq<Seq<char>>, offset: nat, head_limit: nat) -> Seq<Seq<char>> {
    entries.subrange(
        page_start(entries.len(), offset) as int,
        page_end(entries.len(), offset, head_limit) as int,
    )
}

/// The report of a content, count or files search: the page of results,
/// a note when results were left out, or a notice that nothing matched.
pub open spec fn content_report_text(
    entries: Seq<Seq<char>>,
    offset: nat,
    head_limit: nat,
    pattern: Seq<char>,
) -> Seq<char> {
    let shown = page(entries, offset, head_limit);
    let body = listed_lines(shown) + if truncated(entries.len(), offset, head_limit) {
        "\n(Truncated: showing "@ + decimal(offset + 1) + seq!['-'] + decimal(offset + shown.len())
            + " of "@ + decimal(entries.len()) + " results. Use offset/head_limit for more.)"@
    } else {
        Seq::<char>::empty()
    };
    if body.len() == 0 {
        "No matches found for '"@ + pattern + seq!['\'']
    } else {
        body
    }
}

/// The report of a filename search: how many files matched and the page
/// of their paths, with a note when paths were left out.
pub open spec fn filename_report_text(
    names: Seq<Seq<char>>,
    offset: nat,
    head_limit: nat,
    pattern: Seq<char>,
) -> Seq<char> {
    let shown = page(names, offset, head_limit);
    if shown.len() == 0 {
        "No files matching '"@ + pattern + "' found"@
    } else {
        decimal(names.len()) + " file(s) matching '"@ + pattern + seq!['\'', ':', '\n']
            + listed_lines(shown.map_values(|n: Seq<char>| n.push('\n'))) + if truncated(
            names.len(),
            offset,
            head_limit,
        ) {
            "\n(Truncated. Use offset/head_limit for more.)"@
        } else {
            Seq::<char>::empty()
        }
    }
}

/// Appends the results, each followed by a newline unless it ends in one.
fn push_listed(out: &mut String, results: &Vec<String>)
    ensures
        final(out)@ == old(out)@ + listed_lines(views(results@)),
{
    let ghost start = out@;
    let ghost vs = views(results@);
    let mut i: usize = 0;
    while i < results.len()
        invariant
            i <= results.len(),
            vs == views(results@),
            out@ == start + listed_lines(vs.take(i as int)),
        decreases results.len() - i,
    {
        assert(vs.take(i + 1).drop_last() == vs.take(i as int));
        assert(vs.take(i + 1).last() == results@[i as int]@);
        let r = results[i].as_str();
        push_str(out, r);
        proof {
            reveal_strlit("\n");
            assert("\n"@ == seq!['\n']);
        }
        if !crate::text::ends_with(r, "\n") {
            push_char(out, '\n');
        }
        assert(out@ =~= start + listed_lines(vs.take(i + 1)));
        i = i + 1;
    }
    assert(vs.take(results.len() as int) == vs);
}

/// Assembles the report of a content, count or files search from its
/// entries (already in report order).
pub fn content_report(entries: Vec<String>, offset: usize, head_limit: usize, pattern: &str) -> (r: String)
    requires
        page_start(entries@.len(), offset as nat) + (if head_limit == 0 {
            entries@.len()
        } else {
            head_limit as nat
        }) <= usize::MAX,
        head_limit > 0 ==> offset + head_limit <= usize::MAX,
    ensures
        r@ == content_report_text(views(entries@), offset as nat, head_limit as nat, pattern@),
{
    let ghost all = views(entries@);
    let (total, results) = paginate(entries, offset, head_limit);
    let ghost shown = page(all, offset as nat, head_limit as nat);
    assert(views(results@) =~= shown);
    let mut out = String::new();
    push_listed(&mut out, &results);
    proof {
        reveal_strlit("\n(Truncated: showing ");
        reveal_strlit(" of ");
        reveal_strlit(" results. Use offset/head_limit for more.)");
        reveal_strlit("No matches found for '");
    }
    if head_limit > 0 && total > offset + head_limit {
        push_str(&mut out, "\n(Truncated: showing ");
        push_str(&mut out, decimal_string((offset + 1) as u64).as_str());
        push_char(&mut out, '-');
        push_str(&mut out, decimal_string((offset + results.len()) as u64).as_str());
        push_str(&mut out, " of ");
        push_str(&mut out, decimal_string(total as u64).as_str());
        push_str(&mut out, " results. Use offset/head_limit for more.)");
    }
    if out.as_str().is_empty() {
        let mut m = owned("No matches found for '");
        push_str(&mut m, pattern);
        push_char(&mut m, '\'');
        return m;
    }
    out
}

/// Assembles the report of a filename search from the matching paths
/// (already in report order).
pub fn filename_report(names: Vec<String>, offset: usize, head_limit: usize, pattern: &str) -> (r: String)
    requires
        page_start(names@.len(), offset as nat) + (if head_limit == 0 {
            names@.len()
        } else {
            head_limit as nat
        }) <= usize::MAX,
        head_limit > 0 ==> offset + head_limit <= usize::MAX,
    ensures
        r@ == filename_report_text(views(names@), offset as nat, head_limit as nat, pattern@),
{
    let ghost all = views(names@);
    let (total, results) = paginate(names, offset, head_limit);
    let ghost shown = page(all, offset as nat, head_limit as nat);
    assert(views(results@) =~= shown);
    proof {
        reveal_strlit("No files matching '");
        reveal_strlit("' found");
        reveal_strlit(" file(s) matching '");
        reveal_strlit("\n(Truncated. Use offset/head_limit for more.)");
    }
    let mut out = String::new();
    if results.len() == 0 {
        push_str(&mut out, "No files matching '");
        push_str(&mut out, pattern);
        push_str(&mut out, "' found");
        return out;
    }
    push_str(&mut out, decimal_string(total as u64).as_str());
    push_str(&mut out, " file(s) matching '");
    push_str(&mut out, pattern);
    push_char(&mut out, '\'');
    push_char(&mut out, ':');
    push_char(&mut out, '\n');
    let ghost head = out@;
    let ghost terminated = shown.map_values(|n: Seq<char>| n.push('\n'));
    let mut i: usize = 0;
    while i < results.len()
        invariant
            i <= results.len(),
            views(results@) == shown,
            terminated == shown.map_values(|n: Seq<char>| n.push('\n')),
            out@ == head + listed_lines(terminated.take(i as int)),
        decreases results.len() - i,
    {
        assert(terminated.take(i + 1).drop_last() == terminated.take(i as int));
        assert(terminated.take(i + 1).last() == results@[i as int]@.push('\n'));
        let ghost x = results@[i as int]@;
        assert(x.push('\n').skip(x.len() as int) =~= seq!['\n']);
        assert(has_suffix(x.push('\n'), seq!['\n']));
        push_str(&mut out, results[i].as_str());
        push_char(&mut out, '\n');
        i = i + 1;
    }
    assert(terminated.take(results.len() as int) == terminated);
    if head_limit > 0 && total > offset + head_limit {
        push_str(&mut out, "\n(Truncated. Use offset/head_limit for more.)");
    }
    out
}

// ---------------------------------------------------------------------------
// Arguments
// ---------------------------------------------------------------------------

/// Results shown when the call names no `head_limit`.
pub const DEFAULT_HEAD_LIMIT: usize = 250;

/// Directory levels a search descends at most.
pub const MAX_DEPTH: usize = 30;

/// What a search looks for.
#[derive(Debug, Clone, Copy, PartialEq, Eq, Structural)]
pub enum SearchMode {
    /// Matching lines with context.
    Content,
    /// Number of matching lines per file.
    Count,
    /// Paths of files with a match, newest first.
    FilesWithMatches,
    /// Paths whose names match a glob.
    Filename,
}

/// The arguments of a search call as it named them; absent ones take their
/// defaults.
#[derive(Debug)]
pub struct SearchArgs {
    pub query: Option<String>,
    pub mode: Option<String>,
    pub path: Option<String>,
    pub glob: Option<String>,
    pub ignore_case: Option<bool>,
    pub multiline: Option<bool>,
    pub head_limit: Option<u64>,
    pub offset: Option<u64>,
    pub before_context: Option<u64>,
    pub after_context: Option<u64>,
    pub line_numbers: Option<bool>,
}

/// A search with every setting decided.
#[derive(Debug)]
pub struct SearchRequest {
    pub query: String,
    pub mode: SearchMode,
    pub path: String,
    pub glob: Option<String>,
    pub ignore_case: bool,
    pub multiline: bool,
    pub head_limit: usize,
    pub offset: usize,
    pub before: usize,
    pub after: usize,
    pub line_numbers: bool,
}

/// The mode a mode name selects: `content`, `count` and
/// `files_with_matches` select themselves, anything else a filename search.
pub open spec fn mode_named(name: Seq<char>) -> SearchMode {
    if name == "content"@ {
        SearchMode::Content
    } else if name == "count"@ {
        SearchMode::Count
    } else if name == "files_with_matches"@ {
        SearchMode::FilesWithMatches
    } else {
        SearchMode::Filename
    }
}

/// The mode a mode name selects.
pub fn search_mode(name: &str) -> (m: SearchMode)
    ensures
        m == mode_named(name@),
{
    let n = owned(name);
    if n == owned("content") {
        SearchMode::Content
    } else if n == owned("count") {
        SearchMode::Count
    } else if n == owned("files_with_matches") {
        SearchMode::FilesWithMatches
    } else {
        SearchMode::Filename
    }
}

/// A count as a `usize`.
pub open spec fn as_count(n: u64) -> usize {
    n as usize
}

/// Decides a search's settings: the query is required; the mode defaults
/// to a filename search, the path to `.`, case is ignored unless turned
/// off, 250 results are shown from the first on, with no context and with
/// line numbers.
pub fn resolve_search(args: SearchArgs) -> (r: Result<SearchRequest, String>)
    ensures
        match args.query {
            None => true,
            Some(q) => q@.len() == 0,
        } <==> r is Err,
        r matches Err(e) ==> e@ == "Error: 'query' is required"@,
        r matches Ok(req) ==> {
            &&& args.query matches Some(q) && req.query@ == q@
            &&& req.mode == match args.mode {
                Some(m) => mode_named(m@),
                None => SearchMode::Filename,
            }
            &&& req.path@ == match args.path {
                Some(p) => p@,
                None => seq!['.'],
            }
            &&& req.glob == args.glob
            &&& req.ignore_case == match args.ignore_case {
                Some(b) => b,
                None => true,
            }
            &&& req.multiline == match args.multiline {
                Some(b) => b,
                None => false,
            }
            &&& req.head_limit == match args.head_limit {
                Some(n) => as_count(n),
                None => DEFAULT_HEAD_LIMIT,
            }
            &&& req.offset == match args.offset {
                Some(n) => as_count(n),
                None => 0,
            }
            &&& req.before == match args.before_context {
                Some(n) => as_count(n),
                None => 0,
            }
            &&& req.after == match args.after_context {
                Some(n) => as_count(n),
                None => 0,
            }
            &&& req.line_numbers == match args.line_numbers {
                Some(b) => b,
                None => true,
            }
        },
{
    let query = match args.query {
        Some(q) => q,
        None => String::new(),
    };
    if query.as_str().is_empty() {
        return Err(owned("Error: 'query' is required"));
    }
    let mode = match &args.mode {
        Some(m) => search_mode(m.as_str()),
        None => SearchMode::Filename,
    };
    let path = match args.path {
        Some(p) => p,
        None => {
            let mut p = String::new();
            push_char(&mut p, '.');
            p
        },
    };
    Ok(SearchRequest {
        query,
        mode,
        path,
        glob: args.glob,
        ignore_case: match args.ignore_case {
            Some(b) => b,
            None => true,
        },
        multiline: match args.multiline {
            Some(b) => b,
            None => false,
        },
        head_limit: match args.head_limit {
            Some(n) => n as usize,
            None => DEFAULT_HEAD_LIMIT,
        },
        offset: match args.offset {
            Some(n) => n as usize,
            None => 0,
        },
        before: match args.before_context {
            Some(n) => n as usize,
            None => 0,
        },
        after: match args.after_context {
            Some(n) => n as usize,
            None => 0,
        },
        line_numbers: match args.line_numbers {
            Some(b) => b,
            None => true,
        },
    })
}

/// The report when the search path does not exist.
pub fn path_not_found(path: &str) -> (r: String)
    ensures
        r@ == "Path not found: "@ + path@,
{
    let mut m = owned("Path not found: ");
    push_str(&mut m, path);
    m
}

/// Compiles the pattern of a content search; a pattern that does not
/// build is reported as invalid with the builder's message.
pub fn compile_search_pattern(pattern: &str, ignore_case: bool, multiline: bool) -> (r: Result<CompiledPattern, String>)
    ensures
        r is Ok <==> regex_build_error(pattern@, ignore_case, multiline) is None,
        r matches Ok(c) ==> c.source() == pattern@ && c.ignores_case() == ignore_case
            && c.is_multiline() == multiline,
        r matches Err(m) ==> m@ == "Invalid regex: "@ + regex_build_error(
            pattern@,
            ignore_case,
            multiline,
        )->0,
{
    match build_regex(pattern, ignore_case, multiline) {
        Ok(c) => Ok(c),
        Err(e) => {
            let mut m = owned("Invalid regex: ");
            push_str(&mut m, e.as_str());
            Err(m)
        },
    }
}

/// Whether a walk at `depth` goes on to the subdirectories it found: only
/// within the first `MAX_DEPTH` levels.
pub fn descends_from(depth: usize) -> (b: bool)
    ensures
        b == (depth + 1 < MAX_DEPTH),
{
    depth < MAX_DEPTH - 1
}

} // verus!
