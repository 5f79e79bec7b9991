//! JavaScript stack frames found in scripting-log messages.
//!
//! A frame is either a line of the form `at <body>` or, in a line that reads
//! like `SomeError: ...`, each ` at <body>` inside it. A body is either a
//! location or `name (location)`; a location is `path:line` or
//! `path:line:column`, and only the behavior pack's `main.js` is accepted.
use vstd::prelude::*;
use crate::text::{
    chars_of, contains_chars, contains_spec, ends_with_chars, ends_with_spec, find_char,
    lemma_split_nonempty, occurs_at, occurs_at_exec, parse_unsigned, parse_unsigned_spec,
    slice_range, split_chars, split_spec, starts_with_chars, starts_with_spec, string_from,
    trim_chars, trim_spec, trim_start_chars, trim_start_spec,
};
use crate::text::{is_white_space, trim_end_spec};

verus! {

/// A JavaScript stack frame extracted from a scripting-log message.
///
/// All coordinates are one-based for display. A missing generated column
/// means the message only supplied a line number.
#[derive(Debug, Clone, PartialEq, Eq)]
pub struct ScriptFrame {
    pub function_name: Option<String>,
    pub generated_path: String,
    pub generated_line: u32,
    pub generated_column: Option<u32>,
    pub source_path: Option<String>,
    pub source_line: Option<u32>,
    pub source_column: Option<u32>,
    pub mapped: bool,
}

/// A frame with its strings taken as character sequences.
pub struct FrameView {
    pub function_name: Option<Seq<char>>,
    pub generated_path: Seq<char>,
    pub generated_line: u32,
    pub generated_column: Option<u32>,
    pub source_path: Option<Seq<char>>,
    pub source_line: Option<u32>,
    pub source_column: Option<u32>,
    pub mapped: bool,
}

pub open spec fn opt_view(o: Option<String>) -> Option<Seq<char>> {
    match o {
        Some(s) => Some(s@),
        None => None,
    }
}

impl View for ScriptFrame {
    type V = FrameView;

    open spec fn view(&self) -> FrameView {
        FrameView {
            function_name: opt_view(self.function_name),
            generated_path: self.generated_path@,
            generated_line: self.generated_line,
            generated_column: self.generated_column,
            source_path: opt_view(self.source_path),
            source_line: self.source_line,
            source_column: self.source_column,
            mapped: self.mapped,
        }
    }
}

pub open spec fn frames_view(v: Seq<ScriptFrame>) -> Seq<FrameView> {
    v.map_values(|f: ScriptFrame| f@)
}

/// A frame as parsed from a log line: generated coordinates only, unmapped.
pub open spec fn parsed_frame(
    function_name: Option<Seq<char>>,
    path: Seq<char>,
    line: u32,
    column: Option<u32>,
) -> FrameView {
    FrameView {
        function_name,
        generated_path: path,
        generated_line: line,
        generated_column: column,
        source_path: None,
        source_line: None,
        source_column: None,
        mapped: false,
    }
}

// ── Searching ─────────────────────────────────────────────────────────

/// `k` is the position of the first `c` in `s`.
pub open spec fn is_first_index(s: Seq<char>, c: char, k: int) -> bool {
    &&& 0 <= k < s.len()
    &&& s[k] == c
    &&& forall|j: int| 0 <= j < k ==> s[j] != c
}

/// `k` is the position of the last `c` in `s`.
pub open spec fn is_last_index(s: Seq<char>, c: char, k: int) -> bool {
    &&& 0 <= k < s.len()
    &&& s[k] == c
    &&& forall|j: int| k < j < s.len() ==> s[j] != c
}

/// `k` is the start of the last occurrence of `pat` in `s`.
pub open spec fn is_last_occurrence(s: Seq<char>, pat: Seq<char>, k: int) -> bool {
    &&& occurs_at(s, pat, k)
    &&& forall|j: int| k < j ==> !occurs_at(s, pat, j)
}

pub open spec fn first_index_of(s: Seq<char>, c: char) -> Option<int> {
    if exists|k: int| is_first_index(s, c, k) {
        Some(choose|k: int| is_first_index(s, c, k))
    } else {
        None
    }
}

pub open spec fn last_index_of(s: Seq<char>, c: char) -> Option<int> {
    if exists|k: int| is_last_index(s, c, k) {
        Some(choose|k: int| is_last_index(s, c, k))
    } else {
        None
    }
}

pub open spec fn last_occurrence(s: Seq<char>, pat: Seq<char>) -> Option<int> {
    if exists|k: int| is_last_occurrence(s, pat, k) {
        Some(choose|k: int| is_last_occurrence(s, pat, k))
    } else {
        None
    }
}

proof fn lemma_first_index(s: Seq<char>, c: char, i: int)
    requires
        is_first_index(s, c, i),
    ensures
        first_index_of(s, c) == Some(i),
{
    let k = choose|k: int| is_first_index(s, c, k);
    assert(is_first_index(s, c, k));
    if k < i {
        assert(s[k] == c);
    } else if i < k {
        assert(s[i] == c);
    }
}

proof fn lemma_last_index(s: Seq<char>, c: char, i: int)
    requires
        is_last_index(s, c, i),
    ensures
        last_index_of(s, c) == Some(i),
{
    let k = choose|k: int| is_last_index(s, c, k);
    assert(is_last_index(s, c, k));
    if k < i {
        assert(s[i] == c);
    } else if i < k {
        assert(s[k] == c);
    }
}

proof fn lemma_last_occurrence(s: Seq<char>, pat: Seq<char>, i: int)
    requires
        is_last_occurrence(s, pat, i),
    ensures
        last_occurrence(s, pat) == Some(i),
{
    let k = choose|k: int| is_last_occurrence(s, pat, k);
    assert(is_last_occurrence(s, pat, k));
    if k < i {
        assert(occurs_at(s, pat, i));
    } else if i < k {
        assert(occurs_at(s, pat, k));
    }
}

/// Index of the last `c` in `s`, if any.
fn rfind_char(s: &[char], c: char) -> (r: Option<usize>)
    ensures
        match r {
            Some(i) => is_last_index(s@, c, i as int),
            None => forall|j: int| 0 <= j < s@.len() ==> s@[j] != c,
        },
        r matches Some(i) ==> last_index_of(s@, c) == Some(i as int),
        r is None ==> last_index_of(s@, c) is None,
{
    let mut i: usize = s.len();
    while i > 0
        invariant
            0 <= i <= s.len(),
            forall|j: int| i <= j < s@.len() ==> s@[j] != c,
        decreases i,
    {
        if s[i - 1] == c {
            proof {
                lemma_last_index(s@, c, i - 1);
            }
            return Some(i - 1);
        }
        i -= 1;
    }
    None
}

/// Start of the last occurrence of `pat` in `s`, if any.
fn rfind_pattern(s: &[char], pat: &[char]) -> (r: Option<usize>)
    ensures
        r matches Some(i) ==> last_occurrence(s@, pat@) == Some(i as int) && occurs_at(
            s@,
            pat@,
            i as int,
        ),
        r is None ==> last_occurrence(s@, pat@) is None,
{
    if pat.len() > s.len() {
        proof {
            assert forall|k: int| !is_last_occurrence(s@, pat@, k) by {}
        }
        return None;
    }
    if pat.len() == 0 {
        proof {
            assert(s@.subrange(s@.len() as int, s@.len() as int) =~= pat@);
            lemma_last_occurrence(s@, pat@, s@.len() as int);
        }
        return Some(s.len());
    }
    let mut i: usize = s.len() - pat.len() + 1;
    while i > 0
        invariant
            pat.len() <= s.len(),
            0 <= i <= s.len() - pat.len() + 1,
            forall|j: int| i <= j ==> !occurs_at(s@, pat@, j),
        decreases i,
    {
        if occurs_at_exec(s, pat, i - 1) {
            proof {
                lemma_last_occurrence(s@, pat@, i - 1);
            }
            return Some(i - 1);
        }
        i -= 1;
    }
    proof {
        assert forall|k: int| !is_last_occurrence(s@, pat@, k) by {
            if k < 0 {
                assert(!occurs_at(s@, pat@, k));
            }
        }
    }
    None
}

fn find_first_char(s: &[char], c: char) -> (r: Option<usize>)
    ensures
        r matches Some(i) ==> first_index_of(s@, c) == Some(i as int),
        r is None ==> first_index_of(s@, c) is None,
{
    let r = find_char(s, c);
    proof {
        match r {
            Some(i) => lemma_first_index(s@, c, i as int),
            None => {
                assert forall|k: int| !is_first_index(s@, c, k) by {}
            },
        }
    }
    r
}

// ── Paths ─────────────────────────────────────────────────────────────

/// The one script path frames are reported under.
pub open spec fn main_script_path() -> Seq<char> {
    "/scripts/main.js"@
}

pub open spec fn slash_for_backslash(c: char) -> char {
    if c == '\\' {
        '/'
    } else {
        c
    }
}

/// `s` without its leading slashes.
pub open spec fn trim_leading_slashes(s: Seq<char>) -> Seq<char>
    decreases s.len(),
{
    if s.len() > 0 && s[0] == '/' {
        trim_leading_slashes(s.drop_first())
    } else {
        s
    }
}

/// Where `path` points inside the behavior pack: white space trimmed,
/// backslashes made slashes, leading slashes and a `BP/` prefix dropped;
/// only `main.js` and `scripts/main.js` are known, both as
/// `/scripts/main.js`.
pub open spec fn normalize_path_spec(path: Seq<char>) -> Option<Seq<char>> {
    let unified = trim_spec(path).map_values(|c: char| slash_for_backslash(c));
    let relative = trim_leading_slashes(unified);
    let in_pack = if starts_with_spec(relative, "BP/"@) {
        relative.skip("BP/"@.len() as int)
    } else {
        relative
    };
    if in_pack == "main.js"@ || in_pack == "scripts/main.js"@ {
        Some(main_script_path())
    } else {
        None
    }
}

proof fn lemma_trim_start_unifies(s: Seq<char>)
    ensures
        trim_start_spec(s.map_values(|c: char| slash_for_backslash(c))) == trim_start_spec(s).map_values(
            |c: char| slash_for_backslash(c),
        ),
    decreases s.len(),
{
    let f = |c: char| slash_for_backslash(c);
    if s.len() > 0 {
        let m = s.map_values(f);
        assert(m[0] == f(s[0]));
        assert(is_white_space(f(s[0])) == is_white_space(s[0]));
        assert(m.drop_first() =~= s.drop_first().map_values(f));
        lemma_trim_start_unifies(s.drop_first());
    } else {
        assert(s.map_values(f) =~= s);
    }
}

proof fn lemma_trim_end_unifies(s: Seq<char>)
    ensures
        trim_end_spec(s.map_values(|c: char| slash_for_backslash(c))) == trim_end_spec(s).map_values(
            |c: char| slash_for_backslash(c),
        ),
    decreases s.len(),
{
    let f = |c: char| slash_for_backslash(c);
    if s.len() > 0 {
        let m = s.map_values(f);
        assert(m.last() == f(s.last()));
        assert(is_white_space(f(s.last())) == is_white_space(s.last()));
        assert(m.drop_last() =~= s.drop_last().map_values(f));
        lemma_trim_end_unifies(s.drop_last());
    } else {
        assert(s.map_values(f) =~= s);
    }
}

/// Path normalisation reads every backslash as a slash: a path names the
/// pack's `main.js` exactly when the same path with each `\` replaced by
/// `/` does, and the only path it ever gives is `/scripts/main.js`.
pub proof fn lemma_normalize_reads_backslash_as_slash(path: Seq<char>)
    ensures
        normalize_path_spec(path) == normalize_path_spec(
            path.map_values(|c: char| if c == '\\' { '/' } else { c }),
        ),
        normalize_path_spec(path) matches Some(r) ==> r == "/scripts/main.js"@,
{
    let f = |c: char| slash_for_backslash(c);
    let g = |c: char| if c == '\\' { '/' } else { c };
    let q = path.map_values(g);
    assert(q =~= path.map_values(f));
    lemma_trim_start_unifies(path);
    lemma_trim_end_unifies(trim_start_spec(path));
    let t = trim_spec(path);
    assert(trim_spec(q) == t.map_values(f));
    assert(t.map_values(f).map_values(f) =~= t.map_values(f));
}

proof fn lemma_trim_leading_slashes_skip(s: Seq<char>, i: int)
    requires
        0 <= i <= s.len(),
        forall|j: int| 0 <= j < i ==> #[trigger] s[j] == '/',
    ensures
        trim_leading_slashes(s) == trim_leading_slashes(s.skip(i)),
    decreases i,
{
    if i > 0 {
        lemma_trim_leading_slashes_skip(s.drop_first(), i - 1);
        assert(s.drop_first().skip(i - 1) == s.skip(i));
    } else {
        assert(s.skip(0) == s);
    }
}

fn normalize_path_chars(path: &[char]) -> (r: Option<String>)
    ensures
        opt_view(r) == normalize_path_spec(path@),
{
    let trimmed = trim_chars(path);
    let mut unified: Vec<char> = Vec::new();
    let mut i: usize = 0;
    while i < trimmed.len()
        invariant
            0 <= i <= trimmed.len(),
            unified@ == trimmed@.take(i as int).map_values(|c: char| slash_for_backslash(c)),
        decreases trimmed.len() - i,
    {
        let c = trimmed[i];
        unified.push(if c == '\\' {
            '/'
        } else {
            c
        });
        assert(trimmed@.take(i + 1) == trimmed@.take(i as int).push(c));
        assert(trimmed@.take(i + 1).map_values(|c: char| slash_for_backslash(c))
            =~= trimmed@.take(i as int).map_values(|c: char| slash_for_backslash(c)).push(
            slash_for_backslash(c),
        ));
        i += 1;
    }
    assert(trimmed@.take(trimmed@.len() as int) == trimmed@);
    let mut k: usize = 0;
    while k < unified.len() && unified[k] == '/'
        invariant
            0 <= k <= unified.len(),
            forall|j: int| 0 <= j < k ==> #[trigger] unified@[j] == '/',
        decreases unified.len() - k,
    {
        k += 1;
    }
    proof {
        lemma_trim_leading_slashes_skip(unified@, k as int);
        assert(unified@.skip(k as int) == trim_leading_slashes(unified@.skip(k as int))) by {
            if unified@.skip(k as int).len() > 0 {
                assert(unified@.skip(k as int)[0] == unified@[k as int]);
            }
        }
    }
    let relative = slice_range(unified.as_slice(), k, unified.len());
    assert(relative@ == unified@.skip(k as int));
    let bp = chars_of("BP/");
    let in_pack = if starts_with_chars(relative.as_slice(), bp.as_slice()) {
        slice_range(relative.as_slice(), bp.len(), relative.len())
    } else {
        relative
    };
    let main = chars_of("main.js");
    let scripts_main = chars_of("scripts/main.js");
    if crate::order::chars_eq(in_pack.as_slice(), main.as_slice()) || crate::order::chars_eq(
        in_pack.as_slice(),
        scripts_main.as_slice(),
    ) {
        let p = chars_of("/scripts/main.js");
        Some(string_from(p.as_slice()))
    } else {
        None
    }
}

/// The canonical script path for `path`, if it names the pack's `main.js`.
pub fn normalize_script_path(path: &str) -> (r: Option<String>)
    ensures
        opt_view(r) == normalize_path_spec(path@),
{
    let cs = chars_of(path);
    normalize_path_chars(cs.as_slice())
}

// ── Locations ─────────────────────────────────────────────────────────

/// A generated location `path:line` or `path:line:column`, read as
/// `str::rsplitn(3, ':')` splits it: the number after the last colon must be
/// a positive `u32`; if the piece before it is a positive `u32` too and a
/// path precedes it, the two numbers are line and column, else the number is
/// the line and everything before it the path.
pub open spec fn parse_location_spec(loc: Seq<char>) -> Option<(Seq<char>, u32, Option<u32>)> {
    match last_index_of(loc, ':') {
        None => None,
        Some(j1) => {
            let rest = loc.take(j1);
            match parse_unsigned_spec(loc.skip(j1 + 1), u32::MAX as nat) {
                None => None,
                Some(last) => if last == 0 {
                    None
                } else {
                    let preceding = match last_index_of(rest, ':') {
                        Some(j2) => rest.skip(j2 + 1),
                        None => rest,
                    };
                    let line = parse_unsigned_spec(preceding, u32::MAX as nat);
                    if line is Some && line->0 > 0 && last_index_of(rest, ':') is Some {
                        match normalize_path_spec(rest.take(last_index_of(rest, ':')->0)) {
                            Some(p) => Some((p, line->0 as u32, Some(last as u32))),
                            None => None,
                        }
                    } else {
                        match normalize_path_spec(preceding) {
                            Some(p) => Some((p, last as u32, None)),
                            None => None,
                        }
                    }
                },
            }
        },
    }
}

fn parse_location_chars(loc: &[char]) -> (r: Option<(String, u32, Option<u32>)>)
    ensures
        match r {
            Some((p, l, c)) => parse_location_spec(loc@) == Some((p@, l, c)),
            None => parse_location_spec(loc@) is None,
        },
{
    let j1 = match rfind_char(loc, ':') {
        Some(j) => j,
        None => return None,
    };
    assert(is_last_index(loc@, ':', j1 as int));
    assert(j1 < loc.len());
    let rest = slice_range(loc, 0, j1);
    let last_chars = slice_range(loc, j1 + 1, loc.len());
    proof {
        assert(rest@ == loc@.take(j1 as int));
        assert(last_chars@ == loc@.skip(j1 + 1));
    }
    let last = match parse_unsigned(last_chars.as_slice(), 4294967295) {
        Some(v) => v,
        None => return None,
    };
    if last == 0 {
        return None;
    }
    let j2 = rfind_char(rest.as_slice(), ':');
    let preceding = match j2 {
        Some(j) => slice_range(rest.as_slice(), j + 1, rest.len()),
        None => slice_range(rest.as_slice(), 0, rest.len()),
    };
    proof {
        match j2 {
            Some(j) => assert(preceding@ == rest@.skip(j + 1)),
            None => assert(preceding@ == rest@),
        }
    }
    let line = parse_unsigned(preceding.as_slice(), 4294967295);
    match (line, j2) {
        (Some(l), Some(j)) => {
            if l > 0 {
                let path_chars = slice_range(rest.as_slice(), 0, j);
                assert(path_chars@ == rest@.take(j as int));
                return match normalize_path_chars(path_chars.as_slice()) {
                    Some(p) => Some((p, l as u32, Some(last as u32))),
                    None => None,
                };
            }
        },
        _ => {},
    }
    match normalize_path_chars(preceding.as_slice()) {
        Some(p) => Some((p, last as u32, None)),
        None => None,
    }
}

/// Path, line and optional column of a generated location.
pub fn parse_generated_location(location: &str) -> (r: Option<(String, u32, Option<u32>)>)
    ensures
        match r {
            Some((p, l, c)) => parse_location_spec(location@) == Some((p@, l, c)),
            None => parse_location_spec(location@) is None,
        },
{
    let cs = chars_of(location);
    parse_location_chars(cs.as_slice())
}


// ── Frame bodies ──────────────────────────────────────────────────────

/// A frame body: `location`, or `name (location)` with a non-empty name
/// that does not itself contain ` at `.
pub open spec fn parse_body_spec(body: Seq<char>) -> Option<FrameView> {
    let b = trim_spec(body);
    if b.len() > 0 && b.last() == ')' {
        let inner = b.drop_last();
        match last_occurrence(inner, " ("@) {
            None => None,
            Some(i) => {
                let name = trim_spec(inner.take(i));
                if name.len() == 0 || contains_spec(name, " at "@) {
                    None
                } else {
                    match parse_location_spec(inner.skip(i + " ("@.len())) {
                        Some((p, l, c)) => Some(parsed_frame(Some(name), p, l, c)),
                        None => None,
                    }
                }
            },
        }
    } else {
        match parse_location_spec(b) {
            Some((p, l, c)) => Some(parsed_frame(None, p, l, c)),
            None => None,
        }
    }
}

fn parse_body_chars(body: &[char]) -> (r: Option<ScriptFrame>)
    ensures
        match r {
            Some(f) => parse_body_spec(body@) == Some(f@),
            None => parse_body_spec(body@) is None,
        },
{
    let b = trim_chars(body);
    if b.len() > 0 && b[b.len() - 1] == ')' {
        let inner = slice_range(b.as_slice(), 0, b.len() - 1);
        assert(inner@ == b@.drop_last());
        let open = chars_of(" (");
        let i = match rfind_pattern(inner.as_slice(), open.as_slice()) {
            Some(i) => i,
            None => return None,
        };
        let before = slice_range(inner.as_slice(), 0, i);
        assert(before@ == inner@.take(i as int));
        let name = trim_chars(before.as_slice());
        let at_sep = chars_of(" at ");
        if name.len() == 0 || contains_chars(name.as_slice(), at_sep.as_slice()) {
            return None;
        }
        let loc = slice_range(inner.as_slice(), i + open.len(), inner.len());
        assert(loc@ == inner@.skip(i + open@.len()));
        match parse_location_chars(loc.as_slice()) {
            Some((p, l, c)) => Some(
                ScriptFrame {
                    function_name: Some(string_from(name.as_slice())),
                    generated_path: p,
                    generated_line: l,
                    generated_column: c,
                    source_path: None,
                    source_line: None,
                    source_column: None,
                    mapped: false,
                },
            ),
            None => None,
        }
    } else {
        match parse_location_chars(b.as_slice()) {
            Some((p, l, c)) => Some(
                ScriptFrame {
                    function_name: None,
                    generated_path: p,
                    generated_line: l,
                    generated_column: c,
                    source_path: None,
                    source_line: None,
                    source_column: None,
                    mapped: false,
                },
            ),
            None => None,
        }
    }
}

/// The frame written by a stack-frame body, if it is one.
pub fn parse_stack_frame_body(body: &str) -> (r: Option<ScriptFrame>)
    ensures
        match r {
            Some(f) => parse_body_spec(body@) == Some(f@),
            None => parse_body_spec(body@) is None,
        },
{
    let cs = chars_of(body);
    parse_body_chars(cs.as_slice())
}

// ── Lines ─────────────────────────────────────────────────────────────

/// A line that reads like `SomeError: ...` or `SomeException: ...`: the text
/// before its first colon, trimmed, ends with `Error` or `Exception`.
pub open spec fn inline_error_spec(line: Seq<char>) -> bool {
    match first_index_of(line, ':') {
        None => false,
        Some(k) => {
            let kind = trim_spec(line.take(k));
            ends_with_spec(kind, "Error"@) || ends_with_spec(kind, "Exception"@)
        },
    }
}

fn inline_error_chars(line: &[char]) -> (r: bool)
    ensures
        r == inline_error_spec(line@),
{
    match find_first_char(line, ':') {
        None => false,
        Some(k) => {
            proof {
                let kk = choose|kk: int| is_first_index(line@, ':', kk);
                assert(is_first_index(line@, ':', kk));
            }
            let head = slice_range(line, 0, k);
            assert(head@ == line@.take(k as int));
            let kind = trim_chars(head.as_slice());
            let error = chars_of("Error");
            let exception = chars_of("Exception");
            ends_with_chars(kind.as_slice(), error.as_slice()) || ends_with_chars(
                kind.as_slice(),
                exception.as_slice(),
            )
        },
    }
}

/// Whether `line` reads like an inline error message.
pub fn looks_like_inline_error(line: &str) -> (r: bool)
    ensures
        r == inline_error_spec(line@),
{
    let cs = chars_of(line);
    inline_error_chars(cs.as_slice())
}

/// The separator in front of each frame inside an inline error line.
pub open spec fn at_sep() -> Seq<char> {
    seq![' ', 'a', 't', ' ']
}

/// Frames after the non-overlapping occurrences of ` at ` in `t` at or
/// after `from`, scanned left to right as `str::match_indices` finds them.
pub open spec fn inline_frames_from(t: Seq<char>, from: int) -> Seq<FrameView>
    decreases t.len() - from,
{
    if from < 0 || from + 4 > t.len() {
        Seq::empty()
    } else if occurs_at(t, at_sep(), from) {
        let rest = inline_frames_from(t, from + 4);
        match parse_body_spec(t.skip(from + 4)) {
            Some(f) => seq![f] + rest,
            None => rest,
        }
    } else {
        inline_frames_from(t, from + 1)
    }
}

/// The frames one log line yields.
pub open spec fn frames_of_line(line: Seq<char>) -> Seq<FrameView> {
    let t = trim_start_spec(line);
    let direct = if starts_with_spec(t, "at "@) {
        parse_body_spec(t.skip("at "@.len() as int))
    } else {
        None
    };
    match direct {
        Some(f) => seq![f],
        None => if inline_error_spec(t) {
            inline_frames_from(t, 0)
        } else {
            Seq::empty()
        },
    }
}

fn inline_frames_chars(t: &[char]) -> (r: Vec<ScriptFrame>)
    ensures
        frames_view(r@) == inline_frames_from(t@, 0),
{
    let sep: Vec<char> = vec![' ', 'a', 't', ' '];
    assert(sep@ == at_sep());
    let mut out: Vec<ScriptFrame> = Vec::new();
    let mut i: usize = 0;
    while i < t.len() && t.len() - i >= 4
        invariant
            sep@ == at_sep(),
            0 <= i <= t.len(),
            frames_view(out@) + inline_frames_from(t@, i as int) == inline_frames_from(t@, 0),
        decreases t.len() - i,
    {
        if occurs_at_exec(t, sep.as_slice(), i) {
            let body = slice_range(t, i + 4, t.len());
            assert(body@ == t@.skip(i + 4));
            match parse_body_chars(body.as_slice()) {
                Some(f) => {
                    let ghost before = frames_view(out@);
                    out.push(f);
                    assert(frames_view(out@) =~= before.push(f@));
                    assert(before.push(f@) + inline_frames_from(t@, i + 4) =~= before + (seq![f@]
                        + inline_frames_from(t@, i + 4)));
                },
                None => {},
            }
            i += 4;
        } else {
            i += 1;
        }
    }
    assert(inline_frames_from(t@, i as int) =~= Seq::<FrameView>::empty());
    assert(frames_view(out@) + Seq::<FrameView>::empty() =~= frames_view(out@));
    out
}

fn frames_of_line_chars(line: &[char]) -> (r: Vec<ScriptFrame>)
    ensures
        frames_view(r@) == frames_of_line(line@),
{
    let t = trim_start_chars(line);
    let at = chars_of("at ");
    if starts_with_chars(t.as_slice(), at.as_slice()) {
        let body = slice_range(t.as_slice(), at.len(), t.len());
        assert(body@ == t@.skip(at@.len() as int));
        match parse_body_chars(body.as_slice()) {
            Some(f) => {
                let mut out: Vec<ScriptFrame> = Vec::new();
                out.push(f);
                assert(frames_view(out@) =~= seq![f@]);
                return out;
            },
            None => {},
        }
    }
    if inline_error_chars(t.as_slice()) {
        inline_frames_chars(t.as_slice())
    } else {
        let out: Vec<ScriptFrame> = Vec::new();
        assert(frames_view(out@) =~= Seq::<FrameView>::empty());
        out
    }
}

/// `line` without the carriage return of a `\r\n` line ending.
pub open spec fn strip_cr(line: Seq<char>) -> Seq<char> {
    if line.len() > 0 && line.last() == '\r' {
        line.drop_last()
    } else {
        line
    }
}

/// The lines of `s` as `str::lines` yields them: split at `\n`, a `\r`
/// before a `\n` dropped, no empty line after a final `\n`.
pub open spec fn lines_spec(s: Seq<char>) -> Seq<Seq<char>> {
    if s.len() == 0 {
        Seq::empty()
    } else {
        let parts = split_spec(s, '\n');
        let ended = parts.drop_last().map_values(|l: Seq<char>| strip_cr(l));
        if s.last() == '\n' {
            ended
        } else {
            ended.push(parts.last())
        }
    }
}

/// The frames of a sequence of lines, in order.
pub open spec fn frames_of_lines(lines: Seq<Seq<char>>) -> Seq<FrameView>
    decreases lines.len(),
{
    if lines.len() == 0 {
        Seq::empty()
    } else {
        frames_of_lines(lines.drop_last()) + frames_of_line(lines.last())
    }
}

/// The frames a scripting-log message holds, in order of appearance.
pub open spec fn frames_of_message(message: Seq<char>) -> Seq<FrameView> {
    frames_of_lines(lines_spec(message))
}

fn strip_cr_chars(line: &[char]) -> (r: Vec<char>)
    ensures
        r@ == strip_cr(line@),
{
    if line.len() > 0 && line[line.len() - 1] == '\r' {
        let r = slice_range(line, 0, line.len() - 1);
        assert(r@ == line@.drop_last());
        r
    } else {
        slice_range(line, 0, line.len())
    }
}

pub fn lines_chars(s: &[char]) -> (r: Vec<Vec<char>>)
    ensures
        r@.len() == lines_spec(s@).len(),
        forall|k: int| 0 <= k < r@.len() ==> #[trigger] r@[k]@ == lines_spec(s@)[k],
{
    let mut out: Vec<Vec<char>> = Vec::new();
    if s.len() == 0 {
        return out;
    }
    let parts = split_chars(s, '\n');
    proof {
        lemma_split_nonempty(s@, '\n');
    }
    let ghost sp = split_spec(s@, '\n');
    let last = parts.len() - 1;
    let mut k: usize = 0;
    while k < last
        invariant
            sp == split_spec(s@, '\n'),
            parts@.len() == sp.len(),
            forall|j: int| 0 <= j < parts@.len() ==> #[trigger] parts@[j]@ == sp[j],
            last == parts@.len() - 1,
            0 <= k <= last,
            out@.len() == k,
            forall|j: int| 0 <= j < k ==> #[trigger] out@[j]@ == strip_cr(sp[j]),
        decreases last - k,
    {
        out.push(strip_cr_chars(parts[k].as_slice()));
        k += 1;
    }
    if s[s.len() - 1] != '\n' {
        out.push(slice_range(parts[last].as_slice(), 0, parts[last].len()));
    }
    out
}

/// The JavaScript stack frames in a scripting-log message, in order.
pub fn parse_script_frames(message: &str) -> (r: Vec<ScriptFrame>)
    ensures
        frames_view(r@) == frames_of_message(message@),
{
    let cs = chars_of(message);
    let lines = lines_chars(cs.as_slice());
    let ghost ls = lines_spec(message@);
    let mut out: Vec<ScriptFrame> = Vec::new();
    let mut k: usize = 0;
    proof {
        assert(ls.take(0) =~= Seq::<Seq<char>>::empty());
        assert(frames_view(out@) =~= Seq::<FrameView>::empty());
    }
    while k < lines.len()
        invariant
            ls == lines_spec(message@),
            lines@.len() == ls.len(),
            forall|j: int| 0 <= j < lines@.len() ==> #[trigger] lines@[j]@ == ls[j],
            0 <= k <= lines@.len(),
            frames_view(out@) == frames_of_lines(ls.take(k as int)),
        decreases lines@.len() - k,
    {
        let found = frames_of_line_chars(lines[k].as_slice());
        let ghost before = frames_view(out@);
        let mut j: usize = 0;
        while j < found.len()
            invariant
                0 <= j <= found@.len(),
                frames_view(out@) == before + frames_view(found@).take(j as int),
            decreases found@.len() - j,
        {
            out.push(found[j].clone_frame());
            assert(frames_view(found@).take(j + 1) =~= frames_view(found@).take(j as int).push(
                found@[j as int]@,
            ));
            assert(frames_view(out@) =~= (before + frames_view(found@).take(j as int)).push(
                found@[j as int]@,
            ));
            j += 1;
        }
        proof {
            assert(frames_view(found@).take(found@.len() as int) =~= frames_view(found@));
            assert(ls.take(k + 1).drop_last() =~= ls.take(k as int));
            assert(ls.take(k + 1).last() == lines@[k as int]@);
        }
        k += 1;
    }
    proof {
        assert(ls.take(lines@.len() as int) =~= ls);
    }
    out
}

impl ScriptFrame {
    /// A field-by-field copy.
    pub fn clone_frame(&self) -> (r: Self)
        ensures
            r@ == self@,
    {
        ScriptFrame {
            function_name: match &self.function_name {
                Some(n) => Some(n.clone()),
                None => None,
            },
            generated_path: self.generated_path.clone(),
            generated_line: self.generated_line,
            generated_column: self.generated_column,
            source_path: match &self.source_path {
                Some(p) => Some(p.clone()),
                None => None,
            },
            source_line: self.source_line,
            source_column: self.source_column,
            mapped: self.mapped,
        }
    }
}


// ── Source-map enrichment ─────────────────────────────────────────────

/// What a source map answered for a generated position: the source to
/// show (the mapped file's path where that file exists, else the map's
/// source reference) and the zero-based line and column in it.
pub struct OriginalPosition {
    pub source: String,
    pub line: u32,
    pub column: u32,
}

pub open spec fn original_view(o: Option<OriginalPosition>) -> Option<(Seq<char>, u32, u32)> {
    match o {
        Some(p) => Some((p.source@, p.line, p.column)),
        None => None,
    }
}

/// `n + 1`, saturating at `u32::MAX`.
pub open spec fn succ_saturating(n: u32) -> u32 {
    if n == u32::MAX {
        n
    } else {
        (n + 1) as u32
    }
}

/// A frame after recording what the source map answered for it: on a hit,
/// the one-based source position and the mark that it is mapped; on a
/// miss, the frame as it was.
pub open spec fn enriched(f: FrameView, answer: Option<(Seq<char>, u32, u32)>) -> FrameView {
    match answer {
        None => f,
        Some((source, line, column)) => FrameView {
            source_path: Some(source),
            source_line: Some(succ_saturating(line)),
            source_column: Some(succ_saturating(column)),
            mapped: true,
            ..f
        },
    }
}

/// The zero-based generated position under which a frame is looked up in
/// a source map: its path, its line less one and its column less one (0
/// when the message gave no column).
pub fn lookup_position(frame: &ScriptFrame) -> (r: (String, u32, u32))
    requires
        frame.generated_line >= 1,
        frame.generated_column matches Some(c) ==> c >= 1,
    ensures
        r.0@ == frame.generated_path@,
        r.1 == frame.generated_line - 1,
        r.2 == match frame.generated_column {
            Some(c) => c - 1,
            None => 0,
        },
{
    let column = match frame.generated_column {
        Some(c) => c - 1,
        None => 0,
    };
    (frame.generated_path.clone(), frame.generated_line - 1, column)
}

/// Record on `frame` what the source map answered for its position.
pub fn apply_original(frame: &mut ScriptFrame, answer: Option<OriginalPosition>)
    ensures
        final(frame)@ == enriched(old(frame)@, original_view(answer)),
{
    match answer {
        Some(o) => {
            frame.source_path = Some(o.source);
            frame.source_line = Some(o.line.saturating_add(1));
            frame.source_column = Some(o.column.saturating_add(1));
            frame.mapped = true;
        },
        None => {},
    }
}

/// Enrich every frame with the source map's answer for it; `answers[i]` is
/// the answer for the position `lookup_position(&frames[i])`, and all are
/// `None` when no source map is loaded.
pub fn enrich_frames(frames: &mut Vec<ScriptFrame>, answers: Vec<Option<OriginalPosition>>)
    requires
        answers.len() == old(frames).len(),
    ensures
        final(frames)@.len() == old(frames)@.len(),
        forall|i: int|
            0 <= i < old(frames)@.len() ==> (#[trigger] final(frames)@[i])@ == enriched(
                old(frames)@[i]@,
                original_view(answers@[i]),
            ),
{
    let ghost before = frames@;
    let ghost given = answers@;
    let mut answers = answers;
    let mut k: usize = frames.len();
    while k > 0
        invariant
            k <= frames@.len(),
            frames@.len() == before.len(),
            answers@.len() == k,
            given.len() == before.len(),
            forall|j: int| 0 <= j < k ==> answers@[j] == given[j],
            forall|j: int| 0 <= j < k ==> frames@[j] == before[j],
            forall|j: int|
                k <= j < before.len() ==> (#[trigger] frames@[j])@ == enriched(
                    before[j]@,
                    original_view(given[j]),
                ),
        decreases k,
    {
        k = k - 1;
        let answer = answers.pop().unwrap();
        let mut f = frames[k].clone_frame();
        apply_original(&mut f, answer);
        frames.set(k, f);
    }
}

// ── What every parsed frame looks like ────────────────────────────────

/// A frame as parsing reports it: under the pack's main script, with a
/// one-based line and (if any) column, and no source position yet.
pub open spec fn is_reported_frame(f: FrameView) -> bool {
    &&& f.generated_path == main_script_path()
    &&& f.generated_line > 0
    &&& (f.generated_column matches Some(c) ==> c > 0)
    &&& f.source_path is None
    &&& f.source_line is None
    &&& f.source_column is None
    &&& !f.mapped
}

proof fn lemma_location_reported(loc: Seq<char>)
    ensures
        parse_location_spec(loc) matches Some((p, l, c)) ==> p == main_script_path() && l > 0 && (
        c matches Some(col) ==> col > 0),
{
}

proof fn lemma_body_reported(body: Seq<char>)
    ensures
        parse_body_spec(body) matches Some(f) ==> is_reported_frame(f),
{
    let b = trim_spec(body);
    if b.len() > 0 && b.last() == ')' {
        let inner = b.drop_last();
        match last_occurrence(inner, " ("@) {
            Some(i) => lemma_location_reported(inner.skip(i + " ("@.len())),
            None => {},
        }
    } else {
        lemma_location_reported(b);
    }
}

proof fn lemma_inline_reported(t: Seq<char>, from: int)
    ensures
        forall|k: int|
            0 <= k < inline_frames_from(t, from).len() ==> is_reported_frame(
                #[trigger] inline_frames_from(t, from)[k],
            ),
    decreases t.len() - from,
{
    let all = inline_frames_from(t, from);
    if from < 0 || from + 4 > t.len() {
        assert(all.len() == 0);
    } else if occurs_at(t, at_sep(), from) {
        lemma_inline_reported(t, from + 4);
        lemma_body_reported(t.skip(from + 4));
        let rest = inline_frames_from(t, from + 4);
        match parse_body_spec(t.skip(from + 4)) {
            Some(f) => {
                assert(all == seq![f] + rest);
                assert forall|k: int| 0 <= k < all.len() implies is_reported_frame(
                    #[trigger] all[k],
                ) by {
                    if k > 0 {
                        assert(all[k] == rest[k - 1]);
                    }
                }
            },
            None => {
                assert(all == rest);
            },
        }
    } else {
        lemma_inline_reported(t, from + 1);
        assert(all == inline_frames_from(t, from + 1));
    }
}

proof fn lemma_line_reported(line: Seq<char>)
    ensures
        forall|k: int|
            0 <= k < frames_of_line(line).len() ==> is_reported_frame(
                #[trigger] frames_of_line(line)[k],
            ),
{
    let t = trim_start_spec(line);
    if starts_with_spec(t, "at "@) {
        lemma_body_reported(t.skip("at "@.len() as int));
    }
    lemma_inline_reported(t, 0);
}

proof fn lemma_lines_reported(lines: Seq<Seq<char>>)
    ensures
        forall|k: int|
            0 <= k < frames_of_lines(lines).len() ==> is_reported_frame(
                #[trigger] frames_of_lines(lines)[k],
            ),
    decreases lines.len(),
{
    if lines.len() > 0 {
        lemma_lines_reported(lines.drop_last());
        lemma_line_reported(lines.last());
        let a = frames_of_lines(lines.drop_last());
        let b = frames_of_line(lines.last());
        assert forall|k: int| 0 <= k < (a + b).len() implies is_reported_frame(
            #[trigger] (a + b)[k],
        ) by {
            if k < a.len() {
                assert((a + b)[k] == a[k]);
            } else {
                assert((a + b)[k] == b[k - a.len()]);
            }
        }
    }
}

/// Every frame found in a message is reported under `/scripts/main.js`,
/// with one-based coordinates and no source position.
pub proof fn lemma_parsed_frames_are_reported(message: Seq<char>)
    ensures
        forall|k: int|
            0 <= k < frames_of_message(message).len() ==> is_reported_frame(
                #[trigger] frames_of_message(message)[k],
            ),
{
    lemma_lines_reported(lines_spec(message));
}

} // verus!
