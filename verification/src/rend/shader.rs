use vstd::prelude::*;

verus! {

broadcast use vstd::string::group_string_axioms;

/// The pattern of an import statement in a shader source line: `import("name")`,
/// with the name made of word characters and dots.
pub const IMPORT_PATTERN: &'static str = r#"import\(\"([\w\.]+)\"\)"#;

/// What the `regex` crate gives for `pattern` on `haystack`: `None` when `pattern`
/// does not compile, `Some(None)` when the leftmost-first match does not exist or
/// does not take part in capture group `group`, `Some(Some(text))` with the text of
/// that group otherwise.
pub uninterp spec fn regex_capture(pattern: Seq<char>, haystack: Seq<char>, group: nat) -> Option<
    Option<Seq<char>>,
>;

/// The view of a capture result: each captured `String` taken as its characters.
pub open spec fn capture_view(r: Option<Option<String>>) -> Option<Option<Seq<char>>> {
    match r {
        None => None,
        Some(None) => Some(None),
        Some(Some(s)) => Some(Some(s@)),
    }
}

/// `part` occurs in `whole` as a contiguous run of characters.
pub open spec fn occurs_in(part: Seq<char>, whole: Seq<char>) -> bool {
    exists|i: int, j: int| 0 <= i <= j <= whole.len() && part == whole.subrange(i, j)
}

/// Compiles `pattern` with `regex::Regex::new`, searches `haystack` with
/// `Regex::captures` and takes capture group `group` with `Captures::get`.
/// Trusted: the result is the named `regex_capture` of the arguments, and captured
/// text is a contiguous part of `haystack` (`Match::as_str` returns the matched
/// substring). Which text matches is not stated: the regex engine's semantics are
/// only named.
#[verifier::external_body]
fn regex_capture_group(pattern: &str, haystack: &str, group: usize) -> (res: Option<Option<String>>)
    ensures
        capture_view(res) == regex_capture(pattern@, haystack@, group as nat),
        res matches Some(Some(s)) ==> occurs_in(s@, haystack@),
{
    let re = match regex::Regex::new(pattern) {
        Ok(re) => re,
        Err(_) => return None,
    };
    match re.captures(haystack) {
        Some(caps) => match caps.get(group) {
            Some(m) => Some(Some(m.as_str().to_string())),
            None => Some(None),
        },
        None => Some(None),
    }
}

/// Index of the first `'\n'` of `s` at or after `start`, or `s.len()` when there is none.
pub open spec fn next_newline(s: Seq<char>, start: int) -> int
    decreases s.len() - start,
{
    if start < 0 || start >= s.len() {
        s.len() as int
    } else if s[start] == '\n' {
        start
    } else {
        next_newline(s, start + 1)
    }
}

pub proof fn lemma_next_newline_bounds(s: Seq<char>, start: int)
    requires
        0 <= start <= s.len(),
    ensures
        start <= next_newline(s, start) <= s.len(),
        next_newline(s, start) < s.len() ==> s[next_newline(s, start)] == '\n',
        forall|j: int| start <= j < next_newline(s, start) ==> s[j] != '\n',
    decreases s.len() - start,
{
    if start < s.len() && s[start] != '\n' {
        lemma_next_newline_bounds(s, start + 1);
    }
}

/// The text of the line of `s` that runs from `start` to `end`, where `end` is a
/// `'\n'` or the end of `s`: a `'\r'` just before that `'\n'` is not part of it.
pub open spec fn line_text(s: Seq<char>, start: int, end: int) -> Seq<char> {
    if start < end < s.len() && s[end - 1] == '\r' {
        s.subrange(start, end - 1)
    } else {
        s.subrange(start, end)
    }
}

/// The lines of `s` from index `start` on, as `str::lines` yields them: split at each
/// `'\n'`, without their `"\n"` or `"\r\n"` endings, and with no empty line after a
/// final `'\n'`.
pub open spec fn lines_from(s: Seq<char>, start: int) -> Seq<Seq<char>>
    decreases s.len() - start,
{
    if start < 0 || start >= s.len() {
        seq![]
    } else {
        let end = next_newline(s, start);
        proof {
            lemma_next_newline_bounds(s, start);
        }
        if end < s.len() {
            seq![line_text(s, start, end)] + lines_from(s, end + 1)
        } else {
            seq![line_text(s, start, end)]
        }
    }
}

/// The lines of `s`.
pub open spec fn str_lines(s: Seq<char>) -> Seq<Seq<char>> {
    lines_from(s, 0)
}

/// The import that a shader source line states, if any: capture group 1 of
/// `IMPORT_PATTERN` on the line.
pub open spec fn line_import(line: Seq<char>) -> Option<Seq<char>> {
    match regex_capture(IMPORT_PATTERN@, line, 1) {
        Some(Some(name)) => Some(name),
        _ => None,
    }
}

/// The imports that `lines` state, in order.
pub open spec fn imports_of(lines: Seq<Seq<char>>) -> Seq<Seq<char>>
    decreases lines.len(),
{
    if lines.len() == 0 {
        seq![]
    } else {
        imports_of(lines.drop_last()) + match line_import(lines.last()) {
            Some(name) => seq![name],
            None => seq![],
        }
    }
}

/// `s` holds no `'\n'`.
pub open spec fn no_newline(s: Seq<char>) -> bool {
    forall|i: int| 0 <= i < s.len() ==> s[i] != '\n'
}

/// A line's text without the `'\r'` of a `"\r\n"` ending that followed it.
pub open spec fn without_cr(a: Seq<char>) -> Seq<char> {
    if a.len() > 0 && a[a.len() - 1] == '\r' {
        a.subrange(0, a.len() - 1)
    } else {
        a
    }
}

proof fn lemma_next_newline_in_prefix(a: Seq<char>, b: Seq<char>, j: int)
    requires
        no_newline(a),
        0 <= j <= a.len(),
    ensures
        next_newline(a + seq!['\n'] + b, j) == a.len(),
    decreases a.len() - j,
{
    let s = a + seq!['\n'] + b;
    if j < a.len() {
        assert(s[j] == a[j]);
        lemma_next_newline_in_prefix(a, b, j + 1);
    } else {
        assert(s[j] == '\n');
    }
}

proof fn lemma_next_newline_no_break(a: Seq<char>, j: int)
    requires
        no_newline(a),
        0 <= j <= a.len(),
    ensures
        next_newline(a, j) == a.len(),
    decreases a.len() - j,
{
    if j < a.len() {
        lemma_next_newline_no_break(a, j + 1);
    }
}

proof fn lemma_next_newline_shift(p: Seq<char>, b: Seq<char>, k: int)
    requires
        0 <= k <= b.len(),
    ensures
        next_newline(p + b, p.len() + k) == p.len() + next_newline(b, k),
    decreases b.len() - k,
{
    if k < b.len() {
        assert((p + b)[p.len() + k] == b[k]);
        if b[k] != '\n' {
            lemma_next_newline_shift(p, b, k + 1);
        }
    }
}

proof fn lemma_lines_from_shift(p: Seq<char>, b: Seq<char>, k: int)
    requires
        0 <= k,
    ensures
        lines_from(p + b, p.len() + k) == lines_from(b, k),
    decreases b.len() - k,
{
    let s = p + b;
    if k < b.len() {
        lemma_next_newline_shift(p, b, k);
        lemma_next_newline_bounds(b, k);
        let eb = next_newline(b, k);
        let e = p.len() + eb;
        assert(line_text(s, p.len() + k, e) =~= line_text(b, k, eb)) by {
            if k < eb {
                assert(s[e - 1] == b[eb - 1]);
            }
        }
        if eb < b.len() {
            lemma_lines_from_shift(p, b, eb + 1);
        }
    }
}

proof fn lemma_imports_of_concat(x: Seq<Seq<char>>, y: Seq<Seq<char>>)
    ensures
        imports_of(x + y) == imports_of(x) + imports_of(y),
    decreases y.len(),
{
    if y.len() == 0 {
        assert(x + y =~= x);
        assert(imports_of(x) + imports_of(y) =~= imports_of(x));
    } else {
        lemma_imports_of_concat(x, y.drop_last());
        assert((x + y).drop_last() =~= x + y.drop_last());
        assert((x + y).last() == y.last());
        assert(imports_of(x + y) =~= imports_of(x) + imports_of(y));
    }
}

/// The first line of a text is everything before its first `'\n'` (less the `'\r'` of
/// a `"\r\n"`), blank or not, and the text's lines are that line followed by the lines
/// of the rest.
pub proof fn lemma_lines_first_line(a: Seq<char>, b: Seq<char>)
    requires
        no_newline(a),
    ensures
        str_lines(a + seq!['\n'] + b) == seq![without_cr(a)] + str_lines(b),
{
    let s = a + seq!['\n'] + b;
    lemma_next_newline_in_prefix(a, b, 0);
    assert(line_text(s, 0, a.len() as int) =~= without_cr(a)) by {
        if a.len() > 0 {
            assert(s[a.len() - 1] == a[a.len() - 1]);
        }
    }
    assert(a + seq!['\n'] + b =~= (a + seq!['\n']) + b);
    lemma_lines_from_shift(a + seq!['\n'], b, 0);
    if b.len() == 0 {
        assert(lines_from(s, a.len() + 1int) =~= seq![]);
        assert(str_lines(b) =~= seq![]);
    }
}

/// A text with no `'\n'` is one line, itself; the empty text has no lines.
pub proof fn lemma_lines_last_line(a: Seq<char>)
    requires
        no_newline(a),
    ensures
        a.len() > 0 ==> str_lines(a) == seq![a],
        a.len() == 0 ==> str_lines(a) == Seq::<Seq<char>>::empty(),
{
    if a.len() > 0 {
        lemma_next_newline_no_break(a, 0);
        assert(line_text(a, 0, a.len() as int) =~= a);
    } else {
        assert(str_lines(a) =~= Seq::<Seq<char>>::empty());
    }
}

/// Splitting at a `'\n'` splits the lines: the lines of `x`, a `'\n'` and `b` are the
/// lines of `x` ended by the `'\n'`, then the lines of `b`.
pub proof fn lemma_lines_concat(x: Seq<char>, b: Seq<char>)
    ensures
        str_lines(x + seq!['\n'] + b) == str_lines(x + seq!['\n']) + str_lines(b),
    decreases x.len(),
{
    lemma_next_newline_bounds(x, 0);
    let e = next_newline(x, 0);
    if e == x.len() {
        assert(no_newline(x));
        lemma_lines_first_line(x, b);
        lemma_lines_first_line(x, Seq::<char>::empty());
        assert(x + seq!['\n'] + Seq::<char>::empty() =~= x + seq!['\n']);
        assert(str_lines(Seq::<char>::empty()) =~= Seq::<Seq<char>>::empty());
        assert(seq![without_cr(x)] + Seq::<Seq<char>>::empty() =~= seq![without_cr(x)]);
    } else {
        let x1 = x.subrange(0, e);
        let x2 = x.subrange(e + 1, x.len() as int);
        assert(no_newline(x1));
        assert(x =~= x1 + seq!['\n'] + x2);
        assert(x + seq!['\n'] + b =~= x1 + seq!['\n'] + (x2 + seq!['\n'] + b));
        assert(x + seq!['\n'] =~= x1 + seq!['\n'] + (x2 + seq!['\n']));
        lemma_lines_first_line(x1, x2 + seq!['\n'] + b);
        lemma_lines_first_line(x1, x2 + seq!['\n']);
        lemma_lines_concat(x2, b);
        assert(seq![without_cr(x1)] + (str_lines(x2 + seq!['\n']) + str_lines(b)) =~= (seq![
            without_cr(x1),
        ] + str_lines(x2 + seq!['\n'])) + str_lines(b));
    }
}

/// Each line's import counts on its own, wherever the line stands and whatever
/// lines, blank ones too, come before it: the imports of a text whose first line is
/// `a` are the import of `a` (less the `'\r'` of a `"\r\n"` ending), if it states
/// one, followed by the imports of the rest; and the imports of two texts joined at a
/// line break are the imports of the first, then those of the second.
pub proof fn lemma_imports_line_by_line(a: Seq<char>, b: Seq<char>, x: Seq<char>)
    requires
        no_newline(a),
    ensures
        imports_of(str_lines(a + seq!['\n'] + b)) == (match line_import(without_cr(a)) {
            Some(name) => seq![name],
            None => Seq::<Seq<char>>::empty(),
        }) + imports_of(str_lines(b)),
        imports_of(str_lines(x + seq!['\n'] + b)) == imports_of(str_lines(x + seq!['\n']))
            + imports_of(str_lines(b)),
{
    lemma_lines_first_line(a, b);
    let one = seq![without_cr(a)];
    lemma_imports_of_concat(one, str_lines(b));
    assert(one.drop_last() =~= Seq::<Seq<char>>::empty());
    assert(imports_of(Seq::<Seq<char>>::empty()) =~= Seq::<Seq<char>>::empty());
    assert(imports_of(one) =~= (match line_import(without_cr(a)) {
        Some(name) => seq![name],
        None => Seq::<Seq<char>>::empty(),
    }));
    lemma_lines_concat(x, b);
    lemma_imports_of_concat(str_lines(x + seq!['\n']), str_lines(b));
}

fn chars_of(s: &str) -> (chars: Vec<char>)
    ensures
        chars@ == s@,
{
    let mut chars: Vec<char> = Vec::new();
    for c in it: s.chars()
        invariant
            it.seq() == s@,
            chars@ == s@.take(it.index() as int),
    {
        chars.push(c);
        assert(chars@ =~= s@.take(it.index() + 1));
    }
    assert(chars@ =~= s@);
    chars
}

/// A shader program's WGSL source, its entry points, and the modules it imports.
pub struct Shader {
    pub imports: Vec<String>,
    pub contents: String,
    pub vertex_entry: String,
    pub fragment_entry: String,
}

impl Shader {
    /// The names of the modules that the source imports, in source order.
    pub open spec fn import_names(&self) -> Seq<Seq<char>> {
        self.imports@.map_values(|s: String| s@)
    }

    /// A shader with entry points `vs_main` and `fs_main` over `contents`; each line of
    /// `contents` that holds an `import("name")` statement adds `name` to the imports,
    /// the first such statement of the line counting. (Were `IMPORT_PATTERN` not to
    /// compile, no line would add an import.)
    pub fn from_source(contents: &str) -> (shader: Shader)
        ensures
            shader.contents@ == contents@,
            shader.vertex_entry@ == "vs_main"@,
            shader.fragment_entry@ == "fs_main"@,
            shader.import_names() == imports_of(str_lines(contents@)),
            forall|k: int|
                0 <= k < shader.import_names().len() ==> occurs_in(
                    #[trigger] shader.import_names()[k],
                    contents@,
                ),
    {
        let chars = chars_of(contents);
        let n = chars.len();
        let mut imports: Vec<String> = Vec::new();
        let mut start: usize = 0;
        let ghost mut done: Seq<Seq<char>> = seq![];
        while start < n
            invariant
                chars@ == contents@,
                n == chars@.len(),
                start <= n,
                done + lines_from(contents@, start as int) == str_lines(contents@),
                imports@.map_values(|s: String| s@) == imports_of(done),
                forall|k: int|
                    0 <= k < imports@.len() ==> occurs_in(#[trigger] imports@[k]@, contents@),
            decreases n - start,
        {
            let mut end = start;
            while end < n && chars[end] != '\n'
                invariant
                    chars@ == contents@,
                    n == chars@.len(),
                    start <= end <= n,
                    next_newline(contents@, start as int) == next_newline(contents@, end as int),
                decreases n - end,
            {
                end = end + 1;
            }
            let line_end = if end < n && end > start && chars[end - 1] == '\r' {
                end - 1
            } else {
                end
            };
            let line = contents.substring_char(start, line_end);
            let ghost line_seq = line@;
            proof {
                lemma_next_newline_bounds(contents@, start as int);
                assert(line_seq == line_text(contents@, start as int, end as int));
                assert(lines_from(contents@, start as int) == seq![line_seq] + lines_from(
                    contents@,
                    end + 1,
                )) by {
                    if end as int == contents@.len() {
                        assert(lines_from(contents@, end + 1) =~= seq![]);
                        assert(seq![line_seq] + lines_from(contents@, end + 1) =~= seq![line_seq]);
                    }
                }
            }
            match regex_capture_group(IMPORT_PATTERN, line, 1) {
                Some(Some(name)) => {
                    proof {
                        let (i, j) = choose|i: int, j: int|
                            0 <= i <= j <= line_seq.len() && name@ == line_seq.subrange(i, j);
                        assert(name@ =~= contents@.subrange(start + i, start + j));
                    }
                    imports.push(name);
                },
                _ => {},
            }
            proof {
                let new_done = done.push(line_seq);
                assert(new_done.drop_last() =~= done);
                assert(imports@.map_values(|s: String| s@) =~= imports_of(new_done));
                assert(new_done + lines_from(contents@, end + 1) =~= done + lines_from(
                    contents@,
                    start as int,
                ));
                done = new_done;
            }
            if end < n {
                start = end + 1;
            } else {
                start = n;
            }
        }
        Shader {
            imports,
            contents: contents.to_owned(),
            vertex_entry: "vs_main".to_owned(),
            fragment_entry: "fs_main".to_owned(),
        }
    }
}

impl Default for Shader {
    /// An empty shader: no source, no entry points, no imports.
    fn default() -> (shader: Shader)
        ensures
            shader.contents@ == Seq::<char>::empty(),
            shader.vertex_entry@ == Seq::<char>::empty(),
            shader.fragment_entry@ == Seq::<char>::empty(),
            shader.import_names() == Seq::<Seq<char>>::empty(),
    {
        let shader = Shader {
            imports: Vec::new(),
            contents: String::new(),
            vertex_entry: String::new(),
            fragment_entry: String::new(),
        };
        assert(shader.import_names() =~= Seq::<Seq<char>>::empty());
        shader
    }
}

} // verus!
