use vstd::prelude::*;
use ignore::gitignore::{Gitignore, GitignoreBuilder};

verus! {

#[verifier::external_type_specification]
#[verifier::external_body]
pub struct ExGitignore(Gitignore);

#[verifier::external_type_specification]
#[verifier::external_body]
pub struct ExGitignoreBuilder(GitignoreBuilder);

#[verifier::external_type_specification]
#[verifier::external_body]
pub struct ExIgnoreError(ignore::Error);

/// The root directory that a builder was made for.
pub uninterp spec fn builder_root(b: GitignoreBuilder) -> Seq<char>;

/// The text of each pattern that a builder holds, in order.
pub uninterp spec fn builder_lines(b: GitignoreBuilder) -> Seq<Seq<char>>;

/// The root directory of a matcher.
pub uninterp spec fn matcher_root(g: Gitignore) -> Seq<char>;

/// The text of each pattern of a matcher, in order.
pub uninterp spec fn matcher_lines(g: Gitignore) -> Seq<Seq<char>>;

/// Whether a gitignore line parses: comments and blank lines do, as do valid globs.
pub uninterp spec fn line_accepted(line: Seq<char>) -> bool;

/// Whether the globs of these patterns can be compiled into one matcher.
pub uninterp spec fn lines_build(lines: Seq<Seq<char>>) -> bool;

/// Whether a matcher with this root and these patterns reports `path` as ignored,
/// under gitignore rules: the last matching line decides, a `!` line re-admits,
/// a line ending in `/` applies to directories only.
pub uninterp spec fn gitignore_ignores(
    root: Seq<char>,
    lines: Seq<Seq<char>>,
    path: Seq<char>,
    is_dir: bool,
) -> bool;

/// A root directory as a builder keeps it: without a leading `./`.
pub open spec fn without_dot_slash(root: Seq<char>) -> Seq<char> {
    if root.len() >= 2 && root[0] == '.' && root[1] == '/' {
        root.subrange(2, root.len() as int)
    } else {
        root
    }
}

/// Unicode white space, as `char::is_whitespace` tells it.
pub open spec fn is_white(c: char) -> bool {
    let n = c as u32;
    (0x9 <= n <= 0xd) || n == 0x20 || n == 0x85 || n == 0xa0 || n == 0x1680 || (0x2000 <= n
        <= 0x200a) || n == 0x2028 || n == 0x2029 || n == 0x202f || n == 0x205f || n == 0x3000
}

/// `s` without its trailing white space.
pub open spec fn trim_end_white(s: Seq<char>) -> Seq<char>
    decreases s.len(),
{
    if s.len() > 0 && is_white(s.last()) {
        trim_end_white(s.drop_last())
    } else {
        s
    }
}

/// The text of the pattern on a gitignore line: the line without trailing white
/// space, unless it ends in an escaped space.
pub open spec fn glob_text(line: Seq<char>) -> Seq<char> {
    if line.len() >= 2 && line[line.len() - 2] == '\\' && line.last() == ' ' {
        line
    } else {
        trim_end_white(line)
    }
}

/// Whether a gitignore line holds a pattern: it is no comment (`#` first) and not
/// blank.
pub open spec fn adds_pattern(line: Seq<char>) -> bool {
    !(line.len() > 0 && line[0] == '#') && glob_text(line).len() > 0
}

/// The patterns that gitignore lines hold, in order.
pub open spec fn patterns(lines: Seq<Seq<char>>) -> Seq<Seq<char>>
    decreases lines.len(),
{
    if lines.len() == 0 {
        Seq::empty()
    } else {
        let rest = patterns(lines.drop_last());
        if adds_pattern(lines.last()) {
            rest.push(glob_text(lines.last()))
        } else {
            rest
        }
    }
}

/// Every line parses.
pub open spec fn all_parse(lines: Seq<Seq<char>>) -> bool {
    forall|i: int| 0 <= i < lines.len() ==> line_accepted(#[trigger] lines[i])
}

/// Relies on ignore::gitignore::GitignoreBuilder::new: a builder for `root`, which it
/// keeps without a leading `./` (a byte prefix, on Unix), with no patterns.
#[verifier::external_body]
fn new_builder(root: &str) -> (r: GitignoreBuilder)
    ensures
        builder_root(r) == without_dot_slash(root@),
        builder_lines(r) == Seq::<Seq<char>>::empty(),
{
    GitignoreBuilder::new(root)
}

/// Relies on ignore::gitignore::GitignoreBuilder::add_line: a comment or blank line
/// is accepted and adds nothing; another line adds its right-trimmed text as a
/// pattern when it parses, and leaves the builder as it was when it does not.
#[verifier::external_body]
fn add_line(b: &mut GitignoreBuilder, line: &str) -> (r: bool)
    ensures
        r == line_accepted(line@),
        !adds_pattern(line@) ==> r,
        builder_root(*final(b)) == builder_root(*old(b)),
        builder_lines(*final(b)) == if r && adds_pattern(line@) {
            builder_lines(*old(b)).push(glob_text(line@))
        } else {
            builder_lines(*old(b))
        },
{
    b.add_line(None, line).is_ok()
}

/// Relies on ignore::gitignore::GitignoreBuilder::build: a matcher with the
/// builder's root and patterns, unless its globs cannot be compiled.
#[verifier::external_body]
fn build_matcher(b: &GitignoreBuilder) -> (r: Result<Gitignore, ignore::Error>)
    ensures
        r is Ok <==> lines_build(builder_lines(*b)),
        r matches Ok(g) ==> matcher_root(g) == builder_root(*b) && matcher_lines(g) == builder_lines(
            *b,
        ),
{
    b.build()
}

/// Relies on ignore::gitignore::Gitignore::empty: a matcher with no patterns.
#[verifier::external_body]
fn empty_matcher() -> (r: Gitignore)
    ensures
        matcher_lines(r) == Seq::<Seq<char>>::empty(),
{
    Gitignore::empty()
}

/// Relies on ignore::gitignore::Gitignore::matched: whether `path` is ignored; a
/// matcher without patterns ignores nothing.
#[verifier::external_body]
fn matched_ignore(g: &Gitignore, path: &str, is_dir: bool) -> (r: bool)
    ensures
        r == (matcher_lines(*g).len() > 0 && gitignore_ignores(
            matcher_root(*g),
            matcher_lines(*g),
            path@,
            is_dir,
        )),
{
    g.matched(path, is_dir).is_ignore()
}

/// The text of each of `v`.
pub open spec fn texts(v: Seq<String>) -> Seq<Seq<char>> {
    v.map_values(|l: String| l@)
}

/// One source of exclusion rules, as it was read.
pub enum RuleSource {
    /// There is no such file: it adds no rules.
    Missing,
    /// The file exists but could not be read.
    Unreadable,
    /// The lines of the file.
    Lines(Vec<String>),
}

/// The lines that a source contributes.
pub open spec fn source_lines(s: RuleSource) -> Seq<Seq<char>> {
    match s {
        RuleSource::Lines(v) => texts(v@),
        _ => Seq::empty(),
    }
}

/// The lines of a target's two sources: its own ignore file, then the global one.
pub open spec fn rule_lines(local: RuleSource, global: RuleSource) -> Seq<Seq<char>> {
    source_lines(local) + source_lines(global)
}

/// Whether the rules of two sources are used as they are: both could be read, every
/// line parses, and the patterns compile. Otherwise the filter fails open.
pub open spec fn rules_usable(local: RuleSource, global: RuleSource) -> bool {
    &&& !(local is Unreadable)
    &&& !(global is Unreadable)
    &&& all_parse(rule_lines(local, global))
    &&& lines_build(patterns(rule_lines(local, global)))
}

/// The exclusion rules of one target: the patterns of its own ignore file followed
/// by those of the global one, matched relative to the target's directory.
pub struct IgnoreFilter {
    matcher: Gitignore,
    fell_open: bool,
}

impl IgnoreFilter {
    /// The directory that the rules are relative to.
    pub closed spec fn root(&self) -> Seq<char> {
        matcher_root(self.matcher)
    }

    /// The patterns in force.
    pub closed spec fn lines(&self) -> Seq<Seq<char>> {
        matcher_lines(self.matcher)
    }

    /// Whether the rules could not be used and the filter excludes nothing.
    pub closed spec fn fell_open_spec(&self) -> bool {
        self.fell_open
    }

    /// Whether the rules exclude `path`.
    pub open spec fn excludes(&self, path: Seq<char>, is_dir: bool) -> bool {
        self.lines().len() > 0 && gitignore_ignores(self.root(), self.lines(), path, is_dir)
    }

    /// Rules for the directory `root` from its own ignore file and the global one.
    /// A missing file adds no rules. If either file could not be read, a line does
    /// not parse, or the patterns do not compile, the filter excludes nothing.
    pub fn build(root: &str, local: &RuleSource, global: &RuleSource) -> (r: IgnoreFilter)
        ensures
            rules_usable(*local, *global) ==> r.root() == without_dot_slash(root@) && r.lines()
                == patterns(rule_lines(*local, *global)),
            !rules_usable(*local, *global) ==> r.lines() == Seq::<Seq<char>>::empty(),
            r.fell_open_spec() == !rules_usable(*local, *global),
            patterns(rule_lines(*local, *global)).len() == 0 ==> forall|p: Seq<char>, d: bool|
                !r.excludes(p, d),
    {
        let mut b = new_builder(root);
        let ok_local = add_source(&mut b, local, Ghost(Seq::empty()));
        let ok_global = if ok_local {
            add_source(&mut b, global, Ghost(source_lines(*local)))
        } else {
            false
        };
        proof {
            let l = source_lines(*local);
            let g = source_lines(*global);
            let s = l + g;
            assert(Seq::<Seq<char>>::empty() + l =~= l);
            if all_parse(s) {
                assert forall|i: int| 0 <= i < l.len() implies line_accepted(#[trigger] l[i]) by {
                    assert(s[i] == l[i]);
                }
                assert forall|i: int| 0 <= i < g.len() implies line_accepted(#[trigger] g[i]) by {
                    assert(s[l.len() + i] == g[i]);
                }
            }
            if all_parse(l) && all_parse(g) {
                assert forall|i: int| 0 <= i < s.len() implies line_accepted(#[trigger] s[i]) by {
                    if i < l.len() {
                        assert(s[i] == l[i]);
                    } else {
                        assert(s[i] == g[i - l.len()]);
                    }
                }
            }
        }
        if ok_local && ok_global {
            match build_matcher(&b) {
                Ok(matcher) => IgnoreFilter { matcher, fell_open: false },
                Err(_) => IgnoreFilter { matcher: empty_matcher(), fell_open: true },
            }
        } else {
            IgnoreFilter { matcher: empty_matcher(), fell_open: true }
        }
    }

    /// Whether the rules could not be used, so that the filter excludes nothing.
    pub fn fell_open(&self) -> (r: bool)
        ensures
            r == self.fell_open_spec(),
    {
        self.fell_open
    }

    /// Whether the rules exclude `path`; `is_dir` tells whether it names a directory.
    pub fn is_excluded(&self, path: &str, is_dir: bool) -> (r: bool)
        ensures
            r == self.excludes(path@, is_dir),
    {
        matched_ignore(&self.matcher, path, is_dir)
    }
}

fn add_source(b: &mut GitignoreBuilder, src: &RuleSource, before: Ghost<Seq<Seq<char>>>) -> (r: bool)
    requires
        builder_lines(*old(b)) == patterns(before@),
    ensures
        builder_root(*final(b)) == builder_root(*old(b)),
        r == (!(*src is Unreadable) && all_parse(source_lines(*src))),
        r ==> builder_lines(*final(b)) == patterns(before@ + source_lines(*src)),
{
    match src {
        RuleSource::Missing => {
            assert(before@ + source_lines(*src) =~= before@);
            true
        },
        RuleSource::Unreadable => false,
        RuleSource::Lines(lines) => add_lines(b, lines, before),
    }
}

fn add_lines(b: &mut GitignoreBuilder, lines: &Vec<String>, before: Ghost<Seq<Seq<char>>>) -> (r: bool)
    requires
        builder_lines(*old(b)) == patterns(before@),
    ensures
        builder_root(*final(b)) == builder_root(*old(b)),
        r == all_parse(texts(lines@)),
        r ==> builder_lines(*final(b)) == patterns(before@ + texts(lines@)),
{
    let ghost t = texts(lines@);
    let mut ok = true;
    let mut i: usize = 0;
    while i < lines.len()
        invariant
            i <= lines@.len(),
            t == texts(lines@),
            builder_root(*b) == builder_root(*old(b)),
            ok == all_parse(t.take(i as int)),
            ok ==> builder_lines(*b) == patterns(before@ + t.take(i as int)),
        decreases lines@.len() - i,
    {
        let accepted = add_line(b, lines[i].as_str());
        proof {
            let u = before@ + t.take(i + 1);
            assert(u.drop_last() =~= before@ + t.take(i as int));
            assert(u.last() == t[i as int]);
            assert(t.take(i + 1).last() == t[i as int]);
            if all_parse(t.take(i + 1)) {
                assert(t.take(i + 1)[i as int] == t[i as int]);
                assert forall|j: int| 0 <= j < i implies line_accepted(#[trigger] t.take(i as int)[j]) by {
                    assert(t.take(i as int)[j] == t.take(i + 1)[j]);
                }
            }
            if ok && accepted {
                assert forall|j: int| 0 <= j < i + 1 implies line_accepted(#[trigger] t.take(i + 1)[j]) by {
                    if j < i {
                        assert(t.take(i as int)[j] == t.take(i + 1)[j]);
                    }
                }
            }
        }
        ok = ok && accepted;
        i += 1;
    }
    proof {
        assert(t.take(i as int) =~= t);
    }
    ok
}

} // verus!
