//! The source generator's reading of annotated comments, and its plan.
//!
//! Generated artifacts are described in the sources by comment blocks: runs
//! of lines that start with `// `. [`do_extract_comment_blocks`] finds the
//! runs, [`extract_comment_blocks_with_empty_lines`] keeps those that open
//! with a given tag. [`Codegen::run`] says which generators run, in which
//! order.
use vstd::prelude::*;
use vstd::string::StrSliceExecFns;

verus! {

/// The lines of a text, as `str::lines` cuts it.
pub uninterp spec fn lines_of(text: Seq<char>) -> Seq<Seq<char>>;

/// A line without its leading white space, as `str::trim_start` cuts it.
pub uninterp spec fn trimmed_start(line: Seq<char>) -> Seq<char>;

/// A string without leading and trailing white space, as `str::trim` cuts
/// it.
pub uninterp spec fn trimmed(s: Seq<char>) -> Seq<char>;

/// Whether a character is an uppercase letter, as `char::is_uppercase`
/// decides it.
pub uninterp spec fn is_uppercase(c: char) -> bool;

/// The character sequences of a list of strings.
pub open spec fn strs_view(v: Seq<String>) -> Seq<Seq<char>> {
    Seq::new(v.len(), |i: int| v[i]@)
}

/// `str::lines`: the lines of `text`, in order, each without its line
/// ending.
#[verifier::external_body]
fn text_lines(text: &str) -> (r: Vec<String>)
    ensures
        strs_view(r@) == lines_of(text@),
{
    let mut lines = Vec::new();
    for line in text.lines() {
        lines.push(line.to_string());
    }
    lines
}

/// `str::trim_start`: `line` without its leading white space.
#[verifier::external_body]
fn trim_start(line: &str) -> (r: String)
    ensures
        r@ == trimmed_start(line@),
{
    line.trim_start().to_string()
}

/// `str::trim`: `s` without its leading and trailing white space.
#[verifier::external_body]
fn trim(s: &str) -> (r: String)
    ensures
        r@ == trimmed(s@),
{
    s.trim().to_string()
}

/// `char::is_uppercase`.
#[verifier::external_body]
fn char_is_uppercase(c: char) -> (r: bool)
    ensures
        r == is_uppercase(c),
{
    c.is_uppercase()
}

/// `line` starts with `prefix`.
pub open spec fn has_prefix(line: Seq<char>, prefix: Seq<char>) -> bool {
    prefix.len() <= line.len() && line.subrange(0, prefix.len() as int) == prefix
}

/// What opens a comment line.
pub open spec fn comment_prefix() -> Seq<char> {
    seq!['/', '/', ' ']
}

/// A comment line without text.
pub open spec fn bare_comment() -> Seq<char> {
    seq!['/', '/']
}

/// The reader's state between two lines: the blocks that are complete, each
/// with the number of its first line, and the block that is being read.
pub ghost struct Scan {
    pub done: Seq<(usize, Seq<Seq<char>>)>,
    pub start: usize,
    pub current: Seq<Seq<char>>,
}

/// The number of the line after next, counting from one; it stays at the
/// largest number when there is no larger one.
pub open spec fn line_after(line_num: nat) -> usize {
    if line_num + 2 <= usize::MAX {
        (line_num + 2) as usize
    } else {
        usize::MAX
    }
}

/// The complete blocks of a state, the one being read included if it holds
/// anything.
pub open spec fn flush(st: Scan) -> Seq<(usize, Seq<Seq<char>>)> {
    if st.current.len() > 0 {
        st.done.push((st.start, st.current))
    } else {
        st.done
    }
}

/// The state after one more line. `line` has no leading white space and is
/// the `line_num`-th line, counting from zero.
pub open spec fn scan_line(st: Scan, line_num: nat, line: Seq<char>, allow_empty: bool) -> Scan {
    if line == bare_comment() && allow_empty {
        Scan { done: st.done, start: st.start, current: st.current.push(Seq::empty()) }
    } else if has_prefix(line, comment_prefix()) {
        Scan { done: st.done, start: st.start, current: st.current.push(line.skip(3)) }
    } else {
        Scan { done: flush(st), start: line_after(line_num), current: Seq::empty() }
    }
}

/// The state after all of `lines`.
pub open spec fn scan(lines: Seq<Seq<char>>, allow_empty: bool) -> Scan
    decreases lines.len(),
{
    if lines.len() == 0 {
        Scan { done: Seq::empty(), start: 0, current: Seq::empty() }
    } else {
        scan_line(
            scan(lines.drop_last(), allow_empty),
            (lines.len() - 1) as nat,
            trimmed_start(lines.last()),
            allow_empty,
        )
    }
}

/// The comment blocks of `lines`: the maximal runs of comment lines, each
/// line without its prefix, each run with the number that follows the line
/// before it (zero for a run that opens the text).
pub open spec fn comment_blocks(lines: Seq<Seq<char>>, allow_empty: bool) -> Seq<(usize, Seq<Seq<char>>)> {
    flush(scan(lines, allow_empty))
}

/// The views of numbered blocks.
pub open spec fn blocks_view(v: Seq<(usize, Vec<String>)>) -> Seq<(usize, Seq<Seq<char>>)> {
    Seq::new(v.len(), |i: int| (v[i].0, strs_view(v[i].1@)))
}

/// The views of blocks.
pub open spec fn block_texts(v: Seq<Vec<String>>) -> Seq<Seq<Seq<char>>> {
    Seq::new(v.len(), |i: int| strs_view(v[i]@))
}

/// Whether `line` is the two characters of a bare comment.
fn is_bare_comment(line: &str) -> (r: bool)
    ensures
        r == (line@ == bare_comment()),
{
    if line.unicode_len() != 2 {
        return false;
    }
    let r = line.get_char(0) == '/' && line.get_char(1) == '/';
    assert(r ==> line@ =~= bare_comment());
    r
}

/// Whether `line` opens with the comment prefix.
fn is_comment(line: &str) -> (r: bool)
    ensures
        r == has_prefix(line@, comment_prefix()),
{
    if line.unicode_len() < 3 {
        return false;
    }
    let r = line.get_char(0) == '/' && line.get_char(1) == '/' && line.get_char(2) == ' ';
    assert(r ==> line@.subrange(0, 3) =~= comment_prefix());
    assert(!r ==> line@.subrange(0, 3) != comment_prefix()) by {
        if !r {
            assert(line@.subrange(0, 3)[0] == line@[0]);
            assert(line@.subrange(0, 3)[1] == line@[1]);
            assert(line@.subrange(0, 3)[2] == line@[2]);
        }
    }
    r
}

/// The comment blocks of `text`, each with the number of its first line.
/// With `allow_blocks_with_empty_lines`, a line that holds nothing but `//`
/// belongs to a block as an empty line; without, it ends the block.
pub fn do_extract_comment_blocks(text: &str, allow_blocks_with_empty_lines: bool) -> (res: Vec<(usize, Vec<String>)>)
    ensures
        blocks_view(res@) == comment_blocks(lines_of(text@), allow_blocks_with_empty_lines),
{
    let lines = text_lines(text);
    let ghost all = lines_of(text@);
    let mut res: Vec<(usize, Vec<String>)> = Vec::new();
    let mut start: usize = 0;
    let mut block: Vec<String> = Vec::new();
    let mut line_num: usize = 0;
    assert(all.take(0) =~= Seq::empty());
    assert(blocks_view(res@) =~= Seq::empty());
    assert(strs_view(block@) =~= Seq::empty());
    while line_num < lines.len()
        invariant
            line_num <= lines.len(),
            all == strs_view(lines@),
            scan(all.take(line_num as int), allow_blocks_with_empty_lines) == (Scan {
                done: blocks_view(res@),
                start,
                current: strs_view(block@),
            }),
        decreases lines.len() - line_num,
    {
        let ghost before = strs_view(block@);
        proof {
            assert(all.take(line_num + 1).drop_last() =~= all.take(line_num as int));
            assert(all.take(line_num + 1).last() == lines@[line_num as int]@);
        }
        let line = trim_start(lines[line_num].as_str());
        if allow_blocks_with_empty_lines && is_bare_comment(line.as_str()) {
            block.push(String::new());
            assert(strs_view(block@) =~= before.push(Seq::empty()));
        } else if is_comment(line.as_str()) {
            let n = line.as_str().unicode_len();
            let rest = line.as_str().substring_char(3, n).to_owned();
            block.push(rest);
            assert(line@.skip(3) =~= line@.subrange(3, n as int));
            assert(strs_view(block@) =~= before.push(line@.skip(3)));
        } else {
            if block.len() > 0 {
                let ghost done = blocks_view(res@);
                let full = block;
                block = Vec::new();
                res.push((start, full));
                assert(blocks_view(res@) =~= done.push((start, before)));
            }
            assert(strs_view(block@) =~= Seq::empty());
            start = if line_num <= usize::MAX - 2 {
                line_num + 2
            } else {
                usize::MAX
            };
        }
        line_num += 1;
    }
    assert(all.take(lines.len() as int) =~= all);
    if block.len() > 0 {
        let ghost done = blocks_view(res@);
        let ghost last = strs_view(block@);
        res.push((start, block));
        assert(blocks_view(res@) =~= done.push((start, last)));
    }
    res
}

/// The texts of numbered blocks, in order.
pub open spec fn texts_of(blocks: Seq<(usize, Seq<Seq<char>>)>) -> Seq<Seq<Seq<char>>> {
    Seq::new(blocks.len(), |i: int| blocks[i].1)
}

/// The comment blocks of `text`; a line that holds nothing but `//` ends a
/// block.
pub fn extract_comment_blocks(text: &str) -> (res: Vec<Vec<String>>)
    ensures
        block_texts(res@) == texts_of(comment_blocks(lines_of(text@), false)),
{
    let mut blocks = do_extract_comment_blocks(text, false);
    let ghost all = blocks_view(blocks@);
    let mut res: Vec<Vec<String>> = Vec::new();
    while blocks.len() > 0
        invariant
            res.len() + blocks.len() == all.len(),
            forall|j: int| 0 <= j < res.len() ==> strs_view(#[trigger] res@[j]@) == all[j].1,
            forall|j: int| 0 <= j < blocks.len() ==> #[trigger] blocks_view(blocks@)[j] == all[res.len() + j],
        decreases blocks.len(),
    {
        let ghost before = blocks_view(blocks@);
        let pair = blocks.remove(0);
        assert(blocks_view(blocks@) =~= before.skip(1));
        assert(strs_view(pair.1@) == before[0].1);
        res.push(pair.1);
    }
    assert(block_texts(res@) =~= texts_of(all));
    res
}

/// A comment block that opens with a tag: what follows the tag on the first
/// line, the number of the first line, and the other lines.
pub struct CommentBlock {
    pub id: String,
    pub line: usize,
    pub contents: Vec<String>,
}

/// A tagged block as plain text.
pub ghost struct CommentBlockView {
    pub id: Seq<char>,
    pub line: usize,
    pub contents: Seq<Seq<char>>,
}

impl CommentBlock {
    /// The block as plain text.
    pub open spec fn view(&self) -> CommentBlockView {
        CommentBlockView { id: self.id@, line: self.line, contents: strs_view(self.contents@) }
    }
}

/// The views of tagged blocks.
pub open spec fn tagged_view(v: Seq<CommentBlock>) -> Seq<CommentBlockView> {
    Seq::new(v.len(), |i: int| v[i]@)
}

/// Whether a block opens with `tag` and a colon.
pub open spec fn opens_with_tag(block: Seq<Seq<char>>, tag: Seq<char>) -> bool {
    block.len() > 0 && has_prefix(block[0], tag.push(':'))
}

/// The block as a tagged block, for one that opens with `tag`.
pub open spec fn tagged_block(block: (usize, Seq<Seq<char>>), tag: Seq<char>) -> CommentBlockView {
    CommentBlockView {
        id: trimmed(block.1[0].skip(tag.len() as int + 1)),
        line: block.0,
        contents: block.1.skip(1),
    }
}

/// The blocks that open with `tag`, in order.
pub open spec fn tagged_blocks(blocks: Seq<(usize, Seq<Seq<char>>)>, tag: Seq<char>) -> Seq<CommentBlockView>
    decreases blocks.len(),
{
    if blocks.len() == 0 {
        Seq::empty()
    } else {
        let rest = tagged_blocks(blocks.drop_last(), tag);
        if opens_with_tag(blocks.last().1, tag) {
            rest.push(tagged_block(blocks.last(), tag))
        } else {
            rest
        }
    }
}

/// Whether `line` opens with `tag` and a colon.
fn starts_with_tag(line: &str, tag: &str) -> (r: bool)
    ensures
        r == has_prefix(line@, tag@.push(':')),
{
    let n = tag.unicode_len();
    let m = line.unicode_len();
    if m <= n {
        return false;
    }
    let ghost want = tag@.push(':');
    let ghost got = line@.subrange(0, n + 1);
    let mut i: usize = 0;
    while i < n
        invariant
            i <= n,
            n == tag@.len(),
            m == line@.len(),
            n < m,
            want == tag@.push(':'),
            got == line@.subrange(0, n + 1),
            forall|j: int| 0 <= j < i ==> line@[j] == tag@[j],
        decreases n - i,
    {
        if line.get_char(i) != tag.get_char(i) {
            assert(got[i as int] != want[i as int]);
            return false;
        }
        i += 1;
    }
    if line.get_char(n) != ':' {
        assert(got[n as int] != want[n as int]);
        return false;
    }
    assert(got =~= want);
    true
}

/// The comment blocks of `text` that open with `tag` and a colon; a line
/// that holds nothing but `//` counts as an empty line of its block. The
/// tag has to start with an uppercase letter.
pub fn extract_comment_blocks_with_empty_lines(tag: &str, text: &str) -> (res: Vec<CommentBlock>)
    requires
        tag@.len() > 0,
        is_uppercase(tag@[0]),
    ensures
        tagged_view(res@) == tagged_blocks(comment_blocks(lines_of(text@), true), tag@),
{
    let mut blocks = do_extract_comment_blocks(text, true);
    let ghost all = blocks_view(blocks@);
    let ghost total = all.len();
    let tag_len = tag.unicode_len();
    let mut res: Vec<CommentBlock> = Vec::new();
    let ghost mut taken: int = 0;
    assert(all.take(0) =~= Seq::empty());
    assert(tagged_view(res@) =~= Seq::empty());
    while blocks.len() > 0
        invariant
            0 <= taken,
            taken + blocks.len() == total,
            total == all.len(),
            tag_len == tag@.len(),
            blocks_view(blocks@) == all.skip(taken),
            tagged_view(res@) == tagged_blocks(all.take(taken), tag@),
        decreases blocks.len(),
    {
        let ghost before = blocks_view(blocks@);
        let ghost found = tagged_view(res@);
        let pair = blocks.remove(0);
        let line = pair.0;
        let mut block = pair.1;
        proof {
            assert(blocks_view(blocks@) =~= before.skip(1));
            assert(before.skip(1) =~= all.skip(taken + 1));
            assert((line, strs_view(block@)) == before[0]);
            assert(before[0] == all[taken]);
            assert(all.take(taken + 1).drop_last() =~= all.take(taken));
            assert(all.take(taken + 1).last() == all[taken]);
        }
        if block.len() > 0 {
            let ghost whole = strs_view(block@);
            let first = block.remove(0);
            assert(strs_view(block@) =~= whole.skip(1));
            if starts_with_tag(first.as_str(), tag) {
                let n = first.as_str().unicode_len();
                let id = trim(first.as_str().substring_char(tag_len + 1, n));
                assert(first@.skip(tag_len + 1) =~= first@.subrange(tag_len + 1, n as int));
                let tagged = CommentBlock { id, line, contents: block };
                res.push(tagged);
                assert(tagged_view(res@) =~= found.push(tagged_block(all[taken], tag@)));
            }
        }
        proof {
            taken = taken + 1;
        }
    }
    assert(all.take(total as int) =~= all);
    res
}

/// The tagged comment blocks of `text`, or nothing when `tag` does not
/// start with an uppercase letter.
pub fn tagged_comment_blocks(tag: &str, text: &str) -> (res: Option<Vec<CommentBlock>>)
    ensures
        match res {
            Some(v) => tag@.len() > 0 && is_uppercase(tag@[0]) && tagged_view(v@) == tagged_blocks(
                comment_blocks(lines_of(text@), true),
                tag@,
            ),
            None => tag@.len() == 0 || !is_uppercase(tag@[0]),
        },
{
    if tag.unicode_len() == 0 {
        return None;
    }
    if !char_is_uppercase(tag.get_char(0)) {
        return None;
    }
    Some(extract_comment_blocks_with_empty_lines(tag, text))
}

/// Whether a generator may write or only compares.
#[derive(Clone, Copy, Debug, PartialEq, Eq, Structural)]
pub enum Mode {
    Overwrite,
    Verify,
}

/// `s` with every occurrence of `from` replaced by `to`, the occurrences
/// being found from left to right without overlap.
pub open spec fn replaced(s: Seq<char>, from: Seq<char>, to: Seq<char>) -> Seq<char>
    decreases s.len(),
{
    if from.len() == 0 || s.len() < from.len() {
        s
    } else if s.subrange(0, from.len() as int) == from {
        to + replaced(s.skip(from.len() as int), from, to)
    } else {
        seq![s[0]] + replaced(s.skip(1), from, to)
    }
}

/// `str::replace` with string patterns: all matches of `from`, found from
/// left to right without overlap, are replaced by `to`.
#[verifier::external_body]
fn replace(s: &str, from: &str, to: &str) -> (r: String)
    requires
        from@.len() > 0,
    ensures
        r@ == replaced(s@, from@, to@),
{
    s.replace(from, to)
}

/// A text with its Windows line endings turned into plain ones.
pub open spec fn normalized(s: Seq<char>) -> Seq<char> {
    replaced(s, seq!['\r', '\n'], seq!['\n'])
}

/// What is to be done about a generated file.
#[derive(Clone, Copy, Debug, PartialEq, Eq, Structural)]
pub enum UpdateAction {
    /// The file holds the contents already.
    UpToDate,
    /// The file differs and may not be written: the check fails.
    Stale,
    /// The file is to be written.
    Write,
}

/// What is to be done about a file that holds `old` (nothing when it
/// cannot be read) and should hold `contents`. Line endings do not count.
pub open spec fn update_action(old: Option<Seq<char>>, contents: Seq<char>, mode: Mode) -> UpdateAction {
    if old is Some && normalized(old->Some_0) == normalized(contents) {
        UpdateAction::UpToDate
    } else if mode == Mode::Verify {
        UpdateAction::Stale
    } else {
        UpdateAction::Write
    }
}

/// Decides what is to be done about a generated file: nothing when it is
/// up to date, an error when it is not and the mode only verifies, a write
/// otherwise. `old_contents` is what the file holds, if it can be read.
pub fn update(old_contents: Option<&str>, contents: &str, mode: Mode) -> (r: UpdateAction)
    ensures
        r == update_action(
            match old_contents {
                Some(old) => Some(old@),
                None => None,
            },
            contents@,
            mode,
        ),
{
    proof {
        reveal_strlit("\r\n");
        reveal_strlit("\n");
        assert("\r\n"@ =~= seq!['\r', '\n']);
        assert("\n"@ =~= seq!['\n']);
    }
    match old_contents {
        Some(old) => {
            let a = replace(old, "\r\n", "\n");
            let b = replace(contents, "\r\n", "\n");
            if a == b {
                return UpdateAction::UpToDate;
            }
        },
        None => {},
    }
    if mode == Mode::Verify {
        UpdateAction::Stale
    } else {
        UpdateAction::Write
    }
}

/// The artifacts that can be generated.
#[derive(Clone, Copy, Debug, PartialEq, Eq, Structural)]
pub enum Generator {
    LintCompletions,
    Syntax,
    ParserTests,
    AssistsTests,
    AssistsDocs,
    FeatureDocs,
    DiagnosticDocs,
}

/// One generator run.
#[derive(Clone, Copy, Debug, PartialEq, Eq, Structural)]
pub struct Step {
    pub generator: Generator,
    pub mode: Mode,
}

/// The request to regenerate everything.
#[derive(Clone, Copy, Debug, PartialEq, Eq, Structural)]
pub struct Codegen {
    /// Whether the lint completions, which need the network, are
    /// regenerated too.
    pub features: bool,
}

/// The runs that regenerate everything but the lint completions.
pub open spec fn core_plan() -> Seq<Step> {
    seq![
        Step { generator: Generator::Syntax, mode: Mode::Overwrite },
        Step { generator: Generator::ParserTests, mode: Mode::Overwrite },
        Step { generator: Generator::AssistsTests, mode: Mode::Overwrite },
        Step { generator: Generator::AssistsDocs, mode: Mode::Overwrite },
        Step { generator: Generator::FeatureDocs, mode: Mode::Overwrite },
        Step { generator: Generator::DiagnosticDocs, mode: Mode::Overwrite },
    ]
}

impl Codegen {
    /// The plan of the request.
    pub open spec fn plan(self) -> Seq<Step> {
        if self.features {
            seq![Step { generator: Generator::LintCompletions, mode: Mode::Overwrite }]
                + core_plan()
        } else {
            core_plan()
        }
    }

    /// The generator runs of the request, in the order in which they are
    /// to be made; each overwrites. The caller makes them and stops at the
    /// first that fails.
    pub fn run(self) -> (steps: Vec<Step>)
        ensures
            steps@ == self.plan(),
    {
        let mut steps: Vec<Step> = Vec::new();
        if self.features {
            steps.push(Step { generator: Generator::LintCompletions, mode: Mode::Overwrite });
        }
        steps.push(Step { generator: Generator::Syntax, mode: Mode::Overwrite });
        steps.push(Step { generator: Generator::ParserTests, mode: Mode::Overwrite });
        steps.push(Step { generator: Generator::AssistsTests, mode: Mode::Overwrite });
        steps.push(Step { generator: Generator::AssistsDocs, mode: Mode::Overwrite });
        steps.push(Step { generator: Generator::FeatureDocs, mode: Mode::Overwrite });
        steps.push(Step { generator: Generator::DiagnosticDocs, mode: Mode::Overwrite });
        assert(steps@ =~= self.plan());
        steps
    }
}

#[verifier::external_type_specification]
#[verifier::external_body]
pub struct ExPathBuf(std::path::PathBuf);

/// A place in a source file.
#[derive(Debug)]
pub struct Location {
    pub file: std::path::PathBuf,
    pub line: usize,
}

impl Location {
    /// The place at `line` of `file`.
    pub fn new(file: std::path::PathBuf, line: usize) -> (r: Location)
        ensures
            r.file == file,
            r.line == line,
    {
        Location { file, line }
    }
}

} // verus!
