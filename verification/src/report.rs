//! The report: the ordered finding list, the diagnostics, optional file
//! statistics, and the severity-stable ordering used at render time.

use vstd::prelude::*;
use vstd::multiset::Multiset;
use crate::knowledge_base::{finding_severity_spec, Finding, Severity};
use crate::state::Diagnostic;
use crate::text::{has_prefix, has_suffix, str_ends_with, str_starts_with, str_trim, trim_spec};

verus! {

/// Line statistics of one source file.
#[derive(Debug, Clone, Copy, PartialEq, Eq, Structural)]
pub struct FileInfo {
    pub comments_count: usize,
    pub blank_spaces_count: usize,
    pub lines_of_code: usize,
}

impl FileInfo {
    /// All counters zero.
    pub fn new() -> (r: Self)
        ensures
            r.comments_count == 0,
            r.blank_spaces_count == 0,
            r.lines_of_code == 0,
    {
        FileInfo { comments_count: 0, blank_spaces_count: 0, lines_of_code: 0 }
    }
}

/// Index of the first line feed at or after position `i`, or the length
/// of `s` when there is none.
pub open spec fn find_newline(s: Seq<char>, i: int) -> int
    decreases s.len() - i,
{
    if i < 0 || i >= s.len() {
        s.len() as int
    } else if s[i] == '\n' {
        i
    } else {
        find_newline(s, i + 1)
    }
}

proof fn lemma_find_newline_range(s: Seq<char>, i: int)
    requires
        0 <= i <= s.len(),
    ensures
        i <= find_newline(s, i) <= s.len(),
    decreases s.len() - i,
{
    if i < s.len() && s[i] != '\n' {
        lemma_find_newline_range(s, i + 1);
    }
}

/// One line with a trailing carriage return removed: a `\r\n` pair is
/// one line terminator.
pub open spec fn strip_cr(t: Seq<char>) -> Seq<char> {
    if t.len() > 0 && t.last() == '\r' {
        t.drop_last()
    } else {
        t
    }
}

/// The lines of `s`: pieces between line feeds, each with a trailing
/// carriage return removed; a final line feed ends the last line rather
/// than opening an empty one.
pub open spec fn split_lines_spec(s: Seq<char>) -> Seq<Seq<char>>
    decreases s.len(),
    via split_lines_decreases
{
    if s.len() == 0 {
        Seq::<Seq<char>>::empty()
    } else {
        let i = find_newline(s, 0);
        if i >= s.len() {
            seq![s]
        } else {
            seq![strip_cr(s.subrange(0, i))] + split_lines_spec(s.subrange(i + 1, s.len() as int))
        }
    }
}

#[via_fn]
proof fn split_lines_decreases(s: Seq<char>) {
    if s.len() > 0 {
        lemma_find_newline_range(s, 0);
    }
}

fn find_newline_exec(s: &str, from: usize) -> (r: usize)
    requires
        from <= s@.len(),
    ensures
        r as int == find_newline(s@, from as int),
        from <= r <= s@.len(),
{
    let n = s.unicode_len();
    let mut i: usize = from;
    while i < n
        invariant
            from <= i <= n,
            n == s@.len(),
            find_newline(s@, from as int) == find_newline(s@, i as int),
        decreases n - i,
    {
        if s.get_char(i) == '\n' {
            return i;
        }
        i = i + 1;
    }
    n
}

/// Split `s` into lines; see [`split_lines_spec`].
pub fn split_lines(s: &str) -> (r: Vec<String>)
    ensures
        r.deep_view() == split_lines_spec(s@),
{
    let mut out: Vec<String> = Vec::new();
    let mut rest: &str = s;
    loop
        invariant
            split_lines_spec(s@) == out.deep_view() + split_lines_spec(rest@),
        decreases rest@.len(),
    {
        let ghost out0 = out.deep_view();
        let n = rest.unicode_len();
        if n == 0 {
            proof {
                assert(out.deep_view() =~= split_lines_spec(s@));
            }
            return out;
        }
        let i = find_newline_exec(rest, 0);
        if i >= n {
            out.push(rest.to_owned());
            proof {
                assert(out.deep_view() =~= out0.push(rest@));
                assert(out.deep_view() =~= split_lines_spec(s@));
            }
            return out;
        }
        let line_end = if i > 0 && rest.get_char(i - 1) == '\r' {
            i - 1
        } else {
            i
        };
        let piece = rest.substring_char(0, line_end);
        proof {
            if i > 0 && rest@[i as int - 1] == '\r' {
                assert(rest@.subrange(0, i as int).drop_last() =~= rest@.subrange(
                    0,
                    i as int - 1,
                ));
            }
            assert(piece@ =~= strip_cr(rest@.subrange(0, i as int)));
        }
        out.push(piece.to_owned());
        rest = rest.substring_char(i + 1, n);
        proof {
            assert(out.deep_view() =~= out0.push(piece@));
            assert(out.deep_view() + split_lines_spec(rest@) =~= split_lines_spec(s@));
        }
    }
}

/// Line statistics as mathematical integers.
pub struct LineCounts {
    pub comments: int,
    pub blanks: int,
    pub code: int,
}

/// Classify the lines of a file, carrying the inside-a-block-comment
/// state forward: inside a block every line is a comment and a line
/// whose trimmed text ends with the block-close token leaves the block;
/// outside, a trimmed line-comment or block-open prefix makes a comment
/// line (a block-open without a close on the same line enters the
/// block), an empty trimmed line is blank, and everything else is code.
pub open spec fn count_lines_from(lines: Seq<Seq<char>>, in_block: bool) -> LineCounts
    decreases lines.len(),
{
    if lines.len() == 0 {
        LineCounts { comments: 0, blanks: 0, code: 0 }
    } else {
        let t = trim_spec(lines[0]);
        let comment = in_block || has_prefix(t, "//"@) || has_prefix(t, "/*"@);
        let blank = !comment && t.len() == 0;
        let next = if in_block {
            !has_suffix(t, "*/"@)
        } else if has_prefix(t, "//"@) {
            false
        } else {
            has_prefix(t, "/*"@) && !has_suffix(t, "*/"@)
        };
        let rest = count_lines_from(lines.drop_first(), next);
        LineCounts {
            comments: rest.comments + if comment {
                1int
            } else {
                0int
            },
            blanks: rest.blanks + if blank {
                1int
            } else {
                0int
            },
            code: rest.code + if comment || blank {
                0int
            } else {
                1int
            },
        }
    }
}

/// Statistics of a whole file: its lines classified from outside any
/// block comment.
pub open spec fn file_counts(text: Seq<char>) -> LineCounts {
    count_lines_from(split_lines_spec(text), false)
}

/// Count comment, blank and code lines of `text`; see [`file_counts`].
pub fn count_source_lines(text: &str) -> (r: FileInfo)
    ensures
        r.comments_count as int == file_counts(text@).comments,
        r.blank_spaces_count as int == file_counts(text@).blanks,
        r.lines_of_code as int == file_counts(text@).code,
{
    let lines = split_lines(text);
    let n = lines.len();
    let mut comments: usize = 0;
    let mut blanks: usize = 0;
    let mut code: usize = 0;
    let mut in_block: bool = false;
    let mut i: usize = 0;
    proof {
        assert(lines.deep_view().skip(0) =~= lines.deep_view());
    }
    while i < n
        invariant
            0 <= i <= n,
            n == lines@.len(),
            lines.deep_view() == split_lines_spec(text@),
            comments + blanks + code == i,
            file_counts(text@).comments == comments + count_lines_from(
                lines.deep_view().skip(i as int),
                in_block,
            ).comments,
            file_counts(text@).blanks == blanks + count_lines_from(
                lines.deep_view().skip(i as int),
                in_block,
            ).blanks,
            file_counts(text@).code == code + count_lines_from(
                lines.deep_view().skip(i as int),
                in_block,
            ).code,
        decreases n - i,
    {
        let line: &String = &lines[i];
        let ghost pre = lines.deep_view().skip(i as int);
        let ghost block0 = in_block;
        proof {
            assert(pre[0] == lines.deep_view()[i as int]);
            assert(lines.deep_view()[i as int] == line@);
            assert(pre.drop_first() =~= lines.deep_view().skip(i as int + 1));
        }
        let t = str_trim(line.as_str());
        if in_block {
            comments = comments + 1;
            if str_ends_with(t, "*/") {
                in_block = false;
            }
        } else if str_starts_with(t, "//") {
            comments = comments + 1;
        } else if str_starts_with(t, "/*") {
            comments = comments + 1;
            if !str_ends_with(t, "*/") {
                in_block = true;
            }
        } else if t.unicode_len() == 0 {
            blanks = blanks + 1;
        } else {
            code = code + 1;
        }
        proof {
            let tt = trim_spec(pre[0]);
            assert(tt == t@);
            let comment = block0 || has_prefix(tt, "//"@) || has_prefix(tt, "/*"@);
            let next = if block0 {
                !has_suffix(tt, "*/"@)
            } else if has_prefix(tt, "//"@) {
                false
            } else {
                has_prefix(tt, "/*"@) && !has_suffix(tt, "*/"@)
            };
            assert(in_block == next);
            let rest_counts = count_lines_from(pre.drop_first(), next);
            assert(count_lines_from(pre, block0).comments == rest_counts.comments + if comment {
                1int
            } else {
                0int
            });
        }
        i = i + 1;
    }
    proof {
        assert(lines.deep_view().skip(n as int) =~= Seq::<Seq<char>>::empty());
    }
    FileInfo { comments_count: comments, blank_spaces_count: blanks, lines_of_code: code }
}

/// The findings of `fs` whose rule severity is `sev`, in order.
pub open spec fn severity_bucket(fs: Seq<Finding>, sev: Severity) -> Seq<Finding>
    decreases fs.len(),
{
    if fs.len() == 0 {
        Seq::<Finding>::empty()
    } else {
        severity_bucket(fs.drop_last(), sev) + if finding_severity_spec(fs.last()) == sev {
            seq![fs.last()]
        } else {
            Seq::<Finding>::empty()
        }
    }
}

/// The findings of `fs` ordered for rendering: all `High` findings
/// first, then all `Medium`, then all `Low`, ties keeping their
/// discovery order.
pub open spec fn severity_sorted(fs: Seq<Finding>) -> Seq<Finding> {
    severity_bucket(fs, Severity::High) + severity_bucket(fs, Severity::Medium)
        + severity_bucket(fs, Severity::Low)
}

proof fn lemma_bucket_severity(fs: Seq<Finding>, sev: Severity)
    ensures
        forall|k: int|
            0 <= k < severity_bucket(fs, sev).len() ==> finding_severity_spec(
                #[trigger] severity_bucket(fs, sev)[k],
            ) == sev,
    decreases fs.len(),
{
    if fs.len() > 0 {
        lemma_bucket_severity(fs.drop_last(), sev);
    }
}

proof fn lemma_bucket_of_concat(a: Seq<Finding>, b: Seq<Finding>, sev: Severity)
    ensures
        severity_bucket(a + b, sev) == severity_bucket(a, sev) + severity_bucket(b, sev),
    decreases b.len(),
{
    if b.len() == 0 {
        assert(a + b =~= a);
        assert(severity_bucket(a, sev) + severity_bucket(b, sev) =~= severity_bucket(a, sev));
    } else {
        lemma_bucket_of_concat(a, b.drop_last(), sev);
        assert((a + b).drop_last() =~= a + b.drop_last());
        assert((a + b).last() == b.last());
        assert(severity_bucket(a, sev) + (severity_bucket(b.drop_last(), sev)
            + if finding_severity_spec(b.last()) == sev {
            seq![b.last()]
        } else {
            Seq::<Finding>::empty()
        }) =~= severity_bucket(a, sev) + severity_bucket(b.drop_last(), sev)
            + if finding_severity_spec(b.last()) == sev {
            seq![b.last()]
        } else {
            Seq::<Finding>::empty()
        });
    }
}

proof fn lemma_bucket_of_uniform(s: Seq<Finding>, have: Severity, sev: Severity)
    requires
        forall|k: int|
            0 <= k < s.len() ==> finding_severity_spec(#[trigger] s[k]) == have,
    ensures
        severity_bucket(s, sev) == if sev == have && s.len() > 0 {
            s
        } else {
            Seq::<Finding>::empty()
        },
    decreases s.len(),
{
    if s.len() > 0 {
        lemma_bucket_of_uniform(s.drop_last(), have, sev);
        if sev == have {
            if s.len() == 1 {
                assert(severity_bucket(s, sev) =~= s);
            } else {
                assert(severity_bucket(s, sev) =~= s.drop_last() + seq![s.last()]);
                assert(s.drop_last() + seq![s.last()] =~= s);
            }
        } else {
            assert(severity_bucket(s, sev) =~= Seq::<Finding>::empty());
        }
    }
}

/// Law (ordering): the rendered order is sorted by severity rank:
/// no finding is preceded by one of a strictly larger rank.
pub proof fn lemma_severity_sorted_ordered(fs: Seq<Finding>)
    ensures
        forall|i: int, j: int|
            0 <= i <= j < severity_sorted(fs).len() ==> finding_severity_spec(
                #[trigger] severity_sorted(fs)[i],
            ).spec_rank() <= finding_severity_spec(#[trigger] severity_sorted(fs)[j]).spec_rank(),
{
    lemma_bucket_severity(fs, Severity::High);
    lemma_bucket_severity(fs, Severity::Medium);
    lemma_bucket_severity(fs, Severity::Low);
    let sorted = severity_sorted(fs);
    let l0 = severity_bucket(fs, Severity::High).len() as int;
    let l1 = severity_bucket(fs, Severity::Medium).len() as int;
    assert forall|i: int| 0 <= i < sorted.len() implies finding_severity_spec(
        #[trigger] sorted[i],
    ).spec_rank() == (if i < l0 {
        0int
    } else if i < l0 + l1 {
        1int
    } else {
        2int
    }) by {
        if i < l0 {
            assert(sorted[i] == severity_bucket(fs, Severity::High)[i]);
        } else if i < l0 + l1 {
            assert(sorted[i] == severity_bucket(fs, Severity::Medium)[i - l0]);
        } else {
            assert(sorted[i] == severity_bucket(fs, Severity::Low)[i - l0 - l1]);
        }
    }
}

/// Law (stability): for each severity, the rendered order keeps
/// exactly the findings of that severity, in their discovery order.
pub proof fn lemma_severity_sorted_stable(fs: Seq<Finding>, sev: Severity)
    ensures
        severity_bucket(severity_sorted(fs), sev) == severity_bucket(fs, sev),
{
    let b0 = severity_bucket(fs, Severity::High);
    let b1 = severity_bucket(fs, Severity::Medium);
    let b2 = severity_bucket(fs, Severity::Low);
    lemma_bucket_severity(fs, Severity::High);
    lemma_bucket_severity(fs, Severity::Medium);
    lemma_bucket_severity(fs, Severity::Low);
    lemma_bucket_of_concat(b0 + b1, b2, sev);
    lemma_bucket_of_concat(b0, b1, sev);
    lemma_bucket_of_uniform(b0, Severity::High, sev);
    lemma_bucket_of_uniform(b1, Severity::Medium, sev);
    lemma_bucket_of_uniform(b2, Severity::Low, sev);
    match sev {
        Severity::High => {
            assert(severity_bucket(severity_sorted(fs), sev) =~= b0);
        },
        Severity::Medium => {
            assert(severity_bucket(severity_sorted(fs), sev) =~= b1);
        },
        Severity::Low => {
            assert(severity_bucket(severity_sorted(fs), sev) =~= b2);
        },
    }
}

/// Law (permutation): the rendered order is a rearrangement of the
/// discovery order: same findings, same multiplicities.
pub proof fn lemma_severity_sorted_permutes(fs: Seq<Finding>)
    ensures
        severity_sorted(fs).to_multiset() == fs.to_multiset(),
    decreases fs.len(),
{
    broadcast use vstd::seq_lib::lemma_multiset_commutative;
    broadcast use vstd::seq_lib::group_to_multiset_ensures;

    if fs.len() == 0 {
        assert(severity_sorted(fs).to_multiset() =~= fs.to_multiset());
    } else {
        let s = fs.drop_last();
        let x = fs.last();
        lemma_severity_sorted_permutes(s);
        assert(s.push(x) =~= fs);
        let c0 = severity_bucket(fs, Severity::High);
        let c1 = severity_bucket(fs, Severity::Medium);
        let c2 = severity_bucket(fs, Severity::Low);
        let b0 = severity_bucket(s, Severity::High);
        let b1 = severity_bucket(s, Severity::Medium);
        let b2 = severity_bucket(s, Severity::Low);
        match finding_severity_spec(x) {
            Severity::High => {
                assert(c0 =~= b0 + seq![x]);
                assert(c1 =~= b1);
                assert(c2 =~= b2);
            },
            Severity::Medium => {
                assert(c0 =~= b0);
                assert(c1 =~= b1 + seq![x]);
                assert(c2 =~= b2);
            },
            Severity::Low => {
                assert(c0 =~= b0);
                assert(c1 =~= b1);
                assert(c2 =~= b2 + seq![x]);
            },
        }
        assert(seq![x].to_multiset() =~= Multiset::<Finding>::empty().insert(x)) by {
            assert(seq![x] =~= Seq::<Finding>::empty().push(x));
        }
        assert(severity_sorted(fs).to_multiset() =~= fs.to_multiset()) by {
            broadcast use vstd::multiset::group_multiset_axioms;

            assert(severity_sorted(fs).to_multiset() == (c0 + c1 + c2).to_multiset());
            assert(fs.to_multiset() =~= s.to_multiset().insert(x));
            assert((severity_sorted(s)).to_multiset() == (b0 + b1 + b2).to_multiset());
        }
    }
}

/// The analysis result: findings in discovery order, the soft-failure
/// diagnostics, and optional file statistics.
#[derive(Debug)]
pub struct Report {
    pub findings: Vec<Finding>,
    pub diagnostics: Vec<Diagnostic>,
    pub file_info: Option<FileInfo>,
    pub file_path: Option<String>,
}

impl Default for Report {
    /// An empty report.
    fn default() -> (r: Self)
        ensures
            r.findings@ == Seq::<Finding>::empty(),
            r.diagnostics@ == Seq::<Diagnostic>::empty(),
            r.file_info is None,
            r.file_path is None,
    {
        Report { findings: Vec::new(), diagnostics: Vec::new(), file_info: None, file_path: None }
    }
}

impl Report {
    /// Append one finding; nothing else changes.
    pub fn add(&mut self, f: Finding)
        ensures
            final(self).findings@ == old(self).findings@.push(f),
            final(self).diagnostics@ == old(self).diagnostics@,
            final(self).file_info == old(self).file_info,
            final(self).file_path == old(self).file_path,
    {
        self.findings.push(f);
    }

    /// Append one diagnostic; nothing else changes.
    pub fn note(&mut self, d: Diagnostic)
        ensures
            final(self).diagnostics@ == old(self).diagnostics@.push(d),
            final(self).findings@ == old(self).findings@,
            final(self).file_info == old(self).file_info,
            final(self).file_path == old(self).file_path,
    {
        self.diagnostics.push(d);
    }

    /// Record the line statistics of the analyzed file, computed from
    /// its content; findings and diagnostics are untouched.
    pub fn load_file_info(&mut self, content: &str, path: String)
        ensures
            final(self).file_info matches Some(info) && info.comments_count as int == file_counts(
                content@,
            ).comments && info.blank_spaces_count as int == file_counts(content@).blanks
                && info.lines_of_code as int == file_counts(content@).code,
            final(self).file_path matches Some(p) && p@ == path@,
            final(self).findings@ == old(self).findings@,
            final(self).diagnostics@ == old(self).diagnostics@,
    {
        let info = count_source_lines(content);
        self.file_info = Some(info);
        self.file_path = Some(path);
    }

    /// The findings ordered for rendering; see [`severity_sorted`].
    /// The report itself is unchanged.
    pub fn sorted_findings(&self) -> (r: Vec<Finding>)
        ensures
            r@ == severity_sorted(self.findings@),
    {
        let mut out: Vec<Finding> = Vec::new();
        collect_bucket(&self.findings, Severity::High, &mut out);
        collect_bucket(&self.findings, Severity::Medium, &mut out);
        collect_bucket(&self.findings, Severity::Low, &mut out);
        proof {
            assert(out@ =~= severity_sorted(self.findings@));
        }
        out
    }
}

fn collect_bucket(fs: &Vec<Finding>, sev: Severity, out: &mut Vec<Finding>)
    ensures
        final(out)@ == old(out)@ + severity_bucket(fs@, sev),
{
    let n = fs.len();
    let mut i: usize = 0;
    proof {
        assert(fs@.take(0) =~= Seq::<Finding>::empty());
        assert(out@ =~= out@ + severity_bucket(fs@.take(0), sev));
    }
    while i < n
        invariant
            0 <= i <= n,
            n == fs@.len(),
            out@ == old(out)@ + severity_bucket(fs@.take(i as int), sev),
        decreases n - i,
    {
        let f: &Finding = &fs[i];
        proof {
            assert(fs@.take(i as int + 1).drop_last() =~= fs@.take(i as int));
            assert(fs@.take(i as int + 1).last() == fs@[i as int]);
        }
        let s = crate::knowledge_base::finding_severity(f);
        if s == sev {
            out.push(f.clone());
        }
        i = i + 1;
    }
    proof {
        assert(fs@.take(n as int) =~= fs@);
    }
}

} // verus!
