//! The analysis core: per-file entries, ranking by size, and the rendered
//! multi-section report.

use vstd::prelude::*;

use crate::config::AnalyzerConfig;
use crate::format::{
    format_size, pct_str, round_half_even, spec_dec, spec_format_size, spec_pct, spec_pct_tenths,
    u64_to_dec,
};

verus! {

broadcast use vstd::seq_lib::group_to_multiset_ensures;

/// One build artifact, reduced to what the analysis reads: its name and its
/// size in bytes.
pub struct FileEntry {
    pub name: String,
    pub size: usize,
}

impl Clone for FileEntry {
    fn clone(&self) -> (r: Self)
        ensures
            r == *self,
    {
        let r = FileEntry { name: self.name.clone(), size: self.size };
        proof {
            assert(r == *self);
        }
        r
    }
}

/// The total number of bytes over a sequence of entries.
pub open spec fn sum_sizes(s: Seq<FileEntry>) -> nat
    decreases s.len(),
{
    if s.len() == 0 {
        0
    } else {
        sum_sizes(s.drop_last()) + s.last().size as nat
    }
}

/// Entries stand in non-increasing size order.
pub open spec fn sorted_desc(s: Seq<FileEntry>) -> bool {
    forall|i: int, j: int| 0 <= i <= j < s.len() ==> #[trigger] s[i].size >= #[trigger] s[j].size
}

proof fn lemma_sum_take_step(s: Seq<FileEntry>, i: int)
    requires
        0 <= i < s.len(),
    ensures
        sum_sizes(s.take(i + 1)) == sum_sizes(s.take(i)) + s[i].size,
{
    assert(s.take(i + 1).drop_last() =~= s.take(i));
    assert(s.take(i + 1).last() == s[i]);
}

proof fn lemma_sum_take_le(s: Seq<FileEntry>, i: int)
    requires
        0 <= i <= s.len(),
    ensures
        sum_sizes(s.take(i)) <= sum_sizes(s),
    decreases s.len() - i,
{
    if i == s.len() {
        assert(s.take(i) =~= s);
    } else {
        lemma_sum_take_step(s, i);
        lemma_sum_take_le(s, i + 1);
    }
}

proof fn lemma_sum_remove(s: Seq<FileEntry>, i: int)
    requires
        0 <= i < s.len(),
    ensures
        sum_sizes(s.remove(i)) + s[i].size == sum_sizes(s),
    decreases s.len(),
{
    if i == s.len() - 1 {
        assert(s.remove(i) =~= s.drop_last());
    } else {
        assert(s.remove(i).drop_last() =~= s.drop_last().remove(i));
        assert(s.remove(i).last() == s.last());
        lemma_sum_remove(s.drop_last(), i);
    }
}

proof fn lemma_sum_push(s: Seq<FileEntry>, e: FileEntry)
    ensures
        sum_sizes(s.push(e)) == sum_sizes(s) + e.size,
{
    assert(s.push(e).drop_last() =~= s);
    assert(s.push(e).last() == e);
}

/// Reorders the entries into non-increasing size order. Entries of equal size
/// may come out in any order, so only the multiset of entries is promised.
fn sort_desc(entries: Vec<FileEntry>) -> (r: Vec<FileEntry>)
    ensures
        r@.to_multiset() == entries@.to_multiset(),
        r@.len() == entries@.len(),
        sum_sizes(r@) == sum_sizes(entries@),
        sorted_desc(r@),
{
    let mut rest = entries;
    let mut out: Vec<FileEntry> = Vec::new();
    proof {
        assert(out@.to_multiset().add(rest@.to_multiset()) =~= entries@.to_multiset());
    }
    while rest.len() > 0
        invariant
            out@.to_multiset().add(rest@.to_multiset()) == entries@.to_multiset(),
            out@.len() + rest@.len() == entries@.len(),
            sum_sizes(out@) + sum_sizes(rest@) == sum_sizes(entries@),
            sorted_desc(out@),
            forall|i: int, j: int|
                0 <= i < out@.len() && 0 <= j < rest@.len() ==> #[trigger] out@[i].size
                    >= #[trigger] rest@[j].size,
        decreases rest.len(),
    {
        let ghost rest0 = rest@;
        let ghost out0 = out@;
        let mut max_i: usize = 0;
        let mut k: usize = 1;
        while k < rest.len()
            invariant
                0 < rest@.len(),
                max_i < k <= rest@.len(),
                forall|j: int| 0 <= j < k ==> rest@[max_i as int].size >= #[trigger] rest@[j].size,
            decreases rest@.len() - k,
        {
            if rest[k].size > rest[max_i].size {
                max_i = k;
            }
            k = k + 1;
        }
        let e = rest.remove(max_i);
        proof {
            lemma_sum_remove(rest0, max_i as int);
            assert(rest0.contains(rest0[max_i as int]));
        }
        out.push(e);
        proof {
            lemma_sum_push(out0, e);
            let m_out0 = out0.to_multiset();
            let m_rest0 = rest0.to_multiset();
            assert(out@ == out0.push(e));
            assert(out0.push(e).to_multiset() =~= m_out0.insert(e));
            assert(rest@ == rest0.remove(max_i as int));
            assert(rest0.remove(max_i as int).to_multiset() =~= m_rest0.remove(e));
            assert(m_rest0.count(e) > 0);
            assert forall|x: FileEntry|
                m_out0.insert(e).add(m_rest0.remove(e)).count(x) == m_out0.add(m_rest0).count(
                    x,
                ) by {
                if x == e {
                    assert(m_out0.insert(e).count(e) == m_out0.count(e) + 1);
                    assert(m_rest0.remove(e).count(e) == m_rest0.count(e) - 1);
                } else {
                    assert(m_out0.insert(e).count(x) == m_out0.count(x));
                    assert(m_rest0.remove(e).count(x) == m_rest0.count(x));
                }
            }
            assert(out@.to_multiset().add(rest@.to_multiset()) =~= entries@.to_multiset());
            assert forall|i: int, j: int|
                0 <= i < out@.len() && 0 <= j < rest@.len() implies #[trigger] out@[i].size
                >= #[trigger] rest@[j].size by {
                assert(rest@[j] == rest0[if j < max_i as int {
                    j
                } else {
                    j + 1
                }]);
            }
        }
    }
    out
}

/// One per-file report line: name, human-readable size, percentage of the
/// total to one decimal place, and the large-file marker exactly when the
/// size is strictly over the threshold.
pub open spec fn spec_file_line(e: FileEntry, total: nat, threshold: nat) -> Seq<char> {
    e.name@ + ": "@ + spec_format_size(e.size as nat) + " ("@ + spec_pct(e.size as nat, total)
        + "%)"@ + (if e.size as nat > threshold {
        " [LARGE FILE]"@
    } else {
        Seq::<char>::empty()
    })
}

/// The per-file lines, one per entry, in the entries' order.
pub open spec fn spec_file_lines(s: Seq<FileEntry>, total: nat, threshold: nat) -> Seq<Seq<char>>
    decreases s.len(),
{
    if s.len() == 0 {
        Seq::empty()
    } else {
        spec_file_lines(s.drop_last(), total, threshold).push(
            spec_file_line(s.last(), total, threshold),
        )
    }
}

/// How many entries are strictly over the threshold.
pub open spec fn spec_large_count(s: Seq<FileEntry>, threshold: nat) -> nat
    decreases s.len(),
{
    if s.len() == 0 {
        0
    } else {
        spec_large_count(s.drop_last(), threshold) + (if s.last().size as nat > threshold {
            1nat
        } else {
            0nat
        })
    }
}

/// The suggestion lines naming each entry strictly over the threshold, in the
/// entries' order.
pub open spec fn spec_large_lines(s: Seq<FileEntry>, threshold: nat) -> Seq<Seq<char>>
    decreases s.len(),
{
    if s.len() == 0 {
        Seq::empty()
    } else {
        let rest = spec_large_lines(s.drop_last(), threshold);
        if s.last().size as nat > threshold {
            rest.push("   - "@ + s.last().name@ + ": "@ + spec_format_size(s.last().size as nat))
        } else {
            rest
        }
    }
}

/// The estimated compressed size: the total scaled by the fixed ratio 0.35
/// and rounded to the nearest byte. An estimate, not a real compression.
pub open spec fn spec_gzip_estimate(total: nat) -> nat {
    (total * 35 + 50) / 100
}

/// The summary block: file count, total size, estimated compressed size.
pub open spec fn spec_summary_lines(count: nat, total: nat) -> Seq<Seq<char>> {
    seq![
        "\nSummary"@,
        "--------------------------------------------"@,
        "Total files: "@ + spec_dec(count),
        "Total size: "@ + spec_format_size(total),
        "Estimated gzipped: ~"@ + spec_format_size(spec_gzip_estimate(total)),
    ]
}

/// The suggestions block: the count of large files, the threshold, one line
/// per large file, and a fixed closing recommendation.
pub open spec fn spec_suggestion_lines(s: Seq<FileEntry>, threshold: nat) -> Seq<Seq<char>> {
    seq![
        "\nOptimization Suggestions"@,
        "--------------------------------------------"@,
        "WARNING: "@ + spec_dec(spec_large_count(s, threshold)) + " large files detected (> "@
            + spec_format_size(threshold) + ")"@,
    ] + spec_large_lines(s, threshold) + seq![
        "   Consider code splitting or lazy loading for these files."@,
    ]
}

/// The whole report over entries already in display order: a single line for
/// an empty artifact set; otherwise header, per-file lines, summary, and the
/// suggestions block exactly when a large file exists and suggestions are on.
pub open spec fn spec_report(sorted: Seq<FileEntry>, cfg: AnalyzerConfig) -> Seq<Seq<char>> {
    if sorted.len() == 0 {
        seq!["No resources found in the bundle"@]
    } else {
        let total = sum_sizes(sorted);
        let thr = cfg.warning_threshold as nat;
        seq!["\nFarm Bundle Size Analysis"@, "============================================"@]
            + spec_file_lines(sorted, total, thr) + spec_summary_lines(sorted.len(), total) + (
        if spec_large_count(sorted, thr) > 0 && cfg.show_suggestions {
            spec_suggestion_lines(sorted, thr)
        } else {
            Seq::<Seq<char>>::empty()
        })
    }
}

/// `lines` renders `sorted`, a non-increasing reordering of `entries`.
pub open spec fn is_sorted_rendering(
    sorted: Seq<FileEntry>,
    entries: Seq<FileEntry>,
    cfg: AnalyzerConfig,
    lines: Seq<Seq<char>>,
) -> bool {
    &&& sorted.to_multiset() == entries.to_multiset()
    &&& sorted_desc(sorted)
    &&& lines == spec_report(sorted, cfg)
}

/// The report lines are exactly the rendering of some non-increasing
/// reordering of the entries; entries of equal size may appear in any order.
pub open spec fn valid_report(
    entries: Seq<FileEntry>,
    cfg: AnalyzerConfig,
    lines: Seq<Seq<char>>,
) -> bool {
    exists|sorted: Seq<FileEntry>| is_sorted_rendering(sorted, entries, cfg, lines)
}

proof fn lemma_file_lines_take_step(s: Seq<FileEntry>, i: int, total: nat, thr: nat)
    requires
        0 <= i < s.len(),
    ensures
        spec_file_lines(s.take(i + 1), total, thr) == spec_file_lines(s.take(i), total, thr).push(
            spec_file_line(s[i], total, thr),
        ),
{
    assert(s.take(i + 1).drop_last() =~= s.take(i));
    assert(s.take(i + 1).last() == s[i]);
}

proof fn lemma_large_count_take_step(s: Seq<FileEntry>, i: int, thr: nat)
    requires
        0 <= i < s.len(),
    ensures
        spec_large_count(s.take(i + 1), thr) == spec_large_count(s.take(i), thr) + (
        if s[i].size as nat > thr {
            1nat
        } else {
            0nat
        }),
{
    assert(s.take(i + 1).drop_last() =~= s.take(i));
    assert(s.take(i + 1).last() == s[i]);
}

proof fn lemma_large_lines_take_step(s: Seq<FileEntry>, i: int, thr: nat)
    requires
        0 <= i < s.len(),
    ensures
        spec_large_lines(s.take(i + 1), thr) == (if s[i].size as nat > thr {
            spec_large_lines(s.take(i), thr).push(
                "   - "@ + s[i].name@ + ": "@ + spec_format_size(s[i].size as nat),
            )
        } else {
            spec_large_lines(s.take(i), thr)
        }),
{
    assert(s.take(i + 1).drop_last() =~= s.take(i));
    assert(s.take(i + 1).last() == s[i]);
}

/// Every entry's size is bounded by the total.
pub proof fn lemma_element_le_sum(s: Seq<FileEntry>, i: int)
    requires
        0 <= i < s.len(),
    ensures
        s[i].size as nat <= sum_sizes(s),
{
    lemma_sum_take_step(s, i);
    lemma_sum_take_le(s, i + 1);
}

fn total_of(entries: &Vec<FileEntry>) -> (t: usize)
    requires
        sum_sizes(entries@) <= usize::MAX,
    ensures
        t as nat == sum_sizes(entries@),
{
    let mut acc: usize = 0;
    let mut i: usize = 0;
    while i < entries.len()
        invariant
            i <= entries@.len(),
            acc as nat == sum_sizes(entries@.take(i as int)),
            sum_sizes(entries@) <= usize::MAX,
        decreases entries@.len() - i,
    {
        proof {
            lemma_sum_take_step(entries@, i as int);
            lemma_sum_take_le(entries@, i as int + 1);
        }
        acc = acc + entries[i].size;
        i = i + 1;
    }
    proof {
        assert(entries@.take(entries@.len() as int) =~= entries@);
    }
    acc
}

fn gzip_estimate(total: usize) -> (r: usize)
    ensures
        r as nat == spec_gzip_estimate(total as nat),
{
    let t: u128 = total as u128;
    let g: u128 = (t * 35 + 50) / 100;
    proof {
        if t >= 1 {
            vstd::arithmetic::div_mod::lemma_multiply_divide_le(
                (t * 35 + 50) as int,
                100int,
                t as int,
            );
        }
    }
    g as usize
}

fn file_line(e: &FileEntry, total: u128, threshold: usize) -> (r: String)
    requires
        e.size as nat <= total as nat,
    ensures
        r@ == spec_file_line(*e, total as nat, threshold as nat),
{
    let mut s = e.name.clone();
    s.append(": ");
    let fs = format_size(e.size);
    s.append(fs.as_str());
    s.append(" (");
    let ps = pct_str(e.size, total);
    s.append(ps.as_str());
    s.append("%)");
    if e.size > threshold {
        s.append(" [LARGE FILE]");
    }
    proof {
        assert(s@ =~= spec_file_line(*e, total as nat, threshold as nat));
    }
    s
}

/// Appends one per-file line for each entry, in the entries' order.
#[verifier::loop_isolation(false)]
fn push_file_lines(report: &mut Vec<String>, sorted: &Vec<FileEntry>, total: usize, thr: usize)
    requires
        total as nat == sum_sizes(sorted@),
    ensures
        final(report).deep_view() == old(report).deep_view() + spec_file_lines(
            sorted@,
            total as nat,
            thr as nat,
        ),
{
    let ghost base: Seq<Seq<char>> = report.deep_view();
    let ghost sorted0 = sorted@;
    let mut i: usize = 0;
    while i < sorted.len()
        invariant
            i <= sorted0.len(),
            report.deep_view() == base + spec_file_lines(
                sorted0.take(i as int),
                total as nat,
                thr as nat,
            ),
        decreases sorted0.len() - i,
    {
        proof {
            lemma_element_le_sum(sorted0, i as int);
        }
        let line = file_line(&sorted[i], total as u128, thr);
        let ghost pre: Seq<Seq<char>> = report.deep_view();
        let ghost line_view: Seq<char> = line@;
        report.push(line);
        proof {
            assert(report.deep_view() =~= pre.push(line_view));
            lemma_file_lines_take_step(sorted0, i as int, total as nat, thr as nat);
            assert(report.deep_view() =~= base + spec_file_lines(
                sorted0.take(i as int + 1),
                total as nat,
                thr as nat,
            ));
        }
        i = i + 1;
    }
    proof {
        assert(sorted0.take(sorted0.len() as int) =~= sorted0);
    }
}

/// Appends the summary block: file count, total size, estimated compressed
/// size.
fn push_summary(report: &mut Vec<String>, count: usize, total: usize)
    ensures
        final(report).deep_view() == old(report).deep_view() + spec_summary_lines(
            count as nat,
            total as nat,
        ),
{
    let ghost base: Seq<Seq<char>> = report.deep_view();
    report.push(String::from_str("\nSummary"));
    report.push(String::from_str("--------------------------------------------"));
    let mut tf = String::from_str("Total files: ");
    let dcount = u64_to_dec(count as u64);
    tf.append(dcount.as_str());
    report.push(tf);
    let mut ts = String::from_str("Total size: ");
    let fs_total = format_size(total);
    ts.append(fs_total.as_str());
    report.push(ts);
    let mut eg = String::from_str("Estimated gzipped: ~");
    let gz = gzip_estimate(total);
    let fs_gz = format_size(gz);
    eg.append(fs_gz.as_str());
    report.push(eg);
    proof {
        assert(report.deep_view() =~= base + spec_summary_lines(count as nat, total as nat));
    }
}

/// Counts the entries strictly over the threshold.
#[verifier::loop_isolation(false)]
fn count_large(sorted: &Vec<FileEntry>, thr: usize) -> (c: usize)
    ensures
        c as nat == spec_large_count(sorted@, thr as nat),
{
    let ghost sorted0 = sorted@;
    let mut large_count: usize = 0;
    let mut j: usize = 0;
    while j < sorted.len()
        invariant
            j <= sorted0.len(),
            large_count <= j,
            large_count as nat == spec_large_count(sorted0.take(j as int), thr as nat),
        decreases sorted0.len() - j,
    {
        proof {
            lemma_large_count_take_step(sorted0, j as int, thr as nat);
        }
        if sorted[j].size > thr {
            large_count = large_count + 1;
        }
        j = j + 1;
    }
    proof {
        assert(sorted0.take(sorted0.len() as int) =~= sorted0);
    }
    large_count
}

/// Appends the suggestions block: the count of large files, the threshold,
/// one line per large file, and the fixed closing recommendation.
#[verifier::loop_isolation(false)]
fn push_suggestions(
    report: &mut Vec<String>,
    sorted: &Vec<FileEntry>,
    thr: usize,
    large_count: usize,
)
    requires
        large_count as nat == spec_large_count(sorted@, thr as nat),
    ensures
        final(report).deep_view() == old(report).deep_view() + spec_suggestion_lines(
            sorted@,
            thr as nat,
        ),
{
    let ghost base: Seq<Seq<char>> = report.deep_view();
    let ghost sorted0 = sorted@;
    report.push(String::from_str("\nOptimization Suggestions"));
    report.push(String::from_str("--------------------------------------------"));
    let mut w = String::from_str("WARNING: ");
    let dlarge = u64_to_dec(large_count as u64);
    w.append(dlarge.as_str());
    w.append(" large files detected (> ");
    let fthr = format_size(thr);
    w.append(fthr.as_str());
    w.append(")");
    let ghost warn_line: Seq<char> = w@;
    report.push(w);
    let ghost with_warning: Seq<Seq<char>> = report.deep_view();
    proof {
        assert(warn_line =~= "WARNING: "@ + spec_dec(large_count as nat)
            + " large files detected (> "@ + spec_format_size(thr as nat) + ")"@);
        assert(with_warning =~= base + seq![
            "\nOptimization Suggestions"@,
            "--------------------------------------------"@,
            warn_line,
        ]);
    }

    let mut k: usize = 0;
    while k < sorted.len()
        invariant
            k <= sorted0.len(),
            report.deep_view() == with_warning + spec_large_lines(
                sorted0.take(k as int),
                thr as nat,
            ),
        decreases sorted0.len() - k,
    {
        proof {
            lemma_large_lines_take_step(sorted0, k as int, thr as nat);
        }
        if sorted[k].size > thr {
            let mut l = String::from_str("   - ");
            let e: &FileEntry = &sorted[k];
            l.append(e.name.as_str());
            l.append(": ");
            let f = format_size(e.size);
            l.append(f.as_str());
            let ghost pre: Seq<Seq<char>> = report.deep_view();
            let ghost line_view: Seq<char> = l@;
            report.push(l);
            proof {
                assert(line_view =~= "   - "@ + sorted0[k as int].name@ + ": "@
                    + spec_format_size(sorted0[k as int].size as nat));
                assert(report.deep_view() =~= pre.push(line_view));
            }
        }
        proof {
            assert(report.deep_view() =~= with_warning + spec_large_lines(
                sorted0.take(k as int + 1),
                thr as nat,
            ));
        }
        k = k + 1;
    }
    proof {
        assert(sorted0.take(sorted0.len() as int) =~= sorted0);
    }
    let ghost with_large: Seq<Seq<char>> = report.deep_view();
    report.push(
        String::from_str("   Consider code splitting or lazy loading for these files."),
    );
    proof {
        assert(report.deep_view() =~= with_large.push(
            "   Consider code splitting or lazy loading for these files."@,
        ));
        assert(report.deep_view() =~= base + spec_suggestion_lines(sorted0, thr as nat));
    }
}

/// Computes the full report for the given artifact entries under the given
/// configuration. The result is the rendering of the entries reordered into
/// non-increasing size order.
pub fn build_report(entries: Vec<FileEntry>, cfg: &AnalyzerConfig) -> (report: Vec<String>)
    requires
        sum_sizes(entries@) <= usize::MAX,
    ensures
        valid_report(entries@, *cfg, report.deep_view()),
{
    let ghost entries0 = entries@;
    if entries.len() == 0 {
        let mut report: Vec<String> = Vec::new();
        report.push(String::from_str("No resources found in the bundle"));
        proof {
            assert(report.deep_view() =~= spec_report(entries0, *cfg));
            assert(is_sorted_rendering(entries0, entries0, *cfg, report.deep_view()));
        }
        return report;
    }
    let sorted = sort_desc(entries);
    let ghost sorted0 = sorted@;
    let total: usize = total_of(&sorted);
    let thr: usize = cfg.warning_threshold;
    let count: usize = sorted.len();

    let mut report: Vec<String> = Vec::new();
    report.push(String::from_str("\nFarm Bundle Size Analysis"));
    report.push(String::from_str("============================================"));
    proof {
        assert(report.deep_view() =~= seq![
            "\nFarm Bundle Size Analysis"@,
            "============================================"@,
        ]);
    }
    push_file_lines(&mut report, &sorted, total, thr);
    push_summary(&mut report, count, total);
    let large_count = count_large(&sorted, thr);
    if large_count > 0 && cfg.show_suggestions {
        push_suggestions(&mut report, &sorted, thr, large_count);
    }
    proof {
        assert(report.deep_view() =~= spec_report(sorted0, *cfg));
        assert(is_sorted_rendering(sorted0, entries0, *cfg, report.deep_view()));
    }
    report
}

/// `line` ends with the large-file marker.
pub open spec fn has_large_marker(line: Seq<char>) -> bool {
    line.len() >= 13 && line.subrange(line.len() - 13, line.len() as int) == " [LARGE FILE]"@
}

/// An entry's report line carries the large-file marker exactly when its size
/// is strictly over the threshold: a line for a size at or below the
/// threshold never ends with the marker.
pub proof fn lemma_large_marker_iff(e: FileEntry, total: nat, threshold: nat)
    ensures
        has_large_marker(spec_file_line(e, total, threshold)) <==> e.size as nat > threshold,
{
    reveal_strlit(" [LARGE FILE]");
    reveal_strlit("%)");
    let base = e.name@ + ": "@ + spec_format_size(e.size as nat) + " ("@ + spec_pct(
        e.size as nat,
        total,
    ) + "%)"@;
    let line = spec_file_line(e, total, threshold);
    if e.size as nat > threshold {
        assert(line == base + " [LARGE FILE]"@);
        assert(line.subrange(line.len() - 13, line.len() as int) =~= " [LARGE FILE]"@);
    } else {
        assert(line =~= base);
        assert(line[line.len() - 1] == ')');
        if has_large_marker(line) {
            assert(line.subrange(line.len() - 13, line.len() as int)[12] == ']');
            assert(false);
        }
    }
}

/// The i-th per-file line is exactly the line of the i-th entry, so with the
/// entries in non-increasing size order the lines are emitted in
/// non-increasing size order too.
pub proof fn lemma_file_lines_index(s: Seq<FileEntry>, i: int, total: nat, thr: nat)
    requires
        0 <= i < s.len(),
    ensures
        spec_file_lines(s, total, thr).len() == s.len(),
        spec_file_lines(s, total, thr)[i] == spec_file_line(s[i], total, thr),
    decreases s.len(),
{
    let dl = s.drop_last();
    assert(spec_file_lines(s, total, thr) == spec_file_lines(dl, total, thr).push(
        spec_file_line(s.last(), total, thr),
    ));
    if s.len() == 1 {
        assert(dl.len() == 0);
        assert(spec_file_lines(dl, total, thr) == Seq::<Seq<char>>::empty());
    } else if i < s.len() - 1 {
        lemma_file_lines_index(dl, i, total, thr);
        assert(dl[i] == s[i]);
    } else {
        lemma_file_lines_index(dl, i - 1, total, thr);
        assert(s.last() == s[i]);
    }
}

/// In the rendered report, the line of the i-th entry (the first two lines
/// are the header) carries the large-file marker exactly when that entry's
/// size is strictly over the configured threshold.
pub proof fn lemma_report_marker_iff(sorted: Seq<FileEntry>, cfg: AnalyzerConfig, i: int)
    requires
        sorted.len() > 0,
        0 <= i < sorted.len(),
    ensures
        has_large_marker(spec_report(sorted, cfg)[2 + i]) <==> sorted[i].size
            > cfg.warning_threshold,
{
    let total = sum_sizes(sorted);
    let thr = cfg.warning_threshold as nat;
    lemma_file_lines_index(sorted, i, total, thr);
    lemma_large_marker_iff(sorted[i], total, thr);
    assert(spec_report(sorted, cfg)[2 + i] == spec_file_lines(sorted, total, thr)[i]);
}

proof fn lemma_all_small_count_zero(s: Seq<FileEntry>, thr: nat)
    requires
        forall|i: int| 0 <= i < s.len() ==> #[trigger] s[i].size as nat <= thr,
    ensures
        spec_large_count(s, thr) == 0,
    decreases s.len(),
{
    if s.len() > 0 {
        lemma_all_small_count_zero(s.drop_last(), thr);
    }
}

/// With every entry at or below the threshold, the report is exactly the
/// header, the per-file lines and the summary: no suggestions section is
/// appended, whatever `show_suggestions` holds.
pub proof fn lemma_no_large_no_suggestions(sorted: Seq<FileEntry>, cfg: AnalyzerConfig)
    requires
        sorted.len() > 0,
        forall|i: int|
            0 <= i < sorted.len() ==> #[trigger] sorted[i].size <= cfg.warning_threshold,
    ensures
        spec_report(sorted, cfg) == seq![
            "\nFarm Bundle Size Analysis"@,
            "============================================"@,
        ] + spec_file_lines(sorted, sum_sizes(sorted), cfg.warning_threshold as nat)
            + spec_summary_lines(sorted.len(), sum_sizes(sorted)),
{
    lemma_all_small_count_zero(sorted, cfg.warning_threshold as nat);
    assert(spec_report(sorted, cfg) =~= seq![
        "\nFarm Bundle Size Analysis"@,
        "============================================"@,
    ] + spec_file_lines(sorted, sum_sizes(sorted), cfg.warning_threshold as nat)
        + spec_summary_lines(sorted.len(), sum_sizes(sorted)));
}

/// The per-entry percentages of the report, in tenths of a percent, summed
/// over the entries.
pub open spec fn sum_pct_tenths(s: Seq<FileEntry>, total: nat) -> int
    decreases s.len(),
{
    if s.len() == 0 {
        0
    } else {
        sum_pct_tenths(s.drop_last(), total) + spec_pct_tenths(s.last().size as nat, total)
    }
}

proof fn lemma_rhe_close(num: int, den: int)
    requires
        den > 0,
        num >= 0,
    ensures
        -den <= 2 * (den * round_half_even(num, den) - num),
        2 * (den * round_half_even(num, den) - num) <= den,
{
    vstd::arithmetic::div_mod::lemma_fundamental_div_mod(num, den);
    let q = num / den;
    let r = num % den;
    assert(den * (q + 1) == den * q + den) by (nonlinear_arith);
}

proof fn lemma_sum_pct_bound(s: Seq<FileEntry>, total: nat)
    requires
        total > 0,
    ensures
        -((s.len() as int) * (total as int)) <= 2 * ((total as int) * sum_pct_tenths(s, total)
            - 1000 * (sum_sizes(s) as int)),
        2 * ((total as int) * sum_pct_tenths(s, total) - 1000 * (sum_sizes(s) as int)) <= (
        s.len() as int) * (total as int),
    decreases s.len(),
{
    let t = total as int;
    if s.len() == 0 {
        assert(0 * t == 0) by (nonlinear_arith);
    } else {
        let rest = s.drop_last();
        let sz = s.last().size as int;
        let p = spec_pct_tenths(s.last().size as nat, total);
        let a = sum_pct_tenths(rest, total);
        lemma_sum_pct_bound(rest, total);
        lemma_rhe_close(sz * 1000, t);
        assert(t * (a + p) == t * a + t * p) by (nonlinear_arith);
        assert((rest.len() as int + 1) * t == (rest.len() as int) * t + t) by (nonlinear_arith);
        assert(-((rest.len() as int) * t) - t <= 2 * (t * (a + p) - 1000 * (sum_sizes(rest) as int
            + sz)));
        assert(2 * (t * (a + p) - 1000 * (sum_sizes(rest) as int + sz)) <= (rest.len() as int) * t
            + t);
    }
}

/// Over any entries whose total size is positive, the rounded per-entry
/// percentages sum to 100 percent within rounding tolerance: with n entries,
/// the sum of the tenths of a percent differs from 1000 by at most n/2.
pub proof fn lemma_percentages_sum_to_total(s: Seq<FileEntry>)
    requires
        sum_sizes(s) > 0,
    ensures
        2000 - s.len() <= 2 * sum_pct_tenths(s, sum_sizes(s)),
        2 * sum_pct_tenths(s, sum_sizes(s)) <= 2000 + s.len(),
{
    let total = sum_sizes(s);
    let t = total as int;
    let p = sum_pct_tenths(s, total);
    let n = s.len() as int;
    lemma_sum_pct_bound(s, total);
    assert(2 * p <= 2000 + n) by (nonlinear_arith)
        requires
            t > 0,
            2 * (t * p - 1000 * t) <= n * t,
    ;
    assert(2000 - n <= 2 * p) by (nonlinear_arith)
        requires
            t > 0,
            -(n * t) <= 2 * (t * p - 1000 * t),
    ;
}

} // verus!
